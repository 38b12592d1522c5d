//! Verified core of a streaming tag-rename pipeline over binary alignment
//! containers: records are pulled in order, gathered into bounded windows,
//! each record's auxiliary value is relocated from a source key to a
//! destination key, and the results are emitted in the original order.

pub mod record;
pub mod rewrite;
pub mod scheduler;
pub mod driver;
pub mod laws;

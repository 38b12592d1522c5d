//! The Driver: owns the header taken verbatim from the input container,
//! feeds the scheduler one record at a time, and marks the run complete so
//! the index rebuild may follow.

use vstd::prelude::*;
use crate::record::{record_views, Record, RecordV, Tag};
use crate::rewrite::{transform_seq, MissingPolicy};
use crate::scheduler::Scheduler;

verus! {

/// One run of the pipeline. The header is held unchanged for the run's
/// whole lifetime; records flow through the scheduler; once the stream
/// ends the run is finished and only then is the output fit for indexing.
pub struct Driver {
    header: Vec<u8>,
    sched: Scheduler,
    finished: bool,
}

impl Driver {
    /// The header bytes, exactly as the input container supplied them.
    pub closed spec fn header_spec(self) -> Seq<u8> {
        self.header@
    }

    /// The source key of the rename.
    pub closed spec fn from_spec(self) -> Tag {
        self.sched.from_spec()
    }

    /// The destination key of the rename.
    pub closed spec fn to_spec(self) -> Tag {
        self.sched.to_spec()
    }

    /// The policy for records lacking the source key.
    pub closed spec fn policy_spec(self) -> MissingPolicy {
        self.sched.policy_spec()
    }

    /// The scheduler's window capacity.
    pub closed spec fn capacity_spec(self) -> int {
        self.sched.capacity_spec()
    }

    /// Every record accepted so far, in input order.
    pub closed spec fn accepted(self) -> Seq<RecordV> {
        self.sched.accepted()
    }

    /// Every record emitted for the sink so far, in input order.
    pub closed spec fn emitted(self) -> Seq<RecordV> {
        self.sched.emitted()
    }

    /// The records accepted but not yet emitted, in input order.
    pub closed spec fn pending(self) -> Seq<RecordV> {
        self.sched.pending()
    }

    /// Whether the stream has ended and the final window was flushed.
    pub closed spec fn finished_spec(self) -> bool {
        self.finished
    }

    /// The driver's invariant.
    pub closed spec fn wf(self) -> bool {
        &&& self.sched.wf()
        &&& (self.finished ==> self.pending().len() == 0)
    }

    /// A fresh run: the given header, an empty window, nothing emitted.
    pub fn new(header: Vec<u8>, capacity: usize, from: Tag, to: Tag, policy: MissingPolicy) -> (d:
        Driver)
        requires
            capacity >= 1,
        ensures
            d.wf(),
            !d.finished_spec(),
            d.header_spec() == header@,
            d.capacity_spec() == capacity,
            d.from_spec() == from,
            d.to_spec() == to,
            d.policy_spec() == policy,
            d.accepted() == Seq::<RecordV>::empty(),
            d.emitted() == Seq::<RecordV>::empty(),
    {
        Driver { header, sched: Scheduler::new(capacity, from, to, policy), finished: false }
    }

    /// The header for the sink, byte for byte the input's.
    pub fn header(&self) -> (h: &Vec<u8>)
        ensures
            h@ == self.header_spec(),
    {
        &self.header
    }

    /// Hand the header back, consuming the driver.
    pub fn into_header(self) -> (h: Vec<u8>)
        ensures
            h@ == self.header_spec(),
    {
        self.header
    }

    /// The next record of the stream. When it fills the window — and only
    /// then — the whole transformed window comes back for the sink, in
    /// input order. The header never changes.
    pub fn on_record(&mut self, rec: Record) -> (out: Option<Vec<Record>>)
        requires
            old(self).wf(),
            !old(self).finished_spec(),
        ensures
            (out is Some) <==> old(self).pending().len() + 1 == old(self).capacity_spec(),
            final(self).wf(),
            !final(self).finished_spec(),
            final(self).header_spec() == old(self).header_spec(),
            final(self).capacity_spec() == old(self).capacity_spec(),
            final(self).from_spec() == old(self).from_spec(),
            final(self).to_spec() == old(self).to_spec(),
            final(self).policy_spec() == old(self).policy_spec(),
            final(self).accepted() == old(self).accepted().push(rec@),
            match out {
                Some(batch) => {
                    &&& record_views(batch@) == transform_seq(
                        old(self).pending().push(rec@),
                        old(self).from_spec(),
                        old(self).to_spec(),
                        old(self).policy_spec(),
                    )
                    &&& final(self).emitted() == old(self).emitted() + record_views(batch@)
                    &&& final(self).pending() == Seq::<RecordV>::empty()
                },
                None => {
                    &&& final(self).emitted() == old(self).emitted()
                    &&& final(self).pending() == old(self).pending().push(rec@)
                },
            },
    {
        self.sched.push(rec)
    }

    /// End of the stream: flush the final partial window and finish the
    /// run. Everything accepted has then been emitted: the emitted stream
    /// is the transform of the accepted stream, whatever the capacity was.
    /// Only a finished run's output is fit for the index rebuild.
    pub fn on_end(&mut self) -> (out: Vec<Record>)
        requires
            old(self).wf(),
            !old(self).finished_spec(),
        ensures
            final(self).wf(),
            final(self).finished_spec(),
            final(self).header_spec() == old(self).header_spec(),
            final(self).capacity_spec() == old(self).capacity_spec(),
            final(self).from_spec() == old(self).from_spec(),
            final(self).to_spec() == old(self).to_spec(),
            final(self).policy_spec() == old(self).policy_spec(),
            final(self).accepted() == old(self).accepted(),
            record_views(out@) == transform_seq(
                old(self).pending(),
                old(self).from_spec(),
                old(self).to_spec(),
                old(self).policy_spec(),
            ),
            final(self).emitted() == old(self).emitted() + record_views(out@),
            final(self).emitted() == transform_seq(
                final(self).accepted(),
                final(self).from_spec(),
                final(self).to_spec(),
                final(self).policy_spec(),
            ),
    {
        let out = self.sched.finish();
        self.finished = true;
        out
    }
}

/// One whole run over an in-memory stream: every record through the driver
/// in order, final flush included. The output pairs the unchanged header
/// with the transform of the input records; the window capacity does not
/// appear in either.
pub fn run_pipeline(
    header: Vec<u8>,
    records: Vec<Record>,
    capacity: usize,
    from: Tag,
    to: Tag,
    policy: MissingPolicy,
) -> (out: (Vec<u8>, Vec<Record>))
    requires
        capacity >= 1,
    ensures
        out.0@ == header@,
        record_views(out.1@) == transform_seq(record_views(records@), from, to, policy),
{
    let ghost orig = record_views(records@);
    let ghost header_view = header@;
    let mut records = records;
    let mut d = Driver::new(header, capacity, from, to, policy);
    let mut out: Vec<Record> = Vec::new();
    proof {
        assert(record_views(out@) =~= Seq::<RecordV>::empty());
        assert(d.accepted() + record_views(records@) =~= orig);
    }
    while records.len() > 0
        invariant
            d.wf(),
            !d.finished_spec(),
            d.header_spec() == header_view,
            d.from_spec() == from,
            d.to_spec() == to,
            d.policy_spec() == policy,
            d.accepted() + record_views(records@) == orig,
            record_views(out@) == d.emitted(),
        decreases records@.len(),
    {
        let ghost rs_pre = record_views(records@);
        let ghost out_pre = record_views(out@);
        let r = records.remove(0);
        proof {
            assert(r@ == rs_pre[0]);
            assert(record_views(records@) =~= rs_pre.drop_first());
            assert(d.accepted().push(r@) + rs_pre.drop_first() =~= d.accepted() + rs_pre);
        }
        match d.on_record(r) {
            Some(mut batch) => {
                let ghost batch_view = record_views(batch@);
                out.append(&mut batch);
                proof {
                    assert(record_views(out@) =~= out_pre + batch_view);
                }
            },
            None => {},
        }
    }
    let ghost out_pre = record_views(out@);
    let mut tail = d.on_end();
    let ghost tail_view = record_views(tail@);
    out.append(&mut tail);
    proof {
        assert(record_views(records@) =~= Seq::<RecordV>::empty());
        assert(d.accepted() =~= orig);
        assert(record_views(out@) =~= out_pre + tail_view);
        assert(record_views(out@) =~= d.emitted());
    }
    let header_back = d.into_header();
    (header_back, out)
}

} // verus!

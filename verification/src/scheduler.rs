//! The Batch Scheduler: accepts the record stream one record at a time,
//! holds at most one bounded window in memory, and emits each window
//! transformed, in input order, before the next accumulates.

use vstd::prelude::*;
use crate::record::{record_views, Record, RecordV, Tag};
use crate::rewrite::{
    drain_transform, lemma_transform_seq_concat, transform_seq, MissingPolicy,
};

verus! {

/// The scheduler. Its whole history is carried alongside: every record it
/// has accepted and every record it has emitted, both in input order.
pub struct Scheduler {
    capacity: usize,
    from: Tag,
    to: Tag,
    policy: MissingPolicy,
    window: Vec<Record>,
    done: Ghost<Seq<RecordV>>,
    emitted: Ghost<Seq<RecordV>>,
}

impl Scheduler {
    /// The window capacity the scheduler was built with.
    pub closed spec fn capacity_spec(self) -> int {
        self.capacity as int
    }

    /// The source key of the rename.
    pub closed spec fn from_spec(self) -> Tag {
        self.from
    }

    /// The destination key of the rename.
    pub closed spec fn to_spec(self) -> Tag {
        self.to
    }

    /// The policy for records lacking the source key.
    pub closed spec fn policy_spec(self) -> MissingPolicy {
        self.policy
    }

    /// The records of the current, not yet emitted window, in input order.
    pub closed spec fn pending(self) -> Seq<RecordV> {
        record_views(self.window@)
    }

    /// Every record accepted so far, in input order.
    pub closed spec fn accepted(self) -> Seq<RecordV> {
        self.done@ + self.pending()
    }

    /// Every record emitted so far, in input order.
    pub closed spec fn emitted(self) -> Seq<RecordV> {
        self.emitted@
    }

    /// The scheduler's invariant: the window is strictly under capacity,
    /// and what was emitted is exactly the transform of the accepted
    /// records that precede the current window.
    pub closed spec fn wf(self) -> bool {
        &&& self.capacity >= 1
        &&& self.window@.len() < self.capacity
        &&& self.emitted@ == transform_seq(self.done@, self.from, self.to, self.policy)
    }

    /// A scheduler with an empty window and nothing yet accepted or emitted.
    pub fn new(capacity: usize, from: Tag, to: Tag, policy: MissingPolicy) -> (s: Scheduler)
        requires
            capacity >= 1,
        ensures
            s.wf(),
            s.capacity_spec() == capacity,
            s.from_spec() == from,
            s.to_spec() == to,
            s.policy_spec() == policy,
            s.accepted() == Seq::<RecordV>::empty(),
            s.emitted() == Seq::<RecordV>::empty(),
            s.pending() == Seq::<RecordV>::empty(),
    {
        let s = Scheduler {
            capacity,
            from,
            to,
            policy,
            window: Vec::new(),
            done: Ghost(Seq::empty()),
            emitted: Ghost(Seq::empty()),
        };
        proof {
            assert(s.pending() =~= Seq::<RecordV>::empty());
            assert(s.accepted() =~= Seq::<RecordV>::empty());
        }
        s
    }

    /// Accept the next record of the stream. When it fills the window — and
    /// only then — the whole window is transformed and returned for the
    /// sink, in input order, and the window empties; otherwise the record
    /// joins the window and nothing is emitted.
    pub fn push(&mut self, rec: Record) -> (out: Option<Vec<Record>>)
        requires
            old(self).wf(),
        ensures
            (out is Some) <==> old(self).pending().len() + 1 == old(self).capacity_spec(),
            final(self).wf(),
            final(self).capacity_spec() == old(self).capacity_spec(),
            final(self).from_spec() == old(self).from_spec(),
            final(self).to_spec() == old(self).to_spec(),
            final(self).policy_spec() == old(self).policy_spec(),
            final(self).accepted() == old(self).accepted().push(rec@),
            match out {
                Some(batch) => {
                    &&& record_views(batch@) == transform_seq(
                        old(self).pending().push(rec@),
                        old(self).from_spec(),
                        old(self).to_spec(),
                        old(self).policy_spec(),
                    )
                    &&& final(self).emitted() == old(self).emitted() + record_views(batch@)
                    &&& final(self).pending() == Seq::<RecordV>::empty()
                    &&& final(self).emitted() == transform_seq(
                        final(self).accepted(),
                        final(self).from_spec(),
                        final(self).to_spec(),
                        final(self).policy_spec(),
                    )
                },
                None => {
                    &&& final(self).emitted() == old(self).emitted()
                    &&& final(self).pending() == old(self).pending().push(rec@)
                },
            },
    {
        let ghost pre = *self;
        self.window.push(rec);
        proof {
            assert(record_views(self.window@) =~= pre.pending().push(rec@));
            assert(self.done@ + record_views(self.window@) =~= (pre.done@ + pre.pending()).push(
                rec@,
            ));
        }
        if self.window.len() == self.capacity {
            let from = self.from;
            let to = self.to;
            let policy = self.policy;
            let ghost w = record_views(self.window@);
            let batch = drain_transform(&mut self.window, from, to, policy);
            proof {
                lemma_transform_seq_concat(self.done@, w, from, to, policy);
            }
            self.done = Ghost(self.done@ + w);
            self.emitted = Ghost(self.emitted@ + record_views(batch@));
            proof {
                assert(self.pending() =~= Seq::<RecordV>::empty());
                assert(self.accepted() =~= self.done@);
                assert(self.accepted() =~= pre.accepted().push(rec@));
            }
            Some(batch)
        } else {
            None
        }
    }

    /// End of the stream: the final, possibly partial window is transformed
    /// and returned for the sink. Afterwards the emitted stream is the
    /// transform of the whole accepted stream; the window capacity does not
    /// enter into it.
    pub fn finish(&mut self) -> (out: Vec<Record>)
        requires
            old(self).wf(),
        ensures
            final(self).wf(),
            final(self).capacity_spec() == old(self).capacity_spec(),
            final(self).from_spec() == old(self).from_spec(),
            final(self).to_spec() == old(self).to_spec(),
            final(self).policy_spec() == old(self).policy_spec(),
            final(self).accepted() == old(self).accepted(),
            record_views(out@) == transform_seq(
                old(self).pending(),
                old(self).from_spec(),
                old(self).to_spec(),
                old(self).policy_spec(),
            ),
            final(self).emitted() == old(self).emitted() + record_views(out@),
            final(self).pending() == Seq::<RecordV>::empty(),
            final(self).emitted() == transform_seq(
                final(self).accepted(),
                final(self).from_spec(),
                final(self).to_spec(),
                final(self).policy_spec(),
            ),
    {
        let ghost pre = *self;
        let from = self.from;
        let to = self.to;
        let policy = self.policy;
        let ghost w = record_views(self.window@);
        let out = drain_transform(&mut self.window, from, to, policy);
        proof {
            lemma_transform_seq_concat(self.done@, w, from, to, policy);
        }
        self.done = Ghost(self.done@ + w);
        self.emitted = Ghost(self.emitted@ + record_views(out@));
        proof {
            assert(self.pending() =~= Seq::<RecordV>::empty());
            assert(self.accepted() =~= self.done@);
            assert(self.accepted() =~= pre.accepted());
        }
        out
    }
}

/// Prefix validity: at every point of a run, what has been emitted is the
/// transform of some prefix of the accepted stream. A run abandoned between
/// batches therefore leaves a valid, transformed prefix behind; only the
/// index rebuild is owed.
pub proof fn lemma_emitted_is_transform_of_prefix(s: Scheduler)
    requires
        s.wf(),
    ensures
        exists|k: int|
            0 <= k <= s.accepted().len() && s.emitted() == transform_seq(
                #[trigger] s.accepted().take(k),
                s.from_spec(),
                s.to_spec(),
                s.policy_spec(),
            ),
{
    let k = s.done@.len() as int;
    assert(s.accepted().take(k) =~= s.done@);
}

/// Batch-boundary invariance: two drained schedulers over the same input
/// stream and the same rename configuration have emitted the same output,
/// whatever window capacities they ran with.
pub proof fn lemma_batch_invariance(s1: Scheduler, s2: Scheduler)
    requires
        s1.wf(),
        s2.wf(),
        s1.pending().len() == 0,
        s2.pending().len() == 0,
        s1.accepted() == s2.accepted(),
        s1.from_spec() == s2.from_spec(),
        s1.to_spec() == s2.to_spec(),
        s1.policy_spec() == s2.policy_spec(),
    ensures
        s1.emitted() == s2.emitted(),
{
    assert(s1.done@ =~= s1.accepted());
    assert(s2.done@ =~= s2.accepted());
}

} // verus!

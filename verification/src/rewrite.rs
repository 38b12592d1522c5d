//! The Field Rewriter: the per-record transform that relocates the value
//! under the source key to the destination key, and its lift to whole
//! record streams.

use vstd::prelude::*;
use crate::record::{
    aux_views, first_tag_index, has_tag, lemma_first_tag_index, record_views, AuxEntry, AuxV,
    Record, RecordV, Tag,
};

verus! {

/// What becomes of a record that lacks the source key.
#[derive(Clone, Copy, PartialEq, Eq, Structural, Debug)]
pub enum MissingPolicy {
    /// The record is dropped from the output entirely.
    Drop,
    /// The record passes through to the output unchanged.
    Keep,
}

/// The rewritten record, when the source key is present: the first entry
/// bearing it is removed, and its value re-enters under the destination
/// key, appended after all remaining entries. Nothing else changes.
pub open spec fn spec_rewrite(r: RecordV, from: Tag, to: Tag) -> RecordV
    recommends
        has_tag(r.aux, from),
{
    let i = first_tag_index(r.aux, from);
    RecordV { body: r.body, aux: r.aux.remove(i).push(AuxV { tag: to, val: r.aux[i].val }) }
}

/// The transform of one record. A record bearing the source key is
/// rewritten, with two stated exceptions: renaming a key to itself is the
/// identity, and a record that already bears the destination key cannot
/// take the relocated entry — such a record follows the missing-key
/// policy (kept unchanged or dropped) rather than coming out half-renamed.
/// A record without the source key is kept or dropped as the policy says.
pub open spec fn spec_transform(
    r: RecordV,
    from: Tag,
    to: Tag,
    policy: MissingPolicy,
) -> Option<RecordV> {
    if !has_tag(r.aux, from) {
        if policy == MissingPolicy::Keep {
            Some(r)
        } else {
            None
        }
    } else if from == to {
        Some(r)
    } else if has_tag(r.aux, to) {
        if policy == MissingPolicy::Keep {
            Some(r)
        } else {
            None
        }
    } else {
        Some(spec_rewrite(r, from, to))
    }
}

/// The transform of a whole stream, in input order: each retained record's
/// output, dropped records omitted.
pub open spec fn transform_seq(
    rs: Seq<RecordV>,
    from: Tag,
    to: Tag,
    policy: MissingPolicy,
) -> Seq<RecordV>
    decreases rs.len(),
{
    if rs.len() == 0 {
        Seq::empty()
    } else {
        match spec_transform(rs[0], from, to, policy) {
            Some(o) => seq![o] + transform_seq(rs.drop_first(), from, to, policy),
            None => transform_seq(rs.drop_first(), from, to, policy),
        }
    }
}

/// Transforming a concatenation transforms each part in turn: where a
/// stream is cut makes no difference to its transform.
pub proof fn lemma_transform_seq_concat(
    a: Seq<RecordV>,
    b: Seq<RecordV>,
    from: Tag,
    to: Tag,
    policy: MissingPolicy,
)
    ensures
        transform_seq(a + b, from, to, policy) == transform_seq(a, from, to, policy)
            + transform_seq(b, from, to, policy),
    decreases a.len(),
{
    if a.len() == 0 {
        assert(a + b =~= b);
        assert(transform_seq(a, from, to, policy) + transform_seq(b, from, to, policy) =~= transform_seq(
            b,
            from,
            to,
            policy,
        ));
    } else {
        assert((a + b).len() > 0);
        assert((a + b)[0] == a[0]);
        assert((a + b).drop_first() =~= a.drop_first() + b);
        lemma_transform_seq_concat(a.drop_first(), b, from, to, policy);
        match spec_transform(a[0], from, to, policy) {
            Some(o) => {
                assert(seq![o] + (transform_seq(a.drop_first(), from, to, policy) + transform_seq(
                    b,
                    from,
                    to,
                    policy,
                )) =~= (seq![o] + transform_seq(a.drop_first(), from, to, policy)) + transform_seq(
                    b,
                    from,
                    to,
                    policy,
                ));
            },
            None => {},
        }
    }
}

/// The transform of a one-record stream.
pub proof fn lemma_transform_seq_singleton(r: RecordV, from: Tag, to: Tag, policy: MissingPolicy)
    ensures
        transform_seq(seq![r], from, to, policy) == match spec_transform(r, from, to, policy) {
            Some(o) => seq![o],
            None => Seq::<RecordV>::empty(),
        },
{
    let s = seq![r];
    assert(s.len() == 1);
    assert(s[0] == r);
    assert(s.drop_first() =~= Seq::<RecordV>::empty());
    assert(transform_seq(s.drop_first(), from, to, policy) == Seq::<RecordV>::empty());
    match spec_transform(r, from, to, policy) {
        Some(o) => {
            assert(transform_seq(s, from, to, policy) == seq![o] + transform_seq(
                s.drop_first(),
                from,
                to,
                policy,
            ));
            assert(seq![o] + Seq::<RecordV>::empty() =~= seq![o]);
        },
        None => {
            assert(transform_seq(s, from, to, policy) == transform_seq(
                s.drop_first(),
                from,
                to,
                policy,
            ));
        },
    }
}

/// The Field Rewriter. When the record bears the source key, the first such
/// entry is removed and its value re-enters under the destination key,
/// unless the rename is to the key itself (the identity) or the record
/// already bears the destination key (the policy decides, as for a record
/// without the source key). A record without the source key is kept or
/// dropped as the policy says.
pub fn rewrite_record(rec: Record, from: Tag, to: Tag, policy: MissingPolicy) -> (out: Option<
    Record,
>)
    ensures
        (out is Some) == (spec_transform(rec@, from, to, policy) is Some),
        out is Some ==> out.unwrap()@ == spec_transform(rec@, from, to, policy).unwrap(),
{
    let mut rec = rec;
    let ghost orig = rec@;
    match rec.first_index_of(from) {
        Some(i) => {
            if from == to {
                return Some(rec);
            }
            if rec.first_index_of(to).is_some() {
                return match policy {
                    MissingPolicy::Keep => Some(rec),
                    MissingPolicy::Drop => None,
                };
            }
            let entry = rec.aux.remove(i);
            rec.aux.push(AuxEntry { tag: to, value: entry.value });
            proof {
                let iv = i as int;
                let na = aux_views(rec.aux@);
                let target = orig.aux.remove(iv).push(AuxV { tag: to, val: orig.aux[iv].val });
                assert forall|k: int| 0 <= k < na.len() implies na[k] == target[k] by {
                    if k < iv {
                    } else if k < na.len() - 1 {
                    } else {
                    }
                }
                assert(na =~= target);
                assert(rec@ =~= spec_rewrite(orig, from, to));
            }
            Some(rec)
        },
        None => {
            match policy {
                MissingPolicy::Keep => Some(rec),
                MissingPolicy::Drop => None,
            }
        },
    }
}

/// What the transform decides for one record: relocate its source entry,
/// pass it through as it is, or discard it.
#[derive(Clone, Copy, PartialEq, Eq, Structural, Debug)]
pub enum RewriteAction {
    /// The source entry is removed and its value re-enters under the
    /// destination key.
    Relocate,
    /// The record passes to the output unchanged.
    Unchanged,
    /// The record is absent from the output.
    Discard,
}

/// The transform's decision for one record, for a sink that holds the
/// record in another form and carries the decision out itself. The three
/// actions partition the outcomes: discarded, kept identical, or changed.
pub fn rewrite_action(rec: &Record, from: Tag, to: Tag, policy: MissingPolicy) -> (a: RewriteAction)
    ensures
        match a {
            RewriteAction::Discard => spec_transform(rec@, from, to, policy) is None,
            RewriteAction::Unchanged => spec_transform(rec@, from, to, policy) == Some(rec@),
            RewriteAction::Relocate => spec_transform(rec@, from, to, policy) is Some
                && spec_transform(rec@, from, to, policy) != Some(rec@),
        },
{
    match rec.first_index_of(from) {
        Some(_) => {
            if from == to {
                RewriteAction::Unchanged
            } else if rec.first_index_of(to).is_some() {
                match policy {
                    MissingPolicy::Keep => RewriteAction::Unchanged,
                    MissingPolicy::Drop => RewriteAction::Discard,
                }
            } else {
                proof {
                    let rv = rec@;
                    let out = spec_rewrite(rv, from, to);
                    let iv = first_tag_index(rv.aux, from);
                    lemma_first_tag_index(rv.aux, from);
                    lemma_first_tag_index(rv.aux, to);
                    rv.aux.remove_ensures(iv);
                    let n = rv.aux.len() as int;
                    assert(out.aux.len() == n);
                    assert(out.aux[n - 1] == AuxV { tag: to, val: rv.aux[iv].val });
                    assert(rv.aux[n - 1].tag != to);
                    assert(out.aux != rv.aux);
                    assert(out != rv);
                }
                RewriteAction::Relocate
            }
        },
        None => {
            match policy {
                MissingPolicy::Keep => RewriteAction::Unchanged,
                MissingPolicy::Drop => RewriteAction::Discard,
            }
        },
    }
}

/// The slot sequence a vector of optional records stands for.
pub open spec fn slot_views(s: Seq<Option<Record>>) -> Seq<Option<RecordV>> {
    Seq::new(
        s.len(),
        |i: int|
            match s[i] {
                Some(r) => Some(r@),
                None => None,
            },
    )
}

/// What draining an ordered slot sequence yields: the filled slots' records
/// in slot order, emptied slots skipped.
pub open spec fn drain_spec(slots: Seq<Option<RecordV>>) -> Seq<RecordV>
    decreases slots.len(),
{
    if slots.len() == 0 {
        Seq::empty()
    } else {
        match slots[0] {
            Some(o) => seq![o] + drain_spec(slots.drop_first()),
            None => drain_spec(slots.drop_first()),
        }
    }
}

/// Slots that hold, in order, each record's transform drain to the
/// transform of the whole stream: restoring slot order after an
/// order-free per-element map gives the sequential result.
pub proof fn lemma_drain_of_transforms(
    rs: Seq<RecordV>,
    slots: Seq<Option<RecordV>>,
    from: Tag,
    to: Tag,
    policy: MissingPolicy,
)
    requires
        slots.len() == rs.len(),
        forall|k: int| 0 <= k < rs.len() ==> slots[k] == spec_transform(rs[k], from, to, policy),
    ensures
        drain_spec(slots) == transform_seq(rs, from, to, policy),
    decreases rs.len(),
{
    if rs.len() > 0 {
        let rest_r = rs.drop_first();
        let rest_s = slots.drop_first();
        assert forall|k: int| 0 <= k < rest_r.len() implies rest_s[k] == spec_transform(
            rest_r[k],
            from,
            to,
            policy,
        ) by {
            assert(rest_s[k] == slots[k + 1]);
            assert(rest_r[k] == rs[k + 1]);
        }
        lemma_drain_of_transforms(rest_r, rest_s, from, to, policy);
        assert(slots[0] == spec_transform(rs[0], from, to, policy));
    }
}

/// The per-element map of a window into its ordered slot array: slot `k`
/// comes to hold what becomes of record `k`, and the window empties. No
/// element's outcome depends on another's, so a worker pool may compute
/// disjoint slots; the contract pins each slot alone.
pub fn fill_slots(window: &mut Vec<Record>, from: Tag, to: Tag, policy: MissingPolicy) -> (slots:
    Vec<Option<Record>>)
    ensures
        final(window)@.len() == 0,
        slot_views(slots@).len() == record_views(old(window)@).len(),
        forall|k: int|
            0 <= k < slots@.len() ==> slot_views(slots@)[k] == spec_transform(
                record_views(old(window)@)[k],
                from,
                to,
                policy,
            ),
{
    let ghost orig = record_views(old(window)@);
    let mut slots: Vec<Option<Record>> = Vec::new();
    while window.len() > 0
        invariant
            slots@.len() + window@.len() == orig.len(),
            record_views(window@) =~= orig.subrange(slots@.len() as int, orig.len() as int),
            forall|k: int|
                0 <= k < slots@.len() ==> slot_views(slots@)[k] == spec_transform(
                    orig[k],
                    from,
                    to,
                    policy,
                ),
        decreases window@.len(),
    {
        let ghost w_pre = record_views(window@);
        let ghost slots_pre = slots@;
        let r = window.remove(0);
        proof {
            assert(r@ == w_pre[0]);
            assert(r@ == orig[slots_pre.len() as int]);
            assert(record_views(window@) =~= w_pre.drop_first());
            assert(w_pre.drop_first() =~= orig.subrange(
                slots_pre.len() as int + 1,
                orig.len() as int,
            ));
        }
        let slot = rewrite_record(r, from, to, policy);
        slots.push(slot);
        proof {
            assert forall|k: int| 0 <= k < slots@.len() implies slot_views(slots@)[k]
                == spec_transform(orig[k], from, to, policy) by {
                if k < slots_pre.len() {
                    assert(slots@[k] == slots_pre[k]);
                    assert(slot_views(slots_pre)[k] == spec_transform(orig[k], from, to, policy));
                }
            }
        }
    }
    slots
}

/// Drain the slot array in slot order, skipping emptied slots.
pub fn drain_slots(slots: Vec<Option<Record>>) -> (out: Vec<Record>)
    ensures
        record_views(out@) == drain_spec(slot_views(slots@)),
{
    let ghost orig = slot_views(slots@);
    let mut slots = slots;
    let mut out: Vec<Record> = Vec::new();
    proof {
        assert(record_views(out@) =~= Seq::<RecordV>::empty());
    }
    while slots.len() > 0
        invariant
            drain_spec(orig) == record_views(out@) + drain_spec(slot_views(slots@)),
        decreases slots@.len(),
    {
        let ghost s_pre = slot_views(slots@);
        let ghost out_pre = record_views(out@);
        let slot = slots.remove(0);
        proof {
            assert(slot_views(slots@) =~= s_pre.drop_first());
        }
        match slot {
            Some(r) => {
                proof {
                    assert(s_pre[0] == Some(r@));
                }
                out.push(r);
                proof {
                    assert(record_views(out@) =~= out_pre.push(r@));
                    assert(out_pre.push(r@) =~= out_pre + seq![r@]);
                    assert(out_pre + (seq![r@] + drain_spec(s_pre.drop_first())) =~= (out_pre
                        + seq![r@]) + drain_spec(s_pre.drop_first()));
                }
            },
            None => {
                proof {
                    assert(s_pre[0] is None);
                }
            },
        }
    }
    proof {
        assert(record_views(out@) + drain_spec(slot_views(slots@)) =~= record_views(out@));
    }
    out
}

/// Transform every record of a window, in input order, emptying the window:
/// the window is mapped into its slot array and the slots are drained in
/// order.
pub fn drain_transform(window: &mut Vec<Record>, from: Tag, to: Tag, policy: MissingPolicy) -> (out:
    Vec<Record>)
    ensures
        final(window)@.len() == 0,
        record_views(out@) == transform_seq(record_views(old(window)@), from, to, policy),
{
    let ghost w = record_views(old(window)@);
    let slots = fill_slots(window, from, to, policy);
    proof {
        lemma_drain_of_transforms(w, slot_views(slots@), from, to, policy);
    }
    drain_slots(slots)
}

} // verus!

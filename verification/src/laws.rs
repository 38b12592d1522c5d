//! The transform's stated laws: order preservation, selective rewrite,
//! pass-through, and the no-op rename, each proved over the same spec
//! functions the executable contracts use.

use vstd::prelude::*;
use crate::record::{
    first_tag_index, has_tag, lemma_first_tag_index, lemma_first_tag_index_absent,
    lemma_first_tag_index_witness, AuxV, RecordV, Tag,
};
use crate::rewrite::{
    lemma_transform_seq_concat, lemma_transform_seq_singleton, spec_rewrite, spec_transform,
    transform_seq, MissingPolicy,
};

verus! {

/// Where input index `k`'s output stands in the transformed stream: as many
/// places in as there are retained records among the first `k` inputs.
pub open spec fn output_position(
    rs: Seq<RecordV>,
    from: Tag,
    to: Tag,
    policy: MissingPolicy,
    k: int,
) -> int {
    transform_seq(rs.take(k), from, to, policy).len() as int
}

/// Order preservation: any two retained input records keep their relative
/// order in the transform of the whole stream, and each stands at its
/// `output_position`.
pub proof fn lemma_order_preservation(
    rs: Seq<RecordV>,
    from: Tag,
    to: Tag,
    policy: MissingPolicy,
    i: int,
    j: int,
)
    requires
        0 <= i < j < rs.len(),
        spec_transform(rs[i], from, to, policy) is Some,
        spec_transform(rs[j], from, to, policy) is Some,
    ensures
        ({
            let out = transform_seq(rs, from, to, policy);
            let pi = output_position(rs, from, to, policy, i);
            let pj = output_position(rs, from, to, policy, j);
            &&& 0 <= pi < pj < out.len()
            &&& out[pi] == spec_transform(rs[i], from, to, policy).unwrap()
            &&& out[pj] == spec_transform(rs[j], from, to, policy).unwrap()
        }),
{
    let oi = spec_transform(rs[i], from, to, policy).unwrap();
    let oj = spec_transform(rs[j], from, to, policy).unwrap();
    let a = rs.take(i);
    let si = seq![rs[i]];
    let b = rs.subrange(i + 1, j);
    let sj = seq![rs[j]];
    let c = rs.subrange(j + 1, rs.len() as int);
    let ta = transform_seq(a, from, to, policy);
    let tb = transform_seq(b, from, to, policy);
    let tc = transform_seq(c, from, to, policy);

    lemma_transform_seq_singleton(rs[i], from, to, policy);
    lemma_transform_seq_singleton(rs[j], from, to, policy);
    lemma_transform_seq_concat(a, si, from, to, policy);
    lemma_transform_seq_concat(a + si, b, from, to, policy);
    lemma_transform_seq_concat(a + si + b, sj, from, to, policy);
    lemma_transform_seq_concat(a + si + b + sj, c, from, to, policy);

    assert(rs.take(j) =~= a + si + b);
    assert(transform_seq(rs.take(j), from, to, policy) == ta + seq![oi] + tb);
    assert(rs =~= a + si + b + sj + c);
    assert(transform_seq(rs, from, to, policy) == ta + seq![oi] + tb + seq![oj] + tc);

    let pi = output_position(rs, from, to, policy, i);
    let pj = output_position(rs, from, to, policy, j);
    assert(pi == ta.len());
    assert(pj == ta.len() + 1 + tb.len());
    assert((ta + seq![oi] + tb + seq![oj] + tc)[pi] == oi);
    assert((ta + seq![oi] + tb + seq![oj] + tc)[pj] == oj);
}

/// Selective rewrite: when exactly one entry bears the source key, no entry
/// bears the destination key, and the two keys differ, the transform keeps
/// the record, strips the source key, appends the destination key bearing
/// the original value, and leaves every other entry in place and in order.
pub proof fn lemma_selective_rewrite(r: RecordV, from: Tag, to: Tag, policy: MissingPolicy)
    requires
        from != to,
        has_tag(r.aux, from),
        forall|k: int|
            0 <= k < r.aux.len() && k != first_tag_index(r.aux, from) ==> r.aux[k].tag != from,
        !has_tag(r.aux, to),
    ensures
        spec_transform(r, from, to, policy) is Some,
        ({
            let out = spec_transform(r, from, to, policy).unwrap();
            let i = first_tag_index(r.aux, from);
            &&& out.body == r.body
            &&& out.aux.len() == r.aux.len()
            &&& !has_tag(out.aux, from)
            &&& has_tag(out.aux, to)
            &&& first_tag_index(out.aux, to) == out.aux.len() - 1
            &&& out.aux[out.aux.len() - 1] == AuxV { tag: to, val: r.aux[i].val }
            &&& forall|k: int| 0 <= k < i ==> out.aux[k] == r.aux[k]
            &&& forall|k: int| i <= k < r.aux.len() - 1 ==> out.aux[k] == r.aux[k + 1]
        }),
{
    lemma_first_tag_index(r.aux, from);
    lemma_first_tag_index(r.aux, to);
    let i = first_tag_index(r.aux, from);
    let out = spec_rewrite(r, from, to);
    let oa = out.aux;
    r.aux.remove_ensures(i);
    assert(oa.len() == r.aux.len());
    assert forall|k: int| 0 <= k < oa.len() implies #[trigger] oa[k].tag != from by {
        if k < i {
            assert(oa[k] == r.aux[k]);
        } else if k < oa.len() - 1 {
            assert(oa[k] == r.aux[k + 1]);
        } else {
            assert(oa[k].tag == to);
        }
    }
    lemma_first_tag_index_absent(oa, from);
    assert forall|k: int| 0 <= k < oa.len() - 1 implies #[trigger] oa[k].tag != to by {
        if k < i {
            assert(oa[k] == r.aux[k]);
        } else {
            assert(oa[k] == r.aux[k + 1]);
        }
    }
    assert(oa[oa.len() - 1].tag == to);
    lemma_first_tag_index_witness(oa, to, oa.len() - 1);
}

/// Pass-through: a record lacking the source key is returned unchanged
/// under the keep policy, and is absent from the output under the drop
/// policy.
pub proof fn lemma_pass_through(r: RecordV, from: Tag, to: Tag)
    requires
        !has_tag(r.aux, from),
    ensures
        spec_transform(r, from, to, MissingPolicy::Keep) == Some(r),
        spec_transform(r, from, to, MissingPolicy::Drop) is None,
{
}

/// No-op rename: with the source key equal to the destination key, every
/// record that bears the key comes out identical to the input; a record
/// without the key follows the policy, as ever.
pub proof fn lemma_noop_rename(r: RecordV, t: Tag, policy: MissingPolicy)
    ensures
        has_tag(r.aux, t) ==> spec_transform(r, t, t, policy) == Some(r),
        !has_tag(r.aux, t) && policy == MissingPolicy::Keep ==> spec_transform(r, t, t, policy)
            == Some(r),
        !has_tag(r.aux, t) && policy == MissingPolicy::Drop ==> spec_transform(r, t, t, policy)
            is None,
{
}

/// Destination conflict: a record that bears both keys, the two distinct,
/// cannot take the relocated entry under the destination key; it follows
/// the missing-key policy — kept unchanged or dropped, never half-renamed.
pub proof fn lemma_destination_conflict(r: RecordV, from: Tag, to: Tag)
    requires
        from != to,
        has_tag(r.aux, from),
        has_tag(r.aux, to),
    ensures
        spec_transform(r, from, to, MissingPolicy::Keep) == Some(r),
        spec_transform(r, from, to, MissingPolicy::Drop) is None,
{
}

} // verus!

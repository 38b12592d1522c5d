//! The pipeline's data model: two-byte auxiliary keys, auxiliary entries,
//! and alignment records with their mathematical values.

use vstd::prelude::*;

verus! {

/// A two-byte auxiliary key, as the container format names its record tags.
#[derive(Clone, Copy, PartialEq, Eq, Structural, Debug)]
pub struct Tag {
    pub b0: u8,
    pub b1: u8,
}

impl Tag {
    /// The key a user-supplied tag string names: its first two bytes.
    /// Strings such as `MA:Z:` carry a type suffix, which the key ignores.
    pub fn from_bytes(bytes: &Vec<u8>) -> (t: Option<Tag>)
        ensures
            bytes@.len() >= 2 ==> t == Some(Tag { b0: bytes@[0], b1: bytes@[1] }),
            bytes@.len() < 2 ==> t is None,
    {
        if bytes.len() >= 2 {
            Some(Tag { b0: bytes[0], b1: bytes[1] })
        } else {
            None
        }
    }
}

/// One auxiliary entry: a key and the entry's encoded value, type
/// discriminator included. The pipeline relocates whole entries and never
/// reinterprets the value bytes.
pub struct AuxEntry {
    pub tag: Tag,
    pub value: Vec<u8>,
}

/// The mathematical value of an auxiliary entry.
#[verifier::ext_equal]
pub struct AuxV {
    pub tag: Tag,
    pub val: Seq<u8>,
}

impl View for AuxEntry {
    type V = AuxV;

    open spec fn view(&self) -> AuxV {
        AuxV { tag: self.tag, val: self.value@ }
    }
}

/// One alignment record as the pipeline models it: the encoded fixed fields
/// (name, flags, coordinates, sequence, quality) as opaque bytes the
/// transform never touches, and the ordered auxiliary entries.
pub struct Record {
    pub body: Vec<u8>,
    pub aux: Vec<AuxEntry>,
}

/// The mathematical value of a record.
#[verifier::ext_equal]
pub struct RecordV {
    pub body: Seq<u8>,
    pub aux: Seq<AuxV>,
}

/// The entry sequence a sequence of auxiliary entries stands for.
pub open spec fn aux_views(s: Seq<AuxEntry>) -> Seq<AuxV> {
    Seq::new(s.len(), |i: int| s[i]@)
}

/// The record sequence a sequence of records stands for.
pub open spec fn record_views(s: Seq<Record>) -> Seq<RecordV> {
    Seq::new(s.len(), |i: int| s[i]@)
}

impl View for Record {
    type V = RecordV;

    open spec fn view(&self) -> RecordV {
        RecordV { body: self.body@, aux: aux_views(self.aux@) }
    }
}

/// Index of the first entry of `aux` bearing key `t`, or -1 when none does.
pub open spec fn first_tag_index(aux: Seq<AuxV>, t: Tag) -> int
    decreases aux.len(),
{
    if aux.len() == 0 {
        -1
    } else if aux[0].tag == t {
        0
    } else if first_tag_index(aux.drop_first(), t) == -1 {
        -1
    } else {
        1 + first_tag_index(aux.drop_first(), t)
    }
}

/// Whether some entry of `aux` bears key `t`.
pub open spec fn has_tag(aux: Seq<AuxV>, t: Tag) -> bool {
    first_tag_index(aux, t) >= 0
}

/// What `first_tag_index` finds: an entry bearing the key, behind none that
/// does; and nothing, exactly when no entry bears the key.
pub proof fn lemma_first_tag_index(aux: Seq<AuxV>, t: Tag)
    ensures
        has_tag(aux, t) ==> {
            let i = first_tag_index(aux, t);
            &&& 0 <= i < aux.len()
            &&& aux[i].tag == t
            &&& forall|j: int| 0 <= j < i ==> aux[j].tag != t
        },
        !has_tag(aux, t) ==> forall|j: int| 0 <= j < aux.len() ==> aux[j].tag != t,
    decreases aux.len(),
{
    if aux.len() == 0 {
    } else if aux[0].tag == t {
    } else {
        let rest = aux.drop_first();
        lemma_first_tag_index(rest, t);
        if has_tag(rest, t) {
            let i = 1 + first_tag_index(rest, t);
            assert(aux[i] == rest[i - 1]);
            assert forall|j: int| 0 <= j < i implies aux[j].tag != t by {
                if j > 0 {
                    assert(aux[j] == rest[j - 1]);
                }
            }
        } else {
            assert forall|j: int| 0 <= j < aux.len() implies aux[j].tag != t by {
                if j > 0 {
                    assert(aux[j] == rest[j - 1]);
                }
            }
        }
    }
}

/// The first index is pinned by any witness: an entry bearing the key,
/// behind none that does, stands exactly at `first_tag_index`.
pub proof fn lemma_first_tag_index_witness(aux: Seq<AuxV>, t: Tag, i: int)
    requires
        0 <= i < aux.len(),
        aux[i].tag == t,
        forall|j: int| 0 <= j < i ==> aux[j].tag != t,
    ensures
        first_tag_index(aux, t) == i,
    decreases aux.len(),
{
    if i == 0 {
    } else {
        let rest = aux.drop_first();
        assert(rest[i - 1] == aux[i]);
        assert forall|j: int| 0 <= j < i - 1 implies rest[j].tag != t by {
            assert(rest[j] == aux[j + 1]);
        }
        lemma_first_tag_index_witness(rest, t, i - 1);
    }
}

/// When no entry bears the key, nothing is found.
pub proof fn lemma_first_tag_index_absent(aux: Seq<AuxV>, t: Tag)
    requires
        forall|j: int| 0 <= j < aux.len() ==> aux[j].tag != t,
    ensures
        first_tag_index(aux, t) == -1,
    decreases aux.len(),
{
    if aux.len() > 0 {
        let rest = aux.drop_first();
        assert forall|j: int| 0 <= j < rest.len() implies rest[j].tag != t by {
            assert(rest[j] == aux[j + 1]);
        }
        lemma_first_tag_index_absent(rest, t);
    }
}

impl Record {
    /// Position of the first auxiliary entry bearing key `t`, if any does.
    pub fn first_index_of(&self, t: Tag) -> (r: Option<usize>)
        ensures
            match r {
                Some(i) => {
                    &&& has_tag(self@.aux, t)
                    &&& i == first_tag_index(self@.aux, t)
                    &&& i < self.aux@.len()
                },
                None => !has_tag(self@.aux, t),
            },
    {
        let mut i: usize = 0;
        while i < self.aux.len()
            invariant
                i <= self.aux.len(),
                forall|j: int| 0 <= j < i ==> self@.aux[j].tag != t,
            decreases self.aux.len() - i,
        {
            if self.aux[i].tag == t {
                proof {
                    assert(self@.aux[i as int].tag == t);
                    lemma_first_tag_index_witness(self@.aux, t, i as int);
                }
                return Some(i);
            }
            i = i + 1;
        }
        proof {
            lemma_first_tag_index_absent(self@.aux, t);
        }
        None
    }
}

} // verus!

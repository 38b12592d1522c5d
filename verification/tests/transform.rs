use bam_re_tagger::record::{AuxEntry, Record, Tag};
use bam_re_tagger::rewrite::{
    drain_slots, fill_slots, rewrite_action, rewrite_record, MissingPolicy, RewriteAction,
};

fn tag(a: u8, b: u8) -> Tag {
    Tag { b0: a, b1: b }
}

fn entry(a: u8, b: u8, value: &[u8]) -> AuxEntry {
    AuxEntry { tag: tag(a, b), value: value.to_vec() }
}

fn record(body: &[u8], aux: Vec<AuxEntry>) -> Record {
    Record { body: body.to_vec(), aux }
}

#[test]
fn tag_from_full_style_string() {
    let t = Tag::from_bytes(&b"MA:Z:".to_vec()).unwrap();
    assert_eq!(t.b0, b'M');
    assert_eq!(t.b1, b'A');
    let t2 = Tag::from_bytes(&b"UB".to_vec()).unwrap();
    assert_eq!(t2.b0, b'U');
    assert_eq!(t2.b1, b'B');
}

#[test]
fn tag_from_short_string_is_rejected() {
    assert!(Tag::from_bytes(&b"M".to_vec()).is_none());
    assert!(Tag::from_bytes(&Vec::new()).is_none());
}

#[test]
fn rewrite_moves_value_to_destination_key() {
    let rec = record(
        b"body",
        vec![entry(b'X', b'Y', b"keep"), entry(b'M', b'A', b"abc"), entry(b'Z', b'Z', b"tail")],
    );
    let out = rewrite_record(rec, tag(b'M', b'A'), tag(b'U', b'B'), MissingPolicy::Drop).unwrap();
    assert_eq!(out.body, b"body".to_vec());
    assert_eq!(out.aux.len(), 3);
    // untouched entries keep their place; the renamed entry moves to the end
    assert_eq!((out.aux[0].tag.b0, out.aux[0].tag.b1), (b'X', b'Y'));
    assert_eq!(out.aux[0].value, b"keep".to_vec());
    assert_eq!((out.aux[1].tag.b0, out.aux[1].tag.b1), (b'Z', b'Z'));
    assert_eq!(out.aux[1].value, b"tail".to_vec());
    assert_eq!((out.aux[2].tag.b0, out.aux[2].tag.b1), (b'U', b'B'));
    assert_eq!(out.aux[2].value, b"abc".to_vec());
    // the source key is gone
    assert!(out.aux.iter().all(|e| (e.tag.b0, e.tag.b1) != (b'M', b'A')));
}

#[test]
fn rewrite_acts_on_first_matching_entry_only() {
    let rec = record(b"", vec![entry(b'M', b'A', b"first"), entry(b'M', b'A', b"second")]);
    let out = rewrite_record(rec, tag(b'M', b'A'), tag(b'U', b'B'), MissingPolicy::Drop).unwrap();
    assert_eq!(out.aux.len(), 2);
    assert_eq!((out.aux[0].tag.b0, out.aux[0].tag.b1), (b'M', b'A'));
    assert_eq!(out.aux[0].value, b"second".to_vec());
    assert_eq!((out.aux[1].tag.b0, out.aux[1].tag.b1), (b'U', b'B'));
    assert_eq!(out.aux[1].value, b"first".to_vec());
}

#[test]
fn missing_key_keep_policy_passes_record_through_unchanged() {
    let rec = record(b"payload", vec![entry(b'X', b'Y', b"v")]);
    let out = rewrite_record(rec, tag(b'M', b'A'), tag(b'U', b'B'), MissingPolicy::Keep).unwrap();
    assert_eq!(out.body, b"payload".to_vec());
    assert_eq!(out.aux.len(), 1);
    assert_eq!((out.aux[0].tag.b0, out.aux[0].tag.b1), (b'X', b'Y'));
    assert_eq!(out.aux[0].value, b"v".to_vec());
}

#[test]
fn missing_key_drop_policy_drops_record() {
    let rec = record(b"payload", vec![entry(b'X', b'Y', b"v")]);
    assert!(rewrite_record(rec, tag(b'M', b'A'), tag(b'U', b'B'), MissingPolicy::Drop).is_none());
}

#[test]
fn empty_value_is_relocated_byte_identical() {
    let rec = record(b"", vec![entry(b'M', b'A', b"")]);
    let out = rewrite_record(rec, tag(b'M', b'A'), tag(b'U', b'B'), MissingPolicy::Drop).unwrap();
    assert_eq!(out.aux.len(), 1);
    assert_eq!((out.aux[0].tag.b0, out.aux[0].tag.b1), (b'U', b'B'));
    assert_eq!(out.aux[0].value, Vec::<u8>::new());
}

#[test]
fn noop_rename_on_last_entry_is_identity() {
    let rec = record(b"b", vec![entry(b'X', b'Y', b"v"), entry(b'M', b'A', b"abc")]);
    let out = rewrite_record(rec, tag(b'M', b'A'), tag(b'M', b'A'), MissingPolicy::Drop).unwrap();
    assert_eq!(out.body, b"b".to_vec());
    assert_eq!(out.aux.len(), 2);
    assert_eq!((out.aux[0].tag.b0, out.aux[0].tag.b1), (b'X', b'Y'));
    assert_eq!(out.aux[0].value, b"v".to_vec());
    assert_eq!((out.aux[1].tag.b0, out.aux[1].tag.b1), (b'M', b'A'));
    assert_eq!(out.aux[1].value, b"abc".to_vec());
}

#[test]
fn noop_rename_with_key_before_other_entries_is_identity() {
    let rec = record(b"", vec![entry(b'M', b'A', b"x"), entry(b'N', b'B', b"y")]);
    let out = rewrite_record(rec, tag(b'M', b'A'), tag(b'M', b'A'), MissingPolicy::Drop).unwrap();
    assert_eq!(out.aux.len(), 2);
    assert_eq!((out.aux[0].tag.b0, out.aux[0].tag.b1), (b'M', b'A'));
    assert_eq!(out.aux[0].value, b"x".to_vec());
    assert_eq!((out.aux[1].tag.b0, out.aux[1].tag.b1), (b'N', b'B'));
    assert_eq!(out.aux[1].value, b"y".to_vec());
}

#[test]
fn destination_conflict_keep_policy_leaves_record_unchanged() {
    let rec = record(b"b", vec![entry(b'M', b'A', b"x"), entry(b'U', b'B', b"old")]);
    let out = rewrite_record(rec, tag(b'M', b'A'), tag(b'U', b'B'), MissingPolicy::Keep).unwrap();
    assert_eq!(out.body, b"b".to_vec());
    assert_eq!(out.aux.len(), 2);
    assert_eq!((out.aux[0].tag.b0, out.aux[0].tag.b1), (b'M', b'A'));
    assert_eq!(out.aux[0].value, b"x".to_vec());
    assert_eq!((out.aux[1].tag.b0, out.aux[1].tag.b1), (b'U', b'B'));
    assert_eq!(out.aux[1].value, b"old".to_vec());
}

#[test]
fn destination_conflict_drop_policy_drops_record() {
    let rec = record(b"b", vec![entry(b'M', b'A', b"x"), entry(b'U', b'B', b"old")]);
    assert!(rewrite_record(rec, tag(b'M', b'A'), tag(b'U', b'B'), MissingPolicy::Drop).is_none());
}

#[test]
fn rewrite_action_partitions_the_outcomes() {
    let from = tag(b'M', b'A');
    let to = tag(b'U', b'B');
    let tagged = record(b"", vec![entry(b'M', b'A', b"v")]);
    let untagged = record(b"", vec![entry(b'X', b'Y', b"v")]);
    let conflicted = record(b"", vec![entry(b'M', b'A', b"v"), entry(b'U', b'B', b"w")]);
    assert_eq!(rewrite_action(&tagged, from, to, MissingPolicy::Drop), RewriteAction::Relocate);
    assert_eq!(rewrite_action(&tagged, from, from, MissingPolicy::Drop), RewriteAction::Unchanged);
    assert_eq!(rewrite_action(&untagged, from, to, MissingPolicy::Drop), RewriteAction::Discard);
    assert_eq!(rewrite_action(&untagged, from, to, MissingPolicy::Keep), RewriteAction::Unchanged);
    assert_eq!(
        rewrite_action(&conflicted, from, to, MissingPolicy::Drop),
        RewriteAction::Discard
    );
    assert_eq!(
        rewrite_action(&conflicted, from, to, MissingPolicy::Keep),
        RewriteAction::Unchanged
    );
}

#[test]
fn fill_slots_maps_each_record_to_its_slot() {
    let mut window = vec![
        record(b"A", vec![entry(b'M', b'A', b"1")]),
        record(b"B", vec![entry(b'X', b'Y', b"2")]),
        record(b"C", vec![entry(b'M', b'A', b"3")]),
    ];
    let slots = fill_slots(&mut window, tag(b'M', b'A'), tag(b'U', b'B'), MissingPolicy::Drop);
    assert!(window.is_empty());
    assert_eq!(slots.len(), 3);
    assert!(slots[0].is_some());
    assert!(slots[1].is_none());
    assert!(slots[2].is_some());
    let a = slots[0].as_ref().unwrap();
    assert_eq!(a.body, b"A".to_vec());
    assert_eq!((a.aux[0].tag.b0, a.aux[0].tag.b1), (b'U', b'B'));
    assert_eq!(a.aux[0].value, b"1".to_vec());
}

#[test]
fn drain_slots_keeps_slot_order_and_skips_empty_slots() {
    let slots = vec![
        Some(record(b"first", vec![])),
        None,
        Some(record(b"second", vec![])),
        None,
    ];
    let out = drain_slots(slots);
    assert_eq!(out.len(), 2);
    assert_eq!(out[0].body, b"first".to_vec());
    assert_eq!(out[1].body, b"second".to_vec());
}

use bam_re_tagger::driver::{run_pipeline, Driver};
use bam_re_tagger::record::{AuxEntry, Record, Tag};
use bam_re_tagger::rewrite::MissingPolicy;
use bam_re_tagger::scheduler::Scheduler;

fn tag(a: u8, b: u8) -> Tag {
    Tag { b0: a, b1: b }
}

fn entry(a: u8, b: u8, value: &[u8]) -> AuxEntry {
    AuxEntry { tag: tag(a, b), value: value.to_vec() }
}

fn record(body: &[u8], aux: Vec<AuxEntry>) -> Record {
    Record { body: body.to_vec(), aux }
}

/// The three-record stream the scenarios share: A bears `MA`="abc",
/// B bears no `MA`, C bears `MA`="".
fn three_records() -> Vec<Record> {
    vec![
        record(b"A", vec![entry(b'M', b'A', b"abc")]),
        record(b"B", vec![entry(b'X', b'Y', b"other")]),
        record(b"C", vec![entry(b'M', b'A', b"")]),
    ]
}

fn keys(r: &Record) -> Vec<(u8, u8)> {
    r.aux.iter().map(|e| (e.tag.b0, e.tag.b1)).collect()
}

#[test]
fn three_records_drop_policy() {
    let (_, out) = run_pipeline(
        Vec::new(),
        three_records(),
        1000,
        tag(b'M', b'A'),
        tag(b'U', b'B'),
        MissingPolicy::Drop,
    );
    assert_eq!(out.len(), 2);
    // A first, C second: input order is kept
    assert_eq!(out[0].body, b"A".to_vec());
    assert_eq!(out[1].body, b"C".to_vec());
    assert_eq!(keys(&out[0]), vec![(b'U', b'B')]);
    assert_eq!(out[0].aux[0].value, b"abc".to_vec());
    assert_eq!(keys(&out[1]), vec![(b'U', b'B')]);
    assert_eq!(out[1].aux[0].value, Vec::<u8>::new());
}

#[test]
fn three_records_keep_policy() {
    let (_, out) = run_pipeline(
        Vec::new(),
        three_records(),
        1000,
        tag(b'M', b'A'),
        tag(b'U', b'B'),
        MissingPolicy::Keep,
    );
    assert_eq!(out.len(), 3);
    assert_eq!(out[0].body, b"A".to_vec());
    assert_eq!(out[1].body, b"B".to_vec());
    assert_eq!(out[2].body, b"C".to_vec());
    // A and C rewritten
    assert_eq!(keys(&out[0]), vec![(b'U', b'B')]);
    assert_eq!(out[0].aux[0].value, b"abc".to_vec());
    assert_eq!(keys(&out[2]), vec![(b'U', b'B')]);
    assert_eq!(out[2].aux[0].value, Vec::<u8>::new());
    // B unchanged
    assert_eq!(keys(&out[1]), vec![(b'X', b'Y')]);
    assert_eq!(out[1].aux[0].value, b"other".to_vec());
}

fn flat(out: &[Record]) -> Vec<(Vec<u8>, Vec<(u8, u8, Vec<u8>)>)> {
    out.iter()
        .map(|r| {
            (
                r.body.clone(),
                r.aux.iter().map(|e| (e.tag.b0, e.tag.b1, e.value.clone())).collect(),
            )
        })
        .collect()
}

#[test]
fn output_does_not_depend_on_window_capacity() {
    for policy in [MissingPolicy::Drop, MissingPolicy::Keep] {
        let mut flats = Vec::new();
        for capacity in [1usize, 2, 3, 1000] {
            let (_, out) = run_pipeline(
                Vec::new(),
                three_records(),
                capacity,
                tag(b'M', b'A'),
                tag(b'U', b'B'),
                policy,
            );
            flats.push(flat(&out));
        }
        assert!(flats.windows(2).all(|w| w[0] == w[1]));
    }
}

#[test]
fn header_round_trips_byte_for_byte() {
    let header = b"@HD\tVN:1.6\tSO:coordinate\n@SQ\tSN:chr1\tLN:248956422\n".to_vec();
    let (header_out, _) = run_pipeline(
        header.clone(),
        three_records(),
        2,
        tag(b'M', b'A'),
        tag(b'U', b'B'),
        MissingPolicy::Drop,
    );
    assert_eq!(header_out, header);
}

#[test]
fn empty_input_gives_empty_output_with_header() {
    let header = b"@HD\tVN:1.6\n".to_vec();
    let (header_out, out) = run_pipeline(
        header.clone(),
        Vec::new(),
        1,
        tag(b'M', b'A'),
        tag(b'U', b'B'),
        MissingPolicy::Drop,
    );
    assert_eq!(header_out, header);
    assert!(out.is_empty());
}

#[test]
fn scheduler_emits_only_full_windows_until_finish() {
    let mut s = Scheduler::new(2, tag(b'M', b'A'), tag(b'U', b'B'), MissingPolicy::Keep);
    assert!(s.push(record(b"A", vec![entry(b'M', b'A', b"1")])).is_none());
    let batch = s.push(record(b"B", vec![entry(b'M', b'A', b"2")]));
    let batch = batch.expect("a full window must flush");
    assert_eq!(batch.len(), 2);
    assert_eq!(batch[0].body, b"A".to_vec());
    assert_eq!(batch[0].aux[0].value, b"1".to_vec());
    assert_eq!(batch[1].body, b"B".to_vec());
    assert!(s.push(record(b"C", vec![entry(b'M', b'A', b"3")])).is_none());
    let rest = s.finish();
    assert_eq!(rest.len(), 1);
    assert_eq!(rest[0].body, b"C".to_vec());
    assert_eq!((rest[0].aux[0].tag.b0, rest[0].aux[0].tag.b1), (b'U', b'B'));
}

#[test]
fn driver_keeps_header_and_flushes_on_end() {
    let header = b"@HD\tVN:1.6\n".to_vec();
    let mut d = Driver::new(header.clone(), 10, tag(b'M', b'A'), tag(b'U', b'B'), MissingPolicy::Drop);
    assert_eq!(d.header(), &header);
    assert!(d.on_record(record(b"A", vec![entry(b'M', b'A', b"v")])).is_none());
    assert!(d.on_record(record(b"B", vec![])).is_none());
    let out = d.on_end();
    assert_eq!(d.header(), &header);
    assert_eq!(out.len(), 1);
    assert_eq!(out[0].body, b"A".to_vec());
    assert_eq!(d.into_header(), header);
}

#[test]
fn noop_rename_run_reproduces_the_input() {
    let header = b"@HD\tVN:1.6\n".to_vec();
    let (header_out, out) = run_pipeline(
        header.clone(),
        three_records(),
        2,
        tag(b'M', b'A'),
        tag(b'M', b'A'),
        MissingPolicy::Keep,
    );
    assert_eq!(header_out, header);
    assert_eq!(flat(&out), flat(&three_records()));
}

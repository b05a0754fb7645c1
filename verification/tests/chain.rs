use postprocessor::chain::{serve, Pass};
use postprocessor::clock::timestamp;
use postprocessor::compress::Base64;
use postprocessor::gelf::Gelf;
use postprocessor::join::Join;
use postprocessor::prefix::{LengthPrefix, TextualLength};
use postprocessor::{
    finish, make_postprocessors, postprocess, postprocess_at, Error, PostprocessorConfig, Stage,
};

fn chain_of(names: &[&str]) -> Vec<Stage> {
    let configs: Vec<PostprocessorConfig> =
        names.iter().map(|name| PostprocessorConfig::from_name(name)).collect();
    make_postprocessors(&configs).unwrap()
}

#[test]
fn an_empty_chain_hands_the_payload_on() {
    let mut chain: Vec<Stage> = Vec::new();
    assert_eq!(postprocess(&mut chain, 0, b"snot".to_vec(), "test").unwrap(), vec![b"snot".to_vec()]);
    assert!(finish(&mut chain, "test").unwrap().is_empty());
}

#[test]
fn stages_apply_in_the_order_of_the_chain() {
    let mut chain = chain_of(&["base64", "lines"]);
    let frames = postprocess(&mut chain, 0, b"snot".to_vec(), "test").unwrap();
    assert_eq!(frames, vec![b"c25vdA==\n".to_vec()]);
    let mut chain = chain_of(&["lines", "base64"]);
    let frames = postprocess(&mut chain, 0, b"snot".to_vec(), "test").unwrap();
    assert_eq!(frames, vec![b"c25vdAo=".to_vec()]);
}

#[test]
fn fan_out_keeps_its_order_through_later_stages() {
    let mut chain = vec![
        Stage::Gelf(Gelf::new(4, 128).unwrap()),
        Stage::TextualLength(TextualLength {}),
    ];
    let frames = postprocess_at(&mut chain, 1, 2, b"abcdefghij".to_vec(), "test").unwrap();
    assert_eq!(
        frames,
        vec![
            [&b"16 "[..], &[0x1e, 0x0f, 0, 0, 0, 0, 0, 0, 0, 0, 0, 3], &b"abcd"[..]].concat(),
            [&b"16 "[..], &[0x1e, 0x0f, 0, 0, 0, 0, 0, 0, 0, 0, 1, 3], &b"efgh"[..]].concat(),
            [&b"14 "[..], &[0x1e, 0x0f, 0, 0, 0, 0, 0, 0, 0, 0, 2, 3], &b"ij"[..]].concat(),
        ]
    );
}

#[test]
fn a_stage_sees_every_buffer_of_the_stage_before() {
    let mut chain = vec![
        Stage::Gelf(Gelf::new(13, 128).unwrap()),
        Stage::Gelf(Gelf::new(20, 128).unwrap()),
    ];
    let data: Vec<u8> = (0..26_u8).collect();
    let frames = postprocess_at(&mut chain, 0, 0, data.clone(), "test").unwrap();
    assert_eq!(frames.len(), 4);
    let first = [&[0x1e, 0x0f, 0, 0, 0, 0, 0, 0, 0, 0, 0, 2][..], &data[..13]].concat();
    let second = [&[0x1e, 0x0f, 0, 0, 0, 0, 0, 0, 0, 0, 1, 2][..], &data[13..]].concat();
    assert_eq!(frames[0], [&[0x1e, 0x0f, 0, 0, 0, 0, 0, 0, 0, 0, 0, 2][..], &first[..20]].concat());
    assert_eq!(frames[1], [&[0x1e, 0x0f, 0, 0, 0, 0, 0, 0, 0, 0, 1, 2][..], &first[20..]].concat());
    assert_eq!(frames[2], [&[0x1e, 0x0f, 0, 0, 0, 0, 0, 0, 0, 1, 0, 2][..], &second[..20]].concat());
    assert_eq!(frames[3], [&[0x1e, 0x0f, 0, 0, 0, 0, 0, 0, 0, 1, 1, 2][..], &second[20..]].concat());
    match (&chain[0], &chain[1]) {
        (Stage::Gelf(outer), Stage::Gelf(inner)) => {
            assert_eq!(outer.id(), 1);
            assert_eq!(inner.id(), 2);
        }
        _ => panic!("the chain changed its stages"),
    }
}

#[test]
fn a_buffering_stage_yields_nothing_until_the_end() {
    let mut chain =
        vec![Stage::Join(Join::new(b"\n".to_vec(), true)), Stage::Join(Join::new(b"!".to_vec(), false))];
    assert!(postprocess(&mut chain, 0, b"one".to_vec(), "test").unwrap().is_empty());
    assert!(postprocess(&mut chain, 0, b"two".to_vec(), "test").unwrap().is_empty());
    assert_eq!(finish(&mut chain, "test").unwrap(), vec![b"one\ntwo\n!".to_vec()]);
    assert!(finish(&mut chain, "test").unwrap().is_empty());
}

#[test]
fn finish_of_one_buffering_stage_flushes_it() {
    let mut chain = vec![Stage::Join(Join::new(b",".to_vec(), true))];
    assert!(postprocess(&mut chain, 0, b"a".to_vec(), "test").unwrap().is_empty());
    assert!(postprocess(&mut chain, 0, b"b".to_vec(), "test").unwrap().is_empty());
    assert_eq!(finish(&mut chain, "test").unwrap(), vec![b"a,b,".to_vec()]);
}

#[test]
fn a_stateless_stage_drops_what_is_flushed_into_it() {
    let mut chain =
        vec![Stage::Join(Join::new(b",".to_vec(), true)), Stage::LengthPrefix(LengthPrefix {})];
    assert!(postprocess(&mut chain, 0, b"a".to_vec(), "test").unwrap().is_empty());
    assert!(finish(&mut chain, "test").unwrap().is_empty());
}

#[test]
fn finish_of_stateless_chains_is_empty() {
    let mut chain = chain_of(&["base64", "gzip", "length-prefixed", "gelf-chunking"]);
    assert!(finish(&mut chain, "test").unwrap().is_empty());
    let mut chain = chain_of(&["lines"]);
    assert!(finish(&mut chain, "test").unwrap().is_empty());
}

#[test]
fn a_failing_stage_is_reported_by_name_and_stream() {
    let mut chain = vec![
        Stage::Base64(Base64 {}),
        Stage::Gelf(Gelf::new(2, 2).unwrap()),
        Stage::Gelf(Gelf::new(1, 255).unwrap()),
    ];
    match postprocess(&mut chain, 0, b"snot".to_vec(), "out-1") {
        Err(Error::Stage { alias, name, cause }) => {
            assert_eq!(alias, "out-1");
            assert_eq!(name, "gelf");
            assert_eq!(*cause, Error::OversizedMessage { chunks: 4, max_chunks: 2 });
        }
        _ => panic!("an oversized message went through"),
    }
    match (&chain[1], &chain[2]) {
        (Stage::Gelf(failed), Stage::Gelf(behind)) => {
            assert_eq!(failed.id(), 0);
            assert_eq!(behind.id(), 0);
        }
        _ => panic!("the chain changed its stages"),
    }
}

#[test]
fn a_failure_on_a_later_buffer_discards_the_earlier_frames() {
    let mut chain = vec![
        Stage::Gelf(Gelf::new(6, 255).unwrap()),
        Stage::Gelf(Gelf::new(7, 2).unwrap()),
    ];
    let data = vec![7_u8; 30];
    assert_eq!(
        postprocess(&mut chain, 0, data, "s"),
        Err(Error::Stage {
            alias: "s".to_string(),
            name: "gelf".to_string(),
            cause: Box::new(Error::OversizedMessage { chunks: 3, max_chunks: 2 }),
        })
    );
}

#[test]
fn serve_puts_the_frames_of_every_buffer_together() {
    let mut stage = Gelf::new(2, 128).unwrap();
    let inputs = vec![b"abc".to_vec(), b"z".to_vec(), b"defg".to_vec()];
    let made = serve(&mut stage, Pass::Process { ingres_ns: 0, egress_ns: 0 }, &inputs).unwrap();
    assert_eq!(
        made,
        vec![
            vec![0x1e, 0x0f, 0, 0, 0, 0, 0, 0, 0, 0, 0, 2, b'a', b'b'],
            vec![0x1e, 0x0f, 0, 0, 0, 0, 0, 0, 0, 0, 1, 2, b'c'],
            vec![b'z'],
            vec![0x1e, 0x0f, 0, 0, 0, 0, 0, 0, 0, 1, 0, 2, b'd', b'e'],
            vec![0x1e, 0x0f, 0, 0, 0, 0, 0, 0, 0, 1, 1, 2, b'f', b'g'],
        ]
    );
    let none: Vec<Vec<u8>> = Vec::new();
    assert!(serve(&mut stage, Pass::Finish, &none).unwrap().is_empty());
    assert!(serve(&mut stage, Pass::Process { ingres_ns: 0, egress_ns: 0 }, &none).unwrap().is_empty());
}

#[test]
fn serve_in_a_finish_pass_finishes_with_every_buffer() {
    let mut stage = Join::new(b"|".to_vec(), false);
    let inputs = vec![b"a".to_vec(), b"b".to_vec()];
    assert_eq!(serve(&mut stage, Pass::Finish, &inputs).unwrap(), vec![b"a|".to_vec(), b"b|".to_vec()]);
}

#[test]
fn the_ingest_timestamp_reaches_every_stage() {
    let mut chain = chain_of(&["ingest-ns", "ingest-ns"]);
    let frames = postprocess(&mut chain, 0x0a0b, b"x".to_vec(), "test").unwrap();
    assert_eq!(
        frames,
        vec![vec![0, 0, 0, 0, 0, 0, 0x0a, 0x0b, 0, 0, 0, 0, 0, 0, 0x0a, 0x0b, b'x']]
    );
}

#[test]
fn a_timestamp_is_the_low_64_bits_of_the_reading() {
    assert_eq!(timestamp(None), 0);
    assert_eq!(timestamp(Some(0)), 0);
    assert_eq!(timestamp(Some(1_700_000_000_123_456_789)), 1_700_000_000_123_456_789);
    assert_eq!(timestamp(Some(u64::MAX as u128)), u64::MAX);
    assert_eq!(timestamp(Some(u64::MAX as u128 + 8)), 7);
    assert_eq!(timestamp(Some(u128::MAX)), u64::MAX);
}

use postprocessor::gelf::{Gelf, DEFAULT_CHUNK_SIZE, DEFAULT_MAX_CHUNKS, HEADER_LEN};
use postprocessor::join::Join;
use postprocessor::{Error, Postprocessor};

#[test]
fn join_appends_the_separator() {
    let mut join = Join::default();
    assert_eq!(join.name(), "join");
    assert_eq!(join.process(0, 0, b"snot").unwrap(), vec![b"snot\n".to_vec()]);
    assert_eq!(join.process(0, 0, b"").unwrap(), vec![b"\n".to_vec()]);
    assert!(join.pending().is_empty());
    assert!(join.finish(None).unwrap().is_empty());
}

#[test]
fn join_with_a_separator_of_several_bytes() {
    let mut join = Join::new(b"\r\n".to_vec(), false);
    assert_eq!(join.process(0, 0, b"a").unwrap(), vec![b"a\r\n".to_vec()]);
    let mut bare = Join::new(Vec::new(), false);
    assert_eq!(bare.process(0, 0, b"a").unwrap(), vec![b"a".to_vec()]);
}

#[test]
fn buffered_join_holds_records_back_until_the_end() {
    let mut join = Join::new(b";".to_vec(), true);
    assert!(join.process(0, 0, b"one").unwrap().is_empty());
    assert!(join.process(0, 0, b"two").unwrap().is_empty());
    assert_eq!(join.pending(), b"one;two;");
    assert_eq!(join.finish(None).unwrap(), vec![b"one;two;".to_vec()]);
    assert!(join.pending().is_empty());
    assert!(join.finish(None).unwrap().is_empty());
}

#[test]
fn buffered_join_with_nothing_held_finishes_with_nothing() {
    let mut join = Join::new(b"\n".to_vec(), true);
    assert!(join.finish(None).unwrap().is_empty());
}

#[test]
fn join_finished_with_a_frame_joins_it_too() {
    let mut at_once = Join::default();
    assert_eq!(at_once.finish(Some(b"last")).unwrap(), vec![b"last\n".to_vec()]);
    let mut held = Join::new(b",".to_vec(), true);
    held.process(0, 0, b"a").unwrap();
    assert_eq!(held.finish(Some(b"b")).unwrap(), vec![b"a,b,".to_vec()]);
    assert!(held.pending().is_empty());
}

#[test]
fn gelf_defaults() {
    let gelf = Gelf::default();
    assert_eq!(gelf.name(), "gelf");
    assert_eq!(gelf.chunk_size(), DEFAULT_CHUNK_SIZE);
    assert_eq!(gelf.max_chunks(), DEFAULT_MAX_CHUNKS);
    assert_eq!(DEFAULT_CHUNK_SIZE + HEADER_LEN, 8192);
    assert_eq!(DEFAULT_MAX_CHUNKS, 128);
    assert_eq!(gelf.id(), 0);
}

#[test]
fn gelf_has_no_chunks_of_no_bytes() {
    assert!(Gelf::new(0, 128).is_none());
    let gelf = Gelf::new(1, 0).unwrap();
    assert_eq!(gelf.chunk_size(), 1);
    assert_eq!(gelf.max_chunks(), 0);
}

#[test]
fn gelf_passes_a_small_message_through() {
    let mut gelf = Gelf::new(4, 128).unwrap();
    assert_eq!(gelf.process(0, 0, b"").unwrap(), vec![Vec::<u8>::new()]);
    assert_eq!(gelf.process(0, 0, b"abc").unwrap(), vec![b"abc".to_vec()]);
    assert_eq!(gelf.process(0, 0, b"abcd").unwrap(), vec![b"abcd".to_vec()]);
    assert_eq!(gelf.id(), 0);
    let mut wide = Gelf::default();
    let data = vec![9_u8; DEFAULT_CHUNK_SIZE];
    assert_eq!(wide.process(0, 0, &data).unwrap(), vec![data]);
}

#[test]
fn gelf_chunks_a_large_message() {
    let mut gelf = Gelf::new(4, 128).unwrap();
    let frames = gelf.process(0, 0, b"abcdefghij").unwrap();
    assert_eq!(
        frames,
        vec![
            vec![0x1e, 0x0f, 0, 0, 0, 0, 0, 0, 0, 0, 0, 3, b'a', b'b', b'c', b'd'],
            vec![0x1e, 0x0f, 0, 0, 0, 0, 0, 0, 0, 0, 1, 3, b'e', b'f', b'g', b'h'],
            vec![0x1e, 0x0f, 0, 0, 0, 0, 0, 0, 0, 0, 2, 3, b'i', b'j'],
        ]
    );
    assert_eq!(gelf.id(), 1);
    let frames = gelf.process(0, 0, b"abcdefgh").unwrap();
    assert_eq!(
        frames,
        vec![
            vec![0x1e, 0x0f, 0, 0, 0, 0, 0, 0, 0, 1, 0, 2, b'a', b'b', b'c', b'd'],
            vec![0x1e, 0x0f, 0, 0, 0, 0, 0, 0, 0, 1, 1, 2, b'e', b'f', b'g', b'h'],
        ]
    );
    assert_eq!(gelf.id(), 2);
}

#[test]
fn gelf_chunks_reassemble() {
    let mut gelf = Gelf::new(100, 128).unwrap();
    let data: Vec<u8> = (0..1234_u32).map(|i| (i % 251) as u8).collect();
    let frames = gelf.process(0, 0, &data).unwrap();
    assert_eq!(frames.len(), 13);
    let mut back = Vec::new();
    for (i, frame) in frames.iter().enumerate() {
        assert_eq!(&frame[..2], &[0x1e, 0x0f]);
        assert_eq!(&frame[2..10], &frames[0][2..10]);
        assert_eq!(frame[10] as usize, i);
        assert_eq!(frame[11] as usize, frames.len());
        assert!(frame.len() - HEADER_LEN <= 100);
        back.extend_from_slice(&frame[HEADER_LEN..]);
    }
    assert_eq!(back, data);
}

#[test]
fn gelf_one_byte_more_than_a_chunk_makes_two_chunks() {
    let mut gelf = Gelf::default();
    let data = vec![1_u8; DEFAULT_CHUNK_SIZE + 1];
    let frames = gelf.process(0, 0, &data).unwrap();
    assert_eq!(frames.len(), 2);
    assert_eq!(frames[0].len(), 8192);
    assert_eq!(frames[1].len(), HEADER_LEN + 1);
}

#[test]
fn gelf_refuses_a_message_of_too_many_chunks() {
    let mut gelf = Gelf::new(2, 3).unwrap();
    assert_eq!(gelf.process(0, 0, b"abcdef").unwrap().len(), 3);
    assert_eq!(
        gelf.process(0, 0, b"abcdefg"),
        Err(Error::OversizedMessage { chunks: 4, max_chunks: 3 })
    );
    assert_eq!(gelf.id(), 1);
    let mut wide = Gelf::default();
    let data = vec![0_u8; DEFAULT_CHUNK_SIZE * 128 + 1];
    assert_eq!(
        wide.process(0, 0, &data),
        Err(Error::OversizedMessage { chunks: 129, max_chunks: 128 })
    );
    let data = vec![0_u8; DEFAULT_CHUNK_SIZE * 128];
    assert_eq!(wide.process(0, 0, &data).unwrap().len(), 128);
}

#[test]
fn gelf_with_no_chunks_allowed_still_passes_small_messages() {
    let mut gelf = Gelf::new(3, 0).unwrap();
    assert_eq!(gelf.process(0, 0, b"abc").unwrap(), vec![b"abc".to_vec()]);
    assert_eq!(
        gelf.process(0, 0, b"abcd"),
        Err(Error::OversizedMessage { chunks: 2, max_chunks: 0 })
    );
}

#[test]
fn gelf_takes_up_to_255_chunks() {
    let mut gelf = Gelf::new(1, 255).unwrap();
    let data = vec![5_u8; 255];
    let frames = gelf.process(0, 0, &data).unwrap();
    assert_eq!(frames.len(), 255);
    assert_eq!(frames[254][10], 254);
    assert_eq!(frames[254][11], 255);
    let data = vec![5_u8; 256];
    assert_eq!(
        gelf.process(0, 0, &data),
        Err(Error::OversizedMessage { chunks: 256, max_chunks: 255 })
    );
}

#[test]
fn gelf_finishes_with_nothing() {
    let mut gelf = Gelf::default();
    assert!(gelf.finish(None).unwrap().is_empty());
    assert!(gelf.finish(Some(b"abc")).unwrap().is_empty());
}

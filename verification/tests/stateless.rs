use postprocessor::compress::{encoded, Base64, Gzip, Lz4, Snappy, Xz2, Zlib, Zstd};
use postprocessor::prefix::{AttachIngresTs, LengthPrefix, TextualLength};
use postprocessor::wire::{decimal_digits, decimal_string};
use postprocessor::{Error, Postprocessor};
use std::io::Read;
use std::str;

#[test]
fn base64() -> Result<(), Error> {
    let mut post = Base64 {};
    let data: [u8; 0] = [];

    assert_eq!(Ok(vec![vec![]]), post.process(0, 0, &data));

    assert_eq!(Ok(vec![b"Cg==".to_vec()]), post.process(0, 0, b"\n"));

    assert_eq!(Ok(vec![b"c25vdA==".to_vec()]), post.process(0, 0, b"snot"));

    assert!(post.finish(None)?.is_empty());
    Ok(())
}

#[test]
fn textual_length_prefix_postp() -> Result<(), Error> {
    let mut post = TextualLength {};
    let data = vec![1_u8, 2, 3];
    let encoded = post.process(42, 23, &data).unwrap().pop().unwrap();
    assert_eq!("3 \u{1}\u{2}\u{3}", str::from_utf8(&encoded).unwrap());
    assert!(post.finish(None)?.is_empty());
    Ok(())
}

#[test]
fn base64_pads_to_four_symbols() {
    let mut post = Base64 {};
    assert_eq!(post.process(0, 0, b"f").unwrap(), vec![b"Zg==".to_vec()]);
    assert_eq!(post.process(0, 0, b"fo").unwrap(), vec![b"Zm8=".to_vec()]);
    assert_eq!(post.process(0, 0, b"foo").unwrap(), vec![b"Zm9v".to_vec()]);
    assert_eq!(post.process(0, 0, b"foob").unwrap(), vec![b"Zm9vYg==".to_vec()]);
    assert_eq!(post.process(0, 0, b"fooba").unwrap(), vec![b"Zm9vYmE=".to_vec()]);
    assert_eq!(post.process(0, 0, b"foobar").unwrap(), vec![b"Zm9vYmFy".to_vec()]);
}

#[test]
fn base64_uses_the_standard_alphabet() {
    let mut post = Base64 {};
    assert_eq!(post.process(0, 0, &[0xfb, 0xff, 0xbe]).unwrap(), vec![b"+/++".to_vec()]);
    assert_eq!(post.process(0, 0, &[0x00, 0x10, 0x83]).unwrap(), vec![b"ABCD".to_vec()]);
    assert_eq!(post.process(0, 0, &[0x69, 0xb7, 0x1d]).unwrap(), vec![b"abcd".to_vec()]);
    assert_eq!(post.process(0, 0, &[0xd3, 0x5d, 0xb7]).unwrap(), vec![b"0123".to_vec()]);
    assert_eq!(post.process(0, 0, &[0xe7, 0x9f, 0x7d]).unwrap(), vec![b"5599".to_vec()]);
}

#[test]
fn length_prefix_is_eight_bytes_big_endian() {
    let mut post = LengthPrefix {};
    let framed = post.process(7, 9, b"snot").unwrap();
    assert_eq!(framed, vec![vec![0, 0, 0, 0, 0, 0, 0, 4, b's', b'n', b'o', b't']]);
    let empty = post.process(7, 9, b"").unwrap();
    assert_eq!(empty, vec![vec![0, 0, 0, 0, 0, 0, 0, 0]]);
    let long = vec![7_u8; 0x1_02_03];
    let framed = post.process(0, 0, &long).unwrap().pop().unwrap();
    assert_eq!(&framed[..8], &[0, 0, 0, 0, 0, 1, 2, 3]);
    assert_eq!(&framed[8..], &long[..]);
}

#[test]
fn length_prefix_decodes_to_the_length() {
    let mut post = LengthPrefix {};
    for len in [0_usize, 1, 255, 256, 65_535, 65_536, 100_000] {
        let data = vec![0xab_u8; len];
        let framed = post.process(0, 0, &data).unwrap().pop().unwrap();
        let mut head = [0_u8; 8];
        head.copy_from_slice(&framed[..8]);
        assert_eq!(u64::from_be_bytes(head), len as u64);
        assert_eq!(framed.len(), len + 8);
    }
}

#[test]
fn ingest_timestamp_is_eight_bytes_big_endian() {
    let mut post = AttachIngresTs {};
    let framed = post.process(0x0102_0304_0506_0708, 99, b"xy").unwrap();
    assert_eq!(framed, vec![vec![1, 2, 3, 4, 5, 6, 7, 8, b'x', b'y']]);
    let framed = post.process(u64::MAX, 0, b"").unwrap();
    assert_eq!(framed, vec![vec![0xff; 8]]);
    let framed = post.process(0, u64::MAX, b"z").unwrap();
    assert_eq!(framed, vec![vec![0, 0, 0, 0, 0, 0, 0, 0, b'z']]);
}

#[test]
fn textual_length_parses_back() {
    let mut post = TextualLength {};
    for len in [0_usize, 9, 10, 99, 100, 12_345] {
        let data = vec![b' '; len];
        let framed = post.process(0, 0, &data).unwrap().pop().unwrap();
        let space = framed.iter().position(|b| *b == 32).unwrap();
        let digits = str::from_utf8(&framed[..space]).unwrap();
        assert_eq!(digits.parse::<usize>().unwrap(), len);
        assert_eq!(&framed[space + 1..], &data[..]);
    }
}

#[test]
fn textual_length_of_nothing() {
    let mut post = TextualLength {};
    assert_eq!(post.process(0, 0, b"").unwrap(), vec![b"0 ".to_vec()]);
}

#[test]
fn decimal_digits_spell_the_number() {
    assert_eq!(decimal_digits(0), b"0".to_vec());
    assert_eq!(decimal_digits(7), b"7".to_vec());
    assert_eq!(decimal_digits(10), b"10".to_vec());
    assert_eq!(decimal_digits(909), b"909".to_vec());
    assert_eq!(decimal_digits(12_345), b"12345".to_vec());
    assert_eq!(decimal_digits(usize::MAX), usize::MAX.to_string().into_bytes());
}

#[test]
fn names_are_canonical() {
    assert_eq!(Base64 {}.name(), "base64");
    assert_eq!(Gzip {}.name(), "gzip");
    assert_eq!(Zlib {}.name(), "zlib");
    assert_eq!(Xz2 {}.name(), "xz2");
    assert_eq!(Snappy {}.name(), "snappy");
    assert_eq!(Lz4 {}.name(), "lz4");
    assert_eq!(Zstd {}.name(), "zstd");
    assert_eq!(AttachIngresTs {}.name(), "attach-ingress-ts");
    assert_eq!(LengthPrefix {}.name(), "length-prefix");
    assert_eq!(TextualLength {}.name(), "textual-length-prefix");
}

#[test]
fn stateless_stages_finish_with_nothing() {
    assert!(Base64 {}.finish(None).unwrap().is_empty());
    assert!(Gzip {}.finish(None).unwrap().is_empty());
    assert!(Zlib {}.finish(None).unwrap().is_empty());
    assert!(Xz2 {}.finish(None).unwrap().is_empty());
    assert!(Snappy {}.finish(None).unwrap().is_empty());
    assert!(Lz4 {}.finish(None).unwrap().is_empty());
    assert!(Zstd {}.finish(None).unwrap().is_empty());
    assert!(AttachIngresTs {}.finish(None).unwrap().is_empty());
    assert!(LengthPrefix {}.finish(None).unwrap().is_empty());
    assert!(TextualLength {}.finish(None).unwrap().is_empty());
    assert!(Base64 {}.finish(Some(b"snot")).unwrap().is_empty());
    assert!(LengthPrefix {}.finish(Some(b"snot")).unwrap().is_empty());
}

fn sample() -> Vec<u8> {
    let mut data = Vec::new();
    for i in 0..5000_u32 {
        data.extend_from_slice(b"snot badger ");
        data.push((i % 7) as u8);
    }
    data
}

#[test]
fn gzip_block_decodes_to_the_payload() {
    let data = sample();
    let mut frames = Gzip {}.process(0, 0, &data).unwrap();
    assert_eq!(frames.len(), 1);
    let block = frames.pop().unwrap();
    assert_ne!(block, data);
    assert_eq!(&block[..3], &[0x1f, 0x8b, 8]);
    let mut back = Vec::new();
    libflate::gzip::Decoder::new(&block[..]).unwrap().read_to_end(&mut back).unwrap();
    assert_eq!(back, data);
}

#[test]
fn zlib_block_decodes_to_the_payload() {
    let data = sample();
    let mut frames = Zlib {}.process(0, 0, &data).unwrap();
    assert_eq!(frames.len(), 1);
    let block = frames.pop().unwrap();
    assert_ne!(block, data);
    let mut back = Vec::new();
    libflate::zlib::Decoder::new(&block[..]).unwrap().read_to_end(&mut back).unwrap();
    assert_eq!(back, data);
    assert_eq!(Zlib {}.process(1, 2, &data).unwrap(), vec![block]);
}

#[test]
fn xz_block_decodes_to_the_payload() {
    let data = sample();
    let mut frames = Xz2 {}.process(0, 0, &data).unwrap();
    assert_eq!(frames.len(), 1);
    let block = frames.pop().unwrap();
    assert_ne!(block, data);
    assert_eq!(&block[..6], &[0xfd, b'7', b'z', b'X', b'Z', 0]);
    let mut back = Vec::new();
    xz2::read::XzDecoder::new(&block[..]).read_to_end(&mut back).unwrap();
    assert_eq!(back, data);
    assert_eq!(Xz2 {}.process(1, 2, &data).unwrap(), vec![block]);
}

#[test]
fn snappy_block_decodes_to_the_payload() {
    let data = sample();
    let mut frames = Snappy {}.process(0, 0, &data).unwrap();
    assert_eq!(frames.len(), 1);
    let block = frames.pop().unwrap();
    assert_ne!(block, data);
    let mut back = Vec::new();
    snap::read::FrameDecoder::new(&block[..]).read_to_end(&mut back).unwrap();
    assert_eq!(back, data);
    assert_eq!(Snappy {}.process(1, 2, &data).unwrap(), vec![block]);
}

#[test]
fn lz4_block_decodes_to_the_payload() {
    let data = sample();
    let mut frames = Lz4 {}.process(0, 0, &data).unwrap();
    assert_eq!(frames.len(), 1);
    let block = frames.pop().unwrap();
    assert_ne!(block, data);
    assert_eq!(&block[..4], &[0x04, 0x22, 0x4d, 0x18]);
    let mut back = Vec::new();
    lz4::Decoder::new(&block[..]).unwrap().read_to_end(&mut back).unwrap();
    assert_eq!(back, data);
    assert_eq!(Lz4 {}.process(1, 2, &data).unwrap(), vec![block]);
}

#[test]
fn zstd_block_decodes_to_the_payload() {
    let data = sample();
    let mut frames = Zstd {}.process(0, 0, &data).unwrap();
    assert_eq!(frames.len(), 1);
    let block = frames.pop().unwrap();
    assert_ne!(block, data);
    assert_eq!(&block[..4], &[0x28, 0xb5, 0x2f, 0xfd]);
    assert_eq!(zstd::decode_all(&block[..]).unwrap(), data);
    assert_eq!(Zstd {}.process(1, 2, &data).unwrap(), vec![block]);
}

#[test]
fn compressors_take_an_empty_payload() {
    let mut back = Vec::new();
    let block = Gzip {}.process(0, 0, b"").unwrap().pop().unwrap();
    libflate::gzip::Decoder::new(&block[..]).unwrap().read_to_end(&mut back).unwrap();
    assert!(back.is_empty());
    let block = Zstd {}.process(0, 0, b"").unwrap().pop().unwrap();
    assert!(zstd::decode_all(&block[..]).unwrap().is_empty());
    let block = Snappy {}.process(0, 0, b"").unwrap().pop().unwrap();
    snap::read::FrameDecoder::new(&block[..]).read_to_end(&mut back).unwrap();
    assert!(back.is_empty());
}

#[test]
fn an_encoder_failure_becomes_an_error_of_the_stage() {
    let failed = Err(std::io::Error::new(std::io::ErrorKind::Other, "no room"));
    match encoded(failed) {
        Err(Error::Encoder { message }) => assert_eq!(message, "no room"),
        _ => panic!("a failure went unreported"),
    }
    assert_eq!(encoded(Ok(vec![1, 2, 3])), Ok(vec![vec![1, 2, 3]]));
    assert_eq!(encoded(Ok(vec![])), Ok(vec![vec![]]));
}

#[test]
fn decimal_string_spells_the_number() {
    assert_eq!(decimal_string(0), "0");
    assert_eq!(decimal_string(9), "9");
    assert_eq!(decimal_string(10), "10");
    assert_eq!(decimal_string(1_234_567_890), "1234567890");
    assert_eq!(decimal_string(usize::MAX), usize::MAX.to_string());
}

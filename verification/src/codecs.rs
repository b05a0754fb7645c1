//! The encoders of outside libraries, each behind one function whose contract
//! is taken on trust.
//!
//! A compressed block is named rather than spelled out: what a library
//! makes of a payload, at a given level, is a function of the payload. The
//! encoders written in Rust report no failure of their own, so with a buffer
//! in memory to write to they succeed. Those that call into a C library may
//! refuse, and whether they do is part of what is named. A machine that runs
//! out of memory is left aside throughout.

use std::io::Write;
use vstd::prelude::*;

verus! {

/// The error that the encoders report.
#[verifier::external_type_specification]
#[verifier::external_body]
pub struct ExIoError(std::io::Error);

/// The symbol of the standard base64 alphabet for the six-bit value `v`.
pub open spec fn base64_symbol(v: nat) -> u8 {
    if v < 26 {
        (65 + v) as u8
    } else if v < 52 {
        (71 + v) as u8
    } else if v < 62 {
        (v - 4) as u8
    } else if v == 62 {
        43
    } else {
        47
    }
}

/// The base64 text of `data`: standard alphabet, padded with `=` to a
/// multiple of four symbols.
pub open spec fn base64_text(data: Seq<u8>) -> Seq<u8>
    decreases data.len(),
{
    if data.len() == 0 {
        seq![]
    } else if data.len() == 1 {
        let a = data[0] as nat;
        seq![base64_symbol(a / 4), base64_symbol(a % 4 * 16), 61, 61]
    } else if data.len() == 2 {
        let (a, b) = (data[0] as nat, data[1] as nat);
        seq![
            base64_symbol(a / 4),
            base64_symbol(a % 4 * 16 + b / 16),
            base64_symbol(b % 16 * 4),
            61,
        ]
    } else {
        let (a, b, c) = (data[0] as nat, data[1] as nat, data[2] as nat);
        seq![
            base64_symbol(a / 4),
            base64_symbol(a % 4 * 16 + b / 16),
            base64_symbol(b % 16 * 4 + c / 64),
            base64_symbol(c % 64),
        ] + base64_text(data.skip(3))
    }
}

/// Whether the base64 text of a payload of `len` bytes has a length that the
/// machine can hold.
pub open spec fn base64_fits(len: nat) -> bool {
    len / 3 * 4 + 4 <= usize::MAX
}

/// The GZIP member that `libflate` writes for `data` when the clock reads
/// `mtime` seconds, with its default header and its default compression.
pub uninterp spec fn gzip_encoding(data: Seq<u8>, mtime: u32) -> Seq<u8>;

/// Whether `block` is the GZIP member of `data` for some reading of the clock.
pub open spec fn is_gzip_of(data: Seq<u8>, block: Seq<u8>) -> bool {
    exists|mtime: u32| block == #[trigger] gzip_encoding(data, mtime)
}

/// The ZLIB stream that `libflate` writes for `data` with its default options.
pub uninterp spec fn zlib_encoding(data: Seq<u8>) -> Seq<u8>;

/// What `xz2` makes of `data` at the preset `preset` with a CRC-64 check: the
/// `.xz` stream, or nothing where the encoder refuses.
pub uninterp spec fn xz_encoding(data: Seq<u8>, preset: u32) -> Option<Seq<u8>>;

/// The Snappy frame stream that `snap` writes for `data`.
pub uninterp spec fn snappy_encoding(data: Seq<u8>) -> Seq<u8>;

/// What `lz4` makes of `data` at the level `level`: the LZ4 frame, or nothing
/// where the encoder refuses.
pub uninterp spec fn lz4_encoding(data: Seq<u8>, level: u32) -> Option<Seq<u8>>;

/// What `zstd` makes of `data` at the level `level`, where zero stands for
/// the library's default: the Zstandard frame, or nothing where the encoder
/// refuses.
pub uninterp spec fn zstd_encoding(data: Seq<u8>, level: i32) -> Option<Seq<u8>>;

/// `base64::encode`: the text of `data` in the standard alphabet with
/// padding, as bytes. The crate panics where the length of the text overflows,
/// which the precondition rules out.
#[verifier::external_body]
pub(crate) fn base64_encode(data: &[u8]) -> (r: Vec<u8>)
    requires
        base64_fits(data@.len()),
    ensures
        r@ == base64_text(data@),
{
    base64::encode(data).into_bytes()
}

/// `libflate::gzip::Encoder` over an empty buffer: `new`, `write_all`,
/// `finish`. The encoder reports no failure but that of a write to what it
/// writes to, and a write to a buffer in memory does not fail: the call
/// succeeds. The header carries the time of the call, so the stream is the
/// encoding of `data` for some such time.
#[verifier::external_body]
pub(crate) fn gzip_encode(data: &[u8]) -> (r: Result<Vec<u8>, std::io::Error>)
    ensures
        match r {
            Ok(v) => exists|mtime: u32| v@ == #[trigger] gzip_encoding(data@, mtime),
            Err(_) => false,
        },
{
    let mut encoder = libflate::gzip::Encoder::new(Vec::new())?;
    encoder.write_all(data)?;
    encoder.finish().into_result()
}

/// `libflate::zlib::Encoder` over an empty buffer: `new`, `write_all`,
/// `finish`. The encoder reports no failure but that of a write to what it
/// writes to, and a write to a buffer in memory does not fail: the call
/// succeeds, and the stream is the encoding of `data`.
#[verifier::external_body]
pub(crate) fn zlib_encode(data: &[u8]) -> (r: Result<Vec<u8>, std::io::Error>)
    ensures
        match r {
            Ok(v) => v@ == zlib_encoding(data@),
            Err(_) => false,
        },
{
    let mut encoder = libflate::zlib::Encoder::new(Vec::new())?;
    encoder.write_all(data)?;
    encoder.finish().into_result()
}

/// `xz2::write::XzEncoder` over an empty buffer, on the stream of
/// `xz2::stream::Stream::new_easy_encoder(preset, Crc64)`: `write_all`,
/// `finish`. Whether the call succeeds, that of setting the encoder up
/// included, and with which stream, goes by `data` and the preset alone, on
/// a machine with the memory that the encoder asks for. Which error comes
/// back is left open.
#[verifier::external_body]
pub(crate) fn xz_encode(data: &[u8], preset: u32) -> (r: Result<Vec<u8>, std::io::Error>)
    ensures
        match r {
            Ok(v) => xz_encoding(data@, preset) == Some(v@),
            Err(_) => xz_encoding(data@, preset) is None,
        },
{
    let stream = xz2::stream::Stream::new_easy_encoder(preset, xz2::stream::Check::Crc64)?;
    let mut encoder = xz2::write::XzEncoder::new_stream(Vec::new(), stream);
    encoder.write_all(data)?;
    encoder.finish()
}

/// `snap::write::FrameEncoder` over an empty buffer: `write_all`,
/// `into_inner`. The encoder compresses blocks of a size it picks itself and
/// reports no failure but that of a write to what it writes to, and a write
/// to a buffer in memory does not fail: the call succeeds, and the stream is
/// the encoding of `data`.
#[verifier::external_body]
pub(crate) fn snappy_encode(data: &[u8]) -> (r: Result<Vec<u8>, std::io::Error>)
    ensures
        match r {
            Ok(v) => v@ == snappy_encoding(data@),
            Err(_) => false,
        },
{
    let mut writer = snap::write::FrameEncoder::new(Vec::new());
    writer.write_all(data)?;
    writer.into_inner().map_err(|e| e.into_error())
}

/// `lz4::EncoderBuilder` at the level `level` over an empty buffer: `build`,
/// `write_all`, `finish`. Whether the call succeeds, and with which frame,
/// goes by `data` and the level alone, on a machine with the memory that the
/// encoder asks for. Which error comes back is left open.
#[verifier::external_body]
pub(crate) fn lz4_encode(data: &[u8], level: u32) -> (r: Result<Vec<u8>, std::io::Error>)
    ensures
        match r {
            Ok(v) => lz4_encoding(data@, level) == Some(v@),
            Err(_) => lz4_encoding(data@, level) is None,
        },
{
    let mut encoder = lz4::EncoderBuilder::new().level(level).build(Vec::new())?;
    encoder.write_all(data)?;
    let (buffer, ended) = encoder.finish();
    ended.map(|_| buffer)
}

/// `zstd::encode_all` at the level `level`. Whether the call succeeds, and
/// with which frame, goes by `data` and the level alone, on a machine with
/// the memory that the encoder asks for. Which error comes back is left open.
#[verifier::external_body]
pub(crate) fn zstd_encode(data: &[u8], level: i32) -> (r: Result<Vec<u8>, std::io::Error>)
    ensures
        match r {
            Ok(v) => zstd_encoding(data@, level) == Some(v@),
            Err(_) => zstd_encoding(data@, level) is None,
        },
{
    zstd::encode_all(data, level)
}

} // verus!

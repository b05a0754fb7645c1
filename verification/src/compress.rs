//! Stateless encoders: base64 and the compression formats. Each call is a
//! complete unit of its own; nothing is kept from one payload to the next.

use crate::codecs::{
    base64_encode, base64_fits, base64_text, gzip_encode, is_gzip_of, lz4_encode,
    lz4_encoding, snappy_encode, snappy_encoding, xz_encode, xz_encoding, zlib_encode,
    zlib_encoding, zstd_encode, zstd_encoding,
};
use crate::error::Error;
use crate::postprocessor::{
    frames, no_frames, one, one_frame, silent, Call, Outcome, Postprocessor,
};
use vstd::prelude::*;

verus! {

/// The preset at which `Xz2` compresses: the strongest.
pub const XZ_PRESET: u32 = 9;

/// The level at which `Lz4` compresses.
pub const LZ4_LEVEL: u32 = 4;

/// The level at which `Zstd` compresses: zero, which stands for the default
/// of the library.
pub const ZSTD_LEVEL: i32 = 0;

/// Encodes the payload as base64 text: standard alphabet, padded.
#[derive(Default)]
pub struct Base64 {}

/// Compresses the payload into one GZIP member.
#[derive(Default)]
pub struct Gzip {}

/// Compresses the payload into one ZLIB stream.
#[derive(Default)]
pub struct Zlib {}

/// Compresses the payload into one `.xz` stream at the preset `XZ_PRESET`.
#[derive(Default)]
pub struct Xz2 {}

/// Compresses the payload into one Snappy frame stream.
#[derive(Default)]
pub struct Snappy {}

/// Compresses the payload into one LZ4 frame at the level `LZ4_LEVEL`.
#[derive(Default)]
pub struct Lz4 {}

/// Compresses the payload into one Zstandard frame at the level `ZSTD_LEVEL`.
#[derive(Default, Debug)]
pub struct Zstd {}

/// The one frame that an encoder handed back, or the failure it reported.
pub fn encoded(r: Result<Vec<u8>, std::io::Error>) -> (out: Result<Vec<Vec<u8>>, Error>)
    ensures
        match r {
            Ok(block) => out matches Ok(v) && frames(v) == seq![block@],
            Err(_) => out matches Err(Error::Encoder { .. }),
        },
{
    match r {
        Ok(block) => Ok(one_frame(block)),
        Err(e) => Err(Error::Encoder { message: e.to_string() }),
    }
}

impl Postprocessor for Base64 {
    open spec fn spec_name(&self) -> Seq<char> {
        "base64"@
    }

    open spec fn yields(&self, call: Call, outcome: Outcome, next: Self) -> bool {
        match call {
            Call::Process { data, .. } => if base64_fits(data.len()) {
                outcome == one(base64_text(data))
            } else {
                outcome matches Err(Error::Encoder { .. })
            },
            Call::Finish { .. } => outcome == silent(),
        }
    }

    fn name(&self) -> (r: &str) {
        "base64"
    }

    fn process(&mut self, ingres_ns: u64, egress_ns: u64, data: &[u8]) -> (r: Result<
        Vec<Vec<u8>>,
        Error,
    >) {
        if data.len() / 3 <= (usize::MAX - 4) / 4 {
            Ok(one_frame(base64_encode(data)))
        } else {
            Err(Error::Encoder { message: "base64 text too long for this machine".to_owned() })
        }
    }

    fn finish(&mut self, data: Option<&[u8]>) -> (r: Result<Vec<Vec<u8>>, Error>) {
        Ok(no_frames())
    }
}

impl Postprocessor for Gzip {
    open spec fn spec_name(&self) -> Seq<char> {
        "gzip"@
    }

    open spec fn yields(&self, call: Call, outcome: Outcome, next: Self) -> bool {
        match call {
            Call::Process { data, .. } => match outcome {
                Ok(made) => made.len() == 1 && is_gzip_of(data, made[0]),
                Err(_) => false,
            },
            Call::Finish { .. } => outcome == silent(),
        }
    }

    fn name(&self) -> (r: &str) {
        "gzip"
    }

    fn process(&mut self, ingres_ns: u64, egress_ns: u64, data: &[u8]) -> (r: Result<
        Vec<Vec<u8>>,
        Error,
    >) {
        encoded(gzip_encode(data))
    }

    fn finish(&mut self, data: Option<&[u8]>) -> (r: Result<Vec<Vec<u8>>, Error>) {
        Ok(no_frames())
    }
}

impl Postprocessor for Zlib {
    open spec fn spec_name(&self) -> Seq<char> {
        "zlib"@
    }

    open spec fn yields(&self, call: Call, outcome: Outcome, next: Self) -> bool {
        match call {
            Call::Process { data, .. } => outcome == one(zlib_encoding(data)),
            Call::Finish { .. } => outcome == silent(),
        }
    }

    fn name(&self) -> (r: &str) {
        "zlib"
    }

    fn process(&mut self, ingres_ns: u64, egress_ns: u64, data: &[u8]) -> (r: Result<
        Vec<Vec<u8>>,
        Error,
    >) {
        encoded(zlib_encode(data))
    }

    fn finish(&mut self, data: Option<&[u8]>) -> (r: Result<Vec<Vec<u8>>, Error>) {
        Ok(no_frames())
    }
}

impl Postprocessor for Xz2 {
    open spec fn spec_name(&self) -> Seq<char> {
        "xz2"@
    }

    open spec fn yields(&self, call: Call, outcome: Outcome, next: Self) -> bool {
        match call {
            Call::Process { data, .. } => match xz_encoding(data, XZ_PRESET) {
                Some(block) => outcome == one(block),
                None => outcome matches Err(Error::Encoder { .. }),
            },
            Call::Finish { .. } => outcome == silent(),
        }
    }

    fn name(&self) -> (r: &str) {
        "xz2"
    }

    fn process(&mut self, ingres_ns: u64, egress_ns: u64, data: &[u8]) -> (r: Result<
        Vec<Vec<u8>>,
        Error,
    >) {
        encoded(xz_encode(data, XZ_PRESET))
    }

    fn finish(&mut self, data: Option<&[u8]>) -> (r: Result<Vec<Vec<u8>>, Error>) {
        Ok(no_frames())
    }
}

impl Postprocessor for Snappy {
    open spec fn spec_name(&self) -> Seq<char> {
        "snappy"@
    }

    open spec fn yields(&self, call: Call, outcome: Outcome, next: Self) -> bool {
        match call {
            Call::Process { data, .. } => outcome == one(snappy_encoding(data)),
            Call::Finish { .. } => outcome == silent(),
        }
    }

    fn name(&self) -> (r: &str) {
        "snappy"
    }

    fn process(&mut self, ingres_ns: u64, egress_ns: u64, data: &[u8]) -> (r: Result<
        Vec<Vec<u8>>,
        Error,
    >) {
        encoded(snappy_encode(data))
    }

    fn finish(&mut self, data: Option<&[u8]>) -> (r: Result<Vec<Vec<u8>>, Error>) {
        Ok(no_frames())
    }
}

impl Postprocessor for Lz4 {
    open spec fn spec_name(&self) -> Seq<char> {
        "lz4"@
    }

    open spec fn yields(&self, call: Call, outcome: Outcome, next: Self) -> bool {
        match call {
            Call::Process { data, .. } => match lz4_encoding(data, LZ4_LEVEL) {
                Some(block) => outcome == one(block),
                None => outcome matches Err(Error::Encoder { .. }),
            },
            Call::Finish { .. } => outcome == silent(),
        }
    }

    fn name(&self) -> (r: &str) {
        "lz4"
    }

    fn process(&mut self, ingres_ns: u64, egress_ns: u64, data: &[u8]) -> (r: Result<
        Vec<Vec<u8>>,
        Error,
    >) {
        encoded(lz4_encode(data, LZ4_LEVEL))
    }

    fn finish(&mut self, data: Option<&[u8]>) -> (r: Result<Vec<Vec<u8>>, Error>) {
        Ok(no_frames())
    }
}

impl Postprocessor for Zstd {
    open spec fn spec_name(&self) -> Seq<char> {
        "zstd"@
    }

    open spec fn yields(&self, call: Call, outcome: Outcome, next: Self) -> bool {
        match call {
            Call::Process { data, .. } => match zstd_encoding(data, ZSTD_LEVEL) {
                Some(block) => outcome == one(block),
                None => outcome matches Err(Error::Encoder { .. }),
            },
            Call::Finish { .. } => outcome == silent(),
        }
    }

    fn name(&self) -> (r: &str) {
        "zstd"
    }

    fn process(&mut self, ingres_ns: u64, egress_ns: u64, data: &[u8]) -> (r: Result<
        Vec<Vec<u8>>,
        Error,
    >) {
        encoded(zstd_encode(data, ZSTD_LEVEL))
    }

    fn finish(&mut self, data: Option<&[u8]>) -> (r: Result<Vec<Vec<u8>>, Error>) {
        Ok(no_frames())
    }
}

} // verus!

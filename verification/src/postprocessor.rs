//! The contract every postprocessor meets.

use crate::error::Error;
use vstd::prelude::*;

verus! {

/// What a call hands back, with each frame taken as a sequence of bytes.
pub type Outcome = Result<Seq<Seq<u8>>, Error>;

/// One call on a postprocessor, as the contracts speak of it.
pub enum Call {
    /// `process` with the two timestamps and the payload.
    Process { ingres_ns: u64, egress_ns: u64, data: Seq<u8> },
    /// `finish` with the frame that the stage before flushed, if there is one.
    Finish { flushed: Option<Seq<u8>> },
}

/// The frames of `v` as sequences of bytes.
pub open spec fn frames(v: Vec<Vec<u8>>) -> Seq<Seq<u8>> {
    Seq::new(v@.len(), |i: int| v@[i]@)
}

/// The outcome that the result `r` of a call stands for.
pub open spec fn outcome(r: Result<Vec<Vec<u8>>, Error>) -> Outcome {
    match r {
        Ok(v) => Ok(frames(v)),
        Err(e) => Err(e),
    }
}

/// The argument of `finish` as the contracts speak of it.
pub open spec fn flushed(data: Option<&[u8]>) -> Option<Seq<u8>> {
    match data {
        Some(d) => Some(d@),
        None => None,
    }
}

/// The outcome of a call that yields no frame.
pub open spec fn silent() -> Outcome {
    Ok(Seq::empty())
}

/// The outcome of a call that yields the one frame `frame`.
pub open spec fn one(frame: Seq<u8>) -> Outcome {
    Ok(seq![frame])
}

/// A single transform of the chain: one payload in, any number of frames out.
///
/// What an implementation does is laid down by `yields`, a relation rather
/// than a function: a stage that leans on an outside encoder may fail where
/// the encoder does, and may hand out bytes that depend on more than the
/// payload.
pub trait Postprocessor: Sized {
    /// The canonical name of the postprocessor.
    spec fn spec_name(&self) -> Seq<char>;

    /// Whether this postprocessor may answer `call` with `outcome` and be
    /// `next` afterwards.
    spec fn yields(&self, call: Call, outcome: Outcome, next: Self) -> bool;

    /// Canonical name of the postprocessor.
    fn name(&self) -> (r: &str)
        ensures
            r@ == self.spec_name(),
    ;

    /// Transforms one payload into zero or more frames.
    fn process(&mut self, ingres_ns: u64, egress_ns: u64, data: &[u8]) -> (r: Result<
        Vec<Vec<u8>>,
        Error,
    >)
        ensures
            old(self).yields(
                Call::Process { ingres_ns, egress_ns, data: data@ },
                outcome(r),
                *final(self),
            ),
    ;

    /// Ends the stream: hands out what the postprocessor still holds. `data`
    /// is a frame that the stage before it flushed, if there is one.
    fn finish(&mut self, data: Option<&[u8]>) -> (r: Result<Vec<Vec<u8>>, Error>)
        ensures
            old(self).yields(Call::Finish { flushed: flushed(data) }, outcome(r), *final(self)),
    ;
}

/// No frame at all.
pub fn no_frames() -> (r: Vec<Vec<u8>>)
    ensures
        frames(r) == Seq::<Seq<u8>>::empty(),
{
    let r: Vec<Vec<u8>> = Vec::new();
    assert(frames(r) =~= Seq::<Seq<u8>>::empty());
    r
}

/// The one frame `frame`.
pub fn one_frame(frame: Vec<u8>) -> (r: Vec<Vec<u8>>)
    ensures
        frames(r) == seq![frame@],
{
    let mut r: Vec<Vec<u8>> = Vec::new();
    r.push(frame);
    assert(frames(r) =~= seq![frame@]);
    r
}

/// Appends `bytes` to `buffer`.
pub fn append(buffer: &mut Vec<u8>, bytes: &[u8])
    ensures
        final(buffer)@ == old(buffer)@ + bytes@,
{
    buffer.extend_from_slice(bytes);
    assert(buffer@ =~= old(buffer)@ + bytes@);
}

} // verus!

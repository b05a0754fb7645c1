//! Stateless framing: a prefix in front of the payload.

use crate::error::Error;
use crate::postprocessor::{append, no_frames, one, one_frame, silent, Call, Outcome, Postprocessor};
use crate::wire::{be_bytes, be_value, decimal, decimal_digits, decimal_value, is_digit, lemma_be_round_trip, lemma_decimal_round_trip, u64_be};
use vstd::prelude::*;

verus! {

/// The payload behind eight bytes that hold `n`, most significant first.
pub open spec fn prefixed(n: u64, data: Seq<u8>) -> Seq<u8> {
    be_bytes(n) + data
}

/// The payload behind its length in decimal ASCII and one space.
pub open spec fn textual(data: Seq<u8>) -> Seq<u8> {
    decimal(data.len()) + seq![32u8] + data
}

/// Prepends the ingest timestamp as eight bytes, most significant first.
pub struct AttachIngresTs {}

/// Prepends the length of the payload as eight bytes, most significant first.
#[derive(Default)]
pub struct LengthPrefix {}

/// Prepends the length of the payload in decimal ASCII and one space.
#[derive(Default)]
pub struct TextualLength {}

/// The frame `prefixed(n, data)`.
fn with_u64(n: u64, data: &[u8]) -> (r: Vec<u8>)
    ensures
        r@ == prefixed(n, data@),
{
    let head = u64_be(n);
    let mut r: Vec<u8> = Vec::new();
    append(&mut r, &head);
    append(&mut r, data);
    r
}

impl Postprocessor for AttachIngresTs {
    open spec fn spec_name(&self) -> Seq<char> {
        "attach-ingress-ts"@
    }

    open spec fn yields(&self, call: Call, outcome: Outcome, next: Self) -> bool {
        match call {
            Call::Process { ingres_ns, data, .. } => outcome == one(prefixed(ingres_ns, data)),
            Call::Finish { .. } => outcome == silent(),
        }
    }

    fn name(&self) -> (r: &str) {
        "attach-ingress-ts"
    }

    fn process(&mut self, ingres_ns: u64, egress_ns: u64, data: &[u8]) -> (r: Result<
        Vec<Vec<u8>>,
        Error,
    >) {
        Ok(one_frame(with_u64(ingres_ns, data)))
    }

    fn finish(&mut self, data: Option<&[u8]>) -> (r: Result<Vec<Vec<u8>>, Error>) {
        Ok(no_frames())
    }
}

impl Postprocessor for LengthPrefix {
    open spec fn spec_name(&self) -> Seq<char> {
        "length-prefix"@
    }

    open spec fn yields(&self, call: Call, outcome: Outcome, next: Self) -> bool {
        match call {
            Call::Process { data, .. } => outcome == one(prefixed(data.len() as u64, data)),
            Call::Finish { .. } => outcome == silent(),
        }
    }

    fn name(&self) -> (r: &str) {
        "length-prefix"
    }

    fn process(&mut self, ingres_ns: u64, egress_ns: u64, data: &[u8]) -> (r: Result<
        Vec<Vec<u8>>,
        Error,
    >) {
        Ok(one_frame(with_u64(data.len() as u64, data)))
    }

    fn finish(&mut self, data: Option<&[u8]>) -> (r: Result<Vec<Vec<u8>>, Error>) {
        Ok(no_frames())
    }
}

impl Postprocessor for TextualLength {
    open spec fn spec_name(&self) -> Seq<char> {
        "textual-length-prefix"@
    }

    open spec fn yields(&self, call: Call, outcome: Outcome, next: Self) -> bool {
        match call {
            Call::Process { data, .. } => outcome == one(textual(data)),
            Call::Finish { .. } => outcome == silent(),
        }
    }

    fn name(&self) -> (r: &str) {
        "textual-length-prefix"
    }

    fn process(&mut self, ingres_ns: u64, egress_ns: u64, data: &[u8]) -> (r: Result<
        Vec<Vec<u8>>,
        Error,
    >) {
        let mut res = decimal_digits(data.len());
        res.push(32);
        append(&mut res, data);
        assert(res@ =~= textual(data@));
        Ok(one_frame(res))
    }

    fn finish(&mut self, data: Option<&[u8]>) -> (r: Result<Vec<Vec<u8>>, Error>) {
        Ok(no_frames())
    }
}

/// Round trip of the length prefix. The one frame that `LengthPrefix` makes
/// of a payload holds the length of the payload in its first eight bytes,
/// most significant first, and the payload behind them.
pub proof fn lemma_length_prefix_round_trip(
    stage: LengthPrefix,
    ingres_ns: u64,
    egress_ns: u64,
    data: Seq<u8>,
    outcome: Outcome,
    next: LengthPrefix,
)
    requires
        data.len() <= usize::MAX,
        stage.yields(Call::Process { ingres_ns, egress_ns, data }, outcome, next),
    ensures
        outcome matches Ok(made) && made.len() == 1 && be_value(made[0].take(8)) == data.len()
            && made[0].skip(8) == data,
{
    let frame = prefixed(data.len() as u64, data);
    lemma_be_round_trip(data.len() as u64);
    assert(frame.take(8) =~= be_bytes(data.len() as u64));
    assert(frame.skip(8) =~= data);
}

/// Round trip of the ingest timestamp. The one frame that `AttachIngresTs`
/// makes of a payload holds the ingest timestamp in its first eight bytes,
/// most significant first, and the payload behind them.
pub proof fn lemma_ingest_ns_round_trip(
    stage: AttachIngresTs,
    ingres_ns: u64,
    egress_ns: u64,
    data: Seq<u8>,
    outcome: Outcome,
    next: AttachIngresTs,
)
    requires
        stage.yields(Call::Process { ingres_ns, egress_ns, data }, outcome, next),
    ensures
        outcome matches Ok(made) && made.len() == 1 && be_value(made[0].take(8)) == ingres_ns
            && made[0].skip(8) == data,
{
    let frame = prefixed(ingres_ns, data);
    lemma_be_round_trip(ingres_ns);
    assert(frame.take(8) =~= be_bytes(ingres_ns));
    assert(frame.skip(8) =~= data);
}

/// The place of the first space byte in `frame`, or its length if it holds
/// none.
pub open spec fn first_space(frame: Seq<u8>) -> int
    decreases frame.len(),
{
    if frame.len() == 0 || frame[0] == 32 {
        0
    } else {
        1 + first_space(frame.skip(1))
    }
}

/// Round trip of the textual length prefix. The one frame that
/// `TextualLength` makes of a payload holds a space; what stands before the
/// first space is digits that spell the length of the payload, and what
/// stands behind it is the payload.
pub proof fn lemma_textual_length_round_trip(
    stage: TextualLength,
    ingres_ns: u64,
    egress_ns: u64,
    data: Seq<u8>,
    outcome: Outcome,
    next: TextualLength,
)
    requires
        stage.yields(Call::Process { ingres_ns, egress_ns, data }, outcome, next),
    ensures
        outcome matches Ok(made) && made.len() == 1 && ({
            let at = first_space(made[0]);
            &&& 1 <= at < made[0].len()
            &&& forall|i: int| 0 <= i < at ==> is_digit(#[trigger] made[0][i])
            &&& decimal_value(made[0].take(at)) == data.len()
            &&& made[0].skip(at + 1) == data
        }),
{
    let digits = decimal(data.len());
    let frame = textual(data);
    lemma_decimal_round_trip(data.len());
    lemma_first_space(digits, seq![32u8] + data);
    assert(frame =~= digits + (seq![32u8] + data));
    assert(frame.take(digits.len() as int) =~= digits);
    assert(frame.skip(digits.len() as int + 1) =~= data);
    assert forall|i: int| 0 <= i < digits.len() implies is_digit(#[trigger] frame[i]) by {
        assert(frame[i] == digits[i]);
    }
}

/// Digits hold no space: the first space of digits followed by `rest` lies in
/// `rest`.
proof fn lemma_first_space(digits: Seq<u8>, rest: Seq<u8>)
    requires
        forall|i: int| 0 <= i < digits.len() ==> is_digit(#[trigger] digits[i]),
    ensures
        first_space(digits + rest) == digits.len() + first_space(rest),
    decreases digits.len(),
{
    if digits.len() == 0 {
        assert(digits + rest =~= rest);
    } else {
        assert(is_digit(digits[0]));
        assert((digits + rest).skip(1) =~= digits.skip(1) + rest);
        lemma_first_space(digits.skip(1), rest);
    }
}

} // verus!

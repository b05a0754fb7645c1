//! Numbers on the wire: eight bytes in network order, and decimal ASCII.

use byteorder::{BigEndian, ByteOrder};
use vstd::prelude::*;
use vstd::string::*;

verus! {

/// The eight bytes of `n`, most significant first.
pub open spec fn be_bytes(n: u64) -> Seq<u8> {
    seq![
        (n / 0x100_0000_0000_0000 % 0x100) as u8,
        (n / 0x1_0000_0000_0000 % 0x100) as u8,
        (n / 0x100_0000_0000 % 0x100) as u8,
        (n / 0x1_0000_0000 % 0x100) as u8,
        (n / 0x100_0000 % 0x100) as u8,
        (n / 0x1_0000 % 0x100) as u8,
        (n / 0x100 % 0x100) as u8,
        (n % 0x100) as u8,
    ]
}

/// The number whose base-256 digits are `bytes`, most significant first.
pub open spec fn be_value(bytes: Seq<u8>) -> nat
    decreases bytes.len(),
{
    if bytes.len() == 0 {
        0
    } else {
        be_value(bytes.drop_last()) * 256 + bytes.last() as nat
    }
}

/// One more byte at the end shifts the value by one base-256 digit.
proof fn lemma_be_value_push(bytes: Seq<u8>, last: u8)
    ensures
        be_value(bytes.push(last)) == be_value(bytes) * 256 + last,
{
    assert(bytes.push(last).drop_last() =~= bytes);
}

/// The digit of weight `k` of `n` is what is left of `n / k` above the next
/// digit.
proof fn lemma_be_digit(n: nat, k: nat)
    requires
        k > 0,
    ensures
        n / (k * 256) * 256 + n / k % 256 == n / k,
{
    vstd::arithmetic::div_mod::lemma_div_denominator(n as int, k as int, 256);
    vstd::arithmetic::div_mod::lemma_fundamental_div_mod((n / k) as int, 256);
}

/// Bytes that hold `n` down to the digit above weight `k` hold it down to
/// weight `k` with one more digit.
proof fn lemma_be_extend(bytes: Seq<u8>, n: nat, k: nat)
    requires
        k > 0,
        be_value(bytes) == n / (k * 256),
    ensures
        be_value(bytes.push((n / k % 256) as u8)) == n / k,
{
    lemma_be_value_push(bytes, (n / k % 256) as u8);
    lemma_be_digit(n, k);
}

/// Reading back the eight bytes of a number gives the number.
pub proof fn lemma_be_round_trip(n: u64)
    ensures
        be_bytes(n).len() == 8,
        be_value(be_bytes(n)) == n,
{
    let b = be_bytes(n);
    let m = n as nat;
    let h0 = Seq::<u8>::empty();
    let h1 = h0.push(b[0]);
    let h2 = h1.push(b[1]);
    let h3 = h2.push(b[2]);
    let h4 = h3.push(b[3]);
    let h5 = h4.push(b[4]);
    let h6 = h5.push(b[5]);
    let h7 = h6.push(b[6]);
    let h8 = h7.push(b[7]);
    assert(h8 =~= b);
    assert(be_value(h0) == m / (0x100_0000_0000_0000 * 256)) by {
        vstd::arithmetic::div_mod::lemma_basic_div(m as int, 0x1_0000_0000_0000_0000);
    }
    lemma_be_extend(h0, m, 0x100_0000_0000_0000);
    lemma_be_extend(h1, m, 0x1_0000_0000_0000);
    lemma_be_extend(h2, m, 0x100_0000_0000);
    lemma_be_extend(h3, m, 0x1_0000_0000);
    lemma_be_extend(h4, m, 0x100_0000);
    lemma_be_extend(h5, m, 0x1_0000);
    lemma_be_extend(h6, m, 0x100);
    lemma_be_extend(h7, m, 1);
}

/// Whether `b` is an ASCII digit.
pub open spec fn is_digit(b: u8) -> bool {
    48 <= b <= 57
}

/// The decimal ASCII text of `n`, without sign or leading zeros.
pub open spec fn decimal(n: nat) -> Seq<u8>
    decreases n,
{
    if n < 10 {
        seq![(48 + n) as u8]
    } else {
        decimal(n / 10).push((48 + n % 10) as u8)
    }
}

/// The number that the ASCII digits `text` spell.
pub open spec fn decimal_value(text: Seq<u8>) -> nat
    decreases text.len(),
{
    if text.len() == 0 {
        0
    } else {
        decimal_value(text.drop_last()) * 10 + (text.last() - 48) as nat
    }
}

/// The decimal text of a number is one digit or more and nothing else, and
/// spells the number.
pub proof fn lemma_decimal_round_trip(n: nat)
    ensures
        decimal(n).len() >= 1,
        forall|i: int| 0 <= i < decimal(n).len() ==> is_digit(#[trigger] decimal(n)[i]),
        decimal_value(decimal(n)) == n,
    decreases n,
{
    if n < 10 {
        let d = decimal(n);
        assert(d.drop_last() =~= Seq::<u8>::empty());
        reveal_with_fuel(decimal_value, 2);
    } else {
        lemma_decimal_round_trip(n / 10);
        let d = decimal(n);
        assert(d.drop_last() =~= decimal(n / 10));
    }
}

/// `byteorder::BigEndian::write_u64` on a buffer of eight bytes: the buffer
/// then holds `n` in network byte order, most significant byte first.
#[verifier::external_body]
pub(crate) fn u64_be(n: u64) -> (r: [u8; 8])
    ensures
        r@ == be_bytes(n),
{
    let mut buf = [0u8; 8];
    BigEndian::write_u64(&mut buf, n);
    buf
}

/// The decimal ASCII text of `n`.
pub fn decimal_digits(n: usize) -> (r: Vec<u8>)
    ensures
        r@ == decimal(n as nat),
{
    let mut low_first: Vec<u8> = Vec::new();
    let mut rest: usize = n;
    while rest >= 10
        invariant
            decimal(n as nat) =~= decimal(rest as nat) + low_first@.reverse(),
        decreases rest,
    {
        let digit: u8 = 48 + (rest % 10) as u8;
        proof {
            let prior = low_first@;
            assert(prior.push(digit).reverse() =~= seq![digit] + prior.reverse());
            assert(decimal(rest as nat) =~= decimal((rest / 10) as nat).push(digit));
        }
        low_first.push(digit);
        rest = rest / 10;
    }
    let digit: u8 = 48 + rest as u8;
    proof {
        let prior = low_first@;
        assert(prior.push(digit).reverse() =~= seq![digit] + prior.reverse());
    }
    low_first.push(digit);
    let mut r: Vec<u8> = Vec::new();
    let mut at: usize = low_first.len();
    while at > 0
        invariant
            at <= low_first@.len(),
            r@.len() == low_first@.len() - at,
            forall|i: int| 0 <= i < r@.len() ==> r@[i] == low_first@[low_first@.len() - 1 - i],
        decreases at,
    {
        at = at - 1;
        r.push(low_first[at]);
    }
    assert(r@ =~= low_first@.reverse());
    r
}

/// The decimal text of `n` as characters.
pub open spec fn decimal_chars(n: nat) -> Seq<char> {
    Seq::new(decimal(n).len(), |i: int| decimal(n)[i] as char)
}

/// The text of one ASCII digit.
fn digit_str(digit: u8) -> (r: &'static str)
    requires
        is_digit(digit),
    ensures
        r@ == seq![digit as char],
{
    proof {
        reveal_strlit("0");
        reveal_strlit("1");
        reveal_strlit("2");
        reveal_strlit("3");
        reveal_strlit("4");
        reveal_strlit("5");
        reveal_strlit("6");
        reveal_strlit("7");
        reveal_strlit("8");
        reveal_strlit("9");
    }
    let r = if digit == 48 {
        "0"
    } else if digit == 49 {
        "1"
    } else if digit == 50 {
        "2"
    } else if digit == 51 {
        "3"
    } else if digit == 52 {
        "4"
    } else if digit == 53 {
        "5"
    } else if digit == 54 {
        "6"
    } else if digit == 55 {
        "7"
    } else if digit == 56 {
        "8"
    } else {
        "9"
    };
    assert(r@ =~= seq![digit as char]);
    r
}

/// The decimal text of `n` as a string.
pub fn decimal_string(n: usize) -> (r: String)
    ensures
        r@ == decimal_chars(n as nat),
{
    let digits = decimal_digits(n);
    proof {
        lemma_decimal_round_trip(n as nat);
    }
    let mut r = String::new();
    let mut i: usize = 0;
    while i < digits.len()
        invariant
            i <= digits@.len(),
            digits@ == decimal(n as nat),
            forall|j: int| 0 <= j < digits@.len() ==> is_digit(#[trigger] digits@[j]),
            r@ == Seq::new(i as nat, |j: int| digits@[j] as char),
        decreases digits@.len() - i,
    {
        r.append(digit_str(digits[i]));
        assert(r@ =~= Seq::new((i + 1) as nat, |j: int| digits@[j] as char));
        i = i + 1;
    }
    assert(r@ =~= decimal_chars(n as nat));
    r
}

} // verus!

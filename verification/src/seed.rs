//! The stable serialization of an unlock time used as a derivation seed: the
//! signed decimal digits of the timestamp, as ASCII bytes.

use vstd::prelude::*;

verus! {

/// The decimal digits of `n`, most significant first, as ASCII bytes.
pub open spec fn dec_digits(n: nat) -> Seq<u8>
    decreases n,
{
    if n < 10 {
        seq![(48 + n) as u8]
    } else {
        dec_digits(n / 10).push((48 + n % 10) as u8)
    }
}

/// The ASCII bytes of `t` written in decimal, with a leading minus sign when
/// `t` is negative.
pub open spec fn decimal_seq(t: int) -> Seq<u8> {
    if t >= 0 {
        dec_digits(t as nat)
    } else {
        seq![45u8] + dec_digits((-t) as nat)
    }
}

/// Appends the decimal digits of `n` to `out`.
fn push_dec_digits(n: u64, out: &mut Vec<u8>)
    ensures
        final(out)@ == old(out)@ + dec_digits(n as nat),
    decreases n,
{
    if n < 10 {
        out.push(48 + (n as u8));
        assert(out@ =~= old(out)@ + dec_digits(n as nat));
    } else {
        push_dec_digits(n / 10, out);
        out.push(48 + ((n % 10) as u8));
        assert(out@ =~= old(out)@ + dec_digits(n as nat));
    }
}

/// The derivation seed for an unlock time: its decimal rendering as bytes.
pub fn timestamp_seed(t: i64) -> (r: Vec<u8>)
    ensures
        r@ == decimal_seq(t as int),
{
    let mut out: Vec<u8> = Vec::new();
    if t >= 0 {
        push_dec_digits(t as u64, &mut out);
        assert(out@ =~= decimal_seq(t as int));
    } else {
        out.push(45);
        let mag: u64 = ((-(t + 1)) as u64) + 1;
        assert(mag as int == -(t as int));
        push_dec_digits(mag, &mut out);
        assert(out@ =~= decimal_seq(t as int));
    }
    out
}

} // verus!

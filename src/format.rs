//! Byte-level text formatting for diagnostic output: literal text,
//! decimal numbers and hexadecimal numbers.
use vstd::prelude::*;
use vstd::string::StringSliceAdditionalSpecFns;

verus! {

/// The ASCII digit for a value below sixteen, upper or lower case for the
/// letters.
pub open spec fn digit_byte(d: nat, upper: bool) -> u8 {
    if d < 10 {
        (48 + d) as u8
    } else if upper {
        (55 + d) as u8
    } else {
        (87 + d) as u8
    }
}

/// Decimal digits of `n`, most significant first, without leading zeros.
pub open spec fn dec_text(n: nat) -> Seq<u8>
    decreases n,
{
    if n < 10 {
        seq![digit_byte(n, false)]
    } else {
        dec_text(n / 10).push(digit_byte(n % 10, false))
    }
}

/// Hexadecimal digits of `n`, most significant first, without leading zeros.
pub open spec fn hex_text(n: nat, upper: bool) -> Seq<u8>
    decreases n,
{
    if n < 16 {
        seq![digit_byte(n, upper)]
    } else {
        hex_text(n / 16, upper).push(digit_byte(n % 16, upper))
    }
}

/// Appends `text` to `out`.
pub fn push_bytes(out: &mut Vec<u8>, text: &[u8])
    ensures
        final(out)@ == old(out)@ + text@,
{
    let mut i: usize = 0;
    while i < text.len()
        invariant
            i <= text@.len(),
            out@ == old(out)@ + text@.subrange(0, i as int),
        decreases text@.len() - i,
    {
        out.push(text[i]);
        i = i + 1;
        assert(text@.subrange(0, i as int) == text@.subrange(0, i - 1 as int).push(text@[i - 1]));
    }
    assert(text@.subrange(0, text@.len() as int) == text@);
}

/// Appends the UTF-8 bytes of `text` to `out`.
pub fn push_str(out: &mut Vec<u8>, text: &str)
    ensures
        final(out)@ == old(out)@ + text.spec_bytes(),
{
    push_bytes(out, text.as_bytes());
}

fn digit(d: u64, upper: bool) -> (r: u8)
    requires
        d < 16,
    ensures
        r == digit_byte(d as nat, upper),
{
    if d < 10 {
        48 + d as u8
    } else if upper {
        55 + d as u8
    } else {
        87 + d as u8
    }
}

/// Appends the decimal form of `n` to `out`.
pub fn push_dec(out: &mut Vec<u8>, n: u64)
    ensures
        final(out)@ == old(out)@ + dec_text(n as nat),
    decreases n,
{
    if n >= 10 {
        push_dec(out, n / 10);
    }
    out.push(digit(n % 10, false));
}

/// Appends the hexadecimal form of `n` to `out`, with upper or lower case
/// letters.
pub fn push_hex(out: &mut Vec<u8>, n: u64, upper: bool)
    ensures
        final(out)@ == old(out)@ + hex_text(n as nat, upper),
    decreases n,
{
    if n >= 16 {
        push_hex(out, n / 16, upper);
    }
    out.push(digit(n % 16, upper));
}

} // verus!

//! Small verified text renderers: hex encoding, decimal numbers, and the
//! two-decimal confidence format used in rendered prompts.

use vstd::prelude::*;
use vstd::string::StringExecFns;
use crate::digest::Digest32;

verus! {

/// The hexadecimal digit for a value below 16.
pub open spec fn hex_digit(n: int) -> char {
    if n == 0 {
        '0'
    } else if n == 1 {
        '1'
    } else if n == 2 {
        '2'
    } else if n == 3 {
        '3'
    } else if n == 4 {
        '4'
    } else if n == 5 {
        '5'
    } else if n == 6 {
        '6'
    } else if n == 7 {
        '7'
    } else if n == 8 {
        '8'
    } else if n == 9 {
        '9'
    } else if n == 10 {
        'a'
    } else if n == 11 {
        'b'
    } else if n == 12 {
        'c'
    } else if n == 13 {
        'd'
    } else if n == 14 {
        'e'
    } else {
        'f'
    }
}

/// The two hex digits of a byte, high nibble first.
pub open spec fn hex_of_byte(b: u8) -> Seq<char> {
    seq![hex_digit((b >> 4) as int), hex_digit((b & 15) as int)]
}

/// The hex rendering of a byte sequence.
pub open spec fn hex_of(s: Seq<u8>) -> Seq<char>
    decreases s.len(),
{
    if s.len() == 0 {
        Seq::empty()
    } else {
        hex_of(s.drop_last()) + hex_of_byte(s.last())
    }
}

/// Append one hex digit to a string.
pub fn push_hex_digit(out: &mut String, n: u8)
    requires
        n < 16,
    ensures
        final(out)@ == old(out)@ + seq![hex_digit(n as int)],
{
    let s: &str = if n == 0 {
        proof { reveal_strlit("0"); }
        "0"
    } else if n == 1 {
        proof { reveal_strlit("1"); }
        "1"
    } else if n == 2 {
        proof { reveal_strlit("2"); }
        "2"
    } else if n == 3 {
        proof { reveal_strlit("3"); }
        "3"
    } else if n == 4 {
        proof { reveal_strlit("4"); }
        "4"
    } else if n == 5 {
        proof { reveal_strlit("5"); }
        "5"
    } else if n == 6 {
        proof { reveal_strlit("6"); }
        "6"
    } else if n == 7 {
        proof { reveal_strlit("7"); }
        "7"
    } else if n == 8 {
        proof { reveal_strlit("8"); }
        "8"
    } else if n == 9 {
        proof { reveal_strlit("9"); }
        "9"
    } else if n == 10 {
        proof { reveal_strlit("a"); }
        "a"
    } else if n == 11 {
        proof { reveal_strlit("b"); }
        "b"
    } else if n == 12 {
        proof { reveal_strlit("c"); }
        "c"
    } else if n == 13 {
        proof { reveal_strlit("d"); }
        "d"
    } else if n == 14 {
        proof { reveal_strlit("e"); }
        "e"
    } else {
        proof { reveal_strlit("f"); }
        "f"
    };
    proof {
        assert(s@ =~= seq![hex_digit(n as int)]);
    }
    out.append(s);
}

/// Append both hex digits of a byte to a string.
pub fn push_hex_byte(out: &mut String, b: u8)
    ensures
        final(out)@ == old(out)@ + hex_of_byte(b),
{
    let hi: u8 = b >> 4;
    let lo: u8 = b & 15;
    proof {
        assert(hi < 16 && lo < 16) by (bit_vector)
            requires hi == b >> 4 && lo == b & 15;
    }
    push_hex_digit(out, hi);
    push_hex_digit(out, lo);
    proof {
        assert(final(out)@ =~= old(out)@ + hex_of_byte(b));
    }
}

/// Encode bytes as a hex string.
pub fn hex_encode(bytes: &[u8]) -> (r: String)
    ensures
        r@ == hex_of(bytes@),
{
    let mut out = String::new();
    let n = bytes.len();
    for i in 0..n
        invariant
            n == bytes@.len(),
            out@ == hex_of(bytes@.take(i as int)),
    {
        proof {
            assert(bytes@.take(i + 1).drop_last() =~= bytes@.take(i as int));
        }
        push_hex_byte(&mut out, bytes[i]);
    }
    proof {
        assert(bytes@.take(n as int) =~= bytes@);
    }
    out
}

/// The first eight hex characters of a digest: the hex of its first four
/// bytes, used as a short display identifier.
pub open spec fn hex8_of(d: Digest32) -> Seq<char> {
    hex_of_byte((d.w0 >> 56) as u8) + hex_of_byte((d.w0 >> 48) as u8)
        + hex_of_byte((d.w0 >> 40) as u8) + hex_of_byte((d.w0 >> 32) as u8)
}

/// Append the eight-hex-character short form of a digest.
pub fn push_hex8(out: &mut String, d: &Digest32)
    ensures
        final(out)@ == old(out)@ + hex8_of(*d),
{
    push_hex_byte(out, (d.w0 >> 56) as u8);
    push_hex_byte(out, (d.w0 >> 48) as u8);
    push_hex_byte(out, (d.w0 >> 40) as u8);
    push_hex_byte(out, (d.w0 >> 32) as u8);
    proof {
        assert(final(out)@ =~= old(out)@ + hex8_of(*d));
    }
}

/// The decimal rendering of a natural number, most significant digit first.
pub open spec fn dec_of(n: nat) -> Seq<char>
    decreases n,
{
    if n < 10 {
        seq![hex_digit(n as int)]
    } else {
        dec_of(n / 10) + seq![hex_digit((n % 10) as int)]
    }
}

/// Append the decimal rendering of a number to a string.
pub fn push_dec_u64(out: &mut String, n: u64)
    ensures
        final(out)@ == old(out)@ + dec_of(n as nat),
    decreases n,
{
    if n < 10 {
        push_hex_digit(out, n as u8);
    } else {
        push_dec_u64(out, n / 10);
        push_hex_digit(out, (n % 10) as u8);
        proof {
            assert(final(out)@ =~= old(out)@ + dec_of(n as nat));
        }
    }
}

/// The two-decimal rendering of a confidence given in hundredths:
/// `1.00` at the top of the range, `0.dd` below it.
pub open spec fn conf_of(c: int) -> Seq<char> {
    if c >= 100 {
        seq!['1', '.', '0', '0']
    } else {
        seq!['0', '.', hex_digit(c / 10), hex_digit(c % 10)]
    }
}

/// Append the two-decimal confidence rendering.
pub fn push_conf(out: &mut String, c: u32)
    ensures
        final(out)@ == old(out)@ + conf_of(c as int),
{
    if c >= 100 {
        proof { reveal_strlit("1.00"); }
        out.append("1.00");
        proof {
            assert(final(out)@ =~= old(out)@ + conf_of(c as int));
        }
    } else {
        proof { reveal_strlit("0."); }
        out.append("0.");
        push_hex_digit(out, (c / 10) as u8);
        push_hex_digit(out, (c % 10) as u8);
        proof {
            assert("0."@ =~= seq!['0', '.']);
            assert(final(out)@ =~= old(out)@ + conf_of(c as int));
        }
    }
}

} // verus!

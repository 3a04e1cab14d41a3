//! Percent-encoding of UTF-8 text with the two byte sets that headers use.

use vstd::prelude::*;
use vstd::string::StringSliceAdditionalSpecFns;

verus! {

/// Which bytes get percent-encoded; every non-ASCII byte always does.
#[derive(Clone, Copy, Debug, PartialEq, Eq, Structural)]
pub enum EncodeSet {
    /// Extended header parameter values (RFC 5987): all but alphanumerics and
    /// ``!#$&+-.^_`|~``.
    HeaderValue,
    /// The URL userinfo set: controls, space and ``"#/:;<=>?@[\]^`{|}``.
    UserInfo,
}

/// ASCII letters and digits.
pub open spec fn is_alnum(b: u8) -> bool {
    (48 <= b <= 57) || (65 <= b <= 90) || (97 <= b <= 122)
}

/// Whether `set` encodes byte `b`.
pub open spec fn encodes(set: EncodeSet, b: u8) -> bool {
    if b >= 128 {
        true
    } else {
        match set {
            EncodeSet::HeaderValue => !(is_alnum(b) || b == 33 || b == 35 || b == 36 || b == 38
                || b == 43 || b == 45 || b == 46 || b == 94 || b == 95 || b == 96 || b == 124
                || b == 126),
            EncodeSet::UserInfo => b < 32 || b == 127 || b == 32 || b == 34 || b == 35 || b == 47
                || b == 58 || b == 59 || b == 60 || b == 61 || b == 62 || b == 63 || b == 64
                || b == 91 || b == 92 || b == 93 || b == 94 || b == 96 || b == 123 || b == 124
                || b == 125,
        }
    }
}

/// Upper-case hexadecimal digit of `n < 16`.
pub open spec fn hex_digit(n: u8) -> char {
    if n < 10 {
        ((n + 48) as u8) as char
    } else {
        ((n + 55) as u8) as char
    }
}

/// The text that stands for one byte.
pub open spec fn encode_byte(set: EncodeSet, b: u8) -> Seq<char> {
    if encodes(set, b) {
        seq!['%', hex_digit(b / 16), hex_digit(b % 16)]
    } else {
        seq![b as char]
    }
}

/// Percent-encoding of a byte string, byte by byte.
pub open spec fn percent_encode(set: EncodeSet, bytes: Seq<u8>) -> Seq<char>
    decreases bytes.len(),
{
    if bytes.len() == 0 {
        Seq::empty()
    } else {
        percent_encode(set, bytes.drop_last()) + encode_byte(set, bytes.last())
    }
}

/// Whether `set` encodes byte `b`.
pub fn encodes_exec(set: EncodeSet, b: u8) -> (r: bool)
    ensures
        r == encodes(set, b),
{
    if b >= 128 {
        return true;
    }
    match set {
        EncodeSet::HeaderValue => !((48 <= b && b <= 57) || (65 <= b && b <= 90) || (97 <= b && b
            <= 122) || b == 33 || b == 35 || b == 36 || b == 38 || b == 43 || b == 45 || b == 46
            || b == 94 || b == 95 || b == 96 || b == 124 || b == 126),
        EncodeSet::UserInfo => b < 32 || b == 127 || b == 32 || b == 34 || b == 35 || b == 47 || b
            == 58 || b == 59 || b == 60 || b == 61 || b == 62 || b == 63 || b == 64 || b == 91 || b
            == 92 || b == 93 || b == 94 || b == 96 || b == 123 || b == 124 || b == 125,
    }
}

fn hex_digit_exec(n: u8) -> (r: char)
    requires
        n < 16,
    ensures
        r == hex_digit(n),
{
    if n < 10 {
        (n + 48) as char
    } else {
        (n + 55) as char
    }
}

/// Appends the percent-encoding of `bytes` to `out`.
pub fn percent_encode_into(out: &mut Vec<char>, bytes: &[u8], set: EncodeSet)
    ensures
        final(out)@ == old(out)@ + percent_encode(set, bytes@),
{
    let mut i: usize = 0;
    while i < bytes.len()
        invariant
            0 <= i <= bytes@.len(),
            out@ == old(out)@ + percent_encode(set, bytes@.subrange(0, i as int)),
        decreases bytes@.len() - i,
    {
        let b = bytes[i];
        if encodes_exec(set, b) {
            out.push('%');
            out.push(hex_digit_exec(b / 16));
            out.push(hex_digit_exec(b % 16));
        } else {
            out.push(b as char);
        }
        proof {
            let t = bytes@.subrange(0, i + 1);
            assert(t.drop_last() =~= bytes@.subrange(0, i as int));
            assert(out@ =~= old(out)@ + percent_encode(set, t));
        }
        i = i + 1;
    }
    proof {
        assert(bytes@.subrange(0, bytes@.len() as int) =~= bytes@);
    }
}

/// Percent-encoding of the UTF-8 bytes of `s`.
pub fn utf8_percent_encode(s: &str, set: EncodeSet) -> (r: String)
    ensures
        r@ == percent_encode(set, s.spec_bytes()),
{
    let mut out: Vec<char> = Vec::new();
    percent_encode_into(&mut out, s.as_bytes(), set);
    crate::text::string_of(out.as_slice())
}

} // verus!

//! Byte- and string-level helpers: equality checks, UTF-8 conversion and
//! hex formatting.

use vstd::prelude::*;
use vstd::string::{StringSliceAdditionalSpecFns, StringExecFns, StrSliceExecFns};
use vstd::utf8::{valid_utf8, encode_utf8, decode_utf8, encode_utf8_decode_utf8};

verus! {

/// Relies on `String::from_utf8`: it succeeds exactly on valid UTF-8 and
/// decodes it; `valid_utf8` and `decode_utf8` are the specification of
/// UTF-8 itself.
#[verifier::external_body]
pub fn bytes_to_string(bytes: Vec<u8>) -> (r: Option<String>)
    ensures
        r matches Some(s) ==> valid_utf8(bytes@) && s@ == decode_utf8(bytes@),
        r is None ==> !valid_utf8(bytes@),
{
    match String::from_utf8(bytes) {
        Ok(s) => Some(s),
        Err(_) => None,
    }
}

/// The lowercase hex digit for a value below sixteen, as an ASCII byte.
pub open spec fn hex_digit(d: u8) -> u8 {
    if d < 10 { (0x30 + d) as u8 } else { (0x57 + d) as u8 }
}

/// The lowercase hex digit for a value below sixteen, as a character.
pub open spec fn spec_hex_char(d: u8) -> char {
    hex_digit(d) as char
}

/// The lowercase hex rendering of a byte sequence as text: two digits per
/// byte, in order.
pub open spec fn spec_hex_chars(b: Seq<u8>) -> Seq<char>
    decreases b.len(),
{
    if b.len() == 0 {
        Seq::empty()
    } else {
        spec_hex_chars(b.drop_last()) + seq![spec_hex_char(b.last() / 16), spec_hex_char(b.last() % 16)]
    }
}

/// Relies on `hex::encode`: each input byte becomes two lowercase hex
/// digits, in order.
#[verifier::external_body]
pub fn hex_encode(bytes: &[u8]) -> (r: String)
    ensures
        r@ == spec_hex_chars(bytes@),
{
    hex::encode(bytes)
}

/// Appends one lowercase hex digit.
fn push_hex_char(out: &mut String, d: u8)
    requires
        d < 16,
    ensures
        final(out)@ == old(out)@ + seq![spec_hex_char(d)],
{
    proof {
        reveal_strlit("0");
        reveal_strlit("1");
        reveal_strlit("2");
        reveal_strlit("3");
        reveal_strlit("4");
        reveal_strlit("5");
        reveal_strlit("6");
        reveal_strlit("7");
        reveal_strlit("8");
        reveal_strlit("9");
        reveal_strlit("a");
        reveal_strlit("b");
        reveal_strlit("c");
        reveal_strlit("d");
        reveal_strlit("e");
        reveal_strlit("f");
    }
    if d == 0 {
        out.append("0");
    } else if d == 1 {
        out.append("1");
    } else if d == 2 {
        out.append("2");
    } else if d == 3 {
        out.append("3");
    } else if d == 4 {
        out.append("4");
    } else if d == 5 {
        out.append("5");
    } else if d == 6 {
        out.append("6");
    } else if d == 7 {
        out.append("7");
    } else if d == 8 {
        out.append("8");
    } else if d == 9 {
        out.append("9");
    } else if d == 10 {
        out.append("a");
    } else if d == 11 {
        out.append("b");
    } else if d == 12 {
        out.append("c");
    } else if d == 13 {
        out.append("d");
    } else if d == 14 {
        out.append("e");
    } else {
        out.append("f");
    }
    proof {
        assert(out@ =~= old(out)@ + seq![spec_hex_char(d)]);
    }
}

/// The lowercase hex rendering of an unsigned integer, without padding.
pub open spec fn spec_u64_hex(n: u64) -> Seq<char>
    decreases n,
{
    if n < 16 {
        seq![spec_hex_char(n as u8)]
    } else {
        spec_u64_hex(n / 16) + seq![spec_hex_char((n % 16) as u8)]
    }
}

/// `k` zero characters.
pub open spec fn pad_zeros(k: int) -> Seq<char>
    decreases k,
{
    if k <= 0 {
        Seq::empty()
    } else {
        pad_zeros(k - 1) + seq!['0']
    }
}

/// A nonce as at least eight lowercase hex digits, zero-padded on the
/// left.
pub open spec fn spec_nonce_hex8(n: u64) -> Seq<char> {
    pad_zeros(8 - spec_u64_hex(n).len()) + spec_u64_hex(n)
}

/// Appends the hex digits of `n`.
fn push_hex(out: &mut String, n: u64)
    ensures
        final(out)@ == old(out)@ + spec_u64_hex(n),
    decreases n,
{
    if n < 16 {
        push_hex_char(out, n as u8);
    } else {
        push_hex(out, n / 16);
        push_hex_char(out, (n % 16) as u8);
        proof {
            assert(out@ =~= old(out)@ + spec_u64_hex(n));
        }
    }
}

/// A nonce formatted as at least eight lowercase hex digits, matching the
/// fixed-width rendering shares are submitted with.
pub fn nonce_hex8(n: u64) -> (r: String)
    ensures
        r@ == spec_nonce_hex8(n),
{
    let mut digits = String::new();
    push_hex(&mut digits, n);
    let len = digits.as_str().unicode_len();
    let mut out = String::new();
    let mut p = len;
    while p < 8
        invariant
            len == spec_u64_hex(n).len(),
            len <= p,
            p <= 8 || p == len,
            out@ == pad_zeros(p - len),
        decreases 8 - p,
    {
        push_hex_char(&mut out, 0);
        proof {
            assert(spec_hex_char(0) == '0');
            assert(out@ =~= pad_zeros(p + 1 - len));
        }
        p += 1;
    }
    proof {
        assert(out@ == pad_zeros(8 - spec_u64_hex(n).len()));
    }
    out.append(digits.as_str());
    out
}

/// Byte-slice equality.
pub fn bytes_eq(a: &[u8], b: &[u8]) -> (r: bool)
    ensures
        r == (a@ == b@),
{
    if a.len() != b.len() {
        return false;
    }
    let n = a.len();
    let mut i: usize = 0;
    while i < n
        invariant
            0 <= i <= n,
            n == a@.len(),
            n == b@.len(),
            forall|j: int| 0 <= j < i ==> a@[j] == b@[j],
        decreases n - i,
    {
        if a[i] != b[i] {
            return false;
        }
        i += 1;
    }
    proof {
        assert(a@ =~= b@);
    }
    true
}

/// String-slice equality, decided on the UTF-8 bytes.
pub fn str_eq(a: &str, b: &str) -> (r: bool)
    ensures
        r == (a@ == b@),
{
    let ab = a.as_bytes();
    let bb = b.as_bytes();
    let r = bytes_eq(ab, bb);
    proof {
        encode_utf8_decode_utf8(a@);
        encode_utf8_decode_utf8(b@);
        if ab@ == bb@ {
            assert(decode_utf8(encode_utf8(a@)) == decode_utf8(encode_utf8(b@)));
        }
    }
    r
}

} // verus!

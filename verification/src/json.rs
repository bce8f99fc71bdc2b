//! A verified codec for the line-JSON wire format.
//!
//! The parser is a recursive-descent reader of one protocol message per
//! line. Values the session logic reads (null, booleans, unsigned integers,
//! strings) are materialized; any other well-formed value (nested arrays or
//! objects, and numbers that are not plain unsigned integers) is consumed
//! and stands as `Other`. The grammar is stated by spec functions over the
//! raw bytes; every exec function returns exactly what its spec function
//! denotes.

use vstd::prelude::*;
use vstd::utf8::{valid_utf8, decode_utf8};
use crate::encoding::bytes_to_string;

verus! {

/// One positional value of a protocol message.
pub enum JsonParam {
    Null,
    Bool(bool),
    UInt(u64),
    Str(String),
    /// A well-formed value the session does not inspect: a nested array or
    /// object, or a number that is not a plain unsigned integer.
    Other,
}

/// Ghost image of a positional value.
#[verifier::ext_equal]
pub enum ParamView {
    Null,
    Bool(bool),
    UInt(u64),
    Str(Seq<char>),
    Other,
}

impl View for JsonParam {
    type V = ParamView;

    open spec fn view(&self) -> ParamView {
        match self {
            JsonParam::Null => ParamView::Null,
            JsonParam::Bool(b) => ParamView::Bool(*b),
            JsonParam::UInt(n) => ParamView::UInt(*n),
            JsonParam::Str(s) => ParamView::Str(s@),
            JsonParam::Other => ParamView::Other,
        }
    }
}

impl JsonParam {
    pub fn duplicate(&self) -> (r: Self)
        ensures
            r@ == self@,
    {
        match self {
            JsonParam::Null => JsonParam::Null,
            JsonParam::Bool(b) => JsonParam::Bool(*b),
            JsonParam::UInt(n) => JsonParam::UInt(*n),
            JsonParam::Str(s) => JsonParam::Str(s.clone()),
            JsonParam::Other => JsonParam::Other,
        }
    }
}

/// How deeply nested a value may be before the message is dropped as
/// malformed.
pub const MAX_DEPTH: u32 = 64;

pub open spec fn is_ws(b: u8) -> bool {
    b == 0x20 || b == 0x09 || b == 0x0a || b == 0x0d
}

pub open spec fn is_digit(b: u8) -> bool {
    0x30 <= b <= 0x39
}

/// The first position at or after `i` holding no whitespace.
pub open spec fn spec_skip_ws(s: Seq<u8>, i: int) -> int
    decreases s.len() - i,
{
    if 0 <= i < s.len() && is_ws(s[i]) {
        spec_skip_ws(s, i + 1)
    } else {
        i
    }
}

/// What a backslash escape denotes, for the single-character escapes.
pub open spec fn escape_byte(b: u8) -> Option<u8> {
    if b == 0x22 {
        Some(0x22)
    } else if b == 0x5c {
        Some(0x5c)
    } else if b == 0x2f {
        Some(0x2f)
    } else if b == 0x62 {
        Some(0x08)
    } else if b == 0x66 {
        Some(0x0c)
    } else if b == 0x6e {
        Some(0x0a)
    } else if b == 0x72 {
        Some(0x0d)
    } else if b == 0x74 {
        Some(0x09)
    } else {
        None
    }
}

/// The decoded bytes of a string body starting right after the opening
/// quote, together with the position right after the closing quote.
/// Control bytes must be escaped; unicode escapes are not accepted, so a
/// message using them is dropped as malformed.
pub open spec fn spec_parse_string_body(s: Seq<u8>, i: int) -> Option<(Seq<u8>, int)>
    decreases s.len() - i,
{
    if !(0 <= i < s.len()) {
        None
    } else {
        let b = s[i];
        if b == 0x22 {
            Some((Seq::empty(), i + 1))
        } else if b == 0x5c {
            if i + 1 < s.len() {
                match escape_byte(s[i + 1]) {
                    Some(e) => match spec_parse_string_body(s, i + 2) {
                        Some(rest) => Some((seq![e] + rest.0, rest.1)),
                        None => None,
                    },
                    None => None,
                }
            } else {
                None
            }
        } else if b < 0x20 {
            None
        } else {
            match spec_parse_string_body(s, i + 1) {
                Some(rest) => Some((seq![b] + rest.0, rest.1)),
                None => None,
            }
        }
    }
}

/// The first position at or after `i` holding no decimal digit.
pub open spec fn spec_digits_end(s: Seq<u8>, i: int) -> int
    decreases s.len() - i,
{
    if 0 <= i < s.len() && is_digit(s[i]) {
        spec_digits_end(s, i + 1)
    } else {
        i
    }
}

/// The value of the decimal digits in `[start, end)`.
pub open spec fn spec_digits_val(s: Seq<u8>, start: int, end: int) -> int
    decreases end - start,
{
    if start >= end {
        0
    } else {
        spec_digits_val(s, start, end - 1) * 10 + (s[end - 1] - 0x30)
    }
}

pub proof fn lemma_digits_val_nonneg(s: Seq<u8>, start: int, end: int)
    requires
        forall|j: int| start <= j < end ==> is_digit(#[trigger] s[j]),
    ensures
        spec_digits_val(s, start, end) >= 0,
    decreases end - start,
{
    if start < end {
        lemma_digits_val_nonneg(s, start, end - 1);
    }
}

/// A number token starting at `i` (no leading whitespace): the general JSON
/// number grammar. A token that is a plain unsigned integer in range
/// denotes that integer; any other number stands as `Other`.
pub open spec fn spec_parse_number(s: Seq<u8>, i: int) -> Option<(ParamView, int)> {
    let neg = 0 <= i < s.len() && s[i] == 0x2d;
    let ip = if neg { i + 1 } else { i };
    if !(0 <= ip < s.len() && is_digit(s[ip])) {
        None
    } else {
        let ie = spec_digits_end(s, ip);
        if s[ip] == 0x30 && ie != ip + 1 {
            None
        } else {
            let frac = ie < s.len() && s[ie] == 0x2e;
            let fe = if frac {
                if ie + 1 < s.len() && is_digit(s[ie + 1]) {
                    spec_digits_end(s, ie + 1)
                } else {
                    -1
                }
            } else {
                ie
            };
            if fe == -1 {
                None
            } else {
                let has_exp = fe < s.len() && (s[fe] == 0x65 || s[fe] == 0x45);
                let ee = if has_exp {
                    let es = if fe + 1 < s.len() && (s[fe + 1] == 0x2b || s[fe + 1] == 0x2d) {
                        fe + 2
                    } else {
                        fe + 1
                    };
                    if es < s.len() && is_digit(s[es]) {
                        spec_digits_end(s, es)
                    } else {
                        -1
                    }
                } else {
                    fe
                };
                if ee == -1 {
                    None
                } else {
                    if !neg && !frac && !has_exp {
                        let v = spec_digits_val(s, ip, ie);
                        if v <= u64::MAX {
                            Some((ParamView::UInt(v as u64), ee))
                        } else {
                            Some((ParamView::Other, ee))
                        }
                    } else {
                        Some((ParamView::Other, ee))
                    }
                }
            }
        }
    }
}

/// Whether the bytes at `i` spell `null`.
pub open spec fn is_null_at(s: Seq<u8>, i: int) -> bool {
    &&& 0 <= i
    &&& i + 4 <= s.len()
    &&& s[i] == 0x6e
    &&& s[i + 1] == 0x75
    &&& s[i + 2] == 0x6c
    &&& s[i + 3] == 0x6c
}

pub open spec fn is_true_at(s: Seq<u8>, i: int) -> bool {
    &&& 0 <= i
    &&& i + 4 <= s.len()
    &&& s[i] == 0x74
    &&& s[i + 1] == 0x72
    &&& s[i + 2] == 0x75
    &&& s[i + 3] == 0x65
}

pub open spec fn is_false_at(s: Seq<u8>, i: int) -> bool {
    &&& 0 <= i
    &&& i + 5 <= s.len()
    &&& s[i] == 0x66
    &&& s[i + 1] == 0x61
    &&& s[i + 2] == 0x6c
    &&& s[i + 3] == 0x73
    &&& s[i + 4] == 0x65
}

/// One JSON value starting at or after `i0` (leading whitespace allowed),
/// together with the position right after it. `depth` bounds the nesting
/// still allowed; a deeper value makes the message malformed.
pub open spec fn spec_parse_value(s: Seq<u8>, i0: int, depth: int) -> Option<(ParamView, int)>
    decreases s.len() - i0, 0int,
{
    let i = spec_skip_ws(s, i0);
    if !(i0 <= i && i < s.len()) {
        None
    } else {
        let b = s[i];
        if b == 0x6e {
            if is_null_at(s, i) {
                Some((ParamView::Null, i + 4))
            } else {
                None
            }
        } else if b == 0x74 {
            if is_true_at(s, i) {
                Some((ParamView::Bool(true), i + 4))
            } else {
                None
            }
        } else if b == 0x66 {
            if is_false_at(s, i) {
                Some((ParamView::Bool(false), i + 5))
            } else {
                None
            }
        } else if b == 0x22 {
            match spec_parse_string_body(s, i + 1) {
                Some(body) => if valid_utf8(body.0) {
                    Some((ParamView::Str(decode_utf8(body.0)), body.1))
                } else {
                    None
                },
                None => None,
            }
        } else if b == 0x5b {
            if depth <= 0 {
                None
            } else {
                match spec_parse_elems(s, i + 1, depth - 1, true) {
                    Some(r) => Some((ParamView::Other, r.1)),
                    None => None,
                }
            }
        } else if b == 0x7b {
            if depth <= 0 {
                None
            } else {
                match spec_parse_members(s, i + 1, depth - 1, true) {
                    Some(end) => Some((ParamView::Other, end)),
                    None => None,
                }
            }
        } else if b == 0x2d || is_digit(b) {
            spec_parse_number(s, i)
        } else {
            None
        }
    }
}

/// The elements of an array whose opening bracket stands right before
/// `i0`, together with the position right after the closing bracket.
pub open spec fn spec_parse_elems(s: Seq<u8>, i0: int, depth: int, first: bool) -> Option<(Seq<ParamView>, int)>
    decreases s.len() - i0, 1int,
{
    let i = spec_skip_ws(s, i0);
    if !(i0 <= i && i < s.len()) {
        None
    } else if s[i] == 0x5d {
        Some((Seq::empty(), i + 1))
    } else if first {
        match spec_parse_value(s, i, depth) {
            Some(v) => if i < v.1 && v.1 <= s.len() {
                match spec_parse_elems(s, v.1, depth, false) {
                    Some(rest) => Some((seq![v.0] + rest.0, rest.1)),
                    None => None,
                }
            } else {
                None
            },
            None => None,
        }
    } else if s[i] == 0x2c {
        match spec_parse_value(s, i + 1, depth) {
            Some(v) => if i < v.1 && v.1 <= s.len() {
                match spec_parse_elems(s, v.1, depth, false) {
                    Some(rest) => Some((seq![v.0] + rest.0, rest.1)),
                    None => None,
                }
            } else {
                None
            },
            None => None,
        }
    } else {
        None
    }
}

/// The position right after the closing brace of an object whose opening
/// brace stands right before `i0`. Members are validated and discarded.
pub open spec fn spec_parse_members(s: Seq<u8>, i0: int, depth: int, first: bool) -> Option<int>
    decreases s.len() - i0, 1int,
{
    let i = spec_skip_ws(s, i0);
    if !(i0 <= i && i < s.len()) {
        None
    } else if s[i] == 0x7d {
        Some(i + 1)
    } else {
        let k = if first { i } else if s[i] == 0x2c { spec_skip_ws(s, i + 1) } else { -1 };
        if !(i <= k && k < s.len() && s[k] == 0x22) {
            None
        } else {
            match spec_parse_string_body(s, k + 1) {
                Some(key) => {
                    let c = spec_skip_ws(s, key.1);
                    if !(i < key.1 && key.1 <= c && c < s.len() && s[c] == 0x3a) {
                        None
                    } else {
                        match spec_parse_value(s, c + 1, depth) {
                            Some(v) => if c < v.1 && v.1 <= s.len() {
                                spec_parse_members(s, v.1, depth, false)
                            } else {
                                None
                            },
                            None => None,
                        }
                    }
                },
                None => None,
            }
        }
    }
}

/// Skips whitespace from `i0`; the next position.
pub fn skip_ws(s: &[u8], i0: usize) -> (r: usize)
    requires
        i0 <= s@.len(),
    ensures
        r == spec_skip_ws(s@, i0 as int),
        i0 <= r <= s@.len(),
{
    let n = s.len();
    let mut i = i0;
    while i < n && (s[i] == 0x20 || s[i] == 0x09 || s[i] == 0x0a || s[i] == 0x0d)
        invariant
            i0 <= i <= n,
            n == s@.len(),
            spec_skip_ws(s@, i0 as int) == spec_skip_ws(s@, i as int),
        decreases n - i,
    {
        i += 1;
    }
    i
}

/// Reads a string body right after its opening quote; the decoded bytes
/// and the position right after the closing quote.
pub fn parse_string_body(s: &[u8], i0: usize) -> (r: Option<(Vec<u8>, usize)>)
    requires
        i0 <= s@.len(),
    ensures
        match r {
            Some(out) => spec_parse_string_body(s@, i0 as int) == Some((out.0@, out.1 as int))
                && i0 < out.1 <= s@.len(),
            None => spec_parse_string_body(s@, i0 as int) is None,
        },
{
    let n = s.len();
    let mut acc: Vec<u8> = Vec::new();
    let mut i = i0;
    loop
        invariant
            i0 <= i <= n,
            n == s@.len(),
            spec_parse_string_body(s@, i0 as int) == (match spec_parse_string_body(s@, i as int) {
                Some(rest) => Some((acc@ + rest.0, rest.1)),
                None => None::<(Seq<u8>, int)>,
            }),
        decreases n - i,
    {
        if i >= n {
            return None;
        }
        let b = s[i];
        if b == 0x22 {
            proof {
                assert(acc@ + Seq::<u8>::empty() =~= acc@);
            }
            return Some((acc, i + 1));
        } else if b == 0x5c {
            if i + 1 >= n {
                return None;
            }
            let e = s[i + 1];
            let decoded: u8;
            if e == 0x22 {
                decoded = 0x22;
            } else if e == 0x5c {
                decoded = 0x5c;
            } else if e == 0x2f {
                decoded = 0x2f;
            } else if e == 0x62 {
                decoded = 0x08;
            } else if e == 0x66 {
                decoded = 0x0c;
            } else if e == 0x6e {
                decoded = 0x0a;
            } else if e == 0x72 {
                decoded = 0x0d;
            } else if e == 0x74 {
                decoded = 0x09;
            } else {
                return None;
            }
            let ghost acc0 = acc@;
            acc.push(decoded);
            proof {
                match spec_parse_string_body(s@, i + 2) {
                    Some(rest) => {
                        assert(acc@ + rest.0 =~= acc0 + (seq![decoded] + rest.0));
                    },
                    None => {},
                }
            }
            i += 2;
        } else if b < 0x20 {
            return None;
        } else {
            let ghost acc0 = acc@;
            acc.push(b);
            proof {
                match spec_parse_string_body(s@, i + 1) {
                    Some(rest) => {
                        assert(acc@ + rest.0 =~= acc0 + (seq![b] + rest.0));
                    },
                    None => {},
                }
            }
            i += 1;
        }
    }
}

/// Reads a number token starting at `i` (which holds a minus sign or a
/// digit).
pub fn parse_number(s: &[u8], i: usize) -> (r: Option<(JsonParam, usize)>)
    requires
        i < s@.len(),
    ensures
        match r {
            Some(out) => spec_parse_number(s@, i as int) == Some((out.0@, out.1 as int))
                && i < out.1 <= s@.len(),
            None => spec_parse_number(s@, i as int) is None,
        },
{
    let n = s.len();
    let neg = s[i] == 0x2d;
    let ip = if neg { i + 1 } else { i };
    if ip >= n || !(0x30 <= s[ip] && s[ip] <= 0x39) {
        return None;
    }
    // scan the integer part, tracking its value and overflow
    let mut j = ip;
    let mut val: u64 = 0;
    let mut overflow = false;
    while j < n && 0x30 <= s[j] && s[j] <= 0x39
        invariant
            ip <= j <= n,
            n == s@.len(),
            spec_digits_end(s@, ip as int) == spec_digits_end(s@, j as int),
            forall|q: int| ip <= q < j ==> is_digit(#[trigger] s@[q]),
            !overflow ==> val == spec_digits_val(s@, ip as int, j as int),
            overflow ==> spec_digits_val(s@, ip as int, j as int) > u64::MAX,
        decreases n - j,
    {
        let d = s[j] - 0x30;
        proof {
            lemma_digits_val_nonneg(s@, ip as int, j as int);
            assert(spec_digits_val(s@, ip as int, j + 1) == spec_digits_val(s@, ip as int, j as int) * 10 + d);
        }
        if !overflow {
            match val.checked_mul(10) {
                Some(x) => match x.checked_add(d as u64) {
                    Some(y) => {
                        val = y;
                    },
                    None => {
                        overflow = true;
                    },
                },
                None => {
                    overflow = true;
                },
            }
        } else {
            proof {
                assert(spec_digits_val(s@, ip as int, j + 1) > u64::MAX);
            }
        }
        j += 1;
    }
    let ie = j;
    proof {
        assert(ie == spec_digits_end(s@, ip as int));
    }
    if s[ip] == 0x30 && ie != ip + 1 {
        return None;
    }
    // fraction part
    let frac = ie < n && s[ie] == 0x2e;
    let fe: usize;
    if frac {
        if ie + 1 < n && 0x30 <= s[ie + 1] && s[ie + 1] <= 0x39 {
            let mut f = ie + 1;
            while f < n && 0x30 <= s[f] && s[f] <= 0x39
                invariant
                    ie + 1 <= f <= n,
                    n == s@.len(),
                    spec_digits_end(s@, ie + 1) == spec_digits_end(s@, f as int),
                decreases n - f,
            {
                f += 1;
            }
            fe = f;
        } else {
            return None;
        }
    } else {
        fe = ie;
    }
    // exponent part
    let has_exp = fe < n && (s[fe] == 0x65 || s[fe] == 0x45);
    let ee: usize;
    if has_exp {
        let es = if fe + 1 < n && (s[fe + 1] == 0x2b || s[fe + 1] == 0x2d) { fe + 2 } else { fe + 1 };
        if es < n && 0x30 <= s[es] && s[es] <= 0x39 {
            let mut g = es;
            while g < n && 0x30 <= s[g] && s[g] <= 0x39
                invariant
                    es <= g <= n,
                    n == s@.len(),
                    spec_digits_end(s@, es as int) == spec_digits_end(s@, g as int),
                decreases n - g,
            {
                g += 1;
            }
            ee = g;
        } else {
            return None;
        }
    } else {
        ee = fe;
    }
    if !neg && !frac && !has_exp {
        if !overflow {
            Some((JsonParam::UInt(val), ee))
        } else {
            Some((JsonParam::Other, ee))
        }
    } else {
        Some((JsonParam::Other, ee))
    }
}

/// Reads one JSON value starting at or after `i0`.
pub fn parse_value(s: &[u8], i0: usize, depth: u32) -> (r: Option<(JsonParam, usize)>)
    requires
        i0 <= s@.len(),
    ensures
        match r {
            Some(out) => spec_parse_value(s@, i0 as int, depth as int) == Some((out.0@, out.1 as int))
                && i0 < out.1 <= s@.len(),
            None => spec_parse_value(s@, i0 as int, depth as int) is None,
        },
    decreases s@.len() - i0, 0int,
{
    let n = s.len();
    let i = skip_ws(s, i0);
    if i >= n {
        return None;
    }
    let b = s[i];
    if b == 0x6e {
        if n - i >= 4 && s[i + 1] == 0x75 && s[i + 2] == 0x6c && s[i + 3] == 0x6c {
            Some((JsonParam::Null, i + 4))
        } else {
            None
        }
    } else if b == 0x74 {
        if n - i >= 4 && s[i + 1] == 0x72 && s[i + 2] == 0x75 && s[i + 3] == 0x65 {
            Some((JsonParam::Bool(true), i + 4))
        } else {
            None
        }
    } else if b == 0x66 {
        if n - i >= 5 && s[i + 1] == 0x61 && s[i + 2] == 0x6c && s[i + 3] == 0x73 && s[i + 4] == 0x65 {
            Some((JsonParam::Bool(false), i + 5))
        } else {
            None
        }
    } else if b == 0x22 {
        match parse_string_body(s, i + 1) {
            Some((bytes, end)) => match bytes_to_string(bytes) {
                Some(text) => Some((JsonParam::Str(text), end)),
                None => None,
            },
            None => None,
        }
    } else if b == 0x5b {
        if depth == 0 {
            None
        } else {
            match parse_elems(s, i + 1, depth - 1, true) {
                Some((_, end)) => Some((JsonParam::Other, end)),
                None => None,
            }
        }
    } else if b == 0x7b {
        if depth == 0 {
            None
        } else {
            match parse_members(s, i + 1, depth - 1, true) {
                Some(end) => Some((JsonParam::Other, end)),
                None => None,
            }
        }
    } else if b == 0x2d || (0x30 <= b && b <= 0x39) {
        parse_number(s, i)
    } else {
        None
    }
}

/// Reads the elements of an array whose opening bracket stands right
/// before `i0`.
pub fn parse_elems(s: &[u8], i0: usize, depth: u32, first: bool) -> (r: Option<(Vec<JsonParam>, usize)>)
    requires
        i0 <= s@.len(),
    ensures
        match r {
            Some(out) => ({
                let sp = spec_parse_elems(s@, i0 as int, depth as int, first);
                &&& sp matches Some(spr)
                &&& spr.0.len() == out.0@.len()
                &&& (forall|q: int| 0 <= q < out.0@.len() ==> spr.0[q] == (#[trigger] out.0@[q])@)
                &&& spr.1 == out.1 as int
                &&& i0 < out.1 <= s@.len()
            }),
            None => spec_parse_elems(s@, i0 as int, depth as int, first) is None,
        },
    decreases s@.len() - i0, 1int,
{
    let n = s.len();
    let i = skip_ws(s, i0);
    if i >= n {
        return None;
    }
    if s[i] == 0x5d {
        let out: Vec<JsonParam> = Vec::new();
        return Some((out, i + 1));
    }
    let start: usize;
    if first {
        start = i;
    } else if s[i] == 0x2c {
        start = i + 1;
    } else {
        return None;
    }
    match parse_value(s, start, depth) {
        Some((v, end)) => {
            match parse_elems(s, end, depth, false) {
                Some((mut rest, rend)) => {
                    let ghost rest0 = rest@;
                    let ghost vv = v@;
                    rest.insert(0, v);
                    proof {
                        let sp = spec_parse_elems(s@, i0 as int, depth as int, first);
                        let spr = sp->Some_0;
                        assert(rest@ == rest0.insert(0, v));
                        assert(rest@.len() == rest0.len() + 1);
                        assert(spr.0.len() == rest@.len());
                        assert forall|q: int| 0 <= q < rest@.len() implies spr.0[q] == (#[trigger] rest@[q])@ by {
                            if q == 0 {
                                assert(rest@[0] == v);
                                assert(spr.0[0] == vv);
                            } else {
                                assert(rest@[q] == rest0[q - 1]);
                                assert(spr.0[q] == rest0[q - 1]@);
                            }
                        }
                    }
                    Some((rest, rend))
                },
                None => None,
            }
        },
        None => None,
    }
}

/// Skips the members of an object whose opening brace stands right before
/// `i0`; the position right after the closing brace.
pub fn parse_members(s: &[u8], i0: usize, depth: u32, first: bool) -> (r: Option<usize>)
    requires
        i0 <= s@.len(),
    ensures
        match r {
            Some(end) => spec_parse_members(s@, i0 as int, depth as int, first) == Some(end as int)
                && i0 < end <= s@.len(),
            None => spec_parse_members(s@, i0 as int, depth as int, first) is None,
        },
    decreases s@.len() - i0, 1int,
{
    let n = s.len();
    let i = skip_ws(s, i0);
    if i >= n {
        return None;
    }
    if s[i] == 0x7d {
        return Some(i + 1);
    }
    let k: usize;
    if first {
        k = i;
    } else if s[i] == 0x2c {
        k = skip_ws(s, i + 1);
    } else {
        return None;
    }
    if !(k < n && s[k] == 0x22) {
        return None;
    }
    match parse_string_body(s, k + 1) {
        Some((_key, kend)) => {
            let c = skip_ws(s, kend);
            if !(c < n && s[c] == 0x3a) {
                return None;
            }
            match parse_value(s, c + 1, depth) {
                Some((_v, vend)) => parse_members(s, vend, depth, false),
                None => None,
            }
        },
        None => None,
    }
}

} // verus!

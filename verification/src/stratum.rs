//! Stratum-style framing: requests serialized as one JSON object per line,
//! responses and notifications read from single lines.
//!
//! `StratumClient` allocates strictly increasing request ids starting at 1
//! and produces each request as one complete newline-terminated line, so a
//! transport can write it as an atomic unit. `parse_response` reads one
//! received line; a line it cannot read is dropped by the caller as
//! malformed (non-fatal).

use vstd::prelude::*;
use vstd::string::StringSliceAdditionalSpecFns;
use vstd::utf8::encode_utf8;
use crate::json::{JsonParam, ParamView, MAX_DEPTH, spec_skip_ws, spec_parse_string_body, spec_parse_value, spec_parse_elems, skip_ws, parse_string_body, parse_value, parse_elems};
use crate::encoding::hex_digit;

verus! {

/// A caller-initiated protocol message.
pub struct StratumRequest {
    pub id: u64,
    pub method: String,
    pub params: Vec<String>,
}

impl StratumRequest {
    /// This request's complete wire line.
    pub fn encode(&self) -> (r: Vec<u8>)
        ensures
            r@ == spec_frame_request(self.id, self.method@, self.params.deep_view()),
    {
        frame_request(self.id, self.method.as_str(), &self.params)
    }
}

/// A message from the server: a reply to a request or a server-initiated
/// notification; the same shape serves both.
pub struct StratumResponse {
    pub id: Option<u64>,
    pub result: Option<JsonParam>,
    pub error: Option<JsonParam>,
    pub method: Option<String>,
    pub params: Option<Vec<JsonParam>>,
}

/// Ghost image of a response.
#[verifier::ext_equal]
pub struct ResponseView {
    pub id: Option<u64>,
    pub result: Option<ParamView>,
    pub error: Option<ParamView>,
    pub method: Option<Seq<char>>,
    pub params: Option<Seq<ParamView>>,
}

impl View for StratumResponse {
    type V = ResponseView;

    open spec fn view(&self) -> ResponseView {
        ResponseView {
            id: self.id,
            result: match &self.result {
                Some(v) => Some(v@),
                None => None,
            },
            error: match &self.error {
                Some(v) => Some(v@),
                None => None,
            },
            method: match &self.method {
                Some(m) => Some(m@),
                None => None,
            },
            params: match &self.params {
                Some(ps) => Some(Seq::new(ps@.len(), |i: int| ps@[i]@)),
                None => None,
            },
        }
    }
}

/// A response with every field absent.
pub open spec fn empty_response_view() -> ResponseView {
    ResponseView { id: None, result: None, error: None, method: None, params: None }
}

/// Which known fields have already appeared while reading a message; a
/// repeated known field makes the message malformed.
#[derive(Clone, Copy, PartialEq, Eq, Structural)]
pub struct SeenFields {
    pub id: bool,
    pub result: bool,
    pub error: bool,
    pub method: bool,
    pub params: bool,
}

pub open spec fn no_seen() -> SeenFields {
    SeenFields { id: false, result: false, error: false, method: false, params: false }
}

pub open spec fn key_id() -> Seq<u8> {
    seq![0x69u8, 0x64]
}

pub open spec fn key_result() -> Seq<u8> {
    seq![0x72u8, 0x65, 0x73, 0x75, 0x6c, 0x74]
}

pub open spec fn key_error() -> Seq<u8> {
    seq![0x65u8, 0x72, 0x72, 0x6f, 0x72]
}

pub open spec fn key_method() -> Seq<u8> {
    seq![0x6du8, 0x65, 0x74, 0x68, 0x6f, 0x64]
}

pub open spec fn key_params() -> Seq<u8> {
    seq![0x70u8, 0x61, 0x72, 0x61, 0x6d, 0x73]
}

/// The members of a response object whose opening brace stands right
/// before `i0`, read into the accumulated response. Typed per field: `id`
/// must be an unsigned integer or null, `method` a string or null,
/// `params` an array or null; `result` and `error` take any value, with
/// null meaning absent. Unknown members are validated and ignored; a
/// repeated known member makes the message malformed.
pub open spec fn spec_parse_fields(s: Seq<u8>, i0: int, first: bool, acc: ResponseView, seen: SeenFields) -> Option<(ResponseView, int)>
    decreases s.len() - i0,
{
    let i = spec_skip_ws(s, i0);
    if !(i0 <= i && i < s.len()) {
        None
    } else if s[i] == 0x7d {
        Some((acc, i + 1))
    } else {
        let k = if first { i } else if s[i] == 0x2c { spec_skip_ws(s, i + 1) } else { -1 };
        if !(i <= k && k < s.len() && s[k] == 0x22) {
            None
        } else {
            match spec_parse_string_body(s, k + 1) {
                Some(key) => {
                    let c = spec_skip_ws(s, key.1);
                    if !(i < key.1 && key.1 <= c && c < s.len() && s[c] == 0x3a) {
                        None
                    } else if key.0 == key_params() {
                        if seen.params {
                            None
                        } else {
                            let p = spec_skip_ws(s, c + 1);
                            if !(c < p && p < s.len()) {
                                None
                            } else if s[p] == 0x5b {
                                match spec_parse_elems(s, p + 1, MAX_DEPTH as int, true) {
                                    Some(list) => if p < list.1 && list.1 <= s.len() {
                                        spec_parse_fields(s, list.1, false,
                                            ResponseView { params: Some(list.0), ..acc },
                                            SeenFields { params: true, ..seen })
                                    } else {
                                        None
                                    },
                                    None => None,
                                }
                            } else if crate::json::is_null_at(s, p) {
                                spec_parse_fields(s, p + 4, false,
                                    ResponseView { params: None, ..acc },
                                    SeenFields { params: true, ..seen })
                            } else {
                                None
                            }
                        }
                    } else {
                        match spec_parse_value(s, c + 1, MAX_DEPTH as int) {
                            Some(v) => if !(c < v.1 && v.1 <= s.len()) {
                                None
                            } else if key.0 == key_id() {
                                if seen.id {
                                    None
                                } else {
                                    match v.0 {
                                        ParamView::Null => spec_parse_fields(s, v.1, false,
                                            ResponseView { id: None, ..acc },
                                            SeenFields { id: true, ..seen }),
                                        ParamView::UInt(u) => spec_parse_fields(s, v.1, false,
                                            ResponseView { id: Some(u), ..acc },
                                            SeenFields { id: true, ..seen }),
                                        _ => None,
                                    }
                                }
                            } else if key.0 == key_result() {
                                if seen.result {
                                    None
                                } else {
                                    let field = if v.0 is Null { None } else { Some(v.0) };
                                    spec_parse_fields(s, v.1, false,
                                        ResponseView { result: field, ..acc },
                                        SeenFields { result: true, ..seen })
                                }
                            } else if key.0 == key_error() {
                                if seen.error {
                                    None
                                } else {
                                    let field = if v.0 is Null { None } else { Some(v.0) };
                                    spec_parse_fields(s, v.1, false,
                                        ResponseView { error: field, ..acc },
                                        SeenFields { error: true, ..seen })
                                }
                            } else if key.0 == key_method() {
                                if seen.method {
                                    None
                                } else {
                                    match v.0 {
                                        ParamView::Null => spec_parse_fields(s, v.1, false,
                                            ResponseView { method: None, ..acc },
                                            SeenFields { method: true, ..seen }),
                                        ParamView::Str(t) => spec_parse_fields(s, v.1, false,
                                            ResponseView { method: Some(t), ..acc },
                                            SeenFields { method: true, ..seen }),
                                        _ => None,
                                    }
                                }
                            } else {
                                spec_parse_fields(s, v.1, false, acc, seen)
                            },
                            None => None,
                        }
                    }
                },
                None => None,
            }
        }
    }
}

/// One received line as a response: a single JSON object, with nothing but
/// whitespace after it.
pub open spec fn spec_parse_response(s: Seq<u8>) -> Option<ResponseView> {
    let i = spec_skip_ws(s, 0);
    if !(0 <= i && i < s.len() && s[i] == 0x7b) {
        None
    } else {
        match spec_parse_fields(s, i + 1, true, empty_response_view(), no_seen()) {
            Some(out) => if 0 <= out.1 <= s.len() && spec_skip_ws(s, out.1) == s.len() {
                Some(out.0)
            } else {
                None
            },
            None => None,
        }
    }
}

/// Whether the decoded key bytes equal one of the known field names.
fn key_is(key: &Vec<u8>, a: u8, b: u8, c: u8, d: u8, e: u8, f: u8, len: usize) -> (r: bool)
    requires
        2 <= len <= 6,
    ensures
        r == (key@ == seq![a, b, c, d, e, f].take(len as int)),
{
    let ghost target = seq![a, b, c, d, e, f].take(len as int);
    if key.len() != len {
        proof {
            assert(key@.len() != target.len());
        }
        return false;
    }
    let lits = [a, b, c, d, e, f];
    let mut i: usize = 0;
    while i < len
        invariant
            0 <= i <= len,
            2 <= len <= 6,
            key@.len() == len,
            target == seq![a, b, c, d, e, f].take(len as int),
            target.len() == len,
            lits@ == seq![a, b, c, d, e, f],
            forall|j: int| 0 <= j < i ==> key@[j] == target[j],
        decreases len - i,
    {
        if key[i] != lits[i] {
            proof {
                assert(key@[i as int] != target[i as int]);
            }
            return false;
        }
        i += 1;
    }
    proof {
        assert(key@ =~= target);
    }
    true
}

/// Reads the members of a response object whose opening brace stands right
/// before `i0`.
#[verifier::rlimit(100)]
fn parse_fields(s: &[u8], i0: usize, first: bool, acc: StratumResponse, seen: SeenFields) -> (r: Option<(StratumResponse, usize)>)
    requires
        i0 <= s@.len(),
    ensures
        match r {
            Some(out) => spec_parse_fields(s@, i0 as int, first, acc@, seen) == Some((out.0@, out.1 as int))
                && i0 < out.1 <= s@.len(),
            None => spec_parse_fields(s@, i0 as int, first, acc@, seen) is None,
        },
    decreases s@.len() - i0,
{
    let n = s.len();
    let i = skip_ws(s, i0);
    if i >= n {
        return None;
    }
    if s[i] == 0x7d {
        return Some((acc, i + 1));
    }
    let k: usize;
    if first {
        k = i;
    } else if s[i] == 0x2c {
        k = skip_ws(s, i + 1);
    } else {
        return None;
    }
    if !(k < n && s[k] == 0x22) {
        return None;
    }
    let (key, kend) = match parse_string_body(s, k + 1) {
        Some(kb) => kb,
        None => {
            return None;
        },
    };
    let c = skip_ws(s, kend);
    if !(c < n && s[c] == 0x3a) {
        return None;
    }
    proof {
        assert(seq![0x69u8, 0x64, 0u8, 0u8, 0u8, 0u8].take(2) =~= key_id());
        assert(seq![0x72u8, 0x65, 0x73, 0x75, 0x6c, 0x74].take(6) =~= key_result());
        assert(seq![0x65u8, 0x72, 0x72, 0x6f, 0x72, 0u8].take(5) =~= key_error());
        assert(seq![0x6du8, 0x65, 0x74, 0x68, 0x6f, 0x64].take(6) =~= key_method());
        assert(seq![0x70u8, 0x61, 0x72, 0x61, 0x6d, 0x73].take(6) =~= key_params());
    }
    if key_is(&key, 0x70, 0x61, 0x72, 0x61, 0x6d, 0x73, 6) {
        if seen.params {
            return None;
        }
        let p = skip_ws(s, c + 1);
        if p >= n {
            return None;
        }
        if s[p] == 0x5b {
            match parse_elems(s, p + 1, MAX_DEPTH, true) {
                Some((list, lend)) => {
                    let acc2 = StratumResponse { params: Some(list), ..acc };
                    let ghost av = acc2@;
                    proof {
                        let sp = spec_parse_elems(s@, p + 1, MAX_DEPTH as int, true);
                        assert(av.params matches Some(pv) && pv =~= sp->Some_0.0);
                        assert(av =~~= ResponseView { params: Some(sp->Some_0.0), ..acc@ });
                    }
                    parse_fields(s, lend, false, acc2, SeenFields { params: true, ..seen })
                },
                None => None,
            }
        } else if n - p >= 4 && s[p] == 0x6e && s[p + 1] == 0x75 && s[p + 2] == 0x6c && s[p + 3] == 0x6c {
            let acc2 = StratumResponse { params: None, ..acc };
            proof {
                assert(acc2@ =~~= ResponseView { params: None, ..acc@ });
            }
            parse_fields(s, p + 4, false, acc2, SeenFields { params: true, ..seen })
        } else {
            None
        }
    } else {
        let (v, vend) = match parse_value(s, c + 1, MAX_DEPTH) {
            Some(out) => out,
            None => {
                return None;
            },
        };
        if key_is(&key, 0x69, 0x64, 0, 0, 0, 0, 2) {
            if seen.id {
                return None;
            }
            match v {
                JsonParam::Null => {
                    let acc2 = StratumResponse { id: None, ..acc };
                    proof {
                        assert(acc2@ =~~= ResponseView { id: None, ..acc@ });
                    }
                    parse_fields(s, vend, false, acc2, SeenFields { id: true, ..seen })
                },
                JsonParam::UInt(u) => {
                    let acc2 = StratumResponse { id: Some(u), ..acc };
                    proof {
                        assert(acc2@ =~~= ResponseView { id: Some(u), ..acc@ });
                    }
                    parse_fields(s, vend, false, acc2, SeenFields { id: true, ..seen })
                },
                _ => None,
            }
        } else if key_is(&key, 0x72, 0x65, 0x73, 0x75, 0x6c, 0x74, 6) {
            if seen.result {
                return None;
            }
            let ghost vv = v@;
            let field = match v {
                JsonParam::Null => None,
                other => Some(other),
            };
            let acc2 = StratumResponse { result: field, ..acc };
            proof {
                assert(acc2@ =~~= ResponseView {
                    result: if vv is Null { None } else { Some(vv) },
                    ..acc@
                });
            }
            parse_fields(s, vend, false, acc2, SeenFields { result: true, ..seen })
        } else if key_is(&key, 0x65, 0x72, 0x72, 0x6f, 0x72, 0, 5) {
            if seen.error {
                return None;
            }
            let ghost vv = v@;
            let field = match v {
                JsonParam::Null => None,
                other => Some(other),
            };
            let acc2 = StratumResponse { error: field, ..acc };
            proof {
                assert(acc2@ =~~= ResponseView {
                    error: if vv is Null { None } else { Some(vv) },
                    ..acc@
                });
            }
            parse_fields(s, vend, false, acc2, SeenFields { error: true, ..seen })
        } else if key_is(&key, 0x6d, 0x65, 0x74, 0x68, 0x6f, 0x64, 6) {
            if seen.method {
                return None;
            }
            match v {
                JsonParam::Null => {
                    let acc2 = StratumResponse { method: None, ..acc };
                    proof {
                        assert(acc2@ =~~= ResponseView { method: None, ..acc@ });
                    }
                    parse_fields(s, vend, false, acc2, SeenFields { method: true, ..seen })
                },
                JsonParam::Str(t) => {
                    let ghost tv = t@;
                    let acc2 = StratumResponse { method: Some(t), ..acc };
                    proof {
                        assert(acc2@ =~~= ResponseView { method: Some(tv), ..acc@ });
                    }
                    parse_fields(s, vend, false, acc2, SeenFields { method: true, ..seen })
                },
                _ => None,
            }
        } else {
            proof {
                assert(key@ != key_id());
                assert(key@ != key_result());
                assert(key@ != key_error());
                assert(key@ != key_method());
                assert(key@ != key_params());
            }
            parse_fields(s, vend, false, acc, seen)
        }
    }
}

/// Reads one received line as a response; `None` marks a malformed line,
/// which the intake loop drops silently.
pub fn parse_response(line: &str) -> (r: Option<StratumResponse>)
    ensures
        match r {
            Some(resp) => spec_parse_response(line.spec_bytes()) == Some(resp@),
            None => spec_parse_response(line.spec_bytes()) is None,
        },
{
    let bytes = line.as_bytes();
    let n = bytes.len();
    let i = skip_ws(bytes, 0);
    if !(i < n && bytes[i] == 0x7b) {
        return None;
    }
    let acc = StratumResponse { id: None, result: None, error: None, method: None, params: None };
    proof {
        assert(acc@ =~~= empty_response_view());
    }
    match parse_fields(bytes, i + 1, true, acc, SeenFields { id: false, result: false, error: false, method: false, params: false }) {
        Some((resp, end)) => {
            let t = skip_ws(bytes, end);
            if t == n {
                Some(resp)
            } else {
                None
            }
        },
        None => None,
    }
}

/// The decimal rendering of an unsigned integer, as ASCII bytes.
pub open spec fn spec_u64_dec(n: u64) -> Seq<u8>
    decreases n,
{
    if n < 10 {
        seq![(0x30 + n) as u8]
    } else {
        spec_u64_dec(n / 10) + seq![(0x30 + n % 10) as u8]
    }
}

/// How one byte of a JSON string is written on the wire: quotes and
/// backslashes get a backslash escape, control bytes a unicode escape,
/// everything else stands as itself.
pub open spec fn esc_byte(b: u8) -> Seq<u8> {
    if b == 0x22 {
        seq![0x5cu8, 0x22]
    } else if b == 0x5c {
        seq![0x5cu8, 0x5c]
    } else if b < 0x20 {
        seq![0x5cu8, 0x75, 0x30, 0x30, hex_digit(b / 16), hex_digit(b % 16)]
    } else {
        seq![b]
    }
}

/// A byte sequence escaped for a JSON string.
pub open spec fn spec_escape_bytes(b: Seq<u8>) -> Seq<u8>
    decreases b.len(),
{
    if b.len() == 0 {
        Seq::empty()
    } else {
        spec_escape_bytes(b.drop_last()) + esc_byte(b.last())
    }
}

/// A string value as written on the wire: its UTF-8 bytes escaped, between
/// quotes.
pub open spec fn quoted(p: Seq<char>) -> Seq<u8> {
    seq![0x22u8] + spec_escape_bytes(encode_utf8(p)) + seq![0x22u8]
}

/// The positional parameters as written on the wire: quoted strings
/// separated by commas.
pub open spec fn spec_join_params(params: Seq<Seq<char>>) -> Seq<u8>
    decreases params.len(),
{
    if params.len() == 0 {
        Seq::empty()
    } else if params.len() == 1 {
        quoted(params[0])
    } else {
        spec_join_params(params.drop_last()) + seq![0x2cu8] + quoted(params.last())
    }
}

/// One request as written on the wire: a single JSON object carrying the
/// id, the method and the string parameters, terminated by a newline.
pub open spec fn spec_frame_request(id: u64, method: Seq<char>, params: Seq<Seq<char>>) -> Seq<u8> {
    seq![0x7bu8, 0x22, 0x69, 0x64, 0x22, 0x3a]
        + spec_u64_dec(id)
        + seq![0x2cu8, 0x22, 0x6d, 0x65, 0x74, 0x68, 0x6f, 0x64, 0x22, 0x3a]
        + quoted(method)
        + seq![0x2cu8, 0x22, 0x70, 0x61, 0x72, 0x61, 0x6d, 0x73, 0x22, 0x3a, 0x5b]
        + spec_join_params(params)
        + seq![0x5du8, 0x7d, 0x0a]
}

/// Appends the decimal rendering of `n`.
fn push_dec(out: &mut Vec<u8>, n: u64)
    ensures
        final(out)@ == old(out)@ + spec_u64_dec(n),
    decreases n,
{
    if n < 10 {
        out.push(0x30 + n as u8);
        proof {
            assert(out@ =~= old(out)@ + spec_u64_dec(n));
        }
    } else {
        push_dec(out, n / 10);
        out.push(0x30 + (n % 10) as u8);
        proof {
            assert(out@ =~= old(out)@ + spec_u64_dec(n));
        }
    }
}

/// Appends the escaped bytes of one string value, between quotes.
fn push_quoted(out: &mut Vec<u8>, value: &str)
    ensures
        final(out)@ == old(out)@ + quoted(value@),
{
    out.push(0x22);
    let bytes = value.as_bytes();
    let n = bytes.len();
    let mut i: usize = 0;
    while i < n
        invariant
            0 <= i <= n,
            n == bytes@.len(),
            bytes@ == encode_utf8(value@),
            out@ == old(out)@ + seq![0x22u8] + spec_escape_bytes(bytes@.take(i as int)),
        decreases n - i,
    {
        let b = bytes[i];
        if b == 0x22 {
            out.push(0x5c);
            out.push(0x22);
        } else if b == 0x5c {
            out.push(0x5c);
            out.push(0x5c);
        } else if b < 0x20 {
            out.push(0x5c);
            out.push(0x75);
            out.push(0x30);
            out.push(0x30);
            let hi = b / 16;
            let lo = b % 16;
            out.push(if hi < 10 { 0x30 + hi } else { 0x57 + hi });
            out.push(if lo < 10 { 0x30 + lo } else { 0x57 + lo });
        } else {
            out.push(b);
        }
        proof {
            assert(bytes@.take(i + 1).drop_last() =~= bytes@.take(i as int));
            assert(bytes@.take(i + 1).last() == bytes@[i as int]);
            assert(spec_escape_bytes(bytes@.take(i + 1))
                == spec_escape_bytes(bytes@.take(i as int)) + esc_byte(bytes@[i as int]));
            assert(out@ =~= old(out)@ + seq![0x22u8] + spec_escape_bytes(bytes@.take(i + 1)));
        }
        i += 1;
    }
    out.push(0x22);
    proof {
        assert(bytes@.take(n as int) =~= bytes@);
        assert(out@ =~= old(out)@ + quoted(value@));
    }
}

/// Serializes one request as its complete wire line.
pub fn frame_request(id: u64, method: &str, params: &Vec<String>) -> (r: Vec<u8>)
    ensures
        r@ == spec_frame_request(id, method@, params.deep_view()),
{
    let mut out: Vec<u8> = Vec::new();
    out.push(0x7b);
    out.push(0x22);
    out.push(0x69);
    out.push(0x64);
    out.push(0x22);
    out.push(0x3a);
    proof {
        assert(out@ =~= seq![0x7bu8, 0x22, 0x69, 0x64, 0x22, 0x3a]);
    }
    push_dec(&mut out, id);
    let ghost mark1 = out@;
    out.push(0x2c);
    out.push(0x22);
    out.push(0x6d);
    out.push(0x65);
    out.push(0x74);
    out.push(0x68);
    out.push(0x6f);
    out.push(0x64);
    out.push(0x22);
    out.push(0x3a);
    proof {
        assert(out@ =~= mark1 + seq![0x2cu8, 0x22, 0x6d, 0x65, 0x74, 0x68, 0x6f, 0x64, 0x22, 0x3a]);
    }
    push_quoted(&mut out, method);
    let ghost mark2 = out@;
    out.push(0x2c);
    out.push(0x22);
    out.push(0x70);
    out.push(0x61);
    out.push(0x72);
    out.push(0x61);
    out.push(0x6d);
    out.push(0x73);
    out.push(0x22);
    out.push(0x3a);
    out.push(0x5b);
    proof {
        assert(out@ =~= mark2 + seq![0x2cu8, 0x22, 0x70, 0x61, 0x72, 0x61, 0x6d, 0x73, 0x22, 0x3a, 0x5b]);
    }
    let ghost mark3 = out@;
    let pn = params.len();
    let mut i: usize = 0;
    while i < pn
        invariant
            0 <= i <= pn,
            pn == params@.len(),
            out@ == mark3 + spec_join_params(params.deep_view().take(i as int)),
        decreases pn - i,
    {
        if i > 0 {
            out.push(0x2c);
        }
        push_quoted(&mut out, params[i].as_str());
        proof {
            let pv = params.deep_view();
            assert(pv.take(i + 1).drop_last() =~= pv.take(i as int));
            assert(pv.take(i + 1).last() == pv[i as int]);
            assert(pv[i as int] == params@[i as int]@);
            if i == 0 {
                assert(spec_join_params(pv.take(1)) == quoted(pv[0]));
                assert(out@ =~= mark3 + spec_join_params(pv.take(i + 1)));
            } else {
                assert(spec_join_params(pv.take(i + 1))
                    == spec_join_params(pv.take(i as int)) + seq![0x2cu8] + quoted(pv[i as int]));
                assert(out@ =~= mark3 + spec_join_params(pv.take(i + 1)));
            }
        }
        i += 1;
    }
    proof {
        assert(params.deep_view().take(pn as int) =~= params.deep_view());
    }
    out.push(0x5d);
    out.push(0x7d);
    out.push(0x0a);
    proof {
        assert(out@ =~= spec_frame_request(id, method@, params.deep_view()));
    }
    out
}

/// The framing half of the protocol client: request-id allocation and line
/// production. A transport owns the socket and writes each returned line as
/// one atomic unit.
pub struct StratumClient {
    /// The next request id; ids are strictly increasing, starting at 1.
    pub request_id: u64,
}

impl StratumClient {
    pub fn new() -> (r: Self)
        ensures
            r.request_id == 1,
    {
        StratumClient { request_id: 1 }
    }

    /// Allocates the next request id and produces the request's wire line.
    pub fn send_request(&mut self, method: &str, params: Vec<String>) -> (r: (u64, Vec<u8>))
        requires
            old(self).request_id < u64::MAX,
        ensures
            r.0 == old(self).request_id,
            final(self).request_id == old(self).request_id + 1,
            r.1@ == spec_frame_request(r.0, method@, params.deep_view()),
    {
        let id = self.request_id;
        self.request_id = self.request_id + 1;
        let request = StratumRequest { id, method: method.to_owned(), params };
        let ghost req = request;
        let line = request.encode();
        proof {
            assert(req.method@ == method@);
        }
        (id, line)
    }

    /// The `mining.subscribe` line for this user agent.
    pub fn subscribe(&mut self, user_agent: &str) -> (r: (u64, Vec<u8>))
        requires
            old(self).request_id < u64::MAX,
        ensures
            r.0 == old(self).request_id,
            final(self).request_id == old(self).request_id + 1,
            r.1@ == spec_frame_request(r.0, "mining.subscribe"@, seq![user_agent@]),
    {
        let mut params: Vec<String> = Vec::new();
        params.push(user_agent.to_owned());
        proof {
            assert(params.deep_view() =~= seq![user_agent@]);
        }
        self.send_request("mining.subscribe", params)
    }

    /// The `mining.authorize` line for these credentials.
    pub fn authorize(&mut self, username: &str, password: &str) -> (r: (u64, Vec<u8>))
        requires
            old(self).request_id < u64::MAX,
        ensures
            r.0 == old(self).request_id,
            final(self).request_id == old(self).request_id + 1,
            r.1@ == spec_frame_request(r.0, "mining.authorize"@, seq![username@, password@]),
    {
        let mut params: Vec<String> = Vec::new();
        params.push(username.to_owned());
        params.push(password.to_owned());
        proof {
            assert(params.deep_view() =~= seq![username@, password@]);
        }
        self.send_request("mining.authorize", params)
    }

    /// The `mining.submit` line for one share: worker, job id, nonce and
    /// hash, the latter two already hex-formatted.
    pub fn submit(&mut self, worker: &str, job_id: &str, nonce: &str, result: &str) -> (r: (u64, Vec<u8>))
        requires
            old(self).request_id < u64::MAX,
        ensures
            r.0 == old(self).request_id,
            final(self).request_id == old(self).request_id + 1,
            r.1@ == spec_frame_request(r.0, "mining.submit"@, seq![worker@, job_id@, nonce@, result@]),
    {
        let mut params: Vec<String> = Vec::new();
        params.push(worker.to_owned());
        params.push(job_id.to_owned());
        params.push(nonce.to_owned());
        params.push(result.to_owned());
        proof {
            assert(params.deep_view() =~= seq![worker@, job_id@, nonce@, result@]);
        }
        self.send_request("mining.submit", params)
    }
}

} // verus!

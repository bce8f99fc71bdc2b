//! Pure helpers behind device enumeration: name extraction from probe
//! output lines, vendor classification and capability estimates.
//!
//! Probing the machine (shell command output, system queries) happens in
//! the surrounding program; the rules for reading its text live here.
//! Text is interpreted ASCII-wise: alphabetic, whitespace and case
//! folding refer to the ASCII range. Hashrates are hashes per second,
//! memory is bytes.

use vstd::prelude::*;
use vstd::string::{StringExecFns, StrSliceExecFns};
use crate::types::GPUVendor;

verus! {

pub open spec fn ascii_alpha(c: char) -> bool {
    (0x61 <= c as u32 <= 0x7a) || (0x41 <= c as u32 <= 0x5a)
}

pub open spec fn ws_char(c: char) -> bool {
    c == ' ' || c == '\t' || c == '\n' || c == '\r'
}

/// The first position at or after `i` where `ID` stands, or -1.
pub open spec fn find_id(s: Seq<char>, i: int) -> int
    decreases s.len() - i,
{
    if !(0 <= i && i + 2 <= s.len()) {
        -1
    } else if s[i] == 'I' && s[i + 1] == 'D' {
        i
    } else {
        find_id(s, i + 1)
    }
}

/// The first position at or after `i` holding an ASCII letter, or -1.
pub open spec fn find_alpha(s: Seq<char>, i: int) -> int
    decreases s.len() - i,
{
    if !(0 <= i && i < s.len()) {
        -1
    } else if ascii_alpha(s[i]) {
        i
    } else {
        find_alpha(s, i + 1)
    }
}

/// The end of `[a, e)` with trailing whitespace removed.
pub open spec fn end_trim(s: Seq<char>, a: int, e: int) -> int
    decreases e - a,
{
    if e <= a {
        a
    } else if ws_char(s[e - 1]) {
        end_trim(s, a, e - 1)
    } else {
        e
    }
}

/// The start of `[a, e)` with leading whitespace removed.
pub open spec fn start_trim(s: Seq<char>, a: int, e: int) -> int
    decreases e - a,
{
    if a >= e {
        e
    } else if ws_char(s[a]) {
        start_trim(s, a + 1, e)
    } else {
        a
    }
}

/// What `extract_asic_name` returns: the text from the first letter at or
/// after an `ID` marker, trailing whitespace removed; a fixed fallback
/// name when no marker or letter is found.
pub open spec fn spec_extract_asic_name(s: Seq<char>) -> Seq<char> {
    let i = find_id(s, 0);
    if i < 0 {
        "ASIC Miner"@
    } else {
        let j = find_alpha(s, i);
        if j < 0 {
            "ASIC Miner"@
        } else {
            s.subrange(j, end_trim(s, j, s.len() as int))
        }
    }
}

/// Whether the character at `idx` is ASCII whitespace.
fn ws_at(s: &str, idx: usize) -> (r: bool)
    requires
        idx < s@.len(),
    ensures
        r == ws_char(s@[idx as int]),
{
    let c = s.get_char(idx);
    c == ' ' || c == '\t' || c == '\n' || c == '\r'
}

proof fn lemma_end_trim_past(s: Seq<char>, a: int, e: int, k: int)
    requires
        a <= k < e <= s.len(),
        !ws_char(s[k]),
    ensures
        k < end_trim(s, a, e) <= e,
    decreases e - a,
{
    if ws_char(s[e - 1]) {
        lemma_end_trim_past(s, a, e - 1, k);
    }
}

/// The position of the first `ID` marker, if any.
fn scan_id(line: &str) -> (r: Option<usize>)
    ensures
        match r {
            Some(p) => find_id(line@, 0) == p && p + 2 <= line@.len(),
            None => find_id(line@, 0) == -1,
        },
{
    let n = line.unicode_len();
    let mut i: usize = 0;
    while n - i >= 2 && i <= n
        invariant
            0 <= i <= n,
            n == line@.len(),
            find_id(line@, 0) == find_id(line@, i as int),
        decreases n - i,
    {
        if line.get_char(i) == 'I' && line.get_char(i + 1) == 'D' {
            return Some(i);
        }
        i += 1;
    }
    None
}

/// The position of the first ASCII letter at or after `start`, if any.
fn scan_alpha(line: &str, start: usize) -> (r: Option<usize>)
    requires
        start <= line@.len(),
    ensures
        match r {
            Some(p) => find_alpha(line@, start as int) == p && p < line@.len() && !ws_char(line@[p as int]),
            None => find_alpha(line@, start as int) == -1,
        },
{
    let n = line.unicode_len();
    let mut j = start;
    while j < n
        invariant
            start <= j <= n,
            n == line@.len(),
            find_alpha(line@, start as int) == find_alpha(line@, j as int),
        decreases n - j,
    {
        let c = line.get_char(j);
        let u = c as u32;
        if (0x61 <= u && u <= 0x7a) || (0x41 <= u && u <= 0x5a) {
            return Some(j);
        }
        j += 1;
    }
    None
}

/// The device name in one probe output line: the text from the first
/// letter at or after an `ID` marker, trailing whitespace removed; a
/// fixed fallback name otherwise.
pub fn extract_asic_name(line: &str) -> (r: String)
    ensures
        r@ == spec_extract_asic_name(line@),
{
    let n = line.unicode_len();
    let id_pos = scan_id(line);
    let start = match id_pos {
        None => {
            return "ASIC Miner".to_owned();
        },
        Some(p) => p,
    };
    let alpha_pos = scan_alpha(line, start);
    let astart = match alpha_pos {
        None => {
            return "ASIC Miner".to_owned();
        },
        Some(p) => p,
    };
    let mut e = n;
    while e > astart && ws_at(line, e - 1)
        invariant
            astart <= e <= n,
            n == line@.len(),
            astart < n,
            !ws_char(line@[astart as int]),
            end_trim(line@, astart as int, n as int) == end_trim(line@, astart as int, e as int),
        decreases e,
    {
        e -= 1;
    }
    proof {
        assert(!ws_char(line@[astart as int]));
        if e == astart {
            assert(end_trim(line@, astart as int, e as int) == astart);
        } else {
            assert(end_trim(line@, astart as int, e as int) == e);
        }
        lemma_end_trim_past(line@, astart as int, n as int, astart as int);
        assert(e > astart);
    }
    line.substring_char(astart, e).to_owned()
}

/// The first position where `p` occurs in `s` as a contiguous run, or -1.
pub open spec fn find_sub(s: Seq<char>, p: Seq<char>, i: int) -> int
    decreases s.len() + 1 - i,
{
    if !(0 <= i && i + p.len() <= s.len()) {
        -1
    } else if s.subrange(i, i + p.len()) == p {
        i
    } else {
        find_sub(s, p, i + 1)
    }
}

/// The first position at or after `i` holding an opening bracket, or the
/// end of the text.
pub open spec fn find_bracket(s: Seq<char>, i: int) -> int
    decreases s.len() - i,
{
    if !(0 <= i && i < s.len()) {
        s.len() as int
    } else if s[i] == '[' {
        i
    } else {
        find_bracket(s, i + 1)
    }
}

/// What `extract_gpu_name` returns: from the first occurrence of the
/// vendor text up to (not including) the first `[`, trimmed; the vendor
/// text followed by ` GPU` when the vendor does not occur.
pub open spec fn spec_extract_gpu_name(s: Seq<char>, vendor: Seq<char>) -> Seq<char> {
    let i = find_sub(s, vendor, 0);
    if i < 0 {
        vendor + " GPU"@
    } else {
        let b = find_bracket(s, i);
        let a = start_trim(s, i, b);
        s.subrange(a, end_trim(s, a, b))
    }
}

/// Whether `p` occurs in `s` starting at `i`.
fn occurs_at(s: &str, p: &str, i: usize) -> (r: bool)
    requires
        i + p@.len() <= s@.len(),
    ensures
        r == (s@.subrange(i as int, i + p@.len()) == p@),
{
    let n = s.unicode_len();
    let m = p.unicode_len();
    let mut j: usize = 0;
    while j < m
        invariant
            0 <= j <= m,
            m == p@.len(),
            n == s@.len(),
            i + m <= s@.len(),
            forall|q: int| 0 <= q < j ==> s@[i + q] == p@[q],
        decreases m - j,
    {
        proof {
            assert(i + j < s@.len());
        }
        if s.get_char(i + j) != p.get_char(j) {
            proof {
                assert(s@.subrange(i as int, i + p@.len())[j as int] != p@[j as int]);
            }
            return false;
        }
        j += 1;
    }
    proof {
        assert(s@.subrange(i as int, i + p@.len()) =~= p@);
    }
    true
}

/// The GPU name in one probe output line: from the vendor text up to the
/// first `[`, trimmed; the vendor text followed by ` GPU` when the vendor
/// does not occur in the line.
pub fn extract_gpu_name(line: &str, vendor: &str) -> (r: String)
    ensures
        r@ == spec_extract_gpu_name(line@, vendor@),
{
    let n = line.unicode_len();
    let m = vendor.unicode_len();
    let mut i: usize = 0;
    let mut found: Option<usize> = None;
    while found.is_none() && n - i >= m && i <= n
        invariant
            0 <= i <= n,
            n == line@.len(),
            m == vendor@.len(),
            match found {
                Some(f) => find_sub(line@, vendor@, 0) == f && f + m <= n,
                None => find_sub(line@, vendor@, 0) == find_sub(line@, vendor@, i as int),
            },
        decreases n - i, (if found is None { 1int } else { 0int }),
    {
        if occurs_at(line, vendor, i) {
            found = Some(i);
        } else {
            proof {
                if m == 0 {
                    assert(line@.subrange(i as int, i as int) =~= vendor@);
                }
            }
            i += 1;
        }
    }
    let pos = match found {
        None => {
            proof {
                assert(find_sub(line@, vendor@, 0) == -1);
            }
            let mut r = vendor.to_owned();
            r.append(" GPU");
            return r;
        },
        Some(p) => p,
    };
    proof {
        assert(find_sub(line@, vendor@, 0) == pos);
    }
    let mut b = pos;
    while b < n && line.get_char(b) != '['
        invariant
            pos <= b <= n,
            n == line@.len(),
            find_bracket(line@, pos as int) == find_bracket(line@, b as int),
        decreases n - b,
    {
        b += 1;
    }
    proof {
        assert(find_bracket(line@, pos as int) == b);
    }
    let mut a = pos;
    while a < b && ws_at(line, a)
        invariant
            pos <= a <= b,
            b <= n,
            n == line@.len(),
            start_trim(line@, pos as int, b as int) == start_trim(line@, a as int, b as int),
        decreases b - a,
    {
        a += 1;
    }
    proof {
        assert(start_trim(line@, pos as int, b as int) == a);
    }
    let mut e = b;
    while e > a && ws_at(line, e - 1)
        invariant
            a <= e <= b,
            b <= n,
            n == line@.len(),
            end_trim(line@, a as int, b as int) == end_trim(line@, a as int, e as int),
        decreases e,
    {
        e -= 1;
    }
    proof {
        if e == a {
            assert(end_trim(line@, a as int, e as int) == a);
        } else {
            assert(end_trim(line@, a as int, e as int) == e);
        }
    }
    line.substring_char(a, e).to_owned()
}

/// Whether `c` reads as the lowercase letter `p` under ASCII folding.
pub open spec fn ci_match(c: char, p: char) -> bool {
    c == p || (0x41 <= c as u32 <= 0x5a && c as u32 + 32 == p as u32)
}

/// Whether the lowercase pattern `p` occurs in `s` at position `i`,
/// comparing case-insensitively in the ASCII range.
pub open spec fn ci_match_at(s: Seq<char>, p: Seq<char>, i: int) -> bool {
    0 <= i && i + p.len() <= s.len()
        && (forall|j: int| 0 <= j < p.len() ==> ci_match(s[i + j], #[trigger] p[j]))
}

/// Whether the lowercase pattern `p` occurs anywhere in `s`.
pub open spec fn contains_ci(s: Seq<char>, p: Seq<char>) -> bool {
    exists|i: int| ci_match_at(s, p, i)
}

/// Whether the lowercase pattern occurs in the text, ASCII
/// case-insensitively.
pub fn text_contains_ci(s: &str, p: &str) -> (r: bool)
    ensures
        r == contains_ci(s@, p@),
{
    let n = s.unicode_len();
    let m = p.unicode_len();
    if m == 0 {
        proof {
            assert(ci_match_at(s@, p@, 0));
        }
        return true;
    }
    let mut i: usize = 0;
    while n - i >= m && i <= n
        invariant
            0 <= i <= n,
            1 <= m,
            n == s@.len(),
            m == p@.len(),
            forall|q: int| 0 <= q < i ==> !ci_match_at(s@, p@, q),
        decreases n - i,
    {
        let mut j: usize = 0;
        let mut all = true;
        while j < m && all
            invariant
                0 <= j <= m,
                m == p@.len(),
                i + m <= n,
                n == s@.len(),
                all ==> forall|q: int| 0 <= q < j ==> ci_match(s@[i + q], #[trigger] p@[q]),
                !all ==> !ci_match_at(s@, p@, i as int),
            decreases m - j,
        {
            proof {
                assert(i + j < s@.len());
            }
            let c = s.get_char(i + j);
            let pc = p.get_char(j);
            let cu = c as u32;
            let pu = pc as u32;
            if !(cu == pu || (0x41 <= cu && cu <= 0x5a && cu + 32 == pu)) {
                proof {
                    assert(!ci_match(s@[i + j], p@[j as int]));
                }
                all = false;
            }
            j += 1;
        }
        if all {
            proof {
                assert(ci_match_at(s@, p@, i as int));
            }
            return true;
        }
        i += 1;
    }
    proof {
        if contains_ci(s@, p@) {
            let w = choose|w: int| ci_match_at(s@, p@, w);
            assert(w + p@.len() <= s@.len());
            assert(w < i);
            assert(!ci_match_at(s@, p@, w));
        }
    }
    false
}

/// What `estimate_asic_hashrate` returns for a device name, by known
/// model markers.
pub open spec fn spec_estimate_asic_hashrate(name: Seq<char>) -> u64 {
    if contains_ci(name, "s19"@) {
        110_000_000_000_000
    } else if contains_ci(name, "s17"@) {
        56_000_000_000_000
    } else if contains_ci(name, "s9"@) {
        14_000_000_000_000
    } else if contains_ci(name, "whatsminer"@) {
        100_000_000_000_000
    } else if contains_ci(name, "avalon"@) {
        50_000_000_000_000
    } else {
        50_000_000_000_000
    }
}

/// A hashrate estimate for an ASIC device, from known model markers in
/// its name.
pub fn estimate_asic_hashrate(name: &str) -> (r: u64)
    ensures
        r == spec_estimate_asic_hashrate(name@),
{
    if text_contains_ci(name, "s19") {
        110_000_000_000_000
    } else if text_contains_ci(name, "s17") {
        56_000_000_000_000
    } else if text_contains_ci(name, "s9") {
        14_000_000_000_000
    } else if text_contains_ci(name, "whatsminer") {
        100_000_000_000_000
    } else if text_contains_ci(name, "avalon") {
        50_000_000_000_000
    } else {
        50_000_000_000_000
    }
}

/// The vendor a probe line names: NVIDIA, then AMD (also as `radeon`),
/// else Intel.
pub open spec fn spec_classify_gpu_vendor(name: Seq<char>) -> GPUVendor {
    if contains_ci(name, "nvidia"@) {
        GPUVendor::NVIDIA
    } else if contains_ci(name, "amd"@) || contains_ci(name, "radeon"@) {
        GPUVendor::AMD
    } else {
        GPUVendor::Intel
    }
}

pub fn classify_gpu_vendor(name: &str) -> (r: GPUVendor)
    ensures
        r == spec_classify_gpu_vendor(name@),
{
    if text_contains_ci(name, "nvidia") {
        GPUVendor::NVIDIA
    } else if text_contains_ci(name, "amd") || text_contains_ci(name, "radeon") {
        GPUVendor::AMD
    } else {
        GPUVendor::Intel
    }
}

/// A memory estimate for a GPU, by vendor, in bytes.
pub fn estimate_gpu_memory(vendor: &GPUVendor) -> (r: u64)
    ensures
        r == match vendor {
            GPUVendor::NVIDIA => 8 * 1024 * 1024 * 1024u64,
            GPUVendor::AMD => 8 * 1024 * 1024 * 1024u64,
            GPUVendor::Intel => 4 * 1024 * 1024 * 1024u64,
        },
{
    match vendor {
        GPUVendor::NVIDIA => 8 * 1024 * 1024 * 1024,
        GPUVendor::AMD => 8 * 1024 * 1024 * 1024,
        GPUVendor::Intel => 4 * 1024 * 1024 * 1024,
    }
}

/// A hashrate estimate for a GPU, by vendor, in hashes per second.
pub fn estimate_gpu_hashrate(vendor: &GPUVendor) -> (r: u64)
    ensures
        r == match vendor {
            GPUVendor::NVIDIA => 100_000_000u64,
            GPUVendor::AMD => 80_000_000u64,
            GPUVendor::Intel => 20_000_000u64,
        },
{
    match vendor {
        GPUVendor::NVIDIA => 100_000_000,
        GPUVendor::AMD => 80_000_000,
        GPUVendor::Intel => 20_000_000,
    }
}

} // verus!

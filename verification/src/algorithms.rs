//! Hash-search routines: target comparison and batched nonce search.
//!
//! Three algorithm families share one execution shape: hash the job header
//! concatenated with the little-endian nonce, compare against the target,
//! and advance the nonce (wrapping on overflow). Attempts are processed in
//! fixed-size batches so a caller can check cancellation between batches.

pub mod sha256;
pub mod ethash;
pub mod gxhash;

use vstd::prelude::*;
use crate::types::Algorithm;
use crate::digest::{sha256_of, keccak256_of};

verus! {

/// Target comparison, scanning from the most significant byte at index `i`:
/// at the first differing position the hash byte must be smaller than the
/// target byte; if all compared bytes are equal the hash is accepted.
pub open spec fn meets_target_from(hash: Seq<u8>, target: Seq<u8>, i: int) -> bool
    decreases hash.len() + target.len() - i,
{
    if i < 0 || i >= hash.len() || i >= target.len() {
        true
    } else if hash[i] > target[i] {
        false
    } else if hash[i] < target[i] {
        true
    } else {
        meets_target_from(hash, target, i + 1)
    }
}

/// Whether a hash meets a target, most-significant byte first. Only the
/// common prefix of the two sequences is compared.
pub open spec fn meets_target(hash: Seq<u8>, target: Seq<u8>) -> bool {
    meets_target_from(hash, target, 0)
}

proof fn lemma_meets_target_from_characterization(hash: Seq<u8>, target: Seq<u8>, i: int)
    requires
        hash.len() == target.len(),
        0 <= i <= hash.len(),
    ensures
        meets_target_from(hash, target, i) <==> ((forall|j: int| i <= j < hash.len() ==> hash[j] == target[j])
            || (exists|k: int| i <= k < hash.len() && hash[k] < target[k]
                && (forall|j: int| i <= j < k ==> hash[j] == target[j]))),
    decreases hash.len() - i,
{
    if i < hash.len() {
        lemma_meets_target_from_characterization(hash, target, i + 1);
        if hash[i] < target[i] {
            let k = i;
            assert(i <= k < hash.len() && hash[k] < target[k]
                && (forall|j: int| i <= j < k ==> hash[j] == target[j]));
        } else if hash[i] == target[i] {
            if meets_target_from(hash, target, i + 1) {
                if !(forall|j: int| (i + 1) <= j < hash.len() ==> hash[j] == target[j]) {
                    let k = choose|k: int| (i + 1) <= k < hash.len() && hash[k] < target[k]
                        && (forall|j: int| (i + 1) <= j < k ==> hash[j] == target[j]);
                    assert(i <= k < hash.len() && hash[k] < target[k]
                        && (forall|j: int| i <= j < k ==> hash[j] == target[j]));
                }
            } else {
                if exists|k: int| i <= k < hash.len() && hash[k] < target[k]
                    && (forall|j: int| i <= j < k ==> hash[j] == target[j]) {
                    let k = choose|k: int| i <= k < hash.len() && hash[k] < target[k]
                        && (forall|j: int| i <= j < k ==> hash[j] == target[j]);
                    assert(k != i);
                    assert((i + 1) <= k < hash.len() && hash[k] < target[k]
                        && (forall|j: int| (i + 1) <= j < k ==> hash[j] == target[j]));
                }
            }
        }
    }
}

/// For equal-length sequences, a hash meets a target exactly when, scanning
/// most-significant byte first, the first differing byte of the hash is less
/// than the target's, or the two sequences are equal.
pub proof fn lemma_meets_target_characterization(hash: Seq<u8>, target: Seq<u8>)
    requires
        hash.len() == target.len(),
    ensures
        meets_target(hash, target) <==> (hash == target
            || (exists|k: int| 0 <= k < hash.len() && hash[k] < target[k]
                && (forall|j: int| 0 <= j < k ==> hash[j] == target[j]))),
{
    lemma_meets_target_from_characterization(hash, target, 0);
    if forall|j: int| 0 <= j < hash.len() ==> hash[j] == target[j] {
        assert(hash =~= target);
    }
    if hash == target {
        assert(forall|j: int| 0 <= j < hash.len() ==> hash[j] == target[j]);
    }
}

/// The eight bytes of a nonce, least significant first.
pub open spec fn le_bytes64(n: u64) -> Seq<u8> {
    seq![
        (n & 0xff) as u8,
        ((n >> 8) & 0xff) as u8,
        ((n >> 16) & 0xff) as u8,
        ((n >> 24) & 0xff) as u8,
        ((n >> 32) & 0xff) as u8,
        ((n >> 40) & 0xff) as u8,
        ((n >> 48) & 0xff) as u8,
        ((n >> 56) & 0xff) as u8,
    ]
}

/// The bytes an attempt hashes: the job header followed by the little-endian
/// nonce.
pub open spec fn attempt_message(header: Seq<u8>, nonce: u64) -> Seq<u8> {
    header + le_bytes64(nonce)
}

/// The hash one attempt produces, per algorithm family: a single SHA-256 for
/// the SHA-256 and GXHash families, a double Keccak-256 for Ethash.
pub open spec fn attempt_hash(algorithm: Algorithm, header: Seq<u8>, nonce: u64) -> Seq<u8> {
    match algorithm {
        Algorithm::SHA256 => sha256_of(attempt_message(header, nonce)),
        Algorithm::Ethash => keccak256_of(keccak256_of(attempt_message(header, nonce))),
        Algorithm::GXHash => sha256_of(attempt_message(header, nonce)),
    }
}

/// Whether an attempt's hash is accepted. With a target present, the shared
/// most-significant-byte-first comparison decides; with an empty target the
/// family-specific fixed zero-prefix rule applies instead. The GXHash family
/// ignores the target entirely.
pub open spec fn attempt_accepted(algorithm: Algorithm, header: Seq<u8>, target: Seq<u8>, nonce: u64) -> bool {
    let h = attempt_hash(algorithm, header, nonce);
    match algorithm {
        Algorithm::SHA256 => if target.len() == 0 {
            h[0] == 0 && h[1] == 0
        } else {
            meets_target(h, target)
        },
        Algorithm::Ethash => if target.len() == 0 {
            h[0] == 0 && h[1] == 0 && h[2] == 0
        } else {
            meets_target(h, target)
        },
        Algorithm::GXHash => h[0] == 0 && h[1] == 0,
    }
}

/// The nonce scanned `k` attempts after `start`, wrapping on overflow.
pub open spec fn nth_nonce(start: u64, k: u64) -> u64 {
    vstd::wrapping::u64_specs::wrapping_add(start, k)
}

/// Appends the eight little-endian nonce bytes to a message.
fn push_le_bytes64(message: &mut Vec<u8>, nonce: u64)
    ensures
        final(message)@ == old(message)@ + le_bytes64(nonce),
{
    proof {
        assert((nonce & 0xff) <= 0xff && ((nonce >> 8) & 0xff) <= 0xff
            && ((nonce >> 16) & 0xff) <= 0xff && ((nonce >> 24) & 0xff) <= 0xff
            && ((nonce >> 32) & 0xff) <= 0xff && ((nonce >> 40) & 0xff) <= 0xff
            && ((nonce >> 48) & 0xff) <= 0xff && ((nonce >> 56) & 0xff) <= 0xff) by (bit_vector);
    }
    message.push((nonce & 0xff) as u8);
    message.push(((nonce >> 8) & 0xff) as u8);
    message.push(((nonce >> 16) & 0xff) as u8);
    message.push(((nonce >> 24) & 0xff) as u8);
    message.push(((nonce >> 32) & 0xff) as u8);
    message.push(((nonce >> 40) & 0xff) as u8);
    message.push(((nonce >> 48) & 0xff) as u8);
    message.push(((nonce >> 56) & 0xff) as u8);
    proof {
        assert(message@ =~= old(message)@ + le_bytes64(nonce));
    }
}

/// One attempt's hash bytes.
pub fn attempt(algorithm: Algorithm, header: &Vec<u8>, nonce: u64) -> (r: [u8; 32])
    ensures
        r@ == attempt_hash(algorithm, header@, nonce),
        attempt_hash(algorithm, header@, nonce).len() == 32,
{
    let mut message = header.clone();
    proof {
        assert(message@ =~= header@);
    }
    push_le_bytes64(&mut message, nonce);
    match algorithm {
        Algorithm::SHA256 => crate::digest::sha256(message.as_slice()),
        Algorithm::Ethash => {
            let first = crate::digest::keccak256(message.as_slice());
            crate::digest::keccak256(first.as_slice())
        },
        Algorithm::GXHash => crate::digest::sha256(message.as_slice()),
    }
}

/// How many attempts one batch processes for each family. Cancellation is
/// checked between batches, so this bounds the worst-case stop latency.
pub open spec fn spec_batch_size(algorithm: Algorithm) -> u64 {
    match algorithm {
        Algorithm::SHA256 => 10000,
        Algorithm::Ethash => 5000,
        Algorithm::GXHash => 10000,
    }
}

pub fn batch_size(algorithm: Algorithm) -> (r: u64)
    ensures
        r == spec_batch_size(algorithm),
        r >= 1,
{
    match algorithm {
        Algorithm::SHA256 => 10000,
        Algorithm::Ethash => 5000,
        Algorithm::GXHash => 10000,
    }
}

/// Scans `count` nonces starting at `start_nonce` (wrapping on overflow) and
/// returns the first accepted attempt, as the nonce and its hash, or `None`
/// if no attempt in the batch is accepted.
pub fn search_batch(algorithm: Algorithm, header: &Vec<u8>, target: &Vec<u8>, start_nonce: u64, count: u64) -> (r: Option<(u64, Vec<u8>)>)
    ensures
        match r {
            Some(found) => {
                &&& exists|k: u64| 0 <= k < count && found.0 == nth_nonce(start_nonce, k)
                    && (forall|j: u64| 0 <= j < k ==> !attempt_accepted(algorithm, header@, target@, nth_nonce(start_nonce, j)))
                &&& attempt_accepted(algorithm, header@, target@, found.0)
                &&& found.1@ == attempt_hash(algorithm, header@, found.0)
            },
            None => forall|k: u64| 0 <= k < count ==> !attempt_accepted(algorithm, header@, target@, nth_nonce(start_nonce, k)),
        },
{
    let mut k: u64 = 0;
    while k < count
        invariant
            0 <= k <= count,
            forall|j: u64| 0 <= j < k ==> !attempt_accepted(algorithm, header@, target@, nth_nonce(start_nonce, j)),
        decreases count - k,
    {
        let nonce = start_nonce.wrapping_add(k);
        let hash = attempt(algorithm, header, nonce);
        let accepted = match algorithm {
            Algorithm::SHA256 => sha256::check_target(&hash, target.as_slice()),
            Algorithm::Ethash => ethash::check_target(&hash, target.as_slice()),
            Algorithm::GXHash => gxhash::accepts_hash(&hash),
        };
        if accepted {
            assert(attempt_accepted(algorithm, header@, target@, nth_nonce(start_nonce, k)));
            return Some((nonce, vstd::slice::slice_to_vec(hash.as_slice())));
        }
        k = k + 1;
    }
    None
}

} // verus!

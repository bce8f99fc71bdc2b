//! SHA-256 family: a single hash per attempt; an empty target falls back to
//! requiring the first two hash bytes to be zero.

use vstd::prelude::*;
use crate::algorithms::{meets_target, meets_target_from};

verus! {

/// What `check_target` decides: the shared most-significant-byte-first
/// comparison, or the two-zero-byte rule when the target is empty.
pub open spec fn spec_check_target(hash: Seq<u8>, target: Seq<u8>) -> bool {
    if target.len() == 0 {
        hash[0] == 0 && hash[1] == 0
    } else {
        meets_target(hash, target)
    }
}

pub fn check_target(hash: &[u8; 32], target: &[u8]) -> (r: bool)
    ensures
        r == spec_check_target(hash@, target@),
{
    if target.is_empty() {
        return hash[0] == 0 && hash[1] == 0;
    }

    let hash_len: usize = 32;
    let m: usize = if target.len() < hash_len { target.len() } else { hash_len };
    let mut i: usize = 0;
    while i < m
        invariant
            0 <= i <= m,
            m <= hash@.len() && m <= target@.len(),
            m == if target@.len() < 32 { target@.len() as int } else { 32 },
            hash@.len() == 32,
            meets_target(hash@, target@) == meets_target_from(hash@, target@, i as int),
        decreases m - i,
    {
        if hash[i] > target[i] {
            return false;
        } else if hash[i] < target[i] {
            return true;
        }
        i += 1;
    }
    true
}

} // verus!

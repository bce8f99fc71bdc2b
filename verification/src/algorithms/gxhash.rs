//! GXHash family: a single hash per attempt, accepted only if its first two
//! bytes are zero; the job's target is ignored (fixed low-difficulty
//! fallback).

use vstd::prelude::*;

verus! {

/// The fixed acceptance rule of this family.
pub open spec fn spec_accepts_hash(hash: Seq<u8>) -> bool {
    hash[0] == 0 && hash[1] == 0
}

pub fn accepts_hash(hash: &[u8; 32]) -> (r: bool)
    ensures
        r == spec_accepts_hash(hash@),
{
    hash[0] == 0 && hash[1] == 0
}

} // verus!

//! The identifier allocator.
//!
//! Identifiers are 16-bit, with zero reserved as "no identifier". A fresh
//! identifier is drawn by rejection sampling against the set of identifiers
//! already in use; after a bounded number of draws a deterministic scan
//! guarantees termination. Allocation fails only when every non-zero
//! identifier is already taken.

use vstd::prelude::*;

use crate::record::AppElement;
use crate::record::spec_with_id;

verus! {

/// Relies on `rand::random`: a sampled 16-bit value. Nothing is promised
/// of the outcome.
#[verifier::external_body]
fn random_u16() -> u16 {
    rand::random::<u16>()
}

/// Whether `x` occurs in `v`.
pub fn vec_contains_u16(v: &Vec<u16>, x: u16) -> (r: bool)
    ensures
        r == v@.contains(x),
{
    let n = v.len();
    let mut i: usize = 0;
    while i < n
        invariant
            0 <= i <= n,
            n == v@.len(),
            forall|j: int| 0 <= j < i ==> v@[j] != x,
        decreases n - i,
    {
        if v[i] == x {
            return true;
        }
        i = i + 1;
    }
    false
}

impl AppElement {
    /// Allocates a fresh identifier for this record: non-zero, not in
    /// `existing`, recorded both in the record and in `existing`. Fails
    /// exactly when no non-zero identifier is free.
    pub fn generate_id(&mut self, existing: &mut Vec<u16>) -> (r: Option<u16>)
        ensures
            r matches Some(v) ==> (v != 0 && !old(existing)@.contains(v)
                && final(existing)@ == old(existing)@.push(v)
                && final(self)@ == spec_with_id(old(self)@, v)),
            r is None ==> ((forall|v: u16| v != 0 ==> old(existing)@.contains(v))
                && final(existing)@ == old(existing)@
                && final(self)@ == old(self)@),
    {
        let mut attempts: u32 = 64;
        while attempts > 0
            invariant
                existing@ == old(existing)@,
                self@ == old(self)@,
            decreases attempts,
        {
            let cand = random_u16();
            if cand != 0 && !vec_contains_u16(existing, cand) {
                self.id = Some(cand);
                existing.push(cand);
                return Some(cand);
            }
            attempts = attempts - 1;
        }
        let mut cand: u32 = 1;
        while cand <= 65535
            invariant
                1 <= cand <= 65536,
                existing@ == old(existing)@,
                self@ == old(self)@,
                forall|v: u16| 1 <= v < cand ==> old(existing)@.contains(v),
            decreases 65536 - cand,
        {
            let c: u16 = cand as u16;
            if !vec_contains_u16(existing, c) {
                self.id = Some(c);
                existing.push(c);
                return Some(c);
            }
            cand = cand + 1;
        }
        None
    }
}

} // verus!

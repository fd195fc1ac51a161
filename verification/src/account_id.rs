//! Identities of players, authorities and transfer destinations.
//!
//! The host environment addresses accounts by 32-byte keys; the payout
//! engine only ever compares identities for equality and against the
//! all-zero placeholder, so an identity is held here as four 64-bit words.

use vstd::prelude::*;

verus! {

/// A 32-byte account identity, split into four 64-bit words.
#[derive(Clone, Copy, PartialEq, Eq, Structural, Debug, Hash)]
pub struct AccountId {
    pub w0: u64,
    pub w1: u64,
    pub w2: u64,
    pub w3: u64,
}

impl AccountId {
    /// The all-zero identity, which the host uses as a placeholder and
    /// which is never a real account.
    pub open spec fn spec_is_default(self) -> bool {
        self.w0 == 0 && self.w1 == 0 && self.w2 == 0 && self.w3 == 0
    }

    /// True exactly on the all-zero placeholder identity.
    pub fn is_default(&self) -> (r: bool)
        ensures
            r == self.spec_is_default(),
    {
        self.w0 == 0 && self.w1 == 0 && self.w2 == 0 && self.w3 == 0
    }
}

/// Whether `v` holds `x`, by linear scan.
pub fn contains_account(v: &Vec<AccountId>, x: AccountId) -> (r: bool)
    ensures
        r == v@.contains(x),
{
    let mut i: usize = 0;
    while i < v.len()
        invariant
            i <= v@.len(),
            forall|j: int| 0 <= j < i ==> v@[j] != x,
        decreases v@.len() - i,
    {
        if v[i] == x {
            return true;
        }
        i = i + 1;
    }
    false
}

} // verus!

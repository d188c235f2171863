//! Minting of process-unique analysis keys.
//!
//! Every analysis type is identified by an address-sized key. Two
//! distinct analysis types must never share a key for the lifetime of
//! the process, and the same type must always present the same key.
//! The native convention is to take the address of a dedicated static
//! marker; this module captures the part that can be stated and proved:
//! a registry that mints keys and never hands the same key out twice.

use vstd::prelude::*;

verus! {

/// Address-sized identifier of an analysis type. Distinct registered
/// analysis types carry distinct keys.
pub type AnalysisKey = u64;

/// Mints analysis keys, never repeating one within the registry's
/// lifetime.
pub struct KeyRegistry {
    next: u64,
}

/// Relation between a registry before and after one `mint_key` call
/// that returned `k`: the key is fresh, and it is the only addition.
pub open spec fn mint_step(pre: KeyRegistry, post: KeyRegistry, k: AnalysisKey) -> bool {
    &&& !pre.minted().contains(k)
    &&& post.minted() == pre.minted().insert(k)
}

impl KeyRegistry {
    /// Keys this registry has handed out so far.
    pub closed spec fn minted(self) -> Set<AnalysisKey> {
        Set::new(|k: AnalysisKey| k < self.next)
    }

    /// Whether the registry can still mint a fresh key.
    pub closed spec fn can_mint(self) -> bool {
        self.next < u64::MAX
    }

    /// A registry that has handed out no keys yet.
    pub fn new() -> (r: KeyRegistry)
        ensures
            r.minted() == Set::<AnalysisKey>::empty(),
            r.can_mint(),
    {
        let r = KeyRegistry { next: 0 };
        proof {
            assert(r.minted() =~= Set::<AnalysisKey>::empty());
        }
        r
    }

    /// Hands out a key no earlier call on this registry has returned.
    pub fn mint_key(&mut self) -> (k: AnalysisKey)
        requires
            old(self).can_mint(),
        ensures
            mint_step(*old(self), *final(self), k),
    {
        let k = self.next;
        self.next = self.next + 1;
        proof {
            assert(self.minted() =~= old(self).minted().insert(k));
        }
        k
    }
}

/// Law: keys minted by two successive calls are distinct. Together with
/// the freshness in `mint_step` this gives pairwise-distinct keys for
/// any sequence of mints from one registry.
pub proof fn lemma_minted_keys_distinct(
    r0: KeyRegistry,
    r1: KeyRegistry,
    r2: KeyRegistry,
    k1: AnalysisKey,
    k2: AnalysisKey,
)
    requires
        mint_step(r0, r1, k1),
        mint_step(r1, r2, k2),
    ensures
        k1 != k2,
{
    assert(r1.minted().contains(k1));
}

} // verus!

use vstd::prelude::*;

use crate::key::Key;

verus! {

/// Largest number of guardians a profile may register.
pub const MAX_GUARDIANS: u8 = 10;

/// Length of the profile header: the seed key followed by the authority key.
pub const PROFILE_HEADER_LEN: usize = 64;

/// A registered guardian and whether it has countersigned the current recovery.
#[derive(Clone, Copy, Debug)]
pub struct Guardian {
    pub pubkey: Key,
    pub has_signed: bool,
}

/// The profile record kept at the address derived from its seed key.
#[derive(Clone, Debug)]
pub struct UserProfile {
    /// Key the profile address is derived from.
    pub seed: Key,
    /// Key currently allowed to act for the profile.
    pub authority: Key,
    /// Number of guardian signatures a recovery needs.
    pub recovery_threshold: u8,
    /// Registered guardians, keys pairwise distinct, in the order they were
    /// added. A sequence with a distinctness invariant, rather than a hash map,
    /// so that the stored bytes are a function of the profile and every
    /// operation on the table is proved over its model.
    pub guardians: Vec<Guardian>,
    /// Profile address a recovery is directed at (all zero when none).
    pub recovery: Key,
    /// Profile addresses that were earlier recovered into this one, pairwise distinct.
    pub recovered: Vec<Key>,
}

/// Mathematical value of a [`UserProfile`].
pub struct ProfileModel {
    pub seed: Key,
    pub authority: Key,
    pub recovery_threshold: u8,
    pub guardians: Seq<Guardian>,
    pub recovery: Key,
    pub recovered: Seq<Key>,
}

/// The first two fields of a profile, readable from any account of this program.
#[derive(Clone, Copy, Debug)]
pub struct ProfileHeader {
    pub seed: Key,
    pub authority: Key,
}

impl View for UserProfile {
    type V = ProfileModel;

    open spec fn view(&self) -> ProfileModel {
        ProfileModel {
            seed: self.seed,
            authority: self.authority,
            recovery_threshold: self.recovery_threshold,
            guardians: self.guardians@,
            recovery: self.recovery,
            recovered: self.recovered@,
        }
    }
}

/// Guardian keys are pairwise distinct.
pub open spec fn distinct_guardians(s: Seq<Guardian>) -> bool {
    forall|i: int, j: int|
        0 <= i < s.len() && 0 <= j < s.len() && i != j ==> s[i].pubkey@ != s[j].pubkey@
}

/// Keys are pairwise distinct.
pub open spec fn distinct_keys(s: Seq<Key>) -> bool {
    forall|i: int, j: int| 0 <= i < s.len() && 0 <= j < s.len() && i != j ==> s[i]@ != s[j]@
}

/// `k` is registered in the guardian table `s`.
pub open spec fn has_guardian(s: Seq<Guardian>, k: Key) -> bool {
    exists|i: int| 0 <= i < s.len() && s[i].pubkey@ == k@
}

/// `k` is in the key set `s`.
pub open spec fn has_key(s: Seq<Key>, k: Key) -> bool {
    exists|i: int| 0 <= i < s.len() && s[i]@ == k@
}

/// Number of guardians that have countersigned.
pub open spec fn signed_count(s: Seq<Guardian>) -> nat
    decreases s.len(),
{
    if s.len() == 0 {
        0
    } else {
        signed_count(s.drop_last()) + if s.last().has_signed {
            1nat
        } else {
            0nat
        }
    }
}

impl ProfileModel {
    /// The invariant every stored profile satisfies.
    pub open spec fn wf(self) -> bool {
        &&& self.guardians.len() <= MAX_GUARDIANS
        &&& distinct_guardians(self.guardians)
        &&& distinct_keys(self.recovered)
        &&& self.recovered.len() <= u32::MAX
    }

    /// Enough guardians have countersigned the current recovery.
    pub open spec fn recovery_ready(self) -> bool {
        signed_count(self.guardians) >= self.recovery_threshold
    }
}

} // verus!

verus! {

/// Whether `k` is registered in `gs`.
pub fn contains_guardian(gs: &Vec<Guardian>, k: &Key) -> (r: bool)
    ensures
        r == has_guardian(gs@, *k),
{
    match find_guardian(gs, k) {
        Some(_) => true,
        None => false,
    }
}

/// Index of the guardian registered under `k`.
pub fn find_guardian(gs: &Vec<Guardian>, k: &Key) -> (r: Option<usize>)
    ensures
        r matches Some(i) ==> i < gs@.len() && gs@[i as int].pubkey@ == k@,
        r is None ==> !has_guardian(gs@, *k),
        r is Some <==> has_guardian(gs@, *k),
{
    let mut i: usize = 0;
    while i < gs.len()
        invariant
            i <= gs@.len(),
            forall|j: int| 0 <= j < i ==> gs@[j].pubkey@ != k@,
        decreases gs@.len() - i,
    {
        if gs[i].pubkey.same(k) {
            return Some(i);
        }
        i = i + 1;
    }
    None
}

/// Whether `k` is in `ks`.
pub fn contains_key(ks: &Vec<Key>, k: &Key) -> (r: bool)
    ensures
        r == has_key(ks@, *k),
{
    let mut i: usize = 0;
    while i < ks.len()
        invariant
            i <= ks@.len(),
            forall|j: int| 0 <= j < i ==> ks@[j]@ != k@,
        decreases ks@.len() - i,
    {
        if ks[i].same(k) {
            return true;
        }
        i = i + 1;
    }
    false
}

} // verus!

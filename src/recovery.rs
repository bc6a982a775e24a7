//! The guardian table and the recovery protocol, on a decoded profile.
use vstd::prelude::*;

use crate::error::KryptonError;
use crate::key::Key;
use crate::state::{
    contains_guardian, contains_key, distinct_guardians, distinct_keys, find_guardian,
    has_guardian, has_key, signed_count, Guardian, ProfileModel, UserProfile, MAX_GUARDIANS,
};

verus! {

/// `gs` with a fresh, unsigned guardian appended for each key.
pub open spec fn with_added(gs: Seq<Guardian>, keys: Seq<Key>) -> Seq<Guardian> {
    gs + keys.map_values(|k: Key| Guardian { pubkey: k, has_signed: false })
}

/// `gs` without the guardians whose key is in `keys`, order kept.
pub open spec fn without_keys(gs: Seq<Guardian>, keys: Seq<Key>) -> Seq<Guardian>
    decreases gs.len(),
{
    if gs.len() == 0 {
        Seq::empty()
    } else {
        let r = without_keys(gs.drop_last(), keys);
        if has_key(keys, gs.last().pubkey) {
            r
        } else {
            r.push(gs.last())
        }
    }
}

/// Every guardian's signature withdrawn.
pub open spec fn unsigned(gs: Seq<Guardian>) -> Seq<Guardian> {
    gs.map_values(|g: Guardian| Guardian { pubkey: g.pubkey, has_signed: false })
}

/// The guardian registered under `k` marked as signed.
pub open spec fn signed_by(gs: Seq<Guardian>, k: Key) -> Seq<Guardian> {
    gs.map_values(
        |g: Guardian| Guardian { pubkey: g.pubkey, has_signed: g.has_signed || g.pubkey@ == k@ },
    )
}

/// Why adding `keys` as guardians is refused, if it is.
pub open spec fn add_guardians_error(gs: Seq<Guardian>, keys: Seq<Key>) -> Option<KryptonError> {
    if keys.len() == 0 {
        Some(KryptonError::NotEnoughGuardians)
    } else if gs.len() + keys.len() > MAX_GUARDIANS {
        Some(KryptonError::TooManyGuardians)
    } else if !distinct_keys(keys) || exists|i: int|
        0 <= i < keys.len() && has_guardian(gs, #[trigger] keys[i]) {
        Some(KryptonError::NotEnoughGuardians)
    } else {
        None
    }
}

/// Why removing the guardians `keys` is refused, if it is.
pub open spec fn remove_guardians_error(gs: Seq<Guardian>, keys: Seq<Key>) -> Option<
    KryptonError,
> {
    if keys.len() == 0 {
        Some(KryptonError::NotEnoughGuardians)
    } else if !distinct_keys(keys) || exists|i: int|
        0 <= i < keys.len() && !has_guardian(gs, #[trigger] keys[i]) {
        Some(KryptonError::GuardianNotFound)
    } else {
        None
    }
}

/// Why a recovery signature by `guardian` towards `target` is refused, if it is.
pub open spec fn sign_error(p: ProfileModel, target: Key, guardian: Key) -> Option<KryptonError> {
    if p.recovery@ != target@ {
        Some(KryptonError::NotAuthorizedToRecover)
    } else if !has_guardian(p.guardians, guardian) {
        Some(KryptonError::GuardianNotFound)
    } else {
        None
    }
}

/// The profile once the recovery is directed at `target`.
pub open spec fn retargeted(p: ProfileModel, target: Key) -> ProfileModel {
    if p.recovery@ == target@ {
        p
    } else {
        ProfileModel { recovery: target, guardians: unsigned(p.guardians), ..p }
    }
}

pub open spec fn threshold_valid(t: u8) -> bool {
    1 <= t <= MAX_GUARDIANS
}

/// What `without_keys` keeps.
pub proof fn lemma_without_keys(gs: Seq<Guardian>, keys: Seq<Key>)
    requires
        distinct_guardians(gs),
    ensures
        distinct_guardians(without_keys(gs, keys)),
        without_keys(gs, keys).len() <= gs.len(),
        forall|k: Key|
            #![trigger has_guardian(without_keys(gs, keys), k)]
            has_guardian(without_keys(gs, keys), k) <==> (has_guardian(gs, k) && !has_key(
                keys,
                k,
            )),
    decreases gs.len(),
{
    if gs.len() > 0 {
        let t = gs.drop_last();
        let g = gs.last();
        assert(distinct_guardians(t));
        lemma_without_keys(t, keys);
        let r = without_keys(t, keys);
        assert forall|k: Key| has_guardian(gs, k) <==> (has_guardian(t, k) || g.pubkey@ == k@) by {
            if has_guardian(gs, k) {
                let i = choose|i: int| 0 <= i < gs.len() && gs[i].pubkey@ == k@;
                if i < t.len() {
                    assert(t[i] == gs[i]);
                }
            }
            if has_guardian(t, k) {
                let i = choose|i: int| 0 <= i < t.len() && t[i].pubkey@ == k@;
                assert(t[i] == gs[i]);
            }
            if g.pubkey@ == k@ {
                assert(gs[gs.len() - 1] == g);
            }
        }
        if !has_key(keys, g.pubkey) {
            let r2 = r.push(g);
            assert(!has_guardian(t, g.pubkey)) by {
                if has_guardian(t, g.pubkey) {
                    let i = choose|i: int| 0 <= i < t.len() && t[i].pubkey@ == g.pubkey@;
                    assert(t[i] == gs[i]);
                    assert(gs[gs.len() - 1] == g);
                }
            }
            assert forall|k: Key| has_guardian(r2, k) <==> (has_guardian(r, k) || g.pubkey@ == k@) by {
                if has_guardian(r2, k) {
                    let i = choose|i: int| 0 <= i < r2.len() && r2[i].pubkey@ == k@;
                    if i < r.len() {
                        assert(r2[i] == r[i]);
                    }
                }
                if has_guardian(r, k) {
                    let i = choose|i: int| 0 <= i < r.len() && r[i].pubkey@ == k@;
                    assert(r2[i] == r[i]);
                }
                if g.pubkey@ == k@ {
                    assert(r2[r.len() as int] == g);
                }
            }
            assert forall|i: int, j: int|
                0 <= i < r2.len() && 0 <= j < r2.len() && i != j implies r2[i].pubkey@
                != r2[j].pubkey@ by {
                if i < r.len() && j < r.len() {
                    assert(r2[i] == r[i] && r2[j] == r[j]);
                } else if i < r.len() {
                    assert(r2[i] == r[i]);
                    assert(has_guardian(r, r[i].pubkey));
                } else if j < r.len() {
                    assert(r2[j] == r[j]);
                    assert(has_guardian(r, r[j].pubkey));
                }
            }
        }
    }
}

/// A valid profile stays valid with the guardians in `keys` removed.
proof fn lemma_without_keys_wf(p: ProfileModel, keys: Seq<Key>)
    requires
        p.wf(),
    ensures
        (ProfileModel { guardians: without_keys(p.guardians, keys), ..p }).wf(),
{
    lemma_without_keys(p.guardians, keys);
}

proof fn lemma_signed_count_unsigned(gs: Seq<Guardian>)
    ensures
        signed_count(unsigned(gs)) == 0,
    decreases gs.len(),
{
    if gs.len() > 0 {
        assert(unsigned(gs).drop_last() =~= unsigned(gs.drop_last()));
        lemma_signed_count_unsigned(gs.drop_last());
    }
}

/// Number of signed guardians, counted by a loop.
pub fn count_signatures(gs: &Vec<Guardian>) -> (r: usize)
    ensures
        r == signed_count(gs@),
{
    let mut n: usize = 0;
    let mut i: usize = 0;
    while i < gs.len()
        invariant
            i <= gs@.len(),
            n == signed_count(gs@.subrange(0, i as int)),
            n <= i,
        decreases gs@.len() - i,
    {
        assert(gs@.subrange(0, i + 1).drop_last() =~= gs@.subrange(0, i as int));
        if gs[i].has_signed {
            n = n + 1;
        }
        i = i + 1;
    }
    assert(gs@.subrange(0, gs@.len() as int) =~= gs@);
    n
}

/// Whether at least `recovery_threshold` guardians have signed.
pub fn verify_recovery_state(profile_data: &UserProfile) -> (r: bool)
    ensures
        r == profile_data@.recovery_ready(),
{
    count_signatures(&profile_data.guardians) >= profile_data.recovery_threshold as usize
}

impl UserProfile {
    /// A new profile controlled by `authority`, with no guardians and no recovery under way.
    pub fn fresh(authority: Key, recovery_threshold: u8) -> (r: UserProfile)
        ensures
            r.seed == authority,
            r.authority == authority,
            r.recovery_threshold == recovery_threshold,
            r.guardians@.len() == 0,
            r.recovery == Key::spec_zero(),
            r.recovered@.len() == 0,
            r@.wf(),
    {
        UserProfile {
            seed: authority,
            authority,
            recovery_threshold,
            guardians: Vec::new(),
            recovery: Key::zero(),
            recovered: Vec::new(),
        }
    }

    /// Registers `keys` as guardians that have not signed.
    pub fn add_guardians(&mut self, keys: &Vec<Key>) -> (r: Result<(), KryptonError>)
        requires
            old(self)@.wf(),
        ensures
            final(self)@.wf(),
            final(self)@.guardians.len() <= MAX_GUARDIANS,
            match add_guardians_error(old(self)@.guardians, keys@) {
                Some(e) => r == Err::<(), KryptonError>(e) && final(self)@ == old(self)@,
                None => r is Ok && final(self)@ == (ProfileModel {
                    guardians: with_added(old(self)@.guardians, keys@),
                    ..old(self)@
                }),
            },
    {
        if keys.len() == 0 {
            return Err(KryptonError::NotEnoughGuardians);
        }
        if keys.len() > MAX_GUARDIANS as usize - self.guardians.len() {
            return Err(KryptonError::TooManyGuardians);
        }
        let mut i: usize = 0;
        while i < keys.len()
            invariant
                self@ == old(self)@,
                old(self)@.wf(),
                keys@.len() > 0,
                old(self)@.guardians.len() + keys@.len() <= MAX_GUARDIANS,
                i <= keys@.len(),
                forall|a: int, b: int|
                    0 <= a < i && 0 <= b < keys@.len() && a != b ==> keys@[a]@ != keys@[b]@,
                forall|a: int| 0 <= a < i ==> !has_guardian(self@.guardians, #[trigger] keys@[a]),
            decreases keys@.len() - i,
        {
            if contains_guardian(&self.guardians, &keys[i]) {
                assert(0 <= i < keys@.len() && has_guardian(old(self)@.guardians, keys@[i as int]));
                return Err(KryptonError::NotEnoughGuardians);
            }
            let mut j: usize = 0;
            while j < keys.len()
                invariant
                    self@ == old(self)@,
                    old(self)@.wf(),
                    old(self)@.guardians.len() + keys@.len() <= MAX_GUARDIANS,
                    i < keys@.len(),
                    j <= keys@.len(),
                    forall|b: int| 0 <= b < j && b != i ==> keys@[i as int]@ != keys@[b]@,
                decreases keys@.len() - j,
            {
                if j != i && keys[i].same(&keys[j]) {
                    assert(!distinct_keys(keys@));
                    return Err(KryptonError::NotEnoughGuardians);
                }
                j = j + 1;
            }
            i = i + 1;
        }
        let ghost old_gs = self.guardians@;
        let mut k: usize = 0;
        while k < keys.len()
            invariant
                k <= keys@.len(),
                old_gs == old(self)@.guardians,
                self@ == (ProfileModel { guardians: self.guardians@, ..old(self)@ }),
                old_gs.len() + keys@.len() <= MAX_GUARDIANS,
                self.guardians@ == with_added(old_gs, keys@.subrange(0, k as int)),
            decreases keys@.len() - k,
        {
            self.guardians.push(Guardian { pubkey: keys[k], has_signed: false });
            assert(with_added(old_gs, keys@.subrange(0, k + 1)) =~= with_added(
                old_gs,
                keys@.subrange(0, k as int),
            ).push(Guardian { pubkey: keys@[k as int], has_signed: false }));
            k = k + 1;
        }
        assert(keys@.subrange(0, keys@.len() as int) =~= keys@);
        proof {
            let n = self.guardians@;
            assert forall|a: int, b: int|
                0 <= a < n.len() && 0 <= b < n.len() && a != b implies n[a].pubkey@
                != n[b].pubkey@ by {
                if a >= old_gs.len() && b < old_gs.len() {
                    assert(n[b] == old_gs[b]);
                    assert(n[a].pubkey == keys@[a - old_gs.len()]);
                    assert(!has_guardian(old_gs, keys@[a - old_gs.len()]));
                } else if a < old_gs.len() && b >= old_gs.len() {
                    assert(n[a] == old_gs[a]);
                    assert(n[b].pubkey == keys@[b - old_gs.len()]);
                    assert(!has_guardian(old_gs, keys@[b - old_gs.len()]));
                }
            }
        }
        Ok(())
    }

    /// Unregisters the guardians `keys`.
    pub fn remove_guardians(&mut self, keys: &Vec<Key>) -> (r: Result<(), KryptonError>)
        requires
            old(self)@.wf(),
        ensures
            final(self)@.wf(),
            match remove_guardians_error(old(self)@.guardians, keys@) {
                Some(e) => r == Err::<(), KryptonError>(e) && final(self)@ == old(self)@,
                None => r is Ok && final(self)@ == (ProfileModel {
                    guardians: without_keys(old(self)@.guardians, keys@),
                    ..old(self)@
                }),
            },
    {
        if keys.len() == 0 {
            return Err(KryptonError::NotEnoughGuardians);
        }
        let mut i: usize = 0;
        while i < keys.len()
            invariant
                self@ == old(self)@,
                old(self)@.wf(),
                i <= keys@.len(),
                forall|a: int, b: int|
                    0 <= a < i && 0 <= b < keys@.len() && a != b ==> keys@[a]@ != keys@[b]@,
                forall|a: int| 0 <= a < i ==> has_guardian(self@.guardians, #[trigger] keys@[a]),
            decreases keys@.len() - i,
        {
            if !contains_guardian(&self.guardians, &keys[i]) {
                return Err(KryptonError::GuardianNotFound);
            }
            let mut j: usize = 0;
            while j < keys.len()
                invariant
                    self@ == old(self)@,
                    old(self)@.wf(),
                    i < keys@.len(),
                    j <= keys@.len(),
                    forall|b: int| 0 <= b < j && b != i ==> keys@[i as int]@ != keys@[b]@,
                decreases keys@.len() - j,
            {
                if j != i && keys[i].same(&keys[j]) {
                    assert(!distinct_keys(keys@));
                    return Err(KryptonError::GuardianNotFound);
                }
                j = j + 1;
            }
            i = i + 1;
        }
        let ghost old_p = self@;
        let mut kept: Vec<Guardian> = Vec::new();
        let mut k: usize = 0;
        while k < self.guardians.len()
            invariant
                self@ == old_p,
                k <= self.guardians@.len(),
                kept@ == without_keys(self.guardians@.subrange(0, k as int), keys@),
            decreases self.guardians@.len() - k,
        {
            let g = self.guardians[k];
            assert(self.guardians@.subrange(0, k + 1).drop_last() =~= self.guardians@.subrange(
                0,
                k as int,
            ));
            if !contains_key(keys, &g.pubkey) {
                kept.push(g);
            }
            k = k + 1;
        }
        assert(self.guardians@.subrange(0, self.guardians@.len() as int) =~= self.guardians@);
        self.guardians = kept;
        proof {
            lemma_without_keys_wf(old_p, keys@);
        }
        Ok(())
    }

    /// Sets how many guardian signatures a recovery needs.
    pub fn set_recovery_threshold(&mut self, t: u8) -> (r: Result<(), KryptonError>)
        ensures
            threshold_valid(t) ==> r is Ok && final(self)@ == (ProfileModel {
                recovery_threshold: t,
                ..old(self)@
            }),
            !threshold_valid(t) ==> r == Err::<(), KryptonError>(
                KryptonError::InvalidRecoveryThreshold,
            ) && final(self)@ == old(self)@,
    {
        if t > MAX_GUARDIANS || t == 0 {
            return Err(KryptonError::InvalidRecoveryThreshold);
        }
        self.recovery_threshold = t;
        Ok(())
    }

    /// Directs the recovery at `target`; a new target withdraws every signature.
    pub fn start_recovery(&mut self, target: &Key)
        requires
            old(self)@.wf(),
        ensures
            final(self)@.wf(),
            final(self)@ == retargeted(old(self)@, *target),
            signed_count(final(self)@.guardians) == if old(self)@.recovery@ == target@ {
                signed_count(old(self)@.guardians)
            } else {
                0
            },
    {
        if self.recovery.same(target) {
            return ;
        }
        self.recovery = *target;
        let ghost old_gs = self.guardians@;
        let mut i: usize = 0;
        while i < self.guardians.len()
            invariant
                i <= self.guardians@.len(),
                old_gs == old(self)@.guardians,
                self@ == (ProfileModel { guardians: self.guardians@, recovery: *target, ..old(self)@ }),
                self.guardians@.len() == old_gs.len(),
                forall|j: int|
                    0 <= j < old_gs.len() ==> #[trigger] self.guardians@[j] == if j < i {
                        Guardian { pubkey: old_gs[j].pubkey, has_signed: false }
                    } else {
                        old_gs[j]
                    },
            decreases self.guardians@.len() - i,
        {
            let g = self.guardians[i];
            self.guardians.set(i, Guardian { pubkey: g.pubkey, has_signed: false });
            i = i + 1;
        }
        assert(self.guardians@ =~= unsigned(old_gs));
        proof {
            lemma_signed_count_unsigned(old_gs);
        }
    }

    /// Records the signature of `guardian` for the recovery towards `target`.
    pub fn sign_recovery(&mut self, target: &Key, guardian: &Key) -> (r: Result<(), KryptonError>)
        requires
            old(self)@.wf(),
        ensures
            final(self)@.wf(),
            match sign_error(old(self)@, *target, *guardian) {
                Some(e) => r == Err::<(), KryptonError>(e) && final(self)@ == old(self)@,
                None => r is Ok && final(self)@ == (ProfileModel {
                    guardians: signed_by(old(self)@.guardians, *guardian),
                    ..old(self)@
                }),
            },
    {
        if !self.recovery.same(target) {
            return Err(KryptonError::NotAuthorizedToRecover);
        }
        let i = match find_guardian(&self.guardians, guardian) {
            Some(i) => i,
            None => {
                return Err(KryptonError::GuardianNotFound);
            },
        };
        let g = self.guardians[i];
        let ghost old_gs = self.guardians@;
        self.guardians.set(i, Guardian { pubkey: g.pubkey, has_signed: true });
        assert(self.guardians@ =~= signed_by(old_gs, *guardian));
        Ok(())
    }
}

} // verus!

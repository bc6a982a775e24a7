use vstd::prelude::*;

use crate::account::{overwritten, Account};
use crate::codec::{lemma_profile_len, profile_bytes};
use crate::error::{KryptonError, WalletError};
use crate::instruction::InitializeWalletArgs;
use crate::key::Key;
use crate::pda::{check_profile_address, is_profile_of, profile_address};
use crate::state::{ProfileModel, UserProfile, MAX_GUARDIANS};

verus! {

/// Space given to a new profile account: a profile with the largest number
/// of guardians and no recorded recoveries.
pub const PROFILE_SPACE: u64 = 435;

/// What has to be done to the profile account before its record is written.
#[derive(Clone, Copy, Debug, PartialEq, Eq, Structural)]
pub enum AccountSetup {
    /// Fund the account with the rent-exempt minimum for `space` bytes, allocate them and
    /// assign it to this program, signing with `bump`.
    Create { space: u64, bump: u8 },
    /// Assign the funded account to this program, signing with `bump`, and size it to `space` bytes.
    Allocate { space: u64, bump: u8 },
    /// The account is already funded and sized.
    Existing,
}

/// How a profile account is set up and what is written into it.
#[derive(Clone, Debug)]
pub struct WalletSetup {
    pub setup: AccountSetup,
    /// Written over the front of the account's data, the rest zeroed.
    pub record: Vec<u8>,
}

/// The profile a wallet starts with.
pub open spec fn fresh_profile(authority: Key, t: u8) -> ProfileModel {
    ProfileModel {
        seed: authority,
        authority,
        recovery_threshold: t,
        guardians: Seq::empty(),
        recovery: Key::spec_zero(),
        recovered: Seq::empty(),
    }
}

pub open spec fn all_zero(s: Seq<u8>) -> bool {
    forall|i: int| 0 <= i < s.len() ==> s[i] == 0
}

/// Why initializing the wallet is refused, if it is.
pub open spec fn initialize_wallet_error(
    program_id: Key,
    profile: Account,
    authority: Account,
    t: u8,
    allow_reinitialize: bool,
) -> Option<WalletError> {
    if !authority.is_signer {
        Some(WalletError::Custom(KryptonError::NotSigner))
    } else if !profile.is_writable {
        Some(WalletError::Custom(KryptonError::NotWriteable))
    } else if !is_profile_of(profile.key, authority.key, program_id) {
        Some(WalletError::InvalidSeeds)
    } else if t > MAX_GUARDIANS {
        Some(WalletError::Custom(KryptonError::TooManyGuardians))
    } else if t == 0 {
        Some(WalletError::Custom(KryptonError::InvalidRecoveryThreshold))
    } else if profile.lamports == 0 || profile.data@.len() == 0 {
        None
    } else if !allow_reinitialize && !all_zero(profile.data@) {
        Some(WalletError::Custom(KryptonError::NonZeroData))
    } else if profile.data@.len() < profile_bytes(fresh_profile(authority.key, t)).len() {
        Some(WalletError::AccountDataTooSmall)
    } else {
        None
    }
}

/// The setup an account needs, given the bump seed of its address.
pub open spec fn planned_setup(profile: Account, bump: u8) -> AccountSetup {
    if profile.lamports == 0 {
        AccountSetup::Create { space: PROFILE_SPACE, bump }
    } else if profile.data@.len() == 0 {
        AccountSetup::Allocate { space: PROFILE_SPACE, bump }
    } else {
        AccountSetup::Existing
    }
}

fn is_all_zero(data: &Vec<u8>) -> (r: bool)
    ensures
        r == all_zero(data@),
{
    let mut i: usize = 0;
    while i < data.len()
        invariant
            i <= data@.len(),
            forall|j: int| 0 <= j < i ==> data@[j] == 0,
        decreases data@.len() - i,
    {
        if data[i] != 0 {
            return false;
        }
        i = i + 1;
    }
    true
}

/// Checks the wallet's accounts and says how to set up the profile account of
/// the signing authority and what to write into it. An account that is funded
/// but has no data is sized without being funded again; one that already holds
/// data is refused unless `allow_reinitialize`, and then no lamports move.
pub fn process_initialize_wallet(
    program_id: &Key,
    profile_info: &Account,
    authority_info: &Account,
    args: InitializeWalletArgs,
    allow_reinitialize: bool,
) -> (r: Result<WalletSetup, WalletError>)
    ensures
        match initialize_wallet_error(
            *program_id,
            *profile_info,
            *authority_info,
            args.recovery_threshold,
            allow_reinitialize,
        ) {
            Some(e) => r matches Err(x) && x == e,
            None => r matches Ok(plan) && plan.record@ == profile_bytes(
                fresh_profile(authority_info.key, args.recovery_threshold),
            ) && exists|b: u8|
                profile_address(authority_info.key, *program_id) == Some((profile_info.key@, b))
                    && plan.setup == planned_setup(*profile_info, b),
        },
{
    if !authority_info.is_signer {
        return Err(WalletError::Custom(KryptonError::NotSigner));
    }
    if !profile_info.is_writable {
        return Err(WalletError::Custom(KryptonError::NotWriteable));
    }
    let bump = match check_profile_address(&profile_info.key, &authority_info.key, program_id) {
        Some(b) => b,
        None => {
            return Err(WalletError::InvalidSeeds);
        },
    };
    if args.recovery_threshold > MAX_GUARDIANS {
        return Err(WalletError::Custom(KryptonError::TooManyGuardians));
    }
    if args.recovery_threshold == 0 {
        return Err(WalletError::Custom(KryptonError::InvalidRecoveryThreshold));
    }
    let fresh = UserProfile::fresh(authority_info.key, args.recovery_threshold);
    assert(fresh@.guardians =~= Seq::<crate::state::Guardian>::empty());
    assert(fresh@.recovered =~= Seq::<Key>::empty());
    assert(fresh@ == fresh_profile(authority_info.key, args.recovery_threshold));
    let record = fresh.serialize();
    let setup = if profile_info.lamports == 0 {
        AccountSetup::Create { space: PROFILE_SPACE, bump }
    } else if profile_info.data.len() == 0 {
        AccountSetup::Allocate { space: PROFILE_SPACE, bump }
    } else {
        if !allow_reinitialize && !is_all_zero(&profile_info.data) {
            return Err(WalletError::Custom(KryptonError::NonZeroData));
        }
        if profile_info.data.len() < record.len() {
            return Err(WalletError::AccountDataTooSmall);
        }
        AccountSetup::Existing
    };
    assert(profile_address(authority_info.key, *program_id) == Some((profile_info.key@, bump))
        && setup == planned_setup(*profile_info, bump));
    Ok(WalletSetup { setup, record })
}

/// Initializing again an account that is funded, sized and already holds the
/// record of a first initialization moves no lamports and leaves its data as
/// it is: it is refused, or, where re-initialization is allowed, it needs no
/// setup and rewrites the very same bytes.
pub proof fn lemma_initialize_twice(
    program_id: Key,
    profile: Account,
    authority: Account,
    t: u8,
    allow_reinitialize: bool,
)
    requires
        authority.is_signer,
        profile.is_writable,
        is_profile_of(profile.key, authority.key, program_id),
        1 <= t <= MAX_GUARDIANS,
        profile.lamports > 0,
        profile_bytes(fresh_profile(authority.key, t)).len() <= profile.data@.len(),
        profile.data@ == overwritten(profile.data@, profile_bytes(fresh_profile(authority.key, t))),
    ensures
        !allow_reinitialize ==> initialize_wallet_error(program_id, profile, authority, t, false)
            == Some(WalletError::Custom(KryptonError::NonZeroData)),
        allow_reinitialize ==> {
            &&& initialize_wallet_error(program_id, profile, authority, t, true) is None
            &&& forall|b: u8| planned_setup(profile, b) == AccountSetup::Existing
            &&& overwritten(profile.data@, profile_bytes(fresh_profile(authority.key, t)))
                == profile.data@
        },
{
    let rec = profile_bytes(fresh_profile(authority.key, t));
    lemma_profile_len(fresh_profile(authority.key, t));
    assert(profile.data@[64] == rec[64]);
    assert(rec[64] == t);
}

} // verus!

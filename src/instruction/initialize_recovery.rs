use vstd::prelude::*;

use crate::account::{data_became, load_profile, overwritten, same_account, store_profile, stored_profile, Account};
use crate::codec::{lemma_profile_len, profile_bytes};
use crate::error::{KryptonError, WalletError};
use crate::key::Key;
use crate::pda::{check_profile_address, is_profile_of};
use crate::recovery::retargeted;

verus! {

/// Why directing the recovery of `profile` at `new_profile` is refused, if it is.
pub open spec fn initialize_recovery_error(
    program_id: Key,
    profile: Account,
    authority: Account,
    new_profile: Account,
    new_authority: Account,
) -> Option<WalletError> {
    if !new_authority.is_signer {
        Some(WalletError::Custom(KryptonError::NotSigner))
    } else if !profile.is_writable {
        Some(WalletError::Custom(KryptonError::NotWriteable))
    } else if !is_profile_of(profile.key, authority.key, program_id) {
        Some(WalletError::InvalidSeeds)
    } else if !is_profile_of(new_profile.key, new_authority.key, program_id) {
        Some(WalletError::InvalidSeeds)
    } else if stored_profile(new_profile.data@) is None {
        Some(WalletError::InvalidAccountData)
    } else if stored_profile(new_profile.data@).unwrap().authority@ != new_authority.key@ {
        Some(WalletError::Custom(KryptonError::InvalidAuthority))
    } else if stored_profile(profile.data@) is None {
        Some(WalletError::InvalidAccountData)
    } else if stored_profile(profile.data@).unwrap().authority@ != authority.key@ {
        Some(WalletError::Custom(KryptonError::InvalidAuthority))
    } else {
        None
    }
}

/// Directs the recovery of the profile at the profile of the signing new
/// authority. A new target withdraws every guardian signature; the same
/// target again changes nothing.
pub fn process_initialize_recovery(
    program_id: &Key,
    profile_info: &mut Account,
    authority_info: &Account,
    new_profile_info: &Account,
    new_authority_info: &Account,
) -> (r: Result<(), WalletError>)
    ensures
        match initialize_recovery_error(
            *program_id,
            *old(profile_info),
            *authority_info,
            *new_profile_info,
            *new_authority_info,
        ) {
            Some(e) => r == Err::<(), WalletError>(e) && same_account(
                *old(profile_info),
                *final(profile_info),
            ),
            None => r is Ok && data_became(
                *old(profile_info),
                *final(profile_info),
                overwritten(
                    old(profile_info).data@,
                    profile_bytes(
                        retargeted(
                            stored_profile(old(profile_info).data@).unwrap(),
                            new_profile_info.key,
                        ),
                    ),
                ),
            ),
        },
{
    if !new_authority_info.is_signer {
        return Err(WalletError::Custom(KryptonError::NotSigner));
    }
    if !profile_info.is_writable {
        return Err(WalletError::Custom(KryptonError::NotWriteable));
    }
    if check_profile_address(&profile_info.key, &authority_info.key, program_id).is_none() {
        return Err(WalletError::InvalidSeeds);
    }
    if check_profile_address(&new_profile_info.key, &new_authority_info.key, program_id).is_none() {
        return Err(WalletError::InvalidSeeds);
    }
    let new_profile_data = load_profile(&new_profile_info.data)?;
    if !new_profile_data.authority.same(&new_authority_info.key) {
        return Err(WalletError::Custom(KryptonError::InvalidAuthority));
    }
    let mut profile_data = load_profile(&profile_info.data)?;
    if !profile_data.authority.same(&authority_info.key) {
        return Err(WalletError::Custom(KryptonError::InvalidAuthority));
    }
    let ghost before = profile_data@;
    profile_data.start_recovery(&new_profile_info.key);
    proof {
        lemma_profile_len(before);
        lemma_profile_len(profile_data@);
    }
    store_profile(profile_info, &profile_data)
}

} // verus!

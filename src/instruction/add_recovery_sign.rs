use vstd::prelude::*;

use crate::account::{data_became, load_profile, overwritten, same_account, store_profile, stored_profile, Account};
use crate::codec::{lemma_profile_len, profile_bytes};
use crate::error::{KryptonError, WalletError};
use crate::key::Key;
use crate::pda::{check_profile_address, is_profile_of};
use crate::recovery::{sign_error, signed_by};
use crate::state::ProfileModel;

verus! {

/// Why the signature of `guardian` on the recovery of `profile` is refused, if it is.
pub open spec fn add_recovery_sign_error(
    program_id: Key,
    profile: Account,
    authority: Account,
    new_profile: Account,
    new_authority: Account,
    guardian: Account,
) -> Option<WalletError> {
    if !guardian.is_signer {
        Some(WalletError::Custom(KryptonError::NotSigner))
    } else if !profile.is_writable {
        Some(WalletError::Custom(KryptonError::NotWriteable))
    } else if !is_profile_of(profile.key, authority.key, program_id) {
        Some(WalletError::InvalidSeeds)
    } else if !is_profile_of(new_profile.key, new_authority.key, program_id) {
        Some(WalletError::InvalidSeeds)
    } else if stored_profile(profile.data@) is None {
        Some(WalletError::InvalidAccountData)
    } else if stored_profile(profile.data@).unwrap().authority@ != authority.key@ {
        Some(WalletError::Custom(KryptonError::InvalidAuthority))
    } else {
        match sign_error(stored_profile(profile.data@).unwrap(), new_profile.key, guardian.key) {
            Some(e) => Some(WalletError::Custom(e)),
            None => None,
        }
    }
}

/// Records the signing guardian's approval of the recovery into `new_profile_info`.
pub fn process_add_recovery_sign(
    program_id: &Key,
    profile_info: &mut Account,
    authority_info: &Account,
    new_profile_info: &Account,
    new_authority_info: &Account,
    guardian_info: &Account,
) -> (r: Result<(), WalletError>)
    ensures
        match add_recovery_sign_error(
            *program_id,
            *old(profile_info),
            *authority_info,
            *new_profile_info,
            *new_authority_info,
            *guardian_info,
        ) {
            Some(e) => r == Err::<(), WalletError>(e) && same_account(
                *old(profile_info),
                *final(profile_info),
            ),
            None => r is Ok && data_became(
                *old(profile_info),
                *final(profile_info),
                overwritten(
                    old(profile_info).data@,
                    profile_bytes(
                        ProfileModel {
                            guardians: signed_by(
                                stored_profile(old(profile_info).data@).unwrap().guardians,
                                guardian_info.key,
                            ),
                            ..stored_profile(old(profile_info).data@).unwrap()
                        },
                    ),
                ),
            ),
        },
{
    if !guardian_info.is_signer {
        return Err(WalletError::Custom(KryptonError::NotSigner));
    }
    if !profile_info.is_writable {
        return Err(WalletError::Custom(KryptonError::NotWriteable));
    }
    if check_profile_address(&profile_info.key, &authority_info.key, program_id).is_none() {
        return Err(WalletError::InvalidSeeds);
    }
    if check_profile_address(&new_profile_info.key, &new_authority_info.key, program_id).is_none() {
        return Err(WalletError::InvalidSeeds);
    }
    let mut profile_data = load_profile(&profile_info.data)?;
    if !profile_data.authority.same(&authority_info.key) {
        return Err(WalletError::Custom(KryptonError::InvalidAuthority));
    }
    let ghost before = profile_data@;
    match profile_data.sign_recovery(&new_profile_info.key, &guardian_info.key) {
        Ok(()) => {},
        Err(e) => {
            return Err(WalletError::Custom(e));
        },
    }
    proof {
        lemma_profile_len(before);
        lemma_profile_len(profile_data@);
    }
    store_profile(profile_info, &profile_data)
}

} // verus!

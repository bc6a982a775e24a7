use vstd::prelude::*;

use crate::account::{authority_error, data_became, load_for_authority, overwritten, same_account, store_profile, stored_profile, Account};
use crate::codec::{lemma_profile_len, profile_bytes};
use crate::error::{KryptonError, WalletError};
use crate::instruction::ModifyRecoveryThresholdArgs;
use crate::key::Key;
use crate::recovery::threshold_valid;
use crate::state::ProfileModel;

verus! {

pub open spec fn modify_recovery_threshold_error(
    program_id: Key,
    profile: Account,
    authority: Account,
    t: u8,
) -> Option<WalletError> {
    if !threshold_valid(t) {
        Some(WalletError::Custom(KryptonError::InvalidRecoveryThreshold))
    } else {
        authority_error(program_id, profile, authority)
    }
}

/// Sets the number of guardian signatures a recovery of the profile needs.
/// Whether that many guardians are registered is left to recovery time.
pub fn process_modify_recovery_threshold(
    program_id: &Key,
    profile_info: &mut Account,
    authority_info: &Account,
    args: ModifyRecoveryThresholdArgs,
) -> (r: Result<(), WalletError>)
    ensures
        match modify_recovery_threshold_error(
            *program_id,
            *old(profile_info),
            *authority_info,
            args.new_threshold,
        ) {
            Some(e) => r == Err::<(), WalletError>(e) && same_account(
                *old(profile_info),
                *final(profile_info),
            ),
            None => r is Ok && data_became(
                *old(profile_info),
                *final(profile_info),
                overwritten(
                    old(profile_info).data@,
                    profile_bytes(
                        ProfileModel {
                            recovery_threshold: args.new_threshold,
                            ..stored_profile(old(profile_info).data@).unwrap()
                        },
                    ),
                ),
            ),
        },
{
    if args.new_threshold > crate::state::MAX_GUARDIANS || args.new_threshold == 0 {
        return Err(WalletError::Custom(KryptonError::InvalidRecoveryThreshold));
    }
    let mut profile_data = load_for_authority(program_id, profile_info, authority_info)?;
    let ghost before = profile_data@;
    match profile_data.set_recovery_threshold(args.new_threshold) {
        Ok(()) => {},
        Err(e) => {
            return Err(WalletError::Custom(e));
        },
    }
    proof {
        lemma_profile_len(before);
        lemma_profile_len(profile_data@);
    }
    store_profile(profile_info, &profile_data)
}

} // verus!

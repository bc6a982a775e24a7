use vstd::prelude::*;

use crate::account::{authority_error, load_for_authority, stored_profile, Account};
use crate::codec::profile_bytes;
use crate::error::{KryptonError, WalletError};
use crate::key::Key;
use crate::recovery::{add_guardians_error, with_added};
use crate::state::ProfileModel;

verus! {

/// Why registering `keys` as guardians of the profile is refused, if it is.
pub open spec fn add_recovery_guardians_error(
    program_id: Key,
    profile: Account,
    authority: Account,
    keys: Seq<Key>,
) -> Option<WalletError> {
    if keys.len() == 0 {
        Some(WalletError::Custom(KryptonError::NotEnoughGuardians))
    } else if authority_error(program_id, profile, authority) is Some {
        authority_error(program_id, profile, authority)
    } else {
        match add_guardians_error(stored_profile(profile.data@).unwrap().guardians, keys) {
            Some(e) => Some(WalletError::Custom(e)),
            None => None,
        }
    }
}

/// Registers `guardian_keys` as guardians of the profile and returns the
/// profile's new record. The account is then to be resized to the record's
/// length, the authority paying what the larger size adds to the rent-exempt
/// minimum (see [`rent_shortfall`]).
pub fn process_add_recovery_guardians(
    program_id: &Key,
    profile_info: &Account,
    authority_info: &Account,
    guardian_keys: &Vec<Key>,
) -> (r: Result<Vec<u8>, WalletError>)
    ensures
        match add_recovery_guardians_error(
            *program_id,
            *profile_info,
            *authority_info,
            guardian_keys@,
        ) {
            Some(e) => r matches Err(x) && x == e,
            None => r matches Ok(rec) && rec@ == profile_bytes(
                ProfileModel {
                    guardians: with_added(
                        stored_profile(profile_info.data@).unwrap().guardians,
                        guardian_keys@,
                    ),
                    ..stored_profile(profile_info.data@).unwrap()
                },
            ),
        },
{
    if guardian_keys.len() == 0 {
        return Err(WalletError::Custom(KryptonError::NotEnoughGuardians));
    }
    let mut profile_data = load_for_authority(program_id, profile_info, authority_info)?;
    match profile_data.add_guardians(guardian_keys) {
        Ok(()) => {},
        Err(e) => {
            return Err(WalletError::Custom(e));
        },
    }
    Ok(profile_data.serialize())
}

/// What the payer adds so that an account holding `lamports` reaches `required`.
pub fn rent_shortfall(lamports: u64, required: u64) -> (r: u64)
    ensures
        r == if required > lamports {
            required - lamports
        } else {
            0
        },
{
    if required > lamports {
        required - lamports
    } else {
        0
    }
}

} // verus!

use vstd::prelude::*;

use crate::account::{authority_error, load_for_authority, same_account, stored_profile, Account};
use crate::codec::profile_bytes;
use crate::error::{KryptonError, WalletError};
use crate::key::Key;
use crate::recovery::{remove_guardians_error, without_keys};
use crate::state::ProfileModel;

verus! {

/// Why removing the guardians `keys` from the profile is refused, if it is.
pub open spec fn remove_recovery_guardians_error(
    program_id: Key,
    profile: Account,
    authority: Account,
    keys: Seq<Key>,
) -> Option<WalletError> {
    if keys.len() == 0 {
        Some(WalletError::Custom(KryptonError::NotEnoughGuardians))
    } else if authority_error(program_id, profile, authority) is Some {
        authority_error(program_id, profile, authority)
    } else {
        match remove_guardians_error(stored_profile(profile.data@).unwrap().guardians, keys) {
            Some(e) => Some(WalletError::Custom(e)),
            None => None,
        }
    }
}

/// Removes the guardians `guardian_keys` from the profile and returns the
/// profile's new record. The account is then to be shrunk to the record's
/// length, the lamports above the smaller rent-exempt minimum going back to
/// the authority (see [`refund_rent_surplus`]).
pub fn process_remove_recovery_guardians(
    program_id: &Key,
    profile_info: &Account,
    authority_info: &Account,
    guardian_keys: &Vec<Key>,
) -> (r: Result<Vec<u8>, WalletError>)
    ensures
        match remove_recovery_guardians_error(
            *program_id,
            *profile_info,
            *authority_info,
            guardian_keys@,
        ) {
            Some(e) => r matches Err(x) && x == e,
            None => r matches Ok(rec) && rec@ == profile_bytes(
                ProfileModel {
                    guardians: without_keys(
                        stored_profile(profile_info.data@).unwrap().guardians,
                        guardian_keys@,
                    ),
                    ..stored_profile(profile_info.data@).unwrap()
                },
            ),
        },
{
    if guardian_keys.len() == 0 {
        return Err(WalletError::Custom(KryptonError::NotEnoughGuardians));
    }
    let mut profile_data = load_for_authority(program_id, profile_info, authority_info)?;
    match profile_data.remove_guardians(guardian_keys) {
        Ok(()) => {},
        Err(e) => {
            return Err(WalletError::Custom(e));
        },
    }
    Ok(profile_data.serialize())
}

/// Moves what `profile_info` holds above `required` to `authority_info`.
pub fn refund_rent_surplus(
    profile_info: &mut Account,
    authority_info: &mut Account,
    required: u64,
) -> (r: Result<(), WalletError>)
    ensures
        ({
            let surplus = if old(profile_info).lamports > required {
                old(profile_info).lamports - required
            } else {
                0
            };
            if old(authority_info).lamports + surplus > u64::MAX {
                &&& r == Err::<(), WalletError>(WalletError::Custom(KryptonError::Overflow))
                &&& same_account(*old(profile_info), *final(profile_info))
                &&& same_account(*old(authority_info), *final(authority_info))
            } else {
                &&& r is Ok
                &&& final(profile_info).lamports == old(profile_info).lamports - surplus
                &&& final(authority_info).lamports == old(authority_info).lamports + surplus
                &&& final(profile_info).lamports + final(authority_info).lamports == old(
                    profile_info,
                ).lamports + old(authority_info).lamports
                &&& same_account(
                    *final(profile_info),
                    Account { lamports: final(profile_info).lamports, ..*old(profile_info) },
                )
                &&& same_account(
                    *final(authority_info),
                    Account { lamports: final(authority_info).lamports, ..*old(authority_info) },
                )
            }
        }),
{
    let surplus = if profile_info.lamports > required {
        profile_info.lamports - required
    } else {
        0
    };
    let credited = match authority_info.lamports.checked_add(surplus) {
        Some(x) => x,
        None => {
            return Err(WalletError::Custom(KryptonError::Overflow));
        },
    };
    authority_info.lamports = credited;
    profile_info.lamports = profile_info.lamports - surplus;
    Ok(())
}

} // verus!

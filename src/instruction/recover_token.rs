use vstd::prelude::*;

use crate::account::Account;
use crate::error::{KryptonError, WalletError};
use crate::instruction::recover_native_sol::{check_recovery_gate, recovery_gate_error};
use crate::key::Key;
use crate::pda::profile_address;
use crate::token::{token_account_amount, token_amount};

verus! {

/// The token movement a recovery asks for: the whole balance of the old token
/// account goes to the new one, after which the old one is closed; the old
/// profile signs both with `bump`.
#[derive(Clone, Copy, Debug)]
pub struct TokenRecovery {
    pub amount: u64,
    pub bump: u8,
}

/// Why recovering the old profile's tokens is refused, if it is.
pub open spec fn recover_token_error(
    program_id: Key,
    profile: Account,
    authority: Account,
    new_profile: Account,
    new_authority: Account,
    old_token_account: Account,
    new_token_account: Account,
) -> Option<WalletError> {
    if !new_authority.is_signer {
        Some(WalletError::Custom(KryptonError::NotSigner))
    } else if !old_token_account.is_writable || !new_token_account.is_writable {
        Some(WalletError::Custom(KryptonError::NotWriteable))
    } else if recovery_gate_error(program_id, profile, authority, new_profile, new_authority) is Some {
        recovery_gate_error(program_id, profile, authority, new_profile, new_authority)
    } else if token_account_amount(old_token_account.data@) is None {
        Some(WalletError::InvalidAccountData)
    } else {
        None
    }
}

/// Checks the recovery of the old profile's tokens into the new profile's
/// token account and returns the transfer to make.
pub fn process_recover_token(
    program_id: &Key,
    profile_info: &Account,
    authority_info: &Account,
    new_profile_info: &Account,
    new_authority_info: &Account,
    old_token_account_info: &Account,
    new_token_account_info: &Account,
) -> (r: Result<TokenRecovery, WalletError>)
    ensures
        match recover_token_error(
            *program_id,
            *profile_info,
            *authority_info,
            *new_profile_info,
            *new_authority_info,
            *old_token_account_info,
            *new_token_account_info,
        ) {
            Some(e) => r matches Err(x) && x == e,
            None => r matches Ok(t) && Some(t.amount) == token_account_amount(
                old_token_account_info.data@,
            ) && profile_address(authority_info.key, *program_id) == Some(
                (profile_info.key@, t.bump),
            ),
        },
{
    if !new_authority_info.is_signer {
        return Err(WalletError::Custom(KryptonError::NotSigner));
    }
    if !old_token_account_info.is_writable || !new_token_account_info.is_writable {
        return Err(WalletError::Custom(KryptonError::NotWriteable));
    }
    let bump = check_recovery_gate(
        program_id,
        profile_info,
        authority_info,
        new_profile_info,
        new_authority_info,
    )?;
    let amount = match token_amount(old_token_account_info.data.as_slice()) {
        Some(a) => a,
        None => {
            return Err(WalletError::InvalidAccountData);
        },
    };
    Ok(TokenRecovery { amount, bump })
}

} // verus!

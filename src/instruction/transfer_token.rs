use vstd::prelude::*;

use crate::account::{load_header, Account};
use crate::error::{KryptonError, WalletError};
use crate::instruction::TransferTokenArgs;
use crate::key::Key;
use crate::pda::{check_profile_address, is_profile_of, profile_address};
use crate::token::{token_account_amount, token_amount};

verus! {

/// The profile's seed key, read from its header.
pub open spec fn header_seed(data: Seq<u8>) -> Key {
    choose|k: Key| k@ == data.subrange(0, 32)
}

/// Why sending `amount` tokens from the profile's token account is refused, if it is.
pub open spec fn transfer_token_error(
    program_id: Key,
    profile: Account,
    authority: Account,
    token_account: Account,
    dest_token_account: Account,
    amount: u64,
) -> Option<WalletError> {
    if !authority.is_signer {
        Some(WalletError::Custom(KryptonError::NotSigner))
    } else if !token_account.is_writable || !dest_token_account.is_writable {
        Some(WalletError::Custom(KryptonError::NotWriteable))
    } else if profile.data@.len() < 64 {
        Some(WalletError::InvalidAccountData)
    } else if profile.data@.subrange(32, 64) != authority.key@ {
        Some(WalletError::Custom(KryptonError::InvalidAuthority))
    } else if !is_profile_of(profile.key, header_seed(profile.data@), program_id) {
        Some(WalletError::InvalidSeeds)
    } else if token_account_amount(token_account.data@) is None {
        Some(WalletError::InvalidAccountData)
    } else if token_account_amount(token_account.data@).unwrap() < amount {
        Some(WalletError::Custom(KryptonError::InsufficientFundsForTransaction))
    } else {
        None
    }
}

/// Checks a token transfer out of the profile's token account and returns the
/// bump seed with which the profile signs the token program's transfer.
pub fn process_transfer_token(
    program_id: &Key,
    profile_info: &Account,
    authority_info: &Account,
    token_account_info: &Account,
    dest_token_account_info: &Account,
    args: TransferTokenArgs,
) -> (r: Result<u8, WalletError>)
    ensures
        match transfer_token_error(
            *program_id,
            *profile_info,
            *authority_info,
            *token_account_info,
            *dest_token_account_info,
            args.amount,
        ) {
            Some(e) => r == Err::<u8, WalletError>(e),
            None => r matches Ok(b) && profile_address(header_seed(profile_info.data@), *program_id)
                == Some((profile_info.key@, b)),
        },
{
    if !authority_info.is_signer {
        return Err(WalletError::Custom(KryptonError::NotSigner));
    }
    if !token_account_info.is_writable || !dest_token_account_info.is_writable {
        return Err(WalletError::Custom(KryptonError::NotWriteable));
    }
    let header = load_header(&profile_info.data)?;
    if !header.authority.same(&authority_info.key) {
        return Err(WalletError::Custom(KryptonError::InvalidAuthority));
    }
    proof {
        let k = header_seed(profile_info.data@);
        assert(header.seed@ == profile_info.data@.subrange(0, 32));
        crate::codec::lemma_key_eq(k, header.seed);
    }
    let bump = match check_profile_address(&profile_info.key, &header.seed, program_id) {
        Some(b) => b,
        None => {
            return Err(WalletError::InvalidSeeds);
        },
    };
    let amount = match token_amount(token_account_info.data.as_slice()) {
        Some(a) => a,
        None => {
            return Err(WalletError::InvalidAccountData);
        },
    };
    if amount < args.amount {
        return Err(WalletError::Custom(KryptonError::InsufficientFundsForTransaction));
    }
    Ok(bump)
}

} // verus!

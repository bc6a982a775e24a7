use vstd::prelude::*;

use crate::account::{load_header, same_account, Account};
use crate::error::{KryptonError, WalletError};
use crate::guard::{
    guard_record_bytes, Guard, GuardAccount, NativeSolTransferGuard, NativeSolTransferInterval,
};
use crate::instruction::transfer_token::header_seed;
use crate::instruction::InitializeNativeSolTransferGuardArgs;
use crate::key::Key;
use crate::pda::{check_guard_address, check_profile_address, guard_address, is_guard_of, is_profile_of};

verus! {

/// The guard account to create: its record, and the bump seed it signs its creation with.
#[derive(Clone, Debug)]
pub struct GuardSetup {
    pub record: Vec<u8>,
    pub bump: u8,
}

/// The guard a profile starts with: the whole daily `limit` available.
pub open spec fn fresh_guard(profile: Key, limit: u64) -> GuardAccount {
    GuardAccount {
        target: profile,
        guard: Guard::NativeSolTransfer(
            NativeSolTransferGuard {
                guarded: profile,
                transfer_amount_remaining: limit,
                transfer_limit: limit,
                transfer_interval: NativeSolTransferInterval::Day,
                last_transferred: 0,
                context: None,
            },
        ),
    }
}

/// Why attaching a transfer guard to the profile is refused, if it is.
pub open spec fn initialize_guard_error(
    program_id: Key,
    profile: Account,
    authority: Account,
    guard: Account,
) -> Option<WalletError> {
    if !authority.is_signer {
        Some(WalletError::Custom(KryptonError::NotSigner))
    } else if !profile.is_writable || !guard.is_writable {
        Some(WalletError::Custom(KryptonError::NotWriteable))
    } else if profile.data@.len() < 64 {
        Some(WalletError::InvalidAccountData)
    } else if profile.data@.subrange(32, 64) != authority.key@ {
        Some(WalletError::Custom(KryptonError::InvalidAuthority))
    } else if !is_profile_of(profile.key, header_seed(profile.data@), program_id) {
        Some(WalletError::InvalidSeeds)
    } else if !is_guard_of(guard.key, profile.key, program_id) {
        Some(WalletError::Custom(KryptonError::InvalidAccountAddress))
    } else {
        None
    }
}

/// Checks the accounts of a new native transfer guard on the profile, with a
/// daily limit of `transfer_amount`, and returns the guard account to create.
/// The authority funds the new account; the profile then pays the authority
/// back (see [`reimburse_guard_rent`]).
pub fn process_initialize_native_sol_transfer_guard(
    program_id: &Key,
    profile_info: &Account,
    authority_info: &Account,
    guard_info: &Account,
    args: InitializeNativeSolTransferGuardArgs,
) -> (r: Result<GuardSetup, WalletError>)
    ensures
        match initialize_guard_error(*program_id, *profile_info, *authority_info, *guard_info) {
            Some(e) => r matches Err(x) && x == e,
            None => r matches Ok(s) && s.record@ == guard_record_bytes(
                fresh_guard(profile_info.key, args.transfer_amount),
            ) && guard_address(profile_info.key, *program_id) == Some((guard_info.key@, s.bump)),
        },
{
    if !authority_info.is_signer {
        return Err(WalletError::Custom(KryptonError::NotSigner));
    }
    if !profile_info.is_writable || !guard_info.is_writable {
        return Err(WalletError::Custom(KryptonError::NotWriteable));
    }
    let header = load_header(&profile_info.data)?;
    if !header.authority.same(&authority_info.key) {
        return Err(WalletError::Custom(KryptonError::InvalidAuthority));
    }
    proof {
        crate::codec::lemma_key_eq(header_seed(profile_info.data@), header.seed);
    }
    if check_profile_address(&profile_info.key, &header.seed, program_id).is_none() {
        return Err(WalletError::InvalidSeeds);
    }
    let bump = match check_guard_address(&guard_info.key, &profile_info.key, program_id) {
        Some(b) => b,
        None => {
            return Err(WalletError::Custom(KryptonError::InvalidAccountAddress));
        },
    };
    let sol_guard = NativeSolTransferGuard::new(
        &profile_info.key,
        args.transfer_amount,
        NativeSolTransferInterval::Day,
    );
    let guard_account = GuardAccount {
        target: profile_info.key,
        guard: Guard::NativeSolTransfer(sol_guard),
    };
    Ok(GuardSetup { record: guard_account.serialize(), bump })
}

/// Pays `required` back from the profile to the authority that funded the
/// guard account, keeping the profile at or above `profile_rent`.
pub fn reimburse_guard_rent(
    profile_info: &mut Account,
    authority_info: &mut Account,
    profile_rent: u64,
    required: u64,
) -> (r: Result<(), WalletError>)
    ensures
        old(profile_info).lamports < profile_rent + required ==> r == Err::<(), WalletError>(
            WalletError::Custom(KryptonError::InsufficientFundsForTransaction),
        ),
        old(profile_info).lamports >= profile_rent + required && old(authority_info).lamports
            + required > u64::MAX ==> r == Err::<(), WalletError>(
            WalletError::Custom(KryptonError::ArithmeticOverflow),
        ),
        r is Err ==> same_account(*old(profile_info), *final(profile_info)) && same_account(
            *old(authority_info),
            *final(authority_info),
        ),
        r is Ok ==> {
            &&& final(profile_info).lamports == old(profile_info).lamports - required
            &&& final(authority_info).lamports == old(authority_info).lamports + required
            &&& same_account(
                *final(profile_info),
                Account { lamports: final(profile_info).lamports, ..*old(profile_info) },
            )
            &&& same_account(
                *final(authority_info),
                Account { lamports: final(authority_info).lamports, ..*old(authority_info) },
            )
        },
        old(profile_info).lamports >= profile_rent + required && old(authority_info).lamports
            + required <= u64::MAX ==> r is Ok,
{
    if (profile_info.lamports as u128) < profile_rent as u128 + required as u128 {
        return Err(WalletError::Custom(KryptonError::InsufficientFundsForTransaction));
    }
    let credited = match authority_info.lamports.checked_add(required) {
        Some(x) => x,
        None => {
            return Err(WalletError::Custom(KryptonError::ArithmeticOverflow));
        },
    };
    profile_info.lamports = profile_info.lamports - required;
    authority_info.lamports = credited;
    Ok(())
}

} // verus!

use vstd::prelude::*;

use crate::account::{load_header, overwritten, same_account, write_record, Account};
use crate::codec::present_at;
use crate::error::{KryptonError, WalletError};
use crate::guard::{
    balance_of, budget_on, guard_record_bytes, in_date_range, lemma_balance_of_same_keys, Guard,
    GuardAccount, NativeSolTransferGuard,
};
use crate::instruction::TransferNativeSOLArgs;
use crate::key::Key;
use crate::instruction::transfer_token::header_seed;
use crate::pda::{check_guard_address, check_profile_address, is_guard_of, is_profile_of};

verus! {

/// The guard record stored in `data`, if it holds one.
pub open spec fn stored_guard(data: Seq<u8>) -> Option<GuardAccount> {
    if exists|a: GuardAccount| present_at(guard_record_bytes(a), data, 0) {
        Some(choose|a: GuardAccount| present_at(guard_record_bytes(a), data, 0))
    } else {
        None
    }
}

pub open spec fn guard_of(a: GuardAccount) -> NativeSolTransferGuard {
    let Guard::NativeSolTransfer(g) = a.guard;
    g
}

/// Why sending `amount` from the profile to `dest` is refused before any guard runs, if it is.
pub open spec fn transfer_native_sol_error(
    program_id: Key,
    profile: Account,
    authority: Account,
    dest: Account,
    guard: Option<Account>,
    amount: u64,
) -> Option<WalletError> {
    if !authority.is_signer {
        Some(WalletError::Custom(KryptonError::NotSigner))
    } else if !profile.is_writable {
        Some(WalletError::Custom(KryptonError::NotWriteable))
    } else if profile.key@ == dest.key@ {
        Some(WalletError::InvalidArgument)
    } else if profile.data@.len() < 64 {
        Some(WalletError::InvalidAccountData)
    } else if profile.data@.subrange(32, 64) != authority.key@ {
        Some(WalletError::Custom(KryptonError::InvalidAuthority))
    } else if !is_profile_of(profile.key, header_seed(profile.data@), program_id) {
        Some(WalletError::InvalidSeeds)
    } else if guard is Some && !is_guard_of(guard.unwrap().key, profile.key, program_id) {
        Some(WalletError::Custom(KryptonError::InvalidAccountAddress))
    } else if profile.lamports < amount {
        Some(WalletError::Custom(KryptonError::InsufficientFundsForTransaction))
    } else if dest.lamports + amount > u64::MAX {
        Some(WalletError::Custom(KryptonError::Overflow))
    } else if guard is Some && stored_guard(guard.unwrap().data@) is None {
        Some(WalletError::InvalidAccountData)
    } else if guard is Some && stored_guard(guard.unwrap().data@).unwrap().target@ != profile.key@ {
        Some(WalletError::Custom(KryptonError::InvalidGuardTarget))
    } else {
        None
    }
}

/// The balances the guard sees before the transfer.
pub open spec fn balances_before(profile: Account, authority: Account, dest: Account, guard: Account) -> Seq<(Key, u64)> {
    seq![
        (profile.key, profile.lamports),
        (authority.key, authority.lamports),
        (dest.key, dest.lamports),
        (guard.key, guard.lamports),
    ]
}

/// The balances the guard sees after `amount` moved from the profile to `dest`.
pub open spec fn balances_after(
    profile: Account,
    authority: Account,
    dest: Account,
    guard: Account,
    amount: u64,
) -> Seq<(Key, u64)> {
    seq![
        (profile.key, (profile.lamports - amount) as u64),
        (authority.key, authority.lamports),
        (dest.key, (dest.lamports + amount) as u64),
        (guard.key, guard.lamports),
    ]
}

/// The guard once the transfer is charged to it: what left the guarded account
/// between the two snapshots comes out of the budget of the day of `now`.
pub open spec fn charged(
    g: NativeSolTransferGuard,
    before: Seq<(Key, u64)>,
    after: Seq<(Key, u64)>,
    now: i64,
) -> NativeSolTransferGuard {
    let spent = balance_of(before, g.guarded).unwrap() - balance_of(after, g.guarded).unwrap();
    NativeSolTransferGuard {
        transfer_amount_remaining: (budget_on(g, now as int) - spent) as u64,
        last_transferred: now,
        context: None,
        ..g
    }
}

/// Sends `amount` lamports from the profile to `dest`. Where a guard account is
/// passed, its guard measures the transfer and refuses it beyond its budget;
/// the guard record then holds the new budget and no context. The guard's
/// `setup` and `run` both happen within this one call, so the context is never
/// written to the guard account: the record keeps its length, and the account
/// needs no resizing and no extra rent.
pub fn process_transfer_native_sol(
    program_id: &Key,
    profile_info: &mut Account,
    authority_info: &Account,
    dest: &mut Account,
    guard_info: &mut Option<Account>,
    args: TransferNativeSOLArgs,
    now: i64,
) -> (r: Result<(), WalletError>)
    ensures
        match transfer_native_sol_error(
            *program_id,
            *old(profile_info),
            *authority_info,
            *old(dest),
            *old(guard_info),
            args.amount,
        ) {
            Some(e) => {
                &&& r == Err::<(), WalletError>(e)
                &&& same_account(*old(profile_info), *final(profile_info))
                &&& same_account(*old(dest), *final(dest))
                &&& *final(guard_info) == *old(guard_info)
            },
            None => {
                let moved = final(profile_info).lamports == old(profile_info).lamports - args.amount
                    && final(dest).lamports == old(dest).lamports + args.amount
                    && same_account(
                    *final(profile_info),
                    Account { lamports: final(profile_info).lamports, ..*old(profile_info) },
                ) && same_account(*final(dest), Account { lamports: final(dest).lamports, ..*old(dest) });
                match *old(guard_info) {
                    None => r is Ok && moved && *final(guard_info) is None,
                    Some(ga) => {
                        let g = guard_of(stored_guard(ga.data@).unwrap());
                        let before = balances_before(*old(profile_info), *authority_info, *old(dest), ga);
                        let after = balances_after(
                            *old(profile_info),
                            *authority_info,
                            *old(dest),
                            ga,
                            args.amount,
                        );
                        &&& r is Ok ==> {
                            &&& moved
                            &&& balance_of(before, g.guarded) is Some
                            &&& balance_of(after, g.guarded).unwrap() <= balance_of(before, g.guarded).unwrap()
                            &&& balance_of(before, g.guarded).unwrap() - balance_of(after, g.guarded).unwrap()
                                <= budget_on(g, now as int)
                            &&& (*final(guard_info) matches Some(gf) && same_account(
                                gf,
                                Account {
                                    data: gf.data,
                                    ..ga
                                },
                            ) && gf.data@ == overwritten(
                                ga.data@,
                                guard_record_bytes(
                                    GuardAccount {
                                        guard: Guard::NativeSolTransfer(charged(g, before, after, now)),
                                        ..stored_guard(ga.data@).unwrap()
                                    },
                                ),
                            ))
                        }
                        &&& r is Err ==> {
                            &&& same_account(*old(profile_info), *final(profile_info))
                            &&& same_account(*old(dest), *final(dest))
                            &&& *final(guard_info) == *old(guard_info)
                        }
                        &&& (balance_of(before, g.guarded) matches Some(b) && balance_of(
                            after,
                            g.guarded,
                        ).unwrap() <= b && b - balance_of(after, g.guarded).unwrap() <= budget_on(
                            g,
                            now as int,
                        ) && in_date_range(g.last_transferred as int) && in_date_range(now as int))
                            ==> r is Ok
                        &&& balance_of(before, g.guarded) is None ==> r is Err
                        &&& (balance_of(before, g.guarded) matches Some(b) && balance_of(
                            after,
                            g.guarded,
                        ).unwrap() <= b && b - balance_of(after, g.guarded).unwrap() > budget_on(
                            g,
                            now as int,
                        )) ==> r is Err
                    },
                }
            },
        },
{
    if !authority_info.is_signer {
        return Err(WalletError::Custom(KryptonError::NotSigner));
    }
    if !profile_info.is_writable {
        return Err(WalletError::Custom(KryptonError::NotWriteable));
    }
    if profile_info.key.same(&dest.key) {
        return Err(WalletError::InvalidArgument);
    }
    let header = load_header(&profile_info.data)?;
    if !header.authority.same(&authority_info.key) {
        return Err(WalletError::Custom(KryptonError::InvalidAuthority));
    }
    proof {
        crate::codec::lemma_key_eq(header_seed(profile_info.data@), header.seed);
    }
    if check_profile_address(&profile_info.key, &header.seed, program_id).is_none() {
        return Err(WalletError::InvalidSeeds);
    }
    match guard_info {
        Some(g) => {
            if check_guard_address(&g.key, &profile_info.key, program_id).is_none() {
                return Err(WalletError::Custom(KryptonError::InvalidAccountAddress));
            }
        },
        None => {},
    }
    if profile_info.lamports < args.amount {
        return Err(WalletError::Custom(KryptonError::InsufficientFundsForTransaction));
    }
    let dest_lamports = match dest.lamports.checked_add(args.amount) {
        Some(x) => x,
        None => {
            return Err(WalletError::Custom(KryptonError::Overflow));
        },
    };
    let profile_lamports = profile_info.lamports - args.amount;
    match guard_info {
        None => {},
        Some(g) => {
            let mut guard_data = match GuardAccount::deserialize(g.data.as_slice()) {
                Some(a) => a,
                None => {
                    return Err(WalletError::InvalidAccountData);
                },
            };
            proof {
                assert(present_at(guard_record_bytes(guard_data), g.data@, 0));
                let c = choose|a: GuardAccount| present_at(guard_record_bytes(a), g.data@, 0);
                assert(present_at(guard_record_bytes(c), g.data@, 0));
            }
            if !guard_data.target.same(&profile_info.key) {
                return Err(WalletError::Custom(KryptonError::InvalidGuardTarget));
            }
            let Guard::NativeSolTransfer(mut sol_guard) = guard_data.guard;
            let before = vec![
                (profile_info.key, profile_info.lamports),
                (authority_info.key, authority_info.lamports),
                (dest.key, dest.lamports),
                (g.key, g.lamports),
            ];
            match sol_guard.setup(&before) {
                Ok(()) => {},
                Err(e) => {
                    return Err(WalletError::Custom(e));
                },
            }
            let after = vec![
                (profile_info.key, profile_lamports),
                (authority_info.key, authority_info.lamports),
                (dest.key, dest_lamports),
                (g.key, g.lamports),
            ];
            proof {
                lemma_balance_of_same_keys(before@, after@, sol_guard.guarded);
            }
            match sol_guard.run(&after, now) {
                Ok(()) => {},
                Err(e) => {
                    return Err(WalletError::Custom(e));
                },
            }
            guard_data.guard = Guard::NativeSolTransfer(sol_guard);
            let bytes = guard_data.serialize();
            proof {
                crate::guard::lemma_guard_record_len(guard_data);
                crate::guard::lemma_guard_record_len(choose|a: GuardAccount| present_at(guard_record_bytes(a), g.data@, 0));
            }
            match write_record(&mut g.data, &bytes) {
                Ok(()) => {},
                Err(e) => {
                    return Err(e);
                },
            }
        },
    }
    profile_info.lamports = profile_lamports;
    dest.lamports = dest_lamports;
    Ok(())
}

} // verus!

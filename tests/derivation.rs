use krypton::account::Account;
use krypton::error::{KryptonError, WalletError};
use krypton::instruction::initialize_native_sol_transfer_guard::process_initialize_native_sol_transfer_guard;
use krypton::instruction::recover_native_sol::process_recover_native_sol;
use krypton::instruction::transfer_native_sol::process_transfer_native_sol;
use krypton::instruction::{InitializeNativeSolTransferGuardArgs, TransferNativeSOLArgs};
use krypton::guard::{NativeSolTransferGuard, NativeSolTransferInterval};
use krypton::key::Key;
use krypton::pda::{get_guard_pda, get_profile_pda};
use krypton::state::UserProfile;
use solana_program::pubkey::Pubkey;

fn key(b: u8) -> Key {
    Key::new([b; 32])
}

fn acct(k: Key, is_signer: bool, is_writable: bool, lamports: u64, data: Vec<u8>) -> Account {
    Account { key: k, is_signer, is_writable, lamports, data }
}

fn wallet(owner: &Key, program: &Key, lamports: u64) -> Account {
    let (pda, _) = get_profile_pda(owner, program).unwrap();
    let mut data = vec![0u8; 435];
    let rec = UserProfile::fresh(*owner, 1).serialize();
    data[..rec.len()].copy_from_slice(&rec);
    acct(pda, false, true, lamports, data)
}

#[test]
fn profile_and_guard_addresses_match_the_runtime() {
    let program = key(9);
    let owner = key(1);
    let pid = Pubkey::new_from_array(program.bytes);
    let (expected, bump) = Pubkey::find_program_address(&[b"profile", &owner.bytes], &pid);
    let (pda, b) = get_profile_pda(&owner, &program).unwrap();
    assert_eq!(pda.bytes, expected.to_bytes());
    assert_eq!(b, bump);
    assert!(pda != owner);
    let (gexp, gbump) = Pubkey::find_program_address(&[b"guard", &pda.bytes], &pid);
    let (g, gb) = get_guard_pda(&pda, &program).unwrap();
    assert_eq!(g.bytes, gexp.to_bytes());
    assert_eq!(gb, gbump);
    assert!(g != pda);
    let (other, _) = get_profile_pda(&key(2), &program).unwrap();
    assert!(other != pda);
}

#[test]
fn guard_address_and_target_are_checked() {
    let program = key(9);
    let owner = key(1);
    let mut profile = wallet(&owner, &program, 1_000);
    let authority = acct(owner, true, false, 0, Vec::new());
    let wrong = acct(key(66), false, true, 0, Vec::new());
    let r = process_initialize_native_sol_transfer_guard(
        &program,
        &profile,
        &authority,
        &wrong,
        InitializeNativeSolTransferGuardArgs { target: profile.key, transfer_amount: 5 },
    );
    assert_eq!(r.err(), Some(WalletError::Custom(KryptonError::InvalidAccountAddress)));
    let mut dest = acct(key(50), false, true, 0, Vec::new());
    let mut guard = Some(wrong);
    let r = process_transfer_native_sol(
        &program,
        &mut profile,
        &authority,
        &mut dest,
        &mut guard,
        TransferNativeSOLArgs { amount: 1 },
        0,
    );
    assert_eq!(r, Err(WalletError::Custom(KryptonError::InvalidAccountAddress)));
    // a guard record that protects another profile
    let other = wallet(&key(3), &program, 1);
    let (gkey, _) = get_guard_pda(&profile.key, &program).unwrap();
    let other_guard = process_initialize_native_sol_transfer_guard(
        &program,
        &other,
        &acct(key(3), true, false, 0, Vec::new()),
        &acct(get_guard_pda(&other.key, &program).unwrap().0, false, true, 0, Vec::new()),
        InitializeNativeSolTransferGuardArgs { target: other.key, transfer_amount: 5 },
    )
    .unwrap();
    let mut guard = Some(acct(gkey, false, true, 0, other_guard.record));
    let r = process_transfer_native_sol(
        &program,
        &mut profile,
        &authority,
        &mut dest,
        &mut guard,
        TransferNativeSOLArgs { amount: 1 },
        0,
    );
    assert_eq!(r, Err(WalletError::Custom(KryptonError::InvalidGuardTarget)));
    assert_eq!(profile.lamports, 1_000);
    let mut none: Option<Account> = None;
    let r = process_transfer_native_sol(
        &program,
        &mut profile,
        &authority,
        &mut dest,
        &mut none,
        TransferNativeSOLArgs { amount: 1_000 },
        0,
    );
    assert_eq!(r, Ok(()));
    assert_eq!((profile.lamports, dest.lamports), (0, 1_000));
}

#[test]
fn recover_native_sol_needs_the_target() {
    let program = key(9);
    let owner = key(1);
    let mut profile = wallet(&owner, &program, 10);
    let mut new_profile = wallet(&key(2), &program, u64::MAX);
    let authority = acct(owner, false, false, 0, Vec::new());
    let new_authority = acct(key(2), true, false, 0, Vec::new());
    let r = process_recover_native_sol(&program, &mut profile, &authority, &mut new_profile, &new_authority);
    assert_eq!(r, Err(WalletError::Custom(KryptonError::NotAuthorizedToRecover)));
    let not_signing = acct(key(2), false, false, 0, Vec::new());
    let r = process_recover_native_sol(&program, &mut profile, &authority, &mut new_profile, &not_signing);
    assert_eq!(r, Err(WalletError::Custom(KryptonError::NotSigner)));
    assert_eq!(profile.lamports, 10);
}

#[test]
fn native_transfer_checks_profile_address_and_distinct_accounts() {
    let program = key(9);
    let owner = key(1);
    let good = wallet(&owner, &program, 1_000);
    let authority = acct(owner, true, false, 0, Vec::new());
    let mut misplaced = acct(key(80), false, true, 1_000, good.data.clone());
    let mut dest = acct(key(50), false, true, 0, Vec::new());
    let mut none: Option<Account> = None;
    let r = process_transfer_native_sol(
        &program,
        &mut misplaced,
        &authority,
        &mut dest,
        &mut none,
        TransferNativeSOLArgs { amount: 1 },
        0,
    );
    assert_eq!(r, Err(WalletError::InvalidSeeds));
    assert_eq!((misplaced.lamports, dest.lamports), (1_000, 0));
    let mut profile = good.clone();
    let mut same = good.clone();
    let r = process_transfer_native_sol(
        &program,
        &mut profile,
        &authority,
        &mut same,
        &mut none,
        TransferNativeSOLArgs { amount: 1 },
        0,
    );
    assert_eq!(r, Err(WalletError::InvalidArgument));
    assert_eq!(profile.lamports, 1_000);
}

#[test]
fn recovery_refuses_one_account_in_two_roles() {
    let program = key(9);
    let owner = key(1);
    let mut profile = wallet(&owner, &program, 10);
    let mut again = profile.clone();
    let authority = acct(owner, false, false, 0, Vec::new());
    let signer = acct(owner, true, false, 0, Vec::new());
    let r = process_recover_native_sol(&program, &mut profile, &authority, &mut again, &signer);
    assert_eq!(r, Err(WalletError::InvalidArgument));
    assert_eq!(profile.lamports, 10);
    let mut new_profile = wallet(&key(2), &program, 5);
    let new_authority = acct(key(2), true, false, 0, Vec::new());
    let mut passed = vec![new_profile.clone()];
    let r = krypton::instruction::recover_wallet::process_recover_wallet(
        &program,
        &mut profile,
        &authority,
        &mut new_profile,
        &new_authority,
        &mut passed,
    );
    assert_eq!(r, Err(WalletError::InvalidArgument));
}

#[test]
fn last_transferred_day_is_found_in_range() {
    let mut g = NativeSolTransferGuard::new(&key(1), 5, NativeSolTransferInterval::Day);
    assert_eq!(g.last_transferred(), Ok(719_163));
    g.last_transferred = -86_400;
    assert_eq!(g.last_transferred(), Ok(719_162));
    g.last_transferred = 8_000_000_000_000;
    assert!(g.last_transferred().is_ok());
    g.last_transferred = i64::MAX;
    assert_eq!(g.last_transferred(), Err(KryptonError::InvalidDateTime));
}

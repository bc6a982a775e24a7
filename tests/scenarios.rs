use krypton::account::Account;
use krypton::error::{KryptonError, WalletError};
use krypton::guard::GuardAccount;
use krypton::guard::Guard;
use krypton::instruction::add_recovery_guardians::process_add_recovery_guardians;
use krypton::instruction::add_recovery_sign::process_add_recovery_sign;
use krypton::instruction::initialize_native_sol_transfer_guard::process_initialize_native_sol_transfer_guard;
use krypton::instruction::initialize_recovery::process_initialize_recovery;
use krypton::instruction::initialize_wallet::{process_initialize_wallet, AccountSetup, PROFILE_SPACE};
use krypton::instruction::recover_native_sol::process_recover_native_sol;
use krypton::instruction::recover_wallet::process_recover_wallet;
use krypton::instruction::transfer_native_sol::process_transfer_native_sol;
use krypton::instruction::{
    InitializeNativeSolTransferGuardArgs, InitializeWalletArgs, TransferNativeSOLArgs,
};
use krypton::key::Key;
use krypton::pda::{get_guard_pda, get_profile_pda};
use krypton::state::UserProfile;

const PROGRAM: [u8; 32] = [9u8; 32];

fn key(b: u8) -> Key {
    Key::new([b; 32])
}

fn acct(k: Key, is_signer: bool, is_writable: bool, lamports: u64, data: Vec<u8>) -> Account {
    Account { key: k, is_signer, is_writable, lamports, data }
}

fn write_front(data: &mut Vec<u8>, rec: &[u8]) {
    for (i, b) in rec.iter().enumerate() {
        data[i] = *b;
    }
    for b in data.iter_mut().skip(rec.len()) {
        *b = 0;
    }
}

/// A funded profile of `owner` with `threshold`, as a first initialization leaves it.
fn wallet(owner: &Key, threshold: u8, lamports: u64) -> Account {
    let program = Key::new(PROGRAM);
    let (pda, _) = get_profile_pda(owner, &program).unwrap();
    let profile = acct(pda, false, true, 0, Vec::new());
    let authority = acct(*owner, true, false, 10_000_000, Vec::new());
    let plan = process_initialize_wallet(
        &program,
        &profile,
        &authority,
        InitializeWalletArgs { recovery_threshold: threshold },
        false,
    )
    .unwrap();
    match plan.setup {
        AccountSetup::Create { space, .. } => assert_eq!(space, PROFILE_SPACE),
        _ => panic!("a new account is created"),
    }
    let mut data = vec![0u8; PROFILE_SPACE as usize];
    write_front(&mut data, &plan.record);
    acct(pda, false, true, lamports, data)
}

fn add_guardians(profile: &mut Account, owner: &Key, guardians: &[Key]) -> Result<(), WalletError> {
    let program = Key::new(PROGRAM);
    let authority = acct(*owner, true, false, 10_000_000, Vec::new());
    let rec = process_add_recovery_guardians(&program, profile, &authority, &guardians.to_vec())?;
    profile.data = rec;
    Ok(())
}

fn stored(profile: &Account) -> UserProfile {
    UserProfile::deserialize(&profile.data).unwrap()
}

struct Setup {
    owner: Key,
    profile: Account,
    new_owner: Key,
    new_profile: Account,
}

/// Wallet with threshold 2, guardians G1, G2, G3, and recovery directed at pda(X).
fn recovery_setup() -> Setup {
    let program = Key::new(PROGRAM);
    let owner = key(1);
    let mut profile = wallet(&owner, 2, 5_000_000);
    add_guardians(&mut profile, &owner, &[key(11), key(12), key(13)]).unwrap();
    let new_owner = key(2);
    let new_profile = wallet(&new_owner, 1, 3_000_000);
    let authority = acct(owner, false, false, 0, Vec::new());
    let new_authority = acct(new_owner, true, false, 0, Vec::new());
    process_initialize_recovery(&program, &mut profile, &authority, &new_profile, &new_authority)
        .unwrap();
    assert!(stored(&profile).recovery == new_profile.key);
    Setup { owner, profile, new_owner, new_profile }
}

fn sign(s: &mut Setup, guardian: Key) -> Result<(), WalletError> {
    let program = Key::new(PROGRAM);
    let authority = acct(s.owner, false, false, 0, Vec::new());
    let new_authority = acct(s.new_owner, false, false, 0, Vec::new());
    let g = acct(guardian, true, false, 0, Vec::new());
    process_add_recovery_sign(&program, &mut s.profile, &authority, &s.new_profile, &new_authority, &g)
}

#[test]
fn scenario_recover_native_sol_after_two_signatures() {
    let program = Key::new(PROGRAM);
    let mut s = recovery_setup();
    sign(&mut s, key(11)).unwrap();
    sign(&mut s, key(12)).unwrap();
    let signed: Vec<bool> = stored(&s.profile).guardians.iter().map(|g| g.has_signed).collect();
    assert_eq!(signed, vec![true, true, false]);
    let authority = acct(s.owner, false, false, 0, Vec::new());
    let new_authority = acct(s.new_owner, true, false, 0, Vec::new());
    let r = process_recover_native_sol(
        &program,
        &mut s.profile,
        &authority,
        &mut s.new_profile,
        &new_authority,
    );
    assert_eq!(r, Ok(()));
    assert_eq!(s.new_profile.lamports, 8_000_000);
    assert_eq!(s.profile.lamports, 0);
    assert!(s.profile.data.iter().all(|b| *b == 0));
}

#[test]
fn scenario_recover_wallet_with_one_signature_fails() {
    let program = Key::new(PROGRAM);
    let mut s = recovery_setup();
    sign(&mut s, key(11)).unwrap();
    let before_old = s.profile.clone();
    let before_new = s.new_profile.clone();
    let authority = acct(s.owner, false, false, 0, Vec::new());
    let new_authority = acct(s.new_owner, true, false, 0, Vec::new());
    let mut recovered: Vec<Account> = Vec::new();
    let r = process_recover_wallet(
        &program,
        &mut s.profile,
        &authority,
        &mut s.new_profile,
        &new_authority,
        &mut recovered,
    );
    assert_eq!(r, Err(WalletError::Custom(KryptonError::MissingGuardianSignatures)));
    assert_eq!(s.profile.data, before_old.data);
    assert_eq!(s.profile.lamports, before_old.lamports);
    assert_eq!(s.new_profile.data, before_new.data);
    assert_eq!(s.new_profile.lamports, before_new.lamports);
}

#[test]
fn scenario_duplicate_guardian_is_refused() {
    let owner = key(1);
    let mut profile = wallet(&owner, 2, 5_000_000);
    add_guardians(&mut profile, &owner, &[key(11), key(12)]).unwrap();
    let before = profile.data.clone();
    let r = add_guardians(&mut profile, &owner, &[key(11)]);
    assert_eq!(r, Err(WalletError::Custom(KryptonError::NotEnoughGuardians)));
    assert_eq!(profile.data, before);
    assert_eq!(stored(&profile).guardians.len(), 2);
}

#[test]
fn scenario_transfer_more_than_balance_fails() {
    let program = Key::new(PROGRAM);
    let owner = key(1);
    let mut profile = wallet(&owner, 1, 1_000);
    let authority = acct(owner, true, false, 0, Vec::new());
    let mut dest = acct(key(50), false, true, 7, Vec::new());
    let mut guard: Option<Account> = None;
    let r = process_transfer_native_sol(
        &program,
        &mut profile,
        &authority,
        &mut dest,
        &mut guard,
        TransferNativeSOLArgs { amount: 1_001 },
        0,
    );
    assert_eq!(r, Err(WalletError::Custom(KryptonError::InsufficientFundsForTransaction)));
    assert_eq!(profile.lamports, 1_000);
    assert_eq!(dest.lamports, 7);
}

fn guarded_wallet(limit: u64) -> (Account, Key, Account) {
    let program = Key::new(PROGRAM);
    let owner = key(1);
    let profile = wallet(&owner, 1, 1_000_000);
    let authority = acct(owner, true, false, 0, Vec::new());
    let (guard_key, _) = get_guard_pda(&profile.key, &program).unwrap();
    let guard_info = acct(guard_key, false, true, 0, Vec::new());
    let setup = process_initialize_native_sol_transfer_guard(
        &program,
        &profile,
        &authority,
        &guard_info,
        InitializeNativeSolTransferGuardArgs { target: profile.key, transfer_amount: limit },
    )
    .unwrap();
    let guard = acct(guard_key, false, true, 2_000, setup.record);
    (profile, owner, guard)
}

fn remaining(guard: &Account) -> u64 {
    let Guard::NativeSolTransfer(g) = GuardAccount::deserialize(&guard.data).unwrap().guard;
    g.transfer_amount_remaining
}

#[test]
fn scenario_guard_refuses_second_transfer_over_daily_limit() {
    let program = Key::new(PROGRAM);
    let (mut profile, owner, guard) = guarded_wallet(1_000);
    let authority = acct(owner, true, false, 0, Vec::new());
    let mut dest = acct(key(50), false, true, 0, Vec::new());
    let mut guard = Some(guard);
    let noon: i64 = 1_700_000_000;
    let r = process_transfer_native_sol(
        &program,
        &mut profile,
        &authority,
        &mut dest,
        &mut guard,
        TransferNativeSOLArgs { amount: 600 },
        noon,
    );
    assert_eq!(r, Ok(()));
    assert_eq!(remaining(guard.as_ref().unwrap()), 400);
    assert_eq!(dest.lamports, 600);
    let r = process_transfer_native_sol(
        &program,
        &mut profile,
        &authority,
        &mut dest,
        &mut guard,
        TransferNativeSOLArgs { amount: 500 },
        noon + 60,
    );
    assert!(r.is_err());
    assert_eq!(remaining(guard.as_ref().unwrap()), 400);
    assert_eq!(dest.lamports, 600);
    assert_eq!(profile.lamports, 1_000_000 - 600);
}

#[test]
fn guard_budget_renews_on_a_new_day() {
    let program = Key::new(PROGRAM);
    let (mut profile, owner, guard) = guarded_wallet(1_000);
    let authority = acct(owner, true, false, 0, Vec::new());
    let mut dest = acct(key(50), false, true, 0, Vec::new());
    let mut guard = Some(guard);
    let day: i64 = 1_700_000_000;
    let amounts = [(900u64, day), (900u64, day + 86_400)];
    for (amount, now) in amounts {
        let r = process_transfer_native_sol(
            &program,
            &mut profile,
            &authority,
            &mut dest,
            &mut guard,
            TransferNativeSOLArgs { amount },
            now,
        );
        assert_eq!(r, Ok(()));
        assert_eq!(remaining(guard.as_ref().unwrap()), 100);
    }
    assert_eq!(dest.lamports, 1_800);
}

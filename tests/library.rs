use krypton::account::Account;
use krypton::error::{KryptonError, WalletError};
use krypton::guard::{
    Context, Guard, GuardAccount, NativeSolTransferGuard, NativeSolTransferInterval,
    GUARD_ACCOUNT_LEN,
};
use krypton::instruction::add_recovery_guardians::{process_add_recovery_guardians, rent_shortfall};
use krypton::instruction::add_recovery_sign::process_add_recovery_sign;
use krypton::instruction::initialize_native_sol_transfer_guard::reimburse_guard_rent;
use krypton::instruction::initialize_recovery::process_initialize_recovery;
use krypton::instruction::initialize_wallet::{process_initialize_wallet, AccountSetup, PROFILE_SPACE};
use krypton::instruction::modify_recovery_threshold::process_modify_recovery_threshold;
use krypton::instruction::recover_token::process_recover_token;
use krypton::instruction::recover_wallet::process_recover_wallet;
use krypton::instruction::remove_recovery_guardians::{
    process_remove_recovery_guardians, refund_rent_surplus,
};
use krypton::instruction::transfer_token::process_transfer_token;
use krypton::instruction::wrap_instruction::process_wrap_instruction;
use krypton::instruction::{
    InitializeWalletArgs, ModifyRecoveryThresholdArgs, TransferTokenArgs, WrapInstructionArgs,
};
use krypton::key::Key;
use krypton::pda::get_profile_pda;
use krypton::recovery::{count_signatures, verify_recovery_state};
use krypton::state::{Guardian, UserProfile, MAX_GUARDIANS};

const PROGRAM: [u8; 32] = [9u8; 32];

fn key(b: u8) -> Key {
    Key::new([b; 32])
}

fn program() -> Key {
    Key::new(PROGRAM)
}

fn acct(k: Key, is_signer: bool, is_writable: bool, lamports: u64, data: Vec<u8>) -> Account {
    Account { key: k, is_signer, is_writable, lamports, data }
}

fn profile_key(owner: &Key) -> Key {
    get_profile_pda(owner, &program()).unwrap().0
}

fn wallet(owner: &Key, threshold: u8, lamports: u64) -> Account {
    let mut data = vec![0u8; PROFILE_SPACE as usize];
    let rec = UserProfile::fresh(*owner, threshold).serialize();
    data[..rec.len()].copy_from_slice(&rec);
    acct(profile_key(owner), false, true, lamports, data)
}

fn stored(a: &Account) -> UserProfile {
    UserProfile::deserialize(&a.data).unwrap()
}

fn with_guardians(owner: &Key, keys: &[Key]) -> Account {
    let mut p = wallet(owner, 2, 1_000_000);
    let auth = acct(*owner, true, false, 0, Vec::new());
    p.data = process_add_recovery_guardians(&program(), &p, &auth, &keys.to_vec()).unwrap();
    p
}

fn sample_profile() -> UserProfile {
    UserProfile {
        seed: key(1),
        authority: key(2),
        recovery_threshold: 3,
        guardians: vec![
            Guardian { pubkey: key(11), has_signed: true },
            Guardian { pubkey: key(12), has_signed: false },
        ],
        recovery: key(5),
        recovered: vec![key(21), key(22), key(23)],
    }
}

fn same_profile(a: &UserProfile, b: &UserProfile) -> bool {
    a.seed == b.seed
        && a.authority == b.authority
        && a.recovery_threshold == b.recovery_threshold
        && a.guardians.len() == b.guardians.len()
        && a.guardians.iter().zip(b.guardians.iter()).all(|(x, y)| x.pubkey == y.pubkey && x.has_signed == y.has_signed)
        && a.recovery == b.recovery
        && a.recovered == b.recovered
}

#[test]
fn profile_round_trip_with_trailing_bytes() {
    let p = sample_profile();
    let mut bytes = p.serialize();
    assert_eq!(bytes.len(), 105 + 33 * 2 + 32 * 3);
    assert_eq!(&bytes[0..32], &[1u8; 32]);
    assert_eq!(bytes[64], 3);
    assert_eq!(&bytes[65..69], &[2, 0, 0, 0]);
    assert_eq!(bytes[69 + 32], 1);
    let q = UserProfile::deserialize(&bytes).unwrap();
    assert!(same_profile(&p, &q));
    bytes.extend_from_slice(&[0u8; 40]);
    let q = UserProfile::deserialize(&bytes).unwrap();
    assert!(same_profile(&p, &q));
}

#[test]
fn profile_decoding_refuses_malformed_bytes() {
    let bytes = sample_profile().serialize();
    assert!(UserProfile::deserialize(&bytes[..bytes.len() - 1]).is_none());
    let mut bad_bool = bytes.clone();
    bad_bool[69 + 32] = 2;
    assert!(UserProfile::deserialize(&bad_bool).is_none());
    let mut dup = bytes.clone();
    for i in 0..32 {
        dup[69 + 33 + i] = 11;
    }
    assert!(UserProfile::deserialize(&dup).is_none());
    let mut too_many = bytes.clone();
    too_many[65] = 11;
    assert!(UserProfile::deserialize(&too_many).is_none());
    assert!(UserProfile::deserialize(&[]).is_none());
}

#[test]
fn empty_profile_is_all_zero_decodable() {
    let zeros = vec![0u8; 105];
    let p = UserProfile::deserialize(&zeros).unwrap();
    assert_eq!(p.guardians.len(), 0);
    assert_eq!(p.recovered.len(), 0);
}

#[test]
fn initialize_wallet_errors() {
    let owner = key(1);
    let profile = acct(profile_key(&owner), false, true, 0, Vec::new());
    let signer = acct(owner, true, false, 0, Vec::new());
    let not_signer = acct(owner, false, false, 0, Vec::new());
    let args = |t: u8| InitializeWalletArgs { recovery_threshold: t };
    let e = |r: Result<_, WalletError>| r.err().unwrap();
    assert_eq!(e(process_initialize_wallet(&program(), &profile, &not_signer, args(1), false)), WalletError::Custom(KryptonError::NotSigner));
    let ro = acct(profile.key, false, false, 0, Vec::new());
    assert_eq!(e(process_initialize_wallet(&program(), &ro, &signer, args(1), false)), WalletError::Custom(KryptonError::NotWriteable));
    let wrong = acct(key(77), false, true, 0, Vec::new());
    assert_eq!(e(process_initialize_wallet(&program(), &wrong, &signer, args(1), false)), WalletError::InvalidSeeds);
    assert_eq!(e(process_initialize_wallet(&program(), &profile, &signer, args(11), false)), WalletError::Custom(KryptonError::TooManyGuardians));
    assert_eq!(e(process_initialize_wallet(&program(), &profile, &signer, args(0), false)), WalletError::Custom(KryptonError::InvalidRecoveryThreshold));
    let plan = process_initialize_wallet(&program(), &profile, &signer, args(MAX_GUARDIANS), false).unwrap();
    assert!(matches!(plan.setup, AccountSetup::Create { space: 435, .. }));
    let funded = acct(profile.key, false, true, 5, Vec::new());
    let plan = process_initialize_wallet(&program(), &funded, &signer, args(2), false).unwrap();
    assert!(matches!(plan.setup, AccountSetup::Allocate { space: 435, .. }));
}

#[test]
fn initialize_twice_moves_nothing() {
    let owner = key(1);
    let profile = wallet(&owner, 2, 900);
    let signer = acct(owner, true, false, 0, Vec::new());
    let args = InitializeWalletArgs { recovery_threshold: 2 };
    let r = process_initialize_wallet(&program(), &profile, &signer, args, false);
    assert_eq!(r.err(), Some(WalletError::Custom(KryptonError::NonZeroData)));
    let plan = process_initialize_wallet(&program(), &profile, &signer, args, true).unwrap();
    assert!(matches!(plan.setup, AccountSetup::Existing));
    assert_eq!(&profile.data[..plan.record.len()], &plan.record[..]);
    let zeroed = acct(profile.key, false, true, 900, vec![0u8; PROFILE_SPACE as usize]);
    let plan = process_initialize_wallet(&program(), &zeroed, &signer, args, false).unwrap();
    assert!(matches!(plan.setup, AccountSetup::Existing));
}

#[test]
fn modify_recovery_threshold_bounds() {
    let owner = key(1);
    let auth = acct(owner, true, false, 0, Vec::new());
    let mut p = wallet(&owner, 2, 10);
    for t in [0u8, 11u8] {
        let r = process_modify_recovery_threshold(&program(), &mut p, &auth, ModifyRecoveryThresholdArgs { new_threshold: t });
        assert_eq!(r, Err(WalletError::Custom(KryptonError::InvalidRecoveryThreshold)));
    }
    assert_eq!(stored(&p).recovery_threshold, 2);
    let r = process_modify_recovery_threshold(&program(), &mut p, &auth, ModifyRecoveryThresholdArgs { new_threshold: 10 });
    assert_eq!(r, Ok(()));
    assert_eq!(stored(&p).recovery_threshold, 10);
    let other = acct(key(3), true, false, 0, Vec::new());
    let r = process_modify_recovery_threshold(&program(), &mut p, &other, ModifyRecoveryThresholdArgs { new_threshold: 3 });
    assert_eq!(r, Err(WalletError::InvalidSeeds));
}

#[test]
fn guardian_capacity_is_enforced() {
    let owner = key(1);
    let keys: Vec<Key> = (30..40).map(key).collect();
    let p = with_guardians(&owner, &keys);
    assert_eq!(stored(&p).guardians.len(), 10);
    let auth = acct(owner, true, false, 0, Vec::new());
    let r = process_add_recovery_guardians(&program(), &p, &auth, &vec![key(50)]);
    assert_eq!(r.err(), Some(WalletError::Custom(KryptonError::TooManyGuardians)));
    let fresh = wallet(&owner, 2, 1_000_000);
    let eleven: Vec<Key> = (30..41).map(key).collect();
    let r = process_add_recovery_guardians(&program(), &fresh, &auth, &eleven);
    assert_eq!(r.err(), Some(WalletError::Custom(KryptonError::TooManyGuardians)));
    let r = process_add_recovery_guardians(&program(), &fresh, &auth, &vec![]);
    assert_eq!(r.err(), Some(WalletError::Custom(KryptonError::NotEnoughGuardians)));
    let r = process_add_recovery_guardians(&program(), &fresh, &auth, &vec![key(7), key(7)]);
    assert_eq!(r.err(), Some(WalletError::Custom(KryptonError::NotEnoughGuardians)));
}

#[test]
fn remove_guardians_keeps_order_and_refunds() {
    let owner = key(1);
    let mut p = with_guardians(&owner, &[key(11), key(12), key(13)]);
    let mut auth = acct(owner, true, false, 100, Vec::new());
    let r = process_remove_recovery_guardians(&program(), &p, &auth, &vec![key(99)]);
    assert_eq!(r.err(), Some(WalletError::Custom(KryptonError::GuardianNotFound)));
    let r = process_remove_recovery_guardians(&program(), &p, &auth, &vec![key(12), key(12)]);
    assert_eq!(r.err(), Some(WalletError::Custom(KryptonError::GuardianNotFound)));
    let rec = process_remove_recovery_guardians(&program(), &p, &auth, &vec![key(12)]).unwrap();
    let left: Vec<Key> = UserProfile::deserialize(&rec).unwrap().guardians.iter().map(|g| g.pubkey).collect();
    assert_eq!(left, vec![key(11), key(13)]);
    assert_eq!(rec.len(), 105 + 66);
    p.lamports = 1_000;
    refund_rent_surplus(&mut p, &mut auth, 600).unwrap();
    assert_eq!(p.lamports, 600);
    assert_eq!(auth.lamports, 500);
    refund_rent_surplus(&mut p, &mut auth, 900).unwrap();
    assert_eq!(p.lamports, 600);
    assert_eq!(auth.lamports, 500);
    auth.lamports = u64::MAX;
    let r = refund_rent_surplus(&mut p, &mut auth, 100);
    assert_eq!(r, Err(WalletError::Custom(KryptonError::Overflow)));
    assert_eq!(p.lamports, 600);
}

#[test]
fn rent_shortfall_values() {
    assert_eq!(rent_shortfall(100, 250), 150);
    assert_eq!(rent_shortfall(300, 250), 0);
}

fn retarget(p: &mut Account, owner: &Key, new_owner: &Key, new_profile: &Account) -> Result<(), WalletError> {
    let auth = acct(*owner, false, false, 0, Vec::new());
    let new_auth = acct(*new_owner, true, false, 0, Vec::new());
    process_initialize_recovery(&program(), p, &auth, new_profile, &new_auth)
}

fn sign(p: &mut Account, owner: &Key, new_owner: &Key, new_profile: &Account, g: Key) -> Result<(), WalletError> {
    let auth = acct(*owner, false, false, 0, Vec::new());
    let new_auth = acct(*new_owner, false, false, 0, Vec::new());
    let gi = acct(g, true, false, 0, Vec::new());
    process_add_recovery_sign(&program(), p, &auth, new_profile, &new_auth, &gi)
}

#[test]
fn signatures_reset_on_new_target_only() {
    let owner = key(1);
    let mut p = with_guardians(&owner, &[key(11), key(12)]);
    let (x, y) = (key(2), key(3));
    let px = wallet(&x, 1, 1);
    let py = wallet(&y, 1, 1);
    retarget(&mut p, &owner, &x, &px).unwrap();
    sign(&mut p, &owner, &x, &px, key(11)).unwrap();
    sign(&mut p, &owner, &x, &px, key(11)).unwrap();
    assert_eq!(count_signatures(&stored(&p).guardians), 1);
    let before = p.data.clone();
    retarget(&mut p, &owner, &x, &px).unwrap();
    assert_eq!(p.data, before);
    retarget(&mut p, &owner, &y, &py).unwrap();
    assert_eq!(count_signatures(&stored(&p).guardians), 0);
    assert!(stored(&p).recovery == py.key);
    let r = sign(&mut p, &owner, &x, &px, key(12));
    assert_eq!(r, Err(WalletError::Custom(KryptonError::NotAuthorizedToRecover)));
    let before = p.data.clone();
    let r = sign(&mut p, &owner, &y, &py, key(99));
    assert_eq!(r, Err(WalletError::Custom(KryptonError::GuardianNotFound)));
    assert_eq!(p.data, before);
    assert_eq!(count_signatures(&stored(&p).guardians), 0);
    let unsigned = acct(key(11), false, false, 0, Vec::new());
    let auth = acct(owner, false, false, 0, Vec::new());
    let new_auth = acct(y, false, false, 0, Vec::new());
    let r = process_add_recovery_sign(&program(), &mut p, &auth, &py, &new_auth, &unsigned);
    assert_eq!(r, Err(WalletError::Custom(KryptonError::NotSigner)));
}

#[test]
fn recovery_state_counts_signatures() {
    let mut p = sample_profile();
    assert!(!verify_recovery_state(&p));
    p.guardians.push(Guardian { pubkey: key(13), has_signed: true });
    p.guardians.push(Guardian { pubkey: key(14), has_signed: true });
    assert_eq!(count_signatures(&p.guardians), 3);
    assert!(verify_recovery_state(&p));
}

#[test]
fn recover_wallet_records_and_propagates() {
    let owner = key(1);
    let new_owner = key(2);
    let mut p = with_guardians(&owner, &[key(11)]);
    let mut earlier = wallet(&key(40), 1, 5);
    // the old profile already holds an earlier recovery
    let mut prof = stored(&p);
    prof.recovered.push(earlier.key);
    prof.recovery_threshold = 1;
    let rec = prof.serialize();
    p.data = vec![0u8; PROFILE_SPACE as usize];
    p.data[..rec.len()].copy_from_slice(&rec);
    earlier.data[32..64].copy_from_slice(&owner.bytes);
    let mut np = wallet(&new_owner, 1, 7);
    retarget(&mut p, &owner, &new_owner, &np).unwrap();
    sign(&mut p, &owner, &new_owner, &np, key(11)).unwrap();
    let auth = acct(owner, false, false, 0, Vec::new());
    let new_auth = acct(new_owner, true, false, 0, Vec::new());
    let stranger = wallet(&key(41), 1, 5);
    let mut passed = vec![earlier.clone(), stranger.clone(), earlier.clone()];
    let r = process_recover_wallet(&program(), &mut p, &auth, &mut np, &new_auth, &mut passed);
    assert_eq!(r, Err(WalletError::Custom(KryptonError::MissingRecoveredAccounts)));
    let mut passed = vec![earlier.clone()];
    let r = process_recover_wallet(&program(), &mut p, &auth, &mut np, &new_auth, &mut passed);
    assert_eq!(r, Ok(()));
    assert_eq!(stored(&np).recovered, vec![p.key, earlier.key]);
    assert!(stored(&np).authority == new_owner);
    assert!(stored(&p).authority == new_owner);
    assert_eq!(&passed[0].data[32..64], &new_owner.bytes);
    assert_eq!(&passed[0].data[64..], &earlier.data[64..]);
    assert_eq!(np.lamports, 7);
}

fn token_account(amount: u64, state: u8) -> Vec<u8> {
    let mut d = vec![0u8; 165];
    d[64..72].copy_from_slice(&amount.to_le_bytes());
    d[108] = state;
    d
}

#[test]
fn transfer_token_reads_the_balance() {
    let owner = key(1);
    let profile = wallet(&owner, 1, 10);
    let auth = acct(owner, true, false, 0, Vec::new());
    let src = acct(key(60), false, true, 0, token_account(500, 1));
    let dst = acct(key(61), false, true, 0, token_account(0, 1));
    let ok = process_transfer_token(&program(), &profile, &auth, &src, &dst, TransferTokenArgs { amount: 500 });
    assert_eq!(ok, Ok(get_profile_pda(&owner, &program()).unwrap().1));
    let over = process_transfer_token(&program(), &profile, &auth, &src, &dst, TransferTokenArgs { amount: 501 });
    assert_eq!(over, Err(WalletError::Custom(KryptonError::InsufficientFundsForTransaction)));
    let uninit = acct(key(60), false, true, 0, token_account(500, 0));
    let r = process_transfer_token(&program(), &profile, &auth, &uninit, &dst, TransferTokenArgs { amount: 1 });
    assert_eq!(r, Err(WalletError::InvalidAccountData));
    let short = acct(key(60), false, true, 0, vec![0u8; 100]);
    let r = process_transfer_token(&program(), &profile, &auth, &short, &dst, TransferTokenArgs { amount: 1 });
    assert_eq!(r, Err(WalletError::InvalidAccountData));
    let ro = acct(key(61), false, false, 0, token_account(0, 1));
    let r = process_transfer_token(&program(), &profile, &auth, &src, &ro, TransferTokenArgs { amount: 1 });
    assert_eq!(r, Err(WalletError::Custom(KryptonError::NotWriteable)));
}

#[test]
fn recover_token_moves_whole_balance() {
    let owner = key(1);
    let new_owner = key(2);
    let mut p = with_guardians(&owner, &[key(11), key(12)]);
    let np = wallet(&new_owner, 1, 7);
    retarget(&mut p, &owner, &new_owner, &np).unwrap();
    let auth = acct(owner, false, false, 0, Vec::new());
    let new_auth = acct(new_owner, true, false, 0, Vec::new());
    let old_ta = acct(key(60), false, true, 0, token_account(1234, 2));
    let new_ta = acct(key(61), false, true, 0, token_account(0, 1));
    let r = process_recover_token(&program(), &p, &auth, &np, &new_auth, &old_ta, &new_ta);
    assert_eq!(r.err(), Some(WalletError::Custom(KryptonError::MissingGuardianSignatures)));
    sign(&mut p, &owner, &new_owner, &np, key(11)).unwrap();
    sign(&mut p, &owner, &new_owner, &np, key(12)).unwrap();
    let t = process_recover_token(&program(), &p, &auth, &np, &new_auth, &old_ta, &new_ta).unwrap();
    assert_eq!(t.amount, 1234);
    assert_eq!(t.bump, get_profile_pda(&owner, &program()).unwrap().1);
}

#[test]
fn wrap_instruction_metas() {
    let owner = key(1);
    let profile = wallet(&owner, 1, 10);
    let auth = acct(owner, true, false, 0, Vec::new());
    let custom = acct(key(70), false, false, 0, Vec::new());
    let accounts = vec![
        acct(profile.key, false, false, 0, Vec::new()),
        acct(key(71), true, false, 0, Vec::new()),
        acct(key(72), false, true, 0, Vec::new()),
    ];
    let args = WrapInstructionArgs { num_accounts: 3, custom_data: vec![1, 2, 3] };
    let call = process_wrap_instruction(&program(), &profile, &auth, &custom, &accounts, &args).unwrap();
    let flags: Vec<(bool, bool)> = call.metas.iter().map(|m| (m.is_signer, m.is_writable)).collect();
    assert_eq!(flags, vec![(true, true), (true, false), (false, true)]);
    assert!(!call.uses_system_program);
    let mut with_system = accounts.clone();
    with_system.push(acct(Key::zero(), false, false, 0, Vec::new()));
    let args4 = WrapInstructionArgs { num_accounts: 4, custom_data: vec![] };
    let call = process_wrap_instruction(&program(), &profile, &auth, &custom, &with_system, &args4).unwrap();
    assert!(call.uses_system_program);
    let r = process_wrap_instruction(&program(), &profile, &auth, &custom, &with_system, &args);
    assert_eq!(r.err(), Some(WalletError::Custom(KryptonError::NotEnoughAccounts)));
}

fn sample_guard(context: Option<Context>) -> GuardAccount {
    GuardAccount {
        target: key(1),
        guard: Guard::NativeSolTransfer(NativeSolTransferGuard {
            guarded: key(1),
            transfer_amount_remaining: 40,
            transfer_limit: 100,
            transfer_interval: NativeSolTransferInterval::Day,
            last_transferred: -5,
            context,
        }),
    }
}

#[test]
fn guard_record_round_trip() {
    for ctx in [None, Some(Context { balance_before: 77 })] {
        let g = sample_guard(ctx);
        let bytes = g.serialize();
        assert_eq!(bytes.len(), GUARD_ACCOUNT_LEN + if ctx.is_some() { 8 } else { 0 });
        let Guard::NativeSolTransfer(back) = GuardAccount::deserialize(&bytes).unwrap().guard;
        assert_eq!(back.last_transferred, -5);
        assert_eq!(back.transfer_amount_remaining, 40);
        assert_eq!(back.context, ctx);
    }
    let mut bad = sample_guard(None).serialize();
    bad[90] = 3;
    assert!(GuardAccount::deserialize(&bad).is_none());
}

#[test]
fn guard_setup_and_run() {
    let mut g = NativeSolTransferGuard::new(&key(1), 100, NativeSolTransferInterval::Day);
    assert_eq!(g.run(&vec![(key(1), 5)], 0), Err(KryptonError::GuardContextNotFound));
    assert_eq!(g.setup(&vec![(key(2), 5)]), Err(KryptonError::TargetAccountNotFound));
    g.setup(&vec![(key(2), 5), (key(1), 1_000)]).unwrap();
    assert_eq!(g.context, Some(Context { balance_before: 1_000 }));
    let now: i64 = 1_700_000_000;
    assert_eq!(g.run(&vec![(key(1), 930)], now), Ok(()));
    assert_eq!(g.transfer_amount_remaining, 30);
    assert_eq!(g.last_transferred, now);
    assert_eq!(g.context, None);
    assert_eq!(g.last_transferred(), Ok(738_838));
    g.setup(&vec![(key(1), 930)]).unwrap();
    assert_eq!(g.run(&vec![(key(1), 931)], now), Err(KryptonError::ArithmeticOverflow));
    g.setup(&vec![(key(1), 930)]).unwrap();
    assert_eq!(g.run(&vec![(key(1), 890)], now), Err(KryptonError::InsufficientFundsForTransaction));
    assert_eq!(g.transfer_amount_remaining, 30);
    g.setup(&vec![(key(1), 930)]).unwrap();
    assert_eq!(g.run(&vec![(key(1), 890)], now + 86_400), Ok(()));
    assert_eq!(g.transfer_amount_remaining, 60);
}

#[test]
fn guard_rent_reimbursement() {
    let mut p = acct(key(1), false, true, 1_000, Vec::new());
    let mut a = acct(key(2), true, false, 10, Vec::new());
    assert_eq!(reimburse_guard_rent(&mut p, &mut a, 800, 300), Err(WalletError::Custom(KryptonError::InsufficientFundsForTransaction)));
    assert_eq!(reimburse_guard_rent(&mut p, &mut a, 700, 300), Ok(()));
    assert_eq!((p.lamports, a.lamports), (700, 310));
}

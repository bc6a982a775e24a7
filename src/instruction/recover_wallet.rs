use vstd::prelude::*;

use crate::account::{
    data_became, load_profile, overwritten, same_account, store_profile, stored_profile, Account,
};
use crate::codec::{lemma_key_len, lemma_profile_len, profile_bytes};
use crate::error::{KryptonError, WalletError};
use crate::instruction::recover_native_sol::{check_recovery_gate, recovery_gate_error};
use crate::key::{Key, KEY_LEN};
use crate::state::{
    contains_key, distinct_keys, has_key, ProfileModel, PROFILE_HEADER_LEN,
};

verus! {

/// `s` with `k` added unless it is there.
pub open spec fn with_key(s: Seq<Key>, k: Key) -> Seq<Key> {
    if has_key(s, k) {
        s
    } else {
        s.push(k)
    }
}

/// `s` with the address of every account of `passed` that `known` holds added.
pub open spec fn merged_recovered(s: Seq<Key>, known: Seq<Key>, passed: Seq<Account>) -> Seq<Key>
    decreases passed.len(),
{
    if passed.len() == 0 {
        s
    } else {
        let r = merged_recovered(s, known, passed.drop_last());
        if has_key(known, passed.last().key) {
            with_key(r, passed.last().key)
        } else {
            r
        }
    }
}

/// `data` with the authority field of its header replaced by `k`.
pub open spec fn with_authority(data: Seq<u8>, k: Key) -> Seq<u8> {
    data.subrange(0, 32) + k@ + data.subrange(64, data.len() as int)
}

/// The new profile once `old_key` and the passed earlier recoveries are recorded in it.
pub open spec fn recovered_into(
    new_p: ProfileModel,
    old_key: Key,
    old_p: ProfileModel,
    passed: Seq<Account>,
) -> ProfileModel {
    ProfileModel {
        recovered: merged_recovered(with_key(new_p.recovered, old_key), old_p.recovered, passed),
        ..new_p
    }
}

/// Why recovering the profile into `new_profile` is refused, if it is.
pub open spec fn recover_wallet_error(
    program_id: Key,
    profile: Account,
    authority: Account,
    new_profile: Account,
    new_authority: Account,
    passed: Seq<Account>,
) -> Option<WalletError> {
    let old_p = stored_profile(profile.data@).unwrap();
    let new_p = stored_profile(new_profile.data@).unwrap();
    if !new_authority.is_signer {
        Some(WalletError::Custom(KryptonError::NotSigner))
    } else if !profile.is_writable || !new_profile.is_writable {
        Some(WalletError::Custom(KryptonError::NotWriteable))
    } else if profile.key@ == new_profile.key@ || exists|i: int|
        0 <= i < passed.len() && (#[trigger] passed[i].key@ == profile.key@ || passed[i].key@
            == new_profile.key@) {
        Some(WalletError::InvalidArgument)
    } else if !crate::pda::is_profile_of(profile.key, authority.key, program_id) {
        Some(WalletError::InvalidSeeds)
    } else if !crate::pda::is_profile_of(new_profile.key, new_authority.key, program_id) {
        Some(WalletError::InvalidSeeds)
    } else if stored_profile(profile.data@) is None {
        Some(WalletError::InvalidAccountData)
    } else if old_p.authority@ != authority.key@ {
        Some(WalletError::Custom(KryptonError::InvalidAuthority))
    } else if recovery_gate_error(program_id, profile, authority, new_profile, new_authority) is Some {
        recovery_gate_error(program_id, profile, authority, new_profile, new_authority)
    } else if stored_profile(new_profile.data@) is None {
        Some(WalletError::InvalidAccountData)
    } else if new_p.authority@ != new_authority.key@ {
        Some(WalletError::Custom(KryptonError::InvalidAuthority))
    } else if passed.len() > old_p.recovered.len() {
        Some(WalletError::Custom(KryptonError::MissingRecoveredAccounts))
    } else if new_p.recovered.len() + passed.len() + 1 > u32::MAX {
        Some(WalletError::Custom(KryptonError::Overflow))
    } else if profile_bytes(recovered_into(new_p, profile.key, old_p, passed)).len()
        > new_profile.data@.len() {
        Some(WalletError::AccountDataTooSmall)
    } else if exists|i: int|
        0 <= i < passed.len() && has_key(old_p.recovered, #[trigger] passed[i].key)
            && passed[i].data@.len() < 64 {
        Some(WalletError::InvalidAccountData)
    } else {
        None
    }
}

/// Adds `k` to the key set `s` unless it is there.
pub fn insert_key(s: &mut Vec<Key>, k: &Key)
    requires
        distinct_keys(old(s)@),
    ensures
        final(s)@ == with_key(old(s)@, *k),
        distinct_keys(final(s)@),
{
    if !contains_key(s, k) {
        s.push(*k);
    }
}

/// Replaces the authority field of the header at the front of `data`.
pub fn write_authority(data: &mut Vec<u8>, k: &Key)
    requires
        old(data)@.len() >= 64,
    ensures
        final(data)@ == with_authority(old(data)@, *k),
{
    let ghost old_data = data@;
    proof {
        lemma_key_len(*k);
    }
    let mut i: usize = 0;
    while i < KEY_LEN
        invariant
            i <= KEY_LEN,
            k@.len() == 32,
            data@.len() == old_data.len(),
            old_data.len() >= 64,
            forall|j: int|
                0 <= j < data@.len() ==> #[trigger] data@[j] == if 32 <= j < 32 + i {
                    k@[j - 32]
                } else {
                    old_data[j]
                },
        decreases KEY_LEN - i,
    {
        data.set(32 + i, k.bytes[i]);
        i = i + 1;
    }
    assert(data@ =~= with_authority(old_data, *k));
}

/// Recovers the profile into the profile of the signing new authority: the new
/// profile records the old profile and the earlier recoveries passed along,
/// and the old profile and those earlier recoveries come under the new authority.
/// The old profile keeps its whole record (guardians, threshold, recovery
/// target), with only its authority replaced, rather than being cut down to its
/// header: the native-balance and token recovery steps read that record, and
/// may follow this one in the same recovery.
#[verifier::loop_isolation(false)]
pub fn process_recover_wallet(
    program_id: &Key,
    profile_info: &mut Account,
    authority_info: &Account,
    new_profile_info: &mut Account,
    new_authority_info: &Account,
    recovered_infos: &mut Vec<Account>,
) -> (r: Result<(), WalletError>)
    ensures
        match recover_wallet_error(
            *program_id,
            *old(profile_info),
            *authority_info,
            *old(new_profile_info),
            *new_authority_info,
            old(recovered_infos)@,
        ) {
            Some(e) => {
                &&& r == Err::<(), WalletError>(e)
                &&& same_account(*old(profile_info), *final(profile_info))
                &&& same_account(*old(new_profile_info), *final(new_profile_info))
                &&& final(recovered_infos)@ == old(recovered_infos)@
            },
            None => {
                let old_p = stored_profile(old(profile_info).data@).unwrap();
                let new_p = stored_profile(old(new_profile_info).data@).unwrap();
                &&& r is Ok
                &&& data_became(
                    *old(new_profile_info),
                    *final(new_profile_info),
                    overwritten(
                        old(new_profile_info).data@,
                        profile_bytes(
                            recovered_into(
                                new_p,
                                old(profile_info).key,
                                old_p,
                                old(recovered_infos)@,
                            ),
                        ),
                    ),
                )
                &&& data_became(
                    *old(profile_info),
                    *final(profile_info),
                    overwritten(
                        old(profile_info).data@,
                        profile_bytes(ProfileModel { authority: new_authority_info.key, ..old_p }),
                    ),
                )
                &&& final(recovered_infos)@.len() == old(recovered_infos)@.len()
                &&& forall|i: int|
                    #![trigger final(recovered_infos)@[i]]
                    0 <= i < old(recovered_infos)@.len() ==> if has_key(
                        old_p.recovered,
                        old(recovered_infos)@[i].key,
                    ) {
                        data_became(
                            old(recovered_infos)@[i],
                            final(recovered_infos)@[i],
                            with_authority(
                                old(recovered_infos)@[i].data@,
                                new_authority_info.key,
                            ),
                        )
                    } else {
                        same_account(old(recovered_infos)@[i], final(recovered_infos)@[i])
                    }
            },
        },
{
    if !new_authority_info.is_signer {
        return Err(WalletError::Custom(KryptonError::NotSigner));
    }
    if !profile_info.is_writable || !new_profile_info.is_writable {
        return Err(WalletError::Custom(KryptonError::NotWriteable));
    }
    if profile_info.key.same(&new_profile_info.key) {
        return Err(WalletError::InvalidArgument);
    }
    let mut a: usize = 0;
    while a < recovered_infos.len()
        invariant
            a <= recovered_infos@.len(),
            forall|i: int|
                0 <= i < a ==> !(#[trigger] recovered_infos@[i].key@ == profile_info.key@
                    || recovered_infos@[i].key@ == new_profile_info.key@),
        decreases recovered_infos@.len() - a,
    {
        if recovered_infos[a].key.same(&profile_info.key) || recovered_infos[a].key.same(
            &new_profile_info.key,
        ) {
            return Err(WalletError::InvalidArgument);
        }
        a = a + 1;
    }
    if crate::pda::check_profile_address(&profile_info.key, &authority_info.key, program_id).is_none() {
        return Err(WalletError::InvalidSeeds);
    }
    if crate::pda::check_profile_address(
        &new_profile_info.key,
        &new_authority_info.key,
        program_id,
    ).is_none() {
        return Err(WalletError::InvalidSeeds);
    }
    let mut profile_data = load_profile(&profile_info.data)?;
    if !profile_data.authority.same(&authority_info.key) {
        return Err(WalletError::Custom(KryptonError::InvalidAuthority));
    }
    check_recovery_gate(
        program_id,
        profile_info,
        authority_info,
        new_profile_info,
        new_authority_info,
    )?;
    let mut new_profile_data = load_profile(&new_profile_info.data)?;
    if !new_profile_data.authority.same(&new_authority_info.key) {
        return Err(WalletError::Custom(KryptonError::InvalidAuthority));
    }
    if recovered_infos.len() > profile_data.recovered.len() {
        return Err(WalletError::Custom(KryptonError::MissingRecoveredAccounts));
    }
    if new_profile_data.recovered.len() as u64 + recovered_infos.len() as u64 + 1 > u32::MAX as u64 {
        return Err(WalletError::Custom(KryptonError::Overflow));
    }
    let ghost old_p = profile_data@;
    let ghost new_p = new_profile_data@;
    let ghost passed = recovered_infos@;
    // record the old profile and the earlier recoveries passed along
    insert_key(&mut new_profile_data.recovered, &profile_info.key);
    let mut i: usize = 0;
    while i < recovered_infos.len()
        invariant
            recovered_infos@ == passed,
            old_p == profile_data@,
            old_p.wf(),
            i <= passed.len(),
            new_p.recovered.len() + passed.len() + 1 <= u32::MAX,
            distinct_keys(new_profile_data.recovered@),
            new_profile_data.recovered@.len() <= new_p.recovered.len() + 1 + i,
            new_profile_data@ == recovered_into(
                new_p,
                profile_info.key,
                old_p,
                passed.subrange(0, i as int),
            ),
        decreases passed.len() - i,
    {
        assert(passed.subrange(0, i + 1).drop_last() =~= passed.subrange(0, i as int));
        if contains_key(&profile_data.recovered, &recovered_infos[i].key) {
            insert_key(&mut new_profile_data.recovered, &recovered_infos[i].key);
        }
        i = i + 1;
    }
    assert(passed.subrange(0, passed.len() as int) =~= passed);
    let new_bytes = new_profile_data.serialize();
    if new_bytes.len() > new_profile_info.data.len() {
        return Err(WalletError::AccountDataTooSmall);
    }
    let mut j: usize = 0;
    while j < recovered_infos.len()
        invariant
            recovered_infos@ == passed,
            old_p == profile_data@,
            j <= passed.len(),
            new_profile_data@ == recovered_into(new_p, profile_info.key, old_p, passed),
            profile_bytes(new_profile_data@).len() <= new_profile_info.data@.len(),
            forall|a: int|
                0 <= a < j ==> !(has_key(old_p.recovered, #[trigger] passed[a].key)
                    && passed[a].data@.len() < 64),
        decreases passed.len() - j,
    {
        if recovered_infos[j].data.len() < PROFILE_HEADER_LEN && contains_key(
            &profile_data.recovered,
            &recovered_infos[j].key,
        ) {
            assert(has_key(old_p.recovered, passed[j as int].key) && passed[j as int].data@.len()
                < 64);
            return Err(WalletError::InvalidAccountData);
        }
        j = j + 1;
    }
    // every check has passed: write the new state
    proof {
        lemma_profile_len(new_profile_data@);
        lemma_profile_len(old_p);
    }
    let _ = store_profile(new_profile_info, &new_profile_data);
    let mut k: usize = 0;
    while k < recovered_infos.len()
        invariant
            recovered_infos@.len() == passed.len(),
            old_p == profile_data@,
            k <= passed.len(),
            forall|a: int|
                0 <= a < passed.len() ==> !(has_key(old_p.recovered, #[trigger] passed[a].key)
                    && passed[a].data@.len() < 64),
            forall|a: int|
                #![trigger recovered_infos@[a]]
                0 <= a < passed.len() ==> if a < k && has_key(old_p.recovered, passed[a].key) {
                    data_became(
                        passed[a],
                        recovered_infos@[a],
                        with_authority(passed[a].data@, new_authority_info.key),
                    )
                } else {
                    same_account(passed[a], recovered_infos@[a])
                },
        decreases passed.len() - k,
    {
        if contains_key(&profile_data.recovered, &recovered_infos[k].key) {
            assert(same_account(passed[k as int], recovered_infos@[k as int]));
            write_authority(&mut recovered_infos[k].data, &new_authority_info.key);
        }
        k = k + 1;
    }
    profile_data.authority = new_authority_info.key;
    let _ = store_profile(profile_info, &profile_data);
    Ok(())
}

} // verus!

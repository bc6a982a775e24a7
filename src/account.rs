//! The accounts an instruction sees, and reading and writing records in them.
use vstd::prelude::*;

use crate::codec::{decodes_to, lemma_decodes_to_unique, lemma_profile_round_trip, profile_bytes};
use crate::error::{KryptonError, WalletError};
use crate::key::Key;
use crate::pda::{check_profile_address, is_profile_of};
use crate::state::{ProfileModel, UserProfile};

verus! {

/// One account handed to an instruction: its address, the flags the runtime
/// set on it, its balance and its data.
#[derive(Clone, Debug)]
pub struct Account {
    pub key: Key,
    pub is_signer: bool,
    pub is_writable: bool,
    pub lamports: u64,
    pub data: Vec<u8>,
}

/// The profile stored in `data`, if it holds one.
pub open spec fn stored_profile(data: Seq<u8>) -> Option<ProfileModel> {
    if exists|q: ProfileModel| decodes_to(data, q) {
        Some(choose|q: ProfileModel| decodes_to(data, q))
    } else {
        None
    }
}

/// `old` with `rec` written over its front and the rest zeroed.
pub open spec fn overwritten(old: Seq<u8>, rec: Seq<u8>) -> Seq<u8> {
    rec + Seq::new((old.len() - rec.len()) as nat, |i: int| 0u8)
}

/// Same address, flags and balance; data equal.
pub open spec fn same_account(a: Account, b: Account) -> bool {
    &&& a.key == b.key
    &&& a.is_signer == b.is_signer
    &&& a.is_writable == b.is_writable
    &&& a.lamports == b.lamports
    &&& a.data@ == b.data@
}

/// Only the data changed, to `data`.
pub open spec fn data_became(a: Account, b: Account, data: Seq<u8>) -> bool {
    &&& a.key == b.key
    &&& a.is_signer == b.is_signer
    &&& a.is_writable == b.is_writable
    &&& a.lamports == b.lamports
    &&& b.data@ == data
}

/// Round trip: a valid profile, serialized and followed by any bytes, is read
/// back as that same profile.
pub proof fn lemma_stored_profile_round_trip(p: ProfileModel, rest: Seq<u8>)
    requires
        p.wf(),
    ensures
        stored_profile(profile_bytes(p) + rest) == Some(p),
{
    let data = profile_bytes(p) + rest;
    lemma_profile_round_trip(p, rest);
    let q = choose|q: ProfileModel| decodes_to(data, q);
    lemma_decodes_to_unique(data, p, q);
}

/// Reads the profile stored in `data`.
pub fn load_profile(data: &Vec<u8>) -> (r: Result<UserProfile, WalletError>)
    ensures
        match stored_profile(data@) {
            Some(q) => r matches Ok(p) && p@ == q && q.wf(),
            None => r == Err::<UserProfile, WalletError>(WalletError::InvalidAccountData),
        },
{
    match UserProfile::deserialize(data.as_slice()) {
        Some(p) => {
            proof {
                let q = choose|q: ProfileModel| decodes_to(data@, q);
                assert(decodes_to(data@, q));
            }
            Ok(p)
        },
        None => Err(WalletError::InvalidAccountData),
    }
}

/// Writes `rec` over the front of `data` and zeroes the rest.
pub fn write_record(data: &mut Vec<u8>, rec: &Vec<u8>) -> (r: Result<(), WalletError>)
    ensures
        rec@.len() <= old(data)@.len() ==> r is Ok && final(data)@ == overwritten(
            old(data)@,
            rec@,
        ),
        rec@.len() > old(data)@.len() ==> r == Err::<(), WalletError>(
            WalletError::AccountDataTooSmall,
        ) && final(data)@ == old(data)@,
{
    if rec.len() > data.len() {
        return Err(WalletError::AccountDataTooSmall);
    }
    let ghost old_data = data@;
    let mut i: usize = 0;
    while i < data.len()
        invariant
            rec@.len() <= old_data.len(),
            data@.len() == old_data.len(),
            i <= data@.len(),
            forall|j: int|
                0 <= j < data@.len() ==> #[trigger] data@[j] == if j < i {
                    overwritten(old_data, rec@)[j]
                } else {
                    old_data[j]
                },
        decreases data@.len() - i,
    {
        let b = if i < rec.len() {
            rec[i]
        } else {
            0u8
        };
        data.set(i, b);
        i = i + 1;
    }
    assert(data@ =~= overwritten(old_data, rec@));
    Ok(())
}

/// Why the signer `authority` may not change the profile in `profile`, if it may not:
/// the checks every change of a profile by its authority goes through, in order.
pub open spec fn authority_error(program_id: Key, profile: Account, authority: Account) -> Option<
    WalletError,
> {
    if !authority.is_signer {
        Some(WalletError::Custom(KryptonError::NotSigner))
    } else if !profile.is_writable {
        Some(WalletError::Custom(KryptonError::NotWriteable))
    } else if !is_profile_of(profile.key, authority.key, program_id) {
        Some(WalletError::InvalidSeeds)
    } else {
        match stored_profile(profile.data@) {
            None => Some(WalletError::InvalidAccountData),
            Some(p) => if p.authority@ != authority.key@ {
                Some(WalletError::Custom(KryptonError::InvalidAuthority))
            } else {
                None
            },
        }
    }
}

/// Runs the checks of [`authority_error`] and reads the profile.
pub fn load_for_authority(program_id: &Key, profile: &Account, authority: &Account) -> (r: Result<
    UserProfile,
    WalletError,
>)
    ensures
        match authority_error(*program_id, *profile, *authority) {
            Some(e) => r == Err::<UserProfile, WalletError>(e),
            None => r matches Ok(p) && Some(p@) == stored_profile(profile.data@) && p@.wf(),
        },
{
    if !authority.is_signer {
        return Err(WalletError::Custom(KryptonError::NotSigner));
    }
    if !profile.is_writable {
        return Err(WalletError::Custom(KryptonError::NotWriteable));
    }
    if check_profile_address(&profile.key, &authority.key, program_id).is_none() {
        return Err(WalletError::InvalidSeeds);
    }
    let p = load_profile(&profile.data)?;
    if !p.authority.same(&authority.key) {
        return Err(WalletError::Custom(KryptonError::InvalidAuthority));
    }
    Ok(p)
}

/// Writes `p` into the account's data.
pub fn store_profile(acct: &mut Account, p: &UserProfile) -> (r: Result<(), WalletError>)
    requires
        p@.wf(),
    ensures
        profile_bytes(p@).len() <= old(acct).data@.len() ==> r is Ok && data_became(
            *old(acct),
            *final(acct),
            overwritten(old(acct).data@, profile_bytes(p@)),
        ) && stored_profile(final(acct).data@) == Some(p@),
        profile_bytes(p@).len() > old(acct).data@.len() ==> r == Err::<(), WalletError>(
            WalletError::AccountDataTooSmall,
        ) && same_account(*old(acct), *final(acct)),
{
    let bytes = p.serialize();
    let r = write_record(&mut acct.data, &bytes);
    proof {
        if profile_bytes(p@).len() <= old(acct).data@.len() {
            let rest = Seq::new((old(acct).data@.len() - profile_bytes(p@).len()) as nat, |i: int| 0u8);
            lemma_stored_profile_round_trip(p@, rest);
        }
    }
    r
}

} // verus!

verus! {

/// Reads the header at the front of a profile account's data.
pub fn load_header(data: &Vec<u8>) -> (r: Result<crate::state::ProfileHeader, WalletError>)
    ensures
        data@.len() >= 64 ==> (r matches Ok(h) && h.seed@ == data@.subrange(0, 32)
            && h.authority@ == data@.subrange(32, 64)),
        data@.len() < 64 ==> r == Err::<crate::state::ProfileHeader, WalletError>(
            WalletError::InvalidAccountData,
        ),
{
    let seed = match crate::codec::get_key(data.as_slice(), 0) {
        Some(k) => k,
        None => {
            return Err(WalletError::InvalidAccountData);
        },
    };
    let authority = match crate::codec::get_key(data.as_slice(), 32) {
        Some(k) => k,
        None => {
            return Err(WalletError::InvalidAccountData);
        },
    };
    Ok(crate::state::ProfileHeader { seed, authority })
}

} // verus!

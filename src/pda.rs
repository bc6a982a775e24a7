//! Derivation of program addresses.
use vstd::prelude::*;

use crate::key::Key;

verus! {

/// The address and bump seed that `Pubkey::try_find_program_address` finds for
/// `seeds` under `program_id`, if any.
pub uninterp spec fn program_address(seeds: Seq<Seq<u8>>, program_id: Seq<u8>) -> Option<
    (Seq<u8>, u8),
>;

/// The tag that separates profile addresses: the bytes of "profile".
pub open spec fn profile_tag() -> Seq<u8> {
    seq![112u8, 114u8, 111u8, 102u8, 105u8, 108u8, 101u8]
}

/// The tag that separates guard addresses: the bytes of "guard".
pub open spec fn guard_tag() -> Seq<u8> {
    seq![103u8, 117u8, 97u8, 114u8, 100u8]
}

pub open spec fn address_view(r: Option<(Key, u8)>) -> Option<(Seq<u8>, u8)> {
    match r {
        Some((k, b)) => Some((k@, b)),
        None => None,
    }
}

/// Relies on `solana_program::pubkey::Pubkey::try_find_program_address`, which
/// searches the bump seeds from 255 down and hashes the seeds with the program id:
/// the outcome depends on the seeds and the program id alone.
#[verifier::external_body]
fn find_program_address(tag: &[u8], seed: &Key, program_id: &Key) -> (r: Option<(Key, u8)>)
    ensures
        address_view(r) == program_address(seq![tag@, seed@], program_id@),
{
    let id = solana_program::pubkey::Pubkey::new_from_array(program_id.bytes);
    let found = solana_program::pubkey::Pubkey::try_find_program_address(&[tag, &seed.bytes], &id);
    found.map(|(k, b)| (Key { bytes: k.to_bytes() }, b))
}

/// Profile address of `owner`, with its bump seed.
pub open spec fn profile_address(owner: Key, program_id: Key) -> Option<(Seq<u8>, u8)> {
    program_address(seq![profile_tag(), owner@], program_id@)
}

/// Guard address of the profile at `profile`, with its bump seed.
pub open spec fn guard_address(profile: Key, program_id: Key) -> Option<(Seq<u8>, u8)> {
    program_address(seq![guard_tag(), profile@], program_id@)
}

/// `addr` is the profile address derived from `owner`.
pub open spec fn is_profile_of(addr: Key, owner: Key, program_id: Key) -> bool {
    match profile_address(owner, program_id) {
        Some((a, _)) => a == addr@,
        None => false,
    }
}

/// `addr` is the guard address derived from the profile at `profile`.
pub open spec fn is_guard_of(addr: Key, profile: Key, program_id: Key) -> bool {
    match guard_address(profile, program_id) {
        Some((a, _)) => a == addr@,
        None => false,
    }
}

/// Returns the profile address derived from `datakey`, with its bump seed.
pub fn get_profile_pda(datakey: &Key, program_id: &Key) -> (r: Option<(Key, u8)>)
    ensures
        address_view(r) == profile_address(*datakey, *program_id),
{
    let tag: [u8; 7] = [112u8, 114u8, 111u8, 102u8, 105u8, 108u8, 101u8];
    assert(tag@ =~= profile_tag());
    find_program_address(tag.as_slice(), datakey, program_id)
}

/// Returns the guard address derived from the profile address `profile`, with its bump seed.
pub fn get_guard_pda(profile: &Key, program_id: &Key) -> (r: Option<(Key, u8)>)
    ensures
        address_view(r) == guard_address(*profile, *program_id),
{
    let tag: [u8; 5] = [103u8, 117u8, 97u8, 114u8, 100u8];
    assert(tag@ =~= guard_tag());
    find_program_address(tag.as_slice(), profile, program_id)
}

/// Whether `addr` is the profile address derived from `owner`, with the bump seed if so.
pub fn check_profile_address(addr: &Key, owner: &Key, program_id: &Key) -> (r: Option<u8>)
    ensures
        r is Some <==> is_profile_of(*addr, *owner, *program_id),
        r matches Some(b) ==> profile_address(*owner, *program_id) == Some((addr@, b)),
{
    match get_profile_pda(owner, program_id) {
        Some((a, b)) => {
            if a.same(addr) {
                Some(b)
            } else {
                None
            }
        },
        None => None,
    }
}

/// Whether `addr` is the guard address derived from `profile`, with the bump seed if so.
pub fn check_guard_address(addr: &Key, profile: &Key, program_id: &Key) -> (r: Option<u8>)
    ensures
        r is Some <==> is_guard_of(*addr, *profile, *program_id),
        r matches Some(b) ==> guard_address(*profile, *program_id) == Some((addr@, b)),
{
    match get_guard_pda(profile, program_id) {
        Some((a, b)) => {
            if a.same(addr) {
                Some(b)
            } else {
                None
            }
        },
        None => None,
    }
}

/// Whether `k` is the system program's id, `11111111111111111111111111111111`
/// in base58: the all-zero key.
pub(crate) fn is_system_program(k: &Key) -> (r: bool)
    ensures
        r == (k@ == Key::zero_view()),
{
    k.same(&Key::zero())
}

} // verus!

//! Reading token accounts of the token program.
use vstd::bytes::spec_u64_from_le_bytes;
use vstd::prelude::*;

verus! {

/// Length of a token account.
pub const TOKEN_ACCOUNT_LEN: usize = 165;

/// A four-byte option tag: `[0,0,0,0]` or `[1,0,0,0]`.
pub open spec fn option_tag_ok(d: Seq<u8>, at: int) -> bool {
    &&& (d[at] == 0 || d[at] == 1)
    &&& d[at + 1] == 0
    &&& d[at + 2] == 0
    &&& d[at + 3] == 0
}

/// The balance of the initialized token account `d`, if `d` is one: 165 bytes,
/// valid option tags for the delegate, native amount and close authority, and a
/// state byte of 1 (initialized) or 2 (frozen); the balance stands at bytes 64..72.
pub open spec fn token_account_amount(d: Seq<u8>) -> Option<u64> {
    if d.len() == 165 && option_tag_ok(d, 72) && (d[108] == 1 || d[108] == 2) && option_tag_ok(
        d,
        109,
    ) && option_tag_ok(d, 129) {
        Some(spec_u64_from_le_bytes(d.subrange(64, 72)))
    } else {
        None
    }
}

/// Relies on `spl_token::state::Account::unpack` (through `Pack::unpack` of solana-program-pack): it
/// refuses a buffer that is not 165 bytes long, an option tag other than
/// `[0,0,0,0]` / `[1,0,0,0]`, a state byte other than 0, 1, 2, and the
/// uninitialized state 0; otherwise the balance is the little-endian `u64` at 64..72.
#[verifier::external_body]
pub(crate) fn token_amount(data: &[u8]) -> (r: Option<u64>)
    ensures
        r == token_account_amount(data@),
{
    <spl_token::state::Account as spl_token::solana_program::program_pack::Pack>::unpack(data).ok().map(
        |a| a.amount,
    )
}

} // verus!

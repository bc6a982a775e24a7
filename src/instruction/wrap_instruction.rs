use vstd::prelude::*;

use crate::account::{load_header, Account};
use crate::error::{KryptonError, WalletError};
use crate::instruction::transfer_token::header_seed;
use crate::instruction::WrapInstructionArgs;
use crate::key::Key;
use crate::pda::{check_profile_address, is_profile_of, is_system_program, profile_address};

verus! {

/// How an account is handed to the wrapped instruction.
#[derive(Clone, Copy, Debug)]
pub struct AccountMeta {
    pub pubkey: Key,
    pub is_signer: bool,
    pub is_writable: bool,
}

/// The call to make on the profile's behalf.
#[derive(Clone, Debug)]
pub struct WrappedCall {
    /// The accounts of the call, in order.
    pub metas: Vec<AccountMeta>,
    /// The bump seed with which the profile signs.
    pub bump: u8,
    /// The system program takes part: the profile is handed to it for the
    /// call and taken back, with its data, afterwards.
    pub uses_system_program: bool,
}

/// The profile signs and may be written; any other account keeps its flags.
pub open spec fn meta_for(a: Account, profile: Key) -> AccountMeta {
    if a.key@ == profile@ {
        AccountMeta { pubkey: a.key, is_signer: true, is_writable: true }
    } else {
        AccountMeta { pubkey: a.key, is_signer: a.is_signer, is_writable: a.is_writable }
    }
}

/// Why a call on the profile's behalf is refused, if it is.
pub open spec fn wrap_instruction_error(
    program_id: Key,
    profile: Account,
    authority: Account,
    custom_accounts: Seq<Account>,
    num_accounts: u8,
) -> Option<WalletError> {
    if custom_accounts.len() != num_accounts {
        Some(WalletError::Custom(KryptonError::NotEnoughAccounts))
    } else if !authority.is_signer {
        Some(WalletError::Custom(KryptonError::NotSigner))
    } else if !profile.is_writable {
        Some(WalletError::Custom(KryptonError::NotWriteable))
    } else if profile.data@.len() < 64 {
        Some(WalletError::InvalidAccountData)
    } else if !is_profile_of(profile.key, header_seed(profile.data@), program_id) {
        Some(WalletError::InvalidSeeds)
    } else if profile.data@.subrange(32, 64) != authority.key@ {
        Some(WalletError::Custom(KryptonError::InvalidAuthority))
    } else {
        None
    }
}

/// Checks a call of `custom_program` on the profile's behalf, with the
/// accounts `custom_accounts`, and says how to make it.
pub fn process_wrap_instruction(
    program_id: &Key,
    profile_info: &Account,
    authority_info: &Account,
    custom_program: &Account,
    custom_accounts: &Vec<Account>,
    args: &WrapInstructionArgs,
) -> (r: Result<WrappedCall, WalletError>)
    ensures
        match wrap_instruction_error(
            *program_id,
            *profile_info,
            *authority_info,
            custom_accounts@,
            args.num_accounts,
        ) {
            Some(e) => r matches Err(x) && x == e,
            None => r matches Ok(c) && {
                &&& c.metas@.len() == custom_accounts@.len()
                &&& forall|i: int|
                    0 <= i < custom_accounts@.len() ==> #[trigger] c.metas@[i] == meta_for(
                        custom_accounts@[i],
                        profile_info.key,
                    )
                &&& c.uses_system_program == (custom_program.key@ == Key::zero_view() || exists|
                    i: int,
                |
                    0 <= i < custom_accounts@.len() && #[trigger] custom_accounts@[i].key@
                        == Key::zero_view())
                &&& profile_address(header_seed(profile_info.data@), *program_id) == Some(
                    (profile_info.key@, c.bump),
                )
            },
        },
{
    if custom_accounts.len() != args.num_accounts as usize {
        return Err(WalletError::Custom(KryptonError::NotEnoughAccounts));
    }
    if !authority_info.is_signer {
        return Err(WalletError::Custom(KryptonError::NotSigner));
    }
    if !profile_info.is_writable {
        return Err(WalletError::Custom(KryptonError::NotWriteable));
    }
    let header = load_header(&profile_info.data)?;
    proof {
        crate::codec::lemma_key_eq(header_seed(profile_info.data@), header.seed);
    }
    let bump = match check_profile_address(&profile_info.key, &header.seed, program_id) {
        Some(b) => b,
        None => {
            return Err(WalletError::InvalidSeeds);
        },
    };
    if !header.authority.same(&authority_info.key) {
        return Err(WalletError::Custom(KryptonError::InvalidAuthority));
    }
    let mut uses_system_program = is_system_program(&custom_program.key);
    let mut metas: Vec<AccountMeta> = Vec::new();
    let mut i: usize = 0;
    while i < custom_accounts.len()
        invariant
            i <= custom_accounts@.len(),
            metas@.len() == i,
            forall|j: int| 0 <= j < i ==> #[trigger] metas@[j] == meta_for(
                custom_accounts@[j],
                profile_info.key,
            ),
            uses_system_program == (custom_program.key@ == Key::zero_view() || exists|j: int|
                0 <= j < i && #[trigger] custom_accounts@[j].key@ == Key::zero_view()),
        decreases custom_accounts@.len() - i,
    {
        let a = &custom_accounts[i];
        if is_system_program(&a.key) {
            uses_system_program = true;
        }
        let meta = if a.key.same(&profile_info.key) {
            AccountMeta { pubkey: a.key, is_signer: true, is_writable: true }
        } else {
            AccountMeta { pubkey: a.key, is_signer: a.is_signer, is_writable: a.is_writable }
        };
        metas.push(meta);
        i = i + 1;
    }
    Ok(WrappedCall { metas, bump, uses_system_program })
}

} // verus!

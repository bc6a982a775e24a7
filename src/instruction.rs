//! The instructions of the wallet program and their handlers.
use vstd::prelude::*;

use crate::key::Key;

pub mod add_recovery_guardians;
pub mod add_recovery_sign;
pub mod initialize_native_sol_transfer_guard;
pub mod initialize_recovery;
pub mod initialize_wallet;
pub mod modify_recovery_threshold;
pub mod recover_native_sol;
pub mod recover_token;
pub mod recover_wallet;
pub mod remove_recovery_guardians;
pub mod transfer_native_sol;
pub mod transfer_token;
pub mod wrap_instruction;

verus! {

#[derive(Clone, Copy, Debug)]
pub struct InitializeWalletArgs {
    pub recovery_threshold: u8,
}

#[derive(Clone, Copy, Debug)]
pub struct TransferTokenArgs {
    pub amount: u64,
}

#[derive(Clone, Copy, Debug)]
pub struct TransferNativeSOLArgs {
    pub amount: u64,
}

#[derive(Clone, Debug)]
pub struct WrapInstructionArgs {
    pub num_accounts: u8,
    pub custom_data: Vec<u8>,
}

#[derive(Clone, Copy, Debug)]
pub struct ModifyRecoveryThresholdArgs {
    pub new_threshold: u8,
}

#[derive(Clone, Copy, Debug)]
pub struct InitializeNativeSolTransferGuardArgs {
    pub target: Key,
    pub transfer_amount: u64,
}

} // verus!

verus! {

/// The instructions of the wallet program. The accounts each one takes are
/// listed on its handler.
#[derive(Clone, Debug)]
pub enum KryptonInstruction {
    InitializeWallet(InitializeWalletArgs),
    TransferToken(TransferTokenArgs),
    TransferNativeSOL(TransferNativeSOLArgs),
    WrapInstruction(WrapInstructionArgs),
    AddRecoveryGuardians,
    RemoveRecoveryGuardians,
    ModifyRecoveryThreshold(ModifyRecoveryThresholdArgs),
    InitializeRecovery,
    AddRecoverySign,
    RecoverWallet,
    RecoverToken,
    RecoverNativeSOL,
    InitializeNativeSolTransferGuard(InitializeNativeSolTransferGuardArgs),
}

/// The program's instruction processor. Decoding the instruction data and
/// routing it to the handlers of this module is the program's entrypoint's work.
pub struct Processor {}

} // verus!

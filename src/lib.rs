//! A self-custodial wallet with social recovery, verified with Verus.
//!
//! A profile account, at an address derived from its owner's key, records the
//! authority that controls it, a set of guardians and a recovery threshold.
//! When the authority's key is lost, guardians countersign a recovery towards
//! the profile of a new key; once enough have signed, the wallet's state,
//! native balance and tokens can be moved there. Spending guards limit how
//! much native balance may leave a profile per day.
//!
//! The handlers in [`instruction`] check an instruction's accounts and decide
//! its effect on a model of those accounts ([`account::Account`]); running the
//! cross-program calls they ask for is left to the caller.
pub mod error;
pub mod key;
pub mod state;
pub mod codec;
pub mod recovery;
pub mod pda;
pub mod account;
pub mod instruction;
pub mod guard;
pub mod token;
pub mod laws;

//! The accounts that come with an instruction, and the checks on them.

use vstd::prelude::*;
use crate::error::BarcodeError;
use crate::identity::{system_identity, Identity};

verus! {

/// What the processor reads of an account that came with an instruction.
#[derive(Debug, Clone, Copy, PartialEq)]
pub struct AccountHandle {
    /// The public identity of the account.
    pub key: Identity,
    /// The identity of the program that controls the account.
    pub owner: Identity,
    /// Whether the account signed the transaction.
    pub is_signer: bool,
}

/// Position of the funding account, which becomes the owner of the entry.
pub const FUNDING_ACCOUNT: usize = 0;

/// Position of the account that will hold the entry.
pub const TARGET_ACCOUNT: usize = 1;

/// Position of the system program.
pub const SYSTEM_ACCOUNT: usize = 2;

/// The number of accounts that an instruction needs.
pub const REQUIRED_ACCOUNTS: usize = 3;

/// The verdict on the accounts of an instruction. The rules are taken in
/// order and the first that is broken decides: three accounts must be there,
/// the funding account must have signed, and the funding account must be
/// controlled by the base system program.
pub open spec fn validation(accounts: Seq<AccountHandle>) -> Result<(), BarcodeError> {
    if accounts.len() < REQUIRED_ACCOUNTS {
        Err(BarcodeError::MissingAccount)
    } else if !accounts[FUNDING_ACCOUNT as int].is_signer {
        Err(BarcodeError::MissingSignature)
    } else if accounts[FUNDING_ACCOUNT as int].owner@ != system_identity() {
        Err(BarcodeError::UnauthorizedOwner)
    } else {
        Ok(())
    }
}

/// Checks the accounts of an instruction.
pub fn validate_accounts(accounts: &[AccountHandle]) -> (r: Result<(), BarcodeError>)
    ensures
        r == validation(accounts@),
{
    if accounts.len() < REQUIRED_ACCOUNTS {
        return Err(BarcodeError::MissingAccount);
    }
    let funding = &accounts[FUNDING_ACCOUNT];
    if !funding.is_signer {
        return Err(BarcodeError::MissingSignature);
    }
    if !funding.owner.is_system() {
        return Err(BarcodeError::UnauthorizedOwner);
    }
    Ok(())
}

} // verus!

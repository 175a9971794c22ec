//! The reasons for which an instruction fails.

use vstd::prelude::*;

verus! {

/// The runtime's own error type. The library hands such a value on and never
/// looks inside.
#[verifier::external_type_specification]
#[verifier::external_body]
pub struct ExProgramError(solana_program::program_error::ProgramError);

/// Why an instruction was not carried out.
#[derive(Debug, PartialEq)]
pub enum BarcodeError {
    /// The bytes are not the encoding of any value: they are cut short, carry
    /// an unknown tag, announce a text longer than what follows, or hold more
    /// than one value.
    MalformedData,
    /// Fewer than three accounts came with the instruction.
    MissingAccount,
    /// The funding account did not sign.
    MissingSignature,
    /// The funding account is controlled by a program other than the base
    /// system program.
    UnauthorizedOwner,
    /// The runtime refused a request; its error is kept as it came.
    ProvisioningFailed(solana_program::program_error::ProgramError),
}

} // verus!

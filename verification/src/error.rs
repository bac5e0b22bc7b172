//! The failures an instruction can end in.

use vstd::prelude::*;

verus! {

/// Every way an instruction can be rejected. A rejected instruction leaves every
/// account as it was.
#[derive(Clone, Copy, Debug, PartialEq, Eq, Structural)]
pub enum LedgerError {
    /// The payload is not the encoding of any instruction.
    InvalidInstructionData,
    /// Fewer accounts were passed than the instruction names.
    MissingAccount,
    /// The account that has to authorise the instruction did not sign it.
    MissingRequiredSignature,
    /// A record account is not owned by this program.
    IncorrectOwner,
    /// The account does not hold the balance that keeps its storage alive.
    InsufficientStorageFunding,
    /// A debit is larger than the balance it is taken from.
    InsufficientFunds,
    /// A record breaks a rule of the instruction that reads it.
    InvalidAccountData,
    /// The bytes are not the encoding of any record.
    DecodeError,
    /// The record does not fit into the storage it is written to.
    BufferTooSmall,
}

/// Program-specific failures, reported to the host by number.
#[derive(Clone, Copy, Debug, PartialEq, Eq, Structural)]
pub enum ZenithCodeError {
    InvalidInstruction,
    NotRentExempt,
    AlreadyInitialized,
}

impl ZenithCodeError {
    /// The number a variant is reported under: its position in the declaration.
    pub open spec fn spec_code(self) -> u32 {
        match self {
            ZenithCodeError::InvalidInstruction => 0,
            ZenithCodeError::NotRentExempt => 1,
            ZenithCodeError::AlreadyInitialized => 2,
        }
    }

    /// The text a variant is shown as.
    pub open spec fn spec_message(self) -> Seq<char> {
        match self {
            ZenithCodeError::InvalidInstruction => "Invalid instruction"@,
            ZenithCodeError::NotRentExempt => "Not rent exempt"@,
            ZenithCodeError::AlreadyInitialized => "Already initialized"@,
        }
    }

    #[verifier::when_used_as_spec(spec_code)]
    pub fn code(self) -> (code: u32)
        ensures
            code == self.spec_code(),
    {
        match self {
            ZenithCodeError::InvalidInstruction => 0,
            ZenithCodeError::NotRentExempt => 1,
            ZenithCodeError::AlreadyInitialized => 2,
        }
    }

    pub fn message(&self) -> (text: String)
        ensures
            text@ == self.spec_message(),
    {
        match self {
            ZenithCodeError::InvalidInstruction => "Invalid instruction".to_owned(),
            ZenithCodeError::NotRentExempt => "Not rent exempt".to_owned(),
            ZenithCodeError::AlreadyInitialized => "Already initialized".to_owned(),
        }
    }
}

} // verus!

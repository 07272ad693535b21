//! Common program-level types: the error taxonomy of an instruction
//! processor, its result alias, and the shape of an instruction handed to
//! a program.

use crate::pubkey::Pubkey;
use vstd::prelude::*;

verus! {

/// The errors an instruction processor reports.
#[derive(Clone, Copy, PartialEq, Eq, Structural, Debug)]
pub enum ProgramError {
    /// A program-specific error code.
    Custom(u32),
    /// An argument was not acceptable.
    InvalidArgument,
    /// The instruction payload could not be understood.
    InvalidInstructionData,
    /// A required signature was missing.
    MissingRequiredSignature,
}

/// What an instruction processor returns: nothing on success, a
/// `ProgramError` otherwise.
pub type ProgramResult = Result<(), ProgramError>;

/// One account named by an instruction, with its access flags.
#[derive(Clone, PartialEq, Eq, Debug)]
pub struct AccountMeta {
    /// The address of the account.
    pub pubkey: Pubkey,
    /// Whether the transaction is signed with this account's key.
    pub is_signer: bool,
    /// Whether the account may be modified.
    pub is_writable: bool,
}

/// One instruction addressed to a program: the program, the accounts it
/// touches, and its payload.
#[derive(Clone, PartialEq, Eq, Debug)]
pub struct Instruction {
    /// The program that processes the instruction.
    pub program_id: Pubkey,
    /// The accounts the instruction reads or writes.
    pub accounts: Vec<AccountMeta>,
    /// The payload handed to the program.
    pub data: Vec<u8>,
}

} // verus!

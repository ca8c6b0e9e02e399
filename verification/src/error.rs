use vstd::prelude::*;

verus! {

/// Why an operation on the ledger was refused.
#[derive(Clone, Copy, Debug, PartialEq, Eq, Structural)]
pub enum LedgerError {
    /// A slot is controlled by another identity than the one the operation
    /// was invoked for.
    WrongOwner,
    /// The controller of the debited slot has not authorized the operation.
    MissingAuthorization,
    /// The instruction is shorter than an opcode and an amount, or it names
    /// fewer slots than its operation works on.
    MalformedInstruction,
    /// Adding the amount would exceed the range of a 64-bit unsigned integer.
    Overflow,
    /// The debited wallet holds less than the amount.
    InsufficientBalance,
    /// A slot holds bytes that are neither a record nor an unwritten slot, or
    /// it is too small for the record that has to be stored in it.
    CorruptRecord,
}

} // verus!

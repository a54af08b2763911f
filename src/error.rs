use vstd::prelude::*;

verus! {

/// The failures that an operation of the lock program reports to its caller.
#[derive(Clone, Copy, Debug, PartialEq, Eq, Structural)]
pub enum LockTokenError {
    /// The operation envelope is empty, too short for its tag, or carries an unknown tag.
    InvalidInstruction,
    /// A derived address, owner, signer, destination or state check failed.
    InvalidArgument,
    /// A storage cell has the wrong size for its record, or holds a forbidden authority.
    InvalidAccountData,
    /// The schedule amounts of a create call overflow a `u64`.
    InvalidInstructionData,
    /// The funding token account holds less than the schedule total.
    InsufficientFunds,
    /// The call supplied fewer accounts than the operation reads.
    NotEnoughAccountKeys,
    /// A record that must be initialized is not.
    UninitializedAccount,
    /// A seed does not derive a program address.
    InvalidSeeds,
}

} // verus!

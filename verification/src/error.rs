use vstd::prelude::*;

verus! {

/// The typed failure kinds of the instruction processor. Every abort path
/// returns exactly one of these; no failure is silently swallowed.
///
/// `TransferRejected` reports that the host refused a requested balance
/// mutation (for example, insufficient payer funds); the host then rolls
/// back every mutation of the call. `CounterOverflow` is the documented
/// policy for the greeting counter at the 32-bit boundary: the call aborts
/// rather than wrapping, so a successful greeting call always increments
/// the counter by exactly one.
#[derive(Clone, Copy, Debug, PartialEq, Eq, Structural)]
pub enum InstructionError {
    MissingRequiredSignature,
    IncorrectProgramId,
    InvalidInstructionData,
    NotEnoughAccountKeys,
    StateDeserializationError,
    CounterOverflow,
    TransferRejected,
}

} // verus!

use vstd::prelude::*;

verus! {

/// Errors surfaced by the codec, the instruction protocol and the processor.
///
/// Every error is detected at the point of violation and returned at once;
/// no partial mutation of the topic buffer is ever committed.
#[derive(Clone, Copy, Debug, PartialEq, Eq, Structural)]
pub enum TopicError {
    /// The account buffer has the wrong length or holds an out-of-range
    /// occupancy count.
    MalformedRecord,
    /// The instruction stream is empty, carries an unknown tag, or carries a
    /// payload that cannot be a name.
    InvalidInstructionData,
    /// The account is not owned by the program, or the acting identity does
    /// not match the topic's recorded owner.
    IllegalOwner,
    /// The acting identity lacks authenticated-signer status.
    MissingRequiredSignature,
    /// CreateTopic was invoked on a topic whose name is already set.
    AlreadyInitialized,
    /// The operation needs an open topic, but the topic is uninitialized or
    /// already finished.
    InvalidAccountData,
    /// The topic already holds as many options as it can.
    TooManyOptions,
    /// The option already holds as many voters as it can.
    TooManyVoters,
    /// The vote names an option slot that is not populated.
    InvalidOptionIndex,
    /// A name is longer than its field can hold.
    FieldTooLong,
}

} // verus!

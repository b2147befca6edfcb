//! The failures a command can report. User errors and precondition errors
//! leave all state unchanged; a transport failure is rolled back by the
//! session before it is surfaced.
use vstd::prelude::*;

verus! {

#[derive(Clone, Copy, Debug, PartialEq, Eq, Structural)]
pub enum CommandError {
    /// Malformed argument: a URL that does not parse, a position that is
    /// not a strictly positive integer, or two equal swap positions.
    InvalidArgument,
    /// A position argument outside 1 ..= queue length.
    PositionOutOfRange,
    /// A player transition taken from a state that does not allow it.
    InvalidState,
    /// A join for a guild whose session is already bound to that very
    /// voice channel.
    AlreadyConnected,
    /// A mutating command for a guild with no live session (no voice
    /// binding).
    PreconditionFailed,
    /// The transport could not resolve the track; the queue keeps the
    /// track and the player reverts, so a retry stays possible.
    NoAudioSource,
}

impl CommandError {
    /// The text a reply surfaces for this failure.
    pub fn description(&self) -> (r: &'static str)
        ensures
            *self is InvalidArgument ==> r@ == "Invalid arguments"@,
            *self is PositionOutOfRange ==> r@ == "Position out of range"@,
            *self is InvalidState ==> r@ == "Invalid player state"@,
            *self is AlreadyConnected ==> r@ == "Already in that voice channel!"@,
            *self is PreconditionFailed ==> r@ == "Not in a voice"@,
            *self is NoAudioSource ==> r@ == "Unable to find audio source"@,
    {
        match self {
            CommandError::InvalidArgument => "Invalid arguments",
            CommandError::PositionOutOfRange => "Position out of range",
            CommandError::InvalidState => "Invalid player state",
            CommandError::AlreadyConnected => "Already in that voice channel!",
            CommandError::PreconditionFailed => "Not in a voice",
            CommandError::NoAudioSource => "Unable to find audio source",
        }
    }
}

} // verus!

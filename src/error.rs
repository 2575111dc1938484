use vstd::prelude::*;

verus! {

/// Why a session could not be configured, planned or driven.
#[derive(Clone, Copy, Debug, PartialEq, Eq, Structural)]
pub enum SessionError {
    /// A session needs at least one participant.
    InvalidParticipantCount,
    /// The tick rate must be positive.
    InvalidTickRate,
    /// The prediction window must be positive.
    InvalidPredictionWindow,
    /// The participant list does not have the configured length.
    ParticipantCountMismatch { expected: usize, found: usize },
    /// No participant is local to this peer.
    NoLocalParticipant,
    /// The slot is out of range, or not a remote one.
    InvalidSlot(usize),
    /// The number of sampled inputs differs from the number of local handles.
    LocalInputCountMismatch { expected: usize, found: usize },
}

} // verus!

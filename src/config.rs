use vstd::prelude::*;

use crate::error::SessionError;

verus! {

/// Simulation ticks per second.
pub const FPS: usize = 60;

/// Participants in the reference deployment.
pub const NUM_PLAYERS: usize = 2;

/// Frames the simulation may run ahead of confirmed remote input.
pub const MAX_PREDICTION_WINDOW: usize = 20;

/// Frames of buffered local input before submission.
pub const INPUT_DELAY: usize = 6;

/// The validated parameters of a synchronized session.
#[derive(Clone, Copy, Debug, PartialEq, Eq, Structural)]
pub struct SessionConfig {
    pub participant_count: usize,
    pub tick_rate: usize,
    pub max_prediction_window: usize,
    pub input_delay: usize,
}

impl SessionConfig {
    /// Every count, rate and window is positive; the input delay may be zero.
    pub open spec fn wf(&self) -> bool {
        self.participant_count > 0 && self.tick_rate > 0 && self.max_prediction_window > 0
    }

    /// Validates the parameters, reporting the first one that is out of range
    /// (participant count, then tick rate, then prediction window).
    pub fn new(
        participant_count: usize,
        tick_rate: usize,
        max_prediction_window: usize,
        input_delay: usize,
    ) -> (r: Result<SessionConfig, SessionError>)
        ensures
            participant_count == 0 ==> r == Err::<SessionConfig, SessionError>(
                SessionError::InvalidParticipantCount,
            ),
            participant_count > 0 && tick_rate == 0 ==> r == Err::<SessionConfig, SessionError>(
                SessionError::InvalidTickRate,
            ),
            participant_count > 0 && tick_rate > 0 && max_prediction_window == 0 ==> r == Err::<
                SessionConfig,
                SessionError,
            >(SessionError::InvalidPredictionWindow),
            participant_count > 0 && tick_rate > 0 && max_prediction_window > 0 ==> r == Ok::<
                SessionConfig,
                SessionError,
            >(
                (SessionConfig { participant_count, tick_rate, max_prediction_window, input_delay }),
            ),
            r is Ok ==> r->Ok_0.wf(),
    {
        if participant_count == 0 {
            return Err(SessionError::InvalidParticipantCount);
        }
        if tick_rate == 0 {
            return Err(SessionError::InvalidTickRate);
        }
        if max_prediction_window == 0 {
            return Err(SessionError::InvalidPredictionWindow);
        }
        Ok(SessionConfig { participant_count, tick_rate, max_prediction_window, input_delay })
    }
}

/// The configuration of the reference deployment for `num_players` participants:
/// `FPS` ticks per second, a prediction window of `MAX_PREDICTION_WINDOW` frames
/// and an input delay of `INPUT_DELAY` frames.
pub fn create_session_builder(num_players: usize) -> (r: Result<SessionConfig, SessionError>)
    ensures
        num_players == 0 <==> r == Err::<SessionConfig, SessionError>(
            SessionError::InvalidParticipantCount,
        ),
        num_players > 0 ==> r == Ok::<SessionConfig, SessionError>(
            (SessionConfig {
                participant_count: num_players,
                tick_rate: FPS,
                max_prediction_window: MAX_PREDICTION_WINDOW,
                input_delay: INPUT_DELAY,
            }),
        ),
{
    SessionConfig::new(num_players, FPS, MAX_PREDICTION_WINDOW, INPUT_DELAY)
}

} // verus!

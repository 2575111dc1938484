use vstd::prelude::*;

use crate::config::{create_session_builder, SessionConfig, FPS, INPUT_DELAY, MAX_PREDICTION_WINDOW, NUM_PLAYERS};
use crate::error::SessionError;
use crate::registry::{
    build_slots, direct_participants, lemma_local_handles_are_local_positions, local_descriptor,
    local_handles,
    slots_match, spec_local_handles, spec_locality_of, LocalHandles, Locality, PlayerSlot,
};

verus! {

/// Everything a rollback session is built from: its configuration, the ordered
/// slots and the handles that are local to this peer.
#[derive(Debug, PartialEq, Eq)]
pub struct SessionPlan {
    pub config: SessionConfig,
    pub slots: Vec<PlayerSlot>,
    pub local: LocalHandles,
}

/// Whether some participant of the list is local.
pub open spec fn has_local(participants: Seq<Locality>) -> bool {
    exists|i: int| 0 <= i < participants.len() && (#[trigger] participants[i]).is_local()
}

/// What a plan built from a configuration and a participant list holds.
pub open spec fn plan_matches(
    p: SessionPlan,
    config: SessionConfig,
    participants: Seq<Locality>,
) -> bool {
    &&& p.config == config
    &&& slots_match(p.slots@, participants)
    &&& p.local.handles@ == spec_local_handles(p.slots@)
}

/// Builds the plan of a session: fails with `ParticipantCountMismatch` unless
/// the list has the configured length, then with `NoLocalParticipant` unless
/// some participant is local.
pub fn plan_session(config: SessionConfig, participants: &Vec<Locality>) -> (r: Result<
    SessionPlan,
    SessionError,
>)
    ensures
        participants@.len() != config.participant_count ==> r == Err::<SessionPlan, SessionError>(
            SessionError::ParticipantCountMismatch {
                expected: config.participant_count,
                found: participants.len(),
            },
        ),
        participants@.len() == config.participant_count && !has_local(participants@) ==> r
            == Err::<SessionPlan, SessionError>(SessionError::NoLocalParticipant),
        participants@.len() == config.participant_count && has_local(participants@) ==> r is Ok,
        r is Ok ==> plan_matches(r->Ok_0, config, participants@),
{
    let slots = match build_slots(participants, config.participant_count) {
        Ok(s) => s,
        Err(e) => {
            return Err(e);
        },
    };
    proof {
        lemma_local_handles_are_local_positions(slots@, participants@);
        let lh = spec_local_handles(slots@);
        if has_local(participants@) {
            let i = choose|i: int| 0 <= i < participants@.len() && (#[trigger] participants@[i]).is_local();
            assert(lh.contains(i as usize));
        } else if lh.len() > 0 {
            let h = lh[0];
            assert(participants@[h as int].is_local());
        }
    }
    let local = match local_handles(&slots) {
        Ok(l) => l,
        Err(e) => {
            return Err(e);
        },
    };
    Ok(SessionPlan { config, slots, local })
}

/// The configuration of the reference deployment for that many participants.
pub open spec fn reference_config(n: usize) -> SessionConfig {
    SessionConfig {
        participant_count: n,
        tick_rate: FPS,
        max_prediction_window: MAX_PREDICTION_WINDOW,
        input_delay: INPUT_DELAY,
    }
}

/// Plans a directly addressed session from its ordered peer descriptors:
/// `localhost` marks the local slot, anything else a remote address. There
/// must be exactly `NUM_PLAYERS` descriptors, one of them local.
pub fn start_session(players: &Vec<String>) -> (r: Result<SessionPlan, SessionError>)
    ensures
        players@.len() != NUM_PLAYERS ==> r == Err::<SessionPlan, SessionError>(
            SessionError::ParticipantCountMismatch {
                expected: NUM_PLAYERS,
                found: players.len(),
            },
        ),
        players@.len() == NUM_PLAYERS ==> (r is Ok <==> exists|i: int|
            0 <= i < players@.len() && (#[trigger] players@[i])@ == local_descriptor()),
        players@.len() == NUM_PLAYERS && r is Err ==> r == Err::<SessionPlan, SessionError>(
            SessionError::NoLocalParticipant,
        ),
        r is Ok ==> r->Ok_0.config == reference_config(NUM_PLAYERS) && r->Ok_0.slots@.len()
            == players@.len() && forall|i: int|
            0 <= i < players@.len() ==> (#[trigger] r->Ok_0.slots@[i]).handle == i
                && r->Ok_0.slots@[i].locality == spec_locality_of(players@[i]),
        r is Ok ==> r->Ok_0.local.handles@ == spec_local_handles(r->Ok_0.slots@),
{
    if players.len() != NUM_PLAYERS {
        return Err(
            SessionError::ParticipantCountMismatch { expected: NUM_PLAYERS, found: players.len() },
        );
    }
    let participants = direct_participants(players);
    let config = match create_session_builder(players.len()) {
        Ok(c) => c,
        Err(e) => {
            return Err(e);
        },
    };
    proof {
        if has_local(participants@) {
            let i = choose|i: int| 0 <= i < participants@.len() && (#[trigger] participants@[i]).is_local();
            assert(players@[i]@ == local_descriptor());
        }
        if exists|i: int|
            0 <= i < players@.len() && (#[trigger] players@[i])@ == local_descriptor() {
            let i = choose|i: int|
                0 <= i < players@.len() && (#[trigger] players@[i])@ == local_descriptor();
            assert(participants@[i].is_local());
        }
    }
    let r = plan_session(config, &participants);
    proof {
        if r is Ok {
            let p = r->Ok_0;
            assert forall|i: int| 0 <= i < players@.len() implies (#[trigger] p.slots@[i]).handle == i
                && p.slots@[i].locality == spec_locality_of(players@[i]) by {
                assert(participants@[i] == spec_locality_of(players@[i]));
            }
        }
    }
    r
}

} // verus!

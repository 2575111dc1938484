use peer_session::config::{create_session_builder, SessionConfig, FPS, INPUT_DELAY, MAX_PREDICTION_WINDOW};
use peer_session::error::SessionError;
use peer_session::plan::{plan_session, start_session};
use peer_session::registry::{build_slots, descriptor_locality, local_handles, Locality};

fn strings(v: &[&str]) -> Vec<String> {
    v.iter().map(|s| s.to_string()).collect()
}

#[test]
fn direct_addressing_assigns_local_and_remote_slots() {
    let plan = start_session(&strings(&["localhost", "203.0.113.5:9000"])).unwrap();
    assert_eq!(plan.slots.len(), 2);
    assert_eq!(plan.slots[0].handle, 0);
    assert_eq!(plan.slots[0].locality, Locality::Local);
    assert_eq!(plan.slots[1].handle, 1);
    assert_eq!(plan.slots[1].locality, Locality::Remote("203.0.113.5:9000".to_string()));
    assert_eq!(plan.local.handles, vec![0]);
    assert_eq!(plan.config.participant_count, 2);
}

#[test]
fn local_slot_may_come_second() {
    let plan = start_session(&strings(&["10.0.0.7:7000", "localhost"])).unwrap();
    assert_eq!(plan.local.handles, vec![1]);
}

#[test]
fn direct_addressing_needs_exactly_two_descriptors() {
    assert_eq!(
        start_session(&strings(&["localhost"])),
        Err(SessionError::ParticipantCountMismatch { expected: 2, found: 1 })
    );
    assert_eq!(
        start_session(&strings(&["localhost", "a:1", "b:2"])),
        Err(SessionError::ParticipantCountMismatch { expected: 2, found: 3 })
    );
}

#[test]
fn direct_addressing_needs_a_local_slot() {
    assert_eq!(
        start_session(&strings(&["a:1", "b:2"])),
        Err(SessionError::NoLocalParticipant)
    );
}

#[test]
fn only_the_exact_word_marks_a_local_slot() {
    assert_eq!(descriptor_locality(&"localhost".to_string()), Locality::Local);
    assert_eq!(
        descriptor_locality(&"Localhost".to_string()),
        Locality::Remote("Localhost".to_string())
    );
    assert_eq!(
        descriptor_locality(&"localhost:80".to_string()),
        Locality::Remote("localhost:80".to_string())
    );
}

#[test]
fn slots_follow_list_order() {
    let ps = vec![
        Locality::Remote("x:1".to_string()),
        Locality::Local,
        Locality::Local,
        Locality::Remote("y:2".to_string()),
    ];
    let slots = build_slots(&ps, 4).unwrap();
    for (i, s) in slots.iter().enumerate() {
        assert_eq!(s.handle, i);
        assert_eq!(s.locality, ps[i]);
    }
    assert_eq!(local_handles(&slots).unwrap().handles, vec![1, 2]);
    assert_eq!(
        build_slots(&ps, 2),
        Err(SessionError::ParticipantCountMismatch { expected: 2, found: 4 })
    );
}

#[test]
fn no_local_slot_is_an_error() {
    let slots = build_slots(&vec![Locality::Remote("x:1".to_string())], 1).unwrap();
    assert_eq!(local_handles(&slots), Err(SessionError::NoLocalParticipant));
}

#[test]
fn reference_configuration() {
    let c = create_session_builder(2).unwrap();
    assert_eq!(
        c,
        SessionConfig {
            participant_count: 2,
            tick_rate: FPS,
            max_prediction_window: MAX_PREDICTION_WINDOW,
            input_delay: INPUT_DELAY
        }
    );
    assert_eq!((FPS, MAX_PREDICTION_WINDOW, INPUT_DELAY), (60, 20, 6));
    assert_eq!(create_session_builder(0), Err(SessionError::InvalidParticipantCount));
}

#[test]
fn configuration_rejects_each_bad_parameter() {
    assert_eq!(SessionConfig::new(0, 60, 8, 2), Err(SessionError::InvalidParticipantCount));
    assert_eq!(SessionConfig::new(2, 0, 8, 2), Err(SessionError::InvalidTickRate));
    assert_eq!(SessionConfig::new(2, 60, 0, 2), Err(SessionError::InvalidPredictionWindow));
    let c = SessionConfig::new(2, 30, 8, 0).unwrap();
    assert_eq!((c.participant_count, c.tick_rate, c.max_prediction_window, c.input_delay), (2, 30, 8, 0));
}

#[test]
fn plan_checks_the_participant_count() {
    let c = SessionConfig::new(3, 60, 8, 2).unwrap();
    assert_eq!(
        plan_session(c, &vec![Locality::Local]),
        Err(SessionError::ParticipantCountMismatch { expected: 3, found: 1 })
    );
}

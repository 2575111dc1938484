use peer_session::config::SessionConfig;
use peer_session::error::SessionError;
use peer_session::plan::{plan_session, SessionPlan};
use peer_session::registry::Locality;
use peer_session::session::{DelayLine, RollbackSession, TickOutcome};

fn plan(window: usize, delay: usize) -> SessionPlan {
    let c = SessionConfig::new(2, 60, window, delay).unwrap();
    plan_session(c, &vec![Locality::Local, Locality::Remote("203.0.113.5:9000".to_string())]).unwrap()
}

fn advanced(r: Result<TickOutcome, SessionError>) -> (usize, Vec<u8>) {
    match r {
        Ok(TickOutcome::Advanced { frame, inputs }) => (frame, inputs),
        other => panic!("expected an advance, got {:?}", other),
    }
}

#[test]
fn input_delay_of_two_submits_the_sample_of_two_ticks_ago() {
    let mut s = RollbackSession::start(&plan(100, 2));
    let samples: Vec<u8> = vec![3, 5, 9, 17, 6];
    for (n, b) in samples.iter().enumerate() {
        let (frame, inputs) = advanced(s.tick(vec![*b]));
        assert_eq!(frame, n);
        if n < 2 {
            assert_eq!(inputs, vec![0]);
        } else {
            assert_eq!(inputs, vec![samples[n - 2]]);
        }
    }
}

#[test]
fn zero_delay_submits_the_sample_itself() {
    let mut s = RollbackSession::start(&plan(100, 0));
    assert_eq!(advanced(s.tick(vec![7])), (0, vec![7]));
    assert_eq!(advanced(s.tick(vec![8])), (1, vec![8]));
}

#[test]
fn stalls_on_the_tick_after_the_prediction_window() {
    let window = 4;
    let mut s = RollbackSession::start(&plan(window, 1));
    for tick in 1..=window {
        let (frame, _) = advanced(s.tick(vec![1]));
        assert_eq!(frame, tick - 1);
    }
    assert_eq!(s.tick(vec![1]), Ok(TickOutcome::PredictionLimitReached));
    assert_eq!(s.tick(vec![2]), Ok(TickOutcome::PredictionLimitReached));
    s.confirm_remote(1);
    let (frame, _) = advanced(s.tick(vec![3]));
    assert_eq!(frame, window);
    assert_eq!(s.tick(vec![4]), Ok(TickOutcome::PredictionLimitReached));
}

#[test]
fn stalled_ticks_do_not_consume_samples() {
    let mut s = RollbackSession::start(&plan(1, 1));
    assert_eq!(advanced(s.tick(vec![5])), (0, vec![0]));
    assert_eq!(s.tick(vec![6]), Ok(TickOutcome::PredictionLimitReached));
    s.confirm_remote(1);
    assert_eq!(advanced(s.tick(vec![7])), (1, vec![5]));
}

#[test]
fn two_runs_with_different_remote_timing_submit_the_same_frames() {
    let samples: Vec<u8> = vec![1, 2, 4, 8, 16, 3, 12, 31];
    let mut fast = RollbackSession::start(&plan(3, 2));
    let mut slow = RollbackSession::start(&plan(3, 2));
    for b in &samples {
        fast.confirm_remote(1000);
        advanced(fast.tick(vec![*b]));
    }
    let mut i = 0;
    let mut confirmed = 0;
    while i < samples.len() {
        match slow.tick(vec![samples[i]]).unwrap() {
            TickOutcome::Advanced { .. } => i += 1,
            TickOutcome::PredictionLimitReached => {
                confirmed += 1;
                slow.confirm_remote(confirmed);
            }
        }
    }
    for f in 0..samples.len() {
        assert_eq!(fast.input_for_frame(f), slow.input_for_frame(f));
    }
    assert_eq!(fast.input_for_frame(5), Some(vec![samples[3]]));
    assert_eq!(fast.input_for_frame(samples.len()), None);
}

#[test]
fn replayed_frames_never_change() {
    let mut s = RollbackSession::start(&plan(100, 2));
    advanced(s.tick(vec![9]));
    advanced(s.tick(vec![10]));
    advanced(s.tick(vec![11]));
    let before = s.input_for_frame(2);
    advanced(s.tick(vec![12]));
    assert_eq!(s.input_for_frame(2), before);
    assert_eq!(before, Some(vec![9]));
}

#[test]
fn wrong_sample_width_is_refused() {
    let mut s = RollbackSession::start(&plan(5, 1));
    assert_eq!(
        s.tick(vec![1, 2]),
        Err(SessionError::LocalInputCountMismatch { expected: 1, found: 2 })
    );
    assert_eq!(s.input_for_frame(0), None);
}

#[test]
fn disconnect_marks_a_remote_slot_inert() {
    let mut s = RollbackSession::start(&plan(5, 1));
    assert!(s.is_active(1));
    assert_eq!(s.disconnect(1), Ok(()));
    assert!(!s.is_active(1));
    assert!(s.is_active(0));
    assert_eq!(s.disconnect(0), Err(SessionError::InvalidSlot(0)));
    assert_eq!(s.disconnect(2), Err(SessionError::InvalidSlot(2)));
    assert!(!s.is_active(2));
}

#[test]
fn delay_line_returns_frames_in_order() {
    let mut d = DelayLine::new(2, 1);
    assert_eq!(d.push(vec![1]), vec![0]);
    assert_eq!(d.push(vec![2]), vec![0]);
    assert_eq!(d.push(vec![3]), vec![1]);
    assert_eq!(d.push(vec![4]), vec![2]);
}

#[test]
fn window_of_twelve_stalls_on_tick_thirteen_only() {
    let mut s = RollbackSession::start(&plan(12, 2));
    for tick in 1..=12usize {
        let (frame, _) = advanced(s.tick(vec![tick as u8]));
        assert_eq!(frame, tick - 1);
    }
    assert_eq!(s.tick(vec![13]), Ok(TickOutcome::PredictionLimitReached));
    assert_eq!(s.input_for_frame(12), None);
    assert_eq!(s.input_for_frame(11), Some(vec![10]));
}

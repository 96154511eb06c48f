//! Tests for the join stream state machine.

use streamjoin::stream_state::{
    advance_eager_join, advance_join_stream, EagerJoinStreamEvent, EagerJoinStreamState,
    JoinStreamEvent, JoinStreamState,
};
use streamjoin::StreamJoinError;

#[test]
fn join_stream_walks_a_full_session() {
    // An unsuitable probe batch keeps pulling probe data.
    let state = advance_join_stream(
        JoinStreamState::PullProbe,
        JoinStreamEvent::ProbeBatch { suitable: false, interval: vec![] },
    )
    .unwrap();
    assert!(matches!(state, JoinStreamState::PullProbe));
    // A suitable one moves to pulling build data within its interval.
    let state = advance_join_stream(
        state,
        JoinStreamEvent::ProbeBatch { suitable: true, interval: vec![] },
    )
    .unwrap();
    assert!(matches!(state, JoinStreamState::PullBuild { .. }));
    // Build batches accumulate until the window is complete.
    let state =
        advance_join_stream(state, JoinStreamEvent::BuildBatch { window_complete: false }).unwrap();
    assert!(matches!(state, JoinStreamState::PullBuild { .. }));
    let state =
        advance_join_stream(state, JoinStreamEvent::BuildBatch { window_complete: true }).unwrap();
    assert!(matches!(state, JoinStreamState::Join));
    // After the join is emitted the driver pulls probe data again.
    let state = advance_join_stream(state, JoinStreamEvent::JoinEmitted).unwrap();
    assert!(matches!(state, JoinStreamState::PullProbe));
    // The probe stream ending winds the join down.
    let state = advance_join_stream(state, JoinStreamEvent::ProbeStreamEnded).unwrap();
    assert!(matches!(state, JoinStreamState::ProbeExhausted));
    let state = advance_join_stream(state, JoinStreamEvent::SideDrained).unwrap();
    assert!(matches!(state, JoinStreamState::BothExhausted { final_result: false }));
    let state = advance_join_stream(state, JoinStreamEvent::FinalEmitted).unwrap();
    assert!(matches!(state, JoinStreamState::BothExhausted { final_result: true }));
    // A finished stream accepts nothing more.
    let res = advance_join_stream(state, JoinStreamEvent::JoinEmitted);
    assert_eq!(res.unwrap_err(), StreamJoinError::Internal);
}

#[test]
fn join_stream_handles_build_exhaustion() {
    let state = advance_join_stream(
        JoinStreamState::PullBuild { interval: vec![] },
        JoinStreamEvent::BuildStreamEnded,
    )
    .unwrap();
    assert!(matches!(state, JoinStreamState::BuildExhausted));
    let state = advance_join_stream(state, JoinStreamEvent::SideDrained).unwrap();
    assert!(matches!(state, JoinStreamState::BothExhausted { final_result: false }));
}

#[test]
fn join_stream_rejects_events_out_of_turn() {
    let res = advance_join_stream(JoinStreamState::PullProbe, JoinStreamEvent::JoinEmitted);
    assert_eq!(res.unwrap_err(), StreamJoinError::Internal);
    let res = advance_join_stream(JoinStreamState::Join, JoinStreamEvent::SideDrained);
    assert_eq!(res.unwrap_err(), StreamJoinError::Internal);
}

#[test]
fn eager_join_alternates_sides_and_drains() {
    let state = advance_eager_join(
        EagerJoinStreamState::PullLeft,
        EagerJoinStreamEvent::BatchProcessed,
    )
    .unwrap();
    assert_eq!(state, EagerJoinStreamState::PullRight);
    let state = advance_eager_join(state, EagerJoinStreamEvent::BatchProcessed).unwrap();
    assert_eq!(state, EagerJoinStreamState::PullLeft);
    let state = advance_eager_join(state, EagerJoinStreamEvent::StreamEnded).unwrap();
    assert_eq!(state, EagerJoinStreamState::LeftExhausted);
    // The surviving side keeps draining until it ends too.
    let state = advance_eager_join(state, EagerJoinStreamEvent::BatchProcessed).unwrap();
    assert_eq!(state, EagerJoinStreamState::LeftExhausted);
    let state = advance_eager_join(state, EagerJoinStreamEvent::StreamEnded).unwrap();
    assert_eq!(state, EagerJoinStreamState::BothExhausted { final_result: false });
    let state = advance_eager_join(state, EagerJoinStreamEvent::FinalEmitted).unwrap();
    assert_eq!(state, EagerJoinStreamState::BothExhausted { final_result: true });
    let res = advance_eager_join(state, EagerJoinStreamEvent::BatchProcessed);
    assert!(res.is_err());
}

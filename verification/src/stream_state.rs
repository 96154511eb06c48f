//! The states of a sliding-window join stream.

use vstd::prelude::*;
use crate::interval::Interval;
use crate::sorted_expr::SortExpr;

verus! {

/// The states a sliding-window join stream moves through. Depending on the
/// current state the driver pulls from one side, joins, or winds down.
#[derive(Debug)]
pub enum JoinStreamState {
    /// Pull data from the probe side until a batch is suitable for interval
    /// calculations, or the probe stream is exhausted.
    PullProbe,
    /// Pull data from the build side until the sliding-window condition is
    /// met against the given interval, or the build stream is exhausted.
    PullBuild { interval: Vec<(SortExpr, Interval)> },
    /// The probe side is completely processed; the buffered build side is
    /// drained and its remaining results emitted.
    ProbeExhausted,
    /// The build side is completely processed; the next step joins what is
    /// buffered.
    BuildExhausted,
    /// Both sides are completely processed. While `final_result` is false
    /// one last pass may still produce output from the build side; after
    /// that the output stream ends.
    BothExhausted { final_result: bool },
    /// Join the current probe batch against the buffered build rows, emit
    /// the adjusted output, prune, and return to pulling probe data.
    Join,
}

/// What the host observed since the last decision: the outcome of the one
/// outside action the current state asked for.
#[derive(Debug)]
pub enum JoinStreamEvent {
    /// A probe batch arrived; the host reports whether it was suitable for
    /// interval calculation and, if so, the shrunk build-side interval it
    /// computed through the interval graph.
    ProbeBatch { suitable: bool, interval: Vec<(SortExpr, Interval)> },
    /// The probe stream ended.
    ProbeStreamEnded,
    /// A build batch arrived and was buffered; the host reports whether the
    /// sliding-window condition now holds.
    BuildBatch { window_complete: bool },
    /// The build stream ended.
    BuildStreamEnded,
    /// The join for the current window was performed and its output batch
    /// emitted, including pruning.
    JoinEmitted,
    /// The remaining buffered rows of the side still open were drained and
    /// their results emitted.
    SideDrained,
    /// The last emit pass over build-side leftovers ran.
    FinalEmitted,
}

/// The state the driver moves to when `event` happens in `state`; an event
/// the state never asks for is an internal error.
pub open spec fn spec_advance_join_stream(state: JoinStreamState, event: JoinStreamEvent) -> Result<
    JoinStreamState,
    crate::StreamJoinError,
> {
    match state {
        JoinStreamState::PullProbe => match event {
            JoinStreamEvent::ProbeBatch { suitable, interval } => if suitable {
                Ok(JoinStreamState::PullBuild { interval })
            } else {
                Ok(JoinStreamState::PullProbe)
            },
            JoinStreamEvent::ProbeStreamEnded => Ok(JoinStreamState::ProbeExhausted),
            _ => Err(crate::StreamJoinError::Internal),
        },
        JoinStreamState::PullBuild { interval } => match event {
            JoinStreamEvent::BuildBatch { window_complete } => if window_complete {
                Ok(JoinStreamState::Join)
            } else {
                Ok(JoinStreamState::PullBuild { interval })
            },
            JoinStreamEvent::BuildStreamEnded => Ok(JoinStreamState::BuildExhausted),
            _ => Err(crate::StreamJoinError::Internal),
        },
        JoinStreamState::Join => match event {
            JoinStreamEvent::JoinEmitted => Ok(JoinStreamState::PullProbe),
            _ => Err(crate::StreamJoinError::Internal),
        },
        JoinStreamState::ProbeExhausted => match event {
            JoinStreamEvent::SideDrained => Ok(
                JoinStreamState::BothExhausted { final_result: false },
            ),
            _ => Err(crate::StreamJoinError::Internal),
        },
        JoinStreamState::BuildExhausted => match event {
            JoinStreamEvent::SideDrained => Ok(
                JoinStreamState::BothExhausted { final_result: false },
            ),
            _ => Err(crate::StreamJoinError::Internal),
        },
        JoinStreamState::BothExhausted { final_result } => if final_result {
            Err(crate::StreamJoinError::Internal)
        } else {
            match event {
                JoinStreamEvent::FinalEmitted => Ok(
                    JoinStreamState::BothExhausted { final_result: true },
                ),
                _ => Err(crate::StreamJoinError::Internal),
            }
        },
    }
}

/// Advances the join stream by one decision. The host performs the outside
/// work the current state asks for — pulling a batch, joining, draining,
/// the final emit — and reports what happened; this function alone decides
/// the next state. A terminal stream (`BothExhausted` with its final result
/// delivered) accepts no further event, and an event the state never asks
/// for is an internal error.
pub fn advance_join_stream(state: JoinStreamState, event: JoinStreamEvent) -> (r: Result<
    JoinStreamState,
    crate::StreamJoinError,
>)
    ensures
        r == spec_advance_join_stream(state, event),
{
    match state {
        JoinStreamState::PullProbe => match event {
            JoinStreamEvent::ProbeBatch { suitable, interval } => if suitable {
                Ok(JoinStreamState::PullBuild { interval })
            } else {
                Ok(JoinStreamState::PullProbe)
            },
            JoinStreamEvent::ProbeStreamEnded => Ok(JoinStreamState::ProbeExhausted),
            _ => Err(crate::StreamJoinError::Internal),
        },
        JoinStreamState::PullBuild { interval } => match event {
            JoinStreamEvent::BuildBatch { window_complete } => if window_complete {
                Ok(JoinStreamState::Join)
            } else {
                Ok(JoinStreamState::PullBuild { interval })
            },
            JoinStreamEvent::BuildStreamEnded => Ok(JoinStreamState::BuildExhausted),
            _ => Err(crate::StreamJoinError::Internal),
        },
        JoinStreamState::Join => match event {
            JoinStreamEvent::JoinEmitted => Ok(JoinStreamState::PullProbe),
            _ => Err(crate::StreamJoinError::Internal),
        },
        JoinStreamState::ProbeExhausted => match event {
            JoinStreamEvent::SideDrained => Ok(
                JoinStreamState::BothExhausted { final_result: false },
            ),
            _ => Err(crate::StreamJoinError::Internal),
        },
        JoinStreamState::BuildExhausted => match event {
            JoinStreamEvent::SideDrained => Ok(
                JoinStreamState::BothExhausted { final_result: false },
            ),
            _ => Err(crate::StreamJoinError::Internal),
        },
        JoinStreamState::BothExhausted { final_result } => if final_result {
            Err(crate::StreamJoinError::Internal)
        } else {
            match event {
                JoinStreamEvent::FinalEmitted => Ok(
                    JoinStreamState::BothExhausted { final_result: true },
                ),
                _ => Err(crate::StreamJoinError::Internal),
            }
        },
    }
}

/// The states of the eager symmetric join stream, used when no filter
/// intervals are usable: the driver alternates sides, processing each batch
/// as it arrives and immediately probing the opposite side.
#[derive(Clone, Copy, Debug, PartialEq, Eq, Structural)]
pub enum EagerJoinStreamState {
    /// Pull the next batch from the left stream.
    PullLeft,
    /// Pull the next batch from the right stream.
    PullRight,
    /// The left stream ended; keep draining the right one.
    LeftExhausted,
    /// The right stream ended; keep draining the left one.
    RightExhausted,
    /// Both streams ended. While `final_result` is false one last pass may
    /// still produce output; after that the output stream ends.
    BothExhausted { final_result: bool },
}

/// What the host observed for the eager join: the outcome of the pull the
/// current state asked for.
#[derive(Clone, Copy, Debug, PartialEq, Eq, Structural)]
pub enum EagerJoinStreamEvent {
    /// A batch arrived on the side being pulled and was processed against
    /// the opposite side.
    BatchProcessed,
    /// The side being pulled ended.
    StreamEnded,
    /// The last emit pass ran.
    FinalEmitted,
}

/// The state the eager driver moves to when `event` happens in `state`; an
/// event the state never asks for is an internal error.
pub open spec fn spec_advance_eager_join(
    state: EagerJoinStreamState,
    event: EagerJoinStreamEvent,
) -> Result<EagerJoinStreamState, crate::StreamJoinError> {
    match state {
        EagerJoinStreamState::PullLeft => match event {
            EagerJoinStreamEvent::BatchProcessed => Ok(EagerJoinStreamState::PullRight),
            EagerJoinStreamEvent::StreamEnded => Ok(EagerJoinStreamState::LeftExhausted),
            _ => Err(crate::StreamJoinError::Internal),
        },
        EagerJoinStreamState::PullRight => match event {
            EagerJoinStreamEvent::BatchProcessed => Ok(EagerJoinStreamState::PullLeft),
            EagerJoinStreamEvent::StreamEnded => Ok(EagerJoinStreamState::RightExhausted),
            _ => Err(crate::StreamJoinError::Internal),
        },
        EagerJoinStreamState::LeftExhausted => match event {
            EagerJoinStreamEvent::BatchProcessed => Ok(EagerJoinStreamState::LeftExhausted),
            EagerJoinStreamEvent::StreamEnded => Ok(
                EagerJoinStreamState::BothExhausted { final_result: false },
            ),
            _ => Err(crate::StreamJoinError::Internal),
        },
        EagerJoinStreamState::RightExhausted => match event {
            EagerJoinStreamEvent::BatchProcessed => Ok(EagerJoinStreamState::RightExhausted),
            EagerJoinStreamEvent::StreamEnded => Ok(
                EagerJoinStreamState::BothExhausted { final_result: false },
            ),
            _ => Err(crate::StreamJoinError::Internal),
        },
        EagerJoinStreamState::BothExhausted { final_result } => if final_result {
            Err(crate::StreamJoinError::Internal)
        } else {
            match event {
                EagerJoinStreamEvent::FinalEmitted => Ok(
                    EagerJoinStreamState::BothExhausted { final_result: true },
                ),
                _ => Err(crate::StreamJoinError::Internal),
            }
        },
    }
}

/// Advances the eager symmetric join by one decision; the host pulls and
/// processes batches and reports what happened.
pub fn advance_eager_join(state: EagerJoinStreamState, event: EagerJoinStreamEvent) -> (r: Result<
    EagerJoinStreamState,
    crate::StreamJoinError,
>)
    ensures
        r == spec_advance_eager_join(state, event),
{
    match state {
        EagerJoinStreamState::PullLeft => match event {
            EagerJoinStreamEvent::BatchProcessed => Ok(EagerJoinStreamState::PullRight),
            EagerJoinStreamEvent::StreamEnded => Ok(EagerJoinStreamState::LeftExhausted),
            _ => Err(crate::StreamJoinError::Internal),
        },
        EagerJoinStreamState::PullRight => match event {
            EagerJoinStreamEvent::BatchProcessed => Ok(EagerJoinStreamState::PullLeft),
            EagerJoinStreamEvent::StreamEnded => Ok(EagerJoinStreamState::RightExhausted),
            _ => Err(crate::StreamJoinError::Internal),
        },
        EagerJoinStreamState::LeftExhausted => match event {
            EagerJoinStreamEvent::BatchProcessed => Ok(EagerJoinStreamState::LeftExhausted),
            EagerJoinStreamEvent::StreamEnded => Ok(
                EagerJoinStreamState::BothExhausted { final_result: false },
            ),
            _ => Err(crate::StreamJoinError::Internal),
        },
        EagerJoinStreamState::RightExhausted => match event {
            EagerJoinStreamEvent::BatchProcessed => Ok(EagerJoinStreamState::RightExhausted),
            EagerJoinStreamEvent::StreamEnded => Ok(
                EagerJoinStreamState::BothExhausted { final_result: false },
            ),
            _ => Err(crate::StreamJoinError::Internal),
        },
        EagerJoinStreamState::BothExhausted { final_result } => if final_result {
            Err(crate::StreamJoinError::Internal)
        } else {
            match event {
                EagerJoinStreamEvent::FinalEmitted => Ok(
                    EagerJoinStreamState::BothExhausted { final_result: true },
                ),
                _ => Err(crate::StreamJoinError::Internal),
            }
        },
    }
}

} // verus!

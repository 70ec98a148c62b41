//! The order of work for a whole video: load, then every frame in order,
//! then assemble. The work itself (decoding, inference, encoding) is done by
//! the caller, who reports each outcome as an event and is told what to do
//! next. Nothing overlaps, nothing is retried, and the first failure ends
//! the job.

use vstd::prelude::*;
use crate::YoloRuntimeError;

verus! {

/// Where the job stands.
#[derive(Debug, Clone, Copy, PartialEq, Eq, Structural)]
pub enum Phase {
    /// Nothing has been asked for yet.
    Idle,
    /// The video is being decoded into memory.
    Loading,
    /// Frame `next` of `frame_count` is being processed; every frame is
    /// `buffer_size` bytes.
    Frames { next: u32, frame_count: u32, buffer_size: usize },
    /// The written frames are being encoded.
    Assembling,
    /// The output video is complete.
    Done,
    /// The job has failed; nothing more will be asked for.
    Failed,
}

/// What happened to one frame.
#[derive(Debug, Clone, Copy, PartialEq, Eq, Structural)]
pub enum FrameOutcome {
    /// Detection ran and the frame was written back.
    Written,
    /// The fetched pixels do not make an image of the video's size.
    BadBuffer,
    /// Detection failed.
    InferenceFailed(YoloRuntimeError),
}

/// What the caller reports.
#[derive(Debug, Clone, Copy, PartialEq, Eq, Structural)]
pub enum Event {
    /// The job is to begin.
    Start,
    /// Loading ended with this status and, on success, these dimensions.
    Loaded { status: i32, width: u32, height: u32, frame_count: u32 },
    /// The frame that was asked for has been dealt with.
    FrameDone(FrameOutcome),
    /// Assembling ended with this status.
    Assembled { status: i32 },
}

/// What the caller is to do next.
#[derive(Debug, Clone, Copy, PartialEq, Eq, Structural)]
pub enum Action {
    LoadVideo,
    /// Fetch frame `index` into a buffer of `buffer_size` bytes, run
    /// detection on it, and write it back.
    ProcessFrame { index: u32, buffer_size: usize },
    AssembleVideo,
    /// Report success.
    Finish,
    /// Report this failure.
    Fail(YoloRuntimeError),
    /// The event does not belong to the current phase and was ignored.
    Ignore,
}

/// Bytes in one RGB24 frame.
pub open spec fn frame_bytes(width: u32, height: u32) -> int {
    width * height * 3
}

/// After a successful load: the first frame if there is one, else straight
/// on to assembling; a frame size beyond the address space is a failed load.
pub open spec fn after_load(width: u32, height: u32, frame_count: u32) -> (Phase, Action) {
    if frame_bytes(width, height) > usize::MAX {
        (Phase::Failed, Action::Fail(YoloRuntimeError::VideoLoad))
    } else if frame_count == 0 {
        (Phase::Assembling, Action::AssembleVideo)
    } else {
        let buffer_size = frame_bytes(width, height) as usize;
        (
            Phase::Frames { next: 0, frame_count, buffer_size },
            Action::ProcessFrame { index: 0, buffer_size },
        )
    }
}

/// The next phase and the next action for every phase and event.
pub open spec fn step_spec(phase: Phase, event: Event) -> (Phase, Action) {
    match (phase, event) {
        (Phase::Idle, Event::Start) => (Phase::Loading, Action::LoadVideo),
        (Phase::Loading, Event::Loaded { status, width, height, frame_count }) => if status != 0 {
            (Phase::Failed, Action::Fail(YoloRuntimeError::VideoLoad))
        } else {
            after_load(width, height, frame_count)
        },
        (Phase::Frames { next, frame_count, buffer_size }, Event::FrameDone(outcome)) => match outcome {
            FrameOutcome::Written => if next + 1 < frame_count {
                (
                    Phase::Frames { next: (next + 1) as u32, frame_count, buffer_size },
                    Action::ProcessFrame { index: (next + 1) as u32, buffer_size },
                )
            } else {
                (Phase::Assembling, Action::AssembleVideo)
            },
            FrameOutcome::BadBuffer => (
                Phase::Failed,
                Action::Fail(YoloRuntimeError::VideoPluginImageWriteError),
            ),
            FrameOutcome::InferenceFailed(e) => (Phase::Failed, Action::Fail(e)),
        },
        (Phase::Assembling, Event::Assembled { status }) => if status != 0 {
            (Phase::Failed, Action::Fail(YoloRuntimeError::VideoAssemble))
        } else {
            (Phase::Done, Action::Finish)
        },
        _ => (phase, Action::Ignore),
    }
}

/// Decides what comes next.
pub fn step(phase: Phase, event: Event) -> (r: (Phase, Action))
    ensures
        r == step_spec(phase, event),
{
    match (phase, event) {
        (Phase::Idle, Event::Start) => (Phase::Loading, Action::LoadVideo),
        (Phase::Loading, Event::Loaded { status, width, height, frame_count }) => {
            if status != 0 {
                return (Phase::Failed, Action::Fail(YoloRuntimeError::VideoLoad));
            }
            assert(width * height <= 0xffff_ffff * 0xffff_ffff) by (nonlinear_arith)
                requires
                    width <= 0xffff_ffff,
                    height <= 0xffff_ffff,
            ;
            let bytes: u128 = (width as u128 * height as u128) * 3;
            if bytes > usize::MAX as u128 {
                (Phase::Failed, Action::Fail(YoloRuntimeError::VideoLoad))
            } else if frame_count == 0 {
                (Phase::Assembling, Action::AssembleVideo)
            } else {
                let buffer_size = bytes as usize;
                (
                    Phase::Frames { next: 0, frame_count, buffer_size },
                    Action::ProcessFrame { index: 0, buffer_size },
                )
            }
        },
        (Phase::Frames { next, frame_count, buffer_size }, Event::FrameDone(outcome)) => {
            match outcome {
                FrameOutcome::Written => {
                    if next < u32::MAX && next + 1 < frame_count {
                        (
                            Phase::Frames { next: next + 1, frame_count, buffer_size },
                            Action::ProcessFrame { index: next + 1, buffer_size },
                        )
                    } else {
                        (Phase::Assembling, Action::AssembleVideo)
                    }
                },
                FrameOutcome::BadBuffer => (
                    Phase::Failed,
                    Action::Fail(YoloRuntimeError::VideoPluginImageWriteError),
                ),
                FrameOutcome::InferenceFailed(e) => (Phase::Failed, Action::Fail(e)),
            }
        },
        (Phase::Assembling, Event::Assembled { status }) => {
            if status != 0 {
                (Phase::Failed, Action::Fail(YoloRuntimeError::VideoAssemble))
            } else {
                (Phase::Done, Action::Finish)
            }
        },
        _ => (phase, Action::Ignore),
    }
}

/// The phase reached from `phase` after `written` frames in a row have been
/// reported as written.
pub open spec fn after_written(phase: Phase, written: nat) -> Phase
    decreases written,
{
    if written == 0 {
        phase
    } else {
        step_spec(
            after_written(phase, (written - 1) as nat),
            Event::FrameDone(FrameOutcome::Written),
        ).0
    }
}

/// Frames are processed one at a time and strictly in order: starting at
/// frame zero, after `k` frames have been written the job is at frame `k`,
/// and after the last one it is assembling.
pub proof fn lemma_frames_in_order(frame_count: u32, buffer_size: usize, k: nat)
    requires
        0 < frame_count,
        k <= frame_count,
    ensures
        after_written(Phase::Frames { next: 0, frame_count, buffer_size }, k) == if k
            < frame_count {
            Phase::Frames { next: k as u32, frame_count, buffer_size }
        } else {
            Phase::Assembling
        },
    decreases k,
{
    if k > 0 {
        lemma_frames_in_order(frame_count, buffer_size, (k - 1) as nat);
    }
}

/// A job that has ended stays ended, whatever is reported.
pub proof fn lemma_ended_stays(phase: Phase, event: Event)
    requires
        phase == Phase::Done || phase == Phase::Failed,
    ensures
        step_spec(phase, event) == (phase, Action::Ignore),
{
}

} // verus!

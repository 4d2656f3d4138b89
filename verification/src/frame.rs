//! Frame lifecycle orchestration.
//!
//! One frame of rendering acquires a swapchain image, opens a command
//! buffer and its render pass, records the render stages in order, and
//! submits the result. The GPU calls themselves are made by the embedding
//! program; `FrameState` carries every decision the engine takes around
//! them: when the swapchain must be recreated, when a frame is abandoned
//! after an error, and when each step of the lifecycle is permitted.

use vstd::prelude::*;

use crate::stage::RenderStage;
use crate::stage::stage_can_enter;

verus! {

/// What acquiring the next swapchain image came to. Acquisition either
/// yields an image (possibly with a hint that the swapchain is suboptimal
/// for the surface) or reports that the swapchain no longer matches the
/// surface and must be recreated.
#[derive(Clone, Copy, Debug, PartialEq, Eq, Structural)]
pub enum AcquireOutcome {
    Acquired { suboptimal: bool },
    OutOfDate,
}

/// What submitting and presenting the finished frame came to: the work was
/// flushed, the swapchain was found out of date, or the flush failed for
/// another reason.
#[derive(Clone, Copy, Debug, PartialEq, Eq, Structural)]
pub enum FlushOutcome {
    Flushed,
    OutOfDate,
    Failed,
}

/// The engine's view of one frame in flight.
///
/// * `stage`: where in the render pass ordering the frame stands.
/// * `should_recreate_swapchain`: a window change or an out-of-date
///   acquisition has invalidated the swapchain.
/// * `render_error`: this frame failed to acquire or present; the rest of
///   its recording is skipped.
/// * `commands_open`: a command buffer with an open render pass is being
///   recorded.
/// * `acquired`: a swapchain image is held for this frame.
/// * `synced`: the marker future for the previous frame's completion is in
///   place, so a new frame may wait on it.
#[derive(Clone, Copy, Debug, PartialEq, Eq, Structural)]
pub struct FrameState {
    pub stage: RenderStage,
    pub should_recreate_swapchain: bool,
    pub render_error: bool,
    pub commands_open: bool,
    pub acquired: bool,
    pub synced: bool,
}

impl FrameState {
    /// The state of a freshly built renderer: stopped, synchronized with
    /// nothing in flight, and with no error or recreation pending.
    pub fn new() -> (s: FrameState)
        ensures
            s == (FrameState {
                stage: RenderStage::Stopped,
                should_recreate_swapchain: false,
                render_error: false,
                commands_open: false,
                acquired: false,
                synced: true,
            }),
    {
        FrameState {
            stage: RenderStage::Stopped,
            should_recreate_swapchain: false,
            render_error: false,
            commands_open: false,
            acquired: false,
            synced: true,
        }
    }

    /// Decisions taken while a frame starts: whether the camera must be
    /// (re)configured with the window dimensions, and whether the
    /// size-dependent resources must be rebuilt first. The camera is
    /// configured when it never was, and again whenever the swapchain is
    /// about to be recreated.
    pub fn plan_frame_setup(&self, camera_configured: bool) -> (r: (bool, bool))
        ensures
            r.0 == (!camera_configured || self.should_recreate_swapchain),
            r.1 == self.should_recreate_swapchain,
    {
        (!camera_configured || self.should_recreate_swapchain, self.should_recreate_swapchain)
    }

    /// Begins a frame from the outcome of acquiring the next swapchain
    /// image. Requires the previous frame's completion marker to be in
    /// place and no command buffer to be open, as starting violates both.
    /// An out-of-date acquisition abandons the frame and schedules
    /// swapchain recreation; a successful one holds the image and opens
    /// the render pass. A suboptimal hint is tolerated and changes
    /// nothing.
    pub fn begin_frame(&mut self, outcome: AcquireOutcome)
        requires
            old(self).synced,
            !old(self).commands_open,
        ensures
            match outcome {
                AcquireOutcome::OutOfDate => *final(self) == (FrameState {
                    should_recreate_swapchain: true,
                    render_error: true,
                    ..*old(self)
                }),
                AcquireOutcome::Acquired { .. } => *final(self) == (FrameState {
                    acquired: true,
                    commands_open: true,
                    ..*old(self)
                }),
            },
    {
        match outcome {
            AcquireOutcome::OutOfDate => {
                self.should_recreate_swapchain = true;
                self.render_error = true;
            },
            AcquireOutcome::Acquired { suboptimal: _ } => {
                self.acquired = true;
                self.commands_open = true;
            },
        }
    }

    /// Records one render pass of the current frame, returning whether the
    /// pass's draw commands should actually be recorded. A frame that
    /// failed to start skips every pass and reports `false`; otherwise the
    /// stage advances, which demands an open render pass and a transition
    /// the stage ordering allows.
    pub fn record_pass(&mut self, target: RenderStage) -> (recorded: bool)
        requires
            target != RenderStage::Stopped,
            old(self).render_error || (old(self).commands_open && stage_can_enter(
                old(self).stage,
                target,
            )),
        ensures
            recorded == !old(self).render_error,
            *final(self) == (FrameState {
                stage: if old(self).render_error {
                    old(self).stage
                } else {
                    target
                },
                ..*old(self)
            }),
    {
        if self.render_error {
            false
        } else {
            self.stage.update(target);
            true
        }
    }

    /// Finishes the frame from the outcome of submitting and presenting
    /// it. A frame that failed to start is simply dropped. Otherwise the
    /// frame must have reached a stage from which submission is legal; the
    /// command buffer and the held image are given up either way, the
    /// completion marker is replaced, and a failed flush marks the frame
    /// as errored while scheduling nothing further.
    pub fn finish_frame(&mut self, outcome: FlushOutcome)
        requires
            old(self).render_error || (old(self).commands_open && old(self).acquired && old(
                self,
            ).synced && stage_can_enter(old(self).stage, RenderStage::Stopped)),
        ensures
            old(self).render_error ==> *final(self) == *old(self),
            !old(self).render_error ==> *final(self) == (FrameState {
                stage: RenderStage::Stopped,
                render_error: outcome != FlushOutcome::Flushed,
                commands_open: false,
                acquired: false,
                synced: true,
                ..*old(self)
            }),
    {
        if self.render_error {
            return ;
        }
        self.stage.update(RenderStage::Stopped);
        self.commands_open = false;
        self.acquired = false;
        self.synced = true;
        match outcome {
            FlushOutcome::Flushed => {},
            FlushOutcome::OutOfDate | FlushOutcome::Failed => {
                self.render_error = true;
            },
        }
    }
}

} // verus!

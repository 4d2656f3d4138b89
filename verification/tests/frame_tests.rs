use rhyolite::frame::{AcquireOutcome, FlushOutcome, FrameState};
use rhyolite::stage::RenderStage;

#[test]
fn frame_initial_state() {
    let fs = FrameState::new();
    assert_eq!(fs.stage, RenderStage::Stopped);
    assert!(!fs.should_recreate_swapchain);
    assert!(!fs.render_error);
    assert!(!fs.commands_open);
    assert!(!fs.acquired);
    assert!(fs.synced);
}

#[test]
fn frame_setup_plan() {
    let fs = FrameState::new();
    assert_eq!(fs.plan_frame_setup(false), (true, false));
    assert_eq!(fs.plan_frame_setup(true), (false, false));
    let mut invalidated = FrameState::new();
    invalidated.should_recreate_swapchain = true;
    assert_eq!(invalidated.plan_frame_setup(true), (true, true));
}

#[test]
fn frame_full_cycle() {
    let mut fs = FrameState::new();
    fs.begin_frame(AcquireOutcome::Acquired { suboptimal: false });
    assert!(fs.commands_open && fs.acquired);
    assert!(fs.record_pass(RenderStage::Albedo));
    assert!(fs.record_pass(RenderStage::Albedo));
    assert!(fs.record_pass(RenderStage::Ambient));
    assert!(fs.record_pass(RenderStage::Point));
    assert!(fs.record_pass(RenderStage::Unlit));
    fs.finish_frame(FlushOutcome::Flushed);
    assert_eq!(fs.stage, RenderStage::Stopped);
    assert!(!fs.commands_open && !fs.acquired && fs.synced);
    assert!(!fs.render_error);
}

#[test]
fn frame_suboptimal_acquire_is_tolerated() {
    let mut fs = FrameState::new();
    fs.begin_frame(AcquireOutcome::Acquired { suboptimal: true });
    assert!(!fs.render_error);
    assert!(!fs.should_recreate_swapchain);
    assert!(fs.commands_open && fs.acquired);
}

#[test]
fn frame_out_of_date_acquire_abandons_frame() {
    let mut fs = FrameState::new();
    fs.begin_frame(AcquireOutcome::OutOfDate);
    assert!(fs.render_error);
    assert!(fs.should_recreate_swapchain);
    assert!(!fs.commands_open);
    // Every pass of the abandoned frame is skipped without a stage change.
    assert!(!fs.record_pass(RenderStage::Albedo));
    assert!(!fs.record_pass(RenderStage::Ambient));
    assert_eq!(fs.stage, RenderStage::Stopped);
    // Finishing the abandoned frame changes nothing either.
    let before = fs;
    fs.finish_frame(FlushOutcome::Flushed);
    assert_eq!(fs, before);
}

#[test]
fn frame_failed_flush_marks_error() {
    let mut fs = FrameState::new();
    fs.begin_frame(AcquireOutcome::Acquired { suboptimal: false });
    fs.record_pass(RenderStage::Albedo);
    fs.record_pass(RenderStage::Ambient);
    fs.finish_frame(FlushOutcome::OutOfDate);
    assert!(fs.render_error);
    assert_eq!(fs.stage, RenderStage::Stopped);
    assert!(fs.synced);

    let mut fs2 = FrameState::new();
    fs2.begin_frame(AcquireOutcome::Acquired { suboptimal: false });
    fs2.record_pass(RenderStage::Albedo);
    fs2.record_pass(RenderStage::Ambient);
    fs2.finish_frame(FlushOutcome::Failed);
    assert!(fs2.render_error);
}

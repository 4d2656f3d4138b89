use rhyolite::events::{EventLoopState, LoopEvent};

#[test]
fn events_close_requested_exits() {
    let mut st = EventLoopState::new();
    let a = st.handle_event(LoopEvent::CloseRequested);
    assert!(a.exit);
    assert!(!a.recreate_size_dependent);
    assert!(a.run_handler);
}

#[test]
fn events_resize_rebuilds_resources() {
    let mut st = EventLoopState::new();
    let a = st.handle_event(LoopEvent::Resized);
    assert!(a.recreate_size_dependent && !a.exit);
    let a = st.handle_event(LoopEvent::ScaleFactorChanged);
    assert!(a.recreate_size_dependent);
}

#[test]
fn events_keyboard_and_clock() {
    let mut st = EventLoopState::new();
    let a = st.handle_event(LoopEvent::KeyboardInput);
    assert!(a.update_keyboard && !a.update_time);
    let a = st.handle_event(LoopEvent::RedrawEventsCleared);
    assert!(a.update_time && !a.update_keyboard);
}

#[test]
fn events_occlusion_sleeps_instead_of_rendering() {
    let mut st = EventLoopState::new();
    let a = st.handle_event(LoopEvent::Occluded(true));
    assert!(st.occluded);
    assert!(a.sleep && !a.run_handler);
    // While occluded, every event sleeps the frame away.
    let a = st.handle_event(LoopEvent::Other);
    assert!(a.sleep && !a.run_handler);
    // Becoming visible again resumes the handler.
    let a = st.handle_event(LoopEvent::Occluded(false));
    assert!(!st.occluded);
    assert!(a.run_handler && !a.sleep);
}

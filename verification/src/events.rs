//! Dispatch of window events around the render loop.
//!
//! Each event the window system delivers is answered with a fixed set of
//! actions before the application's own frame handler runs: closing the
//! window asks the loop to exit, a resize or scale change rebuilds the
//! size-dependent resources, a key event updates the keyboard, and the
//! end of a redraw round advances the frame clock. While the window is
//! occluded the handler is skipped and the loop sleeps instead of
//! rendering.

use vstd::prelude::*;

verus! {

/// A window event as the dispatch logic sees it.
#[derive(Clone, Copy, Debug, PartialEq, Eq, Structural)]
pub enum LoopEvent {
    CloseRequested,
    Resized,
    ScaleFactorChanged,
    KeyboardInput,
    Occluded(bool),
    RedrawEventsCleared,
    Other,
}

/// What the render loop does with one event, in order: stop the loop,
/// rebuild the size-dependent resources, feed the key event to the
/// keyboard, advance the frame clock, then either run the frame handler
/// or sleep the frame away.
#[derive(Clone, Copy, Debug, PartialEq, Eq, Structural)]
pub struct LoopActions {
    pub exit: bool,
    pub recreate_size_dependent: bool,
    pub update_keyboard: bool,
    pub update_time: bool,
    pub run_handler: bool,
    pub sleep: bool,
}

/// The state the render loop keeps between events.
#[derive(Clone, Copy, Debug, PartialEq, Eq, Structural)]
pub struct EventLoopState {
    pub occluded: bool,
}

impl EventLoopState {
    /// The loop's state before any event: the window is taken to be
    /// visible.
    pub fn new() -> (s: EventLoopState)
        ensures
            s == (EventLoopState { occluded: false }),
    {
        EventLoopState { occluded: false }
    }

    /// Answers one window event with the actions the render loop takes
    /// for it. Occlusion events update the loop's state; every other
    /// event leaves it alone. The frame handler runs exactly when the
    /// window is not occluded afterwards, and the loop sleeps exactly
    /// when it is.
    pub fn handle_event(&mut self, event: LoopEvent) -> (a: LoopActions)
        ensures
            final(self).occluded == (match event {
                LoopEvent::Occluded(v) => v,
                _ => old(self).occluded,
            }),
            a.exit == (event == LoopEvent::CloseRequested),
            a.recreate_size_dependent == (event == LoopEvent::Resized || event
                == LoopEvent::ScaleFactorChanged),
            a.update_keyboard == (event == LoopEvent::KeyboardInput),
            a.update_time == (event == LoopEvent::RedrawEventsCleared),
            a.sleep == final(self).occluded,
            a.run_handler == !final(self).occluded,
    {
        let mut exit = false;
        let mut recreate_size_dependent = false;
        let mut update_keyboard = false;
        let mut update_time = false;
        match event {
            LoopEvent::CloseRequested => {
                exit = true;
            },
            LoopEvent::Resized | LoopEvent::ScaleFactorChanged => {
                recreate_size_dependent = true;
            },
            LoopEvent::KeyboardInput => {
                update_keyboard = true;
            },
            LoopEvent::Occluded(v) => {
                self.occluded = v;
            },
            LoopEvent::RedrawEventsCleared => {
                update_time = true;
            },
            LoopEvent::Other => {},
        }
        LoopActions {
            exit,
            recreate_size_dependent,
            update_keyboard,
            update_time,
            run_handler: !self.occluded,
            sleep: self.occluded,
        }
    }
}

} // verus!

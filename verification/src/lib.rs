//! Core decision logic of a deferred-shading render engine.
//!
//! The engine records each frame as a fixed sequence of render passes
//! (geometry, ambient light, point lights, unlit geometry), coordinates
//! swapchain acquisition and recreation, and tracks input state. The GPU
//! and windowing work itself happens outside this crate; what is here is
//! every decision the engine makes: which stage transitions are legal,
//! how a frame reacts to acquire and present outcomes, how models are
//! parsed from OBJ face lines, how devices and queue families are chosen,
//! and how keyboard state evolves.

use vstd::prelude::*;

pub mod camera;
pub mod events;
pub mod frame;
pub mod input;
pub mod loader;
pub mod select;
pub mod staging;
pub mod stage;

verus! {

/// Error returned when a component that must first be configured with the
/// window dimensions is used before that configuration has happened.
#[derive(Clone, Debug, PartialEq, Eq)]
pub struct UnconfiguredError(pub &'static str);

impl UnconfiguredError {
    /// The explanatory message carried by this error.
    pub fn message(&self) -> (m: &'static str)
        ensures
            m@ == self.0@,
    {
        self.0
    }
}

} // verus!

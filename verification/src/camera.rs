//! The camera's configuration lifecycle.
//!
//! A camera is built from a transform and projection parameters, but it
//! can only produce view and projection data once it has been configured
//! with the window's dimensions, and its cached view matrix must be
//! recomputed whenever its transform was touched since the last frame.
//! The matrices themselves live outside this crate; what is tracked here
//! is when configuration is demanded, and when the cache is stale.

use vstd::prelude::*;

use crate::UnconfiguredError;

verus! {

/// The message a camera used before its aspect ratio is set fails with.
pub const CAMERA_UNCONFIGURED_MSG: &'static str =
    "Camera not yet configured. Do so with `Camera::configure()` before accessing projection matrix";

/// The configuration lifecycle of a camera: whether the window
/// dimensions have been supplied, and whether the cached view matrix is
/// stale.
#[derive(Clone, Copy, Debug, PartialEq, Eq, Structural)]
pub struct CameraState {
    pub configured: bool,
    pub needs_update: bool,
}

impl CameraState {
    /// A freshly built camera: not yet configured, its view matrix still
    /// to be computed.
    pub fn new() -> (s: CameraState)
        ensures
            s == (CameraState { configured: false, needs_update: true }),
    {
        CameraState { configured: false, needs_update: true }
    }

    /// Supplies the window dimensions. The projection changes, so the
    /// camera's buffered data is stale afterwards.
    pub fn configure(&mut self)
        ensures
            *final(self) == (CameraState { configured: true, needs_update: true }),
    {
        self.configured = true;
        self.needs_update = true;
    }

    /// Records that the camera's transform was handed out mutably, which
    /// forces the view matrix to be recomputed for the next frame.
    pub fn transform_changed(&mut self)
        ensures
            *final(self) == (CameraState { needs_update: true, ..*old(self) }),
    {
        self.needs_update = true;
    }

    /// Whether the camera has been configured with window dimensions.
    pub fn is_configured(&self) -> (r: bool)
        ensures
            r == self.configured,
    {
        self.configured
    }

    /// Decides what producing the view/projection data for a frame does:
    /// whether the view matrix must be recomputed first (after which the
    /// cache is fresh), and whether the data can be produced at all — a
    /// camera never configured has no projection and fails.
    pub fn prepare_view_projection(&mut self) -> (r: Result<bool, UnconfiguredError>)
        ensures
            *final(self) == (CameraState { needs_update: false, ..*old(self) }),
            r is Ok <==> old(self).configured,
            r matches Ok(recompute_view) ==> recompute_view == old(self).needs_update,
            r matches Err(e) ==> e.0@ == CAMERA_UNCONFIGURED_MSG@,
    {
        let recompute_view = self.needs_update;
        self.needs_update = false;
        if self.configured {
            Ok(recompute_view)
        } else {
            Err(UnconfiguredError(CAMERA_UNCONFIGURED_MSG))
        }
    }
}

} // verus!

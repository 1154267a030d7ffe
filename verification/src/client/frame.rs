//! Beginning a frame: what the state of the window surface means for the frame.
use vstd::prelude::*;

verus! {

/// An error returned when a frame cannot begin.
#[derive(Debug, Clone, Copy, PartialEq, Eq)]
pub enum FailedFrame {
    /// Critical error when trying to begin frame.
    Critical,
    /// Surface is outdated and must be reconfigured.
    Outdated,
    /// Frame must be skipped.
    Skip,
}

/// The outcome of acquiring the next texture of the window surface.
#[derive(Debug, Clone, Copy, PartialEq, Eq)]
pub enum SurfaceStatus {
    Success,
    Suboptimal,
    Timeout,
    Occluded,
    Outdated,
    Lost,
    Validation,
}

/// Whether a frame can be drawn on the acquired surface texture: it can on a good or
/// suboptimal texture; a timeout or an occluded window skips the frame, an outdated surface
/// must be reconfigured, and a lost or invalid surface is a critical error.
pub fn surface_frame(status: SurfaceStatus) -> (r: Result<(), FailedFrame>)
    ensures
        r == match status {
            SurfaceStatus::Success | SurfaceStatus::Suboptimal => Ok(()),
            SurfaceStatus::Timeout | SurfaceStatus::Occluded => Err(FailedFrame::Skip),
            SurfaceStatus::Outdated => Err(FailedFrame::Outdated),
            SurfaceStatus::Lost | SurfaceStatus::Validation => Err(FailedFrame::Critical),
        },
{
    match status {
        SurfaceStatus::Success => Ok(()),
        SurfaceStatus::Suboptimal => Ok(()),
        SurfaceStatus::Timeout => Err(FailedFrame::Skip),
        SurfaceStatus::Occluded => Err(FailedFrame::Skip),
        SurfaceStatus::Outdated => Err(FailedFrame::Outdated),
        SurfaceStatus::Lost => Err(FailedFrame::Critical),
        SurfaceStatus::Validation => Err(FailedFrame::Critical),
    }
}

} // verus!

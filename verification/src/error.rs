//! The errors the renderer reports.

use vstd::prelude::*;

verus! {

/// Why a map, a configuration or a camera was refused.
#[derive(Clone, Copy, Debug, PartialEq, Eq, Structural)]
pub enum RenderError {
    /// The image is not laid out as rows of three-byte pixels.
    InvalidImageFormat,
    /// The image has no pixels.
    EmptyMap,
    /// The screen has no rows.
    EmptyScreen,
    /// Fewer than two levels of detail: the march would never sample.
    LodFactorTooSmall,
    /// A zero detail step: the march would never advance.
    ZeroDetail,
    /// The maximum distance does not lie beyond the start of the fog ramp.
    MaxDistanceTooShort,
    /// The field of view is too narrow (or too wide) to give every column a
    /// ray of its own.
    InvalidFieldOfView,
    /// The heading is the zero vector, or a component exceeds one.
    InvalidHeading,
}

} // verus!

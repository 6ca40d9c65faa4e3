//! Why a shape or a renderer could not be built.
use vstd::prelude::*;

verus! {

/// A configuration that is refused at construction, before anything is drawn.
#[derive(Debug, Clone, Copy, PartialEq, Eq)]
pub enum ConfigError {
    /// A viewport with no columns or no rows.
    EmptyViewport,
    /// A viewport whose cells cannot be counted in a `usize`, or whose
    /// columns or rows reach past the `i64` coordinate range.
    ViewportTooLarge,
    /// A rectangle whose width or height is zero or negative.
    NonPositiveSize,
    /// A circle whose radius is zero or negative.
    NonPositiveRadius,
    /// A circle whose bounding box reaches past the `i64` coordinate range.
    OutOfRange,
}

} // verus!

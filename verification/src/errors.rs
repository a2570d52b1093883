//! Failures that the constructors report: a bad configuration is rejected
//! when the engine or a viewport is built, never discovered mid-computation.

use vstd::prelude::*;

verus! {

/// Why a viewport or an engine configuration was rejected.
#[derive(Clone, Copy, Debug, PartialEq, Eq, Structural)]
pub enum ConfigError {
    /// The output grid has zero width.
    ZeroWidth,
    /// The output grid has zero height.
    ZeroHeight,
    /// The grid holds more pixels than an index can address.
    GridTooLarge,
    /// The iteration budget is zero.
    ZeroIterations,
    /// The iteration budget leaves no room for the loop counter.
    IterationBudgetTooLarge,
    /// The escape threshold is not positive or exceeds the coordinate range.
    ThresholdOutOfRange,
    /// The palette does not hold one RGB triple per column of at least one column.
    BadPalette,
    /// A viewport bound lies outside the fixed-point coordinate range.
    CoordinateOutOfRange,
    /// The viewport spans no area on some axis (`re_min >= re_max` or
    /// `im_min >= im_max`): the linear interpolation would be undefined.
    DegenerateViewport,
}

} // verus!

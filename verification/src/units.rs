//! Fixed-point units shared by the whole renderer.
//!
//! A world-space length (a position, a height, a ray step) is an `i64` count
//! of `1 / WORLD_UNIT` world units; one world unit is one texel of a map. A
//! dimensionless factor (a heading component, the field-of-view scale) is an
//! `i64` count of `1 / FACTOR_ONE`. The product of two factors is therefore a
//! world-space length with nothing rounded away.

use vstd::prelude::*;

verus! {

/// Raw value of one world unit.
pub const WORLD_UNIT: i64 = 0x1_0000_0000;

/// Raw value of the factor one.
pub const FACTOR_ONE: i64 = 0x1_0000;

/// Elevation, in raw world units, of one step of a heightmap's red channel:
/// a quarter of a world unit, so that the channel spans 0 to 63.75.
pub const HEIGHT_STEP: i64 = 0x4000_0000;

} // verus!

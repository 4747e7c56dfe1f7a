//! The tunable parameters of the march.

use crate::error::RenderError;
use vstd::prelude::*;

verus! {

/// Distance of the first sample of every column, in world units. Sampling
/// never starts at the eye itself, so the projection never divides by zero.
pub const MIN_DISTANCE: u32 = 15;

/// Distance at which the fog ramp starts, in world units: up to here the
/// terrain is fully opaque.
pub const FOG_START: u32 = 100;

/// How far and how finely a column is marched.
#[derive(Clone, Copy, Debug)]
pub struct RenderConfig {
    max_distance: u32,
    lod_factor: u32,
    detail: u32,
}

/// Whether the three parameters describe a march that samples, advances and
/// has a fog ramp of positive length.
pub open spec fn valid_parameters(max_distance: u32, lod_factor: u32, detail: u32) -> bool {
    &&& lod_factor >= 2
    &&& detail >= 1
    &&& max_distance > FOG_START
}

impl RenderConfig {
    /// The parameters are valid.
    #[verifier::type_invariant]
    pub open spec fn wf(&self) -> bool {
        valid_parameters(self.spec_max_distance(), self.spec_lod_factor(), self.spec_detail())
    }

    /// Distance, in world units, that no sample reaches.
    pub closed spec fn spec_max_distance(&self) -> u32 {
        self.max_distance
    }

    /// One more than the number of levels of detail.
    pub closed spec fn spec_lod_factor(&self) -> u32 {
        self.lod_factor
    }

    /// Step of the finest level of detail, in world units.
    pub closed spec fn spec_detail(&self) -> u32 {
        self.detail
    }

    /// Checks the parameters and keeps them.
    ///
    /// The first fault found, in this order, is reported: fewer than two
    /// levels (`LodFactorTooSmall`), a zero step (`ZeroDetail`), a maximum
    /// distance at or before the start of the fog ramp
    /// (`MaxDistanceTooShort`).
    pub fn new(max_distance: u32, lod_factor: u32, detail: u32) -> (result: Result<
        RenderConfig,
        RenderError,
    >)
        ensures
            match result {
                Ok(cfg) => {
                    &&& valid_parameters(max_distance, lod_factor, detail)
                    &&& cfg.wf()
                    &&& cfg.spec_max_distance() == max_distance
                    &&& cfg.spec_lod_factor() == lod_factor
                    &&& cfg.spec_detail() == detail
                },
                Err(e) => e == if lod_factor < 2 {
                    RenderError::LodFactorTooSmall
                } else if detail == 0 {
                    RenderError::ZeroDetail
                } else {
                    RenderError::MaxDistanceTooShort
                } && !valid_parameters(max_distance, lod_factor, detail),
            },
    {
        if lod_factor < 2 {
            Err(RenderError::LodFactorTooSmall)
        } else if detail == 0 {
            Err(RenderError::ZeroDetail)
        } else if max_distance <= FOG_START {
            Err(RenderError::MaxDistanceTooShort)
        } else {
            Ok(RenderConfig { max_distance, lod_factor, detail })
        }
    }

    /// Distance, in world units, that no sample reaches.
    #[verifier::when_used_as_spec(spec_max_distance)]
    pub fn max_distance(&self) -> (d: u32)
        ensures
            d == self.spec_max_distance(),
            d > FOG_START,
    {
        proof {
            use_type_invariant(self);
        }
        self.max_distance
    }

    /// One more than the number of levels of detail.
    #[verifier::when_used_as_spec(spec_lod_factor)]
    pub fn lod_factor(&self) -> (n: u32)
        ensures
            n == self.spec_lod_factor(),
            n >= 2,
    {
        proof {
            use_type_invariant(self);
        }
        self.lod_factor
    }

    /// Step of the finest level of detail, in world units.
    #[verifier::when_used_as_spec(spec_detail)]
    pub fn detail(&self) -> (n: u32)
        ensures
            n == self.spec_detail(),
            n >= 1,
    {
        proof {
            use_type_invariant(self);
        }
        self.detail
    }
}

} // verus!

//! Distance fog: how opaque a terrain pixel is at a given distance.

use crate::config::{RenderConfig, FOG_START};
use vstd::prelude::*;

verus! {

/// The alpha of a pixel sampled at distance `d`.
///
/// The fog level falls linearly from one at `FOG_START` to zero at
/// `max_distance`; the alpha is the floor of 255 times the level, held to
/// `0..=255`. Nearer than `FOG_START` the level exceeds one, so the alpha is
/// held at 255.
pub open spec fn fog_alpha(max_distance: int, d: int) -> int {
    let level = (255 * (max_distance - d)) / (max_distance - FOG_START);
    if level < 0 {
        0
    } else if level > 255 {
        255
    } else {
        level
    }
}

/// Fog never clears with distance: a farther sample is at most as opaque.
pub proof fn lemma_fog_monotonic(max_distance: int, near: int, far: int)
    requires
        max_distance > FOG_START,
        near <= far,
    ensures
        fog_alpha(max_distance, near) >= fog_alpha(max_distance, far),
{
    vstd::arithmetic::div_mod::lemma_div_is_ordered(
        255 * (max_distance - far),
        255 * (max_distance - near),
        max_distance - FOG_START,
    );
}

/// The ramp's ends: fully opaque where the fog starts, fully transparent at
/// the maximum distance.
pub proof fn lemma_fog_ends(max_distance: int)
    requires
        max_distance > FOG_START,
    ensures
        fog_alpha(max_distance, FOG_START as int) == 255,
        fog_alpha(max_distance, max_distance) == 0,
{
    let span = max_distance - FOG_START;
    vstd::arithmetic::div_mod::lemma_div_multiples_vanish(255, span);
    assert(255 * (max_distance - FOG_START) == span * 255) by (nonlinear_arith)
        requires
            span == max_distance - FOG_START,
    ;
}

/// The alpha of a pixel sampled at distance `d` under `cfg`.
pub fn fog_alpha_at(cfg: &RenderConfig, d: u32) -> (alpha: u8)
    ensures
        alpha == fog_alpha(cfg.spec_max_distance() as int, d as int),
{
    let max_distance = cfg.max_distance();
    if d >= max_distance {
        proof {
            vstd::arithmetic::div_mod::lemma_div_is_ordered(
                255 * (max_distance - d),
                0,
                max_distance - FOG_START,
            );
        }
        0
    } else {
        let level: u64 = (255 * ((max_distance - d) as u64)) / ((max_distance - FOG_START) as u64);
        proof {
            vstd::arithmetic::div_mod::lemma_div_pos_is_pos(
                255 * (max_distance - d),
                max_distance - FOG_START,
            );
        }
        if level > 255 {
            255
        } else {
            level as u8
        }
    }
}

} // verus!

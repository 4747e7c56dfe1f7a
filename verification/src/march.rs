//! The distances at which a column samples the terrain.
//!
//! The march starts at `MIN_DISTANCE` and runs through the levels of detail
//! `1, 2, .., lod_factor - 1`. Level `lod` samples while the distance is
//! below `max_distance / (lod_factor - lod)` and steps by `detail * lod`, so
//! the nearest band is the finest and each later band reaches farther with a
//! longer stride. The distance is not reset between bands.

use crate::config::{RenderConfig, MIN_DISTANCE};
use vstd::prelude::*;

verus! {

/// Whether distance `d` is still inside the band of level `lod`, that is
/// below `max_distance / (lod_factor - lod)`.
pub open spec fn in_band(max_distance: int, lod_factor: int, lod: int, d: int) -> bool {
    d * (lod_factor - lod) < max_distance
}

/// How far `d` is from the maximum distance; zero once it is reached.
pub open spec fn room(max_distance: int, d: int) -> int {
    if d < max_distance {
        max_distance - d
    } else {
        0
    }
}

/// The distances sampled from level `lod` and distance `d` onwards.
pub open spec fn march_from(
    max_distance: int,
    lod_factor: int,
    detail: int,
    lod: int,
    d: int,
) -> Seq<int>
    decreases lod_factor - lod, room(max_distance, d),
{
    if lod < 1 || detail < 1 || d < 0 || lod >= lod_factor {
        Seq::empty()
    } else if in_band(max_distance, lod_factor, lod, d) {
        proof {
            lemma_step_advances(max_distance, lod_factor, detail, lod, d);
        }
        seq![d] + march_from(max_distance, lod_factor, detail, lod, d + detail * lod)
    } else {
        march_from(max_distance, lod_factor, detail, lod + 1, d)
    }
}

/// Inside a band the distance is below the maximum and the step is positive.
pub proof fn lemma_step_advances(max_distance: int, lod_factor: int, detail: int, lod: int, d: int)
    by (nonlinear_arith)
    requires
        1 <= lod < lod_factor,
        detail >= 1,
        d >= 0,
        in_band(max_distance, lod_factor, lod, d),
    ensures
        d < max_distance,
        detail * lod >= 1,
{
}

/// Every distance a column samples under `cfg`, in the order of the march.
pub open spec fn distances(cfg: RenderConfig) -> Seq<int> {
    march_from(
        cfg.spec_max_distance() as int,
        cfg.spec_lod_factor() as int,
        cfg.spec_detail() as int,
        1,
        MIN_DISTANCE as int,
    )
}

/// Each level's band reaches at least as far as the one before it.
pub proof fn lemma_bands_widen(max_distance: int, lod_factor: int, lod: int, d: int)
    by (nonlinear_arith)
    requires
        d >= 0,
        in_band(max_distance, lod_factor, lod, d),
    ensures
        in_band(max_distance, lod_factor, lod + 1, d),
{
}

/// Every distance of a march lies between its starting distance and the
/// maximum distance, and each is farther than the one before.
pub proof fn lemma_march_ordered(
    max_distance: int,
    lod_factor: int,
    detail: int,
    lod: int,
    d: int,
)
    ensures
        forall|k: int|
            0 <= k < march_from(max_distance, lod_factor, detail, lod, d).len() ==> d <= (
            #[trigger] march_from(max_distance, lod_factor, detail, lod, d)[k]) < max_distance,
        forall|j: int, k: int|
            0 <= j < k < march_from(max_distance, lod_factor, detail, lod, d).len() ==> march_from(
                max_distance,
                lod_factor,
                detail,
                lod,
                d,
            )[j] < march_from(max_distance, lod_factor, detail, lod, d)[k],
    decreases lod_factor - lod, room(max_distance, d),
{
    let all = march_from(max_distance, lod_factor, detail, lod, d);
    if lod < 1 || detail < 1 || d < 0 || lod >= lod_factor {
        assert(all.len() == 0);
    } else if in_band(max_distance, lod_factor, lod, d) {
        lemma_step_advances(max_distance, lod_factor, detail, lod, d);
        let rest = march_from(max_distance, lod_factor, detail, lod, d + detail * lod);
        lemma_march_ordered(max_distance, lod_factor, detail, lod, d + detail * lod);
        assert(all =~= seq![d] + rest);
        assert forall|k: int| 0 <= k < all.len() implies d <= #[trigger] all[k] < max_distance by {
            if k > 0 {
                assert(all[k] == rest[k - 1]);
            }
        }
        assert forall|j: int, k: int| 0 <= j < k < all.len() implies all[j] < all[k] by {
            assert(all[k] == rest[k - 1]);
            if j > 0 {
                assert(all[j] == rest[j - 1]);
            }
        }
    } else {
        lemma_march_ordered(max_distance, lod_factor, detail, lod + 1, d);
        assert(all == march_from(max_distance, lod_factor, detail, lod + 1, d));
    }
}

/// The march of a configuration starts no nearer than `MIN_DISTANCE`, never
/// reaches the maximum distance, and only moves away from the eye.
pub proof fn lemma_distances_ordered(cfg: RenderConfig)
    ensures
        forall|k: int|
            0 <= k < distances(cfg).len() ==> MIN_DISTANCE <= (#[trigger] distances(cfg)[k])
                < cfg.spec_max_distance(),
        forall|j: int, k: int|
            0 <= j < k < distances(cfg).len() ==> distances(cfg)[j] < distances(cfg)[k],
{
    lemma_march_ordered(
        cfg.spec_max_distance() as int,
        cfg.spec_lod_factor() as int,
        cfg.spec_detail() as int,
        1,
        MIN_DISTANCE as int,
    );
}

/// A march in progress: the level of detail and the next distance to try.
#[derive(Clone, Copy, Debug)]
pub struct March {
    lod: u32,
    d: u64,
}

impl March {
    /// The level is at least one and the distance at least `MIN_DISTANCE`.
    #[verifier::type_invariant]
    pub closed spec fn wf(&self) -> bool {
        self.lod >= 1 && self.d >= MIN_DISTANCE
    }

    /// The distances still to come when the march goes on under `cfg`.
    pub closed spec fn remaining(&self, cfg: RenderConfig) -> Seq<int> {
        march_from(
            cfg.spec_max_distance() as int,
            cfg.spec_lod_factor() as int,
            cfg.spec_detail() as int,
            self.lod as int,
            self.d as int,
        )
    }

    /// A march at its start: level one, `MIN_DISTANCE`.
    pub fn start() -> (march: March)
        ensures
            march.wf(),
            forall|cfg: RenderConfig| #[trigger] march.remaining(cfg) == distances(cfg),
    {
        March { lod: 1, d: MIN_DISTANCE as u64 }
    }

    /// The next distance to sample, or `None` when the march is over.
    pub fn next_distance(&mut self, cfg: &RenderConfig) -> (next: Option<u32>)
        ensures
            final(self).wf(),
            match next {
                Some(d) => {
                    &&& old(self).remaining(*cfg) == seq![d as int] + final(self).remaining(*cfg)
                    &&& MIN_DISTANCE <= d < cfg.spec_max_distance()
                },
                None => {
                    &&& old(self).remaining(*cfg) == Seq::<int>::empty()
                    &&& final(self).remaining(*cfg) == Seq::<int>::empty()
                },
            },
    {
        proof {
            use_type_invariant(&*self);
        }
        let max_distance = cfg.max_distance();
        let lod_factor = cfg.lod_factor();
        let detail = cfg.detail();
        while self.lod < lod_factor
            invariant
                self.wf(),
                max_distance == cfg.spec_max_distance(),
                lod_factor == cfg.spec_lod_factor(),
                detail == cfg.spec_detail(),
                detail >= 1,
                self.d == old(self).d,
                self.remaining(*cfg) == old(self).remaining(*cfg),
            decreases lod_factor - self.lod,
        {
            let d: u64 = self.d;
            let lod: u32 = self.lod;
            assert(d * (lod_factor - lod) <= 0xffff_ffff_ffff_ffff * 0xffff_ffff) by (nonlinear_arith)
                requires
                    0 <= d <= 0xffff_ffff_ffff_ffff,
                    0 <= lod_factor - lod <= 0xffff_ffff,
            ;
            if (d as u128) * ((lod_factor - lod) as u128) < (max_distance as u128) {
                proof {
                    lemma_step_advances(
                        max_distance as int,
                        lod_factor as int,
                        detail as int,
                        lod as int,
                        d as int,
                    );
                }
                assert(detail * lod <= 0xffff_ffff * 0xffff_ffff) by (nonlinear_arith)
                    requires
                        0 <= detail <= 0xffff_ffff,
                        0 <= lod <= 0xffff_ffff,
                ;
                self.d = d + (detail as u64) * (lod as u64);
                return Some(d as u32);
            }
            self.lod = lod + 1;
        }
        None
    }
}

} // verus!

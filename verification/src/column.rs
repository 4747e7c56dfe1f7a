//! Casting one column: the march, the projection and the painting.
//!
//! A column's pixels are `screen_height` rows of four bytes, top row first:
//! blue, green, red, alpha. Rows that no sample paints keep the bytes they
//! had, so the caller seeds the background before casting.

use crate::arith::floor_div;
use crate::camera::{Camera, Position, Ray};
use crate::config::RenderConfig;
use crate::fog::{fog_alpha, fog_alpha_at};
use crate::march::{distances, March};
use crate::skyline::{
    first_hit, lemma_first_hit_least, lemma_first_hit_push, lemma_first_hit_stable,
    lemma_hit_iff_below_skyline, lemma_skyline_never_falls, lemma_skyline_on_screen,
    lemma_skyline_push, skyline,
};
use crate::terrain_map::{HeightColorMap, RGB};
use crate::units::WORLD_UNIT;
use vstd::prelude::*;

verus! {

/// The texel coordinate, along one axis, under the point at distance `d`
/// from `origin` along a ray that advances by `step` per unit of distance:
/// the floor of `origin + step * d` in world units.
pub open spec fn ground(origin: int, step: int, d: int) -> int {
    (origin + step * d) / (WORLD_UNIT as int)
}

/// The screen row onto which terrain of height `elevation` at distance `d`
/// is projected for an eye at height `eye_y`: the floor of
/// `screen_height - ((elevation - eye_y) * screen_height * 2 / d + screen_height)`,
/// which is the floor of `(eye_y - elevation) * screen_height * 2 / d`.
/// Heights are raw world units, `d` is whole world units.
pub open spec fn screen_row(eye_y: int, elevation: int, screen_height: int, d: int) -> int {
    ((eye_y - elevation) * (2 * screen_height)) / (WORLD_UNIT * d)
}

/// The x coordinate of the texel sampled at distance `d`.
pub open spec fn sample_x(eye: Position, ray: Ray, d: int) -> int {
    ground(eye.x as int, ray.dx as int, d)
}

/// The z coordinate of the texel sampled at distance `d`.
pub open spec fn sample_z(eye: Position, ray: Ray, d: int) -> int {
    ground(eye.z as int, ray.dz as int, d)
}

/// The screen row of the sample at distance `d`.
pub open spec fn sample_row(
    eye: Position,
    ray: Ray,
    screen_height: int,
    heightmap: HeightColorMap,
    d: int,
) -> int {
    screen_row(
        eye.y as int,
        heightmap.elevation(sample_x(eye, ray, d), sample_z(eye, ray, d)),
        screen_height,
        d,
    )
}

/// The screen rows of the samples at the distances `ds`.
pub open spec fn sample_rows(
    eye: Position,
    ray: Ray,
    screen_height: int,
    heightmap: HeightColorMap,
    ds: Seq<int>,
) -> Seq<int> {
    Seq::new(ds.len(), |k: int| sample_row(eye, ray, screen_height, heightmap, ds[k]))
}

/// Byte `channel` of a pixel of the given colour and alpha: blue, green, red,
/// alpha.
pub open spec fn channel_byte(color: RGB, alpha: u8, channel: int) -> u8 {
    if channel == 0 {
        color.b
    } else if channel == 1 {
        color.g
    } else if channel == 2 {
        color.r
    } else {
        alpha
    }
}

/// Byte `channel` of the pixels painted by the sample at distance `d`: the
/// colour map's texel under the sample, with the fog alpha of `d`.
pub open spec fn sample_byte(
    cfg: RenderConfig,
    eye: Position,
    ray: Ray,
    colormap: HeightColorMap,
    d: int,
    channel: int,
) -> u8 {
    channel_byte(
        colormap.texel(sample_x(eye, ray, d), sample_z(eye, ray, d)),
        fog_alpha(cfg.spec_max_distance() as int, d) as u8,
        channel,
    )
}

/// Byte `i` of a column after the samples at the distances `ds`: if a sample
/// hits the byte's row, the byte that the first such sample paints, else the
/// byte that was there before.
pub open spec fn byte_after(
    cfg: RenderConfig,
    eye: Position,
    ray: Ray,
    screen_height: int,
    heightmap: HeightColorMap,
    colormap: HeightColorMap,
    ds: Seq<int>,
    i: int,
    before: u8,
) -> u8 {
    match first_hit(sample_rows(eye, ray, screen_height, heightmap, ds), i / 4) {
        Some(k) => sample_byte(cfg, eye, ray, colormap, ds[k], i % 4),
        None => before,
    }
}

/// A buffer after one column is cast into the `4 * screen_height` bytes that
/// start at `base`. Every other byte is as before.
pub open spec fn column_after(
    cfg: RenderConfig,
    eye: Position,
    ray: Ray,
    screen_height: int,
    heightmap: HeightColorMap,
    colormap: HeightColorMap,
    before: Seq<u8>,
    base: int,
) -> Seq<u8> {
    Seq::new(
        before.len(),
        |i: int|
            if base <= i < base + 4 * screen_height {
                byte_after(
                    cfg,
                    eye,
                    ray,
                    screen_height,
                    heightmap,
                    colormap,
                    distances(cfg),
                    i - base,
                    before[i],
                )
            } else {
                before[i]
            },
    )
}

/// A buffer after the rows `top + 1 ..= bottom` of the column that starts at
/// byte `base` are painted with one colour and alpha.
pub open spec fn span_painted(
    before: Seq<u8>,
    base: int,
    top: int,
    bottom: int,
    color: RGB,
    alpha: u8,
) -> Seq<u8> {
    Seq::new(
        before.len(),
        |i: int|
            if base + 4 * (top + 1) <= i < base + 4 * (bottom + 1) {
                channel_byte(color, alpha, (i - base) % 4)
            } else {
                before[i]
            },
    )
}

/// Paints the rows `top + 1 ..= bottom` of the column that starts at byte
/// `base`, from the bottom up. The column must reach down to row `bottom`.
/// With `top` at or below `bottom` there is no such row, and nothing is
/// painted.
pub fn paint_span(pixels: &mut [u8], base: usize, top: u32, bottom: u32, color: RGB, alpha: u8)
    requires
        base + 4 * (bottom + 1) <= old(pixels)@.len(),
    ensures
        final(pixels)@ == span_painted(
            old(pixels)@,
            base as int,
            top as int,
            bottom as int,
            color,
            alpha,
        ),
{
    let len: usize = pixels.len();
    if top >= bottom {
        assert(pixels@ =~= span_painted(
            old(pixels)@,
            base as int,
            top as int,
            bottom as int,
            color,
            alpha,
        ));
        return ;
    }
    let mut row: u32 = bottom;
    while row > top
        invariant
            top <= row <= bottom,
            base + 4 * (bottom + 1) <= pixels@.len() == len,
            pixels@ == span_painted(
                old(pixels)@,
                base as int,
                row as int,
                bottom as int,
                color,
                alpha,
            ),
        decreases row - top,
    {
        let index: usize = base + (row as usize) * 4;
        let ghost prior = pixels@;
        pixels[index] = color.b;
        pixels[index + 1] = color.g;
        pixels[index + 2] = color.r;
        pixels[index + 3] = alpha;
        row = row - 1;
        assert(pixels@ =~= span_painted(
            old(pixels)@,
            base as int,
            row as int,
            bottom as int,
            color,
            alpha,
        )) by {
            assert forall|i: int| 0 <= i < pixels@.len() implies pixels@[i] == span_painted(
                old(pixels)@,
                base as int,
                row as int,
                bottom as int,
                color,
                alpha,
            )[i] by {
                if index <= i < index + 4 {
                    assert((i - base) % 4 == i - index) by {
                        vstd::arithmetic::div_mod::lemma_fundamental_div_mod_converse(
                            i - base,
                            4,
                            (row + 1) as int,
                            i - index,
                        );
                    }
                } else {
                    assert(pixels@[i] == prior[i]);
                }
            }
        }
    }
    assert(pixels@ =~= span_painted(
        old(pixels)@,
        base as int,
        top as int,
        bottom as int,
        color,
        alpha,
    ));
}

/// The rows of the first samples of a march are the first rows of the march.
proof fn lemma_rows_prefix(
    eye: Position,
    ray: Ray,
    screen_height: int,
    heightmap: HeightColorMap,
    seen: Seq<int>,
    rest: Seq<int>,
)
    ensures
        sample_rows(eye, ray, screen_height, heightmap, seen + rest).take(seen.len() as int)
            == sample_rows(eye, ray, screen_height, heightmap, seen),
{
    assert(sample_rows(eye, ray, screen_height, heightmap, seen + rest).take(seen.len() as int)
        =~= sample_rows(eye, ray, screen_height, heightmap, seen));
}

/// Once the horizon has reached the top row, the samples still to come
/// change nothing: every byte and the skyline are as after the whole march.
proof fn lemma_top_reached(
    cfg: RenderConfig,
    eye: Position,
    ray: Ray,
    screen_height: int,
    heightmap: HeightColorMap,
    colormap: HeightColorMap,
    seen: Seq<int>,
    rest: Seq<int>,
    i: int,
    before: u8,
)
    requires
        screen_height >= 1,
        0 <= i < 4 * screen_height,
        skyline(sample_rows(eye, ray, screen_height, heightmap, seen), screen_height) == 0,
    ensures
        byte_after(cfg, eye, ray, screen_height, heightmap, colormap, seen + rest, i, before)
            == byte_after(cfg, eye, ray, screen_height, heightmap, colormap, seen, i, before),
        skyline(sample_rows(eye, ray, screen_height, heightmap, seen + rest), screen_height) == 0,
{
    let all = sample_rows(eye, ray, screen_height, heightmap, seen + rest);
    let first = sample_rows(eye, ray, screen_height, heightmap, seen);
    let n = seen.len() as int;
    let row = i / 4;
    lemma_rows_prefix(eye, ray, screen_height, heightmap, seen, rest);
    lemma_skyline_never_falls(all, screen_height, n, all.len() as int);
    assert(all.take(all.len() as int) =~= all);
    lemma_skyline_on_screen(all, screen_height);
    lemma_hit_iff_below_skyline(first, screen_height, row);
    lemma_hit_iff_below_skyline(all, screen_height, row);
    if row > 0 {
        lemma_first_hit_stable(all, n, row);
        lemma_first_hit_least(first, row);
    }
}

/// Flat terrain gives a level skyline: over a height map of one elevation
/// the samples of any two rays are projected to the same rows, and if the
/// colour map has one colour too, the two columns end with the same bytes.
pub proof fn lemma_flat_terrain_columns_agree(
    cfg: RenderConfig,
    eye: Position,
    ray: Ray,
    other: Ray,
    screen_height: int,
    heightmap: HeightColorMap,
    colormap: HeightColorMap,
    ds: Seq<int>,
    i: int,
    before: u8,
)
    requires
        forall|x: int, z: int| #[trigger] heightmap.elevation(x, z) == heightmap.elevation(0, 0),
    ensures
        sample_rows(eye, ray, screen_height, heightmap, ds) == sample_rows(
            eye,
            other,
            screen_height,
            heightmap,
            ds,
        ),
        (forall|x: int, z: int| #[trigger] colormap.texel(x, z) == colormap.texel(0, 0))
            ==> byte_after(cfg, eye, ray, screen_height, heightmap, colormap, ds, i, before)
            == byte_after(cfg, eye, other, screen_height, heightmap, colormap, ds, i, before),
{
    let rows = sample_rows(eye, ray, screen_height, heightmap, ds);
    let other_rows = sample_rows(eye, other, screen_height, heightmap, ds);
    assert forall|k: int| 0 <= k < ds.len() implies rows[k] == other_rows[k] by {
        assert(heightmap.elevation(sample_x(eye, ray, ds[k]), sample_z(eye, ray, ds[k]))
            == heightmap.elevation(0, 0));
        assert(heightmap.elevation(sample_x(eye, other, ds[k]), sample_z(eye, other, ds[k]))
            == heightmap.elevation(0, 0));
    }
    assert(rows =~= other_rows);
    if forall|x: int, z: int| #[trigger] colormap.texel(x, z) == colormap.texel(0, 0) {
        match first_hit(rows, i / 4) {
            Some(k) => {
                assert(colormap.texel(sample_x(eye, ray, ds[k]), sample_z(eye, ray, ds[k]))
                    == colormap.texel(0, 0));
                assert(colormap.texel(sample_x(eye, other, ds[k]), sample_z(eye, other, ds[k]))
                    == colormap.texel(0, 0));
            },
            None => {},
        }
    }
}

/// Bounded writes, in terms of the bytes: a column's rows at and above the
/// skyline of its march keep the bytes they had.
pub proof fn lemma_rows_above_skyline_kept(
    cfg: RenderConfig,
    eye: Position,
    ray: Ray,
    screen_height: int,
    heightmap: HeightColorMap,
    colormap: HeightColorMap,
    before: Seq<u8>,
    base: int,
    i: int,
)
    requires
        screen_height >= 1,
        0 <= base <= i < base + 4 * screen_height,
        i < before.len(),
        (i - base) / 4 <= skyline(
            sample_rows(eye, ray, screen_height, heightmap, distances(cfg)),
            screen_height,
        ),
    ensures
        column_after(cfg, eye, ray, screen_height, heightmap, colormap, before, base)[i]
            == before[i],
{
    lemma_hit_iff_below_skyline(
        sample_rows(eye, ray, screen_height, heightmap, distances(cfg)),
        screen_height,
        (i - base) / 4,
    );
}

/// The texel coordinate, along one axis, under the point at distance `d`
/// from `origin` along a ray that advances by `step` per unit of distance.
pub fn texel_coordinate(origin: i64, step: i64, d: u32) -> (texel: i128)
    ensures
        texel == ground(origin as int, step as int, d as int),
{
    assert(-0x8000_0000_0000_0000 * 0xffff_ffff <= step * d <= 0x8000_0000_0000_0000 * 0xffff_ffff)
        by (nonlinear_arith)
        requires
            -0x8000_0000_0000_0000 <= step <= 0x8000_0000_0000_0000,
            0 <= d <= 0xffff_ffff,
    ;
    floor_div((origin as i128) + (step as i128) * (d as i128), WORLD_UNIT as i128)
}

/// The screen row onto which terrain of height `elevation` at distance `d`
/// is projected for an eye at height `eye_y`, on a screen of `screen_height`
/// rows. Rows below zero are above the screen, rows from `screen_height` on
/// are below it.
pub fn projected_row(eye_y: i64, elevation: i64, screen_height: u32, d: u32) -> (row: i128)
    requires
        d > 0,
    ensures
        row == screen_row(eye_y as int, elevation as int, screen_height as int, d as int),
{
    let rise: i128 = (eye_y as i128) - (elevation as i128);
    assert(-0x1_0000_0000_0000_0000 * 0x2_0000_0000 <= rise * (2 * screen_height)
        <= 0x1_0000_0000_0000_0000 * 0x2_0000_0000) by (nonlinear_arith)
        requires
            -0x1_0000_0000_0000_0000 <= rise <= 0x1_0000_0000_0000_0000,
            0 <= 2 * screen_height <= 0x2_0000_0000,
    ;
    assert(0 < WORLD_UNIT * d <= 0x1_0000_0000 * 0xffff_ffff) by (nonlinear_arith)
        requires
            WORLD_UNIT == 0x1_0000_0000,
            0 < d <= 0xffff_ffff,
    ;
    floor_div(rise * (2 * (screen_height as i128)), (WORLD_UNIT as i128) * (d as i128))
}

/// Casts one ray into the column of `screen_height` rows that starts at byte
/// `base` of `pixels`, and returns the skyline it leaves. The screen must
/// have a row, and the column must lie within `pixels`.
///
/// The march stops early once the horizon has reached the top row: no later
/// sample could paint anything.
pub fn cast_ray(
    cfg: &RenderConfig,
    eye: Position,
    ray: Ray,
    screen_height: u32,
    heightmap: &HeightColorMap,
    colormap: &HeightColorMap,
    pixels: &mut [u8],
    base: usize,
) -> (horizon: u32)
    requires
        screen_height >= 1,
        base + 4 * screen_height <= old(pixels)@.len(),
    ensures
        final(pixels)@ == column_after(
            *cfg,
            eye,
            ray,
            screen_height as int,
            *heightmap,
            *colormap,
            old(pixels)@,
            base as int,
        ),
        horizon == skyline(
            sample_rows(eye, ray, screen_height as int, *heightmap, distances(*cfg)),
            screen_height as int,
        ),
        horizon < screen_height,
{
    let ghost before = pixels@;
    let ghost ds = distances(*cfg);
    let ghost sh = screen_height as int;
    let ghost mut seen: Seq<int> = Seq::empty();
    let len: usize = pixels.len();
    let mut march = March::start();
    let mut horizon: u32 = screen_height - 1;
    let mut over: bool = false;
    proof {
        assert(seen + march.remaining(*cfg) =~= ds);
        assert(sample_rows(eye, ray, sh, *heightmap, seen) =~= Seq::<int>::empty());
    }
    while horizon > 0 && !over
        invariant
            march.wf(),
            sh == screen_height >= 1,
            ds == distances(*cfg),
            seen + march.remaining(*cfg) == ds,
            over ==> march.remaining(*cfg).len() == 0,
            horizon == skyline(sample_rows(eye, ray, sh, *heightmap, seen), sh),
            horizon < screen_height,
            base + 4 * screen_height <= len == pixels@.len() == before.len(),
            forall|i: int|
                0 <= i < len ==> #[trigger] pixels@[i] == if base <= i < base + 4 * sh {
                    byte_after(*cfg, eye, ray, sh, *heightmap, *colormap, seen, i - base, before[i])
                } else {
                    before[i]
                },
        decreases march.remaining(*cfg).len() + (if over { 0int } else { 1int }),
    {
        let ghost rows = sample_rows(eye, ray, sh, *heightmap, seen);
        let ghost was = march.remaining(*cfg);
        match march.next_distance(cfg) {
            None => {
                over = true;
            },
            Some(d) => {
                let x: i128 = texel_coordinate(eye.x, ray.dx, d);
                let z: i128 = texel_coordinate(eye.z, ray.dz, d);
                let y: i128 = projected_row(eye.y, heightmap.height_at(x, z), screen_height, d);
                let ghost prior = pixels@;
                if y >= 0 && y < (horizon as i128) {
                    let color = colormap.sample(x, z);
                    let alpha = fog_alpha_at(cfg, d);
                    paint_span(pixels, base, y as u32, horizon, color, alpha);
                    horizon = y as u32;
                }
                proof {
                    let next = seen.push(d as int);
                    let next_rows = sample_rows(eye, ray, sh, *heightmap, next);
                    assert(next_rows =~= rows.push(y as int));
                    lemma_skyline_push(rows, sh, y as int);
                    assert(next + march.remaining(*cfg) =~= seen + was);
                    assert forall|i: int| 0 <= i < len implies #[trigger] pixels@[i] == if base <= i
                        < base + 4 * sh {
                        byte_after(
                            *cfg,
                            eye,
                            ray,
                            sh,
                            *heightmap,
                            *colormap,
                            next,
                            i - base,
                            before[i],
                        )
                    } else {
                        before[i]
                    } by {
                        assert(prior[i] == if base <= i < base + 4 * sh {
                            byte_after(
                                *cfg,
                                eye,
                                ray,
                                sh,
                                *heightmap,
                                *colormap,
                                seen,
                                i - base,
                                before[i],
                            )
                        } else {
                            before[i]
                        });
                        if base <= i < base + 4 * sh {
                            let row = (i - base) / 4;
                            lemma_first_hit_push(rows, row, y as int);
                            lemma_hit_iff_below_skyline(rows, sh, row);
                            lemma_first_hit_least(rows, row);
                        }
                    }
                    seen = next;
                }
            },
        }
    }
    proof {
        assert forall|i: int| 0 <= i < len implies #[trigger] pixels@[i] == column_after(
            *cfg,
            eye,
            ray,
            sh,
            *heightmap,
            *colormap,
            before,
            base as int,
        )[i] by {
            if horizon == 0 {
                if base <= i < base + 4 * sh {
                    lemma_top_reached(
                        *cfg,
                        eye,
                        ray,
                        sh,
                        *heightmap,
                        *colormap,
                        seen,
                        march.remaining(*cfg),
                        i - base,
                        before[i],
                    );
                }
            } else {
                assert(seen =~= ds);
            }
        }
        if horizon == 0 {
            lemma_top_reached(
                *cfg,
                eye,
                ray,
                sh,
                *heightmap,
                *colormap,
                seen,
                march.remaining(*cfg),
                0,
                before[base as int],
            );
        } else {
            assert(seen =~= ds);
        }
        assert(pixels@ =~= column_after(
            *cfg,
            eye,
            ray,
            sh,
            *heightmap,
            *colormap,
            before,
            base as int,
        ));
    }
    horizon
}

/// Casts the ray of column `column_index` of the camera's screen into that
/// column's pixels, and returns the skyline it leaves: the rows below it are
/// the rows that were painted.
///
/// For each distance of the march the terrain under the ray is projected to
/// a screen row. A row of the column ends with the colour and fog alpha of
/// the first sample that is projected above it onto the screen, and keeps
/// its bytes if there is none.
///
/// The column must be one of the screen's, and `out_column_pixels` must hold
/// exactly its `4 * screen_height` bytes.
pub fn cast_column(
    cfg: &RenderConfig,
    camera: &Camera,
    heightmap: &HeightColorMap,
    colormap: &HeightColorMap,
    column_index: u32,
    out_column_pixels: &mut [u8],
) -> (horizon: u32)
    requires
        column_index < camera.spec_screen_width(),
        old(out_column_pixels)@.len() == 4 * camera.spec_screen_height(),
    ensures
        final(out_column_pixels)@ == column_after(
            *cfg,
            camera.spec_eye(),
            camera.ray(column_index as int),
            camera.spec_screen_height() as int,
            *heightmap,
            *colormap,
            old(out_column_pixels)@,
            0,
        ),
        horizon == skyline(
            sample_rows(
                camera.spec_eye(),
                camera.ray(column_index as int),
                camera.spec_screen_height() as int,
                *heightmap,
                distances(*cfg),
            ),
            camera.spec_screen_height() as int,
        ),
        horizon < camera.spec_screen_height(),
{
    let ray = camera.ray_for_column(column_index);
    cast_ray(
        cfg,
        camera.eye(),
        ray,
        camera.screen_height(),
        heightmap,
        colormap,
        out_column_pixels,
        0,
    )
}

} // verus!

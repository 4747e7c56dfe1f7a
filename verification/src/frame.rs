//! Rendering a frame: every column of the screen, each into its own bytes.
//!
//! The frame buffer is a row-major image of four-byte pixels (blue, green,
//! red, alpha) that shows the screen turned a quarter turn: it has
//! `screen_width` rows of `screen_height` pixels, and row `c` of it is column
//! `c` of the screen, top pixel first. So each column is one run of bytes,
//! and the presentation layer turns the image back. Nothing is cleared: rows
//! that a column does not paint keep their bytes, so the caller seeds the
//! background.
//!
//! A column's bytes depend on nothing outside that column, so the columns
//! may be cast in any order, or at the same time.

use crate::camera::Camera;
use crate::column::{byte_after, cast_column, cast_ray, column_after};
use crate::config::RenderConfig;
use crate::march::distances;
use crate::terrain_map::HeightColorMap;
use rayon::iter::{IndexedParallelIterator, ParallelIterator};
use rayon::slice::ParallelSliceMut;
use vstd::prelude::*;

verus! {

/// Bytes of one column of the camera's screen.
pub open spec fn column_bytes(camera: Camera) -> int {
    4 * camera.spec_screen_height()
}

/// Bytes of a frame of the camera's screen.
pub open spec fn frame_bytes(camera: Camera) -> int {
    camera.spec_screen_width() * column_bytes(camera)
}

/// Byte `i` of a rendered frame: byte `i % column_bytes` of column
/// `i / column_bytes`, cast with that column's ray.
pub open spec fn frame_byte(
    cfg: RenderConfig,
    camera: Camera,
    heightmap: HeightColorMap,
    colormap: HeightColorMap,
    i: int,
    before: u8,
) -> u8 {
    byte_after(
        cfg,
        camera.spec_eye(),
        camera.ray(i / column_bytes(camera)),
        camera.spec_screen_height() as int,
        heightmap,
        colormap,
        distances(cfg),
        i % column_bytes(camera),
        before,
    )
}

/// A frame buffer after rendering.
pub open spec fn frame_after(
    cfg: RenderConfig,
    camera: Camera,
    heightmap: HeightColorMap,
    colormap: HeightColorMap,
    before: Seq<u8>,
) -> Seq<u8> {
    Seq::new(
        before.len(),
        |i: int|
            if 0 <= i < frame_bytes(camera) {
                frame_byte(cfg, camera, heightmap, colormap, i, before[i])
            } else {
                before[i]
            },
    )
}

/// A frame buffer after column `column` alone is cast into it.
pub open spec fn frame_with_column(
    cfg: RenderConfig,
    camera: Camera,
    heightmap: HeightColorMap,
    colormap: HeightColorMap,
    before: Seq<u8>,
    column: int,
) -> Seq<u8> {
    column_after(
        cfg,
        camera.spec_eye(),
        camera.ray(column),
        camera.spec_screen_height() as int,
        heightmap,
        colormap,
        before,
        column * column_bytes(camera),
    )
}

/// A frame buffer after the columns listed in `order` are cast into it one
/// after another.
pub open spec fn cast_in_order(
    cfg: RenderConfig,
    camera: Camera,
    heightmap: HeightColorMap,
    colormap: HeightColorMap,
    before: Seq<u8>,
    order: Seq<int>,
) -> Seq<u8>
    decreases order.len(),
{
    if order.len() == 0 {
        before
    } else {
        frame_with_column(
            cfg,
            camera,
            heightmap,
            colormap,
            cast_in_order(cfg, camera, heightmap, colormap, before, order.drop_last()),
            order.last(),
        )
    }
}

/// Byte `i` lies in column `i / n` at offset `i % n`.
proof fn lemma_column_of_byte(i: int, n: int, column: int)
    requires
        n > 0,
    ensures
        (column * n <= i < column * n + n) <==> i / n == column,
        i / n == column ==> i % n == i - column * n,
{
    vstd::arithmetic::div_mod::lemma_fundamental_div_mod(i, n);
    if column * n <= i < column * n + n {
        vstd::arithmetic::div_mod::lemma_fundamental_div_mod_converse(
            i,
            n,
            column,
            i - column * n,
        );
    }
    if i / n == column {
        assert(n * (i / n) == column * n) by (nonlinear_arith)
            requires
                i / n == column,
        ;
    }
}

/// After any columns are cast in any order, a byte of a column that was cast
/// is as in the rendered frame, and every other byte is as before.
proof fn lemma_cast_in_order(
    cfg: RenderConfig,
    camera: Camera,
    heightmap: HeightColorMap,
    colormap: HeightColorMap,
    before: Seq<u8>,
    order: Seq<int>,
)
    requires
        camera.spec_screen_height() >= 1,
        before.len() == frame_bytes(camera),
        forall|k: int| 0 <= k < order.len() ==> 0 <= #[trigger] order[k] < camera.spec_screen_width(),
    ensures
        cast_in_order(cfg, camera, heightmap, colormap, before, order).len() == before.len(),
        forall|i: int|
            0 <= i < before.len() ==> #[trigger] cast_in_order(
                cfg,
                camera,
                heightmap,
                colormap,
                before,
                order,
            )[i] == if order.contains(i / column_bytes(camera)) {
                frame_byte(cfg, camera, heightmap, colormap, i, before[i])
            } else {
                before[i]
            },
    decreases order.len(),
{
    if order.len() > 0 {
        let front = order.drop_last();
        let column = order.last();
        let n = column_bytes(camera);
        let earlier = cast_in_order(cfg, camera, heightmap, colormap, before, front);
        let now = cast_in_order(cfg, camera, heightmap, colormap, before, order);
        lemma_cast_in_order(cfg, camera, heightmap, colormap, before, front);
        assert forall|i: int| 0 <= i < before.len() implies #[trigger] now[i] == if order.contains(
            i / n,
        ) {
            frame_byte(cfg, camera, heightmap, colormap, i, before[i])
        } else {
            before[i]
        } by {
            lemma_column_of_byte(i, n, column);
            assert(order[order.len() - 1] == column);
            if front.contains(i / n) {
                let k = choose|k: int| 0 <= k < front.len() && front[k] == i / n;
                assert(order[k] == i / n);
            }
            if order.contains(i / n) && i / n != column {
                let k = choose|k: int| 0 <= k < order.len() && order[k] == i / n;
                assert(front[k] == i / n);
            }
        }
    }
}

/// Column independence: casting the columns of the screen one after another
/// in any order gives the rendered frame, byte for byte, as long as every
/// column is cast. A column cast more than once changes nothing.
pub proof fn lemma_order_is_immaterial(
    cfg: RenderConfig,
    camera: Camera,
    heightmap: HeightColorMap,
    colormap: HeightColorMap,
    before: Seq<u8>,
    order: Seq<int>,
)
    requires
        camera.wf(),
        before.len() == frame_bytes(camera),
        forall|k: int| 0 <= k < order.len() ==> 0 <= #[trigger] order[k] < camera.spec_screen_width(),
        forall|column: int| 0 <= column < camera.spec_screen_width() ==> order.contains(column),
    ensures
        cast_in_order(cfg, camera, heightmap, colormap, before, order) == frame_after(
            cfg,
            camera,
            heightmap,
            colormap,
            before,
        ),
{
    let n = column_bytes(camera);
    lemma_cast_in_order(cfg, camera, heightmap, colormap, before, order);
    let cast = cast_in_order(cfg, camera, heightmap, colormap, before, order);
    let whole = frame_after(cfg, camera, heightmap, colormap, before);
    assert forall|i: int| 0 <= i < before.len() implies cast[i] == whole[i] by {
        lemma_column_of_byte(i, n, i / n);
        assert(0 <= i / n < camera.spec_screen_width()) by (nonlinear_arith)
            requires
                0 <= i < camera.spec_screen_width() * n,
                n > 0,
                (i / n) * n <= i < (i / n) * n + n,
        ;
    }
    assert(cast =~= whole);
}

/// Renders a frame by casting the columns one after another, first to last.
/// The buffer must hold exactly the frame's `screen_width * screen_height * 4`
/// bytes.
pub fn render_frame(
    cfg: &RenderConfig,
    camera: &Camera,
    heightmap: &HeightColorMap,
    colormap: &HeightColorMap,
    frame_buffer: &mut [u8],
)
    requires
        old(frame_buffer)@.len() == frame_bytes(*camera),
    ensures
        final(frame_buffer)@ == frame_after(
            *cfg,
            *camera,
            *heightmap,
            *colormap,
            old(frame_buffer)@,
        ),
{
    let ghost before = frame_buffer@;
    let width = camera.screen_width();
    let height = camera.screen_height();
    let eye = camera.eye();
    let len: usize = frame_buffer.len();
    if width == 0 {
        assert(width * (4 * height) == 0) by (nonlinear_arith)
            requires
                width == 0,
        ;
        assert(frame_buffer@ =~= frame_after(*cfg, *camera, *heightmap, *colormap, before));
        return ;
    }
    assert(4 * height <= width * (4 * height)) by (nonlinear_arith)
        requires
            width >= 1,
            height >= 0,
    ;
    let n: usize = 4 * (height as usize);
    let mut column: u32 = 0;
    while column < width
        invariant
            0 <= column <= width == camera.spec_screen_width(),
            height == camera.spec_screen_height() >= 1,
            eye == camera.spec_eye(),
            n == column_bytes(*camera),
            len == frame_buffer@.len() == before.len() == frame_bytes(*camera),
            forall|i: int|
                0 <= i < len ==> #[trigger] frame_buffer@[i] == if i < column * n {
                    frame_byte(*cfg, *camera, *heightmap, *colormap, i, before[i])
                } else {
                    before[i]
                },
        decreases width - column,
    {
        assert(column * n + n <= width * n) by (nonlinear_arith)
            requires
                0 <= column < width,
                n >= 0,
        ;
        let base: usize = (column as usize) * n;
        let ray = camera.ray_for_column(column);
        let ghost prior = frame_buffer@;
        cast_ray(cfg, eye, ray, height, heightmap, colormap, frame_buffer, base);
        proof {
            assert forall|i: int| 0 <= i < len implies #[trigger] frame_buffer@[i] == if i < (column
                + 1) * n {
                frame_byte(*cfg, *camera, *heightmap, *colormap, i, before[i])
            } else {
                before[i]
            } by {
                lemma_column_of_byte(i, n as int, column as int);
                assert((column + 1) * n == column * n + n) by (nonlinear_arith);
                assert(prior[i] == if i < column * n {
                    frame_byte(*cfg, *camera, *heightmap, *colormap, i, before[i])
                } else {
                    before[i]
                });
            }
        }
        column = column + 1;
    }
    assert(frame_buffer@ =~= frame_after(*cfg, *camera, *heightmap, *colormap, before));
}

/// Hands the columns of a frame buffer to rayon's thread pool.
///
/// Calls `par_chunks_mut(column_bytes)`, `enumerate` and `for_each` of the
/// crate `rayon`. The body is not verified: the contract is taken on trust.
/// It relies on what the documentation of the three states:
/// the chunks are the consecutive, non-overlapping runs of `column_bytes`
/// bytes of the buffer, `enumerate` pairs each chunk with its index, and
/// `for_each` runs the closure once on every pair and returns when all are
/// done. The buffer is a whole number of columns, so every chunk is a whole
/// column and its index is a column of the screen. The closure is one call
/// of `cast_column`, whose contract fixes the bytes of each chunk; together
/// they give the rendered frame. `par_chunks_mut` panics on a chunk size of
/// zero, which the precondition excludes.
#[verifier::external_body]
fn cast_columns_in_parallel(
    cfg: &RenderConfig,
    camera: &Camera,
    heightmap: &HeightColorMap,
    colormap: &HeightColorMap,
    frame_buffer: &mut [u8],
    column_bytes: usize,
)
    requires
        column_bytes == crate::frame::column_bytes(*camera),
        column_bytes > 0,
        old(frame_buffer)@.len() == frame_bytes(*camera),
    ensures
        final(frame_buffer)@ == frame_after(
            *cfg,
            *camera,
            *heightmap,
            *colormap,
            old(frame_buffer)@,
        ),
{
    frame_buffer.par_chunks_mut(column_bytes).enumerate().for_each(
        |(column, pixels)| {
            cast_column(cfg, camera, heightmap, colormap, column as u32, pixels);
        },
    );
}

/// Renders a frame with the columns shared out among the threads of rayon's
/// pool. The result is the same, byte for byte, as that of `render_frame`.
/// The buffer must hold exactly the frame's
/// `screen_width * screen_height * 4` bytes.
pub fn render_frame_parallel(
    cfg: &RenderConfig,
    camera: &Camera,
    heightmap: &HeightColorMap,
    colormap: &HeightColorMap,
    frame_buffer: &mut [u8],
)
    requires
        old(frame_buffer)@.len() == frame_bytes(*camera),
    ensures
        final(frame_buffer)@ == frame_after(
            *cfg,
            *camera,
            *heightmap,
            *colormap,
            old(frame_buffer)@,
        ),
{
    let ghost before = frame_buffer@;
    let width = camera.screen_width();
    let height = camera.screen_height();
    let len: usize = frame_buffer.len();
    if width == 0 {
        assert(width * (4 * height) == 0) by (nonlinear_arith)
            requires
                width == 0,
        ;
        assert(frame_buffer@ =~= frame_after(*cfg, *camera, *heightmap, *colormap, before));
        return ;
    }
    assert(4 * height <= width * (4 * height)) by (nonlinear_arith)
        requires
            width >= 1,
            height >= 0,
    ;
    cast_columns_in_parallel(
        cfg,
        camera,
        heightmap,
        colormap,
        frame_buffer,
        4 * (height as usize),
    );
}

} // verus!

//! The camera: where the eye is, where it looks, and the ray of each column.
//!
//! A ray is the heading plus a sideways offset that runs linearly from
//! `-fov_scale` at column zero to `+fov_scale` at the last column. The
//! sideways axis is the heading turned a quarter turn from x towards z. The
//! forward part of every ray is the heading itself, so a sample's distance is
//! its depth along the heading. A ray does not depend on the eye.

use crate::arith::floor_div;
use crate::error::RenderError;
use crate::units::FACTOR_ONE;
use vstd::prelude::*;

verus! {

/// Largest field-of-view scale, as a raw factor: a view 256 times as wide on
/// either side as it is deep.
pub const FOV_SCALE_MAX: i64 = 0x100_0000;

/// A point in world space, in raw world units. `y` is the height.
#[derive(Clone, Copy, Debug, PartialEq, Eq, Structural)]
pub struct Position {
    pub x: i64,
    pub y: i64,
    pub z: i64,
}

/// The direction of one column's ray in the ground plane: what the sample
/// point moves by, in raw world units, for each world unit of distance.
#[derive(Clone, Copy, Debug, PartialEq, Eq, Structural)]
pub struct Ray {
    pub dx: i64,
    pub dz: i64,
}

/// A heading is a non-zero vector of two raw factors, neither beyond one in
/// size: the cosine and the sine of the yaw.
pub open spec fn valid_heading(heading_x: i64, heading_z: i64) -> bool {
    &&& -FACTOR_ONE <= heading_x <= FACTOR_ONE
    &&& -FACTOR_ONE <= heading_z <= FACTOR_ONE
    &&& (heading_x != 0 || heading_z != 0)
}

/// The field-of-view scale is within range and wide enough for the sideways
/// offsets of neighbouring columns to differ.
pub open spec fn valid_field_of_view(fov_scale: i64, screen_width: u32) -> bool {
    &&& 0 <= fov_scale <= FOV_SCALE_MAX
    &&& 2 * fov_scale >= screen_width - 1
}

/// The sideways offset of a column, as a raw factor: linear in the column,
/// from `-fov_scale` at column zero to `fov_scale` at the last column, rounded
/// down. A screen of one column looks straight ahead.
pub open spec fn lateral(fov_scale: int, screen_width: int, column: int) -> int {
    if screen_width <= 1 {
        0
    } else {
        (fov_scale * (2 * column - (screen_width - 1))) / (screen_width - 1)
    }
}

/// The x component of the ray with the given sideways offset.
pub open spec fn ray_dx(heading_x: int, heading_z: int, lateral: int) -> int {
    heading_x * FACTOR_ONE - lateral * heading_z
}

/// The z component of the ray with the given sideways offset.
pub open spec fn ray_dz(heading_x: int, heading_z: int, lateral: int) -> int {
    heading_z * FACTOR_ONE + lateral * heading_x
}

/// How far a ray points to the side of a heading: their cross product. For a
/// fixed forward part, a larger value is a larger angle from the heading.
pub open spec fn sideways(heading_x: int, heading_z: int, ray: Ray) -> int {
    ray.dz * heading_x - ray.dx * heading_z
}

/// How far a ray points along a heading: their dot product.
pub open spec fn forward(heading_x: int, heading_z: int, ray: Ray) -> int {
    ray.dx * heading_x + ray.dz * heading_z
}

/// The sideways offset of an on-screen column is no larger than the scale.
pub proof fn lemma_lateral_bounded(fov_scale: int, screen_width: int, column: int)
    requires
        0 <= fov_scale,
        0 <= column < screen_width,
    ensures
        -fov_scale <= lateral(fov_scale, screen_width, column) <= fov_scale,
{
    if screen_width > 1 {
        let m = screen_width - 1;
        let n = 2 * column - m;
        assert(m * (-fov_scale) <= fov_scale * n <= m * fov_scale) by (nonlinear_arith)
            requires
                -m <= n <= m,
                0 <= fov_scale,
        ;
        vstd::arithmetic::div_mod::lemma_div_is_ordered(m * (-fov_scale), fov_scale * n, m);
        vstd::arithmetic::div_mod::lemma_div_is_ordered(fov_scale * n, m * fov_scale, m);
        vstd::arithmetic::div_mod::lemma_div_multiples_vanish(-fov_scale, m);
        vstd::arithmetic::div_mod::lemma_div_multiples_vanish(fov_scale, m);
    }
}

/// With a valid field of view, a column farther right has a strictly larger
/// sideways offset.
pub proof fn lemma_lateral_increases(fov_scale: int, screen_width: int, left: int, right: int)
    requires
        0 <= fov_scale,
        2 * fov_scale >= screen_width - 1,
        0 <= left < right < screen_width,
    ensures
        lateral(fov_scale, screen_width, left) < lateral(fov_scale, screen_width, right),
{
    let m = screen_width - 1;
    let a = fov_scale * (2 * left - m);
    let b = fov_scale * (2 * right - m);
    assert(m + a <= b) by (nonlinear_arith)
        requires
            a == fov_scale * (2 * left - m),
            b == fov_scale * (2 * right - m),
            left < right,
            2 * fov_scale >= m,
            0 <= fov_scale,
    ;
    vstd::arithmetic::div_mod::lemma_div_plus_one(a, m);
    vstd::arithmetic::div_mod::lemma_div_is_ordered(m + a, b, m);
}

/// The viewer.
#[derive(Clone, Copy, Debug)]
pub struct Camera {
    eye: Position,
    heading_x: i64,
    heading_z: i64,
    fov_scale: i64,
    screen_width: u32,
    screen_height: u32,
}

impl Camera {
    /// The screen has a row, the heading is valid, and so is the field of
    /// view for the screen's width.
    #[verifier::type_invariant]
    pub open spec fn wf(&self) -> bool {
        &&& self.spec_screen_height() >= 1
        &&& valid_heading(self.spec_heading_x(), self.spec_heading_z())
        &&& valid_field_of_view(self.spec_fov_scale(), self.spec_screen_width())
    }

    /// Where the eye is.
    pub closed spec fn spec_eye(&self) -> Position {
        self.eye
    }

    /// The x component of the heading, as a raw factor.
    pub closed spec fn spec_heading_x(&self) -> i64 {
        self.heading_x
    }

    /// The z component of the heading, as a raw factor.
    pub closed spec fn spec_heading_z(&self) -> i64 {
        self.heading_z
    }

    /// Half the width of the view at depth one, as a raw factor.
    pub closed spec fn spec_fov_scale(&self) -> i64 {
        self.fov_scale
    }

    /// Columns of the screen.
    pub closed spec fn spec_screen_width(&self) -> u32 {
        self.screen_width
    }

    /// Rows of the screen.
    pub closed spec fn spec_screen_height(&self) -> u32 {
        self.screen_height
    }

    /// The ray of a column.
    pub open spec fn ray(&self, column: int) -> Ray {
        let side = lateral(self.spec_fov_scale() as int, self.spec_screen_width() as int, column);
        Ray {
            dx: ray_dx(self.spec_heading_x() as int, self.spec_heading_z() as int, side) as i64,
            dz: ray_dz(self.spec_heading_x() as int, self.spec_heading_z() as int, side) as i64,
        }
    }

    /// The components of an on-screen column's ray fit their type: the ray is
    /// exactly the heading plus the sideways offset along the sideways axis.
    pub proof fn lemma_ray_exact(&self, column: int)
        requires
            self.wf(),
            0 <= column < self.spec_screen_width(),
        ensures
            self.ray(column).dx == ray_dx(
                self.spec_heading_x() as int,
                self.spec_heading_z() as int,
                lateral(self.spec_fov_scale() as int, self.spec_screen_width() as int, column),
            ),
            self.ray(column).dz == ray_dz(
                self.spec_heading_x() as int,
                self.spec_heading_z() as int,
                lateral(self.spec_fov_scale() as int, self.spec_screen_width() as int, column),
            ),
    {
        let side = lateral(self.fov_scale as int, self.screen_width as int, column);
        lemma_lateral_bounded(self.fov_scale as int, self.screen_width as int, column);
        let hx = self.heading_x as int;
        let hz = self.heading_z as int;
        assert(-0x100_0000 * 0x1_0000 <= side * hz <= 0x100_0000 * 0x1_0000 && -0x100_0000 * 0x1_0000
            <= side * hx <= 0x100_0000 * 0x1_0000) by (nonlinear_arith)
            requires
                -0x100_0000 <= side <= 0x100_0000,
                -0x1_0000 <= hx <= 0x1_0000,
                -0x1_0000 <= hz <= 0x1_0000,
        ;
    }

    /// A ray is a function of the heading, the field of view, the screen's
    /// width and the column: cameras that differ only in where the eye is,
    /// or in the screen's height, cast the same rays.
    pub proof fn lemma_ray_ignores_eye(&self, other: Camera, column: int)
        requires
            self.spec_heading_x() == other.spec_heading_x(),
            self.spec_heading_z() == other.spec_heading_z(),
            self.spec_fov_scale() == other.spec_fov_scale(),
            self.spec_screen_width() == other.spec_screen_width(),
        ensures
            self.ray(column) == other.ray(column),
    {
    }

    /// Ray order: for a fixed heading, the ray of a column farther right
    /// points strictly farther to the side, while every ray points equally
    /// far forward, and forward by a positive amount. No two columns share a
    /// direction, and directions are ordered as the columns are.
    pub proof fn lemma_rays_ordered(&self, left: int, right: int)
        requires
            self.wf(),
            0 <= left < right < self.spec_screen_width(),
        ensures
            sideways(self.spec_heading_x() as int, self.spec_heading_z() as int, self.ray(left))
                < sideways(self.spec_heading_x() as int, self.spec_heading_z() as int, self.ray(right)),
            forward(self.spec_heading_x() as int, self.spec_heading_z() as int, self.ray(left))
                == forward(self.spec_heading_x() as int, self.spec_heading_z() as int, self.ray(right)),
            forward(self.spec_heading_x() as int, self.spec_heading_z() as int, self.ray(left)) > 0,
    {
        let hx = self.heading_x as int;
        let hz = self.heading_z as int;
        let a = lateral(self.fov_scale as int, self.screen_width as int, left);
        let b = lateral(self.fov_scale as int, self.screen_width as int, right);
        self.lemma_ray_exact(left);
        self.lemma_ray_exact(right);
        lemma_lateral_increases(self.fov_scale as int, self.screen_width as int, left, right);
        let one = FACTOR_ONE as int;
        assert((hz * one + a * hx) * hx - (hx * one - a * hz) * hz < (hz * one + b * hx) * hx - (hx
            * one - b * hz) * hz) by (nonlinear_arith)
            requires
                a < b,
                hx != 0 || hz != 0,
        ;
        assert((hx * one - a * hz) * hx + (hz * one + a * hx) * hz == (hx * one - b * hz) * hx + (hz
            * one + b * hx) * hz && (hx * one - a * hz) * hx + (hz * one + a * hx) * hz > 0)
            by (nonlinear_arith)
            requires
                hx != 0 || hz != 0,
                one > 0,
        ;
    }

    /// A camera at `eye` that looks along the x axis.
    ///
    /// Fails with `EmptyScreen` when the screen has no rows, and otherwise
    /// with `InvalidFieldOfView` when the scale is negative, above
    /// `FOV_SCALE_MAX`, or too small for `screen_width` columns to have
    /// distinct rays.
    pub fn new(eye: Position, fov_scale: i64, screen_width: u32, screen_height: u32) -> (result:
        Result<Camera, RenderError>)
        ensures
            match result {
                Ok(camera) => {
                    &&& screen_height >= 1
                    &&& valid_field_of_view(fov_scale, screen_width)
                    &&& camera.wf()
                    &&& camera.spec_eye() == eye
                    &&& camera.spec_heading_x() == FACTOR_ONE
                    &&& camera.spec_heading_z() == 0
                    &&& camera.spec_fov_scale() == fov_scale
                    &&& camera.spec_screen_width() == screen_width
                    &&& camera.spec_screen_height() == screen_height
                },
                Err(e) => if screen_height == 0 {
                    e == RenderError::EmptyScreen
                } else {
                    !valid_field_of_view(fov_scale, screen_width) && e
                        == RenderError::InvalidFieldOfView
                },
            },
    {
        if screen_height == 0 {
            Err(RenderError::EmptyScreen)
        } else if fov_scale < 0 || fov_scale > FOV_SCALE_MAX || 2 * fov_scale < (screen_width as i64)
            - 1 {
            Err(RenderError::InvalidFieldOfView)
        } else {
            Ok(
                Camera {
                    eye,
                    heading_x: FACTOR_ONE,
                    heading_z: 0,
                    fov_scale,
                    screen_width,
                    screen_height,
                },
            )
        }
    }

    /// Moves the eye.
    pub fn set_eye(&mut self, eye: Position)
        ensures
            final(self).wf(),
            final(self).spec_eye() == eye,
            final(self).spec_heading_x() == old(self).spec_heading_x(),
            final(self).spec_heading_z() == old(self).spec_heading_z(),
            final(self).spec_fov_scale() == old(self).spec_fov_scale(),
            final(self).spec_screen_width() == old(self).spec_screen_width(),
            final(self).spec_screen_height() == old(self).spec_screen_height(),
    {
        proof {
            use_type_invariant(&*self);
        }
        self.eye = eye;
    }

    /// Turns the camera to the heading `(cos, sin)` of a yaw, given as raw
    /// factors.
    ///
    /// Fails with `InvalidHeading`, and leaves the camera as it was, when the
    /// heading is not valid.
    pub fn set_heading(&mut self, cos: i64, sin: i64) -> (result: Result<(), RenderError>)
        ensures
            final(self).wf(),
            final(self).spec_eye() == old(self).spec_eye(),
            final(self).spec_fov_scale() == old(self).spec_fov_scale(),
            final(self).spec_screen_width() == old(self).spec_screen_width(),
            final(self).spec_screen_height() == old(self).spec_screen_height(),
            match result {
                Ok(()) => {
                    &&& valid_heading(cos, sin)
                    &&& final(self).spec_heading_x() == cos
                    &&& final(self).spec_heading_z() == sin
                },
                Err(e) => {
                    &&& !valid_heading(cos, sin)
                    &&& e == RenderError::InvalidHeading
                    &&& *final(self) == *old(self)
                },
            },
    {
        proof {
            use_type_invariant(&*self);
        }
        if cos < -FACTOR_ONE || cos > FACTOR_ONE || sin < -FACTOR_ONE || sin > FACTOR_ONE || (cos == 0
            && sin == 0) {
            Err(RenderError::InvalidHeading)
        } else {
            *self = Camera {
                eye: self.eye,
                heading_x: cos,
                heading_z: sin,
                fov_scale: self.fov_scale,
                screen_width: self.screen_width,
                screen_height: self.screen_height,
            };
            Ok(())
        }
    }

    /// Where the eye is.
    #[verifier::when_used_as_spec(spec_eye)]
    pub fn eye(&self) -> (eye: Position)
        ensures
            eye == self.spec_eye(),
    {
        self.eye
    }

    /// Columns of the screen.
    #[verifier::when_used_as_spec(spec_screen_width)]
    pub fn screen_width(&self) -> (width: u32)
        ensures
            width == self.spec_screen_width(),
    {
        self.screen_width
    }

    /// Rows of the screen.
    #[verifier::when_used_as_spec(spec_screen_height)]
    pub fn screen_height(&self) -> (height: u32)
        ensures
            height == self.spec_screen_height(),
            height >= 1,
    {
        proof {
            use_type_invariant(self);
        }
        self.screen_height
    }

    /// The ray of a column of the screen. The column must be less than the
    /// screen's width.
    pub fn ray_for_column(&self, column: u32) -> (ray: Ray)
        requires
            column < self.spec_screen_width(),
        ensures
            ray == self.ray(column as int),
    {
        proof {
            use_type_invariant(self);
            self.lemma_ray_exact(column as int);
            lemma_lateral_bounded(self.fov_scale as int, self.screen_width as int, column as int);
        }
        let side: i64 = if self.screen_width <= 1 {
            0
        } else {
            let m: i64 = (self.screen_width as i64) - 1;
            let n: i64 = 2 * (column as i64) - m;
            assert(-0x100_0000 * 0xffff_ffff <= self.fov_scale * n <= 0x100_0000 * 0xffff_ffff)
                by (nonlinear_arith)
                requires
                    0 <= self.fov_scale <= 0x100_0000,
                    -0xffff_ffff <= n <= 0xffff_ffff,
            ;
            floor_div((self.fov_scale * n) as i128, m as i128) as i64
        };
        let hx = self.heading_x;
        let hz = self.heading_z;
        assert(-0x100_0000 * 0x1_0000 <= side * hz <= 0x100_0000 * 0x1_0000 && -0x100_0000 * 0x1_0000
            <= side * hx <= 0x100_0000 * 0x1_0000) by (nonlinear_arith)
            requires
                -0x100_0000 <= side <= 0x100_0000,
                -0x1_0000 <= hx <= 0x1_0000,
                -0x1_0000 <= hz <= 0x1_0000,
        ;
        Ray { dx: hx * FACTOR_ONE - side * hz, dz: hz * FACTOR_ONE + side * hx }
    }
}

} // verus!

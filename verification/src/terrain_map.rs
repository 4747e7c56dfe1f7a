//! Height and colour maps: a decoded image behind a toroidal lookup.

use crate::arith::wrap;
use crate::error::RenderError;
use crate::units::HEIGHT_STEP;
use vstd::prelude::*;

verus! {

/// One texel.
#[derive(Clone, Copy, Debug, PartialEq, Eq, Structural)]
pub struct RGB {
    pub r: u8,
    pub g: u8,
    pub b: u8,
}

/// A decoded raster image as the loader hands it over.
///
/// Row `z` starts at byte `z * pitch`; within a row, pixel `x` starts at byte
/// `x * bytes_per_pixel` and holds red, green, blue in that order.
#[derive(Debug)]
pub struct DecodedImage {
    pub width: u32,
    pub height: u32,
    /// Bytes from the start of one row to the start of the next.
    pub pitch: u32,
    pub bytes_per_pixel: u8,
    pub pixels: Vec<u8>,
}

impl DecodedImage {
    /// Bytes that must be present to hold every pixel: all rows but the last
    /// at full pitch, and the pixels of the last row.
    pub open spec fn bytes_needed(&self) -> int {
        if self.width == 0 || self.height == 0 {
            0
        } else {
            (self.height - 1) * self.pitch + self.width * 3
        }
    }

    /// The image is rows of three-byte pixels that fit in its bytes.
    pub open spec fn has_rgb_layout(&self) -> bool {
        &&& self.bytes_per_pixel == 3
        &&& self.pitch >= self.width * 3
        &&& self.pixels@.len() >= self.bytes_needed()
    }

    /// The image has no pixels.
    pub open spec fn is_empty(&self) -> bool {
        self.width == 0 || self.height == 0
    }

    /// The pixel in column `x` of row `z`.
    pub open spec fn pixel(&self, x: int, z: int) -> RGB
        recommends
            self.has_rgb_layout(),
            0 <= x < self.width,
            0 <= z < self.height,
    {
        RGB {
            r: self.pixels@[z * self.pitch + x * 3],
            g: self.pixels@[z * self.pitch + x * 3 + 1],
            b: self.pixels@[z * self.pitch + x * 3 + 2],
        }
    }
}

/// A map of texels that repeats without end in both directions.
pub struct HeightColorMap {
    width: u32,
    height: u32,
    data: Vec<Vec<RGB>>,
}

impl HeightColorMap {
    /// The map has at least one texel and `height` rows of `width` texels.
    #[verifier::type_invariant]
    pub closed spec fn wf(&self) -> bool {
        &&& self.width > 0
        &&& self.height > 0
        &&& self.data@.len() == self.height
        &&& forall|z: int| 0 <= z < self.height ==> (#[trigger] self.data@[z])@.len() == self.width
    }

    /// Texels per row.
    pub closed spec fn spec_width(&self) -> u32 {
        self.width
    }

    /// Number of rows.
    pub closed spec fn spec_height(&self) -> u32 {
        self.height
    }

    /// The texel at any pair of integer coordinates: each coordinate wraps
    /// round its own axis.
    pub closed spec fn texel(&self, x: int, z: int) -> RGB {
        self.data@[z % (self.height as int)]@[x % (self.width as int)]
    }

    /// The elevation at any pair of integer coordinates, in raw world units:
    /// the red channel times `HEIGHT_STEP`.
    pub open spec fn elevation(&self, x: int, z: int) -> int {
        self.texel(x, z).r * HEIGHT_STEP
    }

    /// Toroidal lookup: moving either coordinate by a whole width or height,
    /// forwards or backwards, gives the same texel.
    pub proof fn lemma_texel_wraps(&self, x: int, z: int)
        requires
            self.wf(),
        ensures
            self.texel(x, z) == self.texel(x + self.spec_width(), z),
            self.texel(x, z) == self.texel(x - self.spec_width(), z),
            self.texel(x, z) == self.texel(x, z + self.spec_height()),
            self.texel(x, z) == self.texel(x, z - self.spec_height()),
            self.texel(x, z) == self.texel(x % (self.spec_width() as int), z % (self.spec_height() as int)),
    {
        let w: int = self.width as int;
        let h: int = self.height as int;
        vstd::arithmetic::div_mod::lemma_mod_add_multiples_vanish(x, w);
        vstd::arithmetic::div_mod::lemma_mod_sub_multiples_vanish(x, w);
        vstd::arithmetic::div_mod::lemma_mod_add_multiples_vanish(z, h);
        vstd::arithmetic::div_mod::lemma_mod_sub_multiples_vanish(z, h);
        vstd::arithmetic::div_mod::lemma_mod_twice(x, w);
        vstd::arithmetic::div_mod::lemma_mod_twice(z, h);
    }

    /// Builds the map of a decoded image.
    ///
    /// Fails with `InvalidImageFormat` when the image is not rows of
    /// three-byte pixels that fit in its bytes, and with `EmptyMap` when it
    /// is laid out well but has no pixels.
    pub fn new(image: &DecodedImage) -> (result: Result<HeightColorMap, RenderError>)
        ensures
            match result {
                Ok(map) => {
                    &&& image.has_rgb_layout()
                    &&& !image.is_empty()
                    &&& map.wf()
                    &&& map.spec_width() == image.width
                    &&& map.spec_height() == image.height
                    &&& forall|x: int, z: int|
                        0 <= x < image.width && 0 <= z < image.height ==> #[trigger] map.texel(x, z)
                            == image.pixel(x, z)
                },
                Err(e) => if !image.has_rgb_layout() {
                    e == RenderError::InvalidImageFormat
                } else {
                    image.is_empty() && e == RenderError::EmptyMap
                },
            },
    {
        let width = image.width;
        let height = image.height;
        let pitch = image.pitch;
        if image.bytes_per_pixel != 3 || (pitch as u64) < (width as u64) * 3 {
            return Err(RenderError::InvalidImageFormat);
        }
        if width == 0 || height == 0 {
            return Err(RenderError::EmptyMap);
        }
        assert((height - 1) * pitch <= 0xffff_ffff * 0xffff_ffff) by (nonlinear_arith)
            requires
                0 < height <= 0xffff_ffff,
                0 <= pitch <= 0xffff_ffff,
        ;
        let needed: u128 = ((height - 1) as u128) * (pitch as u128) + (width as u128) * 3;
        let len: usize = image.pixels.len();
        if (len as u128) < needed {
            return Err(RenderError::InvalidImageFormat);
        }
        let mut data: Vec<Vec<RGB>> = Vec::new();
        let mut z: u32 = 0;
        while z < height
            invariant
                0 <= z <= height,
                width == image.width,
                height == image.height,
                pitch == image.pitch,
                width > 0,
                image.has_rgb_layout(),
                (height - 1) * pitch + width * 3 <= len == image.pixels@.len(),
                data@.len() == z,
                forall|j: int| 0 <= j < z ==> (#[trigger] data@[j])@.len() == width,
                forall|i: int, j: int|
                    0 <= i < width && 0 <= j < z ==> (#[trigger] data@[j]@[i]) == image.pixel(i, j),
            decreases height - z,
        {
            assert(0 <= z * pitch <= (height - 1) * pitch) by (nonlinear_arith)
                requires
                    0 <= z <= height - 1,
                    0 <= pitch,
            ;
            let start: usize = (z as usize) * (pitch as usize);
            let mut row: Vec<RGB> = Vec::new();
            let mut x: u32 = 0;
            while x < width
                invariant
                    0 <= x <= width,
                    width == image.width,
                    pitch == image.pitch,
                    z < image.height,
                    image.has_rgb_layout(),
                    start == z * pitch,
                    start + width * 3 <= len == image.pixels@.len(),
                    row@.len() == x,
                    forall|i: int| 0 <= i < x ==> (#[trigger] row@[i]) == image.pixel(i, z as int),
                decreases width - x,
            {
                let at: usize = start + (x as usize) * 3;
                row.push(RGB { r: image.pixels[at], g: image.pixels[at + 1], b: image.pixels[at + 2] });
                x = x + 1;
            }
            data.push(row);
            z = z + 1;
        }
        let built = HeightColorMap { width, height, data };
        assert forall|x: int, z: int| 0 <= x < image.width && 0 <= z < image.height implies #[trigger] built.texel(
            x,
            z,
        ) == image.pixel(x, z) by {
            vstd::arithmetic::div_mod::lemma_small_mod(x as nat, width as nat);
            vstd::arithmetic::div_mod::lemma_small_mod(z as nat, height as nat);
        }
        Ok(built)
    }

    /// Texels per row.
    #[verifier::when_used_as_spec(spec_width)]
    pub fn width(&self) -> (w: u32)
        ensures
            w == self.spec_width(),
            w > 0,
            self.wf(),
    {
        proof {
            use_type_invariant(self);
        }
        self.width
    }

    /// Number of rows.
    #[verifier::when_used_as_spec(spec_height)]
    pub fn height(&self) -> (h: u32)
        ensures
            h == self.spec_height(),
            h > 0,
            self.wf(),
    {
        proof {
            use_type_invariant(self);
        }
        self.height
    }

    /// The texel at `(x, y)`, each coordinate wrapped round its axis.
    pub fn pixel_at(&self, x: u32, y: u32) -> (texel: &RGB)
        ensures
            *texel == self.texel(x as int, y as int),
    {
        proof {
            use_type_invariant(self);
        }
        &self.data[(y % self.height) as usize][(x % self.width) as usize]
    }

    /// The texel at any signed coordinates, each wrapped round its axis.
    pub fn sample(&self, x: i128, z: i128) -> (texel: RGB)
        ensures
            texel == self.texel(x as int, z as int),
    {
        proof {
            use_type_invariant(self);
            self.lemma_texel_wraps(x as int, z as int);
        }
        *self.pixel_at(wrap(x, self.width), wrap(z, self.height))
    }

    /// The elevation at any signed coordinates, in raw world units: a quarter
    /// of a world unit for each step of the red channel.
    pub fn height_at(&self, x: i128, z: i128) -> (elevation: i64)
        ensures
            elevation == self.elevation(x as int, z as int),
            0 <= elevation <= 255 * HEIGHT_STEP,
    {
        (self.sample(x, z).r as i64) * HEIGHT_STEP
    }
}

} // verus!

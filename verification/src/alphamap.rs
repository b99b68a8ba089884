//! The alpha map: a color texture source matched to the heightfield.
//!
//! An alpha map either comes decoded from an image file — in which case its
//! dimensions must equal the heightfield's — or is synthesized as a default
//! texture with the red channel fully on, under the assumption that a single
//! surface texture is in use.

use vstd::prelude::*;

verus! {

/// How building an alpha map can fail.
#[derive(Clone, Copy, Debug, Eq, PartialEq, Structural)]
pub enum Error {
    /// The source image could not be decoded as an alpha map.
    FileNotSupported,
}

/// One color sample of an alpha map.
#[derive(Clone, Copy, Debug, PartialEq, Eq, Structural)]
pub struct Rgb {
    pub r: u8,
    pub g: u8,
    pub b: u8,
}

/// A row-major grid of color samples.
#[derive(Clone, Debug, PartialEq, Eq)]
pub struct Alphamap {
    /// Samples per row.
    pub width: usize,
    /// Number of rows.
    pub height: usize,
    /// Row-major samples; row `y` occupies `[y * width, (y + 1) * width)`.
    pub pixels: Vec<Rgb>,
}

impl Alphamap {
    /// The sample count matches the dimensions.
    pub open spec fn wf(self) -> bool {
        self.pixels@.len() == self.width * self.height
    }

    /// The default alpha map: every pixel has the red channel fully on.
    pub fn default_red(width: usize, height: usize) -> (r: Alphamap)
        requires
            width <= 0x4000,
            height <= 0x4000,
        ensures
            r.wf(),
            r.width == width,
            r.height == height,
            forall|i: int|
                0 <= i < r.pixels@.len() ==> #[trigger] r.pixels@[i] == (Rgb {
                    r: 255u8,
                    g: 0u8,
                    b: 0u8,
                }),
    {
        proof {
            crate::rat::lemma_mul_in_bounds(width as int, height as int, 0x4000, 0x4000);
        }
        let n = width * height;
        let mut pixels: Vec<Rgb> = Vec::new();
        let mut i: usize = 0;
        while i < n
            invariant
                i <= n,
                pixels@.len() == i,
                forall|j: int|
                    0 <= j < i ==> #[trigger] pixels@[j] == (Rgb { r: 255u8, g: 0u8, b: 0u8 }),
            decreases n - i,
        {
            pixels.push(Rgb { r: 255, g: 0, b: 0 });
            i = i + 1;
        }
        Alphamap { width, height, pixels }
    }

    /// Builds the alpha map that backs the terrain: the decoded source when
    /// one was given — its dimensions must match the desired ones — or the
    /// default red map of the desired size.
    pub fn from_source(source: Option<Alphamap>, desired_width: usize, desired_height: usize) -> (r:
        Alphamap)
        requires
            desired_width <= 0x4000,
            desired_height <= 0x4000,
            source matches Some(a) ==> a.wf() && a.width == desired_width && a.height
                == desired_height,
        ensures
            r.wf(),
            r.width == desired_width,
            r.height == desired_height,
            source matches Some(a) ==> r == a,
            source is None ==> forall|i: int|
                0 <= i < r.pixels@.len() ==> #[trigger] r.pixels@[i] == (Rgb {
                    r: 255u8,
                    g: 0u8,
                    b: 0u8,
                }),
    {
        match source {
            Some(a) => a,
            None => Alphamap::default_red(desired_width, desired_height),
        }
    }

    /// The sample at column `x` of row `y`.
    pub fn pixel(&self, x: usize, y: usize) -> (r: Rgb)
        requires
            self.wf(),
            x < self.width,
            y < self.height,
        ensures
            r == self.pixels@[y as int * self.width as int + x as int],
    {
        let n = self.pixels.len();
        proof {
            crate::grid::lemma_row_major_in_range(
                self.width as int,
                self.height as int,
                x as int,
                y as int,
            );
            assert(y * self.width + x < n);
        }
        self.pixels[y * self.width + x]
    }
}

} // verus!

//! The heightfield sample grid.
//!
//! A decoded elevation image is handed to the core as a plain row-major grid
//! of 8-bit intensity samples with known width and height; decoding itself is
//! an outside capability.

use vstd::prelude::*;

verus! {

/// A row-major grid of 8-bit elevation samples, `width * height` of them,
/// origin at the top-left of the source image.
#[derive(Clone, Debug, PartialEq, Eq)]
pub struct HeightGrid {
    /// Samples per row.
    pub width: usize,
    /// Number of rows.
    pub height: usize,
    /// Row-major samples; row `y` occupies `[y * width, (y + 1) * width)`.
    pub samples: Vec<u8>,
}

impl HeightGrid {
    /// The sample count matches the dimensions.
    pub open spec fn wf(self) -> bool {
        self.samples@.len() == self.width * self.height
    }

    /// The sample at column `x` of row `y`.
    pub open spec fn sample_at(self, x: int, y: int) -> u8 {
        self.samples@[y * self.width + x]
    }

    /// Builds a grid from row-major samples; fails when the sample count
    /// does not match the dimensions.
    pub fn from_samples(width: usize, height: usize, samples: Vec<u8>) -> (r: Option<HeightGrid>)
        ensures
            r is Some <==> samples@.len() == width * height,
            r matches Some(g) ==> {
                &&& g.wf()
                &&& g.width == width
                &&& g.height == height
                &&& g.samples@ == samples@
            },
    {
        proof {
            crate::rat::lemma_mul_in_bounds(
                width as int,
                height as int,
                u64::MAX as int,
                u64::MAX as int,
            );
        }
        let expected: u128 = (width as u128) * (height as u128);
        if (samples.len() as u128) == expected {
            Some(HeightGrid { width, height, samples })
        } else {
            None
        }
    }

    /// Reads the sample at column `x` of row `y`.
    pub fn sample(&self, x: usize, y: usize) -> (r: u8)
        requires
            self.wf(),
            x < self.width,
            y < self.height,
        ensures
            r == self.sample_at(x as int, y as int),
    {
        let n = self.samples.len();
        proof {
            lemma_row_major_in_range(self.width as int, self.height as int, x as int, y as int);
            assert(y * self.width + x < n);
        }
        self.samples[y * self.width + x]
    }
}

/// A row-major index `y * width + x` lies inside a `width * height` grid.
pub proof fn lemma_row_major_in_range(width: int, height: int, x: int, y: int)
    by (nonlinear_arith)
    requires
        0 <= x < width,
        0 <= y < height,
    ensures
        0 <= y * width + x < width * height,
{
}

} // verus!

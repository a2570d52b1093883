//! Palette: the decoded gradient strip that iteration counts are colored
//! with. Decoding the bundled asset is the caller's concern; the renderer
//! works on the plain RGB row it yields.

use vstd::prelude::*;
use crate::errors::ConfigError;
use crate::fixed::tdiv;

verus! {

/// One horizontal gradient row, one RGB triple per column.
#[derive(Clone, Debug)]
pub struct Palette {
    pub width: usize,
    pub pixels: Vec<u8>,
}

impl Palette {
    /// A palette holds exactly one RGB triple per column of at least one
    /// column.
    pub open spec fn wf(self) -> bool {
        &&& 1 <= self.width
        &&& self.pixels@.len() == 3 * self.width
    }

    /// Runtime form of `wf`, for palettes assembled outside the verified
    /// boundary.
    pub fn is_wf(&self) -> (b: bool)
        ensures
            b == self.wf(),
    {
        let b = self.width >= 1 && self.pixels.len() / 3 == self.width && self.pixels.len() % 3 == 0;
        proof {
            if b {
                assert(self.pixels@.len() == 3 * (self.pixels@.len() / 3));
            }
        }
        b
    }

    /// Builds a palette from its gradient row, rejecting an empty or
    /// ill-sized one.
    pub fn new(width: usize, pixels: Vec<u8>) -> (r: Result<Palette, ConfigError>)
        ensures
            ({
                let p = Palette { width, pixels };
                match r {
                    Ok(q) => q == p && p.wf(),
                    Err(e) => !p.wf() && e == ConfigError::BadPalette,
                }
            }),
    {
        if width >= 1 && pixels.len() / 3 == width && pixels.len() % 3 == 0 {
            proof {
                assert(pixels@.len() == 3 * (pixels@.len() / 3));
            }
            Ok(Palette { width, pixels })
        } else {
            Err(ConfigError::BadPalette)
        }
    }
}

/// The palette column that an iteration count lands on: the count is
/// normalized against the budget, spread over one hundred steps, nudged one
/// step down, and clamped into the palette.
pub open spec fn palette_index(value: int, max: int, width: int) -> int {
    let x = tdiv(100 * value, max) - 1;
    if x < 0 {
        0
    } else if x >= width {
        width - 1
    } else {
        x
    }
}

/// The image that a buffer renders to: per pixel, the RGB triple of the
/// palette column its count lands on, row-major.
pub open spec fn rendered(buffer: Seq<usize>, max: int, pal: Palette) -> Seq<u8> {
    Seq::new(3 * buffer.len(), |j: int|
        pal.pixels@[3 * palette_index(buffer[j / 3] as int, max, pal.width as int) + (j % 3)])
}

} // verus!

//! Grid compute engine and palette renderer: maps every pixel of the output
//! grid to a complex-plane point, evaluates its escape count, and colors the
//! resulting buffer through the palette.

use vstd::prelude::*;
use rayon::iter::{IntoParallelIterator, ParallelIterator};
use crate::coords::{Coordinates, scale_spec, scale_value};
use crate::errors::ConfigError;
use crate::escape::{escape_count, escape_iterations, lemma_escape_count_props};
use crate::fixed::{COORD_BOUND, SCALE};
use crate::render::{Palette, palette_index, rendered};
use vstd::arithmetic::div_mod::lemma_multiply_divide_lt;

verus! {

/// The engine configuration: iteration budget, output grid size, optional
/// escape threshold (2.0 in units when unset) and the palette to color with.
#[derive(Debug)]
pub struct Mandelbrot {
    pub max_iterations: usize,
    pub image_size: (usize, usize),
    pub threshold: Option<i64>,
    pub color_map: Palette,
}

/// The escape threshold in force: the configured one, or 2.0 in units.
pub open spec fn threshold_spec(m: Mandelbrot) -> int {
    match m.threshold {
        Some(t) => t as int,
        None => 2 * SCALE,
    }
}

/// Real part of the plane point that grid column `col` lands on.
pub open spec fn pixel_cx(m: Mandelbrot, v: Coordinates, col: int) -> int {
    scale_spec(col, 0, m.image_size.0 as int, v.re_min as int, v.re_max as int)
}

/// Imaginary part of the plane point that grid row `row` lands on.
pub open spec fn pixel_cy(m: Mandelbrot, v: Coordinates, row: int) -> int {
    scale_spec(row, 0, m.image_size.1 as int, v.im_min as int, v.im_max as int)
}

/// Escape count of the grid cell behind a flat row-major index.
pub open spec fn pixel_count(m: Mandelbrot, v: Coordinates, index: int) -> nat {
    let w = m.image_size.0 as int;
    escape_count(pixel_cx(m, v, index % w), pixel_cy(m, v, index / w), m.max_iterations as nat,
        threshold_spec(m))
}

/// Why a configuration is rejected, or nothing when it is sound.
pub open spec fn config_error(max_iterations: usize, width: usize, height: usize,
    threshold: Option<i64>, color_map: Palette) -> Option<ConfigError> {
    if max_iterations == 0 {
        Some(ConfigError::ZeroIterations)
    } else if max_iterations == usize::MAX {
        Some(ConfigError::IterationBudgetTooLarge)
    } else if width == 0 {
        Some(ConfigError::ZeroWidth)
    } else if height == 0 {
        Some(ConfigError::ZeroHeight)
    } else if width > COORD_BOUND || height > COORD_BOUND || 3 * width * height > usize::MAX {
        Some(ConfigError::GridTooLarge)
    } else if (match threshold {
        Some(t) => t <= 0 || t > COORD_BOUND,
        None => false,
    }) {
        Some(ConfigError::ThresholdOutOfRange)
    } else if !color_map.wf() {
        Some(ConfigError::BadPalette)
    } else {
        None
    }
}

/// Every entry of an iteration buffer stays within the budget.
pub proof fn lemma_pixel_count_bound(m: Mandelbrot, v: Coordinates, index: int)
    ensures
        pixel_count(m, v, index) <= m.max_iterations,
{
    let w = m.image_size.0 as int;
    lemma_escape_count_props(pixel_cx(m, v, index % w), pixel_cy(m, v, index / w),
        threshold_spec(m), 0, m.max_iterations as nat);
}

/// Two iteration buffers computed for the same configuration and viewport
/// are identical, however their pixels were scheduled: each entry is pinned
/// to the escape count of its own grid point, so no parallel interleaving
/// can show through.
pub proof fn lemma_compute_deterministic(m: Mandelbrot, v: Coordinates, b1: Seq<usize>,
    b2: Seq<usize>)
    requires
        b1.len() == m.image_size.0 * m.image_size.1,
        b2.len() == m.image_size.0 * m.image_size.1,
        forall|i: int| 0 <= i < b1.len() ==> b1[i] == pixel_count(m, v, i),
        forall|i: int| 0 <= i < b2.len() ==> b2[i] == pixel_count(m, v, i),
    ensures
        b1 == b2,
{
    assert(b1 =~= b2);
}

/// Rendering is deterministic: equal buffers under one configuration render
/// to byte-identical images.
pub proof fn lemma_render_deterministic(m: Mandelbrot, b1: Seq<usize>, b2: Seq<usize>,
    r1: Seq<u8>, r2: Seq<u8>)
    requires
        b1 == b2,
        r1 == rendered(b1, m.max_iterations as int, m.color_map),
        r2 == rendered(b2, m.max_iterations as int, m.color_map),
    ensures
        r1 == r2,
{
}

impl Mandelbrot {
    /// A configuration is well formed when the budget is positive and leaves
    /// room for the loop counter, the grid is non-empty and addressable, the
    /// threshold (when set) is positive and in coordinate range, and the
    /// palette holds its triples.
    pub open spec fn wf(self) -> bool {
        &&& 1 <= self.max_iterations
        &&& self.max_iterations < usize::MAX
        &&& 1 <= self.image_size.0 <= COORD_BOUND
        &&& 1 <= self.image_size.1 <= COORD_BOUND
        &&& 3 * self.image_size.0 * self.image_size.1 <= usize::MAX
        &&& (match self.threshold {
            Some(t) => 0 < t <= COORD_BOUND,
            None => true,
        })
        &&& self.color_map.wf()
    }

    /// Builds an engine configuration, rejecting one that could fail
    /// mid-computation.
    pub fn new(max_iterations: usize, width: usize, height: usize, threshold: Option<i64>,
        color_map: Palette) -> (r: Result<Mandelbrot, ConfigError>)
        ensures
            ({
                let cfg = (Mandelbrot {
                    max_iterations,
                    image_size: (width, height),
                    threshold,
                    color_map,
                });
                match r {
                    Ok(m) => m == cfg && cfg.wf() && config_error(max_iterations, width, height,
                        threshold, cfg.color_map) is None,
                    Err(e) => config_error(max_iterations, width, height, threshold,
                        cfg.color_map) == Some(e),
                }
            }),
    {
        if max_iterations == 0 {
            Err(ConfigError::ZeroIterations)
        } else if max_iterations == usize::MAX {
            Err(ConfigError::IterationBudgetTooLarge)
        } else if width == 0 {
            Err(ConfigError::ZeroWidth)
        } else if height == 0 {
            Err(ConfigError::ZeroHeight)
        } else if width as u64 > COORD_BOUND as u64 || height as u64 > COORD_BOUND as u64 {
            Err(ConfigError::GridTooLarge)
        } else {
            proof {
                assert(0 <= 3 * (width as int) * (height as int)
                    <= 0x100_0000_0000_0000_0000_0000) by (nonlinear_arith)
                    requires
                        0 <= width as int <= 0x100_0000_0000,
                        0 <= height as int <= 0x100_0000_0000,
                ;
            }
            if 3u128 * (width as u128) * (height as u128) > usize::MAX as u128 {
                Err(ConfigError::GridTooLarge)
            } else if (match threshold {
                Some(t) => t <= 0 || t > COORD_BOUND,
                None => false,
            }) {
                Err(ConfigError::ThresholdOutOfRange)
            } else if !color_map.is_wf() {
                Err(ConfigError::BadPalette)
            } else {
                Ok(Mandelbrot { max_iterations, image_size: (width, height), threshold, color_map })
            }
        }
    }

    /// Number of grid cells.
    fn grid_len(&self) -> (r: usize)
        requires
            self.wf(),
        ensures
            r == self.image_size.0 * self.image_size.1,
    {
        proof {
            assert(self.image_size.0 * self.image_size.1
                <= 3 * self.image_size.0 * self.image_size.1) by (nonlinear_arith)
                requires
                    1 <= self.image_size.0,
                    1 <= self.image_size.1,
            ;
        }
        self.image_size.0 * self.image_size.1
    }

    /// Escape count of one grid cell: the cell is mapped into the viewport
    /// by linear interpolation on each axis and handed to the escape-time
    /// evaluator.
    pub fn pixel_value(&self, coordinates: &Coordinates, index: usize) -> (r: usize)
        requires
            self.wf(),
            coordinates.wf(),
            index < self.image_size.0 * self.image_size.1,
        ensures
            r == pixel_count(*self, *coordinates, index as int),
            r <= self.max_iterations,
    {
        let width: usize = self.image_size.0;
        let height: usize = self.image_size.1;
        let row: usize = index / width;
        let col: usize = index % width;
        proof {
            lemma_multiply_divide_lt(index as int, width as int, height as int);
        }
        let cx: i64 = scale_value(col as i64, 0, width as i64, coordinates.re_min,
            coordinates.re_max);
        let cy: i64 = scale_value(row as i64, 0, height as i64, coordinates.im_min,
            coordinates.im_max);
        let t: i64 = match self.threshold {
            Some(th) => th,
            None => 2 * SCALE,
        };
        escape_iterations(cx, cy, self.max_iterations, t)
    }

    /// Computes the iteration buffer cell by cell: one escape count per grid
    /// cell, row-major, every entry within the budget.
    pub fn calculate(&self, coordinates: &Coordinates) -> (r: Vec<usize>)
        requires
            self.wf(),
            coordinates.wf(),
        ensures
            r@.len() == self.image_size.0 * self.image_size.1,
            forall|i: int| 0 <= i < r@.len() ==> r@[i] == pixel_count(*self, *coordinates, i),
            forall|i: int| 0 <= i < r@.len() ==> r@[i] <= self.max_iterations,
    {
        let total: usize = self.grid_len();
        let mut buffer: Vec<usize> = Vec::new();
        let mut idx: usize = 0;
        while idx < total
            invariant
                idx <= total,
                buffer@.len() == idx,
                total == self.image_size.0 * self.image_size.1,
                self.wf(),
                coordinates.wf(),
                forall|i: int| 0 <= i < idx ==> buffer@[i] == pixel_count(*self, *coordinates, i),
                forall|i: int| 0 <= i < idx ==> buffer@[i] <= self.max_iterations,
            decreases total - idx,
        {
            let v: usize = self.pixel_value(coordinates, idx);
            buffer.push(v);
            idx = idx + 1;
        }
        buffer
    }

    /// Relies on rayon's parallel iterators: `collect` into a `Vec` from the
    /// mapped indexed range `(0..total)` places each closure result at its
    /// own index, so the vector holds the value of `pixel_value` for every
    /// index in order.
    #[verifier::external_body]
    fn par_pixel_values(&self, coordinates: &Coordinates, total: usize) -> (r: Vec<usize>)
        requires
            self.wf(),
            coordinates.wf(),
            total == self.image_size.0 * self.image_size.1,
        ensures
            r@.len() == total,
            forall|i: int| 0 <= i < total ==> r@[i] == pixel_count(*self, *coordinates, i),
    {
        (0..total).into_par_iter().map(|i: usize| self.pixel_value(coordinates, i)).collect()
    }

    /// Computes the same iteration buffer as `calculate`, fanning the grid
    /// cells out across a worker pool: cells are independent, so no order or
    /// synchronization between them matters.
    pub fn calculate2(&self, coordinates: &Coordinates) -> (r: Vec<usize>)
        requires
            self.wf(),
            coordinates.wf(),
        ensures
            r@.len() == self.image_size.0 * self.image_size.1,
            forall|i: int| 0 <= i < r@.len() ==> r@[i] == pixel_count(*self, *coordinates, i),
            forall|i: int| 0 <= i < r@.len() ==> r@[i] <= self.max_iterations,
    {
        let total: usize = self.grid_len();
        let r = self.par_pixel_values(coordinates, total);
        proof {
            assert forall|i: int| 0 <= i < r@.len() implies r@[i] <= self.max_iterations by {
                lemma_pixel_count_bound(*self, *coordinates, i);
            }
        }
        r
    }

    /// Palette column for one iteration count, clamped into the palette.
    fn palette_x(&self, value: usize) -> (r: usize)
        requires
            self.wf(),
        ensures
            r == palette_index(value as int, self.max_iterations as int,
                self.color_map.width as int),
            r < self.color_map.width,
    {
        let n100: u128 = 100u128 * (value as u128);
        let q: u128 = n100 / (self.max_iterations as u128);
        if q < 1 {
            0
        } else {
            let xm1: u128 = q - 1;
            if xm1 >= self.color_map.width as u128 {
                self.color_map.width - 1
            } else {
                xm1 as usize
            }
        }
    }

    /// Colors an iteration buffer through the palette: per pixel, the RGB
    /// triple of the palette column its normalized count lands on, row-major.
    pub fn render_mandelbrot_image(&self, buffer: &Vec<usize>) -> (r: Vec<u8>)
        requires
            self.wf(),
            buffer@.len() == self.image_size.0 * self.image_size.1,
        ensures
            r@ == rendered(buffer@, self.max_iterations as int, self.color_map),
            r@.len() == 3 * buffer@.len(),
    {
        let mut out: Vec<u8> = Vec::new();
        let len: usize = buffer.len();
        let plen: usize = self.color_map.pixels.len();
        let mut idx: usize = 0;
        while idx < len
            invariant
                idx <= len,
                len == buffer@.len(),
                plen == self.color_map.pixels@.len(),
                self.wf(),
                out@.len() == 3 * idx,
                forall|j: int| 0 <= j < 3 * idx
                    ==> out@[j] == rendered(buffer@, self.max_iterations as int,
                        self.color_map)[j],
            decreases len - idx,
        {
            let v: usize = buffer[idx];
            let xpos: usize = self.palette_x(v);
            let base: usize = 3 * xpos;
            let p0: u8 = self.color_map.pixels[base];
            let p1: u8 = self.color_map.pixels[base + 1];
            let p2: u8 = self.color_map.pixels[base + 2];
            out.push(p0);
            out.push(p1);
            out.push(p2);
            proof {
                let rseq = rendered(buffer@, self.max_iterations as int, self.color_map);
                let i = idx as int;
                assert((3 * i) / 3 == i && (3 * i) % 3 == 0);
                assert((3 * i + 1) / 3 == i && (3 * i + 1) % 3 == 1);
                assert((3 * i + 2) / 3 == i && (3 * i + 2) % 3 == 2);
                assert(out@[3 * i] == rseq[3 * i]);
                assert(out@[3 * i + 1] == rseq[3 * i + 1]);
                assert(out@[3 * i + 2] == rseq[3 * i + 2]);
            }
            idx = idx + 1;
        }
        proof {
            assert(out@ =~= rendered(buffer@, self.max_iterations as int, self.color_map));
        }
        out
    }
}

} // verus!

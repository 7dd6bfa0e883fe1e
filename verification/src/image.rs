//! Block-sampled RGBA buffer generation.
//!
//! The canvas is walked in `scale`-sized blocks; the driver evaluates the
//! escape-time solver once per block origin and hands the counts over as a
//! row-major grid of samples; this module turns them into a full frame.
use vstd::prelude::*;

use crate::app::AppState;

verus! {

/// Number of block origins along an axis of length `len` with block side
/// `scale`: origins `0, scale, 2·scale, …` strictly below `len - scale`.
/// The trailing strip narrower than one block is never visited and keeps
/// its zero-initialized bytes.
pub open spec fn grid_dim(len: int, scale: int) -> int
    recommends
        1 <= len,
        1 <= scale,
{
    (len - 1) / scale
}

/// The characterization the buffer proofs lean on: the visited origins
/// tile exactly the prefix `[0, grid_dim·scale)` of the axis, and one more
/// block would not fit strictly inside it.
pub proof fn lemma_grid_dim(len: int, scale: int)
    requires
        1 <= len,
        1 <= scale,
    ensures
        0 <= grid_dim(len, scale),
        grid_dim(len, scale) * scale <= len - 1,
        len <= grid_dim(len, scale) * scale + scale,
{
    let g = (len - 1) / scale;
    vstd::arithmetic::div_mod::lemma_fundamental_div_mod(len - 1, scale);
    vstd::arithmetic::div_mod::lemma_mod_bound(len - 1, scale);
    vstd::arithmetic::div_mod::lemma_div_pos_is_pos(len - 1, scale);
    assert(len - 1 == scale * g + (len - 1) % scale);
    assert(scale * g == g * scale) by (nonlinear_arith);
}

/// Block origins along an axis, computed as the specification counts them.
pub fn grid_len(len: u32, scale: u32) -> (g: u32)
    requires
        1 <= len,
        1 <= scale,
    ensures
        g == grid_dim(len as int, scale as int),
        g * scale <= len - 1,
        len <= g * scale + scale,
{
    proof {
        lemma_grid_dim(len as int, scale as int);
    }
    (len - 1) / scale
}

/// Byte length of a full RGBA frame: four bytes per canvas pixel.
pub open spec fn frame_len(width: int, height: int) -> int {
    4 * (width * height)
}

/// First byte of pixel `(px, py)` in a row-major RGBA buffer of the given
/// width.
pub open spec fn pixel_base(width: int, px: int, py: int) -> int {
    4 * (py * width + px)
}

/// The four bytes of pixel `(px, py)` in `b` hold `color` with full alpha.
pub open spec fn pixel_is(b: Seq<u8>, width: int, px: int, py: int, color: (u8, u8, u8)) -> bool {
    &&& b[pixel_base(width, px, py) + 0] == color.0
    &&& b[pixel_base(width, px, py) + 1] == color.1
    &&& b[pixel_base(width, px, py) + 2] == color.2
    &&& b[pixel_base(width, px, py) + 3] == 255
}

/// The four bytes of pixel `(px, py)` in `b` are all zero.
pub open spec fn pixel_zero(b: Seq<u8>, width: int, px: int, py: int) -> bool {
    &&& b[pixel_base(width, px, py) + 0] == 0
    &&& b[pixel_base(width, px, py) + 1] == 0
    &&& b[pixel_base(width, px, py) + 2] == 0
    &&& b[pixel_base(width, px, py) + 3] == 0
}

/// The four bytes of pixel `(px, py)` agree between `b` and `b0`.
pub open spec fn pixel_same(b: Seq<u8>, b0: Seq<u8>, width: int, px: int, py: int) -> bool {
    &&& b[pixel_base(width, px, py) + 0] == b0[pixel_base(width, px, py) + 0]
    &&& b[pixel_base(width, px, py) + 1] == b0[pixel_base(width, px, py) + 1]
    &&& b[pixel_base(width, px, py) + 2] == b0[pixel_base(width, px, py) + 2]
    &&& b[pixel_base(width, px, py) + 3] == b0[pixel_base(width, px, py) + 3]
}

/// Distinct pixels of one canvas occupy disjoint byte quadruples.
proof fn lemma_pixel_base_disjoint(width: int, px1: int, py1: int, px2: int, py2: int)
    requires
        0 <= px1 < width,
        0 <= px2 < width,
        0 <= py1,
        0 <= py2,
        !(px1 == px2 && py1 == py2),
    ensures
        pixel_base(width, px1, py1) + 3 < pixel_base(width, px2, py2)
            || pixel_base(width, px2, py2) + 3 < pixel_base(width, px1, py1),
{
    assert(py1 * width + px1 < py2 * width + px2 || py2 * width + px2 < py1 * width + px1)
        by (nonlinear_arith)
        requires
            0 <= px1 < width,
            0 <= px2 < width,
            0 <= py1,
            0 <= py2,
            !(px1 == px2 && py1 == py2),
    ;
}

/// A zero-filled buffer of `n` bytes.
fn zero_buffer(n: usize) -> (b: Vec<u8>)
    ensures
        b@.len() == n,
        forall|k: int| 0 <= k < n ==> b@[k] == 0,
{
    let mut b: Vec<u8> = Vec::new();
    let mut filled: usize = 0;
    while filled < n
        invariant
            filled <= n,
            b@.len() == filled,
            forall|k: int| 0 <= k < filled ==> b@[k] == 0,
        decreases n - filled,
    {
        b.push(0);
        filled = filled + 1;
    }
    b
}

/// Write one pixel's four bytes; every other pixel keeps its bytes.
fn set_pixel(pixels: &mut Vec<u8>, width: u32, height: u32, px: u32, py: u32, color: (u8, u8, u8))
    requires
        old(pixels)@.len() == frame_len(width as int, height as int),
        px < width,
        py < height,
        (width as int) * (height as int) < 0x4000_0000,
    ensures
        final(pixels)@.len() == old(pixels)@.len(),
        pixel_is(final(pixels)@, width as int, px as int, py as int, color),
        forall|qx: int, qy: int|
            #![trigger pixel_base(width as int, qx, qy)]
            0 <= qx < width && 0 <= qy < height && !(qx == px && qy == py)
                ==> pixel_same(final(pixels)@, old(pixels)@, width as int, qx, qy),
{
    proof {
        assert((py as int) * (width as int) + (px as int) < (width as int) * (height as int))
            by (nonlinear_arith)
            requires
                px < width,
                py < height,
        ;
    }
    let idx: usize = 4 * ((py as usize) * (width as usize) + (px as usize));
    pixels.set(idx, color.0);
    pixels.set(idx + 1, color.1);
    pixels.set(idx + 2, color.2);
    pixels.set(idx + 3, 255);
    proof {
        assert forall|qx: int, qy: int|
            0 <= qx < width && 0 <= qy < height && !(qx == px && qy == py)
                implies pixel_same(pixels@, old(pixels)@, width as int, qx, qy) by {
            lemma_pixel_base_disjoint(width as int, qx, qy, px as int, py as int);
            assert(qy * (width as int) + qx < (width as int) * (height as int))
                by (nonlinear_arith)
                requires
                    0 <= qx < width,
                    0 <= qy < height,
            ;
        }
    }
}

/// Paint the `scale`-sized block with origin `(x, y)`; every pixel outside
/// the block keeps its bytes.
#[verifier::loop_isolation(false)]
fn fill_block(
    pixels: &mut Vec<u8>,
    width: u32,
    height: u32,
    x: u32,
    y: u32,
    scale: u32,
    color: (u8, u8, u8),
)
    requires
        old(pixels)@.len() == frame_len(width as int, height as int),
        1 <= scale,
        x + scale <= width,
        y + scale <= height,
        (width as int) * (height as int) < 0x4000_0000,
    ensures
        final(pixels)@.len() == old(pixels)@.len(),
        forall|px: int, py: int|
            #![trigger pixel_base(width as int, px, py)]
            x <= px < x + scale && y <= py < y + scale
                ==> pixel_is(final(pixels)@, width as int, px, py, color),
        forall|px: int, py: int|
            #![trigger pixel_base(width as int, px, py)]
            0 <= px < width && 0 <= py < height && !(x <= px < x + scale && y <= py < y + scale)
                ==> pixel_same(final(pixels)@, old(pixels)@, width as int, px, py),
{
    let mut dy: u32 = 0;
    while dy < scale
        invariant
            dy <= scale,
            pixels@.len() == old(pixels)@.len(),
            forall|px: int, py: int|
                #![trigger pixel_base(width as int, px, py)]
                x <= px < x + scale && y <= py < y + dy
                    ==> pixel_is(pixels@, width as int, px, py, color),
            forall|px: int, py: int|
                #![trigger pixel_base(width as int, px, py)]
                0 <= px < width && 0 <= py < height && !(x <= px < x + scale && y <= py < y + dy)
                    ==> pixel_same(pixels@, old(pixels)@, width as int, px, py),
        decreases scale - dy,
    {
        let mut dx: u32 = 0;
        while dx < scale
            invariant
                dx <= scale,
                dy < scale,
                pixels@.len() == old(pixels)@.len(),
                forall|px: int, py: int|
                    #![trigger pixel_base(width as int, px, py)]
                    x <= px < x + scale && y <= py < y + dy
                        ==> pixel_is(pixels@, width as int, px, py, color),
                forall|px: int, py: int|
                    #![trigger pixel_base(width as int, px, py)]
                    x <= px < x + dx && py == y + dy
                        ==> pixel_is(pixels@, width as int, px, py, color),
                forall|px: int, py: int|
                    #![trigger pixel_base(width as int, px, py)]
                    0 <= px < width && 0 <= py < height && !(x <= px < x + scale && y <= py < y
                        + dy) && !(x <= px < x + dx && py == y + dy)
                        ==> pixel_same(pixels@, old(pixels)@, width as int, px, py),
            decreases scale - dx,
        {
            set_pixel(pixels, width, height, x + dx, y + dy, color);
            dx = dx + 1;
        }
        dy = dy + 1;
    }
}

/// Color a block's sample paints: the palette entry at the sample's
/// iteration count, modulo the palette's length.  `gw` is the width of the
/// row-major sample grid.
pub open spec fn sample_color(
    samples: Seq<u32>,
    palette: Seq<(u8, u8, u8)>,
    gw: int,
    scale: int,
    px: int,
    py: int,
) -> (u8, u8, u8) {
    palette[(samples[(py / scale) * gw + px / scale] as int) % (palette.len() as int)]
}

/// What a finished frame holds at pixel `(px, py)`: the sampled palette
/// color with full alpha inside the visited blocks, untouched zero bytes
/// in the trailing strips the block walk never reaches.
pub open spec fn pixel_ok(
    b: Seq<u8>,
    width: int,
    height: int,
    scale: int,
    samples: Seq<u32>,
    palette: Seq<(u8, u8, u8)>,
    px: int,
    py: int,
) -> bool {
    if px < grid_dim(width, scale) * scale && py < grid_dim(height, scale) * scale {
        pixel_is(
            b,
            width,
            px,
            py,
            sample_color(samples, palette, grid_dim(width, scale), scale, px, py),
        )
    } else {
        pixel_zero(b, width, px, py)
    }
}

/// `b` is a finished frame for the given canvas, block side, samples and
/// palette: exactly four bytes per canvas pixel, each pixel as `pixel_ok`
/// says.
pub open spec fn frame_ok(
    b: Seq<u8>,
    width: int,
    height: int,
    scale: int,
    samples: Seq<u32>,
    palette: Seq<(u8, u8, u8)>,
) -> bool {
    &&& b.len() == frame_len(width, height)
    &&& forall|px: int, py: int|
        #![trigger pixel_base(width, px, py)]
        0 <= px < width && 0 <= py < height ==> pixel_ok(
            b,
            width,
            height,
            scale,
            samples,
            palette,
            px,
            py,
        )
}

/// Buffer shape: a finished frame holds exactly four bytes per canvas
/// pixel, and every pixel the block walk painted carries full alpha.
pub proof fn lemma_frame_shape(
    b: Seq<u8>,
    width: int,
    height: int,
    scale: int,
    samples: Seq<u32>,
    palette: Seq<(u8, u8, u8)>,
)
    requires
        frame_ok(b, width, height, scale, samples, palette),
    ensures
        b.len() == 4 * (width * height),
        forall|px: int, py: int|
            #![trigger pixel_base(width, px, py)]
            0 <= px < width && 0 <= py < height && px < grid_dim(width, scale) * scale && py
                < grid_dim(height, scale) * scale ==> b[pixel_base(width, px, py) + 3] == 255,
{
}

impl AppState {
    /// Number of sample-grid columns in this state.
    pub open spec fn spec_grid_width(&self) -> int {
        grid_dim(self.canvas_width as int, self.scale as int)
    }

    /// Number of sample-grid rows in this state.
    pub open spec fn spec_grid_height(&self) -> int {
        grid_dim(self.canvas_height as int, self.scale as int)
    }

    /// The pixel origins of the blocks the generator samples, row-major
    /// over the block grid: entry `k` is the origin of block
    /// `(k % grid_width, k / grid_width)`.  The driver evaluates the
    /// escape-time solver once per entry, in order, to build the sample
    /// grid that `generate_image_data` and `maybe_render` ask for.
    #[verifier::loop_isolation(false)]
    pub fn sample_origins(&self) -> (origins: Vec<(u32, u32)>)
        requires
            self.wf(),
        ensures
            origins@.len() == self.spec_grid_width() * self.spec_grid_height(),
            forall|k: int|
                #![trigger origins@[k]]
                0 <= k < origins@.len() ==> origins@[k].0 == (k % self.spec_grid_width())
                    * self.scale && origins@[k].1 == (k / self.spec_grid_width()) * self.scale,
    {
        let gw = grid_len(self.canvas_width, self.scale);
        let gh = grid_len(self.canvas_height, self.scale);
        proof {
            assert((gw as int) * (gh as int) < 0x4000_0000)
                by (nonlinear_arith)
                requires
                    (gw as int) * (self.scale as int) <= self.canvas_width - 1,
                    (gh as int) * (self.scale as int) <= self.canvas_height - 1,
                    1 <= self.scale,
                    (self.canvas_width as int) * (self.canvas_height as int) < 0x4000_0000,
            ;
        }
        let total: usize = (gw as usize) * (gh as usize);
        let mut origins: Vec<(u32, u32)> = Vec::new();
        let mut k: usize = 0;
        while k < total
            invariant
                k <= total,
                origins@.len() == k,
                forall|m: int|
                    #![trigger origins@[m]]
                    0 <= m < k ==> origins@[m].0 == (m % self.spec_grid_width()) * self.scale
                        && origins@[m].1 == (m / self.spec_grid_width()) * self.scale,
            decreases total - k,
        {
            proof {
                assert(1 <= gw) by (nonlinear_arith)
                    requires
                        (k as int) < (gw as int) * (gh as int),
                        0 <= k,
                ;
                assert((k as int) / (gw as int) < gh as int)
                    by (nonlinear_arith)
                    requires
                        (k as int) < (gw as int) * (gh as int),
                        1 <= gw,
                ;
                vstd::arithmetic::div_mod::lemma_mod_bound(k as int, gw as int);
            }
            let i: u32 = (k as u32) % gw;
            let j: u32 = (k as u32) / gw;
            proof {
                assert((i as int) * (self.scale as int) + self.scale <= (gw as int) * (
                self.scale as int))
                    by (nonlinear_arith)
                    requires
                        i < gw,
                        1 <= self.scale,
                ;
                assert((j as int) * (self.scale as int) + self.scale <= (gh as int) * (
                self.scale as int))
                    by (nonlinear_arith)
                    requires
                        j < gh,
                        1 <= self.scale,
                ;
            }
            let x = i * self.scale;
            let y = j * self.scale;
            origins.push((x, y));
            k = k + 1;
        }
        origins
    }

    /// Produce a full RGBA frame from the per-block iteration counts in
    /// `samples` (row-major over the block grid) and the palette.
    #[verifier::loop_isolation(false)]
    pub fn generate_image_data(&self, samples: &Vec<u32>, palette: &Vec<(u8, u8, u8)>) -> (pixels:
        Vec<u8>)
        requires
            self.wf(),
            1 <= palette@.len(),
            samples@.len() == self.spec_grid_width() * self.spec_grid_height(),
        ensures
            frame_ok(
                pixels@,
                self.canvas_width as int,
                self.canvas_height as int,
                self.scale as int,
                samples@,
                palette@,
            ),
    {
        let width = self.canvas_width;
        let height = self.canvas_height;
        let scale = self.scale;
        let ghost w: int = width as int;
        let ghost h: int = height as int;
        let area: usize = (width as usize) * (height as usize);
        let mut pixels = zero_buffer(4 * area);
        let gw = grid_len(width, scale);
        let gh = grid_len(height, scale);
        // Anchors the sample grid's length below the machine's index limit.
        let _n_samples: usize = samples.len();
        proof {
            assert((gw as int) * (gh as int) == samples@.len());
            assert forall|px: int, py: int|
                #![trigger pixel_base(w, px, py)]
                0 <= px < w && 0 <= py < h implies pixel_zero(pixels@, w, px, py) by {
                assert(0 <= py * w + px < w * h)
                    by (nonlinear_arith)
                    requires
                        0 <= px < w,
                        0 <= py < h,
                ;
            }
        }
        let mut j: u32 = 0;
        while j < gh
            invariant
                j <= gh,
                pixels@.len() == frame_len(w, h),
                forall|px: int, py: int|
                    #![trigger pixel_base(w, px, py)]
                    0 <= px < gw * scale && 0 <= py < j * scale ==> pixel_is(
                        pixels@,
                        w,
                        px,
                        py,
                        sample_color(samples@, palette@, gw as int, scale as int, px, py),
                    ),
                forall|px: int, py: int|
                    #![trigger pixel_base(w, px, py)]
                    0 <= px < w && 0 <= py < h && !(px < gw * scale && py < j * scale)
                        ==> pixel_zero(pixels@, w, px, py),
            decreases gh - j,
        {
            let mut i: u32 = 0;
            while i < gw
                invariant
                    i <= gw,
                    j < gh,
                    pixels@.len() == frame_len(w, h),
                    forall|px: int, py: int|
                        #![trigger pixel_base(w, px, py)]
                        0 <= px < gw * scale && 0 <= py < j * scale ==> pixel_is(
                            pixels@,
                            w,
                            px,
                            py,
                            sample_color(samples@, palette@, gw as int, scale as int, px, py),
                        ),
                    forall|px: int, py: int|
                        #![trigger pixel_base(w, px, py)]
                        0 <= px < i * scale && j * scale <= py < j * scale + scale ==> pixel_is(
                            pixels@,
                            w,
                            px,
                            py,
                            sample_color(samples@, palette@, gw as int, scale as int, px, py),
                        ),
                    forall|px: int, py: int|
                        #![trigger pixel_base(w, px, py)]
                        0 <= px < w && 0 <= py < h && !(px < gw * scale && py < j * scale) && !(px
                            < i * scale && j * scale <= py < j * scale + scale) ==> pixel_zero(
                            pixels@,
                            w,
                            px,
                            py,
                        ),
                decreases gw - i,
            {
                proof {
                    assert((j as int) * (gw as int) + i < (gw as int) * (gh as int))
                        by (nonlinear_arith)
                        requires
                            i < gw,
                            j < gh,
                    ;
                    assert((i as int) * (scale as int) + scale <= (gw as int) * (scale as int))
                        by (nonlinear_arith)
                        requires
                            i < gw,
                            1 <= scale,
                    ;
                    assert((j as int) * (scale as int) + scale <= (gh as int) * (scale as int))
                        by (nonlinear_arith)
                        requires
                            j < gh,
                            1 <= scale,
                    ;
                }
                let b: usize = (j as usize) * (gw as usize) + (i as usize);
                let sample = samples[b];
                let ci: usize = (sample as usize) % palette.len();
                proof {
                    vstd::arithmetic::div_mod::lemma_mod_bound(
                        sample as int,
                        palette@.len() as int,
                    );
                }
                let col = palette[ci];
                let x = i * scale;
                let y = j * scale;
                let ghost pre: Seq<u8> = pixels@;
                fill_block(&mut pixels, width, height, x, y, scale, col);
                proof {
                    assert forall|px: int, py: int|
                        #![trigger pixel_base(w, px, py)]
                        x <= px < x + scale && y <= py < y + scale implies pixel_is(
                        pixels@,
                        w,
                        px,
                        py,
                        sample_color(samples@, palette@, gw as int, scale as int, px, py),
                    ) by {
                        vstd::arithmetic::div_mod::lemma_fundamental_div_mod_converse(
                            px,
                            scale as int,
                            i as int,
                            px - (i as int) * (scale as int),
                        );
                        vstd::arithmetic::div_mod::lemma_fundamental_div_mod_converse(
                            py,
                            scale as int,
                            j as int,
                            py - (j as int) * (scale as int),
                        );
                        assert(pixel_is(pixels@, w, px, py, col));
                    }
                    assert forall|px: int, py: int|
                        #![trigger pixel_base(w, px, py)]
                        0 <= px < gw * scale && 0 <= py < j * scale implies pixel_is(
                        pixels@,
                        w,
                        px,
                        py,
                        sample_color(samples@, palette@, gw as int, scale as int, px, py),
                    ) by {
                        assert(pixel_is(
                            pre,
                            w,
                            px,
                            py,
                            sample_color(samples@, palette@, gw as int, scale as int, px, py),
                        ));
                        assert(pixel_same(pixels@, pre, w, px, py));
                    }
                    assert forall|px: int, py: int|
                        #![trigger pixel_base(w, px, py)]
                        0 <= px < i * scale && j * scale <= py < j * scale + scale implies pixel_is(
                        pixels@,
                        w,
                        px,
                        py,
                        sample_color(samples@, palette@, gw as int, scale as int, px, py),
                    ) by {
                        assert(pixel_is(
                            pre,
                            w,
                            px,
                            py,
                            sample_color(samples@, palette@, gw as int, scale as int, px, py),
                        ));
                        assert(pixel_same(pixels@, pre, w, px, py));
                    }
                    assert forall|px: int, py: int|
                        #![trigger pixel_base(w, px, py)]
                        0 <= px < w && 0 <= py < h && !(px < gw * scale && py < j * scale) && !(px
                            < (i + 1) * scale && j * scale <= py < j * scale + scale) implies
                        pixel_zero(pixels@, w, px, py) by {
                        assert((i + 1) * (scale as int) == (i as int) * (scale as int) + scale)
                            by (nonlinear_arith);
                        assert(pixel_zero(pre, w, px, py));
                        assert(pixel_same(pixels@, pre, w, px, py));
                    }
                    assert((i + 1) * (scale as int) == (i as int) * (scale as int) + scale)
                        by (nonlinear_arith);
                }
                i = i + 1;
            }
            proof {
                assert((j + 1) * (scale as int) == (j as int) * (scale as int) + scale)
                    by (nonlinear_arith);
            }
            j = j + 1;
        }
        pixels
    }

    /// Hand out a frame exactly when one is owed: when the dirty flag is
    /// set, clear it and return the generated buffer; otherwise leave the
    /// state alone and return nothing.
    pub fn maybe_render(&mut self, samples: &Vec<u32>, palette: &Vec<(u8, u8, u8)>) -> (r: Option<
        Vec<u8>,
    >)
        requires
            old(self).wf(),
            1 <= palette@.len(),
            samples@.len() == old(self).spec_grid_width() * old(self).spec_grid_height(),
        ensures
            final(self).wf(),
            !old(self).need_update ==> r is None && *final(self) == *old(self),
            old(self).need_update ==> *final(self) == old(self).rendered(),
            old(self).need_update ==> (r matches Some(b) && frame_ok(
                b@,
                old(self).canvas_width as int,
                old(self).canvas_height as int,
                old(self).scale as int,
                samples@,
                palette@,
            )),
    {
        if self.need_update {
            let pixels = self.generate_image_data(samples, palette);
            self.need_update = false;
            Some(pixels)
        } else {
            None
        }
    }
}

} // verus!

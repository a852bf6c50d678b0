//! Panel geometry: validation of the five dimension parameters and the
//! derived buffer sizes every other component reads from here.

use vstd::prelude::*;

use crate::rgb_matrix::MatrixError;

verus! {

/// The validated geometry of a panel chain.
///
/// `per_frame_denominator` is the portion of the panel written to at once.
/// Panels are usually sold as a fraction (1/8, 1/16): a 32 pixel high 1/8
/// panel drives 4 rows (32 / 8) for each scanline, a 32 pixel high 1/16 panel
/// drives 2 rows (32 / 16) for each scanline.
///
/// The five dimension fields are fixed at construction; only the latch
/// blanking count may change afterwards.
#[derive(Copy, Clone, Debug, PartialEq, Eq, Structural)]
pub struct MatrixConfig {
    /// Width of one panel in pixels.
    pub width: usize,
    /// Height of the panel in pixels.
    pub height: usize,
    /// How many panels are daisy-chained into one wider display.
    pub chain_length: usize,
    /// Bits of per-channel color resolution (1 to 16).
    pub color_depth: usize,
    /// The scan fraction of the panel, e.g. 8 for a 1/8 panel.
    pub per_frame_denominator: u8,
    /// The number of clock cycles to disable output around the latch signal.
    ///
    /// The default value is 2, and the intended maximum is 4.
    pub latch_blanking_count: u8,
}

impl MatrixConfig {
    /// How many physical rows one scanline pass drives at once.
    pub open spec fn spec_rows_per_scanline(&self) -> int {
        self.height as int / self.per_frame_denominator as int
    }

    /// How many scanline groups one frame holds; each gets one row address.
    pub open spec fn spec_scanlines_per_frame(&self) -> int {
        self.height as int / self.spec_rows_per_scanline()
    }

    /// How many 16-bit words one color plane of one scanline holds.
    ///
    /// Each word carries two pixels, one per sub-row.
    pub open spec fn spec_words_per_plane(&self) -> int {
        self.width as int * self.chain_length as int * self.height as int
            / self.per_frame_denominator as int / 2
    }

    /// How many words one scanline holds across all its color planes.
    pub open spec fn spec_words_per_scanline(&self) -> int {
        self.spec_words_per_plane() * self.color_depth as int
    }

    /// How many words one whole frame holds.
    pub open spec fn spec_words_per_frame(&self) -> int {
        self.spec_words_per_scanline() * self.spec_scanlines_per_frame()
    }

    /// The geometry invariant: all dimensions positive, the denominator
    /// divides the height and leaves at least two rows per scanline (each
    /// word carries two sub-rows), at most 32 scanline groups (the address
    /// field has five bits), at most 16 color planes (a channel value has at
    /// most 16 bits), and every derived buffer size fits in `usize`.
    pub open spec fn valid(&self) -> bool {
        &&& 0 < self.width
        &&& 0 < self.height
        &&& 0 < self.chain_length
        &&& 0 < self.color_depth <= 16
        &&& 0 < self.per_frame_denominator
        &&& self.height as int % self.per_frame_denominator as int == 0
        &&& 2 * self.per_frame_denominator as int <= self.height as int
        &&& self.spec_scanlines_per_frame() <= 32
        &&& self.width as int * self.chain_length as int * self.height as int <= usize::MAX as int
        &&& self.spec_words_per_frame() <= usize::MAX as int
    }

    /// True when both configurations describe the same buffer layout; the
    /// latch blanking count does not influence it.
    pub open spec fn same_geometry(&self, other: &MatrixConfig) -> bool {
        &&& self.width == other.width
        &&& self.height == other.height
        &&& self.chain_length == other.chain_length
        &&& self.color_depth == other.color_depth
        &&& self.per_frame_denominator == other.per_frame_denominator
    }

    /// Validate the five dimension parameters and build the geometry.
    ///
    /// Fails with `InvalidGeometry` exactly when the resulting configuration
    /// would break the geometry invariant. The latch blanking count starts at
    /// its default of 2.
    pub fn new(
        width: usize,
        height: usize,
        chain_length: usize,
        color_depth: usize,
        per_frame_denominator: u8,
    ) -> (r: Result<MatrixConfig, MatrixError>)
        ensures
            r is Ok <==> (MatrixConfig {
                width,
                height,
                chain_length,
                color_depth,
                per_frame_denominator,
                latch_blanking_count: 2,
            }).valid(),
            r matches Ok(c) ==> c == (MatrixConfig {
                width,
                height,
                chain_length,
                color_depth,
                per_frame_denominator,
                latch_blanking_count: 2,
            }),
            r matches Err(e) ==> e == MatrixError::InvalidGeometry,
    {
        if width == 0 || height == 0 || chain_length == 0 || color_depth == 0 || color_depth > 16
            || per_frame_denominator == 0 {
            return Err(MatrixError::InvalidGeometry);
        }
        let denominator = per_frame_denominator as usize;
        if height % denominator != 0 {
            return Err(MatrixError::InvalidGeometry);
        }
        if height / denominator < 2 {
            proof {
                let h = height as int;
                let d = denominator as int;
                assert(2 * d > h) by (nonlinear_arith)
                    requires 0 < h && 0 < d && h % d == 0 && h / d < 2;
            }
            return Err(MatrixError::InvalidGeometry);
        }
        let rows_per_scanline = height / denominator;
        let scanlines_per_frame = height / rows_per_scanline;
        proof {
            let h = height as int;
            let d = denominator as int;
            assert(2 * d <= h && 1 <= h / (h / d)) by (nonlinear_arith)
                requires 0 < h && 0 < d && h % d == 0 && 2 <= h / d;
        }
        if scanlines_per_frame > 32 {
            return Err(MatrixError::InvalidGeometry);
        }
        let row_pixels = match width.checked_mul(chain_length) {
            Some(p) => p,
            None => {
                proof {
                    let w = width as int;
                    let c = chain_length as int;
                    let h = height as int;
                    assert(w * c <= w * c * h) by (nonlinear_arith)
                        requires 0 < h && 0 <= w && 0 <= c;
                }
                return Err(MatrixError::InvalidGeometry);
            },
        };
        let frame_pixels = match row_pixels.checked_mul(height) {
            Some(p) => p,
            None => {
                return Err(MatrixError::InvalidGeometry);
            },
        };
        let words_per_plane = frame_pixels / denominator / 2;
        let words_per_scanline = match words_per_plane.checked_mul(color_depth) {
            Some(p) => p,
            None => {
                proof {
                    let wps = words_per_plane as int * color_depth as int;
                    let spf = scanlines_per_frame as int;
                    assert(wps <= wps * spf) by (nonlinear_arith)
                        requires 0 < spf && 0 <= wps;
                }
                return Err(MatrixError::InvalidGeometry);
            },
        };
        if words_per_scanline.checked_mul(scanlines_per_frame).is_none() {
            return Err(MatrixError::InvalidGeometry);
        }
        Ok(MatrixConfig {
            width,
            height,
            chain_length,
            color_depth,
            per_frame_denominator,
            latch_blanking_count: 2,
        })
    }

    /// The number of blanked clock cycles around each latch pulse.
    pub fn latch_blanking_count(&self) -> (r: u8)
        ensures
            r == self.latch_blanking_count,
    {
        self.latch_blanking_count
    }

    /// Change the number of blanked clock cycles around each latch pulse.
    pub fn set_latch_blanking_count(&mut self, latch_blanking_count: u8)
        ensures
            *final(self) == (MatrixConfig { latch_blanking_count, ..*old(self) }),
    {
        self.latch_blanking_count = latch_blanking_count;
    }

    /// Width of the whole chained display in pixels.
    pub fn chain_width(&self) -> (r: usize)
        requires
            self.valid(),
        ensures
            r == self.width * self.chain_length,
    {
        proof {
            let w = self.width as int;
            let c = self.chain_length as int;
            let h = self.height as int;
            assert(w * c <= w * c * h) by (nonlinear_arith)
                requires 0 < h && 0 <= w && 0 <= c;
        }
        self.width * self.chain_length
    }

    /// How many 16-bit words one color plane of one scanline holds.
    pub fn words_per_plane(&self) -> (r: usize)
        requires
            self.valid(),
        ensures
            r == self.spec_words_per_plane(),
    {
        proof {
            let w = self.width as int;
            let c = self.chain_length as int;
            let h = self.height as int;
            assert(w * c <= w * c * h) by (nonlinear_arith)
                requires 0 < h && 0 <= w && 0 <= c;
        }
        let row_pixels = self.width * self.chain_length;
        row_pixels * self.height / (self.per_frame_denominator as usize) / 2
    }

    /// How many scanline groups one frame holds.
    pub fn scanlines_per_frame(&self) -> (r: usize)
        requires
            self.valid(),
        ensures
            r == self.spec_scanlines_per_frame(),
    {
        proof {
            let h = self.height as int;
            let d = self.per_frame_denominator as int;
            assert(2 <= h / d) by (nonlinear_arith)
                requires 0 < h && 0 < d && h % d == 0 && 2 * d <= h;
        }
        let rows_per_scanline = self.height / (self.per_frame_denominator as usize);
        self.height / rows_per_scanline
    }

    /// How many words one scanline holds across all its color planes.
    pub fn words_per_scanline(&self) -> (r: usize)
        requires
            self.valid(),
        ensures
            r == self.spec_words_per_scanline(),
    {
        proof {
            lemma_sizes_bounded(*self);
        }
        self.words_per_plane() * self.color_depth
    }

    /// How many words one whole frame holds.
    pub fn words_per_frame(&self) -> (r: usize)
        requires
            self.valid(),
        ensures
            r == self.spec_words_per_frame(),
    {
        proof {
            lemma_sizes_bounded(*self);
        }
        self.words_per_scanline() * self.scanlines_per_frame()
    }
}

/// Each derived size of a valid geometry fits in `usize`.
pub proof fn lemma_sizes_bounded(cfg: MatrixConfig)
    requires
        cfg.valid(),
    ensures
        0 <= cfg.spec_words_per_plane(),
        cfg.spec_words_per_plane() <= cfg.spec_words_per_scanline(),
        cfg.spec_words_per_scanline() <= cfg.spec_words_per_frame(),
        cfg.spec_words_per_frame() <= usize::MAX as int,
        1 <= cfg.spec_scanlines_per_frame() <= 32,
{
    let wpp = cfg.spec_words_per_plane();
    let depth = cfg.color_depth as int;
    let spf = cfg.spec_scanlines_per_frame();
    let h = cfg.height as int;
    let d = cfg.per_frame_denominator as int;
    assert(0 <= wpp) by (nonlinear_arith)
        requires wpp == cfg.width as int * cfg.chain_length as int * cfg.height as int / d / 2
            && 0 < cfg.width && 0 < cfg.chain_length && 0 < cfg.height && 0 < d;
    assert(2 <= h / d && 1 <= h / (h / d)) by (nonlinear_arith)
        requires 0 < h && 0 < d && 2 * d <= h && h % d == 0;
    assert(wpp <= wpp * depth) by (nonlinear_arith)
        requires 0 <= wpp && 1 <= depth;
    assert(wpp * depth <= wpp * depth * spf) by (nonlinear_arith)
        requires 0 <= wpp * depth && 1 <= spf;
}

/// Step-by-step builder for a panel geometry, used before validation.
///
/// The height and width have no defaults: their type parameters move from
/// `Option<usize>` to `usize` as the two are supplied. The remaining fields
/// start at a chain length of 1, a color depth of 8 and a denominator of 8.
#[derive(Copy, Clone, Debug)]
pub struct FrameConfiguration<H, W> {
    /// Height of the panel in pixels, once supplied.
    pub height: H,
    /// Width of one panel in pixels, once supplied.
    pub width: W,
    /// How many panels are daisy-chained into one wider display.
    pub chain_length: usize,
    /// Bits of per-channel color resolution.
    pub color_depth: u8,
    /// The scan fraction of the panel.
    pub per_frame_denominator: u8,
}

impl Default for FrameConfiguration<Option<usize>, Option<usize>> {
    /// An empty configuration: no height or width yet, chain length 1, color
    /// depth 8, denominator 8.
    fn default() -> (r: Self)
        ensures
            r.height is None,
            r.width is None,
            r.chain_length == 1,
            r.color_depth == 8,
            r.per_frame_denominator == 8,
    {
        FrameConfiguration {
            height: Option::None,
            width: Option::None,
            chain_length: 1,
            color_depth: 8,
            per_frame_denominator: 8,
        }
    }
}

impl<H: Copy, W: Copy> FrameConfiguration<H, W> {
    /// The height supplied so far.
    pub fn height(&self) -> (r: H)
        ensures
            r == self.height,
    {
        self.height
    }

    /// Supply the panel height.
    pub fn with_height(&self, height: usize) -> (r: FrameConfiguration<usize, W>)
        ensures
            r.height == height,
            r.width == self.width,
            r.chain_length == self.chain_length,
            r.color_depth == self.color_depth,
            r.per_frame_denominator == self.per_frame_denominator,
    {
        FrameConfiguration {
            height,
            width: self.width,
            chain_length: self.chain_length,
            color_depth: self.color_depth,
            per_frame_denominator: self.per_frame_denominator,
        }
    }

    /// The width supplied so far.
    pub fn width(&self) -> (r: W)
        ensures
            r == self.width,
    {
        self.width
    }

    /// Supply the panel width.
    pub fn with_width(&self, width: usize) -> (r: FrameConfiguration<H, usize>)
        ensures
            r.height == self.height,
            r.width == width,
            r.chain_length == self.chain_length,
            r.color_depth == self.color_depth,
            r.per_frame_denominator == self.per_frame_denominator,
    {
        FrameConfiguration {
            height: self.height,
            width,
            chain_length: self.chain_length,
            color_depth: self.color_depth,
            per_frame_denominator: self.per_frame_denominator,
        }
    }

    /// The chain length chosen so far.
    pub fn chain_length(&self) -> (r: usize)
        ensures
            r == self.chain_length,
    {
        self.chain_length
    }

    /// Choose how many panels are daisy-chained.
    pub fn with_chain_length(&self, chain_length: usize) -> (r: Self)
        ensures
            r.height == self.height,
            r.width == self.width,
            r.chain_length == chain_length,
            r.color_depth == self.color_depth,
            r.per_frame_denominator == self.per_frame_denominator,
    {
        FrameConfiguration {
            height: self.height,
            width: self.width,
            chain_length,
            color_depth: self.color_depth,
            per_frame_denominator: self.per_frame_denominator,
        }
    }

    /// The color depth chosen so far.
    pub fn color_depth(&self) -> (r: u8)
        ensures
            r == self.color_depth,
    {
        self.color_depth
    }

    /// Choose the bits of per-channel color resolution.
    pub fn with_color_depth(&self, color_depth: u8) -> (r: Self)
        ensures
            r.height == self.height,
            r.width == self.width,
            r.chain_length == self.chain_length,
            r.color_depth == color_depth,
            r.per_frame_denominator == self.per_frame_denominator,
    {
        FrameConfiguration {
            height: self.height,
            width: self.width,
            chain_length: self.chain_length,
            color_depth,
            per_frame_denominator: self.per_frame_denominator,
        }
    }

    /// The scan fraction chosen so far.
    pub fn per_frame_denominator(&self) -> (r: u8)
        ensures
            r == self.per_frame_denominator,
    {
        self.per_frame_denominator
    }

    /// Choose the scan fraction of the panel.
    pub fn with_per_frame_denominator(&self, denominator: u8) -> (r: Self)
        ensures
            r.height == self.height,
            r.width == self.width,
            r.chain_length == self.chain_length,
            r.color_depth == self.color_depth,
            r.per_frame_denominator == denominator,
    {
        FrameConfiguration {
            height: self.height,
            width: self.width,
            chain_length: self.chain_length,
            color_depth: self.color_depth,
            per_frame_denominator: denominator,
        }
    }
}

impl FrameConfiguration<usize, usize> {
    /// A configuration with both dimensions supplied and the defaults for
    /// the rest: chain length 1, color depth 8, denominator 8.
    pub fn new(height: usize, width: usize) -> (r: Self)
        ensures
            r.height == height,
            r.width == width,
            r.chain_length == 1,
            r.color_depth == 8,
            r.per_frame_denominator == 8,
    {
        FrameConfiguration {
            height,
            width,
            chain_length: 1,
            color_depth: 8,
            per_frame_denominator: 8,
        }
    }

    /// How many words one scanline of this configuration holds, over all its
    /// color planes: one word for every two pixels of every plane.
    pub open spec fn spec_words_per_scanline(&self) -> int {
        self.width as int * self.chain_length as int * self.color_depth as int
            * (self.height as int / self.per_frame_denominator as int) / 2
    }

    /// How many scanline groups one frame of this configuration holds.
    pub open spec fn spec_scanlines_per_frame(&self) -> int {
        self.height as int / (self.height as int / self.per_frame_denominator as int)
    }

    /// How many words one scanline holds across all its color planes.
    pub fn words_per_scanline(&self) -> (r: usize)
        requires
            self.per_frame_denominator > 0,
            self.width as int * self.chain_length as int <= usize::MAX as int,
            self.width as int * self.chain_length as int * self.color_depth as int
                <= usize::MAX as int,
            self.width as int * self.chain_length as int * self.color_depth as int
                * (self.height as int / self.per_frame_denominator as int) <= usize::MAX as int,
        ensures
            r == self.spec_words_per_scanline(),
    {
        let pixels_per_row = self.width * self.chain_length;
        let rows_per_scanline = self.height / (self.per_frame_denominator as usize);
        // Each bit of color depth needs a separate word of storage for BCD,
        // and each word already encodes 2 pixels.
        let pixels_per_scanline = pixels_per_row * (self.color_depth as usize) * rows_per_scanline;
        pixels_per_scanline / 2
    }

    /// How many scanline groups one frame holds.
    pub fn scanlines_per_frame(&self) -> (r: usize)
        requires
            self.per_frame_denominator > 0,
            self.height as int / self.per_frame_denominator as int > 0,
        ensures
            r == self.spec_scanlines_per_frame(),
    {
        let rows_per_scanline = self.height / (self.per_frame_denominator as usize);
        self.height / rows_per_scanline
    }

    /// How many words one whole frame holds.
    pub fn words_per_frame(&self) -> (r: usize)
        requires
            self.per_frame_denominator > 0,
            self.height as int / self.per_frame_denominator as int > 0,
            self.width as int * self.chain_length as int <= usize::MAX as int,
            self.width as int * self.chain_length as int * self.color_depth as int
                <= usize::MAX as int,
            self.width as int * self.chain_length as int * self.color_depth as int
                * (self.height as int / self.per_frame_denominator as int) <= usize::MAX as int,
            self.spec_words_per_scanline() * self.spec_scanlines_per_frame() <= usize::MAX as int,
        ensures
            r == self.spec_words_per_scanline() * self.spec_scanlines_per_frame(),
    {
        self.words_per_scanline() * self.scanlines_per_frame()
    }
}

} // verus!

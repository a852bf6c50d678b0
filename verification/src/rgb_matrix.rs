//! The logical pixel surface applications draw into: per-pixel dirty
//! tracking, brightness state, and the double-buffer handoff that replays
//! outstanding changes into a freshly attached frame buffer.

use vstd::arithmetic::div_mod::*;
use vstd::prelude::*;

use crate::buffer::{
    spec_brightness_words, spec_control_words, spec_set_pixel_words, FrameBuffer,
};
use crate::config::MatrixConfig;

verus! {

/// The ways a matrix operation can fail.
#[derive(Copy, Clone, Debug, PartialEq, Eq, Structural)]
pub enum MatrixError {
    /// The requested panel dimensions are inconsistent or not positive.
    InvalidGeometry,
    /// A coordinate lies outside the panel extent; the write was a no-op.
    OutOfBounds,
}

/// An application color type: three channel values of up to 16 significant
/// bits each, which the matrix encodes bit-plane by bit-plane.
pub trait Color: Sized {
    /// The red channel value.
    spec fn red_value(&self) -> u16;

    /// The green channel value.
    spec fn green_value(&self) -> u16;

    /// The blue channel value.
    spec fn blue_value(&self) -> u16;

    /// Read the red channel value.
    fn red(&self) -> (r: u16)
        ensures
            r == self.red_value(),
    ;

    /// Read the green channel value.
    fn green(&self) -> (r: u16)
        ensures
            r == self.green_value(),
    ;

    /// Read the blue channel value.
    fn blue(&self) -> (r: u16)
        ensures
            r == self.blue_value(),
    ;

    /// Whether both colors carry the same three channel values, and so
    /// encode to the same plane bits.
    fn same_channels(&self, other: &Self) -> (r: bool)
        ensures
            r == (self.red_value() == other.red_value() && self.green_value()
                == other.green_value() && self.blue_value() == other.blue_value()),
    ;

    /// The color whose three channels are all zero: black.
    fn default_color() -> (c: Self)
        ensures
            c.red_value() == 0,
            c.green_value() == 0,
            c.blue_value() == 0,
    ;
}

/// Whether two colors carry the same three channel values.
pub open spec fn same_rgb<C: Color>(a: C, b: C) -> bool {
    &&& a.red_value() == b.red_value()
    &&& a.green_value() == b.green_value()
    &&& a.blue_value() == b.blue_value()
}

/// A 24-bit color with one byte per channel.
#[derive(Copy, Clone, Debug, PartialEq, Eq, Structural)]
pub struct Rgb {
    /// The red channel.
    pub r: u8,
    /// The green channel.
    pub g: u8,
    /// The blue channel.
    pub b: u8,
}

impl Rgb {
    /// A color from its three channel bytes.
    pub fn new(r: u8, g: u8, b: u8) -> (c: Rgb)
        ensures
            c == (Rgb { r, g, b }),
    {
        Rgb { r, g, b }
    }
}

impl Color for Rgb {
    open spec fn red_value(&self) -> u16 {
        self.r as u16
    }

    open spec fn green_value(&self) -> u16 {
        self.g as u16
    }

    open spec fn blue_value(&self) -> u16 {
        self.b as u16
    }

    fn red(&self) -> (r: u16) {
        self.r as u16
    }

    fn green(&self) -> (r: u16) {
        self.g as u16
    }

    fn blue(&self) -> (r: u16) {
        self.b as u16
    }

    fn same_channels(&self, other: &Self) -> (r: bool) {
        self.r == other.r && self.g == other.g && self.b == other.b
    }

    fn default_color() -> (c: Self) {
        Rgb { r: 0, g: 0, b: 0 }
    }
}

/// Bit `b` of a 32-bit dirty bitmap element.
pub open spec fn bit32(w: u32, b: u32) -> bool {
    (w >> b) & 1 == 1
}

/// The element with bit `b` set.
pub open spec fn set_bit32(w: u32, b: u32) -> u32 {
    w | (1u32 << b)
}

/// Setting one bit sets exactly that bit.
proof fn lemma_bit32_set(w: u32, b: u32, t: u32)
    by (bit_vector)
    requires
        b < 32,
        t < 32,
    ensures
        bit32(set_bit32(w, b), t) == (bit32(w, t) || t == b),
{
}

/// The executable mask test agrees with the bit reading.
proof fn lemma_bit32_mask_test(w: u32, b: u32)
    by (bit_vector)
    requires
        b < 32,
    ensures
        (w & (1u32 << b) != 0) == bit32(w, b),
{
}

/// A zero element has no bit set.
proof fn lemma_bit32_zero(t: u32)
    by (bit_vector)
    ensures
        !bit32(0u32, t),
{
}

/// How many 32-bit elements a dirty bitmap of `n` pixels needs.
pub open spec fn bitmap_elements(n: int) -> int {
    n / 32 + if n % 32 == 0 {
        0int
    } else {
        1int
    }
}

/// A pixel index lands inside the bitmap, and the bitmap has room for every
/// pixel.
pub proof fn lemma_bitmap_index(i: int, n: int)
    requires
        0 <= i < n,
    ensures
        0 <= i / 32 < bitmap_elements(n),
        n <= 32 * bitmap_elements(n),
{
    lemma_fundamental_div_mod(n, 32);
    lemma_fundamental_div_mod(i, 32);
    lemma_div_is_ordered(i, n - 1, 32);
    lemma_div_pos_is_pos(i, 32);
    if n % 32 == 0 {
        lemma_fundamental_div_mod_converse_div(n - 1, 32, n / 32 - 1, 31);
    }
}

/// The frame words after replaying the first `n` pixels' outstanding
/// changes, in ascending pixel index order: each pixel whose dirty bit is
/// set is re-encoded from its stored color; the rest leave the frame alone.
pub open spec fn spec_replay<C: Color>(
    words: Seq<u16>,
    cfg: MatrixConfig,
    pixels: Seq<C>,
    dirty: Seq<u32>,
    cw: int,
    n: int,
) -> Seq<u16>
    decreases n,
{
    if n <= 0 {
        words
    } else {
        let prev = spec_replay(words, cfg, pixels, dirty, cw, n - 1);
        let i = n - 1;
        if bit32(dirty[i / 32], (i % 32) as u32) {
            spec_set_pixel_words(
                prev,
                cfg,
                i % cw,
                i / cw,
                pixels[i].red_value(),
                pixels[i].green_value(),
                pixels[i].blue_value(),
            )
        } else {
            prev
        }
    }
}

/// Replaying a stretch of pixels none of which is dirty leaves the frame
/// words alone.
pub proof fn lemma_replay_skip<C: Color>(
    words: Seq<u16>,
    cfg: MatrixConfig,
    pixels: Seq<C>,
    dirty: Seq<u32>,
    cw: int,
    a: int,
    b: int,
)
    requires
        0 <= a <= b,
        forall|i: int| a <= i < b ==> !bit32(dirty[i / 32], #[trigger] ((i % 32) as u32)),
    ensures
        spec_replay(words, cfg, pixels, dirty, cw, b) == spec_replay(
            words,
            cfg,
            pixels,
            dirty,
            cw,
            a,
        ),
    decreases b - a,
{
    if a < b {
        lemma_replay_skip(words, cfg, pixels, dirty, cw, a, b - 1);
    }
}

/// The draw-relevant state of a matrix: the stored colors, the dirty
/// bitmap, and the words of the pending frame buffer if one is attached.
pub ghost struct DrawState<C> {
    /// The stored colors, in pixel index order.
    pub pixels: Seq<C>,
    /// The dirty bitmap elements.
    pub dirty: Seq<u32>,
    /// The words of the pending frame buffer, if one is attached.
    pub pending_words: Option<Seq<u16>>,
}

/// One bulk-draw step: a pair whose coordinate is negative or out of
/// bounds is silently discarded; any other pair is written exactly as
/// `set_pixel` writes it.
pub open spec fn draw_step<C: Color>(
    s: DrawState<C>,
    cfg: MatrixConfig,
    x: int,
    y: int,
    c: C,
) -> DrawState<C> {
    let cw = cfg.width as int * cfg.chain_length as int;
    if x < 0 || y < 0 || x >= cw || y >= cfg.height as int {
        s
    } else {
        let idx = y * cw + x;
        let differs = !same_rgb(s.pixels[idx], c);
        DrawState {
            pixels: s.pixels.update(idx, c),
            dirty: if differs {
                s.dirty.update(idx / 32, set_bit32(s.dirty[idx / 32], (idx % 32) as u32))
            } else {
                s.dirty
            },
            pending_words: if differs {
                match s.pending_words {
                    Option::Some(words) => Option::Some(
                        spec_set_pixel_words(
                            words,
                            cfg,
                            x,
                            y,
                            c.red_value(),
                            c.green_value(),
                            c.blue_value(),
                        ),
                    ),
                    Option::None => Option::None,
                }
            } else {
                s.pending_words
            },
        }
    }
}

/// The draw-relevant state after applying every pair of `pts` in order.
pub open spec fn draw_fold<C: Color>(
    s: DrawState<C>,
    cfg: MatrixConfig,
    pts: Seq<(i32, i32, C)>,
) -> DrawState<C>
    decreases pts.len(),
{
    if pts.len() == 0 {
        s
    } else {
        let prev = draw_fold(s, cfg, pts.drop_last());
        let last = pts.last();
        draw_step(prev, cfg, last.0 as int, last.1 as int, last.2)
    }
}

/// The logical pixel surface with per-pixel dirty tracking and an optional
/// pending frame buffer that writes are pushed through to.
pub struct RgbMatrix<C: Color + Copy> {
    /// The panel geometry, fixed at construction.
    pub config: MatrixConfig,
    /// The stored colors, row by row: the pixel at `(x, y)` sits at index
    /// `y * chain_width + x`.
    pub pixels: Vec<C>,
    /// One dirty bit per pixel, 32 pixels per element, in pixel index
    /// order.
    pub dirty_bitmap: Vec<u32>,
    /// The panel brightness level.
    pub brightness: u8,
    /// Whether the brightness changed since the last replay.
    pub brightness_dirty: bool,
    /// The frame buffer writes are currently pushed through to, if any.
    pub pending: Option<FrameBuffer>,
}

impl<C: Color + Copy> RgbMatrix<C> {
    /// Width of the whole chained display in pixels.
    pub open spec fn spec_chain_width(&self) -> int {
        self.config.width as int * self.config.chain_length as int
    }

    /// How many logical pixels the surface holds.
    pub open spec fn pixel_count(&self) -> int {
        self.config.height as int * self.spec_chain_width()
    }

    /// The stored color of the pixel at `(x, y)`.
    pub open spec fn pixel_at(&self, x: int, y: int) -> C {
        self.pixels@[y * self.spec_chain_width() + x]
    }

    /// Whether the pixel with flat index `i` is flagged dirty.
    pub open spec fn dirty_at(&self, i: int) -> bool {
        bit32(self.dirty_bitmap@[i / 32], (i % 32) as u32)
    }

    /// Well-formedness: valid geometry, one stored color per pixel, a dirty
    /// bit for every pixel with the bits past the last pixel always clear,
    /// and a pending buffer (if any) laid out for the same geometry.
    pub open spec fn wf(&self) -> bool {
        &&& self.config.valid()
        &&& self.pixels@.len() == self.pixel_count()
        &&& self.dirty_bitmap@.len() == bitmap_elements(self.pixel_count())
        &&& forall|i: int|
            self.pixel_count() <= i < 32 * self.dirty_bitmap@.len() ==> !self.dirty_at(i)
        &&& match self.pending {
            Option::Some(fb) => fb.wf() && fb.config.same_geometry(&self.config),
            Option::None => true,
        }
    }

    /// A blank surface for the given geometry: every pixel black, nothing
    /// dirty, brightness at its default of 128, no pending buffer.
    pub fn new(config: MatrixConfig) -> (m: Self)
        requires
            config.valid(),
        ensures
            m.wf(),
            m.config == config,
            m.brightness == 128,
            !m.brightness_dirty,
            m.pending is None,
            forall|i: int| 0 <= i < m.dirty_bitmap@.len() ==> m.dirty_bitmap@[i] == 0,
            forall|i: int| 0 <= i < m.pixels@.len() ==> (#[trigger] m.pixels@[i]).red_value() == 0
                && m.pixels@[i].green_value() == 0 && m.pixels@[i].blue_value() == 0,
    {
        let chain_width = config.chain_width();
        proof {
            let h = config.height as int;
            let w = config.width as int;
            let c = config.chain_length as int;
            assert(h * (w * c) == w * c * h) by (nonlinear_arith);
            assert(h * (w * c) >= 0) by (nonlinear_arith)
                requires h >= 0 && w * c >= 0;
        }
        let pixel_count = config.height * chain_width;
        let fill = C::default_color();
        let mut pixels: Vec<C> = Vec::new();
        while pixels.len() < pixel_count
            invariant
                pixels@.len() <= pixel_count,
                fill.red_value() == 0 && fill.green_value() == 0 && fill.blue_value() == 0,
                forall|i: int| 0 <= i < pixels@.len() ==> pixels@[i] == fill,
            decreases pixel_count - pixels@.len(),
        {
            pixels.push(fill);
        }
        let elements = pixel_count / 32 + if pixel_count % 32 == 0 {
            0
        } else {
            1
        };
        let mut dirty_bitmap: Vec<u32> = Vec::new();
        while dirty_bitmap.len() < elements
            invariant
                dirty_bitmap@.len() <= elements,
                forall|i: int| 0 <= i < dirty_bitmap@.len() ==> dirty_bitmap@[i] == 0,
            decreases elements - dirty_bitmap@.len(),
        {
            dirty_bitmap.push(0u32);
        }
        let m = RgbMatrix {
            config,
            pixels,
            dirty_bitmap,
            brightness: 128,
            brightness_dirty: false,
            pending: Option::None,
        };
        proof {
            assert forall|i: int|
                m.pixel_count() <= i < 32 * m.dirty_bitmap@.len() implies !m.dirty_at(i) by {
                if 0 <= i / 32 < m.dirty_bitmap@.len() {
                    lemma_bit32_zero((i % 32) as u32);
                }
            }
        }
        m
    }

    /// Height of the panel in pixels.
    pub fn height(&self) -> (r: usize)
        ensures
            r == self.config.height,
    {
        self.config.height
    }

    /// Width of one panel in pixels.
    pub fn panel_width(&self) -> (r: usize)
        ensures
            r == self.config.width,
    {
        self.config.width
    }

    /// Width of the whole chained display in pixels.
    pub fn chain_width(&self) -> (r: usize)
        requires
            self.config.valid(),
        ensures
            r == self.spec_chain_width(),
    {
        self.config.chain_width()
    }

    /// The panel brightness level.
    pub fn brightness(&self) -> (r: u8)
        ensures
            r == self.brightness,
    {
        self.brightness
    }

    /// Store a new brightness level. The level is flagged for replay into
    /// the next attached frame buffer rather than pushed out pixel by
    /// pixel; storing the level already in effect clears the flag.
    pub fn set_brightness(&mut self, new_brightness: u8)
        ensures
            final(self).brightness == new_brightness,
            final(self).brightness_dirty == (new_brightness != old(self).brightness),
            final(self).config == old(self).config,
            final(self).pixels == old(self).pixels,
            final(self).dirty_bitmap == old(self).dirty_bitmap,
            final(self).pending == old(self).pending,
    {
        self.brightness_dirty = new_brightness != self.brightness;
        self.brightness = new_brightness;
    }

    /// Write one pixel of the logical surface.
    ///
    /// A coordinate outside the panel extent is rejected with
    /// `OutOfBounds` and nothing changes. Otherwise the color is stored;
    /// if it differs from the stored one (in its channel values), the
    /// pixel's dirty bit is set — writing an already-stored color flags
    /// nothing — and, when a frame buffer is pending, the single pixel is
    /// immediately re-encoded into it.
    pub fn set_pixel(&mut self, x: usize, y: usize, new_color: C) -> (r: Result<(), MatrixError>)
        requires
            old(self).wf(),
        ensures
            final(self).wf(),
            final(self).config == old(self).config,
            final(self).brightness == old(self).brightness,
            final(self).brightness_dirty == old(self).brightness_dirty,
            r is Err <==> (x >= old(self).spec_chain_width() || y >= old(self).config.height),
            r matches Err(e) ==> e == MatrixError::OutOfBounds && *final(self) == *old(self),
            r is Ok ==> final(self).pixels@ == old(self).pixels@.update(
                y * old(self).spec_chain_width() + x,
                new_color,
            ),
            r is Ok ==> final(self).dirty_bitmap@ == (
                if same_rgb(old(self).pixel_at(x as int, y as int), new_color) {
                    old(self).dirty_bitmap@
                } else {
                    old(self).dirty_bitmap@.update(
                        (y * old(self).spec_chain_width() + x) / 32,
                        set_bit32(
                            old(self).dirty_bitmap@[(y * old(self).spec_chain_width() + x) / 32],
                            ((y * old(self).spec_chain_width() + x) % 32) as u32,
                        ),
                    )
                }
            ),
            r is Ok ==> forall|i: int| 0 <= i < old(self).pixel_count()
                ==> final(self).dirty_at(i) == (old(self).dirty_at(i) || (
                    !same_rgb(old(self).pixel_at(x as int, y as int), new_color) && i == y * old(
                        self,
                    ).spec_chain_width() + x
                )),
            (r is Ok && same_rgb(old(self).pixel_at(x as int, y as int), new_color))
                ==> final(self).pending == old(self).pending,
            (r is Ok && !same_rgb(old(self).pixel_at(x as int, y as int), new_color))
                ==> match old(self).pending {
                    Option::Some(fb) => final(self).pending matches Some(fb2) && fb2.config
                        == fb.config && fb2.configured == fb.configured && fb2.words@
                        == spec_set_pixel_words(
                        fb.words@,
                        fb.config,
                        x as int,
                        y as int,
                        new_color.red_value(),
                        new_color.green_value(),
                        new_color.blue_value(),
                    ),
                    Option::None => final(self).pending is None,
                },
    {
        let chain_width = self.config.chain_width();
        if x >= chain_width {
            return Result::Err(MatrixError::OutOfBounds);
        }
        if y >= self.config.height {
            return Result::Err(MatrixError::OutOfBounds);
        }
        proof {
            let h = self.config.height as int;
            let cw = chain_width as int;
            let xi = x as int;
            let yi = y as int;
            assert(yi * cw + xi < h * cw && 0 <= yi * cw + xi) by (nonlinear_arith)
                requires 0 <= yi && yi < h && 0 <= xi && xi < cw;
            let w = self.config.width as int;
            let ch = self.config.chain_length as int;
            assert(h * cw == w * ch * h) by (nonlinear_arith)
                requires cw == w * ch;
            assert(h * cw == self.pixel_count());
            lemma_bitmap_index(yi * cw + xi, h * cw);
        }
        let index = y * chain_width + x;
        let stored = self.pixels[index];
        let ghost old_self = *old(self);
        if !stored.same_channels(&new_color) {
            let element_index = index / 32;
            let bit_index = (index % 32) as u32;
            let element = self.dirty_bitmap[element_index];
            self.dirty_bitmap.set(element_index, element | (1u32 << bit_index));
            match &mut self.pending {
                Option::Some(fb) => {
                    proof {
                        crate::buffer::lemma_valid_derived(fb.config);
                    }
                    fb.set_pixel(x, y, new_color.red(), new_color.green(), new_color.blue());
                },
                Option::None => {},
            }
        }
        self.pixels.set(index, new_color);
        proof {
            let i0 = index as int;
            if !same_rgb(old_self.pixel_at(x as int, y as int), new_color) {
                assert forall|i: int| 0 <= i < 32 * self.dirty_bitmap@.len() implies (#[trigger]
                self.dirty_at(i)) == (old_self.dirty_at(i) || i == i0) by {
                    lemma_fundamental_div_mod(i, 32);
                    lemma_fundamental_div_mod(i0, 32);
                    lemma_multiply_divide_lt(i, 32, self.dirty_bitmap@.len() as int);
                    lemma_div_pos_is_pos(i, 32);
                    if i / 32 == i0 / 32 {
                        lemma_bit32_set(
                            old_self.dirty_bitmap@[i0 / 32],
                            (i0 % 32) as u32,
                            (i % 32) as u32,
                        );
                    }
                }
            }
            assert forall|i: int|
                self.pixel_count() <= i < 32 * self.dirty_bitmap@.len() implies !(#[trigger]
            self.dirty_at(i)) by {
                assert(!old_self.dirty_at(i));
            }
        }
        Result::Ok(())
    }

    /// The frame words `update_dirty` starts its pixel replay from: the
    /// buffer as handed in, with the brightness pass already applied when a
    /// brightness change was outstanding.
    pub open spec fn replay_start(&self, fb: FrameBuffer) -> Seq<u16> {
        if self.brightness_dirty {
            spec_brightness_words(fb.words@, fb.config, self.config.latch_blanking_count)
        } else {
            fb.words@
        }
    }

    /// Replay every outstanding change into `frame_buffer`: a pending
    /// brightness change first, then every dirty pixel, re-encoded from its
    /// stored color in ascending pixel index order. Afterwards the dirty
    /// bitmap is entirely clear and the brightness flag is reset.
    fn update_dirty(&mut self, frame_buffer: &mut FrameBuffer)
        requires
            old(self).wf(),
            old(frame_buffer).wf(),
            old(frame_buffer).config.same_geometry(&old(self).config),
        ensures
            final(self).wf(),
            final(self).config == old(self).config,
            final(self).pixels@ == old(self).pixels@,
            final(self).brightness == old(self).brightness,
            !final(self).brightness_dirty,
            final(self).pending == old(self).pending,
            final(self).dirty_bitmap@.len() == old(self).dirty_bitmap@.len(),
            forall|j: int| 0 <= j < final(self).dirty_bitmap@.len()
                ==> final(self).dirty_bitmap@[j] == 0,
            final(frame_buffer).wf(),
            final(frame_buffer).config == old(frame_buffer).config,
            final(frame_buffer).configured == old(frame_buffer).configured,
            final(frame_buffer).words@ == spec_replay(
                old(self).replay_start(*old(frame_buffer)),
                old(frame_buffer).config,
                old(self).pixels@,
                old(self).dirty_bitmap@,
                old(self).spec_chain_width(),
                old(self).pixel_count(),
            ),
    {
        if self.brightness_dirty {
            frame_buffer.set_brightness_bits(self.config.latch_blanking_count(), self.brightness);
            self.brightness_dirty = false;
        }
        let ghost cfg = frame_buffer.config;
        let ghost mid = frame_buffer.words@;
        let ghost pixels0 = self.pixels@;
        let ghost dirty0 = self.dirty_bitmap@;
        let ghost count = old(self).pixel_count();
        let chain_width = self.config.chain_width();
        proof {
            let h = self.config.height as int;
            let cw = chain_width as int;
            let w = self.config.width as int;
            let ch = self.config.chain_length as int;
            assert(h * cw == w * ch * h && h * cw >= 1) by (nonlinear_arith)
                requires cw == w * ch && 1 <= h && 1 <= w && 1 <= ch;
            lemma_bitmap_index(0, count);
        }
        let len = self.dirty_bitmap.len();
        let mut e: usize = 0;
        while e < len
            invariant
                old(self).wf(),
                self.config == old(self).config,
                self.config.valid(),
                self.pixels@ == pixels0,
                pixels0 == old(self).pixels@,
                self.pending == old(self).pending,
                self.brightness == old(self).brightness,
                !self.brightness_dirty,
                dirty0 == old(self).dirty_bitmap@,
                len == dirty0.len(),
                self.dirty_bitmap@.len() == len,
                count == old(self).pixel_count(),
                count == self.pixel_count(),
                count <= 32 * len as int,
                chain_width == self.spec_chain_width(),
                pixels0.len() == count,
                e <= len,
                forall|j: int| 0 <= j < e ==> self.dirty_bitmap@[j] == 0,
                forall|j: int| e <= j < len ==> self.dirty_bitmap@[j] == dirty0[j],
                frame_buffer.wf(),
                frame_buffer.config == cfg,
                cfg == old(frame_buffer).config,
                cfg.same_geometry(&self.config),
                frame_buffer.configured == old(frame_buffer).configured,
                frame_buffer.words@ == spec_replay(
                    mid,
                    cfg,
                    pixels0,
                    dirty0,
                    chain_width as int,
                    32 * e,
                ),
                mid == old(self).replay_start(*old(frame_buffer)),
            decreases len - e,
        {
            let element = self.dirty_bitmap[e];
            if element != 0 {
                let mut b: u32 = 0;
                while b < 32
                    invariant
                        old(self).wf(),
                        self.config == old(self).config,
                        self.config.valid(),
                        self.pixels@ == pixels0,
                        pixels0 == old(self).pixels@,
                        self.pending == old(self).pending,
                        self.brightness == old(self).brightness,
                        !self.brightness_dirty,
                        dirty0 == old(self).dirty_bitmap@,
                        len == dirty0.len(),
                        self.dirty_bitmap@.len() == len,
                        count == old(self).pixel_count(),
                        count == self.pixel_count(),
                        count <= 32 * len as int,
                        chain_width == self.spec_chain_width(),
                        pixels0.len() == count,
                        e < len,
                        element == dirty0[e as int],
                        b <= 32,
                        forall|j: int| 0 <= j < e ==> self.dirty_bitmap@[j] == 0,
                        forall|j: int| e <= j < len ==> self.dirty_bitmap@[j] == dirty0[j],
                        frame_buffer.wf(),
                        frame_buffer.config == cfg,
                        cfg == old(frame_buffer).config,
                        cfg.same_geometry(&self.config),
                        frame_buffer.configured == old(frame_buffer).configured,
                        frame_buffer.words@ == spec_replay(
                            mid,
                            cfg,
                            pixels0,
                            dirty0,
                            chain_width as int,
                            32 * e + b,
                        ),
                    decreases 32 - b,
                {
                    let ghost i_spec = 32 * e as int + b as int;
                    proof {
                        lemma_fundamental_div_mod_converse_div(i_spec, 32, e as int, b as int);
                        lemma_fundamental_div_mod_converse_mod(i_spec, 32, e as int, b as int);
                        lemma_bit32_mask_test(element, b);
                    }
                    if element & (1u32 << b) != 0 {
                        proof {
                            assert(old(self).dirty_at(i_spec));
                            assert(i_spec < count);
                            let h = self.config.height as int;
                            let cw = chain_width as int;
                            assert(h * cw == cw * h) by (nonlinear_arith);
                            lemma_multiply_divide_lt(i_spec, cw, h);
                            lemma_div_pos_is_pos(i_spec, cw);
                        }
                        let i = e * 32 + (b as usize);
                        let y = i / chain_width;
                        let x = i % chain_width;
                        let color = self.pixels[i];
                        proof {
                            crate::buffer::lemma_valid_derived(cfg);
                            assert(cfg.width as int * cfg.chain_length as int
                                == chain_width as int);
                        }
                        frame_buffer.set_pixel(x, y, color.red(), color.green(), color.blue());
                        proof {
                            assert(frame_buffer.words@ == spec_replay(
                                mid,
                                cfg,
                                pixels0,
                                dirty0,
                                chain_width as int,
                                32 * e + b + 1,
                            ));
                        }
                    } else {
                        proof {
                            assert(!bit32(dirty0[i_spec / 32], (i_spec % 32) as u32));
                            assert(spec_replay(
                                mid,
                                cfg,
                                pixels0,
                                dirty0,
                                chain_width as int,
                                32 * e + b + 1,
                            ) == spec_replay(mid, cfg, pixels0, dirty0, chain_width as int, 32 * e
                                + b));
                        }
                    }
                    b = b + 1;
                }
                self.dirty_bitmap.set(e, 0);
            } else {
                proof {
                    assert forall|i: int| 32 * e <= i < 32 * e + 32 implies !bit32(
                        dirty0[i / 32],
                        #[trigger] ((i % 32) as u32),
                    ) by {
                        lemma_fundamental_div_mod_converse_div(i, 32, e as int, i - 32 * e as int);
                        lemma_fundamental_div_mod_converse_mod(i, 32, e as int, i - 32 * e as int);
                        lemma_bit32_zero((i % 32) as u32);
                    }
                    lemma_replay_skip(
                        mid,
                        cfg,
                        pixels0,
                        dirty0,
                        chain_width as int,
                        32 * e as int,
                        32 * e as int + 32,
                    );
                }
            }
            e = e + 1;
        }
        proof {
            assert forall|i: int| count <= i < 32 * len implies !bit32(
                dirty0[i / 32],
                #[trigger] ((i % 32) as u32),
            ) by {
                assert(!old(self).dirty_at(i));
            }
            lemma_replay_skip(mid, cfg, pixels0, dirty0, chain_width as int, count, 32 * len as int);
            assert forall|i: int|
                self.pixel_count() <= i < 32 * self.dirty_bitmap@.len() implies !(#[trigger]
            self.dirty_at(i)) by {
                lemma_multiply_divide_lt(i, 32, len as int);
                lemma_div_pos_is_pos(i, 32);
                lemma_bit32_zero((i % 32) as u32);
            }
        }
    }

    /// Replay every outstanding change — a pending brightness change, then
    /// every dirty pixel — into `frame_buffer`, clearing the dirty state.
    pub fn flush(&mut self, frame_buffer: &mut FrameBuffer)
        requires
            old(self).wf(),
            old(frame_buffer).wf(),
            old(frame_buffer).config.same_geometry(&old(self).config),
        ensures
            final(self).wf(),
            final(self).config == old(self).config,
            final(self).pixels@ == old(self).pixels@,
            final(self).brightness == old(self).brightness,
            !final(self).brightness_dirty,
            final(self).pending == old(self).pending,
            final(self).dirty_bitmap@.len() == old(self).dirty_bitmap@.len(),
            forall|j: int| 0 <= j < final(self).dirty_bitmap@.len()
                ==> final(self).dirty_bitmap@[j] == 0,
            final(frame_buffer).wf(),
            final(frame_buffer).config == old(frame_buffer).config,
            final(frame_buffer).configured == old(frame_buffer).configured,
            final(frame_buffer).words@ == spec_replay(
                old(self).replay_start(*old(frame_buffer)),
                old(frame_buffer).config,
                old(self).pixels@,
                old(self).dirty_bitmap@,
                old(self).spec_chain_width(),
                old(self).pixel_count(),
            ),
    {
        self.update_dirty(frame_buffer)
    }

    /// Attach `new_frame_buffer` as the write-through target, first
    /// replaying every outstanding change into it, and hand back whatever
    /// buffer was pending before — the double-buffer handoff point.
    pub fn set_pending(&mut self, new_frame_buffer: FrameBuffer) -> (prev: Option<FrameBuffer>)
        requires
            old(self).wf(),
            new_frame_buffer.wf(),
            new_frame_buffer.config.same_geometry(&old(self).config),
        ensures
            final(self).wf(),
            final(self).config == old(self).config,
            final(self).pixels@ == old(self).pixels@,
            final(self).brightness == old(self).brightness,
            !final(self).brightness_dirty,
            final(self).dirty_bitmap@.len() == old(self).dirty_bitmap@.len(),
            forall|j: int| 0 <= j < final(self).dirty_bitmap@.len()
                ==> final(self).dirty_bitmap@[j] == 0,
            prev == old(self).pending,
            final(self).pending matches Some(fb) && fb.config == new_frame_buffer.config
                && fb.configured == new_frame_buffer.configured && fb.words@ == spec_replay(
                old(self).replay_start(new_frame_buffer),
                new_frame_buffer.config,
                old(self).pixels@,
                old(self).dirty_bitmap@,
                old(self).spec_chain_width(),
                old(self).pixel_count(),
            ),
    {
        let mut fb = new_frame_buffer;
        self.update_dirty(&mut fb);
        let prev = self.pending.take();
        self.pending = Some(fb);
        proof {
            assert forall|i: int|
                self.pixel_count() <= i < 32 * self.dirty_bitmap@.len() implies !(#[trigger]
            self.dirty_at(i)) by {
                lemma_multiply_divide_lt(i, 32, self.dirty_bitmap@.len() as int);
                lemma_div_pos_is_pos(i, 32);
                lemma_bit32_zero((i % 32) as u32);
            }
        }
        prev
    }

    /// The draw-relevant state of this matrix.
    pub open spec fn draw_state(&self) -> DrawState<C> {
        DrawState {
            pixels: self.pixels@,
            dirty: self.dirty_bitmap@,
            pending_words: match self.pending {
                Option::Some(fb) => Option::Some(fb.words@),
                Option::None => Option::None,
            },
        }
    }

    /// Apply a batch of (x, y, color) writes in order, silently discarding
    /// every pair with a negative or out-of-bounds coordinate. This bulk
    /// path never reports failure, so generic drawing code can use it
    /// without per-pixel error handling.
    pub fn draw_iter(&mut self, pixels: &Vec<(i32, i32, C)>)
        requires
            old(self).wf(),
        ensures
            final(self).wf(),
            final(self).config == old(self).config,
            final(self).brightness == old(self).brightness,
            final(self).brightness_dirty == old(self).brightness_dirty,
            final(self).draw_state() == draw_fold(
                old(self).draw_state(),
                old(self).config,
                pixels@,
            ),
            old(self).pending matches Some(fb) ==> final(self).pending matches Some(fb2)
                && fb2.config == fb.config && fb2.configured == fb.configured,
            old(self).pending is None ==> final(self).pending is None,
    {
        let ghost s0 = old(self).draw_state();
        let ghost cfg = old(self).config;
        let mut k: usize = 0;
        while k < pixels.len()
            invariant
                self.wf(),
                self.config == cfg,
                cfg == old(self).config,
                self.brightness == old(self).brightness,
                self.brightness_dirty == old(self).brightness_dirty,
                k <= pixels.len(),
                s0 == old(self).draw_state(),
                self.draw_state() == draw_fold(s0, cfg, pixels@.take(k as int)),
                old(self).pending matches Some(fb) ==> self.pending matches Some(fb2) && fb2.config
                    == fb.config && fb2.configured == fb.configured,
                old(self).pending is None ==> self.pending is None,
            decreases pixels.len() - k,
        {
            let (x, y, c) = pixels[k];
            let ghost before = self.draw_state();
            if x >= 0 && y >= 0 {
                let _ = self.set_pixel(x as usize, y as usize, c);
            }
            proof {
                assert(pixels@.take(k as int + 1).drop_last() =~= pixels@.take(k as int));
                assert(pixels@.take(k as int + 1).last() == pixels@[k as int]);
                let xi = x as int;
                let yi = y as int;
                let cw = cfg.width as int * cfg.chain_length as int;
                let stepped = draw_step(before, cfg, xi, yi, c);
                if 0 <= xi && 0 <= yi && xi < cw && yi < cfg.height as int {
                    assert(self.pixels@ == stepped.pixels);
                    assert(self.dirty_bitmap@ == stepped.dirty);
                    assert(self.draw_state().pending_words == stepped.pending_words);
                } else {
                    assert(self.draw_state() == before);
                }
                assert(self.draw_state() == draw_step(before, cfg, x as int, y as int, c));
            }
            k = k + 1;
        }
        proof {
            assert(pixels@.take(pixels@.len() as int) =~= pixels@);
        }
    }

    /// Encode the control bits and the brightness pass into `frame_buffer`
    /// using this surface's latch blanking count and brightness, and mark
    /// the buffer configured.
    pub fn configure_frame_buffer(&self, frame_buffer: &mut FrameBuffer)
        requires
            old(frame_buffer).wf(),
        ensures
            final(frame_buffer).wf(),
            final(frame_buffer).config == old(frame_buffer).config,
            final(frame_buffer).configured,
            final(frame_buffer).words@ == spec_brightness_words(
                spec_control_words(
                    old(frame_buffer).words@,
                    old(frame_buffer).config,
                    self.config.latch_blanking_count,
                ),
                old(frame_buffer).config,
                self.config.latch_blanking_count,
            ),
    {
        frame_buffer.configure(self.config.latch_blanking_count(), self.brightness);
    }
}

} // verus!

//! The packed, hardware-ready representation of one frame.
//!
//! A frame holds `scanlines_per_frame` scanline groups; each group holds
//! `color_depth` BCD bit-significance planes; each plane holds
//! `words_per_plane` 16-bit words. The words are stored flat, plane after
//! plane, scanline after scanline: the word for scanline `s`, plane `p`,
//! column `c` sits at index `(s * color_depth + p) * words_per_plane + c`.

use vstd::arithmetic::div_mod::*;
use vstd::prelude::*;

use crate::config::MatrixConfig;
use crate::matrix_word::{
    address_bits, blue_mask, clamped_address, green_mask, masked_bit, red_mask, with_address,
    with_masked_bit, MatrixPixel, MatrixWordMut, LATCH_MASK, OUTPUT_ENABLE_MASK,
};

verus! {

/// Bit `index` of a channel value, bit 0 being the least significant.
pub open spec fn channel_bit(value: u16, index: u16) -> bool {
    (value >> index) & 1 == 1
}

/// A color channel value whose bits can be read out one at a time for BCD
/// plane assignment.
pub trait ColorStorage {
    /// The channel value, widened to 16 bits.
    spec fn channel_value(&self) -> u16;

    /// Bit `index` of the channel value, bit 0 first.
    fn channel_bit_at(&self, index: u16) -> (b: bool)
        requires
            index < 16,
        ensures
            b == channel_bit(self.channel_value(), index),
    ;
}

impl ColorStorage for u8 {
    open spec fn channel_value(&self) -> u16 {
        *self as u16
    }

    fn channel_bit_at(&self, index: u16) -> (b: bool) {
        ((*self as u16) >> index) & 1 == 1
    }
}

impl ColorStorage for u16 {
    open spec fn channel_value(&self) -> u16 {
        *self
    }

    fn channel_bit_at(&self, index: u16) -> (b: bool) {
        (*self >> index) & 1 == 1
    }
}

/// The first `depth` bits of a channel value, bit 0 first.
///
/// The sequence is rebuilt from the value on every call; there is no hidden
/// iteration state.
pub fn bits_of<CS: ColorStorage>(value: &CS, depth: usize) -> (r: Vec<bool>)
    requires
        depth <= 16,
    ensures
        r@.len() == depth,
        forall|i: int| 0 <= i < depth ==> r@[i] == channel_bit(value.channel_value(), i as u16),
{
    let mut bits: Vec<bool> = Vec::new();
    let mut i: usize = 0;
    while i < depth
        invariant
            i <= depth,
            depth <= 16,
            bits@.len() == i,
            forall|j: int| 0 <= j < i ==> bits@[j] == channel_bit(value.channel_value(), j as u16),
        decreases depth - i,
    {
        bits.push(value.channel_bit_at(i as u16));
        i = i + 1;
    }
    bits
}

/// Flat storage index of the word for scanline `s`, plane `p`, column `c`.
pub open spec fn flat_index(cfg: MatrixConfig, s: int, p: int, c: int) -> int {
    (s * cfg.color_depth as int + p) * cfg.spec_words_per_plane() + c
}

/// The scanline group that flat index `i` belongs to.
pub open spec fn scanline_of(cfg: MatrixConfig, i: int) -> int {
    i / (cfg.color_depth as int * cfg.spec_words_per_plane())
}

/// The color plane that flat index `i` belongs to.
pub open spec fn plane_of(cfg: MatrixConfig, i: int) -> int {
    (i / cfg.spec_words_per_plane()) % cfg.color_depth as int
}

/// The column that flat index `i` belongs to.
pub open spec fn column_of(cfg: MatrixConfig, i: int) -> int {
    i % cfg.spec_words_per_plane()
}

/// Derived facts about a valid geometry: the scanline count equals the
/// denominator, one plane holds at least one word and at least one word per
/// chained pixel column, and the word counts compose.
pub proof fn lemma_valid_derived(cfg: MatrixConfig)
    requires
        cfg.valid(),
    ensures
        cfg.spec_scanlines_per_frame() == cfg.per_frame_denominator as int,
        cfg.width as int * cfg.chain_length as int <= cfg.spec_words_per_plane(),
        1 <= cfg.spec_words_per_plane(),
        cfg.spec_words_per_frame() == cfg.spec_scanlines_per_frame() * cfg.color_depth as int
            * cfg.spec_words_per_plane(),
        1 <= cfg.spec_scanlines_per_frame() <= 32,
{
    let w = cfg.width as int;
    let ch = cfg.chain_length as int;
    let h = cfg.height as int;
    let d = cfg.per_frame_denominator as int;
    let depth = cfg.color_depth as int;
    let k = h / d;
    lemma_fundamental_div_mod(h, d);
    assert(h == d * k);
    assert(2 <= k) by (nonlinear_arith)
        requires 0 < d && 2 * d <= h && h == d * k;
    // The scanline count h / (h / d) collapses to the denominator d.
    lemma_fundamental_div_mod_converse_div(h, k, d, 0);
    assert(cfg.spec_scanlines_per_frame() == d);
    // words_per_plane == (w * ch * k) / 2
    assert(w * ch * h == (w * ch * k) * d) by (nonlinear_arith)
        requires h == d * k;
    lemma_fundamental_div_mod_converse_div(w * ch * h, d, w * ch * k, 0);
    assert(w * ch * h / d == w * ch * k);
    let wck = w * ch * k;
    assert(cfg.spec_words_per_plane() == wck / 2);
    // One word per chained pixel column: w * ch <= (w * ch * k) / 2.
    assert(2 * (w * ch) <= wck) by (nonlinear_arith)
        requires 2 <= k && 1 <= w && 1 <= ch && wck == w * ch * k;
    lemma_div_is_ordered(2 * (w * ch), wck, 2);
    lemma_div_multiples_vanish(w * ch, 2);
    assert(w * ch <= wck / 2);
    assert(1 <= w * ch) by (nonlinear_arith)
        requires 1 <= w && 1 <= ch;
    // The frame word count is the product of the three extents.
    let wpp = cfg.spec_words_per_plane();
    assert(wpp * depth * d == d * depth * wpp) by (nonlinear_arith);
}

/// The flat index of an in-range word is in range, and decomposes back into
/// the scanline, plane and column it was built from.
pub proof fn lemma_flat_index(cfg: MatrixConfig, s: int, p: int, c: int)
    requires
        cfg.valid(),
        0 <= s < cfg.spec_scanlines_per_frame(),
        0 <= p < cfg.color_depth,
        0 <= c < cfg.spec_words_per_plane(),
    ensures
        0 <= flat_index(cfg, s, p, c) < cfg.spec_words_per_frame(),
        scanline_of(cfg, flat_index(cfg, s, p, c)) == s,
        plane_of(cfg, flat_index(cfg, s, p, c)) == p,
        column_of(cfg, flat_index(cfg, s, p, c)) == c,
{
    lemma_valid_derived(cfg);
    let depth = cfg.color_depth as int;
    let spf = cfg.spec_scanlines_per_frame();
    let wpp = cfg.spec_words_per_plane();
    let q = s * depth + p;
    let i = q * wpp + c;
    assert(0 <= q * wpp) by (nonlinear_arith)
        requires 0 <= q && 0 <= wpp;
    // Range: q <= spf * depth - 1, so i <= spf * depth * wpp - 1.
    assert(q + 1 <= spf * depth) by (nonlinear_arith)
        requires q == s * depth + p && s < spf && 0 <= s && p < depth && 0 <= p;
    assert(q * wpp + c < (spf * depth) * wpp) by (nonlinear_arith)
        requires 0 <= c < wpp && 0 <= q && q + 1 <= spf * depth;
    assert((spf * depth) * wpp == spf * depth * wpp) by (nonlinear_arith);
    // column_of(i) == c and i / wpp == q.
    lemma_fundamental_div_mod_converse_mod(i, wpp, q, c);
    lemma_fundamental_div_mod_converse_div(i, wpp, q, c);
    // plane_of(i) == q % depth == p.
    lemma_fundamental_div_mod_converse_mod(q, depth, s, p);
    // scanline_of(i) == i / (depth * wpp) == s.
    let r = p * wpp + c;
    assert(0 <= r && r < depth * wpp) by (nonlinear_arith)
        requires r == p * wpp + c && 0 <= p && p + 1 <= depth && 0 <= c && c < wpp && 1 <= wpp;
    assert(i == s * (depth * wpp) + r) by (nonlinear_arith)
        requires i == (s * depth + p) * wpp + c && r == p * wpp + c;
    lemma_fundamental_div_mod_converse_div(i, depth * wpp, s, r);
}

/// Every in-range flat index decomposes into an in-range scanline, plane and
/// column, and is rebuilt from them.
pub proof fn lemma_flat_index_inverse(cfg: MatrixConfig, i: int)
    requires
        cfg.valid(),
        0 <= i < cfg.spec_words_per_frame(),
    ensures
        0 <= scanline_of(cfg, i) < cfg.spec_scanlines_per_frame(),
        0 <= plane_of(cfg, i) < cfg.color_depth,
        0 <= column_of(cfg, i) < cfg.spec_words_per_plane(),
        i == flat_index(cfg, scanline_of(cfg, i), plane_of(cfg, i), column_of(cfg, i)),
{
    lemma_valid_derived(cfg);
    let depth = cfg.color_depth as int;
    let wpp = cfg.spec_words_per_plane();
    let spf = cfg.spec_scanlines_per_frame();
    let dw = depth * wpp;
    assert(0 < dw) by (nonlinear_arith)
        requires dw == depth * wpp && 1 <= depth && 1 <= wpp;
    let s = i / dw;
    let q = i / wpp;
    let p = q % depth;
    let c = i % wpp;
    lemma_div_pos_is_pos(i, dw);
    lemma_div_pos_is_pos(i, wpp);
    assert(cfg.spec_words_per_frame() == dw * spf) by (nonlinear_arith)
        requires cfg.spec_words_per_frame() == spf * depth * wpp && dw == depth * wpp;
    lemma_multiply_divide_lt(i, dw, spf);
    lemma_fundamental_div_mod(i, wpp);
    lemma_fundamental_div_mod(q, depth);
    lemma_div_denominator(i, wpp, depth);
    assert(dw == wpp * depth) by (nonlinear_arith)
        requires dw == depth * wpp;
    assert(q == depth * s + p);
    assert(i == wpp * (depth * s + p) + c);
    assert(i == (s * depth + p) * wpp + c) by (nonlinear_arith)
        requires i == wpp * (depth * s + p) + c;
}

/// Which of the two sub-rows encoded in one word row `y` lands in: rows in
/// the upper half of the panel use bits 0-2, rows in the lower half bits 3-5.
pub open spec fn subrow_of(cfg: MatrixConfig, y: int) -> MatrixPixel {
    if y < cfg.height as int / 2 {
        MatrixPixel::One
    } else {
        MatrixPixel::Two
    }
}

/// `w` with the three color bits of the given sub-row replaced by `r`, `g`
/// and `b`; every bit outside that 3-bit field is kept.
pub open spec fn with_subrow_color(w: u16, pixel: MatrixPixel, r: bool, g: bool, b: bool) -> u16 {
    with_masked_bit(
        with_masked_bit(with_masked_bit(w, red_mask(pixel), r), green_mask(pixel), g),
        blue_mask(pixel),
        b,
    )
}

/// The word that plane `p` holds after a pixel write of the given channel
/// values to row `y`: bit `p` of each channel lands in the sub-row field.
pub open spec fn pixel_word(
    w: u16,
    cfg: MatrixConfig,
    y: int,
    p: int,
    red: u16,
    green: u16,
    blue: u16,
) -> u16 {
    with_subrow_color(
        w,
        subrow_of(cfg, y),
        channel_bit(red, p as u16),
        channel_bit(green, p as u16),
        channel_bit(blue, p as u16),
    )
}

/// The whole frame after a pixel write: in the scanline group of row `y`,
/// the word at column `x` of every plane gets its sub-row color field
/// replaced; every other word is kept.
pub open spec fn spec_set_pixel_words(
    words: Seq<u16>,
    cfg: MatrixConfig,
    x: int,
    y: int,
    red: u16,
    green: u16,
    blue: u16,
) -> Seq<u16> {
    Seq::new(
        words.len(),
        |i: int|
            if scanline_of(cfg, i) == y % cfg.per_frame_denominator as int && column_of(cfg, i)
                == x {
                pixel_word(words[i], cfg, y, plane_of(cfg, i), red, green, blue)
            } else {
                words[i]
            },
    )
}

/// Two to the power `e` (1 for any exponent at or below zero).
pub open spec fn pow2_of(e: int) -> int
    decreases e,
{
    if e <= 0 {
        1
    } else {
        2 * pow2_of(e - 1)
    }
}

/// Powers of two are positive and grow with the exponent.
pub proof fn lemma_pow2_of_monotone(a: int, b: int)
    requires
        a <= b,
    ensures
        1 <= pow2_of(a) <= pow2_of(b),
    decreases b - a,
{
    if a < b {
        lemma_pow2_of_monotone(a, b - 1);
    } else if a == b {
        lemma_pow2_of_monotone_base(a);
    }
}

/// Every power of two is at least one.
proof fn lemma_pow2_of_monotone_base(e: int)
    ensures
        1 <= pow2_of(e),
    decreases e,
{
    if e > 0 {
        lemma_pow2_of_monotone_base(e - 1);
    }
}

/// A bound on the powers of two that a color depth can produce.
pub proof fn lemma_pow2_of_depth_bound(e: int)
    requires
        e <= 16,
    ensures
        1 <= pow2_of(e) <= 65536,
{
    lemma_pow2_of_monotone(e, 16);
    reveal_with_fuel(pow2_of, 18);
    assert(pow2_of(16) == 65536);
}

/// The source of every output segment of one plane's block, in emission
/// order: plane `p`'s scanline rows, the whole round repeated `2^p` times.
pub open spec fn plane_block(cfg: MatrixConfig, p: int) -> Seq<(int, int)> {
    Seq::new(
        (pow2_of(p) * cfg.spec_scanlines_per_frame()) as nat,
        |j: int| (j % cfg.spec_scanlines_per_frame(), p),
    )
}

/// The (scanline, plane) source of every output segment of the first
/// `depth` planes, in emission order: the blocks of plane 0, 1, ... in
/// turn. Plane `p`'s block recurs `2^p` times, so bit `p` of every channel
/// is displayed `2^p` times as long as bit 0 within one frame.
pub open spec fn segment_sources(cfg: MatrixConfig, depth: int) -> Seq<(int, int)>
    decreases depth,
{
    if depth <= 0 {
        Seq::empty()
    } else {
        segment_sources(cfg, depth - 1) + plane_block(cfg, depth - 1)
    }
}

/// How many segments the first `depth` planes emit:
/// `(2^depth - 1) * scanlines_per_frame`.
pub proof fn lemma_segment_sources_len(cfg: MatrixConfig, depth: int)
    requires
        0 <= depth,
        0 <= cfg.spec_scanlines_per_frame(),
    ensures
        segment_sources(cfg, depth).len() == (pow2_of(depth) - 1) * cfg.spec_scanlines_per_frame(),
    decreases depth,
{
    let spf = cfg.spec_scanlines_per_frame();
    if depth == 0 {
        assert((pow2_of(0) - 1) * spf == 0) by (nonlinear_arith);
    } else {
        lemma_segment_sources_len(cfg, depth - 1);
        lemma_pow2_of_monotone(0, depth - 1);
        let h = pow2_of(depth - 1);
        assert(h * spf >= 0) by (nonlinear_arith)
            requires h >= 1 && spf >= 0;
        assert((h - 1) * spf + h * spf == (2 * h - 1) * spf) by (nonlinear_arith);
    }
}

/// The row address encoded into plane `p` of scanline group `s`.
///
/// The first color plane still carries the previous scanline's address: the
/// controller keeps displaying the previous row while the first plane's
/// pixel data for the new row is shifted in, so no row is skipped.
pub open spec fn control_address(s: int, p: int, spf: int) -> int {
    if p == 0 {
        (s + spf - 1) % spf
    } else {
        s
    }
}

/// Whether output is disabled at column `c`: it is disabled outside the
/// non-blanked range `[blanking, words_per_plane - 1 - blanking)`, masking
/// the glitch while the address lines settle around the latch pulse.
pub open spec fn output_enable_asserted(c: int, wpp: int, blanking: u8) -> bool {
    let b = blanking as int;
    !(b <= c && c + b < wpp - 1)
}

/// One word after the control-bit pass: address, latch and output-enable
/// are rewritten from the word's position; the color bits are kept.
pub open spec fn control_word(
    w: u16,
    s: int,
    p: int,
    c: int,
    spf: int,
    wpp: int,
    blanking: u8,
) -> u16 {
    with_masked_bit(
        with_masked_bit(
            with_address(w, control_address(s, p, spf) as u8),
            LATCH_MASK,
            c == wpp - 1,
        ),
        OUTPUT_ENABLE_MASK,
        output_enable_asserted(c, wpp, blanking),
    )
}

/// The whole frame after the control-bit pass.
pub open spec fn spec_control_words(words: Seq<u16>, cfg: MatrixConfig, blanking: u8) -> Seq<u16> {
    Seq::new(
        words.len(),
        |i: int|
            control_word(
                words[i],
                scanline_of(cfg, i),
                plane_of(cfg, i),
                column_of(cfg, i),
                cfg.spec_scanlines_per_frame(),
                cfg.spec_words_per_plane(),
                blanking,
            ),
    )
}

/// Whether the brightness pass touches column `c`: every column at or past
/// the blanking count, or at or before the mirrored position from the end.
pub open spec fn brightness_touched(c: int, wpp: int, blanking: u8) -> bool {
    let b = blanking as int;
    b <= c || c + b <= wpp - 1
}

/// One word after the brightness pass: output is forced on for every
/// touched column; the word is otherwise kept.
pub open spec fn brightness_word(w: u16, c: int, wpp: int, blanking: u8) -> u16 {
    if brightness_touched(c, wpp, blanking) {
        w | OUTPUT_ENABLE_MASK
    } else {
        w
    }
}

/// The whole frame after the brightness pass.
pub open spec fn spec_brightness_words(
    words: Seq<u16>,
    cfg: MatrixConfig,
    blanking: u8,
) -> Seq<u16> {
    Seq::new(
        words.len(),
        |i: int|
            brightness_word(
                words[i],
                column_of(cfg, i),
                cfg.spec_words_per_plane(),
                blanking,
            ),
    )
}

/// Replacing the three color bits of one sub-row makes exactly those three
/// bits carry the written values and leaves every other bit of the word as
/// it was.
proof fn lemma_masked_bits_encode(w: u16, mr: u16, mg: u16, mb: u16, r: bool, g: bool, b: bool)
    by (bit_vector)
    requires
        (mr == 0x1 && mg == 0x2 && mb == 0x4) || (mr == 0x8 && mg == 0x10 && mb == 0x20),
    ensures
        ({
            let nw = with_masked_bit(with_masked_bit(with_masked_bit(w, mr, r), mg, g), mb, b);
            &&& masked_bit(nw, mr) == r
            &&& masked_bit(nw, mg) == g
            &&& masked_bit(nw, mb) == b
            &&& nw & !(mr | mg | mb) == w & !(mr | mg | mb)
            &&& nw & 0xFFC0 == w & 0xFFC0
        }),
{
}

/// Decoding a word written by a pixel write recovers the written channel
/// bits from the sub-row color field, and every bit outside the written
/// sub-row's 3-bit field is unchanged — in particular all control bits.
pub proof fn lemma_pixel_word_round_trip(
    w: u16,
    cfg: MatrixConfig,
    y: int,
    p: int,
    red: u16,
    green: u16,
    blue: u16,
)
    ensures
        ({
            let nw = pixel_word(w, cfg, y, p, red, green, blue);
            let sub = subrow_of(cfg, y);
            &&& masked_bit(nw, red_mask(sub)) == channel_bit(red, p as u16)
            &&& masked_bit(nw, green_mask(sub)) == channel_bit(green, p as u16)
            &&& masked_bit(nw, blue_mask(sub)) == channel_bit(blue, p as u16)
            &&& nw & !(red_mask(sub) | green_mask(sub) | blue_mask(sub)) == w & !(red_mask(sub)
                | green_mask(sub) | blue_mask(sub))
            &&& nw & 0xFFC0 == w & 0xFFC0
        }),
{
    let sub = subrow_of(cfg, y);
    match sub {
        MatrixPixel::One => {
            lemma_masked_bits_encode(
                w,
                0x1,
                0x2,
                0x4,
                channel_bit(red, p as u16),
                channel_bit(green, p as u16),
                channel_bit(blue, p as u16),
            );
        },
        MatrixPixel::Two => {
            lemma_masked_bits_encode(
                w,
                0x8,
                0x10,
                0x20,
                channel_bit(red, p as u16),
                channel_bit(green, p as u16),
                channel_bit(blue, p as u16),
            );
        },
    }
}

/// A pixel write followed by decoding plane `p`'s word at the written
/// column reconstructs bit `p` of every channel: the BCD planes carry the
/// channel bits in plane order.
pub proof fn lemma_set_pixel_round_trip(
    words: Seq<u16>,
    cfg: MatrixConfig,
    x: int,
    y: int,
    red: u16,
    green: u16,
    blue: u16,
    p: int,
)
    requires
        cfg.valid(),
        words.len() == cfg.spec_words_per_frame(),
        0 <= x < cfg.width as int * cfg.chain_length as int,
        0 <= y < cfg.height,
        0 <= p < cfg.color_depth,
    ensures
        ({
            let sl = y % cfg.per_frame_denominator as int;
            let nw = spec_set_pixel_words(words, cfg, x, y, red, green, blue)[flat_index(
                cfg,
                sl,
                p,
                x,
            )];
            let sub = subrow_of(cfg, y);
            &&& masked_bit(nw, red_mask(sub)) == channel_bit(red, p as u16)
            &&& masked_bit(nw, green_mask(sub)) == channel_bit(green, p as u16)
            &&& masked_bit(nw, blue_mask(sub)) == channel_bit(blue, p as u16)
            &&& nw & 0xFFC0 == words[flat_index(cfg, sl, p, x)] & 0xFFC0
        }),
{
    lemma_valid_derived(cfg);
    let sl = y % cfg.per_frame_denominator as int;
    lemma_flat_index(cfg, sl, p, x);
    lemma_pixel_word_round_trip(words[flat_index(cfg, sl, p, x)], cfg, y, p, red, green, blue);
}

/// The fields written by the control-bit pass decode back: the encoded
/// word carries the requested latch and output-enable values and the
/// clamped address, and its low six color bits are the input word's.
proof fn lemma_control_encode(w: u16, a: u8, lv: bool, ov: bool)
    by (bit_vector)
    ensures
        ({
            let nw = with_masked_bit(
                with_masked_bit(with_address(w, a), LATCH_MASK, lv),
                OUTPUT_ENABLE_MASK,
                ov,
            );
            &&& masked_bit(nw, LATCH_MASK) == lv
            &&& masked_bit(nw, OUTPUT_ENABLE_MASK) == ov
            &&& address_bits(nw) == clamped_address(a)
            &&& nw & 0x3F == w & 0x3F
        }),
{
}

/// After the control-bit pass, the latch bit is set in exactly one word of
/// each (scanline, plane) pair: the word in the last column.
pub proof fn lemma_latch_only_in_last_column(
    w: u16,
    s: int,
    p: int,
    c: int,
    spf: int,
    wpp: int,
    blanking: u8,
)
    ensures
        masked_bit(control_word(w, s, p, c, spf, wpp, blanking), LATCH_MASK) == (c == wpp - 1),
{
    lemma_control_encode(
        w,
        control_address(s, p, spf) as u8,
        c == wpp - 1,
        output_enable_asserted(c, wpp, blanking),
    );
}

/// After the control-bit pass, a word's fields decode to its position: the
/// output-enable bit follows the blanking rule, the address field carries
/// the scanline's address (the previous scanline's for plane 0), and the
/// color bits are untouched.
pub proof fn lemma_control_word_fields(
    w: u16,
    s: int,
    p: int,
    c: int,
    spf: int,
    wpp: int,
    blanking: u8,
)
    requires
        0 <= s < spf,
        spf <= 32,
    ensures
        ({
            let nw = control_word(w, s, p, c, spf, wpp, blanking);
            &&& masked_bit(nw, LATCH_MASK) == (c == wpp - 1)
            &&& masked_bit(nw, OUTPUT_ENABLE_MASK) == output_enable_asserted(c, wpp, blanking)
            &&& address_bits(nw) == control_address(s, p, spf)
            &&& nw & 0x3F == w & 0x3F
        }),
{
    let a = control_address(s, p, spf);
    if p == 0 {
        lemma_mod_bound(s + spf - 1, spf);
    }
    assert(0 <= a <= 31);
    lemma_control_encode(
        w,
        a as u8,
        c == wpp - 1,
        output_enable_asserted(c, wpp, blanking),
    );
}

/// In a frame that went through the control-bit pass, the latch bit is set
/// in exactly one word of each (scanline, plane) pair: the word in the last
/// column, whatever the frame held before.
pub proof fn lemma_control_latch_in_frame(
    words: Seq<u16>,
    cfg: MatrixConfig,
    blanking: u8,
    s: int,
    p: int,
    c: int,
)
    requires
        cfg.valid(),
        words.len() == cfg.spec_words_per_frame(),
        0 <= s < cfg.spec_scanlines_per_frame(),
        0 <= p < cfg.color_depth,
        0 <= c < cfg.spec_words_per_plane(),
    ensures
        masked_bit(
            spec_control_words(words, cfg, blanking)[flat_index(cfg, s, p, c)],
            LATCH_MASK,
        ) == (c == cfg.spec_words_per_plane() - 1),
{
    lemma_flat_index(cfg, s, p, c);
    lemma_latch_only_in_last_column(
        words[flat_index(cfg, s, p, c)],
        s,
        p,
        c,
        cfg.spec_scanlines_per_frame(),
        cfg.spec_words_per_plane(),
        blanking,
    );
}

/// A value taken modulo a positive bound lands inside the bound.
proof fn lemma_mod_bound(x: int, m: int)
    requires
        0 < m,
    ensures
        0 <= x % m < m,
{
}

/// The packed bit-plane buffer of one complete frame, ready for output.
pub struct FrameBuffer {
    /// The geometry the buffer was sized for.
    pub config: MatrixConfig,
    /// The frame's words, flat: plane after plane, scanline after scanline.
    pub words: Vec<u16>,
    /// Whether control bits have been encoded into the buffer.
    pub configured: bool,
}

impl FrameBuffer {
    /// Well-formedness: the geometry is valid and the storage has exactly
    /// one word per (scanline, plane, column) triple.
    pub open spec fn wf(&self) -> bool {
        &&& self.config.valid()
        &&& self.words@.len() == self.config.spec_words_per_frame()
    }

    /// The word at scanline `s`, plane `p`, column `c`.
    pub open spec fn word_at(&self, s: int, p: int, c: int) -> u16 {
        self.words@[flat_index(self.config, s, p, c)]
    }

    /// The words of one color plane of one scanline, column 0 first.
    pub open spec fn plane_row(&self, s: int, p: int) -> Seq<u16> {
        Seq::new(
            self.config.spec_words_per_plane() as nat,
            |c: int| self.word_at(s, p, c),
        )
    }

    /// Allocate a blank frame for the given geometry. Every word starts at
    /// zero and the buffer is not yet configured.
    pub fn new(config: &MatrixConfig) -> (r: FrameBuffer)
        requires
            config.valid(),
        ensures
            r.wf(),
            r.config == *config,
            !r.configured,
            forall|i: int| 0 <= i < r.words@.len() ==> r.words@[i] == 0,
    {
        let total = config.words_per_frame();
        let mut words: Vec<u16> = Vec::new();
        while words.len() < total
            invariant
                words@.len() <= total,
                forall|i: int| 0 <= i < words@.len() ==> words@[i] == 0,
            decreases total - words@.len(),
        {
            words.push(0u16);
        }
        FrameBuffer { config: *config, words, configured: false }
    }

    /// Width of one panel in pixels.
    pub fn width(&self) -> (r: usize)
        ensures
            r == self.config.width,
    {
        self.config.width
    }

    /// Height of the panel in pixels.
    pub fn height(&self) -> (r: usize)
        ensures
            r == self.config.height,
    {
        self.config.height
    }

    /// How many panels are daisy-chained into one wider display.
    pub fn chain_length(&self) -> (r: usize)
        ensures
            r == self.config.chain_length,
    {
        self.config.chain_length
    }

    /// Bits of per-channel color resolution.
    pub fn color_depth(&self) -> (r: usize)
        ensures
            r == self.config.color_depth,
    {
        self.config.color_depth
    }

    /// The scan fraction of the panel.
    pub fn per_frame_denominator(&self) -> (r: u8)
        ensures
            r == self.config.per_frame_denominator,
    {
        self.config.per_frame_denominator
    }

    /// How many words one color plane of one scanline holds.
    pub fn words_per_plane(&self) -> (r: usize)
        requires
            self.config.valid(),
        ensures
            r == self.config.spec_words_per_plane(),
    {
        self.config.words_per_plane()
    }

    /// How many scanline groups the frame holds.
    pub fn scanlines_per_frame(&self) -> (r: usize)
        requires
            self.config.valid(),
        ensures
            r == self.config.spec_scanlines_per_frame(),
    {
        self.config.scanlines_per_frame()
    }

    /// Whether control bits have been encoded into the buffer.
    pub fn is_configured(&self) -> (r: bool)
        ensures
            r == self.configured,
    {
        self.configured
    }

    /// The scanline group responsible for row `y`: every row congruent to
    /// `y` modulo the scan denominator lands in the same group.
    pub fn scanline_for(&self, y: usize) -> (s: usize)
        requires
            self.config.per_frame_denominator > 0,
        ensures
            s == y as int % self.config.per_frame_denominator as int,
            s < self.config.per_frame_denominator,
    {
        y % (self.config.per_frame_denominator as usize)
    }

    /// Read the word at scanline `scanline`, plane `plane`, column `column`.
    pub fn word(&self, scanline: usize, plane: usize, column: usize) -> (r: u16)
        requires
            self.wf(),
            scanline < self.config.spec_scanlines_per_frame(),
            plane < self.config.color_depth,
            column < self.config.spec_words_per_plane(),
        ensures
            r == self.word_at(scanline as int, plane as int, column as int),
    {
        proof {
            lemma_flat_index(self.config, scanline as int, plane as int, column as int);
            lemma_valid_derived(self.config);
            assert(scanline as int * self.config.color_depth as int + plane as int
                <= flat_index(self.config, scanline as int, plane as int, column as int))
                by (nonlinear_arith)
                requires 0 <= scanline as int && 0 <= plane as int && 0 <= column as int
                    && 1 <= self.config.spec_words_per_plane()
                    && flat_index(self.config, scanline as int, plane as int, column as int)
                        == (scanline as int * self.config.color_depth as int + plane as int)
                            * self.config.spec_words_per_plane() + column as int;
        }
        let wpp = self.words_per_plane();
        let index = (scanline * self.config.color_depth + plane) * wpp + column;
        self.words[index]
    }

    /// Copy out the words of one color plane of one scanline, column 0 first.
    pub fn plane_words(&self, scanline: usize, plane: usize) -> (v: Vec<u16>)
        requires
            self.wf(),
            scanline < self.config.spec_scanlines_per_frame(),
            plane < self.config.color_depth,
        ensures
            v@.len() == self.config.spec_words_per_plane(),
            forall|c: int| 0 <= c < v@.len()
                ==> v@[c] == self.word_at(scanline as int, plane as int, c),
            v@ == self.plane_row(scanline as int, plane as int),
    {
        let wpp = self.words_per_plane();
        let mut v: Vec<u16> = Vec::new();
        let mut c: usize = 0;
        while c < wpp
            invariant
                self.wf(),
                scanline < self.config.spec_scanlines_per_frame(),
                plane < self.config.color_depth,
                wpp == self.config.spec_words_per_plane(),
                c <= wpp,
                v@.len() == c,
                forall|j: int| 0 <= j < c
                    ==> v@[j] == self.word_at(scanline as int, plane as int, j),
            decreases wpp - c,
        {
            v.push(self.word(scanline, plane, c));
            c = c + 1;
        }
        proof {
            assert(v@ =~= self.plane_row(scanline as int, plane as int));
        }
        v
    }

    /// The ordered word sequence a transport must shift out, one copied
    /// segment per scanline pass: for each plane `p` from 0 up, the
    /// scanline rows of plane `p`, the whole round repeated `2^p` times.
    /// One frame yields exactly `(2^color_depth - 1) * scanlines_per_frame`
    /// segments of `words_per_plane` words each.
    pub fn buffer_iter(&self) -> (segs: Vec<Vec<u16>>)
        requires
            self.wf(),
        ensures
            segs@.len() == (pow2_of(self.config.color_depth as int) - 1)
                * self.config.spec_scanlines_per_frame(),
            forall|k: int| 0 <= k < segs@.len() ==> (#[trigger] segs@[k])@.len()
                == self.config.spec_words_per_plane(),
            forall|k: int| 0 <= k < segs@.len() ==> (#[trigger] segs@[k])@ == self.plane_row(
                segment_sources(self.config, self.config.color_depth as int)[k].0,
                segment_sources(self.config, self.config.color_depth as int)[k].1,
            ),
    {
        proof {
            lemma_valid_derived(self.config);
            lemma_segment_sources_len(self.config, self.config.color_depth as int);
        }
        let ghost cfg = self.config;
        let depth = self.config.color_depth;
        let spf = self.scanlines_per_frame();
        let mut segs: Vec<Vec<u16>> = Vec::new();
        let mut p: usize = 0;
        let mut reps: usize = 1;
        while p < depth
            invariant
                self.wf(),
                cfg == self.config,
                depth == cfg.color_depth,
                spf == cfg.spec_scanlines_per_frame(),
                p <= depth,
                reps == pow2_of(p as int),
                reps <= 65536,
                segs@.len() == segment_sources(cfg, p as int).len(),
                forall|k: int| 0 <= k < segs@.len() ==> (#[trigger] segs@[k])@ == self.plane_row(
                    segment_sources(cfg, p as int)[k].0,
                    segment_sources(cfg, p as int)[k].1,
                ),
            decreases depth - p,
        {
            let ghost base = segment_sources(cfg, p as int).len() as int;
            let mut rep: usize = 0;
            while rep < reps
                invariant
                    self.wf(),
                    cfg == self.config,
                    depth == cfg.color_depth,
                    spf == cfg.spec_scanlines_per_frame(),
                    p < depth,
                    rep <= reps,
                    reps == pow2_of(p as int),
                    reps <= 65536,
                    base == segment_sources(cfg, p as int).len(),
                    segs@.len() == base + rep * spf,
                    forall|k: int| 0 <= k < base ==> (#[trigger] segs@[k])@ == self.plane_row(
                        segment_sources(cfg, p as int)[k].0,
                        segment_sources(cfg, p as int)[k].1,
                    ),
                    forall|k: int| base <= k < segs@.len() ==> (#[trigger] segs@[k])@
                        == self.plane_row((k - base) % spf as int, p as int),
                decreases reps - rep,
            {
                let mut s: usize = 0;
                while s < spf
                    invariant
                        self.wf(),
                        cfg == self.config,
                        depth == cfg.color_depth,
                        spf == cfg.spec_scanlines_per_frame(),
                        p < depth,
                        rep < reps,
                        s <= spf,
                        base == segment_sources(cfg, p as int).len(),
                        segs@.len() == base + rep * spf + s,
                        forall|k: int| 0 <= k < base ==> (#[trigger] segs@[k])@ == self.plane_row(
                            segment_sources(cfg, p as int)[k].0,
                            segment_sources(cfg, p as int)[k].1,
                        ),
                        forall|k: int| base <= k < segs@.len() ==> (#[trigger] segs@[k])@
                            == self.plane_row((k - base) % spf as int, p as int),
                    decreases spf - s,
                {
                    let row = self.plane_words(s, p);
                    segs.push(row);
                    proof {
                        lemma_mod_multiples_vanish(rep as int, s as int, spf as int);
                        lemma_small_mod(s as nat, spf as nat);
                        assert(spf as int * rep as int == rep as int * spf as int)
                            by (nonlinear_arith);
                    }
                    s = s + 1;
                }
                proof {
                    assert(rep as int * spf as int + spf as int == (rep as int + 1) * spf as int)
                        by (nonlinear_arith);
                }
                rep = rep + 1;
            }
            proof {
                lemma_pow2_of_monotone(0, p as int);
                assert(pow2_of(p as int) * spf as int >= 0) by (nonlinear_arith)
                    requires pow2_of(p as int) >= 1 && spf as int >= 0;
                assert(segment_sources(cfg, p as int + 1).len() == base + reps * spf);
                assert forall|k: int| 0 <= k < segs@.len() implies (#[trigger] segs@[k])@
                    == self.plane_row(
                    segment_sources(cfg, p as int + 1)[k].0,
                    segment_sources(cfg, p as int + 1)[k].1,
                ) by {
                    if k >= base {
                        assert(segment_sources(cfg, p as int + 1)[k] == plane_block(cfg, p as int)[
                            k - base]);
                    }
                }
                lemma_pow2_of_depth_bound(p as int + 1);
            }
            p = p + 1;
            reps = reps * 2;
        }
        segs
    }

    /// Write one pixel: for every BCD plane `p`, bit `p` of each channel
    /// value lands in the sub-row color field of the word at column `x` of
    /// the scanline group of row `y`. Control bits are untouched.
    pub fn set_pixel<CS: ColorStorage>(&mut self, x: usize, y: usize, red: CS, green: CS, blue: CS)
        requires
            old(self).wf(),
            x < old(self).config.width * old(self).config.chain_length,
            y < old(self).config.height,
        ensures
            final(self).wf(),
            final(self).config == old(self).config,
            final(self).configured == old(self).configured,
            final(self).words@ == spec_set_pixel_words(
                old(self).words@,
                old(self).config,
                x as int,
                y as int,
                red.channel_value(),
                green.channel_value(),
                blue.channel_value(),
            ),
    {
        proof {
            lemma_valid_derived(self.config);
        }
        let ghost cfg = self.config;
        let ghost old_words = self.words@;
        let ghost rv = red.channel_value();
        let ghost gv = green.channel_value();
        let ghost bv = blue.channel_value();
        let scanline = self.scanline_for(y);
        let pixel = if y < self.config.height / 2 {
            MatrixPixel::One
        } else {
            MatrixPixel::Two
        };
        let depth = self.config.color_depth;
        let wpp = self.words_per_plane();
        let mut p: usize = 0;
        while p < depth
            invariant
                self.wf(),
                self.config == cfg,
                self.configured == old(self).configured,
                p <= depth,
                depth == cfg.color_depth,
                wpp == cfg.spec_words_per_plane(),
                x < wpp,
                y < cfg.height,
                scanline == y as int % cfg.per_frame_denominator as int,
                scanline < cfg.spec_scanlines_per_frame(),
                pixel == subrow_of(cfg, y as int),
                rv == red.channel_value(),
                gv == green.channel_value(),
                bv == blue.channel_value(),
                self.words@.len() == old_words.len(),
                old_words.len() == cfg.spec_words_per_frame(),
                forall|i: int| 0 <= i < old_words.len() ==> self.words@[i] == (
                    if scanline_of(cfg, i) == scanline as int && column_of(cfg, i) == x as int
                        && plane_of(cfg, i) < p {
                        pixel_word(old_words[i], cfg, y as int, plane_of(cfg, i), rv, gv, bv)
                    } else {
                        old_words[i]
                    }
                ),
            decreases depth - p,
        {
            proof {
                lemma_flat_index(cfg, scanline as int, p as int, x as int);
                assert(scanline as int * depth as int + p as int <= flat_index(
                    cfg,
                    scanline as int,
                    p as int,
                    x as int,
                )) by (nonlinear_arith)
                    requires 0 <= scanline as int && 0 <= p as int && 0 <= x as int && 1 <= wpp
                        as int && flat_index(cfg, scanline as int, p as int, x as int) == (scanline
                        as int * depth as int + p as int) * wpp as int + x as int;
            }
            let idx = (scanline * depth + p) * wpp + x;
            let rb = red.channel_bit_at(p as u16);
            let gb = green.channel_bit_at(p as u16);
            let bb = blue.channel_bit_at(p as u16);
            let w = self.words[idx];
            let nw = apply_subrow_color(w, pixel, rb, gb, bb);
            self.words.set(idx, nw);
            proof {
                assert forall|i: int| 0 <= i < old_words.len() implies self.words@[i] == (
                    if scanline_of(cfg, i) == scanline as int && column_of(cfg, i) == x as int
                        && plane_of(cfg, i) < p + 1 {
                        pixel_word(old_words[i], cfg, y as int, plane_of(cfg, i), rv, gv, bv)
                    } else {
                        old_words[i]
                    }
                ) by {
                    if i != idx {
                        if scanline_of(cfg, i) == scanline as int && column_of(cfg, i) == x as int
                            && plane_of(cfg, i) == p {
                            lemma_flat_index_inverse(cfg, i);
                        }
                    }
                }
            }
            p = p + 1;
        }
        proof {
            assert forall|i: int| 0 <= i < old_words.len() implies #[trigger] self.words@[i]
                == spec_set_pixel_words(old_words, cfg, x as int, y as int, rv, gv, bv)[i] by {
                if scanline_of(cfg, i) == scanline as int && column_of(cfg, i) == x as int {
                    lemma_flat_index_inverse(cfg, i);
                }
            }
            assert(self.words@ =~= spec_set_pixel_words(
                old_words,
                cfg,
                x as int,
                y as int,
                rv,
                gv,
                bv,
            ));
        }
    }
    /// Encode the address, latch and output-enable fields of every word in
    /// the frame from the word's position; color bits are untouched.
    pub fn set_control_bits(&mut self, latch_blanking_count: u8)
        requires
            old(self).wf(),
        ensures
            final(self).wf(),
            final(self).config == old(self).config,
            final(self).configured == old(self).configured,
            final(self).words@ == spec_control_words(
                old(self).words@,
                old(self).config,
                latch_blanking_count,
            ),
    {
        proof {
            lemma_valid_derived(self.config);
        }
        let ghost cfg = self.config;
        let ghost old_words = self.words@;
        let spf = self.scanlines_per_frame();
        let depth = self.config.color_depth;
        let wpp = self.words_per_plane();
        let blanking = latch_blanking_count as usize;
        proof {
            let dd = depth as int;
            let ww = wpp as int;
            assert((0 * dd + 0) * ww + 0 == 0) by (nonlinear_arith);
        }
        let mut k: usize = 0;
        let mut s: usize = 0;
        while s < spf
            invariant
                self.wf(),
                self.config == cfg,
                self.configured == old(self).configured,
                spf == cfg.spec_scanlines_per_frame(),
                depth == cfg.color_depth,
                wpp == cfg.spec_words_per_plane(),
                blanking == latch_blanking_count as int,
                s <= spf,
                k == flat_index(cfg, s as int, 0, 0),
                self.words@.len() == old_words.len(),
                old_words.len() == cfg.spec_words_per_frame(),
                forall|i: int| 0 <= i < old_words.len() ==> self.words@[i] == (
                    if i < k {
                        control_word(
                            old_words[i],
                            scanline_of(cfg, i),
                            plane_of(cfg, i),
                            column_of(cfg, i),
                            spf as int,
                            wpp as int,
                            latch_blanking_count,
                        )
                    } else {
                        old_words[i]
                    }
                ),
            decreases spf - s,
        {
            let mut p: usize = 0;
            while p < depth
                invariant
                    self.wf(),
                    self.config == cfg,
                    self.configured == old(self).configured,
                    spf == cfg.spec_scanlines_per_frame(),
                    depth == cfg.color_depth,
                    wpp == cfg.spec_words_per_plane(),
                    blanking == latch_blanking_count as int,
                    s < spf,
                    p <= depth,
                    k == flat_index(cfg, s as int, p as int, 0),
                    self.words@.len() == old_words.len(),
                    old_words.len() == cfg.spec_words_per_frame(),
                    forall|i: int| 0 <= i < old_words.len() ==> self.words@[i] == (
                        if i < k {
                            control_word(
                                old_words[i],
                                scanline_of(cfg, i),
                                plane_of(cfg, i),
                                column_of(cfg, i),
                                spf as int,
                                wpp as int,
                                latch_blanking_count,
                            )
                        } else {
                            old_words[i]
                        }
                    ),
                decreases depth - p,
            {
                let mut c: usize = 0;
                while c < wpp
                    invariant
                        self.wf(),
                        self.config == cfg,
                        self.configured == old(self).configured,
                        spf == cfg.spec_scanlines_per_frame(),
                        depth == cfg.color_depth,
                        wpp == cfg.spec_words_per_plane(),
                        blanking == latch_blanking_count as int,
                        s < spf,
                        p < depth,
                        c <= wpp,
                        k == flat_index(cfg, s as int, p as int, c as int),
                        self.words@.len() == old_words.len(),
                        old_words.len() == cfg.spec_words_per_frame(),
                        forall|i: int| 0 <= i < old_words.len() ==> self.words@[i] == (
                            if i < k {
                                control_word(
                                    old_words[i],
                                    scanline_of(cfg, i),
                                    plane_of(cfg, i),
                                    column_of(cfg, i),
                                    spf as int,
                                    wpp as int,
                                    latch_blanking_count,
                                )
                            } else {
                                old_words[i]
                            }
                        ),
                    decreases wpp - c,
                {
                    proof {
                        lemma_flat_index(cfg, s as int, p as int, c as int);
                    }
                    // The first color plane carries the previous scanline's
                    // address while the new scanline's data is clocked in.
                    let address = if p == 0 {
                        (s + spf - 1) % spf
                    } else {
                        s
                    };
                    let mut w = self.words[k];
                    w.set_address(address as u8);
                    if c == wpp - 1 {
                        w.set_latch();
                    } else {
                        w.clear_latch();
                    }
                    let non_blanked = c >= blanking && blanking < wpp && c < wpp - 1 - blanking;
                    w.set_output_enable_to(!non_blanked);
                    self.words.set(k, w);
                    k = k + 1;
                    c = c + 1;
                }
                proof {
                    let ss = s as int;
                    let pp = p as int;
                    let dd = depth as int;
                    let ww = wpp as int;
                    assert((ss * dd + pp) * ww + ww == (ss * dd + (pp + 1)) * ww + 0)
                        by (nonlinear_arith);
                    assert(flat_index(cfg, ss, pp, ww) == flat_index(cfg, ss, pp + 1, 0));
                }
                p = p + 1;
            }
            proof {
                let ss = s as int;
                let dd = depth as int;
                let ww = wpp as int;
                assert((ss * dd + dd) * ww + 0 == ((ss + 1) * dd + 0) * ww + 0)
                    by (nonlinear_arith);
                assert(flat_index(cfg, ss, dd, 0) == flat_index(cfg, ss + 1, 0, 0));
            }
            s = s + 1;
        }
        proof {
            let si = spf as int;
            let dd = depth as int;
            let ww = wpp as int;
            assert((si * dd + 0) * ww + 0 == si * dd * ww) by (nonlinear_arith);
            assert(flat_index(cfg, si, 0, 0) == cfg.spec_words_per_frame());
            assert(self.words@ =~= spec_control_words(old_words, cfg, latch_blanking_count));
        }
    }

    /// Force output on for every column the brightness rule touches.
    ///
    /// The `_brightness` level is accepted but does not modulate the duty
    /// cycle: output is unconditionally enabled outside the blanking
    /// region, a known limitation of this encoding pass.
    pub fn set_brightness_bits(&mut self, latch_blanking_count: u8, _brightness: u8)
        requires
            old(self).wf(),
        ensures
            final(self).wf(),
            final(self).config == old(self).config,
            final(self).configured == old(self).configured,
            final(self).words@ == spec_brightness_words(
                old(self).words@,
                old(self).config,
                latch_blanking_count,
            ),
    {
        proof {
            lemma_valid_derived(self.config);
        }
        let ghost cfg = self.config;
        let ghost old_words = self.words@;
        let spf = self.scanlines_per_frame();
        let depth = self.config.color_depth;
        let wpp = self.words_per_plane();
        let blanking = latch_blanking_count as usize;
        proof {
            let dd = depth as int;
            let ww = wpp as int;
            assert((0 * dd + 0) * ww + 0 == 0) by (nonlinear_arith);
        }
        let mut k: usize = 0;
        let mut s: usize = 0;
        while s < spf
            invariant
                self.wf(),
                self.config == cfg,
                self.configured == old(self).configured,
                spf == cfg.spec_scanlines_per_frame(),
                depth == cfg.color_depth,
                wpp == cfg.spec_words_per_plane(),
                blanking == latch_blanking_count as int,
                s <= spf,
                k == flat_index(cfg, s as int, 0, 0),
                self.words@.len() == old_words.len(),
                old_words.len() == cfg.spec_words_per_frame(),
                forall|i: int| 0 <= i < old_words.len() ==> self.words@[i] == (
                    if i < k {
                        brightness_word(
                            old_words[i],
                            column_of(cfg, i),
                            wpp as int,
                            latch_blanking_count,
                        )
                    } else {
                        old_words[i]
                    }
                ),
            decreases spf - s,
        {
            let mut p: usize = 0;
            while p < depth
                invariant
                    self.wf(),
                    self.config == cfg,
                    self.configured == old(self).configured,
                    spf == cfg.spec_scanlines_per_frame(),
                    depth == cfg.color_depth,
                    wpp == cfg.spec_words_per_plane(),
                    blanking == latch_blanking_count as int,
                    s < spf,
                    p <= depth,
                    k == flat_index(cfg, s as int, p as int, 0),
                    self.words@.len() == old_words.len(),
                    old_words.len() == cfg.spec_words_per_frame(),
                    forall|i: int| 0 <= i < old_words.len() ==> self.words@[i] == (
                        if i < k {
                            brightness_word(
                                old_words[i],
                                column_of(cfg, i),
                                wpp as int,
                                latch_blanking_count,
                            )
                        } else {
                            old_words[i]
                        }
                    ),
                decreases depth - p,
            {
                let mut c: usize = 0;
                while c < wpp
                    invariant
                        self.wf(),
                        self.config == cfg,
                        self.configured == old(self).configured,
                        spf == cfg.spec_scanlines_per_frame(),
                        depth == cfg.color_depth,
                        wpp == cfg.spec_words_per_plane(),
                        blanking == latch_blanking_count as int,
                        s < spf,
                        p < depth,
                        c <= wpp,
                        k == flat_index(cfg, s as int, p as int, c as int),
                        self.words@.len() == old_words.len(),
                        old_words.len() == cfg.spec_words_per_frame(),
                        forall|i: int| 0 <= i < old_words.len() ==> self.words@[i] == (
                            if i < k {
                                brightness_word(
                                    old_words[i],
                                    column_of(cfg, i),
                                    wpp as int,
                                    latch_blanking_count,
                                )
                            } else {
                                old_words[i]
                            }
                        ),
                    decreases wpp - c,
                {
                    proof {
                        lemma_flat_index(cfg, s as int, p as int, c as int);
                    }
                    let touched = c >= blanking || (blanking < wpp && c <= wpp - 1 - blanking);
                    let w = self.words[k];
                    let nw = if touched {
                        w | OUTPUT_ENABLE_MASK
                    } else {
                        w
                    };
                    self.words.set(k, nw);
                    k = k + 1;
                    c = c + 1;
                }
                proof {
                    let ss = s as int;
                    let pp = p as int;
                    let dd = depth as int;
                    let ww = wpp as int;
                    assert((ss * dd + pp) * ww + ww == (ss * dd + (pp + 1)) * ww + 0)
                        by (nonlinear_arith);
                    assert(flat_index(cfg, ss, pp, ww) == flat_index(cfg, ss, pp + 1, 0));
                }
                p = p + 1;
            }
            proof {
                let ss = s as int;
                let dd = depth as int;
                let ww = wpp as int;
                assert((ss * dd + dd) * ww + 0 == ((ss + 1) * dd + 0) * ww + 0)
                    by (nonlinear_arith);
                assert(flat_index(cfg, ss, dd, 0) == flat_index(cfg, ss + 1, 0, 0));
            }
            s = s + 1;
        }
        proof {
            let si = spf as int;
            let dd = depth as int;
            let ww = wpp as int;
            assert((si * dd + 0) * ww + 0 == si * dd * ww) by (nonlinear_arith);
            assert(flat_index(cfg, si, 0, 0) == cfg.spec_words_per_frame());
            assert(self.words@ =~= spec_brightness_words(old_words, cfg, latch_blanking_count));
        }
    }

    /// Encode control bits and the brightness pass into the buffer and mark
    /// it configured.
    pub fn configure(&mut self, latch_blanking_count: u8, brightness: u8)
        requires
            old(self).wf(),
        ensures
            final(self).wf(),
            final(self).config == old(self).config,
            final(self).configured,
            final(self).words@ == spec_brightness_words(
                spec_control_words(old(self).words@, old(self).config, latch_blanking_count),
                old(self).config,
                latch_blanking_count,
            ),
    {
        self.set_control_bits(latch_blanking_count);
        self.set_brightness_bits(latch_blanking_count, brightness);
        self.configured = true;
    }
}

/// `w` with the three color bits of the given sub-row replaced.
fn apply_subrow_color(w: u16, pixel: MatrixPixel, r: bool, g: bool, b: bool) -> (nw: u16)
    ensures
        nw == with_subrow_color(w, pixel, r, g, b),
{
    let mut nw = w;
    nw.set_red_to(pixel, r);
    nw.set_green_to(pixel, g);
    nw.set_blue_to(pixel, b);
    nw
}

} // verus!

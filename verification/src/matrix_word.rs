//! Bit-level layout of one 16-bit hardware word.
//!
//! Bit 0 is the least significant bit. The layout is fixed: bits 0-2 carry
//! red, green and blue for the first sub-row, bits 3-5 the same channels for
//! the second sub-row, bit 6 is the latch signal, bit 7 is output-enable, and
//! bits 8-12 hold the 5-bit row address. Bits 13-15 are unused.

use vstd::prelude::*;

verus! {

/// Mask of the red bit for sub-row one.
pub const RED_1_MASK: u16 = 0x0001;

/// Mask of the green bit for sub-row one.
pub const GREEN_1_MASK: u16 = 0x0002;

/// Mask of the blue bit for sub-row one.
pub const BLUE_1_MASK: u16 = 0x0004;

/// Mask of the red bit for sub-row two.
pub const RED_2_MASK: u16 = 0x0008;

/// Mask of the green bit for sub-row two.
pub const GREEN_2_MASK: u16 = 0x0010;

/// Mask of the blue bit for sub-row two.
pub const BLUE_2_MASK: u16 = 0x0020;

/// Mask of the latch (LAT) bit.
pub const LATCH_MASK: u16 = 0x0040;

/// Mask of the output enable (OE) bit.
pub const OUTPUT_ENABLE_MASK: u16 = 0x0080;

/// Mask of the five address bits (bits 8-12).
pub const ADDRESS_MASK: u16 = 0x1F00;

/// Bit position of the lowest address bit.
pub const ADDRESS_SHIFT: u16 = 8;

/// Highest value the five address bits can carry.
pub const ADDRESS_LIMIT: u8 = 31;

/// Which of the two physical rows encoded in one word is meant.
///
/// Each word simultaneously drives two rows spaced half the panel height
/// apart, on separate hardware lines.
#[derive(Copy, Clone, Debug, PartialEq, Eq, Structural)]
pub enum MatrixPixel {
    One,
    Two,
}

/// The single-bit mask that selects the red bit of the given sub-row.
pub open spec fn red_mask(pixel: MatrixPixel) -> u16 {
    match pixel {
        MatrixPixel::One => RED_1_MASK,
        MatrixPixel::Two => RED_2_MASK,
    }
}

/// The single-bit mask that selects the green bit of the given sub-row.
pub open spec fn green_mask(pixel: MatrixPixel) -> u16 {
    match pixel {
        MatrixPixel::One => GREEN_1_MASK,
        MatrixPixel::Two => GREEN_2_MASK,
    }
}

/// The single-bit mask that selects the blue bit of the given sub-row.
pub open spec fn blue_mask(pixel: MatrixPixel) -> u16 {
    match pixel {
        MatrixPixel::One => BLUE_1_MASK,
        MatrixPixel::Two => BLUE_2_MASK,
    }
}

/// Whether the bit selected by `mask` is set in `w`.
pub open spec fn masked_bit(w: u16, mask: u16) -> bool {
    w & mask != 0
}

/// `w` with the bit selected by `mask` forced to `value`, all other bits kept.
pub open spec fn with_masked_bit(w: u16, mask: u16, value: bool) -> u16 {
    if value {
        w | mask
    } else {
        w & !mask
    }
}

/// The 5-bit address carried in bits 8-12 of `w`.
pub open spec fn address_bits(w: u16) -> u8 {
    (((w & ADDRESS_MASK) >> ADDRESS_SHIFT)) as u8
}

/// `address` clamped to the greatest value the five address bits can hold.
pub open spec fn clamped_address(address: u8) -> u8 {
    if address > ADDRESS_LIMIT {
        ADDRESS_LIMIT
    } else {
        address
    }
}

/// `w` with bits 8-12 replaced by the clamped `address`, all other bits kept.
pub open spec fn with_address(w: u16, address: u8) -> u16 {
    (w & !ADDRESS_MASK) | ((clamped_address(address) as u16) << ADDRESS_SHIFT)
}

/// Read access to the bit fields of a matrix word.
pub trait MatrixWord {
    /// The raw 16-bit value the bit fields are read from.
    spec fn word_value(&self) -> u16;

    /// Is the red bit for the given sub-row set?
    fn red(&self, pixel: MatrixPixel) -> (r: bool)
        ensures
            r == masked_bit(self.word_value(), red_mask(pixel)),
    ;

    /// Is the green bit for the given sub-row set?
    fn green(&self, pixel: MatrixPixel) -> (r: bool)
        ensures
            r == masked_bit(self.word_value(), green_mask(pixel)),
    ;

    /// Is the blue bit for the given sub-row set?
    fn blue(&self, pixel: MatrixPixel) -> (r: bool)
        ensures
            r == masked_bit(self.word_value(), blue_mask(pixel)),
    ;

    /// Is the latch (LAT) bit on?
    fn latch(&self) -> (r: bool)
        ensures
            r == masked_bit(self.word_value(), LATCH_MASK),
    ;

    /// Is the output enable (OE) bit set?
    fn output_enable(&self) -> (r: bool)
        ensures
            r == masked_bit(self.word_value(), OUTPUT_ENABLE_MASK),
    ;

    /// The address line selected: a 5-bit value, at most 31.
    fn address(&self) -> (r: u8)
        ensures
            r == address_bits(self.word_value()),
            r <= ADDRESS_LIMIT,
    ;
}

/// Write access to the bit fields of a matrix word.
///
/// Every setter works by clear-then-set on its own field mask and never
/// touches the bits of any other field.
pub trait MatrixWordMut: MatrixWord {
    /// Set the red bit for the given sub-row to the given value.
    fn set_red_to(&mut self, pixel: MatrixPixel, value: bool)
        ensures
            final(self).word_value() == with_masked_bit(
                old(self).word_value(),
                red_mask(pixel),
                value,
            ),
    ;

    /// Set the red bit for the given sub-row.
    fn set_red(&mut self, pixel: MatrixPixel)
        ensures
            final(self).word_value() == with_masked_bit(
                old(self).word_value(),
                red_mask(pixel),
                true,
            ),
    ;

    /// Clear the red bit for the given sub-row.
    fn clear_red(&mut self, pixel: MatrixPixel)
        ensures
            final(self).word_value() == with_masked_bit(
                old(self).word_value(),
                red_mask(pixel),
                false,
            ),
    ;

    /// Set the green bit for the given sub-row to the given value.
    fn set_green_to(&mut self, pixel: MatrixPixel, value: bool)
        ensures
            final(self).word_value() == with_masked_bit(
                old(self).word_value(),
                green_mask(pixel),
                value,
            ),
    ;

    /// Set the green bit for the given sub-row.
    fn set_green(&mut self, pixel: MatrixPixel)
        ensures
            final(self).word_value() == with_masked_bit(
                old(self).word_value(),
                green_mask(pixel),
                true,
            ),
    ;

    /// Clear the green bit for the given sub-row.
    fn clear_green(&mut self, pixel: MatrixPixel)
        ensures
            final(self).word_value() == with_masked_bit(
                old(self).word_value(),
                green_mask(pixel),
                false,
            ),
    ;

    /// Set the blue bit for the given sub-row to the given value.
    fn set_blue_to(&mut self, pixel: MatrixPixel, value: bool)
        ensures
            final(self).word_value() == with_masked_bit(
                old(self).word_value(),
                blue_mask(pixel),
                value,
            ),
    ;

    /// Set the blue bit for the given sub-row.
    fn set_blue(&mut self, pixel: MatrixPixel)
        ensures
            final(self).word_value() == with_masked_bit(
                old(self).word_value(),
                blue_mask(pixel),
                true,
            ),
    ;

    /// Clear the blue bit for the given sub-row.
    fn clear_blue(&mut self, pixel: MatrixPixel)
        ensures
            final(self).word_value() == with_masked_bit(
                old(self).word_value(),
                blue_mask(pixel),
                false,
            ),
    ;

    /// Set the latch (LAT) bit to the given value.
    fn set_latch_to(&mut self, value: bool)
        ensures
            final(self).word_value() == with_masked_bit(
                old(self).word_value(),
                LATCH_MASK,
                value,
            ),
    ;

    /// Set the latch (LAT) bit on.
    fn set_latch(&mut self)
        ensures
            final(self).word_value() == with_masked_bit(
                old(self).word_value(),
                LATCH_MASK,
                true,
            ),
    ;

    /// Reset the latch (LAT) bit to 0.
    fn clear_latch(&mut self)
        ensures
            final(self).word_value() == with_masked_bit(
                old(self).word_value(),
                LATCH_MASK,
                false,
            ),
    ;

    /// Set the output enable (OE) bit to the given value.
    fn set_output_enable_to(&mut self, value: bool)
        ensures
            final(self).word_value() == with_masked_bit(
                old(self).word_value(),
                OUTPUT_ENABLE_MASK,
                value,
            ),
    ;

    /// Set the output enable (OE) bit on.
    fn set_output_enable(&mut self)
        ensures
            final(self).word_value() == with_masked_bit(
                old(self).word_value(),
                OUTPUT_ENABLE_MASK,
                true,
            ),
    ;

    /// Reset the output enable (OE) bit to 0.
    fn clear_output_enable(&mut self)
        ensures
            final(self).word_value() == with_masked_bit(
                old(self).word_value(),
                OUTPUT_ENABLE_MASK,
                false,
            ),
    ;

    /// Set the address bits to the given value.
    ///
    /// Any value greater than 31 is truncated to 31.
    fn set_address(&mut self, address: u8)
        ensures
            final(self).word_value() == with_address(old(self).word_value(), address),
    ;
}

impl MatrixWord for u16 {
    open spec fn word_value(&self) -> u16 {
        *self
    }

    fn red(&self, pixel: MatrixPixel) -> (r: bool) {
        let mask = match pixel {
            MatrixPixel::One => RED_1_MASK,
            MatrixPixel::Two => RED_2_MASK,
        };
        *self & mask != 0
    }

    fn green(&self, pixel: MatrixPixel) -> (r: bool) {
        let mask = match pixel {
            MatrixPixel::One => GREEN_1_MASK,
            MatrixPixel::Two => GREEN_2_MASK,
        };
        *self & mask != 0
    }

    fn blue(&self, pixel: MatrixPixel) -> (r: bool) {
        let mask = match pixel {
            MatrixPixel::One => BLUE_1_MASK,
            MatrixPixel::Two => BLUE_2_MASK,
        };
        *self & mask != 0
    }

    fn latch(&self) -> (r: bool) {
        *self & LATCH_MASK != 0
    }

    fn output_enable(&self) -> (r: bool) {
        *self & OUTPUT_ENABLE_MASK != 0
    }

    fn address(&self) -> (r: u8) {
        proof {
            lemma_address_bits_bounded(*self);
        }
        ((*self & ADDRESS_MASK) >> ADDRESS_SHIFT) as u8
    }
}

impl MatrixWordMut for u16 {
    fn set_red_to(&mut self, pixel: MatrixPixel, value: bool) {
        let mask = match pixel {
            MatrixPixel::One => RED_1_MASK,
            MatrixPixel::Two => RED_2_MASK,
        };
        if value {
            *self = *self | mask;
        } else {
            *self = *self & !mask;
        }
    }

    fn set_red(&mut self, pixel: MatrixPixel) {
        self.set_red_to(pixel, true)
    }

    fn clear_red(&mut self, pixel: MatrixPixel) {
        self.set_red_to(pixel, false)
    }

    fn set_green_to(&mut self, pixel: MatrixPixel, value: bool) {
        let mask = match pixel {
            MatrixPixel::One => GREEN_1_MASK,
            MatrixPixel::Two => GREEN_2_MASK,
        };
        if value {
            *self = *self | mask;
        } else {
            *self = *self & !mask;
        }
    }

    fn set_green(&mut self, pixel: MatrixPixel) {
        self.set_green_to(pixel, true)
    }

    fn clear_green(&mut self, pixel: MatrixPixel) {
        self.set_green_to(pixel, false)
    }

    fn set_blue_to(&mut self, pixel: MatrixPixel, value: bool) {
        let mask = match pixel {
            MatrixPixel::One => BLUE_1_MASK,
            MatrixPixel::Two => BLUE_2_MASK,
        };
        if value {
            *self = *self | mask;
        } else {
            *self = *self & !mask;
        }
    }

    fn set_blue(&mut self, pixel: MatrixPixel) {
        self.set_blue_to(pixel, true)
    }

    fn clear_blue(&mut self, pixel: MatrixPixel) {
        self.set_blue_to(pixel, false)
    }

    fn set_latch_to(&mut self, value: bool) {
        if value {
            *self = *self | LATCH_MASK;
        } else {
            *self = *self & !LATCH_MASK;
        }
    }

    fn set_latch(&mut self) {
        self.set_latch_to(true)
    }

    fn clear_latch(&mut self) {
        self.set_latch_to(false)
    }

    fn set_output_enable_to(&mut self, value: bool) {
        if value {
            *self = *self | OUTPUT_ENABLE_MASK;
        } else {
            *self = *self & !OUTPUT_ENABLE_MASK;
        }
    }

    fn set_output_enable(&mut self) {
        self.set_output_enable_to(true)
    }

    fn clear_output_enable(&mut self) {
        self.set_output_enable_to(false)
    }

    fn set_address(&mut self, address: u8) {
        let clamped = if address > ADDRESS_LIMIT {
            ADDRESS_LIMIT
        } else {
            address
        };
        *self = (*self & !ADDRESS_MASK) | ((clamped as u16) << ADDRESS_SHIFT);
    }
}

/// The five address bits never decode to a value above 31.
pub proof fn lemma_address_bits_bounded(w: u16)
    by (bit_vector)
    ensures
        address_bits(w) <= 31,
{
}

/// Writing an address above 31 produces the identical word to writing 31.
pub proof fn lemma_set_address_clamps(w: u16, address: u8)
    ensures
        address > 31 ==> with_address(w, address) == with_address(w, 31),
{
}

/// Writing the address field leaves every other bit alone and makes the
/// address field decode to the clamped value written.
pub proof fn lemma_address_round_trip(w: u16, address: u8)
    by (bit_vector)
    ensures
        address_bits(with_address(w, address)) == clamped_address(address),
        with_address(w, address) & !ADDRESS_MASK == w & !ADDRESS_MASK,
{
}

} // verus!

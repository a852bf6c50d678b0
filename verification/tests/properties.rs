use hub75_matrix::buffer::bits_of;
use hub75_matrix::{
    FrameBuffer, FrameConfiguration, MatrixConfig, MatrixError, MatrixWord, Rgb, RgbMatrix,
};

fn config(
    width: usize,
    height: usize,
    chain_length: usize,
    color_depth: usize,
    per_frame_denominator: u8,
) -> MatrixConfig {
    MatrixConfig::new(width, height, chain_length, color_depth, per_frame_denominator).unwrap()
}

#[test]
fn geometry_rejects_zero_width() {
    assert_eq!(
        MatrixConfig::new(0, 32, 1, 8, 16),
        Err(MatrixError::InvalidGeometry)
    );
}

#[test]
fn geometry_rejects_zero_height() {
    assert_eq!(
        MatrixConfig::new(64, 0, 1, 8, 16),
        Err(MatrixError::InvalidGeometry)
    );
}

#[test]
fn geometry_rejects_zero_chain() {
    assert_eq!(
        MatrixConfig::new(64, 32, 0, 8, 16),
        Err(MatrixError::InvalidGeometry)
    );
}

#[test]
fn geometry_rejects_zero_depth() {
    assert_eq!(
        MatrixConfig::new(64, 32, 1, 0, 16),
        Err(MatrixError::InvalidGeometry)
    );
}

#[test]
fn geometry_rejects_zero_denominator() {
    assert_eq!(
        MatrixConfig::new(64, 32, 1, 8, 0),
        Err(MatrixError::InvalidGeometry)
    );
}

#[test]
fn geometry_rejects_non_divisible_height() {
    // 32 is not divisible by 7.
    assert_eq!(
        MatrixConfig::new(64, 32, 1, 8, 7),
        Err(MatrixError::InvalidGeometry)
    );
}

#[test]
fn geometry_rejects_too_many_scanlines() {
    // 128 / (128 / 64) = 64 scanline groups: more than the 32 the address
    // field can reach.
    assert_eq!(
        MatrixConfig::new(64, 128, 1, 8, 64),
        Err(MatrixError::InvalidGeometry)
    );
}

#[test]
fn geometry_derived_sizes_64x32_depth8_denom16() {
    let cfg = config(64, 32, 1, 8, 16);
    assert_eq!(cfg.words_per_plane(), 64);
    assert_eq!(cfg.scanlines_per_frame(), 16);
    assert_eq!(cfg.words_per_scanline(), 64 * 8);
    assert_eq!(cfg.words_per_frame(), 64 * 8 * 16);
}

#[test]
fn geometry_latch_blanking_default_and_update() {
    let mut cfg = config(64, 32, 1, 8, 16);
    assert_eq!(cfg.latch_blanking_count(), 2);
    cfg.set_latch_blanking_count(4);
    assert_eq!(cfg.latch_blanking_count(), 4);
}

#[test]
fn channel_bits_lsb_first() {
    let bits = bits_of(&0b10101100u8, 8);
    assert_eq!(
        bits,
        vec![false, false, true, true, false, true, false, true]
    );
    let wide = bits_of(&0x8001u16, 16);
    assert_eq!(wide.len(), 16);
    assert!(wide[0]);
    assert!(!wide[1]);
    assert!(wide[15]);
}

#[test]
fn pixel_write_decodes_to_channel_bits() {
    let cfg = config(64, 32, 1, 8, 16);
    let mut fb = FrameBuffer::new(&cfg);
    let red: u8 = 0xAC;
    let green: u8 = 0x35;
    let blue: u8 = 0xF0;
    fb.set_pixel(5, 9, red, green, blue);
    for plane in 0..8 {
        let word = fb.word(9, plane, 5);
        assert_eq!(word & 0x1 != 0, red >> plane & 1 == 1);
        assert_eq!(word & 0x2 != 0, green >> plane & 1 == 1);
        assert_eq!(word & 0x4 != 0, blue >> plane & 1 == 1);
    }
}

#[test]
fn pixel_write_touches_nothing_else() {
    let cfg = config(64, 32, 1, 8, 16);
    let mut fb = FrameBuffer::new(&cfg);
    fb.set_pixel(5, 9, 0b10101100u8, 0u8, 0u8);
    let expected_bits = [false, false, true, true, false, true, false, true];
    for scanline in 0..fb.scanlines_per_frame() {
        for plane in 0..fb.color_depth() {
            for column in 0..fb.words_per_plane() {
                let word = fb.word(scanline, plane, column);
                if scanline == 9 && column == 5 {
                    let expected = if expected_bits[plane] { 1u16 } else { 0u16 };
                    assert_eq!(word, expected);
                } else {
                    assert_eq!(word, 0);
                }
            }
        }
    }
}

#[test]
fn lower_half_rows_use_second_subrow() {
    let cfg = config(64, 32, 1, 8, 16);
    let mut fb = FrameBuffer::new(&cfg);
    // Row 20 shares scanline group 4 with row 4; it lands in bits 3-5.
    fb.set_pixel(7, 20, 0xFFu8, 0xFFu8, 0xFFu8);
    for plane in 0..8 {
        assert_eq!(fb.word(4, plane, 7), 0x38);
    }
}

#[test]
fn buffer_iter_segment_count_and_lengths() {
    let cfg = config(64, 32, 1, 3, 16);
    let fb = FrameBuffer::new(&cfg);
    let segments = fb.buffer_iter();
    // (2^3 - 1) * 16 scanline passes per frame.
    assert_eq!(segments.len(), 7 * 16);
    for segment in &segments {
        assert_eq!(segment.len(), 64);
    }
}

#[test]
fn buffer_iter_emission_order() {
    let cfg = config(64, 32, 1, 3, 16);
    let mut fb = FrameBuffer::new(&cfg);
    // Make every plane's rows distinguishable.
    fb.set_control_bits(0);
    fb.set_pixel(3, 5, 0b101u8, 0b011u8, 0b110u8);
    let segments = fb.buffer_iter();
    let spf = fb.scanlines_per_frame();
    let mut k = 0;
    for plane in 0..3usize {
        for _rep in 0..(1usize << plane) {
            for scanline in 0..spf {
                assert_eq!(
                    segments[k],
                    fb.plane_words(scanline, plane),
                    "segment {} should carry plane {} of scanline {}",
                    k,
                    plane,
                    scanline
                );
                k += 1;
            }
        }
    }
    assert_eq!(k, segments.len());
}

#[test]
fn control_bits_blanking_two() {
    let cfg = config(32, 32, 1, 8, 8);
    let mut fb = FrameBuffer::new(&cfg);
    fb.set_control_bits(2);
    let length = fb.words_per_plane();
    let spf = fb.scanlines_per_frame();
    for scanline in 0..spf {
        for plane in 0..8 {
            let mut latched = 0;
            for column in 0..length {
                let word = fb.word(scanline, plane, column);
                // Output is disabled in the blanking columns at each end of
                // the non-blanked range [2, length - 1 - 2) and enabled
                // inside it.
                let blanked = column < 2 || column >= length - 1 - 2;
                assert_eq!(word.output_enable(), blanked);
                if word.latch() {
                    latched += 1;
                    assert_eq!(column, length - 1);
                }
                let expected_address = if plane == 0 {
                    (scanline + spf - 1) % spf
                } else {
                    scanline
                };
                assert_eq!(word.address(), expected_address as u8);
            }
            assert_eq!(latched, 1, "latch must be set in exactly one column");
        }
    }
}

#[test]
fn brightness_bits_force_output_on() {
    let cfg = config(64, 32, 1, 8, 16);
    let mut fb = FrameBuffer::new(&cfg);
    fb.set_brightness_bits(0, 17);
    for scanline in 0..fb.scanlines_per_frame() {
        for plane in 0..8 {
            for column in 0..fb.words_per_plane() {
                assert_eq!(fb.word(scanline, plane, column), 0x80);
            }
        }
    }
}

#[test]
fn configure_marks_buffer() {
    let cfg = config(64, 32, 1, 8, 16);
    let mut fb = FrameBuffer::new(&cfg);
    assert!(!fb.is_configured());
    let matrix: RgbMatrix<Rgb> = RgbMatrix::new(cfg);
    matrix.configure_frame_buffer(&mut fb);
    assert!(fb.is_configured());
    // The control pass ran: the latch bit is set at the last column.
    assert!(fb.word(0, 1, fb.words_per_plane() - 1).latch());
}

#[test]
fn matrix_rejects_out_of_bounds() {
    let cfg = config(64, 32, 2, 8, 16);
    let mut matrix: RgbMatrix<Rgb> = RgbMatrix::new(cfg);
    assert_eq!(matrix.chain_width(), 128);
    assert_eq!(matrix.height(), 32);
    assert_eq!(matrix.panel_width(), 64);
    assert_eq!(
        matrix.set_pixel(128, 0, Rgb::new(1, 2, 3)),
        Err(MatrixError::OutOfBounds)
    );
    assert_eq!(
        matrix.set_pixel(0, 32, Rgb::new(1, 2, 3)),
        Err(MatrixError::OutOfBounds)
    );
    assert_eq!(matrix.set_pixel(127, 31, Rgb::new(1, 2, 3)), Ok(()));
}

#[test]
fn dirty_bit_set_only_on_change() {
    let cfg = config(64, 32, 1, 8, 16);
    let mut matrix: RgbMatrix<Rgb> = RgbMatrix::new(cfg);
    // A fresh surface is black: writing black changes nothing.
    assert_eq!(matrix.set_pixel(3, 0, Rgb::new(0, 0, 0)), Ok(()));
    for element in &matrix.dirty_bitmap {
        assert_eq!(*element, 0);
    }
    // Writing a different color flags exactly that pixel.
    assert_eq!(matrix.set_pixel(3, 0, Rgb::new(9, 9, 9)), Ok(()));
    assert_eq!(matrix.dirty_bitmap[0], 1 << 3);
}

#[test]
fn same_color_twice_does_not_reflag() {
    let cfg = config(64, 32, 1, 8, 16);
    let mut matrix: RgbMatrix<Rgb> = RgbMatrix::new(cfg);
    assert_eq!(matrix.set_pixel(3, 0, Rgb::new(9, 9, 9)), Ok(()));
    let fb = FrameBuffer::new(&cfg);
    // The replay clears the dirty bitmap.
    let previous = matrix.set_pending(fb);
    assert!(previous.is_none());
    for element in &matrix.dirty_bitmap {
        assert_eq!(*element, 0);
    }
    // Writing the color the pixel already has does not re-flag it.
    assert_eq!(matrix.set_pixel(3, 0, Rgb::new(9, 9, 9)), Ok(()));
    for element in &matrix.dirty_bitmap {
        assert_eq!(*element, 0);
    }
}

#[test]
fn set_pending_replays_dirty_pixels() {
    let cfg = config(64, 32, 1, 8, 16);
    let mut matrix: RgbMatrix<Rgb> = RgbMatrix::new(cfg);
    assert_eq!(matrix.set_pixel(5, 9, Rgb::new(0xAC, 0, 0)), Ok(()));
    let fb = FrameBuffer::new(&cfg);
    assert!(matrix.set_pending(fb).is_none());
    // Take the replayed buffer back by swapping in another one.
    let replayed = matrix.set_pending(FrameBuffer::new(&cfg)).unwrap();
    let expected_bits = [false, false, true, true, false, true, false, true];
    for plane in 0..8 {
        assert_eq!(replayed.word(9, plane, 5) & 0x1 != 0, expected_bits[plane]);
    }
}

#[test]
fn pending_buffer_gets_write_through() {
    let cfg = config(64, 32, 1, 8, 16);
    let mut matrix: RgbMatrix<Rgb> = RgbMatrix::new(cfg);
    assert!(matrix.set_pending(FrameBuffer::new(&cfg)).is_none());
    // This write lands in the pending buffer immediately.
    assert_eq!(matrix.set_pixel(7, 1, Rgb::new(1, 0, 0)), Ok(()));
    let written = matrix.set_pending(FrameBuffer::new(&cfg)).unwrap();
    assert_eq!(written.word(1, 0, 7) & 0x1, 1);
    // And the replay pushed the same pixel into the second buffer too.
    let second = matrix.set_pending(FrameBuffer::new(&cfg)).unwrap();
    assert_eq!(second.word(1, 0, 7) & 0x1, 1);
}

#[test]
fn flush_replays_brightness_lazily() {
    let cfg = config(64, 32, 1, 8, 16);
    let mut matrix: RgbMatrix<Rgb> = RgbMatrix::new(cfg);
    assert_eq!(matrix.brightness(), 128);
    matrix.set_brightness(200);
    assert_eq!(matrix.brightness(), 200);
    let mut fb = FrameBuffer::new(&cfg);
    matrix.flush(&mut fb);
    // The brightness pass forced output-enable on (blanking count 2).
    assert_eq!(fb.word(0, 0, 10) & 0x80, 0x80);
    // Setting the level already in effect flags nothing; a later flush
    // leaves a fresh buffer untouched.
    matrix.set_brightness(200);
    let mut untouched = FrameBuffer::new(&cfg);
    matrix.flush(&mut untouched);
    assert_eq!(untouched.word(0, 0, 10), 0);
}

#[test]
fn draw_iter_discards_invalid_pairs() {
    let cfg = config(64, 32, 1, 8, 16);
    let mut matrix: RgbMatrix<Rgb> = RgbMatrix::new(cfg);
    let pairs = vec![
        (-1, 0, Rgb::new(1, 1, 1)),
        (0, -5, Rgb::new(2, 2, 2)),
        (64, 0, Rgb::new(3, 3, 3)),
        (2, 1, Rgb::new(4, 5, 6)),
    ];
    matrix.draw_iter(&pairs);
    // Only the one valid pair was applied.
    assert_eq!(matrix.pixels[1 * 64 + 2], Rgb::new(4, 5, 6));
    assert_eq!(matrix.dirty_bitmap[2], 1 << 2);
    for (index, element) in matrix.dirty_bitmap.iter().enumerate() {
        if index != 2 {
            assert_eq!(*element, 0);
        }
    }
}

#[test]
fn frame_configuration_builder() {
    let base: FrameConfiguration<Option<usize>, Option<usize>> = Default::default();
    assert_eq!(base.height(), None);
    assert_eq!(base.width(), None);
    assert_eq!(base.chain_length(), 1);
    assert_eq!(base.color_depth(), 8);
    assert_eq!(base.per_frame_denominator(), 8);
    let full = base
        .with_height(32)
        .with_width(64)
        .with_chain_length(2)
        .with_color_depth(6)
        .with_per_frame_denominator(16);
    assert_eq!(full.height(), 32);
    assert_eq!(full.width(), 64);
    assert_eq!(full.chain_length(), 2);
    assert_eq!(full.color_depth(), 6);
    assert_eq!(full.per_frame_denominator(), 16);
}

#[test]
fn frame_configuration_derived_sizes() {
    let fc = FrameConfiguration::new(32, 64);
    // 64 pixels per row, 8 color planes, 4 rows per scanline, 2 pixels per
    // word.
    assert_eq!(fc.words_per_scanline(), 64 * 8 * 4 / 2);
    assert_eq!(fc.scanlines_per_frame(), 8);
    assert_eq!(fc.words_per_frame(), 64 * 8 * 4 / 2 * 8);
}

#[test]
fn address_stays_in_range_for_any_word() {
    for word in [0u16, 0xFFFF, 0x1F00, 0xABCD, 0x8000] {
        assert!(word.address() <= 31);
    }
}

use hub75_matrix::{FrameBuffer, MatrixConfig, MatrixWord};

fn frame_buffer(
    width: usize,
    height: usize,
    color_depth: usize,
    chain_length: usize,
    per_frame_denominator: u8,
) -> FrameBuffer {
    let config =
        MatrixConfig::new(width, height, chain_length, color_depth, per_frame_denominator)
            .unwrap();
    FrameBuffer::new(&config)
}

#[test]
fn color_plane_length_eighth() {
    let fb = frame_buffer(64, 32, 8, 1, 8);
    assert_eq!(fb.plane_words(0, 0).len(), 64 * 2);
}

#[test]
fn color_plane_length_eighth_chained() {
    let fb = frame_buffer(64, 32, 8, 2, 8);
    assert_eq!(fb.plane_words(0, 0).len(), 64 * 2 * 2);
}

#[test]
fn color_plane_length_sixteenth() {
    let fb = frame_buffer(64, 32, 8, 1, 16);
    assert_eq!(fb.plane_words(0, 0).len(), 64);
}

#[test]
fn color_plane_length_sixteenth_chained() {
    let fb = frame_buffer(64, 32, 8, 2, 16);
    assert_eq!(fb.plane_words(0, 0).len(), 64 * 2);
}

#[test]
fn color_plane_new_empty() {
    let fb = frame_buffer(64, 32, 8, 1, 8);
    for element in fb.plane_words(0, 0) {
        assert_eq!(element, 0)
    }
}

#[test]
fn scan_line_plane_count_8() {
    let fb = frame_buffer(64, 32, 8, 1, 8);
    assert_eq!(fb.color_depth(), 8)
}

#[test]
fn scan_line_plane_count_5() {
    let fb = frame_buffer(64, 32, 5, 1, 8);
    assert_eq!(fb.color_depth(), 5)
}

#[test]
fn fb_num_elements_chain() {
    let fb = frame_buffer(64, 32, 8, 2, 16);
    let mut total_words: usize = 0;
    for scanline in 0..fb.scanlines_per_frame() {
        for plane in 0..fb.color_depth() {
            total_words += fb.plane_words(scanline, plane).len();
        }
    }
    // height * width / 2: There's a word needed for every two pixels
    // * 8: There's 8 color planes
    // * 2: There's 2 panels chained together
    assert_eq!(total_words, 64 * 32 / 2 * 8 * 2);
}

#[test]
fn fb_num_elements_eighth_square() {
    let fb = frame_buffer(32, 32, 8, 1, 8);
    let mut total_words: usize = 0;
    for scanline in 0..fb.scanlines_per_frame() {
        for plane in 0..fb.color_depth() {
            total_words += fb.plane_words(scanline, plane).len();
        }
    }
    // 32 * 32 / 2: 1 word for every two pixels
    // * 8: There's 8 color planes
    // * 1: (elided) There's only one panel in the chain
    assert_eq!(total_words, 32 * 32 / 2 * 8);
}

#[test]
fn fb_num_elements_sixteenth_square() {
    let fb = frame_buffer(32, 32, 8, 1, 16);
    let mut total_words: usize = 0;
    for scanline in 0..fb.scanlines_per_frame() {
        for plane in 0..fb.color_depth() {
            total_words += fb.plane_words(scanline, plane).len();
        }
    }
    // 32 * 32 / 2: 1 word for every two pixels
    // * 8: There's 8 color planes
    // * 1: (elided) There's only one panel in the chain
    assert_eq!(total_words, 32 * 32 / 2 * 8);
}

#[test]
fn fb_initial_blank() {
    let fb = frame_buffer(32, 32, 8, 1, 16);
    let mut index: usize = 0;
    for scanline in 0..fb.scanlines_per_frame() {
        for plane in 0..fb.color_depth() {
            for element in fb.plane_words(scanline, plane) {
                assert_eq!(element, 0, "Element {} was not 0", index);
                index += 1;
            }
        }
    }
}

fn check_frame_buffer_control_bits(fb: &mut FrameBuffer, latch_blanking_count: usize) {
    fb.set_control_bits(latch_blanking_count as u8);
    let expected_scanline_count = fb.scanlines_per_frame();
    for scanline_index in 0..expected_scanline_count {
        let expected_buffer_length = fb.words_per_plane();
        for plane_index in 0..fb.color_depth() {
            let plane = fb.plane_words(scanline_index, plane_index);
            assert_eq!(
                plane.len(),
                expected_buffer_length,
                "Unexpected buffer length"
            );
            for column in 0..expected_buffer_length {
                let word = plane[column];
                // Ensure that OE (output enable) is set for the last element and any within
                // the given blanking period.
                if (0..latch_blanking_count).contains(&column) {
                    assert!(
                        word.output_enable(),
                        "Initial OE is not set for column {} on scanline {}, plane {}",
                        column,
                        scanline_index,
                        plane_index
                    );
                } else if ((expected_buffer_length - 1 - latch_blanking_count)
                    ..expected_buffer_length)
                    .contains(&column)
                {
                    assert!(
                        word.output_enable(),
                        "Trailing OE is not set for column {} on scanline {}, plane {}",
                        column,
                        scanline_index,
                        plane_index
                    );
                } else {
                    assert!(
                        !word.output_enable(),
                        "OE is unexpectedly set for column {} on scanline {}, plane {}",
                        column,
                        scanline_index,
                        plane_index
                    );
                }
                // Ensure that LAT (latch) is set only on the last column
                if column == (expected_buffer_length - 1) {
                    assert!(
                        word.latch(),
                        "LAT is not set for column {} on scanline {}, plane {}",
                        column,
                        scanline_index,
                        plane_index
                    );
                } else {
                    assert!(
                        !word.latch(),
                        "LAT is unexpectedly set for column {} on scanline {}, plane {}",
                        column,
                        scanline_index,
                        plane_index
                    );
                }
                // Each scanlines address should be the scanline index, except for the first
                // color plane which uses the previous scanline's index
                if plane_index == 0 {
                    let expected_index = if scanline_index == 0 {
                        expected_scanline_count - 1
                    } else {
                        scanline_index - 1
                    };
                    assert_eq!(
                        word.address(),
                        expected_index as u8,
                        "Unexpected index for first color plane"
                    );
                } else {
                    assert_eq!(
                        word.address(),
                        scanline_index as u8,
                        "Invalid scanline index"
                    );
                }
            }
        }
    }
}

#[test]
fn set_control_bits_eighth_square() {
    let mut fb = frame_buffer(32, 32, 8, 1, 8);
    check_frame_buffer_control_bits(&mut fb, 0);
}

#[test]
fn set_control_bits_sixteenth_square() {
    let mut fb = frame_buffer(32, 32, 8, 1, 16);
    check_frame_buffer_control_bits(&mut fb, 0);
}

#[test]
fn set_control_bits_sixteenth_square_blanking() {
    let mut fb = frame_buffer(32, 32, 8, 1, 16);
    check_frame_buffer_control_bits(&mut fb, 2);
}

#[test]
fn set_upper_red() {
    let mut fb = frame_buffer(64, 32, 8, 1, 16);
    // Set the control bits; we need to ensure we don't clobber them.
    fb.set_control_bits(0);
    fb.set_brightness_bits(0, 255);
    // Choosing different x and y values so we know the dimensions are correct.
    let x = 5;
    let y = 9;
    let buffer_idx = 5;
    let scanline_idx = 9;
    // Choosing a nicely spread out value that'll hit each color plane differently.
    let red: u8 = 0b10101100;
    // Capture the initial value
    let mut initial_values = Vec::new();
    for plane_idx in 0..fb.color_depth() {
        initial_values.push(fb.word(scanline_idx, plane_idx, buffer_idx));
    }
    fb.set_pixel(x, y, red, 0u8, 0u8);
    // expected in reverse
    let expected_bits = [false, false, true, true, false, true, false, true];
    for plane_idx in 0..fb.color_depth() {
        let actual_word = fb.word(scanline_idx, plane_idx, buffer_idx);
        let control_bits = actual_word & 0xFFC0;
        assert_eq!(
            control_bits, initial_values[plane_idx],
            "control bits were clobbered"
        );
        assert_eq!(actual_word & 0x1 != 0, expected_bits[plane_idx]);
    }
}

#[test]
fn set_upper_green() {
    let mut fb = frame_buffer(64, 32, 8, 1, 16);
    // Set the control bits; we need to ensure we don't clobber them.
    fb.set_control_bits(0);
    fb.set_brightness_bits(0, 255);
    // Choosing different x and y values so we know the dimensions are correct.
    let x = 5;
    let y = 9;
    let buffer_idx = 5;
    let scanline_idx = 9;
    // Choosing a nicely spread out value that'll hit each color plane differently.
    let green: u8 = 0b10101100;
    // Capture the initial value
    let mut initial_values = Vec::new();
    for plane_idx in 0..fb.color_depth() {
        initial_values.push(fb.word(scanline_idx, plane_idx, buffer_idx));
    }
    fb.set_pixel(x, y, 0u8, green, 0u8);
    // expected in reverse
    let expected_bits = [false, false, true, true, false, true, false, true];
    for plane_idx in 0..fb.color_depth() {
        let actual_word = fb.word(scanline_idx, plane_idx, buffer_idx);
        let control_bits = actual_word & 0xFFC0;
        assert_eq!(
            control_bits, initial_values[plane_idx],
            "control bits were clobbered"
        );
        assert_eq!(actual_word & 0x2 != 0, expected_bits[plane_idx]);
    }
}

#[test]
fn set_upper_blue() {
    let mut fb = frame_buffer(64, 32, 8, 1, 16);
    // Set the control bits; we need to ensure we don't clobber them.
    fb.set_control_bits(0);
    fb.set_brightness_bits(0, 255);
    // Choosing different x and y values so we know the dimensions are correct.
    let x = 5;
    let y = 9;
    let buffer_idx = 5;
    let scanline_idx = 9;
    // Choosing a nicely spread out value that'll hit each color plane differently.
    let blue: u8 = 0b10101100;
    // Capture the initial value
    let mut initial_values = Vec::new();
    for plane_idx in 0..fb.color_depth() {
        initial_values.push(fb.word(scanline_idx, plane_idx, buffer_idx));
    }
    fb.set_pixel(x, y, 0u8, 0u8, blue);
    // expected in reverse
    let expected_bits = [false, false, true, true, false, true, false, true];
    for plane_idx in 0..fb.color_depth() {
        let actual_word = fb.word(scanline_idx, plane_idx, buffer_idx);
        let control_bits = actual_word & 0xFFC0;
        assert_eq!(
            control_bits, initial_values[plane_idx],
            "control bits were clobbered"
        );
        assert_eq!(actual_word & 0x4 != 0, expected_bits[plane_idx]);
    }
}

#[test]
fn set_lower_red() {
    let mut fb = frame_buffer(64, 32, 8, 1, 16);
    // Set the control bits; we need to ensure we don't clobber them.
    fb.set_control_bits(0);
    fb.set_brightness_bits(0, 255);
    // Choosing different x and y values so we know the dimensions are correct.
    let x = 5;
    let y = 20;
    let buffer_idx = 5;
    let scanline_idx = 4;
    // Choosing a nicely spread out value that'll hit each color plane differently.
    let red: u8 = 0b10101100;
    // Capture the initial value
    let mut initial_values = Vec::new();
    for plane_idx in 0..fb.color_depth() {
        initial_values.push(fb.word(scanline_idx, plane_idx, buffer_idx));
    }
    fb.set_pixel(x, y, red, 0u8, 0u8);
    // expected in reverse
    let expected_bits = [false, false, true, true, false, true, false, true];
    for plane_idx in 0..fb.color_depth() {
        let actual_word = fb.word(scanline_idx, plane_idx, buffer_idx);
        let control_bits = actual_word & 0xFFC0;
        assert_eq!(
            control_bits, initial_values[plane_idx],
            "control bits were clobbered"
        );
        assert_eq!(actual_word & 0x8 != 0, expected_bits[plane_idx]);
    }
}

#[test]
fn set_lower_green() {
    let mut fb = frame_buffer(64, 32, 8, 1, 16);
    // Set the control bits; we need to ensure we don't clobber them.
    fb.set_control_bits(0);
    fb.set_brightness_bits(0, 255);
    // Choosing different x and y values so we know the dimensions are correct.
    let x = 5;
    let y = 20;
    let buffer_idx = 5;
    let scanline_idx = 4;
    // Choosing a nicely spread out value that'll hit each color plane differently.
    let green: u8 = 0b10101100;
    // Capture the initial value
    let mut initial_values = Vec::new();
    for plane_idx in 0..fb.color_depth() {
        initial_values.push(fb.word(scanline_idx, plane_idx, buffer_idx));
    }
    fb.set_pixel(x, y, 0u8, green, 0u8);
    // expected in reverse
    let expected_bits = [false, false, true, true, false, true, false, true];
    for plane_idx in 0..fb.color_depth() {
        let actual_word = fb.word(scanline_idx, plane_idx, buffer_idx);
        let control_bits = actual_word & 0xFFC0;
        assert_eq!(
            control_bits, initial_values[plane_idx],
            "control bits were clobbered"
        );
        assert_eq!(actual_word & 0x10 != 0, expected_bits[plane_idx]);
    }
}

#[test]
fn set_lower_blue() {
    let mut fb = frame_buffer(64, 32, 8, 1, 16);
    // Set the control bits; we need to ensure we don't clobber them.
    fb.set_control_bits(0);
    fb.set_brightness_bits(0, 255);
    // Choosing different x and y values so we know the dimensions are correct.
    let x = 5;
    let y = 20;
    let buffer_idx = 5;
    let scanline_idx = 4;
    // Choosing a nicely spread out value that'll hit each color plane differently.
    let blue: u8 = 0b10101100;
    // Capture the initial value
    let mut initial_values = Vec::new();
    for plane_idx in 0..fb.color_depth() {
        initial_values.push(fb.word(scanline_idx, plane_idx, buffer_idx));
    }
    fb.set_pixel(x, y, 0u8, 0u8, blue);
    // expected in reverse
    let expected_bits = [false, false, true, true, false, true, false, true];
    for plane_idx in 0..fb.color_depth() {
        let actual_word = fb.word(scanline_idx, plane_idx, buffer_idx);
        let control_bits = actual_word & 0xFFC0;
        assert_eq!(
            control_bits, initial_values[plane_idx],
            "control bits were clobbered"
        );
        assert_eq!(actual_word & 0x20 != 0, expected_bits[plane_idx]);
    }
}

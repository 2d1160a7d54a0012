use font8x8::UnicodeFonts;
use jingos::framebuffer::{FrameBufferInfo, FrameBufferWriter, PixelFormat};

fn info(width: usize, height: usize, format: PixelFormat, bpp: usize) -> FrameBufferInfo {
    FrameBufferInfo { byte_len: width * height * bpp, width, height, pixel_format: format, bytes_per_pixel: bpp, stride: width }
}

fn pixel<'a>(buffer: &'a [u8], info: &FrameBufferInfo, x: usize, y: usize) -> &'a [u8] {
    let offset = (y * info.stride + x) * info.bytes_per_pixel;
    &buffer[offset..offset + info.bytes_per_pixel]
}

fn glyph_matches(buffer: &[u8], info: &FrameBufferInfo, cell_x: usize, cell_y: usize, c: char) -> bool {
    let glyph = font8x8::BASIC_FONTS.get(c).unwrap_or([0; 8]);
    for (gy, bits) in glyph.iter().enumerate() {
        for gx in 0..8 {
            let on = bits & (1 << gx) != 0;
            let value = pixel(buffer, info, cell_x * 8 + gx, cell_y * 8 + gy)[0];
            if value != if on { 0xff } else { 0x00 } {
                return false;
            }
        }
    }
    true
}

#[test]
fn characters_are_drawn_from_the_font() {
    let info = info(16, 16, PixelFormat::U8, 1);
    let mut buffer = vec![0x55u8; info.byte_len];
    let mut writer = FrameBufferWriter::new(info);
    writer.clear(&mut buffer);
    assert!(buffer.iter().all(|b| *b == 0));
    assert_eq!(writer.max_columns(), 2);
    assert_eq!(writer.max_rows(), 2);
    writer.write_str(&mut buffer, "AB");
    assert!(glyph_matches(&buffer, &info, 0, 0, 'A'));
    assert!(glyph_matches(&buffer, &info, 1, 0, 'B'));
    assert!(buffer.iter().any(|b| *b == 0xff));
    // the third character wraps to the next row
    writer.write_str(&mut buffer, "C");
    assert!(glyph_matches(&buffer, &info, 0, 1, 'C'));
}

#[test]
fn non_ascii_is_drawn_as_question_mark_and_tab_as_spaces() {
    let info = info(48, 8, PixelFormat::U8, 1);
    let mut buffer = vec![0u8; info.byte_len];
    let mut writer = FrameBufferWriter::new(info);
    writer.write_str(&mut buffer, "é\tZ");
    assert!(glyph_matches(&buffer, &info, 0, 0, '?'));
    for cell in 1..5 {
        assert!(glyph_matches(&buffer, &info, cell, 0, ' '));
    }
    assert!(glyph_matches(&buffer, &info, 5, 0, 'Z'));
}

#[test]
fn new_line_at_the_bottom_scrolls() {
    let info = info(8, 16, PixelFormat::U8, 1);
    let mut buffer = vec![0u8; info.byte_len];
    let mut writer = FrameBufferWriter::new(info);
    writer.write_str(&mut buffer, "X\nY\nZ");
    assert!(glyph_matches(&buffer, &info, 0, 0, 'Y'));
    assert!(glyph_matches(&buffer, &info, 0, 1, 'Z'));
}

#[test]
fn backspace_blanks_the_previous_cell() {
    let info = info(16, 8, PixelFormat::U8, 1);
    let mut buffer = vec![0u8; info.byte_len];
    let mut writer = FrameBufferWriter::new(info);
    writer.write_str(&mut buffer, "MW");
    writer.backspace(&mut buffer);
    assert!(glyph_matches(&buffer, &info, 0, 0, 'M'));
    assert!(glyph_matches(&buffer, &info, 1, 0, ' '));
    writer.write_str(&mut buffer, "\u{8}\u{8}");
    assert!(buffer.iter().all(|b| *b == 0));
    writer.write_str(&mut buffer, "\rQ");
    assert!(glyph_matches(&buffer, &info, 0, 0, 'Q'));
}

#[test]
fn rgb_pixels_set_three_channels_and_clear_the_fourth() {
    let info = info(8, 8, PixelFormat::Rgb, 4);
    let mut buffer = vec![0x77u8; info.byte_len];
    let mut writer = FrameBufferWriter::new(info);
    writer.write_str(&mut buffer, "\u{2588}");
    // U+2588 is outside the basic table: drawn as '?'
    let glyph = font8x8::BASIC_FONTS.get('?').unwrap();
    let on = glyph[0] & 1 != 0;
    let expected: [u8; 4] = if on { [0xff, 0xff, 0xff, 0] } else { [0, 0, 0, 0] };
    assert_eq!(pixel(&buffer, &info, 0, 0), &expected);
}

#[test]
fn unknown_format_blanks_pixels() {
    let info = info(8, 8, PixelFormat::Unknown, 2);
    let mut buffer = vec![0x77u8; info.byte_len];
    let mut writer = FrameBufferWriter::new(info);
    writer.write_str(&mut buffer, "A");
    assert!(buffer.iter().all(|b| *b == 0));
}

#[test]
fn zero_sized_console_draws_nothing() {
    let info = info(4, 4, PixelFormat::U8, 1);
    let mut buffer = vec![0x11u8; info.byte_len];
    let mut writer = FrameBufferWriter::new(info);
    writer.write_str(&mut buffer, "abc");
    writer.backspace(&mut buffer);
    assert!(buffer.iter().all(|b| *b == 0x11));
}

#[test]
fn draw_glyph_sets_bits_white_and_clears_the_rest() {
    let info = info(16, 8, PixelFormat::U8, 1);
    let mut buffer = vec![0x55u8; info.byte_len];
    let writer = FrameBufferWriter::new(info);
    let glyph = [0x01u8, 0x80, 0, 0, 0, 0, 0, 0xff];
    writer.draw_glyph(&mut buffer, 4, 0, glyph);
    assert_eq!(pixel(&buffer, &info, 4, 0)[0], 0xff);
    assert_eq!(pixel(&buffer, &info, 5, 0)[0], 0x00);
    assert_eq!(pixel(&buffer, &info, 11, 1)[0], 0xff);
    assert_eq!(pixel(&buffer, &info, 10, 1)[0], 0x00);
    for x in 4..12 {
        assert_eq!(pixel(&buffer, &info, x, 7)[0], 0xff);
    }
    // the columns left of the glyph are untouched
    assert_eq!(pixel(&buffer, &info, 3, 0)[0], 0x55);
    // a glyph whose right half falls off the screen draws its left half only
    writer.draw_glyph(&mut buffer, 12, 0, [0xff; 8]);
    assert_eq!(pixel(&buffer, &info, 15, 3)[0], 0xff);
    assert_eq!(buffer.len(), 128);
}

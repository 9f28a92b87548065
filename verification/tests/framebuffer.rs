use oscilloscope::font::glyph;
use oscilloscope::oled::Draw;
use oscilloscope::oled::Oscilloscope;
use oscilloscope::oled::Point;

#[test]
fn draw_pixel_sets_bit_and_dirty() {
    let mut o = Oscilloscope::new();
    // Logical (0, 0) lands at buffer column 64, row 32: page 4, bit 0.
    o.draw_pixel(0, 0);
    assert!(o.read_pixel(0, 0));
    assert_eq!(o.read_cell(4, 64), 0x01);
    assert_eq!(o.dirty_mask(), 1 << 4, "exactly page 4 dirty");
}

#[test]
fn draw_pixel_ors_into_cell() {
    let mut o = Oscilloscope::new();
    o.draw_pixel(1, 1);
    o.draw_pixel(1, 2);
    // Both bits of column 65 in page 4 are lit.
    assert_eq!(o.read_cell(4, 65), 0x02 | 0x04);
    assert!(o.read_pixel(1, 1));
    assert!(o.read_pixel(1, 2));
}

#[test]
fn draw_pixels_aligned_overwrites() {
    let mut o = Oscilloscope::new();
    o.draw_pixels(5, 8, 0xab);
    assert_eq!(o.read_cell(1, 5), 0xab);
    // A second write replaces the cell: no OR with prior content.
    o.draw_pixels(5, 8, 0x0f);
    assert_eq!(o.read_cell(1, 5), 0x0f);
    assert_eq!(o.dirty_mask(), 1 << 1);
}

#[test]
fn draw_pixels_unaligned_splits_across_two_pages() {
    let mut o = Oscilloscope::new();
    let data: u8 = 0xc5;
    let off: u8 = 3;
    o.draw_pixels(3, 11, data);
    let hi = o.read_cell(1, 3);
    let lo = o.read_cell(2, 3);
    assert_eq!(hi, data >> off);
    assert_eq!(lo, data << (8 - off));
    // The two partial reads recombine to the original byte.
    assert_eq!((hi << off) | (lo >> (8 - off)), data);
    // Exactly the two adjacent pages are dirty.
    assert_eq!(o.dirty_mask(), (1 << 1) | (1 << 2));
}

#[test]
fn draw_char_rasterizes_glyph_columns() {
    let mut o = Oscilloscope::new();
    o.draw_char(10, 8, 'A');
    let g = glyph(b'A');
    for i in 0..6u8 {
        assert_eq!(o.read_cell(1, 10 + i), g[i as usize]);
    }
    assert_eq!(o.dirty_mask(), 1 << 1);
}

#[test]
fn draw_char_unaligned_splits_glyph_columns() {
    let mut o = Oscilloscope::new();
    o.draw_char(20, 12, '|');
    let g = glyph(b'|');
    for i in 0..6u8 {
        assert_eq!(o.read_cell(1, 20 + i), g[i as usize] >> 4);
        assert_eq!(o.read_cell(2, 20 + i), g[i as usize] << 4);
    }
    assert_eq!(o.dirty_mask(), (1 << 1) | (1 << 2));
}

#[test]
fn draw_string_advances_by_glyph_width() {
    let mut o = Oscilloscope::new();
    o.draw_string(0, 0, "Hi");
    let h = glyph(b'H');
    let i = glyph(b'i');
    for k in 0..6u8 {
        assert_eq!(o.read_cell(0, k), h[k as usize]);
        assert_eq!(o.read_cell(0, 6 + k), i[k as usize]);
    }
}

#[test]
fn draw_number_pads_with_leading_zeroes() {
    let mut o = Oscilloscope::new();
    o.draw_number(0, 0, 7, 3);
    let zero = glyph(b'0');
    let seven = glyph(b'7');
    for k in 0..6u8 {
        assert_eq!(o.read_cell(0, k), zero[k as usize]);
        assert_eq!(o.read_cell(0, 6 + k), zero[k as usize]);
        assert_eq!(o.read_cell(0, 12 + k), seven[k as usize]);
    }
}

#[test]
fn draw_number_renders_all_digits() {
    let mut o = Oscilloscope::new();
    o.draw_number(0, 0, 1234, 4);
    let expect = [b'1', b'2', b'3', b'4'];
    for (d, ch) in expect.iter().enumerate() {
        let g = glyph(*ch);
        for k in 0..6u8 {
            assert_eq!(o.read_cell(0, (d as u8) * 6 + k), g[k as usize]);
        }
    }
}

#[test]
fn draw_number_keeps_least_significant_digits() {
    let mut o = Oscilloscope::new();
    o.draw_number(0, 0, 1234, 2);
    let three = glyph(b'3');
    let four = glyph(b'4');
    for k in 0..6u8 {
        assert_eq!(o.read_cell(0, k), three[k as usize]);
        assert_eq!(o.read_cell(0, 6 + k), four[k as usize]);
    }
}

#[test]
fn show_image_blits_strips() {
    let mut o = Oscilloscope::new();
    let data = [0xffu8, 0x81, 0x18, 0x24];
    // Two columns wide, two strips tall, page-aligned at (10, 8).
    o.show_image(10, 8, 2, 16, &data);
    assert_eq!(o.read_cell(1, 10), 0xff);
    assert_eq!(o.read_cell(1, 11), 0x81);
    assert_eq!(o.read_cell(2, 10), 0x18);
    assert_eq!(o.read_cell(2, 11), 0x24);
    assert_eq!(o.dirty_mask(), (1 << 1) | (1 << 2));
}

#[test]
fn clear_screen_zeroes_cells_and_keeps_mask() {
    let mut o = Oscilloscope::new();
    o.draw_pixels(5, 8, 0xab);
    o.draw_pixels(99, 48, 0x55);
    let mask = o.dirty_mask();
    assert_ne!(mask, 0);
    o.clear_screen();
    assert_eq!(o.read_cell(5, 5), 0);
    assert_eq!(o.read_cell(1, 5), 0);
    assert_eq!(o.read_cell(6, 99), 0);
    assert_eq!(o.dirty_mask(), mask, "clear_screen leaves the mask alone");
}

#[test]
fn clear_data_zeroes_and_flushes_only_dirty_pages() {
    let mut o = Oscilloscope::new();
    o.draw_pixels(5, 8, 0xab);
    o.draw_pixels(7, 24, 0xcd);
    assert_eq!(o.dirty_mask(), (1 << 1) | (1 << 3));
    let writes = o.clear_data();
    // Two writes per previously-dirty page, now-blank payloads.
    assert_eq!(writes.len(), 4);
    assert_eq!(writes[0].data, vec![0x00, 0x00, 0x00, 0xb0 | 1]);
    assert_eq!(writes[1].data[0], 0x40);
    assert!(writes[1].data[1..].iter().all(|&b| b == 0));
    assert_eq!(writes[2].data, vec![0x00, 0x00, 0x00, 0xb0 | 3]);
    assert!(writes[3].data[1..].iter().all(|&b| b == 0));
    assert_eq!(o.read_cell(1, 5), 0);
    assert_eq!(o.read_cell(3, 7), 0);
    assert_eq!(o.dirty_mask(), 0);
}

#[test]
fn origin_is_panel_centre() {
    let o = Oscilloscope::new();
    let p = o.origin();
    assert_eq!(p.x, 64);
    assert_eq!(p.y, 32);
}

#[test]
fn cursor_points_track_last_position() {
    let mut o = Oscilloscope::new();
    assert_eq!(o.current_point(), Point { x: 0, y: 0 });
    o.set_current_point(Point { x: 3, y: 9 });
    o.set_current_point(Point { x: 5, y: 11 });
    assert_eq!(o.current_point(), Point { x: 5, y: 11 });
    assert_eq!(o.previous_point(), Point { x: 3, y: 9 });
}

use oscilloscope::oled::Oscilloscope;
use oscilloscope::oled::OLED_ADDR;

#[test]
fn init_produces_full_screen_flush() {
    let mut o = Oscilloscope::new();
    let writes = o.init();
    // The command burst, then a cursor command and a data write for
    // each of the 8 pages, drawing calls or none.
    assert_eq!(writes.len(), 1 + 2 * 8);
    assert!(writes.iter().all(|w| w.addr == OLED_ADDR));
    assert_eq!(writes[0].data.len(), 25);
    assert_eq!(writes[0].data[0], 0xae);
    assert_eq!(*writes[0].data.last().unwrap(), 0xaf);
    for p in 0..8u8 {
        let cmd = &writes[1 + 2 * p as usize];
        let data = &writes[2 + 2 * p as usize];
        assert_eq!(cmd.data, vec![0x00, 0x00, 0x00, 0xb0 | p]);
        assert_eq!(data.data.len(), 129);
        assert_eq!(data.data[0], 0x40);
        assert!(data.data[1..].iter().all(|&b| b == 0));
    }
    assert_eq!(o.dirty_mask(), 0);
}

#[test]
fn render_transmits_exactly_the_dirty_pages() {
    let mut o = Oscilloscope::new();
    o.draw_pixels(5, 8, 0xab);
    o.draw_pixels(99, 48, 0x55);
    assert_eq!(o.dirty_mask(), (1 << 1) | (1 << 6));
    let writes = o.render();
    assert_eq!(writes.len(), 4, "two writes per dirty page");
    assert!(writes.iter().all(|w| w.addr == OLED_ADDR));
    // Page 1: cursor command, then its 129-byte payload.
    assert_eq!(writes[0].data, vec![0x00, 0x00, 0x00, 0xb0 | 1]);
    assert_eq!(writes[1].data.len(), 129);
    assert_eq!(writes[1].data[0], 0x40);
    assert_eq!(writes[1].data[1 + 5], 0xab);
    // Page 6 follows in ascending order.
    assert_eq!(writes[2].data, vec![0x00, 0x00, 0x00, 0xb0 | 6]);
    assert_eq!(writes[3].data.len(), 129);
    assert_eq!(writes[3].data[1 + 99], 0x55);
    assert_eq!(o.dirty_mask(), 0, "mask cleared after the flush");
}

#[test]
fn render_clean_buffer_sends_nothing() {
    let mut o = Oscilloscope::new();
    let writes = o.render();
    assert!(writes.is_empty());
    // A second flush right after one transmits nothing either.
    o.draw_pixels(0, 0, 0x12);
    o.render();
    let again = o.render();
    assert!(again.is_empty());
}

#[test]
fn init_flushes_current_buffer_contents() {
    let mut o = Oscilloscope::new();
    o.draw_pixels(5, 8, 0xab);
    let writes = o.init();
    assert_eq!(writes.len(), 17);
    // The page-1 payload carries the drawn byte at its column.
    assert_eq!(writes[2 + 2 * 1].data[1 + 5], 0xab);
}

#[test]
fn render_keeps_cells() {
    let mut o = Oscilloscope::new();
    o.draw_pixels(5, 8, 0xab);
    o.render();
    assert_eq!(o.read_cell(1, 5), 0xab, "flushing leaves the buffer content");
}

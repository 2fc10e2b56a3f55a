use ssd1306::{
    DisplayRotation, DisplaySize128x32, DisplaySize128x64, DisplaySize64x48, DisplaySize72x40,
    DisplaySize96x16, Geometry, Ssd1306, Transfer,
};

fn display(g: Geometry, r: DisplayRotation) -> Ssd1306 {
    Ssd1306::new(g, r).expect("valid geometry")
}

/// A display whose initial full repaint has already been planned.
fn clean_display(g: Geometry, r: DisplayRotation) -> Ssd1306 {
    let mut d = display(g, r);
    assert!(d.flush().is_some());
    d
}

fn total_bytes(t: &Transfer) -> usize {
    t.chunks.iter().map(|c| c.len()).sum()
}

fn bit(d: &Ssd1306, idx: usize, bit: u8) -> bool {
    (d.buffer()[idx] >> bit) & 1 == 1
}

#[test]
fn model_geometries() {
    let g = DisplaySize128x64.geometry();
    assert_eq!((g.width, g.height, g.offset_x, g.offset_y, g.buffer_size), (128, 64, 0, 0, 1024));
    assert_eq!(DisplaySize128x32.geometry().buffer_size, 512);
    assert_eq!(DisplaySize96x16.geometry().buffer_size, 192);
    let g = DisplaySize72x40.geometry();
    assert_eq!((g.offset_x, g.buffer_size), (28, 360));
    let g = DisplaySize64x48.geometry();
    assert_eq!((g.offset_x, g.buffer_size), (32, 384));
    for g in [
        DisplaySize128x64.geometry(),
        DisplaySize128x32.geometry(),
        DisplaySize96x16.geometry(),
        DisplaySize72x40.geometry(),
        DisplaySize64x48.geometry(),
    ] {
        assert!(g.is_valid());
    }
}

#[test]
fn geometry_new_checks_consistency() {
    let g = Geometry::new(72, 40, 28, 0, 128).unwrap();
    assert_eq!(g, DisplaySize72x40.geometry());
    // Not whole pages.
    assert!(Geometry::new(128, 60, 0, 0, 128).is_none());
    // Past the controller's columns.
    assert!(Geometry::new(128, 64, 1, 0, 128).is_none());
    // Zero width.
    assert!(Geometry::new(0, 64, 0, 0, 128).is_none());
    // Rows past 255.
    assert!(Geometry::new(64, 64, 0, 200, 128).is_none());
    // Row offset off the controller's page boundaries.
    assert!(Geometry::new(8, 8, 0, 1, 128).is_none());
    assert!(Geometry::new(8, 8, 0, 8, 128).is_some());
}

#[test]
fn new_rejects_inconsistent_geometry() {
    let mut g = DisplaySize128x64.geometry();
    g.buffer_size = 1000;
    assert!(Ssd1306::new(g, DisplayRotation::Rotate0).is_none());
}

#[test]
fn construction_marks_whole_picture_dirty() {
    let d = display(DisplaySize128x64.geometry(), DisplayRotation::Rotate0);
    assert_eq!(d.dirty_bounds(), (0, 127, 0, 63));
    assert!(d.buffer().iter().all(|b| *b == 0));
    assert_eq!(d.buffer().len(), 1024);
    let d = display(DisplaySize128x32.geometry(), DisplayRotation::Rotate90);
    assert_eq!(d.dirty_bounds(), (0, 31, 0, 127));
}

#[test]
fn flush_then_flush_again_sends_nothing() {
    let mut d = display(DisplaySize128x32.geometry(), DisplayRotation::Rotate0);
    let t = d.flush().unwrap();
    assert_eq!(total_bytes(&t), 512);
    assert_eq!(d.dirty_bounds(), (255, 0, 255, 0));
    assert!(d.flush().is_none());
    assert_eq!(d.dirty_bounds(), (255, 0, 255, 0));
}

#[test]
fn clear_fills_and_marks_whole_picture_dirty() {
    let mut d = clean_display(DisplaySize96x16.geometry(), DisplayRotation::Rotate0);
    d.clear(true);
    assert!(d.buffer().iter().all(|b| *b == 0xff));
    assert_eq!(d.dirty_bounds(), (0, 95, 0, 15));
    d.clear(false);
    assert!(d.buffer().iter().all(|b| *b == 0));
    let t = d.flush().unwrap();
    assert_eq!(total_bytes(&t), 192);
}

#[test]
fn set_pixel_reads_back_through_mapping() {
    let mut d = clean_display(DisplaySize128x64.geometry(), DisplayRotation::Rotate0);
    d.set_pixel(5, 13, true);
    // Page 1, column 5, bit 5.
    assert!(bit(&d, 128 + 5, 5));
    assert_eq!(d.buffer()[133], 0x20);
    d.set_pixel(5, 13, false);
    assert!(!bit(&d, 133, 5));
    assert_eq!(d.buffer()[133], 0);
}

#[test]
fn set_pixel_rotated_swaps_axes() {
    let mut d = clean_display(DisplaySize128x64.geometry(), DisplayRotation::Rotate90);
    assert_eq!(d.size(), (64, 128));
    d.set_pixel(10, 20, true);
    // Byte (10 / 8) * 128 + 20, bit 10 % 8.
    assert_eq!(d.buffer()[148], 0x04);
    assert_eq!(d.dirty_bounds(), (10, 10, 20, 20));
}

#[test]
fn set_pixel_keeps_other_bits() {
    let mut d = clean_display(DisplaySize128x64.geometry(), DisplayRotation::Rotate180);
    d.set_pixel(0, 0, true);
    d.set_pixel(0, 7, true);
    assert_eq!(d.buffer()[0], 0x81);
    d.set_pixel(0, 0, false);
    assert_eq!(d.buffer()[0], 0x80);
}

#[test]
fn out_of_range_pixel_is_ignored() {
    let mut d = clean_display(DisplaySize128x64.geometry(), DisplayRotation::Rotate0);
    let before = d.buffer().to_vec();
    d.set_pixel(128, 0, true);
    d.set_pixel(0, 64, true);
    d.set_pixel(300, 2, true);
    d.set_pixel(u32::MAX, u32::MAX, true);
    assert_eq!(d.buffer(), &before[..]);
    assert_eq!(d.dirty_bounds(), (255, 0, 255, 0));
    assert!(d.flush().is_none());
    // Rotated: x runs to the panel height only.
    let mut d = clean_display(DisplaySize128x64.geometry(), DisplayRotation::Rotate270);
    d.set_pixel(64, 0, true);
    assert!(d.buffer().iter().all(|b| *b == 0));
    assert!(d.flush().is_none());
}

#[test]
fn dirty_region_is_tight_bounding_box() {
    let mut d = clean_display(DisplaySize128x64.geometry(), DisplayRotation::Rotate0);
    d.set_pixel(3, 5, true);
    assert_eq!(d.dirty_bounds(), (3, 3, 5, 5));
    d.set_pixel(10, 2, true);
    d.set_pixel(7, 9, false);
    d.set_pixel(500, 1, true);
    assert_eq!(d.dirty_bounds(), (3, 10, 2, 9));
}

#[test]
fn flush_length_is_pages_times_columns() {
    let mut d = clean_display(DisplaySize128x64.geometry(), DisplayRotation::Rotate0);
    d.set_pixel(3, 5, true);
    d.set_pixel(10, 2, true);
    d.set_pixel(7, 9, true);
    let t = d.flush().unwrap();
    // Pages 0 and 1, columns 3 to 10.
    assert_eq!(t.chunks.len(), 2);
    assert!(t.chunks.iter().all(|c| c.len() == 8));
    assert_eq!(total_bytes(&t), 16);

    // The same box reached by many more writes gives the same plan.
    let mut e = clean_display(DisplaySize128x64.geometry(), DisplayRotation::Rotate0);
    for _ in 0..3 {
        e.set_pixel(3, 5, true);
        e.set_pixel(10, 2, true);
        e.set_pixel(7, 9, true);
        e.set_pixel(5, 5, false);
    }
    let u = e.flush().unwrap();
    assert_eq!(u.chunks, t.chunks);
    assert_eq!((u.start, u.end), (t.start, t.end));
}

#[test]
fn flush_rotated_length() {
    let mut d = clean_display(DisplaySize128x64.geometry(), DisplayRotation::Rotate90);
    d.set_pixel(6, 30, true);
    d.set_pixel(9, 33, true);
    let t = d.flush().unwrap();
    // x spans pages 0 and 1; y spans columns 30 to 33.
    assert_eq!(t.chunks.len(), 2);
    assert_eq!(total_bytes(&t), 8);
    assert_eq!(t.chunks[0], vec![0x40, 0, 0, 0]);
    assert_eq!(t.chunks[1], vec![0, 0, 0, 0x02]);
}

#[test]
fn single_pixel_round_trip_128x64() {
    let mut d = clean_display(DisplaySize128x64.geometry(), DisplayRotation::Rotate0);
    d.set_pixel(0, 0, true);
    let t = d.flush().unwrap();
    assert_eq!(t.column_address(), vec![0x21, 0, 0]);
    assert_eq!(t.page_address(), vec![0x22, 0, 0]);
    assert_eq!(t.chunks, vec![vec![0x01]]);
}

#[test]
fn offset_panel_addresses_from_its_first_column() {
    let mut d = clean_display(DisplaySize72x40.geometry(), DisplayRotation::Rotate0);
    d.set_pixel(0, 0, true);
    let t = d.flush().unwrap();
    assert_eq!(t.start, (28, 0));
    assert_eq!(t.column_address(), vec![0x21, 28, 28]);
    assert_eq!(t.page_address(), vec![0x22, 0, 0]);
    assert_eq!(t.chunks, vec![vec![0x01]]);
}

#[test]
fn mirrored_rotation_counts_offset_from_far_edge() {
    let g = Geometry::new(64, 32, 10, 0, 128).unwrap();
    let mut d = clean_display(g, DisplayRotation::Rotate180);
    d.set_pixel(2, 12, true);
    let t = d.flush().unwrap();
    // 128 - 64 - 10 = 54 columns from the far edge.
    assert_eq!(t.start, (56, 12));
    assert_eq!(t.column_address(), vec![0x21, 56, 56]);
    assert_eq!(t.page_address(), vec![0x22, 1, 1]);
    assert_eq!(t.chunks, vec![vec![0x10]]);

    let mut d = clean_display(g, DisplayRotation::Rotate270);
    d.set_pixel(12, 2, true);
    let t = d.flush().unwrap();
    // Unmirrored: the offset as configured; logical y becomes the column.
    assert_eq!(t.column_address(), vec![0x21, 12, 12]);
    assert_eq!(t.page_address(), vec![0x22, 1, 1]);
    assert_eq!(t.chunks, vec![vec![0x10]]);
}

#[test]
fn display_and_dirty_area_match_flush() {
    let mut d = clean_display(DisplaySize72x40.geometry(), DisplayRotation::Rotate90);
    d.set_pixel(9, 3, true);
    let (w, h) = d.dimensions();
    assert_eq!((w, h), (40, 72));
    let (lo, hi) = d.dirty_area(w, h);
    assert_eq!((lo, hi), ((9, 3), (15, 4)));
    let (start, end) = d.display_area(lo, hi);
    assert_eq!((start, end), ((3 + 28, 9), (4 + 28, 15)));
    let t = d.flush().unwrap();
    assert_eq!((t.start, t.end), (start, end));
}

#[test]
fn rotation_change_repaints_everything() {
    let mut d = clean_display(DisplaySize72x40.geometry(), DisplayRotation::Rotate0);
    d.set_pixel(1, 1, true);
    assert!(d.flush().is_some());
    assert!(d.flush().is_none());
    d.set_rotation(DisplayRotation::Rotate90);
    assert_eq!(d.rotation(), DisplayRotation::Rotate90);
    let t = d.flush().unwrap();
    assert_eq!(t.chunks.len(), 5);
    assert!(t.chunks.iter().all(|c| c.len() == 72));
    assert_eq!(total_bytes(&t), 360);
    let all: Vec<u8> = t.chunks.concat();
    assert_eq!(&all[..], d.buffer());
    assert_eq!(t.column_address(), vec![0x21, 28, 99]);
    assert_eq!(t.page_address(), vec![0x22, 0, 4]);
}

#[test]
fn draw_iter_skips_pixels_off_the_picture() {
    let mut d = clean_display(DisplaySize128x32.geometry(), DisplayRotation::Rotate0);
    d.draw_iter(&[(-1, 0, true), (0, -3, true), (128, 0, true), (4, 9, true), (2, 31, true)]);
    assert_eq!(d.dirty_bounds(), (2, 4, 9, 31));
    assert_eq!(d.buffer()[128 + 4], 0x02);
    assert_eq!(d.buffer()[3 * 128 + 2], 0x80);
    assert_eq!(d.geometry(), DisplaySize128x32.geometry());
}

#[test]
fn failed_send_recovers_by_marking_everything_dirty() {
    let mut d = clean_display(DisplaySize64x48.geometry(), DisplayRotation::Rotate0);
    d.set_pixel(3, 3, true);
    // The plan is made and the dirty region reset before anything is sent.
    let lost = d.flush().unwrap();
    assert_eq!(lost.chunks, vec![vec![0x08]]);
    assert_eq!(d.dirty_bounds(), (255, 0, 255, 0));
    // Had sending failed, re-applying the rotation asks for a full repaint.
    d.set_rotation(d.rotation());
    let t = d.flush().unwrap();
    assert_eq!(total_bytes(&t), 384);
    assert_eq!(t.chunks[0][3], 0x08);
}

#[test]
fn largest_geometry_edges() {
    // Full byte range of columns.
    let g = Geometry::new(255, 8, 0, 0, 255).unwrap();
    assert_eq!(g.buffer_size, 255);
    let mut d = clean_display(g, DisplayRotation::Rotate0);
    d.set_pixel(254, 7, true);
    let t = d.flush().unwrap();
    assert_eq!(t.column_address(), vec![0x21, 254, 254]);
    assert_eq!(t.chunks, vec![vec![0x80]]);

    let mut d = clean_display(g, DisplayRotation::Rotate90);
    assert_eq!(d.size(), (8, 255));
    d.set_pixel(7, 254, true);
    let t = d.flush().unwrap();
    assert_eq!((t.start, t.end), ((254, 7), (255, 7)));
    assert_eq!(t.page_address(), vec![0x22, 0, 0]);
    assert_eq!(t.column_address(), vec![0x21, 254, 254]);
    assert_eq!(t.chunks, vec![vec![0x80]]);

    // Rows up to the last one a byte can number.
    let g = Geometry::new(8, 8, 0, 248, 128).unwrap();
    let mut d = clean_display(g, DisplayRotation::Rotate0);
    d.set_pixel(0, 7, true);
    let t = d.flush().unwrap();
    assert_eq!((t.start, t.end), ((0, 255), (1, 255)));
    assert_eq!(t.page_address(), vec![0x22, 31, 31]);
}

//! Framebuffer, transfers and screen layout.

use rusty_esp_knob::screen::{volume_bar, volume_dirty_rows, Colour, Place, Shape, Sweep};
use rusty_esp_knob::sh8601::{Area, Fill, Sh8601, Transfer};

fn pixel(s: &Sh8601, x: u16, y: u16) -> u16 {
    let row = s.row_bytes(y, 1);
    let i = x as usize * 2;
    u16::from_be_bytes([row[i], row[i + 1]])
}

fn painted(s: &Sh8601) -> usize {
    s.row_bytes(0, 360).chunks(2).filter(|p| *p != [0, 0]).count()
}

#[test]
fn pixels_are_high_byte_first() {
    let mut s = Sh8601::new();
    s.draw_pixel(3, 2, 0x1234);
    assert_eq!(&s.row_bytes(2, 1)[6..8], &[0x12, 0x34]);
    assert_eq!(pixel(&s, 3, 2), 0x1234);
    assert_eq!(painted(&s), 1);
}

#[test]
fn pixels_outside_are_passed_over() {
    let mut s = Sh8601::new();
    for (x, y) in [(-1, 0), (0, -1), (360, 0), (0, 360), (i32::MIN, i32::MAX)] {
        s.draw_pixel(x, y, 0xFFFF);
    }
    assert_eq!(painted(&s), 0);
    s.draw_pixel(359, 359, 0xFFFF);
    assert_eq!(pixel(&s, 359, 359), 0xFFFF);
}

#[test]
fn clear_paints_everything() {
    let mut s = Sh8601::new();
    s.clear(0xF800);
    assert_eq!(painted(&s), 360 * 360);
    assert_eq!(pixel(&s, 100, 200), 0xF800);
}

#[test]
fn area_is_filled_row_by_row() {
    let mut s = Sh8601::new();
    let colors: Vec<u16> = (1..=7).collect();
    s.fill_contiguous(Area { x: 10, y: 20, width: 3, height: 2 }, &colors);
    assert_eq!(pixel(&s, 10, 20), 1);
    assert_eq!(pixel(&s, 12, 20), 3);
    assert_eq!(pixel(&s, 10, 21), 4);
    assert_eq!(pixel(&s, 12, 21), 6);
    // The seventh colour has no place.
    assert_eq!(painted(&s), 6);
}

#[test]
fn too_few_colours_fill_a_part() {
    let mut s = Sh8601::new();
    s.fill_contiguous(Area { x: 0, y: 0, width: 4, height: 4 }, &[9; 5]);
    assert_eq!(painted(&s), 5);
    assert_eq!(pixel(&s, 0, 1), 9);
    assert_eq!(pixel(&s, 1, 1), 0);
}

#[test]
fn area_is_clipped_to_the_screen() {
    let mut s = Sh8601::new();
    s.fill_contiguous(Area { x: -2, y: 358, width: 4, height: 9 }, &[1, 2, 3, 4, 5, 6]);
    assert_eq!(pixel(&s, 0, 358), 1);
    assert_eq!(pixel(&s, 1, 358), 2);
    assert_eq!(pixel(&s, 0, 359), 3);
    assert_eq!(pixel(&s, 1, 359), 4);
    assert_eq!(painted(&s), 4);
    let mut off = Sh8601::new();
    off.fill_contiguous(Area { x: 400, y: 0, width: 4, height: 4 }, &[1; 16]);
    off.fill_contiguous(Area { x: 0, y: 0, width: 0, height: 4 }, &[1; 16]);
    assert_eq!(painted(&off), 0);
}

#[test]
fn widest_area_is_clipped_too() {
    let mut s = Sh8601::new();
    let side = i32::MAX as u32;
    s.fill_contiguous(Area { x: -10, y: 5, width: side, height: 1 }, &[3; 400]);
    assert_eq!(painted(&s), 360);
    assert_eq!(pixel(&s, 359, 5), 3);
}

#[test]
fn colours_one_at_a_time() {
    let mut s = Sh8601::new();
    let mut fill = Fill::new(Area { x: 5, y: 5, width: 2, height: 1 });
    assert!(s.fill_next(&mut fill, 7));
    assert!(s.fill_next(&mut fill, 8));
    assert!(!s.fill_next(&mut fill, 9));
    assert_eq!((pixel(&s, 5, 5), pixel(&s, 6, 5)), (7, 8));
}

#[test]
fn ring_lies_between_its_circles() {
    let (inner, outer) = (20, 30);
    let mut s = Sh8601::new();
    s.fill_ring(180, 180, inner, outer, 0xFFFF);
    for y in 0..360i32 {
        for x in 0..360i32 {
            let d2 = (x - 180) * (x - 180) + (y - 180) * (y - 180);
            let inside = inner * inner <= d2 && d2 <= outer * outer;
            assert_eq!(pixel(&s, x as u16, y as u16) == 0xFFFF, inside);
        }
    }
}

#[test]
fn ring_of_two_pixels() {
    let mut s = Sh8601::new();
    s.fill_ring(180, 180, 2, 3, 0xFFFF);
    // Too near to the centre.
    assert_eq!(pixel(&s, 181, 181), 0);
    assert_eq!(pixel(&s, 182, 180), 0xFFFF);
    assert_eq!(pixel(&s, 182, 181), 0xFFFF);
    assert_eq!(pixel(&s, 183, 180), 0xFFFF);
    assert_eq!(pixel(&s, 182, 182), 0xFFFF);
    assert_eq!(pixel(&s, 183, 181), 0);
    assert_eq!(painted(&s), 20);
}

#[test]
fn full_sweep_is_the_track() {
    let mut track = Sh8601::new();
    track.fill_ring_270(180, 180, 100, 140, 7);
    let mut arc = Sh8601::new();
    let end = (135.0_f32 + 270.0) * core::f32::consts::PI / 180.0;
    let before_end = |dx: i32, dy: i32| dx as f32 * end.sin() - dy as f32 * end.cos() >= 0.0;
    arc.fill_ring_arc(180, 180, 100, 140, &before_end, true, 7);
    for y in 0..360u16 {
        for x in 0..360u16 {
            if x != y {
                assert_eq!(pixel(&arc, x, y), pixel(&track, x, y));
            }
        }
    }
}

#[test]
fn ring_of_270_degrees_leaves_the_bottom_open() {
    let mut s = Sh8601::new();
    s.fill_ring_270(180, 180, 20, 30, 0xFFFF);
    assert_eq!(pixel(&s, 180, 180 - 25), 0xFFFF);
    assert_eq!(pixel(&s, 180 + 25, 180), 0xFFFF);
    assert_eq!(pixel(&s, 180, 180 + 25), 0);
    // The wedge's edges belong to the arc.
    assert_eq!(pixel(&s, 180 + 18, 180 + 18), 0xFFFF);
    assert_eq!(pixel(&s, 180 + 17, 180 + 18), 0);
}

#[test]
fn ring_off_the_screen_is_cut() {
    let mut s = Sh8601::new();
    s.fill_ring_270(-5, 359, 0, 10, 1);
    assert_eq!(pixel(&s, 0, 359), 1);
    assert_eq!(pixel(&s, 5, 359), 1);
    assert_eq!(pixel(&s, 6, 359), 0);
}

#[test]
fn arc_goes_from_start_to_end() {
    // Up to the top: 135 degrees.
    let mut s = Sh8601::new();
    s.fill_ring_arc(180, 180, 20, 30, &|dx: i32, _dy: i32| dx <= 0, false, 2);
    assert_eq!(pixel(&s, 180 - 25, 180), 2);
    assert_eq!(pixel(&s, 180, 180 - 25), 2);
    assert_eq!(pixel(&s, 180 + 25, 180), 0);
    assert_eq!(pixel(&s, 180, 180 + 25), 0);
    // Beyond half a turn passing one of the two tests is enough.
    let mut s = Sh8601::new();
    s.fill_ring_arc(180, 180, 20, 30, &|_dx: i32, dy: i32| dy <= 0, true, 2);
    assert_eq!(pixel(&s, 180 - 25, 180), 2);
    assert_eq!(pixel(&s, 180 + 25, 180), 2);
    assert_eq!(pixel(&s, 180, 180 + 25), 0);
}

#[test]
fn flush_in_chunks_of_whole_rows() {
    let s = Sh8601::new();
    let transfers = s.flush();
    assert_eq!(transfers.len(), 19);
    assert_eq!(transfers[0], Transfer::Window { x0: 0, y0: 0, x1: 359, y1: 359 });
    assert_eq!(transfers[1], Transfer::Window { x0: 0, y0: 0, x1: 359, y1: 40 });
    assert_eq!(transfers[2], Transfer::Rows { row: 0, rows: 41 });
    assert_eq!(transfers[17], Transfer::Window { x0: 0, y0: 328, x1: 359, y1: 359 });
    assert_eq!(transfers[18], Transfer::Rows { row: 328, rows: 32 });
    let mut rows = vec![0; 360];
    for t in &transfers {
        if let Transfer::Rows { row, rows: n } = t {
            assert!(s.row_bytes(*row, *n).len() <= 30_000);
            for y in *row..*row + *n {
                rows[y as usize] += 1;
            }
        }
    }
    assert!(rows.iter().all(|n| *n == 1));
}

#[test]
fn flush_of_a_band() {
    let s = Sh8601::new();
    assert_eq!(
        s.flush_rows(350, 1000),
        vec![
            Transfer::Window { x0: 0, y0: 350, x1: 359, y1: 359 },
            Transfer::Rows { row: 350, rows: 10 },
        ]
    );
    assert_eq!(s.flush_rows(360, 400), vec![]);
    assert_eq!(s.flush_rows(5, 4), vec![]);
    assert_eq!(s.flush_rows(0, 0).len(), 2);
}

#[test]
fn window_parameters() {
    assert_eq!(Sh8601::window(0, 300, 359, 301), ([0, 0, 1, 103], [1, 44, 1, 45]));
    assert_eq!(Sh8601::register_address(0x2C), 0x2C00);
}

#[test]
fn bar_of_nothing_is_an_empty_track() {
    let shapes = volume_bar(0);
    assert_eq!(shapes.len(), 6);
    assert_eq!(shapes[0], Shape::Arc { sweep: Sweep::Full, stroke: 32, colour: Colour::Black });
    assert_eq!(shapes[3], Shape::Arc { sweep: Sweep::Full, stroke: 14, colour: Colour::DimGray });
    let shapes = volume_bar(1);
    assert_eq!(shapes.len(), 9);
    assert_eq!(
        shapes[8],
        Shape::Cap { place: Place::Tip(1), diameter: 14, colour: Colour::White }
    );
}

#[test]
fn rows_that_a_volume_change_touches() {
    assert_eq!(volume_dirty_rows(50, 10, 50, 10), (0, 0));
    // Between two tips on the left side.
    assert_eq!(volume_dirty_rows(20, 150, 30, 90), (82, 158));
    assert_eq!(volume_dirty_rows(30, 90, 20, 150), (82, 158));
    // Over the top.
    assert_eq!(volume_dirty_rows(40, 40, 60, 40), (2, 48));
    // From nothing: the start cap changes too.
    assert_eq!(volume_dirty_rows(0, 180, 5, 280), (272, 308));
    // Past the leftmost point.
    assert_eq!(volume_dirty_rows(15, 192, 18, 165), (157, 200));
    // Past both sides and the top.
    assert_eq!(volume_dirty_rows(0, 180, 100, 300), (2, 308));
}

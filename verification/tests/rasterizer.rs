use softrender::color::{pack, RGB};
use softrender::fixed::{from_int, ONE};
use softrender::raster::{
    bounding_box, inside, triangle_area, DrawOutcome, PixelBuffer, MAX_DIMENSION, TOLERANCE,
};
use softrender::vector::Vec2;

const BACKGROUND: u32 = 0x101010;

fn v2(x: i32, y: i32) -> Vec2 {
    Vec2::new(from_int(x), from_int(y))
}

fn local(x: u32, y: u32, _z: u32) -> RGB {
    (x as u8, y as u8, 1)
}

fn grey(_x: u32, _y: u32, _z: u32) -> RGB {
    (155, 155, 155)
}

fn white(_x: u32, _y: u32, _z: u32) -> RGB {
    (255, 255, 255)
}

fn pixel(buffer: &PixelBuffer, x: usize, y: usize) -> u32 {
    buffer.pixels()[y * buffer.width() + x]
}

/// The area of a triangle by the shoelace formula, worked out apart from
/// the library.
fn area(a: (i128, i128), b: (i128, i128), c: (i128, i128)) -> i128 {
    let twice: i128 = a.0 * (b.1 - c.1) + b.0 * (c.1 - a.1) + c.0 * (a.1 - b.1);
    twice.abs() / (2 * 65536 * 65536)
}

fn raw(p: Vec2) -> (i128, i128) {
    (p.x as i128, p.y as i128)
}

/// The place in the bounding box that a pixel of the screen is tested at,
/// if the walk reaches it.
fn walked_place(a: Vec2, b: Vec2, c: Vec2, x: i128, y: i128) -> Option<(i128, i128)> {
    let left: i128 = raw(a).0.min(raw(b).0).min(raw(c).0);
    let right: i128 = raw(a).0.max(raw(b).0).max(raw(c).0);
    let top: i128 = raw(a).1.min(raw(b).1).min(raw(c).1);
    let bottom: i128 = raw(a).1.max(raw(b).1).max(raw(c).1);
    let columns: i128 = (right - left) / 65536;
    let rows: i128 = (bottom - top) / 65536;
    let lx: i128 = x - left.div_euclid(65536);
    let ly: i128 = y - top.div_euclid(65536);
    if 0 <= lx && lx < columns && 0 <= ly && ly < rows && !(lx == 0 && ly == 0) {
        Some((lx, ly))
    } else {
        None
    }
}

/// What the screen must hold after `a`, `b`, `c` is drawn over `before`.
fn expected(
    before: &[u32],
    width: usize,
    a: Vec2,
    b: Vec2,
    c: Vec2,
    shader: fn(u32, u32, u32) -> RGB,
) -> Vec<u32> {
    let left: i128 = raw(a).0.min(raw(b).0).min(raw(c).0);
    let top: i128 = raw(a).1.min(raw(b).1).min(raw(c).1);
    let abc: i128 = area(raw(a), raw(b), raw(c));
    let mut after: Vec<u32> = before.to_vec();
    for k in 0..before.len() {
        let x: i128 = (k % width) as i128;
        let y: i128 = (k / width) as i128;
        if let Some((lx, ly)) = walked_place(a, b, c, x, y) {
            let p: (i128, i128) = (left + lx * 65536, top + ly * 65536);
            let parts: i128 =
                area(p, raw(b), raw(c)) + area(raw(a), p, raw(c)) + area(raw(a), raw(b), p);
            if (abc - parts).abs() < 5 {
                after[k] = pack(shader(lx as u32, ly as u32, 0));
            }
        }
    }
    after
}

/// Whether the point of the screen lies in the triangle or on its edge,
/// by the signs of its barycentric coordinates.
fn within(a: Vec2, b: Vec2, c: Vec2, p: (i128, i128)) -> bool {
    let signed = |u: (i128, i128), v: (i128, i128), w: (i128, i128)| -> i128 {
        u.0 * (v.1 - w.1) + v.0 * (w.1 - u.1) + w.0 * (u.1 - v.1)
    };
    let s1: i128 = signed(p, raw(b), raw(c));
    let s2: i128 = signed(raw(a), p, raw(c));
    let s3: i128 = signed(raw(a), raw(b), p);
    (s1 >= 0 && s2 >= 0 && s3 >= 0) || (s1 <= 0 && s2 <= 0 && s3 <= 0)
}

#[test]
fn tolerance_is_five() {
    assert_eq!(TOLERANCE, 5);
    assert_eq!(MAX_DIMENSION, 65535);
}

#[test]
fn triangle_area_is_unsigned_and_cut() {
    assert_eq!(triangle_area(v2(0, 0), v2(10, 0), v2(0, 10)), 50);
    assert_eq!(triangle_area(v2(0, 0), v2(0, 10), v2(10, 0)), 50);
    // 4.5 is cut to 4
    assert_eq!(triangle_area(v2(0, 0), v2(3, 0), v2(0, 3)), 4);
    assert_eq!(triangle_area(v2(-3, -3), v2(0, -3), v2(-3, 0)), 4);
    assert_eq!(triangle_area(v2(1, 1), v2(2, 2), v2(3, 3)), 0);
    assert_eq!(triangle_area(v2(5, 5), v2(5, 5), v2(9, 1)), 0);
    // half pixels: 0.5 * 2.5 * 2.5 = 3.125
    let h: i32 = ONE / 2;
    assert_eq!(triangle_area(Vec2::new(0, 0), Vec2::new(5 * h, 0), Vec2::new(0, 5 * h)), 3);
}

#[test]
fn triangle_area_of_the_widest_triangle() {
    let a = Vec2::new(i32::MIN, i32::MIN);
    let b = Vec2::new(i32::MAX, i32::MIN);
    let c = Vec2::new(i32::MIN, i32::MAX);
    // half of (2^32 - 1)^2 raw units, over 2^32
    assert_eq!(triangle_area(a, b, c), 2147483647);
}

#[test]
fn bounding_box_takes_the_extremes() {
    let bounds = bounding_box(v2(158, 100), v2(100, 110), v2(206, 107));
    assert_eq!(bounds.left, from_int(100));
    assert_eq!(bounds.right, from_int(206));
    assert_eq!(bounds.top, from_int(100));
    assert_eq!(bounds.bottom, from_int(110));
}

#[test]
fn inside_test_uses_the_tolerance_band() {
    let a = v2(0, 0);
    let b = v2(10, 0);
    let c = v2(0, 2);
    // in the triangle
    assert!(inside(a, b, c, v2(1, 1)));
    // outside, but the partial areas 1 + 6 + 5 differ from 10 by 2
    assert!(inside(a, b, c, v2(6, 1)));
    // 2 + 7 + 5 differs by 4
    assert!(inside(a, b, c, v2(7, 1)));
    // 3 + 8 + 5 differs by 6
    assert!(!inside(a, b, c, v2(8, 1)));
    assert!(!inside(a, b, c, v2(9, 1)));
}

#[test]
fn inside_test_at_the_edge_of_the_band() {
    let a = v2(0, 0);
    let b = v2(10, 0);
    let c = v2(0, 2);
    let quarter: i32 = ONE / 4;
    // partial areas 2 + 0 + 12 = 14 against 10: four off, inside
    assert!(inside(a, b, c, Vec2::new(quarter, 10 * quarter)));
    // partial areas 3 + 0 + 12 = 15 against 10: five off, outside
    assert!(!inside(a, b, c, Vec2::new(2 * quarter, 10 * quarter)));
    // on the long edge of a larger triangle, and one pixel beyond it
    assert!(inside(v2(0, 0), v2(10, 0), v2(0, 10), v2(5, 5)));
    assert!(!inside(v2(0, 0), v2(10, 0), v2(0, 10), v2(6, 5)));
}

#[test]
fn new_buffer_is_cleared() {
    let buffer = PixelBuffer::new(7, 5, 0xabcdef);
    assert_eq!(buffer.width(), 7);
    assert_eq!(buffer.height(), 5);
    assert_eq!(buffer.pixels().len(), 35);
    assert!(buffer.pixels().iter().all(|p| *p == 0xabcdef));
    let empty = PixelBuffer::new(0, 9, 1);
    assert_eq!(empty.pixels().len(), 0);
}

#[test]
fn reset_hands_out_the_frame_and_clears() {
    let mut buffer = PixelBuffer::new(40, 30, BACKGROUND);
    buffer.draw_triangle(v2(10, 10), v2(20, 10), v2(10, 20), &grey);
    let frame = buffer.reset(0x202020);
    assert_eq!(frame.len(), 1200);
    assert_eq!(frame[10 * 40 + 11], 0x9b9b9b);
    assert_eq!(frame[0], BACKGROUND);
    assert_eq!(buffer.width(), 40);
    assert_eq!(buffer.height(), 30);
    assert_eq!(buffer.pixels().len(), 1200);
    assert!(buffer.pixels().iter().all(|p| *p == 0x202020));
}

#[test]
fn draw_triangle_colours_by_local_coordinates() {
    let mut buffer = PixelBuffer::new(540, 360, BACKGROUND);
    let outcome = buffer.draw_triangle(v2(10, 10), v2(20, 10), v2(10, 20), &local);
    assert_eq!(outcome, DrawOutcome::Drawn);
    assert_eq!(pixel(&buffer, 11, 10), 0x010001);
    assert_eq!(pixel(&buffer, 15, 12), 0x050201);
    assert_eq!(pixel(&buffer, 10, 19), 0x000901);
    // on the long edge
    assert_eq!(pixel(&buffer, 15, 15), 0x050501);
    // beyond the long edge
    assert_eq!(pixel(&buffer, 16, 15), BACKGROUND);
    assert_eq!(pixel(&buffer, 19, 19), BACKGROUND);
    // outside the box
    assert_eq!(pixel(&buffer, 9, 10), BACKGROUND);
    assert_eq!(pixel(&buffer, 10, 9), BACKGROUND);
    // the far edges of the box are not walked
    assert_eq!(pixel(&buffer, 20, 10), BACKGROUND);
    assert_eq!(pixel(&buffer, 10, 20), BACKGROUND);
}

#[test]
fn draw_triangle_skips_the_first_pixel_of_the_box() {
    let mut buffer = PixelBuffer::new(540, 360, BACKGROUND);
    buffer.draw_triangle(v2(10, 10), v2(20, 10), v2(10, 20), &white);
    assert_eq!(pixel(&buffer, 10, 10), BACKGROUND);
    assert_eq!(pixel(&buffer, 11, 10), 0xffffff);
    assert_eq!(pixel(&buffer, 10, 11), 0xffffff);
}

#[test]
fn draw_triangle_paints_the_band_around_a_thin_triangle() {
    let mut buffer = PixelBuffer::new(540, 360, BACKGROUND);
    let outcome = buffer.draw_triangle(v2(100, 100), v2(110, 100), v2(100, 102), &white);
    assert_eq!(outcome, DrawOutcome::Drawn);
    for x in 100..108 {
        assert_eq!(pixel(&buffer, x, 101), 0xffffff);
    }
    assert_eq!(pixel(&buffer, 108, 101), BACKGROUND);
    assert_eq!(pixel(&buffer, 109, 101), BACKGROUND);
    assert_eq!(pixel(&buffer, 100, 102), BACKGROUND);
}

#[test]
fn draw_triangle_matches_the_tolerance_rule_on_every_pixel() {
    let triangles: [(Vec2, Vec2, Vec2); 5] = [
        (v2(158, 100), v2(100, 110), v2(206, 107)),
        (v2(149, 123), v2(100, 110), v2(157, 201)),
        (v2(206, 172), v2(157, 201), v2(206, 107)),
        (Vec2::new(1234567, 2345678), Vec2::new(9876543, 3456789), Vec2::new(4567890, 8765432)),
        (Vec2::new(-300000, 500000), Vec2::new(2500000, -400000), Vec2::new(1200000, 3000000)),
    ];
    for (a, b, c) in triangles {
        let mut buffer = PixelBuffer::new(540, 360, BACKGROUND);
        let before: Vec<u32> = buffer.pixels().clone();
        let outcome = buffer.draw_triangle(a, b, c, &local);
        assert_eq!(outcome, DrawOutcome::Drawn);
        let want = expected(&before, 540, a, b, c, local);
        assert!(want != before);
        assert!(*buffer.pixels() == want);
    }
}

#[test]
fn pixels_within_a_triangle_are_coloured() {
    let a = v2(120, 40);
    let b = v2(300, 90);
    let c = v2(170, 310);
    let mut buffer = PixelBuffer::new(540, 360, BACKGROUND);
    assert_eq!(buffer.draw_triangle(a, b, c, &local), DrawOutcome::Drawn);
    let mut coloured: usize = 0;
    for y in 0..360usize {
        for x in 0..540usize {
            if let Some((lx, ly)) = walked_place(a, b, c, x as i128, y as i128) {
                let p: (i128, i128) = ((x as i128) * 65536, (y as i128) * 65536);
                if within(a, b, c, p) {
                    assert_eq!(pixel(&buffer, x, y), pack(local(lx as u32, ly as u32, 0)));
                    coloured += 1;
                }
            } else {
                assert_eq!(pixel(&buffer, x, y), BACKGROUND);
            }
        }
    }
    assert!(coloured > 20000);
}

#[test]
fn draw_triangle_with_a_degenerate_box_changes_nothing() {
    let mut buffer = PixelBuffer::new(540, 360, BACKGROUND);
    let half: i32 = ONE / 2;
    let narrow = buffer.draw_triangle(
        v2(10, 10),
        Vec2::new(from_int(10) + half, from_int(10)),
        v2(10, 20),
        &white,
    );
    assert_eq!(narrow, DrawOutcome::DegenerateGeometry);
    let flat = buffer.draw_triangle(v2(10, 10), v2(50, 10), v2(30, 10), &white);
    assert_eq!(flat, DrawOutcome::DegenerateGeometry);
    let almost = buffer.draw_triangle(
        v2(10, 10),
        v2(50, 10),
        Vec2::new(from_int(30), from_int(11) - 1),
        &white,
    );
    assert_eq!(almost, DrawOutcome::DegenerateGeometry);
    assert!(buffer.pixels().iter().all(|p| *p == BACKGROUND));
}

#[test]
fn draw_triangle_with_coincident_corners_in_one_place_changes_nothing() {
    let mut buffer = PixelBuffer::new(540, 360, BACKGROUND);
    let point = buffer.draw_triangle(v2(30, 30), v2(30, 30), v2(30, 30), &white);
    assert_eq!(point, DrawOutcome::DegenerateGeometry);
    let upright = buffer.draw_triangle(v2(30, 30), v2(30, 30), v2(30, 90), &white);
    assert_eq!(upright, DrawOutcome::DegenerateGeometry);
    let level = buffer.draw_triangle(v2(30, 30), v2(90, 30), v2(90, 30), &white);
    assert_eq!(level, DrawOutcome::DegenerateGeometry);
    assert!(buffer.pixels().iter().all(|p| *p == BACKGROUND));
}

#[test]
fn draw_triangle_with_coincident_corners_paints_only_near_the_edge() {
    let a = v2(10, 10);
    let c = v2(20, 20);
    let mut buffer = PixelBuffer::new(540, 360, BACKGROUND);
    let before: Vec<u32> = buffer.pixels().clone();
    assert_eq!(buffer.draw_triangle(a, a, c, &white), DrawOutcome::Drawn);
    assert_eq!(triangle_area(a, a, c), 0);
    // on the edge that is left
    assert_eq!(pixel(&buffer, 11, 11), 0xffffff);
    assert_eq!(pixel(&buffer, 19, 19), 0xffffff);
    // away from it
    assert_eq!(pixel(&buffer, 19, 11), BACKGROUND);
    assert_eq!(pixel(&buffer, 11, 19), BACKGROUND);
    assert_eq!(pixel(&buffer, 10, 10), BACKGROUND);
    assert!(*buffer.pixels() == expected(&before, 540, a, a, c, white));
    // a one-pixel box is walked nowhere
    let mut small = PixelBuffer::new(540, 360, BACKGROUND);
    let near = Vec2::new(from_int(11) + ONE / 2, from_int(11) + ONE / 2);
    assert_eq!(small.draw_triangle(a, a, near, &white), DrawOutcome::Drawn);
    assert!(small.pixels().iter().all(|p| *p == BACKGROUND));
}

#[test]
fn draw_triangle_left_of_and_above_the_frame_is_out_of_frame() {
    let mut buffer = PixelBuffer::new(540, 360, BACKGROUND);
    let outcome = buffer.draw_triangle(v2(-30, -30), v2(-20, -30), v2(-30, -20), &white);
    assert_eq!(outcome, DrawOutcome::OutOfFrame);
    assert!(buffer.pixels().iter().all(|p| *p == BACKGROUND));
}

#[test]
fn draw_triangle_off_screen_changes_nothing() {
    let mut buffer = PixelBuffer::new(540, 360, BACKGROUND);
    // right of the frame
    assert_eq!(
        buffer.draw_triangle(v2(540, 10), v2(600, 10), v2(540, 60), &white),
        DrawOutcome::Drawn
    );
    // below the frame
    assert_eq!(
        buffer.draw_triangle(v2(10, 360), v2(60, 360), v2(10, 400), &white),
        DrawOutcome::Drawn
    );
    // left of the frame only
    assert_eq!(
        buffer.draw_triangle(v2(-60, 10), v2(-1, 10), v2(-60, 60), &white),
        DrawOutcome::Drawn
    );
    // above the frame only
    assert_eq!(
        buffer.draw_triangle(v2(10, -60), v2(60, -60), v2(10, -1), &white),
        DrawOutcome::Drawn
    );
    assert!(buffer.pixels().iter().all(|p| *p == BACKGROUND));
}

#[test]
fn draw_triangle_clips_at_the_frame() {
    let mut buffer = PixelBuffer::new(540, 360, BACKGROUND);
    let before: Vec<u32> = buffer.pixels().clone();
    let a = v2(-5, 10);
    let b = v2(5, 10);
    let c = v2(-5, 20);
    assert_eq!(buffer.draw_triangle(a, b, c, &local), DrawOutcome::Drawn);
    // column 0 of the screen is column 5 of the box
    assert_eq!(pixel(&buffer, 0, 10), 0x050001);
    assert_eq!(pixel(&buffer, 4, 10), 0x090001);
    // nothing wraps round to the right edge
    assert_eq!(pixel(&buffer, 539, 9), BACKGROUND);
    assert_eq!(pixel(&buffer, 539, 10), BACKGROUND);
    assert!(*buffer.pixels() == expected(&before, 540, a, b, c, local));

    let mut corner = PixelBuffer::new(540, 360, BACKGROUND);
    let start: Vec<u32> = corner.pixels().clone();
    let d = v2(520, 340);
    let e = v2(580, 340);
    let f = v2(520, 400);
    assert_eq!(corner.draw_triangle(d, e, f, &local), DrawOutcome::Drawn);
    assert_eq!(pixel(&corner, 539, 359), 0x131301);
    assert!(*corner.pixels() == expected(&start, 540, d, e, f, local));
}

#[test]
fn draw_triangle_between_pixels_tests_from_the_corner_of_the_box() {
    // the box starts a quarter pixel before column 10 and row 10
    let quarter: i32 = ONE / 4;
    let a = Vec2::new(from_int(10) - quarter, from_int(10) - quarter);
    let b = Vec2::new(from_int(20), from_int(10) - quarter);
    let c = Vec2::new(from_int(10) - quarter, from_int(20));
    let mut buffer = PixelBuffer::new(64, 64, BACKGROUND);
    let before: Vec<u32> = buffer.pixels().clone();
    assert_eq!(buffer.draw_triangle(a, b, c, &local), DrawOutcome::Drawn);
    // the box's column 1 is tested at 10.75 and lands on column 10
    assert_eq!(pixel(&buffer, 10, 9), 0x010001);
    assert_eq!(pixel(&buffer, 9, 10), 0x000101);
    assert_eq!(pixel(&buffer, 9, 9), BACKGROUND);
    assert!(*buffer.pixels() == expected(&before, 64, a, b, c, local));
}

#[test]
fn two_triangles_that_share_an_edge_leave_no_gap() {
    let lower: RGB = (10, 20, 30);
    let upper: RGB = (200, 100, 50);
    let first = |_x: u32, _y: u32, _z: u32| -> RGB { (10, 20, 30) };
    let second = |_x: u32, _y: u32, _z: u32| -> RGB { (200, 100, 50) };
    let mut buffer = PixelBuffer::new(540, 360, BACKGROUND);
    assert_eq!(
        buffer.draw_triangle(v2(100, 100), v2(140, 100), v2(100, 140), &first),
        DrawOutcome::Drawn
    );
    assert_eq!(
        buffer.draw_triangle(v2(140, 100), v2(100, 140), v2(140, 140), &second),
        DrawOutcome::Drawn
    );
    for y in 0..360usize {
        for x in 0..540usize {
            let in_box: bool = 100 <= x && x < 140 && 100 <= y && y < 140;
            let want: u32 = if !in_box || (x == 100 && y == 100) {
                BACKGROUND
            } else if x + y >= 240 {
                // the shared edge and what lies beyond it belong to the
                // triangle that was drawn last
                pack(upper)
            } else {
                pack(lower)
            };
            assert_eq!(pixel(&buffer, x, y), want);
        }
    }
}

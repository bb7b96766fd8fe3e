use mini_system_monitor::render::draw_outline;
use mini_system_monitor::frame::{draw_image, fill_rect, Frame};
use mini_system_monitor::line::draw_line;
use mini_system_monitor::render::{
    anchor_offset, background_bands, bg_portion, text_placement, tray_icon_rgba, HEIGHT, TEXT_PAD, WIDTH,
};

#[test]
fn new_frame_is_black() {
    let f = Frame::new(3, 2);
    assert_eq!(f.width(), 3);
    assert_eq!(f.height(), 2);
    assert_eq!(f.as_raw().len(), 18);
    assert!(f.as_raw().iter().all(|b| *b == 0));
}

#[test]
fn from_raw_checks_length() {
    assert!(Frame::from_raw(2, 2, vec![0; 12]).is_some());
    assert!(Frame::from_raw(2, 2, vec![0; 11]).is_none());
    let f = Frame::from_raw(1, 1, vec![1, 2, 3]).unwrap();
    assert_eq!(f.get_pixel(0, 0), [1, 2, 3]);
    assert_eq!(f.into_raw(), vec![1, 2, 3]);
}

#[test]
fn put_then_get_pixel() {
    let mut f = Frame::new(4, 4);
    f.put_pixel(2, 3, [9, 8, 7]);
    assert_eq!(f.get_pixel(2, 3), [9, 8, 7]);
    assert_eq!(f.get_pixel(3, 2), [0, 0, 0]);
}

#[test]
fn fill_rect_is_clipped() {
    let mut f = Frame::new(5, 5);
    fill_rect(&mut f, -2, 3, 4, 10, [1, 1, 1]);
    for y in 0..5u32 {
        for x in 0..5u32 {
            let inside = x < 2 && y >= 3;
            assert_eq!(f.get_pixel(x, y), if inside { [1, 1, 1] } else { [0, 0, 0] }, "at {x},{y}");
        }
    }
}

#[test]
fn fill_rect_with_no_width_changes_nothing() {
    let mut f = Frame::new(3, 3);
    fill_rect(&mut f, 0, 0, 0, 3, [5, 5, 5]);
    assert!(f.as_raw().iter().all(|b| *b == 0));
}

#[test]
fn draw_image_skips_black_pixels() {
    let mut f = Frame::new(4, 4);
    let mut o = Frame::new(2, 2);
    o.put_pixel(0, 0, [10, 0, 0]);
    o.put_pixel(1, 1, [0, 0, 20]);
    f.put_pixel(2, 1, [7, 7, 7]);
    draw_image(&mut f, &o, 1, 0);
    assert_eq!(f.get_pixel(1, 0), [10, 0, 0]);
    assert_eq!(f.get_pixel(2, 1), [0, 0, 20]);
    assert_eq!(f.get_pixel(2, 0), [0, 0, 0]);
    draw_image(&mut f, &o, 3, 3);
    assert_eq!(f.get_pixel(3, 3), [10, 0, 0]);
}

#[test]
fn line_connects_its_ends() {
    let mut f = Frame::new(10, 10);
    draw_line(&mut f, 1, 1, 8, 4, [255, 255, 255], 1);
    assert_eq!(f.get_pixel(1, 1), [255, 255, 255]);
    assert_eq!(f.get_pixel(8, 4), [255, 255, 255]);
    let lit = f.as_raw().chunks(3).filter(|p| p[0] == 255).count();
    assert_eq!(lit, 8);
    assert_eq!(f.get_pixel(0, 9), [0, 0, 0]);
}

#[test]
fn line_of_one_point_with_wide_pen() {
    let mut f = Frame::new(6, 6);
    draw_line(&mut f, 2, 2, 2, 2, [1, 2, 3], 2);
    let lit: Vec<(u32, u32)> = (0..6u32)
        .flat_map(|y| (0..6u32).map(move |x| (x, y)))
        .filter(|(x, y)| f.get_pixel(*x, *y) == [1, 2, 3])
        .collect();
    assert_eq!(lit, vec![(1, 1), (2, 1), (1, 2), (2, 2)]);
}

#[test]
fn line_vertical_steps_down() {
    let mut f = Frame::new(3, 5);
    draw_line(&mut f, 1, 4, 1, 0, [9, 9, 9], 1);
    for y in 0..5u32 {
        assert_eq!(f.get_pixel(1, y), [9, 9, 9]);
        assert_eq!(f.get_pixel(0, y), [0, 0, 0]);
    }
}

#[test]
fn bg_portion_clamps_to_screen() {
    let mut bg = Frame::new(WIDTH, HEIGHT);
    bg.put_pixel(0, 0, [1, 1, 1]);
    bg.put_pixel(WIDTH - 1, HEIGHT - 1, [2, 2, 2]);
    let p = bg_portion(&bg, -5, -5, 3, 2);
    assert_eq!(p.width(), 3);
    assert_eq!(p.height(), 2);
    assert_eq!(p.get_pixel(0, 0), [1, 1, 1]);
    assert_eq!(p.get_pixel(2, 1), [1, 1, 1]);
    let q = bg_portion(&bg, WIDTH as i32 - 1, HEIGHT as i32 + 10, 2, 1);
    assert_eq!(q.get_pixel(0, 0), [2, 2, 2]);
    assert_eq!(q.get_pixel(1, 0), [2, 2, 2]);
    let z = bg_portion(&bg, 0, 0, 0, 0);
    assert_eq!((z.width(), z.height()), (1, 1));
}

#[test]
fn anchor_offsets() {
    assert_eq!(anchor_offset(100, 50, 20, 10, "lt"), (100, 50));
    assert_eq!(anchor_offset(100, 50, 20, 10, "rb"), (80, 40));
    assert_eq!(anchor_offset(100, 50, 21, 11, "mm"), (90, 45));
    assert_eq!(anchor_offset(100, 50, 20, 10, ""), (100, 50));
    assert_eq!(anchor_offset(100, 50, 20, 10, "x"), (100, 50));
}

#[test]
fn text_placement_pads_away_from_anchor() {
    let p = text_placement(200, 30, 50, 12, "rt");
    assert_eq!((p.draw_x, p.draw_y, p.portion_w, p.text_offset_x), (200 - 90, 30, 50 + TEXT_PAD, TEXT_PAD as i32));
    let m = text_placement(100, 30, 50, 12, "mb");
    assert_eq!((m.draw_x, m.draw_y, m.portion_w, m.text_offset_x), (100 - 45, 18, 90, 20));
    let l = text_placement(-3, -9, 5, 5, "lt");
    assert_eq!((l.draw_x, l.draw_y, l.text_offset_x), (0, 0, 0));
}

#[test]
fn bands_tile_the_screen() {
    let bands = background_bands(480, 32);
    assert_eq!(bands.len(), 15);
    let mut next = 0;
    for (y, h) in &bands {
        assert_eq!(*y, next);
        assert!(*h <= 32 && *h > 0);
        next = y + h;
    }
    assert_eq!(next, 480);
    let odd = background_bands(100, 32);
    assert_eq!(odd, vec![(0, 32), (32, 32), (64, 32), (96, 4)]);
}

#[test]
fn tray_icon_is_a_disc() {
    let v = tray_icon_rgba();
    assert_eq!(v.len(), 32 * 32 * 4);
    let at = |x: usize, y: usize| &v[(y * 32 + x) * 4..(y * 32 + x) * 4 + 4];
    assert_eq!(at(16, 16), &[180, 80, 255, 255]);
    assert_eq!(at(0, 0), &[0, 0, 0, 0]);
    assert_eq!(at(0, 16), &[180, 80, 255, 255]);
    assert_eq!(at(31, 31), &[0, 0, 0, 0]);
    let opaque = v.chunks(4).filter(|p| p[3] == 255).count();
    let expected = (0..32i32)
        .flat_map(|y| (0..32i32).map(move |x| (x, y)))
        .filter(|(x, y)| (2 * x - 31) * (2 * x - 31) + (2 * y - 31) * (2 * y - 31) <= 1024)
        .count();
    assert_eq!(opaque, expected);
}

#[test]
fn outline_marks_the_rim() {
    let mut f = Frame::new(6, 5);
    draw_outline(&mut f, 1, 1, 4, 3, [0, 191, 165]);
    for y in 0..5u32 {
        for x in 0..6u32 {
            let rim = (1..=4).contains(&x) && (1..=3).contains(&y) && (x == 1 || x == 4 || y == 1 || y == 3);
            assert_eq!(f.get_pixel(x, y), if rim { [0, 191, 165] } else { [0, 0, 0] }, "at {x},{y}");
        }
    }
    let mut g = Frame::new(4, 4);
    draw_outline(&mut g, -3, -3, 5, 5, [9, 9, 9]);
    let lit: Vec<(u32, u32)> = (0..4u32)
        .flat_map(|y| (0..4u32).map(move |x| (x, y)))
        .filter(|(x, y)| g.get_pixel(*x, *y) == [9, 9, 9])
        .collect();
    assert_eq!(lit, vec![(0, 0), (1, 0), (0, 1), (1, 1)]);
    let mut z = Frame::new(2, 2);
    draw_outline(&mut z, 0, 0, 0, 2, [1, 1, 1]);
    assert!(z.as_raw().iter().all(|b| *b == 0));
}

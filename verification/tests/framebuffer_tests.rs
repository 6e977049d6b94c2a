use maze_runner::framebuffer::Framebuffer;

fn px(fb: &Framebuffer, x: usize, y: usize) -> u32 {
    fb.buffer[y * fb.width + x]
}

#[test]
fn new_framebuffer_is_black() {
    let fb = Framebuffer::new(4, 3);
    assert_eq!(fb.width, 4);
    assert_eq!(fb.height, 3);
    assert_eq!(fb.buffer.len(), 12);
    assert!(fb.buffer.iter().all(|&c| c == 0));
    assert_eq!(fb.background_color, 0);
}

#[test]
fn point_color_sets_one_pixel() {
    let mut fb = Framebuffer::new(4, 3);
    fb.point_color(2, 1, 0xABCDEF);
    assert_eq!(px(&fb, 2, 1), 0xABCDEF);
    assert_eq!(fb.buffer.iter().filter(|&&c| c != 0).count(), 1);
    assert_eq!(fb.buffer[6], 0xABCDEF);
}

#[test]
fn point_outside_is_ignored() {
    let mut fb = Framebuffer::new(4, 3);
    fb.point_color(4, 0, 7);
    fb.point_color(0, 3, 7);
    fb.point_color(100, 100, 7);
    assert!(fb.buffer.iter().all(|&c| c == 0));
}

#[test]
fn fill_rect_is_clipped() {
    let mut fb = Framebuffer::new(5, 4);
    fb.fill_rect(3, 2, 10, 10, 9);
    for y in 0..4 {
        for x in 0..5 {
            let expected = if x >= 3 && y >= 2 { 9 } else { 0 };
            assert_eq!(px(&fb, x, y), expected, "pixel {x},{y}");
        }
    }
}

#[test]
fn fill_rect_twice_is_same_as_once() {
    let mut a = Framebuffer::new(6, 6);
    a.fill_rect(1, 1, 3, 2, 5);
    let once = a.buffer.clone();
    a.fill_rect(1, 1, 3, 2, 5);
    assert_eq!(a.buffer, once);
}

#[test]
fn rect_border_outline() {
    let mut fb = Framebuffer::new(6, 6);
    fb.rect_border(1, 1, 4, 3, 2);
    for y in 0..6 {
        for x in 0..6 {
            let on = (1..5).contains(&x) && (y == 1 || y == 3) || (1..4).contains(&y) && (x == 1 || x == 4);
            assert_eq!(px(&fb, x, y), if on { 2 } else { 0 }, "pixel {x},{y}");
        }
    }
}

#[test]
fn rect_border_zero_height_draws_top_edge() {
    let mut fb = Framebuffer::new(5, 3);
    fb.rect_border(1, 1, 3, 0, 4);
    for y in 0..3 {
        for x in 0..5 {
            let on = y == 1 && (1..4).contains(&x);
            assert_eq!(px(&fb, x, y), if on { 4 } else { 0 });
        }
    }
}

#[test]
fn rect_border_zero_width_draws_left_edge() {
    let mut fb = Framebuffer::new(5, 5);
    fb.rect_border(2, 1, 0, 3, 4);
    for y in 0..5 {
        for x in 0..5 {
            let on = x == 2 && (1..4).contains(&y);
            assert_eq!(px(&fb, x, y), if on { 4 } else { 0 });
        }
    }
}

#[test]
fn clear_paints_background() {
    let mut fb = Framebuffer::new(3, 2);
    fb.fill_rect(0, 0, 2, 2, 1);
    fb.set_background_color(0x14140F);
    assert_eq!(fb.buffer[0], 1);
    fb.clear();
    assert!(fb.buffer.iter().all(|&c| c == 0x14140F));
    assert_eq!(fb.buffer.len(), 6);
}

#[test]
fn paint_rows_paints_whole_rows() {
    let mut fb = Framebuffer::new(3, 4);
    fb.paint_rows(1, &vec![10, 20, 30, 40]);
    for x in 0..3 {
        assert_eq!(px(&fb, x, 0), 0);
        assert_eq!(px(&fb, x, 1), 10);
        assert_eq!(px(&fb, x, 2), 20);
        assert_eq!(px(&fb, x, 3), 30);
    }
}

#[test]
fn paint_strip_paints_columns() {
    let mut fb = Framebuffer::new(6, 5);
    fb.paint_strip(4, 3, 1, &vec![7, 8, 9, 10, 11, 12]);
    for y in 0..5 {
        for x in 0..6 {
            let expected = if x >= 4 && y >= 1 { 6 + y as u32 } else { 0 };
            assert_eq!(px(&fb, x, y), expected, "pixel {x},{y}");
        }
    }
}

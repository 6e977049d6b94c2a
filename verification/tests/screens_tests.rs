use maze_runner::framebuffer::Framebuffer;
use maze_runner::screens::{
    draw_fps_panel, draw_name_panel, place_level_label, vine_frame, Level, FRAME_DARK, FRAME_LIGHT,
    HIGHLIGHT_COLOR, PANEL_COLOR, PANEL_EDGE,
};

fn px(fb: &Framebuffer, x: usize, y: usize) -> u32 {
    fb.buffer[y * fb.width + x]
}

#[test]
fn vine_frame_outlines() {
    let mut fb = Framebuffer::new(100, 80);
    vine_frame(&mut fb);
    assert_eq!(px(&fb, 18, 18), FRAME_LIGHT);
    assert_eq!(px(&fb, 81, 61), FRAME_LIGHT);
    assert_eq!(px(&fb, 50, 61), FRAME_LIGHT);
    assert_eq!(px(&fb, 22, 22), FRAME_DARK);
    assert_eq!(px(&fb, 77, 57), FRAME_DARK);
    assert_eq!(px(&fb, 50, 50), 0);
    assert_eq!(px(&fb, 17, 18), 0);
    assert_eq!(px(&fb, 20, 20), 0);
}

#[test]
fn highlighted_level_label() {
    let mut fb = Framebuffer::new(200, 400);
    let origin = place_level_label(&mut fb, 1, 1, 40);
    assert_eq!(origin, (80, 320));
    assert_eq!(px(&fb, 56, 308), HIGHLIGHT_COLOR);
    assert_eq!(px(&fb, 143, 359), HIGHLIGHT_COLOR);
    assert_eq!(px(&fb, 55, 308), 0);
    assert_eq!(px(&fb, 144, 308), 0);
    assert_eq!(px(&fb, 56, 360), 0);
}

#[test]
fn other_level_labels_draw_nothing() {
    let mut fb = Framebuffer::new(200, 400);
    let origin = place_level_label(&mut fb, 0, 1, 300);
    assert_eq!(origin, (0, 250));
    assert!(fb.buffer.iter().all(|&c| c == 0));
}

#[test]
fn hud_panels() {
    let mut fb = Framebuffer::new(200, 100);
    draw_fps_panel(&mut fb);
    let box_y = draw_name_panel(&mut fb, 3);
    assert_eq!(box_y, 62);
    assert_eq!(px(&fb, 10, 10), PANEL_EDGE);
    assert_eq!(px(&fb, 159, 35), PANEL_EDGE);
    assert_eq!(px(&fb, 11, 11), PANEL_COLOR);
    assert_eq!(px(&fb, 160, 10), 0);
    assert_eq!(px(&fb, 10, 62), PANEL_EDGE);
    assert_eq!(px(&fb, 61, 87), PANEL_EDGE);
    assert_eq!(px(&fb, 30, 70), PANEL_COLOR);
    assert_eq!(px(&fb, 62, 70), 0);
}

#[test]
fn level_holds_name_and_path() {
    let level = Level { name: "El Glade".to_string(), path: "mazes/glade.txt".to_string() };
    assert_eq!(level.name, "El Glade");
    assert_eq!(level.path, "mazes/glade.txt");
}

#[test]
fn name_panel_covers_fps_panel_in_short_frame() {
    let mut fb = Framebuffer::new(200, 30);
    draw_fps_panel(&mut fb);
    let box_y = draw_name_panel(&mut fb, 20);
    assert_eq!(box_y, 0);
    assert_eq!(px(&fb, 10, 10), PANEL_EDGE);
    assert_eq!(px(&fb, 100, 10), PANEL_COLOR);
    assert_eq!(px(&fb, 100, 0), PANEL_EDGE);
    assert_eq!(px(&fb, 100, 25), PANEL_EDGE);
}

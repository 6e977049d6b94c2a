use maze_runner::framebuffer::Framebuffer;
use maze_runner::minimap::{draw_grid, FRAME_COLOR, GOAL_COLOR, PANEL_COLOR};

fn px(fb: &Framebuffer, x: usize, y: usize) -> u32 {
    fb.buffer[y * fb.width + x]
}

fn rows(lines: &[&str]) -> Vec<Vec<char>> {
    lines.iter().map(|l| l.chars().collect()).collect()
}

#[test]
fn minimap_panel_and_tiles() {
    let mut fb = Framebuffer::new(40, 40);
    let maze = rows(&["+ g", "#"]);
    let origin = draw_grid(&mut fb, &maze);
    assert_eq!(origin, Some((3, 12)));
    // outline of the 25 x 18 panel
    assert_eq!(px(&fb, 3, 12), FRAME_COLOR);
    assert_eq!(px(&fb, 27, 29), FRAME_COLOR);
    assert_eq!(px(&fb, 27, 20), FRAME_COLOR);
    // inner margin and floor cells show the panel
    assert_eq!(px(&fb, 4, 13), PANEL_COLOR);
    assert_eq!(px(&fb, 15, 16), PANEL_COLOR);
    assert_eq!(px(&fb, 15, 24), PANEL_COLOR);
    // stone wall, goal and metal wall tiles
    assert_eq!(px(&fb, 5, 14), 0x8A8A80);
    assert_eq!(px(&fb, 11, 20), 0x8A8A80);
    assert_eq!(px(&fb, 19, 14), GOAL_COLOR);
    assert_eq!(px(&fb, 25, 20), GOAL_COLOR);
    assert_eq!(px(&fb, 5, 21), 0x8A5A34);
    // outside the panel nothing changes
    assert_eq!(px(&fb, 2, 12), 0);
    assert_eq!(px(&fb, 3, 11), 0);
    assert_eq!(px(&fb, 28, 20), 0);
    assert_eq!(px(&fb, 10, 30), 0);
}

#[test]
fn minimap_in_narrow_frame_starts_at_left_edge() {
    let mut fb = Framebuffer::new(10, 30);
    let origin = draw_grid(&mut fb, &rows(&["++"]));
    assert_eq!(origin, Some((0, 12)));
    assert_eq!(px(&fb, 0, 12), FRAME_COLOR);
    assert_eq!(px(&fb, 2, 14), 0x8A8A80);
}

#[test]
fn minimap_of_empty_maze_draws_nothing() {
    let mut fb = Framebuffer::new(30, 30);
    assert_eq!(draw_grid(&mut fb, &Vec::new()), None);
    assert_eq!(draw_grid(&mut fb, &rows(&["", ""])), None);
    assert!(fb.buffer.iter().all(|&c| c == 0));
}

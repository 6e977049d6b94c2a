use maze_runner::maze::{
    cell_at, cell_center, fallback_maze, first_cell_of, free_at, is_walkable, load_maze_lines,
    maze_cell, reached_goal, Maze,
};

fn rows(lines: &[&str]) -> Vec<Vec<char>> {
    lines.iter().map(|l| l.chars().collect()).collect()
}

fn fallback_rows() -> Maze {
    rows(&[
        "++++++++++++",
        "+          +",
        "+ ++++ +++ +",
        "+      +   +",
        "+ ++++ + + +",
        "+    + + + +",
        "++++ + + + +",
        "+        +g+",
        "++++++++++++",
    ])
}

#[test]
fn walkable_cells() {
    assert!(is_walkable(' '));
    assert!(is_walkable('g'));
    assert!(!is_walkable('+'));
    assert!(!is_walkable('#'));
    assert!(!is_walkable('%'));
    assert!(!is_walkable('p'));
}

#[test]
fn fallback_maze_contents() {
    let m = fallback_maze();
    assert_eq!(m, fallback_rows());
    assert_eq!(m.len(), 9);
    assert!(m.iter().all(|r| r.len() == 12));
    assert_eq!(m[7][10], 'g');
}

#[test]
fn maze_cell_lookup() {
    let m = rows(&["+ g", "#"]);
    assert_eq!(maze_cell(&m, 2, 0), Some('g'));
    assert_eq!(maze_cell(&m, 0, 1), Some('#'));
    assert_eq!(maze_cell(&m, 1, 1), None);
    assert_eq!(maze_cell(&m, 0, 2), None);
}

#[test]
fn cell_at_reads_outside_as_wall() {
    let m = rows(&["+ g", "# %"]);
    assert_eq!(cell_at(&m, 64, 70, 10), ' ');
    assert_eq!(cell_at(&m, 64, 128, 63), 'g');
    assert_eq!(cell_at(&m, 64, 191, 127), '%');
    assert_eq!(cell_at(&m, 64, 192, 0), '+');
    assert_eq!(cell_at(&m, 64, 0, 128), '+');
    assert!(free_at(&m, 64, 65, 1));
    assert!(free_at(&m, 64, 130, 1));
    assert!(!free_at(&m, 64, 1, 1));
    assert!(!free_at(&m, 64, 1000, 1000));
}

#[test]
fn goal_detection() {
    let m = rows(&["+ g"]);
    assert!(reached_goal(&m, 64, 140, 30));
    assert!(!reached_goal(&m, 64, 70, 30));
    assert!(!reached_goal(&m, 64, 140, 64));
}

#[test]
fn cell_centers() {
    assert_eq!(cell_center(0, 64), 32);
    assert_eq!(cell_center(3, 64), 224);
    assert_eq!(cell_center(2, 7), 17);
}

#[test]
fn first_cell_in_reading_order() {
    let m = rows(&["+++", "+# ", "  +"]);
    assert_eq!(first_cell_of(&m, ' '), Some((2, 1)));
    assert_eq!(first_cell_of(&m, '#'), Some((1, 1)));
    assert_eq!(first_cell_of(&m, 'g'), None);
}

#[test]
fn load_replaces_marker_and_drops_empty_lines() {
    let lines = rows(&["++++", "", "+p g", "++++"]);
    let loaded = load_maze_lines(&lines);
    assert_eq!(loaded.maze, rows(&["++++", "+  g", "++++"]));
    // the marker's row counts every line of the file, empty ones included
    assert_eq!(loaded.start, Some((1, 2)));
}

#[test]
fn load_uses_last_marker() {
    let lines = rows(&["+p+", "+p+", "p++"]);
    let loaded = load_maze_lines(&lines);
    assert_eq!(loaded.start, Some((0, 2)));
    assert_eq!(loaded.maze, rows(&["+ +", "+ +", " ++"]));
}

#[test]
fn load_without_marker_starts_on_first_floor() {
    let lines = rows(&["+++", "+g ", "+ +"]);
    let loaded = load_maze_lines(&lines);
    assert_eq!(loaded.start, Some((2, 1)));
    assert_eq!(loaded.maze, lines);
}

#[test]
fn load_without_floor_has_no_start() {
    let lines = rows(&["+++", "+g+"]);
    let loaded = load_maze_lines(&lines);
    assert_eq!(loaded.start, None);
}

#[test]
fn load_of_empty_file_uses_fallback() {
    let loaded = load_maze_lines(&Vec::new());
    assert_eq!(loaded.maze, fallback_rows());
    assert_eq!(loaded.start, Some((1, 1)));
    let blank = load_maze_lines(&rows(&["", "", ""]));
    assert_eq!(blank.maze, fallback_rows());
    assert_eq!(blank.start, Some((1, 1)));
}

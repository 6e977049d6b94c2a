use maze_runner::game::{FrameAction, Keys, PlayOutcome, Screen, Session};

fn keys(enter: bool, up: bool, down: bool, escape: bool) -> Keys {
    Keys { enter, up, down, escape }
}

const NONE: Keys = Keys { enter: false, up: false, down: false, escape: false };

#[test]
fn new_session() {
    let s = Session::new(2);
    assert_eq!(s.screen, Screen::Welcome);
    assert_eq!(s.selected, 0);
    assert_eq!(s.thud_cooldown, 0);
    assert_eq!(s.fps, 15);
}

#[test]
fn escape_on_welcome_quits() {
    let mut s = Session::new(2);
    assert_eq!(s.begin_frame(keys(false, false, false, true)), FrameAction::Quit);
}

#[test]
fn held_enter_opens_menu_once() {
    let mut s = Session::new(2);
    let enter = keys(true, false, false, false);
    assert_eq!(s.begin_frame(enter), FrameAction::ShowWelcome);
    assert_eq!(s.screen, Screen::LevelSelect);
    assert_eq!(s.begin_frame(enter), FrameAction::ShowLevelSelect { start: None });
    assert_eq!(s.screen, Screen::LevelSelect);
    assert_eq!(s.begin_frame(NONE), FrameAction::ShowLevelSelect { start: None });
    assert_eq!(s.begin_frame(enter), FrameAction::ShowLevelSelect { start: Some(0) });
    assert_eq!(s.screen, Screen::Playing);
}

#[test]
fn menu_selection_stays_in_range() {
    let mut s = Session::new(2);
    s.screen = Screen::LevelSelect;
    let up = keys(false, true, false, false);
    let down = keys(false, false, true, false);
    s.begin_frame(up);
    assert_eq!(s.selected, 0);
    s.begin_frame(NONE);
    s.begin_frame(down);
    assert_eq!(s.selected, 1);
    s.begin_frame(down);
    assert_eq!(s.selected, 1);
    s.begin_frame(NONE);
    s.begin_frame(down);
    assert_eq!(s.selected, 1);
    s.begin_frame(NONE);
    s.begin_frame(up);
    assert_eq!(s.selected, 0);
}

#[test]
fn escape_in_menu_with_enter_still_starts_level() {
    let mut s = Session::new(2);
    s.screen = Screen::LevelSelect;
    s.selected = 1;
    s.thud_cooldown = 4;
    let action = s.begin_frame(keys(true, false, false, true));
    assert_eq!(action, FrameAction::ShowLevelSelect { start: Some(1) });
    assert_eq!(s.screen, Screen::Playing);
    assert_eq!(s.thud_cooldown, 0);
}

#[test]
fn escape_in_menu_goes_back() {
    let mut s = Session::new(2);
    s.screen = Screen::LevelSelect;
    s.begin_frame(keys(false, false, false, true));
    assert_eq!(s.screen, Screen::Welcome);
}

#[test]
fn escape_during_play_stops_music_and_returns() {
    let mut s = Session::new(2);
    s.screen = Screen::Playing;
    assert_eq!(s.begin_frame(keys(false, false, false, true)), FrameAction::Play { stop_music: true });
    assert_eq!(s.screen, Screen::Welcome);
    let mut t = Session::new(2);
    t.screen = Screen::Playing;
    assert_eq!(t.begin_frame(NONE), FrameAction::Play { stop_music: false });
    assert_eq!(t.screen, Screen::Playing);
}

#[test]
fn thuds_are_spaced() {
    let mut s = Session::new(1);
    s.screen = Screen::Playing;
    let mut played = Vec::new();
    for _ in 0..14 {
        played.push(s.end_play_frame(true, false).thud);
    }
    assert_eq!(
        played,
        vec![true, false, false, false, false, false, true, false, false, false, false, false, true, false]
    );
    assert_eq!(s.thud_cooldown, 5);
}

#[test]
fn cooldown_counts_down_while_free() {
    let mut s = Session::new(1);
    s.thud_cooldown = 3;
    assert_eq!(s.end_play_frame(false, false), PlayOutcome { thud: false, victory: false });
    assert_eq!(s.thud_cooldown, 2);
    s.end_play_frame(false, false);
    s.end_play_frame(false, false);
    assert_eq!(s.thud_cooldown, 0);
    s.end_play_frame(false, false);
    assert_eq!(s.thud_cooldown, 0);
}

#[test]
fn goal_shows_success_then_enter_returns() {
    let mut s = Session::new(1);
    s.screen = Screen::Playing;
    assert_eq!(s.end_play_frame(false, true), PlayOutcome { thud: false, victory: true });
    assert_eq!(s.screen, Screen::Success);
    assert_eq!(s.begin_frame(NONE), FrameAction::ShowSuccess);
    assert_eq!(s.begin_frame(keys(true, false, false, false)), FrameAction::ShowSuccess);
    assert_eq!(s.screen, Screen::Welcome);
    let mut t = Session::new(1);
    t.screen = Screen::Success;
    assert_eq!(t.begin_frame(keys(false, false, false, true)), FrameAction::Quit);
}

#[test]
fn frame_counter() {
    let mut s = Session::new(1);
    assert!(!s.count_frame(false));
    assert!(!s.count_frame(false));
    assert_eq!(s.fps_frames, 2);
    assert_eq!(s.fps, 15);
    assert!(s.count_frame(true));
    assert_eq!(s.fps, 3);
    assert_eq!(s.fps_frames, 0);
}

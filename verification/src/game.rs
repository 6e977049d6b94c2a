use vstd::prelude::*;

verus! {

/// Frames during which a second wall thud is held back after one plays.
pub const THUD_COOLDOWN: u32 = 6;

/// The screen a session shows.
#[derive(PartialEq, Eq, Structural, Clone, Copy, Debug)]
pub enum Screen {
    Welcome,
    LevelSelect,
    Playing,
    Success,
}

/// Which keys are down in the current frame.
#[derive(PartialEq, Eq, Structural, Clone, Copy, Debug)]
pub struct Keys {
    pub enter: bool,
    pub up: bool,
    pub down: bool,
    pub escape: bool,
}

/// What the frame loop must do for the current frame.
#[derive(PartialEq, Eq, Structural, Clone, Copy, Debug)]
pub enum FrameAction {
    /// Leave the frame loop.
    Quit,
    /// Stop the music and draw the welcome screen.
    ShowWelcome,
    /// Draw the level menu; with `Some(level)`, then load that level, reset the
    /// mouse look and the run clock, and start the music.
    ShowLevelSelect { start: Option<usize> },
    /// Run one frame of play; first stop the music when `stop_music`.
    Play { stop_music: bool },
    /// Draw the success screen.
    ShowSuccess,
}

/// What happened in the second half of a frame of play.
#[derive(PartialEq, Eq, Structural, Clone, Copy, Debug)]
pub struct PlayOutcome {
    /// Play the wall thud.
    pub thud: bool,
    /// The goal was reached: stop the music, play the victory sound, keep the run time.
    pub victory: bool,
}

/// The state that the frame loop keeps between frames.
#[derive(PartialEq, Eq, Structural, Clone, Copy, Debug)]
pub struct Session {
    pub screen: Screen,
    /// Index of the highlighted level in the menu.
    pub selected: usize,
    /// Number of levels in the menu.
    pub level_count: usize,
    pub enter_was_down: bool,
    pub up_was_down: bool,
    pub down_was_down: bool,
    /// Frames left before another wall thud may play.
    pub thud_cooldown: u32,
    /// Frames counted in the last full second.
    pub fps: u32,
    /// Frames counted since the last full second.
    pub fps_frames: u32,
}

/// A key press is a key that is down now and was up in the previous frame.
pub open spec fn pressed(now: bool, before: bool) -> bool {
    now && !before
}

/// The highlighted level after the up and down presses of a frame: up moves to
/// the previous level, down to the next, neither past the ends of the menu.
pub open spec fn menu_selection(selected: int, level_count: int, up: bool, down: bool) -> int {
    let after_up = if up && selected > 0 { selected - 1 } else { selected };
    if down && after_up + 1 < level_count { after_up + 1 } else { after_up }
}

/// The first half of a frame: the session after the keys `k` of this frame,
/// and what the frame loop must do.
pub open spec fn next_frame(s: Session, k: Keys) -> (Session, FrameAction) {
    let enter = pressed(k.enter, s.enter_was_down);
    let up = pressed(k.up, s.up_was_down);
    let down = pressed(k.down, s.down_was_down);
    let seen = Session { enter_was_down: k.enter, up_was_down: k.up, down_was_down: k.down, ..s };
    match s.screen {
        Screen::Welcome => if k.escape {
            (seen, FrameAction::Quit)
        } else {
            (
                Session {
                    screen: if enter {
                        Screen::LevelSelect
                    } else {
                        Screen::Welcome
                    },
                    ..seen
                },
                FrameAction::ShowWelcome,
            )
        },
        Screen::LevelSelect => {
            let selected = menu_selection(s.selected as int, s.level_count as int, up, down);
            (
                Session {
                    screen: if enter {
                        Screen::Playing
                    } else if k.escape {
                        Screen::Welcome
                    } else {
                        Screen::LevelSelect
                    },
                    selected: selected as usize,
                    thud_cooldown: if enter {
                        0
                    } else {
                        s.thud_cooldown
                    },
                    ..seen
                },
                FrameAction::ShowLevelSelect {
                    start: if enter {
                        Some(selected as usize)
                    } else {
                        None
                    },
                },
            )
        },
        Screen::Playing => (
            Session {
                screen: if k.escape {
                    Screen::Welcome
                } else {
                    Screen::Playing
                },
                ..seen
            },
            FrameAction::Play { stop_music: k.escape },
        ),
        Screen::Success => if k.escape {
            (seen, FrameAction::Quit)
        } else {
            (
                Session {
                    screen: if enter {
                        Screen::Welcome
                    } else {
                        Screen::Success
                    },
                    ..seen
                },
                FrameAction::ShowSuccess,
            )
        },
    }
}

/// The wall-thud cooldown after one more frame of play: it counts down to 0,
/// and when the player is blocked at 0 a thud plays and it restarts at 6.
pub open spec fn cooldown_after(cooldown: u32, blocked: bool) -> u32 {
    let ticked = if cooldown > 0 { (cooldown - 1) as u32 } else { 0u32 };
    if blocked && ticked == 0 { THUD_COOLDOWN } else { ticked }
}

/// Whether a thud plays in a frame of play that starts with `cooldown`.
pub open spec fn thud_plays(cooldown: u32, blocked: bool) -> bool {
    blocked && cooldown <= 1
}

/// The second half of a frame of play, once the move is known.
pub open spec fn end_of_play(s: Session, blocked: bool, at_goal: bool) -> (Session, PlayOutcome) {
    (
        Session {
            thud_cooldown: cooldown_after(s.thud_cooldown, blocked),
            screen: if at_goal {
                Screen::Success
            } else {
                s.screen
            },
            ..s
        },
        PlayOutcome { thud: thud_plays(s.thud_cooldown, blocked), victory: at_goal },
    )
}

/// The cooldown after a run of frames of play, `blocked[n]` saying whether a
/// wall stopped the move of the `n`-th frame.
pub open spec fn cooldown_after_run(cooldown: u32, blocked: Seq<bool>) -> u32
    decreases blocked.len(),
{
    if blocked.len() == 0 {
        cooldown
    } else {
        cooldown_after(cooldown_after_run(cooldown, blocked.drop_last()), blocked.last())
    }
}

/// Every frame keeps the highlighted level within the menu.
pub proof fn lemma_frame_keeps_selection(s: Session, k: Keys)
    requires
        s.wf(),
    ensures
        next_frame(s, k).0.wf(),
        next_frame(s, k).0.level_count == s.level_count,
{
}

/// Ending a frame of play keeps the highlighted level within the menu.
pub proof fn lemma_play_keeps_selection(s: Session, blocked: bool, at_goal: bool)
    requires
        s.wf(),
    ensures
        end_of_play(s, blocked, at_goal).0.wf(),
{
}

/// Escape on the welcome or the success screen leaves the frame loop.
pub proof fn lemma_escape_quits(s: Session, k: Keys)
    requires
        k.escape,
        s.screen == Screen::Welcome || s.screen == Screen::Success,
    ensures
        next_frame(s, k).1 == FrameAction::Quit,
{
}

/// A key held down acts once: in the frame after the one that saw the keys
/// `k`, holding the same keys presses nothing.
pub proof fn lemma_held_keys_press_once(s: Session, k: Keys)
    ensures
        !pressed(k.enter, next_frame(s, k).0.enter_was_down),
        !pressed(k.up, next_frame(s, k).0.up_was_down),
        !pressed(k.down, next_frame(s, k).0.down_was_down),
{
}

/// One Enter press on the welcome screen opens the level menu, and holding it
/// in the next frame does not start a level.
pub proof fn lemma_enter_press_opens_menu_only(s: Session, k: Keys)
    requires
        s.wf(),
        s.screen == Screen::Welcome,
        k.enter,
        !k.escape,
        !s.enter_was_down,
    ensures
        next_frame(s, k).0.screen == Screen::LevelSelect,
        next_frame(next_frame(s, k).0, k).0.screen == Screen::LevelSelect,
        next_frame(next_frame(s, k).0, k).1 == (FrameAction::ShowLevelSelect { start: None }),
{
}

/// Enter pressed in the level menu starts the highlighted level, with no thud
/// pending.
pub proof fn lemma_enter_starts_level(s: Session, k: Keys)
    requires
        s.wf(),
        s.screen == Screen::LevelSelect,
        pressed(k.enter, s.enter_was_down),
    ensures
        next_frame(s, k).0.screen == Screen::Playing,
        next_frame(s, k).0.thud_cooldown == 0,
        next_frame(s, k).1 == (FrameAction::ShowLevelSelect {
            start: Some(next_frame(s, k).0.selected),
        }),
        next_frame(s, k).0.selected < s.level_count,
{
}

/// Reaching the goal during play shows the success screen and plays the
/// victory.
pub proof fn lemma_goal_shows_success(s: Session, blocked: bool)
    ensures
        end_of_play(s, blocked, true).0.screen == Screen::Success,
        end_of_play(s, blocked, true).1.victory,
{
}

/// After a thud plays, none plays in the next five frames of play, whatever
/// the walls do; the sixth may play one.
pub proof fn lemma_thuds_are_spaced(blocked: Seq<bool>)
    requires
        blocked.len() <= 5,
    ensures
        cooldown_after_run(THUD_COOLDOWN, blocked) == THUD_COOLDOWN - blocked.len(),
        blocked.len() < 5 ==> !thud_plays(
            cooldown_after_run(THUD_COOLDOWN, blocked),
            true,
        ),
        blocked.len() == 5 ==> thud_plays(cooldown_after_run(THUD_COOLDOWN, blocked), true),
    decreases blocked.len(),
{
    if blocked.len() > 0 {
        lemma_thuds_are_spaced(blocked.drop_last());
    }
}

/// A thud restarts the cooldown at its full length.
pub proof fn lemma_thud_restarts_cooldown(cooldown: u32, blocked: bool)
    requires
        thud_plays(cooldown, blocked),
    ensures
        cooldown_after(cooldown, blocked) == THUD_COOLDOWN,
{
}

/// In the level menu, a fresh Up press moves the highlight to the previous
/// level and a fresh Down press to the next one, never past either end; with
/// neither, the highlight stays. Enter starts exactly the highlighted level,
/// otherwise Esc goes back to the welcome screen.
pub proof fn lemma_menu_navigation(s: Session, k: Keys)
    requires
        s.wf(),
        s.screen == Screen::LevelSelect,
    ensures
        ({
            let up = k.up && !s.up_was_down;
            let down = k.down && !s.down_was_down;
            let enter = k.enter && !s.enter_was_down;
            let (t, action) = next_frame(s, k);
            &&& up && !down && s.selected > 0 ==> t.selected == s.selected - 1
            &&& up && !down && s.selected == 0 ==> t.selected == 0
            &&& down && !up && s.selected + 1 < s.level_count ==> t.selected == s.selected + 1
            &&& down && !up && s.selected + 1 == s.level_count ==> t.selected == s.selected
            &&& !up && !down ==> t.selected == s.selected
            &&& up && down && s.selected > 0 ==> t.selected == s.selected
            &&& t.selected < s.level_count
            &&& t.level_count == s.level_count
            &&& enter ==> t.screen == Screen::Playing && action == (FrameAction::ShowLevelSelect {
                start: Some(t.selected),
            }) && t.thud_cooldown == 0
            &&& !enter ==> action == (FrameAction::ShowLevelSelect { start: None })
                && t.thud_cooldown == s.thud_cooldown
            &&& !enter && k.escape ==> t.screen == Screen::Welcome
            &&& !enter && !k.escape ==> t.screen == Screen::LevelSelect
        }),
{
}

/// Outside the level menu, a frame never moves the highlighted level, and
/// every frame remembers which keys were down.
pub proof fn lemma_frame_records_keys(s: Session, k: Keys)
    ensures
        next_frame(s, k).0.enter_was_down == k.enter,
        next_frame(s, k).0.up_was_down == k.up,
        next_frame(s, k).0.down_was_down == k.down,
        next_frame(s, k).0.level_count == s.level_count,
        next_frame(s, k).0.fps == s.fps,
        next_frame(s, k).0.fps_frames == s.fps_frames,
        s.screen != Screen::LevelSelect ==> next_frame(s, k).0.selected == s.selected
            && next_frame(s, k).0.thud_cooldown == s.thud_cooldown,
{
}

/// The welcome screen: Esc quits; otherwise it is shown, and a fresh Enter
/// press opens the level menu while anything else stays on the welcome screen.
pub proof fn lemma_welcome_frame(s: Session, k: Keys)
    requires
        s.screen == Screen::Welcome,
    ensures
        k.escape ==> next_frame(s, k).1 == FrameAction::Quit,
        !k.escape ==> next_frame(s, k).1 == FrameAction::ShowWelcome,
        !k.escape && k.enter && !s.enter_was_down ==> next_frame(s, k).0.screen
            == Screen::LevelSelect,
        !(k.enter && !s.enter_was_down) ==> next_frame(s, k).0.screen == Screen::Welcome,
{
}

/// Playing: Esc stops the music and returns to the welcome screen, otherwise
/// play goes on; keys never start or end a level in any other way.
pub proof fn lemma_playing_frame(s: Session, k: Keys)
    requires
        s.screen == Screen::Playing,
    ensures
        next_frame(s, k).1 == (FrameAction::Play { stop_music: k.escape }),
        k.escape ==> next_frame(s, k).0.screen == Screen::Welcome,
        !k.escape ==> next_frame(s, k).0.screen == Screen::Playing,
{
}

/// The success screen: Esc quits; otherwise it is shown, and a fresh Enter
/// press returns to the welcome screen.
pub proof fn lemma_success_frame(s: Session, k: Keys)
    requires
        s.screen == Screen::Success,
    ensures
        k.escape ==> next_frame(s, k).1 == FrameAction::Quit,
        !k.escape ==> next_frame(s, k).1 == FrameAction::ShowSuccess,
        !k.escape && k.enter && !s.enter_was_down ==> next_frame(s, k).0.screen == Screen::Welcome,
        !(k.enter && !s.enter_was_down) ==> next_frame(s, k).0.screen == Screen::Success,
{
}

/// The end of a frame of play: the victory happens exactly when the player
/// stands on the goal, and only then does the screen change (to success);
/// a thud plays exactly when a wall blocked the move and at most one frame of
/// cooldown was left, restarting the cooldown at 6; otherwise the cooldown
/// counts down by one, stopping at 0. Nothing else changes.
pub proof fn lemma_play_frame_outcome(s: Session, blocked: bool, at_goal: bool)
    ensures
        ({
            let (t, out) = end_of_play(s, blocked, at_goal);
            &&& out.victory == at_goal
            &&& at_goal ==> t.screen == Screen::Success
            &&& !at_goal ==> t.screen == s.screen
            &&& out.thud == (blocked && s.thud_cooldown <= 1)
            &&& out.thud ==> t.thud_cooldown == 6
            &&& !out.thud && s.thud_cooldown > 0 ==> t.thud_cooldown == s.thud_cooldown - 1
            &&& !out.thud && s.thud_cooldown == 0 ==> t.thud_cooldown == 0
            &&& !blocked ==> !out.thud
            &&& t.selected == s.selected
            &&& t.level_count == s.level_count
            &&& t.enter_was_down == s.enter_was_down
            &&& t.up_was_down == s.up_was_down
            &&& t.down_was_down == s.down_was_down
            &&& t.fps == s.fps
            &&& t.fps_frames == s.fps_frames
        }),
{
}

impl Session {
    /// The menu has levels and the highlighted one is among them.
    pub open spec fn wf(&self) -> bool {
        0 < self.level_count && self.selected < self.level_count
    }

    /// A session on the welcome screen, the first of `level_count` levels
    /// highlighted, no key down, no thud pending, 15 frames per second shown.
    pub fn new(level_count: usize) -> (s: Self)
        ensures
            s.screen == Screen::Welcome,
            s.selected == 0,
            s.level_count == level_count,
            !s.enter_was_down && !s.up_was_down && !s.down_was_down,
            s.thud_cooldown == 0,
            s.fps == 15,
            s.fps_frames == 0,
    {
        Session {
            screen: Screen::Welcome,
            selected: 0,
            level_count,
            enter_was_down: false,
            up_was_down: false,
            down_was_down: false,
            thud_cooldown: 0,
            fps: 15,
            fps_frames: 0,
        }
    }

    /// Handles the keys of a new frame: records which keys are down, moves
    /// between screens, and says what the frame loop must do.
    pub fn begin_frame(&mut self, keys: Keys) -> (action: FrameAction)
        requires
            old(self).wf(),
        ensures
            (*final(self), action) == next_frame(*old(self), keys),
    {
        let enter = keys.enter && !self.enter_was_down;
        let up = keys.up && !self.up_was_down;
        let down = keys.down && !self.down_was_down;
        self.enter_was_down = keys.enter;
        self.up_was_down = keys.up;
        self.down_was_down = keys.down;
        match self.screen {
            Screen::Welcome => {
                if keys.escape {
                    return FrameAction::Quit;
                }
                if enter {
                    self.screen = Screen::LevelSelect;
                }
                FrameAction::ShowWelcome
            },
            Screen::LevelSelect => {
                if keys.escape {
                    self.screen = Screen::Welcome;
                }
                if up && self.selected > 0 {
                    self.selected = self.selected - 1;
                }
                if down && self.selected + 1 < self.level_count {
                    self.selected = self.selected + 1;
                }
                if enter {
                    self.thud_cooldown = 0;
                    self.screen = Screen::Playing;
                    FrameAction::ShowLevelSelect { start: Some(self.selected) }
                } else {
                    FrameAction::ShowLevelSelect { start: None }
                }
            },
            Screen::Playing => {
                if keys.escape {
                    self.screen = Screen::Welcome;
                }
                FrameAction::Play { stop_music: keys.escape }
            },
            Screen::Success => {
                if keys.escape {
                    return FrameAction::Quit;
                }
                if enter {
                    self.screen = Screen::Welcome;
                }
                FrameAction::ShowSuccess
            },
        }
    }

    /// Ends a frame of play: `blocked` says whether a wall stopped the move,
    /// `at_goal` whether the player now stands on the goal.
    pub fn end_play_frame(&mut self, blocked: bool, at_goal: bool) -> (outcome: PlayOutcome)
        ensures
            (*final(self), outcome) == end_of_play(*old(self), blocked, at_goal),
    {
        if self.thud_cooldown > 0 {
            self.thud_cooldown = self.thud_cooldown - 1;
        }
        let thud = blocked && self.thud_cooldown == 0;
        if thud {
            self.thud_cooldown = THUD_COOLDOWN;
        }
        if at_goal {
            self.screen = Screen::Success;
        }
        PlayOutcome { thud, victory: at_goal }
    }

    /// Counts a shown frame; when a full second has passed, the count becomes
    /// the frames-per-second figure and counting restarts. Returns whether the
    /// second's clock must restart.
    pub fn count_frame(&mut self, second_elapsed: bool) -> (restart: bool)
        requires
            old(self).fps_frames < u32::MAX,
        ensures
            restart == second_elapsed,
            final(self).fps_frames == if second_elapsed { 0 } else { old(self).fps_frames + 1 },
            final(self).fps == if second_elapsed { old(self).fps_frames + 1 } else { old(self).fps as int },
            final(self).screen == old(self).screen,
            final(self).selected == old(self).selected,
            final(self).level_count == old(self).level_count,
            final(self).enter_was_down == old(self).enter_was_down,
            final(self).up_was_down == old(self).up_was_down,
            final(self).down_was_down == old(self).down_was_down,
            final(self).thud_cooldown == old(self).thud_cooldown,
    {
        self.fps_frames = self.fps_frames + 1;
        if second_elapsed {
            self.fps = self.fps_frames;
            self.fps_frames = 0;
        }
        second_elapsed
    }
}

} // verus!

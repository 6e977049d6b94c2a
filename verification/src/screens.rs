use vstd::prelude::*;

use crate::framebuffer::{in_rect, on_border, Framebuffer};

verus! {

/// A playable level: the name shown in the menu and the path of its maze file.
pub struct Level {
    pub name: String,
    pub path: String,
}

/// Outer line of the frame drawn around the menu screens.
pub const FRAME_LIGHT: u32 = 0x4E8A34;

/// Inner line of the frame drawn around the menu screens.
pub const FRAME_DARK: u32 = 0x2F5A22;

/// Box behind the highlighted level of the menu.
pub const HIGHLIGHT_COLOR: u32 = 0x2F5A22;

/// Background of the heads-up panels.
pub const PANEL_COLOR: u32 = 0x14140F;

/// Outline of the heads-up panels.
pub const PANEL_EDGE: u32 = 0x4E8A34;

/// `a - b`, or 0 when `b` exceeds `a`.
pub open spec fn sat_sub(a: int, b: int) -> int {
    if a >= b {
        a - b
    } else {
        0
    }
}

/// The pixel color after `vine_frame` over a pixel that held `before`.
pub open spec fn vine_frame_pixel(w: int, h: int, i: int, j: int, before: u32) -> u32 {
    if on_border(i, j, 22, 22, sat_sub(w, 44), sat_sub(h, 44)) {
        FRAME_DARK
    } else if on_border(i, j, 18, 18, sat_sub(w, 36), sat_sub(h, 36)) {
        FRAME_LIGHT
    } else {
        before
    }
}

/// Draws the double vine-colored frame of the menu screens: a light outline
/// inset 18 pixels from the edges, a dark one inset 22 pixels.
pub fn vine_frame(fb: &mut Framebuffer)
    requires
        old(fb).wf(),
    ensures
        final(fb).wf(),
        final(fb).same_frame(&*old(fb)),
        forall|i: int, j: int|
            final(fb).in_bounds(i, j) ==> #[trigger] final(fb).pixel(i, j) == vine_frame_pixel(
                old(fb).width as int,
                old(fb).height as int,
                i,
                j,
                old(fb).pixel(i, j),
            ),
{
    let w = fb.width;
    let h = fb.height;
    fb.rect_border(18, 18, w.saturating_sub(36), h.saturating_sub(36), FRAME_LIGHT);
    fb.rect_border(22, 22, w.saturating_sub(44), h.saturating_sub(44), FRAME_DARK);
}

/// Where the menu draws the label of level `index` when the label is
/// `label_width` pixels wide: centered across the frame, 70 pixels per level
/// below a first line at 250.
pub open spec fn label_origin(frame_width: int, label_width: int, index: int) -> (int, int) {
    (sat_sub(frame_width, label_width) / 2, 250 + index * 70)
}

/// Places the label of level `index` in the level menu and, when it is the
/// `selected` level, draws the highlight box behind it: 24 pixels wider than
/// the label on each side, 12 pixels above it, 52 pixels tall. Returns where
/// the label goes.
pub fn place_level_label(
    fb: &mut Framebuffer,
    index: usize,
    selected: usize,
    label_width: usize,
) -> (origin: (usize, usize))
    requires
        old(fb).wf(),
        index * 70 + 302 <= usize::MAX,
        old(fb).width + label_width + 48 <= usize::MAX,
    ensures
        final(fb).wf(),
        final(fb).same_frame(&*old(fb)),
        (origin.0 as int, origin.1 as int) == label_origin(
            old(fb).width as int,
            label_width as int,
            index as int,
        ),
        forall|i: int, j: int|
            final(fb).in_bounds(i, j) ==> #[trigger] final(fb).pixel(i, j) == if index == selected
                && in_rect(
                i,
                j,
                sat_sub(origin.0 as int, 24),
                sat_sub(origin.1 as int, 12),
                label_width + 48,
                52,
            ) {
                HIGHLIGHT_COLOR
            } else {
                old(fb).pixel(i, j)
            },
{
    let y = 250 + index * 70;
    let x = fb.width.saturating_sub(label_width) / 2;
    if index == selected {
        fb.fill_rect(x.saturating_sub(24), y.saturating_sub(12), label_width + 48, 52, HIGHLIGHT_COLOR);
    }
    (x, y)
}

/// The pixel color after a heads-up panel `(x, y, w, h)` is drawn over a pixel
/// that held `before`: the outline in the edge color, the inside dark.
pub open spec fn panel_pixel(x: int, y: int, w: int, h: int, i: int, j: int, before: u32) -> u32 {
    if on_border(i, j, x, y, w, h) {
        PANEL_EDGE
    } else if in_rect(i, j, x, y, w, h) {
        PANEL_COLOR
    } else {
        before
    }
}

/// Draws the 150 x 26 heads-up panel at `(10, 10)` that holds the frame rate.
pub fn draw_fps_panel(fb: &mut Framebuffer)
    requires
        old(fb).wf(),
    ensures
        final(fb).wf(),
        final(fb).same_frame(&*old(fb)),
        forall|i: int, j: int|
            final(fb).in_bounds(i, j) ==> #[trigger] final(fb).pixel(i, j) == panel_pixel(
                10,
                10,
                150,
                26,
                i,
                j,
                old(fb).pixel(i, j),
            ),
{
    fb.fill_rect(10, 10, 150, 26, PANEL_COLOR);
    fb.rect_border(10, 10, 150, 26, PANEL_EDGE);
}

/// Top of the level-name panel: 38 pixels above the bottom of the frame.
pub open spec fn name_panel_top(frame_height: int) -> int {
    sat_sub(frame_height, 38)
}

/// Width of the level-name panel for a name of `name_chars` characters.
pub open spec fn name_panel_width(name_chars: int) -> int {
    16 + name_chars * 12
}

/// Draws the heads-up panel that holds the level name, 26 pixels tall at
/// `(10, name_panel_top)`, wide enough for `name_chars` characters. Returns the
/// top of the panel.
pub fn draw_name_panel(fb: &mut Framebuffer, name_chars: usize) -> (box_y: usize)
    requires
        old(fb).wf(),
        name_chars * 12 + 26 <= usize::MAX,
    ensures
        final(fb).wf(),
        final(fb).same_frame(&*old(fb)),
        box_y == name_panel_top(old(fb).height as int),
        forall|i: int, j: int|
            final(fb).in_bounds(i, j) ==> #[trigger] final(fb).pixel(i, j) == panel_pixel(
                10,
                box_y as int,
                name_panel_width(name_chars as int),
                26,
                i,
                j,
                old(fb).pixel(i, j),
            ),
{
    let box_width = 16 + name_chars * 12;
    let box_y = fb.height.saturating_sub(38);
    fb.fill_rect(10, box_y, box_width, 26, PANEL_COLOR);
    fb.rect_border(10, box_y, box_width, 26, PANEL_EDGE);
    box_y
}

/// Level labels go one under another, 70 pixels apart starting at 250, so two
/// different levels never share a row and their 52-pixel highlight boxes never
/// overlap; each label is centered across the frame, or starts at the left
/// edge when it is wider than the frame.
pub proof fn lemma_label_layout(frame_width: int, label_width: int, i1: int, i2: int)
    requires
        frame_width >= 0,
        label_width >= 0,
        i1 >= 0,
        i2 >= 0,
    ensures
        label_origin(frame_width, label_width, i1).1 == 250 + 70 * i1,
        i1 < i2 ==> label_origin(frame_width, label_width, i1).1 + 70 <= label_origin(
            frame_width,
            label_width,
            i2,
        ).1,
        i1 != i2 ==> label_origin(frame_width, label_width, i1).1 != label_origin(
            frame_width,
            label_width,
            i2,
        ).1,
        label_width <= frame_width ==> {
            let x = label_origin(frame_width, label_width, i1).0;
            2 * x + label_width <= frame_width <= 2 * x + label_width + 1
        },
        label_width > frame_width ==> label_origin(frame_width, label_width, i1).0 == 0,
{
}

/// The level-name panel sits 38 pixels above the bottom of the frame (at the
/// top when the frame is shorter) and grows by 12 pixels per character from
/// 16 pixels.
pub proof fn lemma_name_panel_geometry(frame_height: int, name_chars: int)
    requires
        frame_height >= 0,
        name_chars >= 0,
    ensures
        frame_height >= 38 ==> name_panel_top(frame_height) + 38 == frame_height,
        frame_height < 38 ==> name_panel_top(frame_height) == 0,
        name_panel_width(name_chars + 1) == name_panel_width(name_chars) + 12,
        name_panel_width(0) == 16,
{
}

} // verus!

use vstd::prelude::*;

use crate::framebuffer::{in_rect, on_border, Framebuffer};
use crate::maze::{grid, is_cell, lookup, precedes, Maze};
use crate::texture::{fallback_color, wall_color};

verus! {

/// Side of one maze cell on the minimap, in pixels.
pub const CELL: usize = 7;

/// Gap between the minimap and the top and right edges of the frame.
pub const MARGIN: usize = 12;

/// Panel color behind the minimap cells.
pub const PANEL_COLOR: u32 = 0x14140F;

/// Minimap color of the goal cell.
pub const GOAL_COLOR: u32 = 0x3CE07A;

/// Color of the minimap outline.
pub const FRAME_COLOR: u32 = 0xC9B79A;

/// Number of columns of the widest row.
pub open spec fn max_cols(g: Seq<Seq<char>>) -> int
    decreases g.len(),
{
    if g.len() == 0 {
        0
    } else {
        let rest = max_cols(g.drop_last());
        if g.last().len() > rest {
            g.last().len() as int
        } else {
            rest
        }
    }
}

/// Minimap color of a non-floor cell.
pub open spec fn tile_color(c: char) -> u32 {
    if c == 'g' {
        GOAL_COLOR
    } else {
        wall_color(c)
    }
}

/// The tile drawn at offset `(a, b)` from the top-left cell corner of the
/// minimap, if any: floor cells and offsets outside the maze have none.
pub open spec fn tile_at(g: Seq<Seq<char>>, a: int, b: int) -> Option<u32> {
    if a >= 0 && b >= 0 {
        match lookup(g, a / 7, b / 7) {
            Some(c) => if c == ' ' {
                None
            } else {
                Some(tile_color(c))
            },
            None => None,
        }
    } else {
        None
    }
}

/// The tile at offset `(a, b)` if its cell comes before `(c, r)` in reading order.
pub open spec fn tile_before(g: Seq<Seq<char>>, a: int, b: int, c: int, r: int) -> Option<u32> {
    if a >= 0 && b >= 0 && precedes(a / 7, b / 7, c, r) {
        tile_at(g, a, b)
    } else {
        None
    }
}

/// Width of the minimap panel for a maze `g`, including the border.
pub open spec fn panel_width(g: Seq<Seq<char>>) -> int {
    max_cols(g) * 7 + 4
}

/// Height of the minimap panel for a maze `g`, including the border.
pub open spec fn panel_height(g: Seq<Seq<char>>) -> int {
    (g.len() * 7 + 4) as int
}

/// Left edge of the minimap panel in a frame `frame_width` pixels wide.
pub open spec fn panel_left(frame_width: int, g: Seq<Seq<char>>) -> int {
    if frame_width >= panel_width(g) + 12 {
        frame_width - (panel_width(g) + 12)
    } else {
        0
    }
}

/// The color of pixel `(i, j)` inside a panel at `(ox, oy)` whose cells drawn
/// so far are those before `(c, r)`.
pub open spec fn panel_pixel(g: Seq<Seq<char>>, ox: int, oy: int, i: int, j: int, c: int, r: int) -> u32 {
    match tile_before(g, i - ox - 2, j - oy - 2, c, r) {
        Some(t) => t,
        None => PANEL_COLOR,
    }
}

/// The maze is small enough for every minimap coordinate to fit in a `usize`.
pub open spec fn fits_minimap(g: Seq<Seq<char>>) -> bool {
    &&& g.len() * 7 + 16 <= usize::MAX
    &&& forall|r: int| 0 <= r < g.len() ==> #[trigger] g[r].len() * 7 + 16 <= usize::MAX
}

proof fn lemma_max_cols(g: Seq<Seq<char>>)
    ensures
        0 <= max_cols(g),
        forall|r: int| 0 <= r < g.len() ==> #[trigger] g[r].len() <= max_cols(g),
        g.len() > 0 ==> exists|r: int| 0 <= r < g.len() && #[trigger] g[r].len() == max_cols(g),
    decreases g.len(),
{
    if g.len() > 0 {
        lemma_max_cols(g.drop_last());
        assert forall|r: int| 0 <= r < g.len() implies #[trigger] g[r].len() <= max_cols(g) by {
            if r < g.len() - 1 {
                assert(g[r] == g.drop_last()[r]);
            }
        }
        if g.drop_last().len() > 0 && g.last().len() <= max_cols(g.drop_last()) {
            let r = choose|r: int|
                0 <= r < g.drop_last().len() && #[trigger] g.drop_last()[r].len() == max_cols(
                    g.drop_last(),
                );
            assert(g[r] == g.drop_last()[r]);
        } else {
            assert(g[g.len() - 1].len() == max_cols(g));
        }
    }
}

/// On the minimap the goal shows in its own green, unlike any wall and unlike
/// the panel, and the three wall kinds show in three different colors.
pub proof fn lemma_goal_stands_out(c: char)
    ensures
        tile_color('g') == GOAL_COLOR,
        c != 'g' ==> tile_color(c) != GOAL_COLOR,
        c != 'g' ==> tile_color(c) != PANEL_COLOR,
        tile_color('+') != tile_color('#'),
        tile_color('#') != tile_color('%'),
        tile_color('%') != tile_color('+'),
{
}

/// The minimap sits in the top-right corner: `MARGIN` pixels below the top
/// edge and, when the frame is wide enough, exactly `MARGIN` pixels left of
/// the right edge; otherwise it starts at the left edge.
pub proof fn lemma_panel_in_top_right_corner(frame_width: int, g: Seq<Seq<char>>)
    requires
        frame_width >= 0,
    ensures
        frame_width >= panel_width(g) + MARGIN ==> panel_left(frame_width, g) + panel_width(g)
            + MARGIN == frame_width,
        frame_width < panel_width(g) + MARGIN ==> panel_left(frame_width, g) == 0,
        panel_left(frame_width, g) >= 0,
{
}

/// Each maze cell `(c, r)` owns the 7 x 7 block of offsets starting at
/// `(7c, 7r)`: every offset of the block shows the cell's tile, or none for a
/// floor cell; offsets before the first cell show nothing; and the panel is 7
/// pixels per column of the widest row and per row, plus 4.
pub proof fn lemma_tiles_are_cells(g: Seq<Seq<char>>, c: int, r: int, da: int, db: int)
    requires
        is_cell(g, c, r),
        0 <= da < 7,
        0 <= db < 7,
    ensures
        g[r][c] == ' ' ==> tile_at(g, 7 * c + da, 7 * r + db) is None,
        g[r][c] != ' ' ==> tile_at(g, 7 * c + da, 7 * r + db) == Some(tile_color(g[r][c])),
        tile_at(g, -1, 7 * r + db) is None,
        tile_at(g, 7 * c + da, -1) is None,
        panel_width(g) == 7 * max_cols(g) + 4,
        panel_height(g) == 7 * g.len() + 4,
{
    assert((7 * c + da) / 7 == c);
    assert((7 * r + db) / 7 == r);
}

/// Number of columns of the widest row.
fn widest_row(maze: &Maze) -> (cols: usize)
    ensures
        cols == max_cols(grid(maze)),
{
    let ghost g = grid(maze);
    let mut cols: usize = 0;
    let mut r: usize = 0;
    while r < maze.len()
        invariant
            g == grid(maze),
            r <= g.len(),
            cols == max_cols(g.take(r as int)),
        decreases g.len() - r,
    {
        assert(g.take(r + 1).drop_last() =~= g.take(r as int));
        if maze[r].len() > cols {
            cols = maze[r].len();
        }
        r = r + 1;
    }
    assert(g.take(g.len() as int) =~= g);
    cols
}

/// Draws the minimap of `maze` in the top-right corner of the frame: a panel
/// `7 * columns + 4` by `7 * rows + 4` pixels, `MARGIN` pixels from the top and
/// right edges, with one 7 x 7 tile per non-floor cell (green for the goal,
/// the wall color otherwise) and a light outline. Returns the top-left corner
/// of the panel, or `None`, drawing nothing, for a maze without cells.
pub fn draw_grid(fb: &mut Framebuffer, maze: &Maze) -> (origin: Option<(usize, usize)>)
    requires
        old(fb).wf(),
        fits_minimap(grid(maze)),
    ensures
        final(fb).wf(),
        final(fb).same_frame(&*old(fb)),
        ({
            let g = grid(maze);
            let ox = panel_left(old(fb).width as int, g);
            if max_cols(g) == 0 {
                origin is None && final(fb).buffer@ == old(fb).buffer@
            } else {
                &&& origin == Some((ox as usize, MARGIN))
                &&& forall|i: int, j: int|
                    final(fb).in_bounds(i, j) ==> #[trigger] final(fb).pixel(i, j) == if on_border(
                        i,
                        j,
                        ox,
                        MARGIN as int,
                        panel_width(g),
                        panel_height(g),
                    ) {
                        FRAME_COLOR
                    } else if in_rect(i, j, ox, MARGIN as int, panel_width(g), panel_height(g)) {
                        panel_pixel(g, ox, MARGIN as int, i, j, 0, g.len() as int)
                    } else {
                        old(fb).pixel(i, j)
                    }
            }
        }),
{
    let ghost g = grid(maze);
    proof {
        lemma_max_cols(g);
    }
    let cols = widest_row(maze);
    let rows = maze.len();
    if cols == 0 || rows == 0 {
        return None;
    }
    let width = cols * CELL + 4;
    let height = rows * CELL + 4;
    let origin_x = fb.width.saturating_sub(width + MARGIN);
    let origin_y = MARGIN;
    let ghost ox = origin_x as int;
    let ghost oy = origin_y as int;
    let ghost base = *fb;
    fb.fill_rect(origin_x, origin_y, width, height, PANEL_COLOR);
    let mut r: usize = 0;
    while r < rows
        invariant
            g == grid(maze),
            rows == g.len(),
            cols == max_cols(g),
            width == cols * 7 + 4,
            height == rows * 7 + 4,
            ox == origin_x,
            oy == origin_y,
            origin_y == MARGIN,
            origin_x + width <= usize::MAX,
            rows * 7 + 16 <= usize::MAX,
            forall|q: int| 0 <= q < g.len() ==> #[trigger] g[q].len() <= cols,
            r <= rows,
            fb.wf(),
            fb.same_frame(&base),
            base.wf(),
            forall|i: int, j: int|
                fb.in_bounds(i, j) ==> #[trigger] fb.pixel(i, j) == if in_rect(
                    i,
                    j,
                    ox,
                    oy,
                    width as int,
                    height as int,
                ) {
                    panel_pixel(g, ox, oy, i, j, 0, r as int)
                } else {
                    base.pixel(i, j)
                },
        decreases rows - r,
    {
        let row = &maze[r];
        let mut c: usize = 0;
        while c < row.len()
            invariant
                g == grid(maze),
                rows == g.len(),
                cols == max_cols(g),
                width == cols * 7 + 4,
                height == rows * 7 + 4,
                ox == origin_x,
                oy == origin_y,
                origin_y == MARGIN,
                origin_x + width <= usize::MAX,
                rows * 7 + 16 <= usize::MAX,
            rows * 7 + 16 <= usize::MAX,
                forall|q: int| 0 <= q < g.len() ==> #[trigger] g[q].len() <= cols,
                r < rows,
                row@ == g[r as int],
                c <= row@.len(),
                fb.wf(),
                fb.same_frame(&base),
                base.wf(),
                forall|i: int, j: int|
                    fb.in_bounds(i, j) ==> #[trigger] fb.pixel(i, j) == if in_rect(
                        i,
                        j,
                        ox,
                        oy,
                        width as int,
                        height as int,
                    ) {
                        panel_pixel(g, ox, oy, i, j, c as int, r as int)
                    } else {
                        base.pixel(i, j)
                    },
            decreases row@.len() - c,
        {
            let cell = row[c];
            let x = origin_x + 2 + c * CELL;
            let y = origin_y + 2 + r * CELL;
            let ghost prev = *fb;
            if cell != ' ' {
                let color = if cell == 'g' { GOAL_COLOR } else { fallback_color(cell) };
                fb.fill_rect(x, y, CELL, CELL, color);
            }
            proof {
                assert forall|i: int, j: int| fb.in_bounds(i, j) implies #[trigger] fb.pixel(i, j)
                    == if in_rect(i, j, ox, oy, width as int, height as int) {
                    panel_pixel(g, ox, oy, i, j, c + 1, r as int)
                } else {
                    base.pixel(i, j)
                } by {
                    let a = i - ox - 2;
                    let b = j - oy - 2;
                    if in_rect(i, j, x as int, y as int, 7, 7) {
                        assert(a / 7 == c && b / 7 == r);
                        assert(is_cell(g, c as int, r as int));
                    } else {
                        if a >= 0 && b >= 0 {
                            assert(!(a / 7 == c && b / 7 == r));
                        }
                    }
                }
            }
            c = c + 1;
        }
        proof {
            assert forall|i: int, j: int| fb.in_bounds(i, j) implies #[trigger] fb.pixel(i, j)
                == if in_rect(i, j, ox, oy, width as int, height as int) {
                panel_pixel(g, ox, oy, i, j, 0, r + 1)
            } else {
                base.pixel(i, j)
            } by {
                let a = i - ox - 2;
                let b = j - oy - 2;
                if a >= 0 && b >= 0 && b / 7 == r && a / 7 >= row@.len() {
                    assert(!is_cell(g, a / 7, b / 7));
                }
            }
        }
        r = r + 1;
    }
    let ghost filled = *fb;
    fb.rect_border(origin_x, origin_y, width, height, FRAME_COLOR);
    proof {
        assert forall|i: int, j: int| fb.in_bounds(i, j) implies #[trigger] fb.pixel(i, j)
            == if on_border(i, j, ox, oy, width as int, height as int) {
            FRAME_COLOR
        } else if in_rect(i, j, ox, oy, width as int, height as int) {
            panel_pixel(g, ox, oy, i, j, 0, g.len() as int)
        } else {
            base.pixel(i, j)
        } by {
            assert(filled.pixel(i, j) == if in_rect(i, j, ox, oy, width as int, height as int) {
                panel_pixel(g, ox, oy, i, j, 0, r as int)
            } else {
                base.pixel(i, j)
            });
        }
    }
    Some((origin_x, origin_y))
}

} // verus!

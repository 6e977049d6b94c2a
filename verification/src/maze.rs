use vstd::prelude::*;

verus! {

/// A maze as rows of cell characters: `' '` floor, `'g'` goal, anything else
/// is a wall (`'+'` stone, `'#'` metal, `'%'` vines).
pub type Maze = Vec<Vec<char>>;

/// The rows of a maze as sequences of characters.
pub open spec fn grid(m: &Maze) -> Seq<Seq<char>> {
    Seq::new(m@.len(), |j: int| m@[j]@)
}

/// A cell the player may stand on: floor or goal.
pub open spec fn walkable(c: char) -> bool {
    c == ' ' || c == 'g'
}

/// Whether column `c` of row `r` exists in `g`.
pub open spec fn is_cell(g: Seq<Seq<char>>, c: int, r: int) -> bool {
    0 <= r < g.len() && 0 <= c < g[r].len()
}

/// The cell at column `i`, row `j`, if the maze has one there.
pub open spec fn lookup(g: Seq<Seq<char>>, i: int, j: int) -> Option<char> {
    if is_cell(g, i, j) {
        Some(g[j][i])
    } else {
        None
    }
}

/// The cell at column `i`, row `j`; everything outside the maze is stone wall.
pub open spec fn cell_or_wall(g: Seq<Seq<char>>, i: int, j: int) -> char {
    match lookup(g, i, j) {
        Some(c) => c,
        None => '+',
    }
}

/// `(c1, r1)` comes strictly before `(c2, r2)` when reading rows top to bottom,
/// each row left to right.
pub open spec fn precedes(c1: int, r1: int, c2: int, r2: int) -> bool {
    r1 < r2 || (r1 == r2 && c1 < c2)
}

pub open spec fn contains_char(g: Seq<Seq<char>>, ch: char) -> bool {
    exists|c: int, r: int| is_cell(g, c, r) && #[trigger] g[r][c] == ch
}

/// `(c, r)` is the first cell holding `ch` in reading order.
pub open spec fn is_first(g: Seq<Seq<char>>, c: int, r: int, ch: char) -> bool {
    &&& is_cell(g, c, r)
    &&& g[r][c] == ch
    &&& forall|c2: int, r2: int|
        is_cell(g, c2, r2) && precedes(c2, r2, c, r) ==> #[trigger] g[r2][c2] != ch
}

/// `(c, r)` is the last cell holding `ch` in reading order.
pub open spec fn is_last(g: Seq<Seq<char>>, c: int, r: int, ch: char) -> bool {
    &&& is_cell(g, c, r)
    &&& g[r][c] == ch
    &&& forall|c2: int, r2: int|
        is_cell(g, c2, r2) && precedes(c, r, c2, r2) ==> #[trigger] g[r2][c2] != ch
}

/// `found` is the first cell of `g` holding `ch`, or `None` when there is none.
pub open spec fn first_of(g: Seq<Seq<char>>, ch: char, found: Option<(usize, usize)>) -> bool {
    match found {
        Some((c, r)) => is_first(g, c as int, r as int, ch),
        None => !contains_char(g, ch),
    }
}

/// A line of the maze file with the player marker `'p'` turned into floor.
pub open spec fn clean_row(line: Seq<char>) -> Seq<char> {
    Seq::new(line.len(), |k: int| if line[k] == 'p' { ' ' } else { line[k] })
}

/// The maze rows that a sequence of file lines yields: every non-empty line,
/// cleaned of player markers, in order.
pub open spec fn kept_rows(lines: Seq<Seq<char>>) -> Seq<Seq<char>>
    decreases lines.len(),
{
    if lines.len() == 0 {
        Seq::empty()
    } else {
        let rest = kept_rows(lines.drop_last());
        if lines.last().len() == 0 {
            rest
        } else {
            rest.push(clean_row(lines.last()))
        }
    }
}

/// The built-in 12 x 9 maze used when no maze could be read.
pub open spec fn fallback_grid() -> Seq<Seq<char>> {
    seq![
        "++++++++++++"@,
        "+          +"@,
        "+ ++++ +++ +"@,
        "+      +   +"@,
        "+ ++++ + + +"@,
        "+    + + + +"@,
        "++++ + + + +"@,
        "+        +g+"@,
        "++++++++++++"@,
    ]
}

/// What a list of maze-file lines yields: the maze, and the cell the player
/// starts on (column, row), if one is fixed by the maze.
pub struct LoadedMaze {
    pub maze: Maze,
    pub start: Option<(usize, usize)>,
}

/// The start cell of a load whose maze is `g` and whose raw lines are `lines`:
/// the last `'p'` marker of the lines if there is one, else the first floor cell
/// of the maze, else none.
pub open spec fn start_of(
    lines: Seq<Seq<char>>,
    g: Seq<Seq<char>>,
    start: Option<(usize, usize)>,
) -> bool {
    if contains_char(lines, 'p') {
        start matches Some((c, r)) && is_last(lines, c as int, r as int, 'p')
    } else {
        first_of(g, ' ', start)
    }
}

/// While scanning `g` up to (not including) `(c_end, r_end)`, `found` is the
/// last cell seen that holds `ch`, or `None` if none was seen.
pub open spec fn last_before(
    g: Seq<Seq<char>>,
    ch: char,
    c_end: int,
    r_end: int,
    found: Option<(usize, usize)>,
) -> bool {
    match found {
        Some((c, r)) => {
            &&& is_cell(g, c as int, r as int)
            &&& g[r as int][c as int] == ch
            &&& precedes(c as int, r as int, c_end, r_end)
            &&& forall|c2: int, r2: int|
                is_cell(g, c2, r2) && precedes(c as int, r as int, c2, r2) && precedes(
                    c2,
                    r2,
                    c_end,
                    r_end,
                ) ==> #[trigger] g[r2][c2] != ch
        },
        None => forall|c2: int, r2: int|
            is_cell(g, c2, r2) && precedes(c2, r2, c_end, r_end) ==> #[trigger] g[r2][c2] != ch,
    }
}

/// Builds the maze from the lines of a maze file. Each line becomes a row, with
/// the player marker `'p'` turned into floor; empty lines are dropped; with no
/// rows at all the built-in maze is used. The start cell is the last marker
/// (its column and its line number among all lines), or else the first floor
/// cell of the maze, or else none.
pub fn load_maze_lines(lines: &Vec<Vec<char>>) -> (res: LoadedMaze)
    ensures
        ({
            let kept = kept_rows(grid(lines));
            if kept.len() == 0 {
                grid(&res.maze) == fallback_grid() && first_of(fallback_grid(), ' ', res.start)
            } else {
                grid(&res.maze) == kept && start_of(grid(lines), kept, res.start)
            }
        }),
{
    let ghost lg = grid(lines);
    let mut maze: Maze = Vec::new();
    let mut marker: Option<(usize, usize)> = None;
    let mut row: usize = 0;
    while row < lines.len()
        invariant
            lg == grid(lines),
            row <= lg.len(),
            grid(&maze) == kept_rows(lg.take(row as int)),
            last_before(lg, 'p', 0, row as int, marker),
        decreases lg.len() - row,
    {
        let line = &lines[row];
        let mut cells: Vec<char> = Vec::new();
        let mut col: usize = 0;
        while col < line.len()
            invariant
                lg == grid(lines),
                row < lg.len(),
                line@ == lg[row as int],
                col <= line@.len(),
                cells@ == clean_row(lg[row as int]).take(col as int),
                last_before(lg, 'p', col as int, row as int, marker),
            decreases line@.len() - col,
        {
            let ch = line[col];
            if ch == 'p' {
                marker = Some((col, row));
                cells.push(' ');
            } else {
                cells.push(ch);
            }
            assert(cells@ =~= clean_row(lg[row as int]).take(col + 1));
            col = col + 1;
        }
        assert(cells@ =~= clean_row(lg[row as int]));
        assert(lg.take(row + 1).drop_last() =~= lg.take(row as int));
        if cells.len() > 0 {
            maze.push(cells);
            assert(grid(&maze) =~= kept_rows(lg.take(row as int)).push(clean_row(lg[row as int])));
        }
        row = row + 1;
    }
    assert(lg.take(lg.len() as int) =~= lg);
    if maze.len() == 0 {
        let fallback = fallback_maze();
        let start = first_cell_of(&fallback, ' ');
        LoadedMaze { maze: fallback, start }
    } else {
        let start = match marker {
            Some(cell) => Some(cell),
            None => first_cell_of(&maze, ' '),
        };
        LoadedMaze { maze, start }
    }
}

/// Everything outside the maze reads as stone wall and cannot be walked on.
pub proof fn lemma_outside_is_wall(g: Seq<Seq<char>>, i: int, j: int)
    requires
        !is_cell(g, i, j),
    ensures
        cell_or_wall(g, i, j) == '+',
        !walkable(cell_or_wall(g, i, j)),
{
}

/// Every row of a loaded maze is non-empty and free of player markers, and
/// there are no more rows than lines.
pub proof fn lemma_kept_rows_are_clean(lines: Seq<Seq<char>>)
    ensures
        kept_rows(lines).len() <= lines.len(),
        forall|r: int| 0 <= r < kept_rows(lines).len() ==> #[trigger] kept_rows(lines)[r].len() > 0,
        !contains_char(kept_rows(lines), 'p'),
    decreases lines.len(),
{
    if lines.len() > 0 {
        lemma_kept_rows_are_clean(lines.drop_last());
        let rest = kept_rows(lines.drop_last());
        if lines.last().len() > 0 {
            let k = kept_rows(lines);
            assert(k == rest.push(clean_row(lines.last())));
            assert forall|c: int, r: int| is_cell(k, c, r) implies #[trigger] k[r][c] != 'p' by {
                if r < rest.len() {
                    assert(k[r] == rest[r]);
                    assert(!(is_cell(rest, c, r) && rest[r][c] == 'p'));
                }
            }
        }
    }
}

/// With no empty line in the file, the last player marker becomes a floor
/// cell of the maze at the same column and row.
pub proof fn lemma_marker_becomes_floor(lines: Seq<Seq<char>>, c: int, r: int)
    requires
        forall|k: int| 0 <= k < lines.len() ==> #[trigger] lines[k].len() > 0,
        is_last(lines, c, r, 'p'),
    ensures
        is_cell(kept_rows(lines), c, r),
        kept_rows(lines)[r][c] == ' ',
{
    lemma_kept_rows_are_all_lines(lines);
}

proof fn lemma_kept_rows_are_all_lines(lines: Seq<Seq<char>>)
    requires
        forall|k: int| 0 <= k < lines.len() ==> #[trigger] lines[k].len() > 0,
    ensures
        kept_rows(lines).len() == lines.len(),
        forall|k: int| 0 <= k < lines.len() ==> #[trigger] kept_rows(lines)[k] == clean_row(lines[k]),
    decreases lines.len(),
{
    if lines.len() > 0 {
        let front = lines.drop_last();
        assert forall|k: int| 0 <= k < front.len() implies #[trigger] front[k].len() > 0 by {
            assert(front[k] == lines[k]);
        }
        lemma_kept_rows_are_all_lines(front);
        assert(lines.last().len() > 0);
        assert forall|k: int| 0 <= k < lines.len() implies #[trigger] kept_rows(lines)[k] == clean_row(
            lines[k],
        ) by {
            if k < front.len() {
                assert(front[k] == lines[k]);
            }
        }
    }
}

/// The built-in maze is 9 rows of 12 cells with the goal at column 10 of row
/// 7, and the player starts it on column 1 of row 1.
pub proof fn lemma_fallback_shape()
    ensures
        fallback_grid().len() == 9,
        forall|r: int| 0 <= r < 9 ==> #[trigger] fallback_grid()[r].len() == 12,
        fallback_grid()[7][10] == 'g',
        first_of(fallback_grid(), ' ', Some((1usize, 1usize))),
{
    reveal_strlit("++++++++++++");
    reveal_strlit("+          +");
    reveal_strlit("+ ++++ +++ +");
    reveal_strlit("+      +   +");
    reveal_strlit("+ ++++ + + +");
    reveal_strlit("+    + + + +");
    reveal_strlit("++++ + + + +");
    reveal_strlit("+        +g+");
    let g = fallback_grid();
    assert(g[0] == "++++++++++++"@);
    assert(g[1] == "+          +"@);
    assert(g[7] == "+        +g+"@);
    assert forall|c2: int, r2: int| is_cell(g, c2, r2) && precedes(c2, r2, 1, 1) implies #[trigger] g[r2][c2]
        != ' ' by {
        if r2 == 0 {
            assert(g[0][c2] == '+');
        } else {
            assert(g[1][0] == '+');
        }
    }
}

/// Whether `cell` may be walked on: floor or goal.
pub fn is_walkable(cell: char) -> (b: bool)
    ensures
        b == walkable(cell),
{
    cell == ' ' || cell == 'g'
}

/// The cell at column `i`, row `j`, if the maze has one there.
pub fn maze_cell(maze: &Maze, i: usize, j: usize) -> (res: Option<char>)
    ensures
        res == lookup(grid(maze), i as int, j as int),
{
    if j < maze.len() {
        let row = &maze[j];
        if i < row.len() {
            return Some(row[i]);
        }
    }
    None
}

/// The cell under the point `(x, y)` of a maze whose cells are
/// `block_size` pixels wide; points beyond the maze read as stone wall.
pub fn cell_at(maze: &Maze, block_size: usize, x: usize, y: usize) -> (c: char)
    requires
        block_size > 0,
    ensures
        c == cell_or_wall(grid(maze), (x / block_size) as int, (y / block_size) as int),
{
    let i = x / block_size;
    let j = y / block_size;
    match maze_cell(maze, i, j) {
        Some(cell) => cell,
        None => '+',
    }
}

/// Whether the point `(x, y)` lies on a walkable cell.
pub fn free_at(maze: &Maze, block_size: usize, x: usize, y: usize) -> (b: bool)
    requires
        block_size > 0,
    ensures
        b == walkable(cell_or_wall(grid(maze), (x / block_size) as int, (y / block_size) as int)),
{
    is_walkable(cell_at(maze, block_size, x, y))
}

/// Whether the point `(x, y)` lies on the goal cell.
pub fn reached_goal(maze: &Maze, block_size: usize, x: usize, y: usize) -> (b: bool)
    requires
        block_size > 0,
    ensures
        b == (lookup(grid(maze), (x / block_size) as int, (y / block_size) as int) == Some('g')),
{
    match maze_cell(maze, x / block_size, y / block_size) {
        Some(cell) => cell == 'g',
        None => false,
    }
}

/// Pixel coordinate of the center of cell `index` along one axis.
pub fn cell_center(index: usize, block_size: usize) -> (p: usize)
    requires
        index * block_size + block_size / 2 <= usize::MAX,
    ensures
        p == index * block_size + block_size / 2,
{
    index * block_size + block_size / 2
}

/// Cleaning a line keeps its length and every character, except that a
/// player marker `'p'` becomes floor `' '`.
pub proof fn lemma_clean_row_keeps_cells(line: Seq<char>)
    ensures
        clean_row(line).len() == line.len(),
        forall|k: int| 0 <= k < line.len() && line[k] != 'p' ==> #[trigger] clean_row(line)[k] == line[k],
        forall|k: int| 0 <= k < line.len() && line[k] == 'p' ==> #[trigger] clean_row(line)[k] == ' ',
{
}

/// With no empty line in the file, the loaded maze has one row per line and
/// every cell is the file's character at the same column and row, except that
/// the player marker `'p'` becomes floor.
pub proof fn lemma_loaded_cells_match_file(lines: Seq<Seq<char>>)
    requires
        forall|k: int| 0 <= k < lines.len() ==> #[trigger] lines[k].len() > 0,
    ensures
        kept_rows(lines).len() == lines.len(),
        forall|r: int| 0 <= r < lines.len() ==> #[trigger] kept_rows(lines)[r].len() == lines[r].len(),
        forall|c: int, r: int|
            is_cell(lines, c, r) ==> #[trigger] kept_rows(lines)[r][c] == if lines[r][c] == 'p' {
                ' '
            } else {
                lines[r][c]
            },
{
    lemma_kept_rows_are_all_lines(lines);
}

/// Dropping the empty lines and cleaning the others: the loaded rows are the
/// non-empty lines, in order, each with its markers turned into floor.
pub proof fn lemma_empty_lines_are_dropped(lines: Seq<Seq<char>>, line: Seq<char>)
    ensures
        kept_rows(lines.push(Seq::empty())) == kept_rows(lines),
        line.len() > 0 ==> kept_rows(lines.push(line)) == kept_rows(lines).push(clean_row(line)),
{
    assert(lines.push(Seq::empty()).drop_last() =~= lines);
    assert(lines.push(line).drop_last() =~= lines);
}

/// The built-in 12 x 9 maze used when no maze could be read.
pub fn fallback_maze() -> (m: Maze)
    ensures
        grid(&m) == fallback_grid(),
{
    let mut m: Maze = Vec::new();
    m.push(chars_of("++++++++++++"));
    m.push(chars_of("+          +"));
    m.push(chars_of("+ ++++ +++ +"));
    m.push(chars_of("+      +   +"));
    m.push(chars_of("+ ++++ + + +"));
    m.push(chars_of("+    + + + +"));
    m.push(chars_of("++++ + + + +"));
    m.push(chars_of("+        +g+"));
    m.push(chars_of("++++++++++++"));
    assert(grid(&m) =~= fallback_grid());
    m
}

/// The first cell of the maze, in reading order, that holds `ch`.
pub fn first_cell_of(maze: &Maze, ch: char) -> (found: Option<(usize, usize)>)
    ensures
        first_of(grid(maze), ch, found),
{
    let ghost g = grid(maze);
    let mut r: usize = 0;
    while r < maze.len()
        invariant
            g == grid(maze),
            r <= g.len(),
            forall|c2: int, r2: int| is_cell(g, c2, r2) && r2 < r ==> #[trigger] g[r2][c2] != ch,
        decreases g.len() - r,
    {
        let row = &maze[r];
        let mut c: usize = 0;
        while c < row.len()
            invariant
                g == grid(maze),
                r < g.len(),
                row@ == g[r as int],
                c <= row@.len(),
                forall|c2: int, r2: int|
                    is_cell(g, c2, r2) && precedes(c2, r2, c as int, r as int) ==> #[trigger] g[r2][c2]
                        != ch,
            decreases row@.len() - c,
        {
            if row[c] == ch {
                return Some((c, r));
            }
            c = c + 1;
        }
        r = r + 1;
    }
    None
}

/// The characters of `s`, in order.
fn chars_of(s: &str) -> (row: Vec<char>)
    ensures
        row@ == s@,
{
    let mut row: Vec<char> = Vec::new();
    for c in it: s.chars()
        invariant
            row@ == it.seq().take(it.index() as int),
    {
        row.push(c);
    }
    row
}

} // verus!

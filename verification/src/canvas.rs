//! The fixed character grid: cells with optional background, wide-character
//! continuation cells and single-line text runs confined to a container.

use vstd::prelude::*;
use vstd::string::*;
use crate::text::{fit_text_with_ellipsis, fitted_text, lemma_fitted_width, str_chars};
use crate::width::{layout_width, layout_width_of};

verus! {

/// Grid width in cells.
pub const CANVAS_WIDTH: usize = 96;
/// Grid height in cells.
pub const CANVAS_HEIGHT: usize = 54;
/// Number of cells in the grid.
pub const CANVAS_CELLS: usize = 5184;

/// Text alignment inside a line's container.
#[derive(Debug, Clone, Copy, PartialEq, Eq, Structural)]
pub enum TextAlign {
    Left,
    Center,
    Right,
}

/// What a cell shows.
#[derive(Debug, Clone, PartialEq, Eq)]
pub enum CellContent {
    Empty,
    Char(char),
    /// The second column of a wide character placed in the cell to its left.
    Continuation,
    /// An icon identifier.
    Svg(String),
}

/// One grid cell. `span > 0` on a text-run start counts the columns of the run;
/// `container_end` and `container_align` are set only on a run's start.
#[derive(Debug, Clone)]
pub struct Cell<C> {
    pub content: CellContent,
    pub span: usize,
    pub color: C,
    pub background_color: Option<C>,
    pub container_end: Option<usize>,
    pub container_align: Option<TextAlign>,
}

/// The canvas: `CANVAS_CELLS` cells stored row by row, the foreground colour
/// an empty cell carries, and a flag telling the renderer that something changed.
pub struct Canvas<C> {
    cells: Vec<Cell<C>>,
    default_color: C,
    dirty: bool,
}

pub open spec fn width_i() -> int {
    CANVAS_WIDTH as int
}

pub open spec fn height_i() -> int {
    CANVAS_HEIGHT as int
}

/// Position of cell `(x, y)` in the row-major cell sequence.
pub open spec fn idx(x: int, y: int) -> int {
    y * 96 + x
}

pub open spec fn in_canvas(x: int, y: int) -> bool {
    0 <= x < 96 && 0 <= y < 54
}

pub open spec fn min_int(a: int, b: int) -> int {
    if a <= b {
        a
    } else {
        b
    }
}

/// A cell with nothing in it, drawn in `ink`, without background.
pub open spec fn blank_cell<C>(ink: C) -> Cell<C> {
    Cell {
        content: CellContent::Empty,
        span: 1,
        color: ink,
        background_color: None,
        container_end: None,
        container_align: None,
    }
}

/// `c` with its content removed and its background kept.
pub open spec fn emptied<C>(c: Cell<C>, ink: C) -> Cell<C> {
    Cell {
        content: CellContent::Empty,
        span: 1,
        color: ink,
        background_color: c.background_color,
        container_end: None,
        container_align: None,
    }
}

/// A character cell that is not part of a text run.
pub open spec fn char_cell<C>(ch: char, span: usize, color: C, bg: Option<C>) -> Cell<C> {
    Cell {
        content: CellContent::Char(ch),
        span: span,
        color: color,
        background_color: bg,
        container_end: None,
        container_align: None,
    }
}

/// The grid invariant: the right size, every run fits in its row, and a run's
/// container never ends left of its start.
pub open spec fn cells_wf<C>(cells: Seq<Cell<C>>) -> bool {
    &&& cells.len() == 5184
    &&& forall|x: int, y: int|
        #![trigger cells[idx(x, y)]]
        in_canvas(x, y) ==> {
            &&& cells[idx(x, y)].span + x <= 96
            &&& (cells[idx(x, y)].container_end matches Some(e) ==> x <= e)
        }
}

/// Same cells as `old` everywhere outside row `y`.
pub open spec fn other_rows_same<C>(new: Seq<Cell<C>>, old: Seq<Cell<C>>, y: int) -> bool {
    &&& new.len() == old.len()
    &&& forall|xx: int, yy: int|
        #![trigger new[idx(xx, yy)]]
        in_canvas(xx, yy) && yy != y ==> new[idx(xx, yy)] == old[idx(xx, yy)]
}

/// Every cell of the rectangle `[x0, x1) × [y0, y1)` (clipped to the grid)
/// is `f` of its column offset `x - x0` and its old value; every other cell
/// is unchanged.
pub open spec fn rect_effect<C>(
    new: Seq<Cell<C>>,
    old: Seq<Cell<C>>,
    x0: int,
    y0: int,
    x1: int,
    y1: int,
    f: spec_fn(int, Cell<C>) -> Cell<C>,
) -> bool {
    &&& new.len() == old.len()
    &&& forall|x: int, y: int|
        #![trigger new[idx(x, y)]]
        in_canvas(x, y) ==> new[idx(x, y)] == if x0 <= x < x1 && y0 <= y < y1 {
            f(x - x0, old[idx(x, y)])
        } else {
            old[idx(x, y)]
        }
}


/// What a rectangle operation writes into each of its cells.
pub enum RectFill<C> {
    /// Reset to an empty cell without background.
    Blank,
    /// A character with a colour and optional background; a two-column
    /// character takes its columns in pairs.
    Glyph(char, C, Option<C>),
    /// Only the background changes.
    Background(C),
}

/// The cell at column offset `offset` of a rectangle filled with `ch`: a
/// two-column character fills each pair of columns with itself and then a
/// continuation cell; any other character fills every column.
pub open spec fn fill_cell<C>(ch: char, offset: int, color: C, bg: Option<C>) -> Cell<C> {
    if layout_width(ch) == 2 && offset % 2 == 1 {
        continuation_cell(color, bg)
    } else {
        char_cell(ch, 1, color, bg)
    }
}

/// The new value of cell `old`, at column offset `offset`, under `op`.
pub open spec fn rect_cell<C>(op: RectFill<C>, offset: int, old: Cell<C>, ink: C) -> Cell<C> {
    match op {
        RectFill::Blank => blank_cell(ink),
        RectFill::Glyph(ch, color, bg) => fill_cell(ch, offset, color, bg),
        RectFill::Background(b) => Cell { background_color: Some(b), ..old },
    }
}

pub open spec fn clip(a: int, limit: int) -> int {
    min_int(a, limit)
}


/// A cell holding nothing: empty content, one column, default colour, no container.
pub open spec fn is_cleared<C>(c: Cell<C>, ink: C) -> bool {
    &&& c.content == CellContent::Empty
    &&& c.span == 1
    &&& c.color == ink
    &&& c.container_end is None
    &&& c.container_align is None
}

/// `cells` with the columns `[from, to)` of row `y` emptied (backgrounds kept).
pub open spec fn clear_cols<C>(cells: Seq<Cell<C>>, y: int, from: int, to: int, ink: C) -> Seq<Cell<C>> {
    Seq::new(
        cells.len(),
        |k: int|
            if idx(from, y) <= k < idx(to, y) {
                emptied(cells[k], ink)
            } else {
                cells[k]
            },
    )
}

/// Scanning row `y` from column `s` up to `start`: every text run that begins
/// left of `start` and reaches into it is emptied as a whole.
pub open spec fn clear_runs_crossing<C>(cells: Seq<Cell<C>>, y: int, s: int, start: int, ink: C) -> Seq<
    Cell<C>,
>
    decreases 96 - s,
{
    if s >= start || s < 0 || s >= 96 {
        cells
    } else {
        let span = cells[idx(s, y)].span as int;
        if span > 0 && s + span > start {
            let e = min_int(s + span, 96);
            clear_runs_crossing(clear_cols(cells, y, s, e, ink), y, e, start, ink)
        } else {
            clear_runs_crossing(cells, y, s + 1, start, ink)
        }
    }
}

/// Scanning row `y` from column `i` up to `end`: each cell is emptied, and a
/// run that begins there is emptied as a whole.
pub open spec fn clear_cols_from<C>(cells: Seq<Cell<C>>, y: int, i: int, end: int, ink: C) -> Seq<Cell<C>>
    decreases 96 - i,
{
    if i >= end || i < 0 || i >= 96 {
        cells
    } else {
        let span = cells[idx(i, y)].span as int;
        let e = if span > 0 {
            min_int(i + span, 96)
        } else {
            i + 1
        };
        clear_cols_from(clear_cols(cells, y, i, e, ink), y, e, end, ink)
    }
}

/// The effect of emptying columns `[start, end)` of row `y`: runs reaching into
/// that range from the left, the range itself, and runs starting in it are emptied.
pub open spec fn clear_line_range<C>(cells: Seq<Cell<C>>, y: int, start: int, end: int, ink: C) -> Seq<Cell<C>> {
    if y >= 54 || start >= end {
        cells
    } else {
        clear_cols_from(clear_runs_crossing(cells, y, 0, start, ink), y, start, min_int(end, 96), ink)
    }
}

/// Every cell of `new` is its counterpart in `old`, or that cell emptied.
pub open spec fn unchanged_or_emptied<C>(new: Seq<Cell<C>>, old: Seq<Cell<C>>, ink: C) -> bool {
    &&& new.len() == old.len()
    &&& forall|k: int|
        0 <= k < new.len() ==> #[trigger] new[k] == old[k] || new[k] == emptied(old[k], ink)
}

proof fn lemma_emptied_idempotent<C>(c: Cell<C>, ink: C)
    ensures
        emptied(emptied(c, ink), ink) == emptied(c, ink),
        is_cleared(emptied(c, ink), ink),
        emptied(c, ink).background_color == c.background_color,
{
}

proof fn lemma_row_index(x: int, y: int, from: int, to: int, yy: int)
    requires
        in_canvas(x, y),
        0 <= from <= to <= 96,
        0 <= yy < 54,
    ensures
        (idx(from, yy) <= idx(x, y) < idx(to, yy)) <==> (y == yy && from <= x < to),
{
}

proof fn lemma_clear_cols<C>(cells: Seq<Cell<C>>, y: int, from: int, to: int, ink: C)
    requires
        cells.len() == 5184,
        0 <= y < 54,
        0 <= from <= to <= 96,
    ensures
        other_rows_same(clear_cols(cells, y, from, to, ink), cells, y),
        unchanged_or_emptied(clear_cols(cells, y, from, to, ink), cells, ink),
        forall|x: int|
            from <= x < to ==> #[trigger] clear_cols(cells, y, from, to, ink)[idx(x, y)] == emptied(
                cells[idx(x, y)],
                ink,
            ),
        forall|x: int|
            0 <= x < 96 && !(from <= x < to) ==> #[trigger] clear_cols(cells, y, from, to, ink)[idx(x, y)]
                == cells[idx(x, y)],
        cells_wf(cells) ==> cells_wf(clear_cols(cells, y, from, to, ink)),
{
    let r = clear_cols(cells, y, from, to, ink);
    assert forall|xx: int, yy: int| in_canvas(xx, yy) && yy != y implies r[idx(xx, yy)] == cells[idx(xx, yy)] by {
        lemma_row_index(xx, yy, from, to, y);
    }
    assert forall|x: int, yy: int| in_canvas(x, yy) implies #[trigger] r[idx(x, yy)] == if yy == y && from <= x < to {
        emptied(cells[idx(x, yy)], ink)
    } else {
        cells[idx(x, yy)]
    } by {
        lemma_row_index(x, yy, from, to, y);
    }
}

/// Emptying any set of columns keeps the other rows, every background, and the
/// grid invariant, and changes each cell at most by emptying it.
proof fn lemma_clear_runs_crossing<C>(cells: Seq<Cell<C>>, y: int, s: int, start: int, ink: C)
    requires
        cells_wf(cells),
        0 <= y < 54,
        0 <= s,
    ensures
        cells_wf(clear_runs_crossing(cells, y, s, start, ink)),
        other_rows_same(clear_runs_crossing(cells, y, s, start, ink), cells, y),
        unchanged_or_emptied(clear_runs_crossing(cells, y, s, start, ink), cells, ink),
    decreases 96 - s,
{
    if s >= start || s < 0 || s >= 96 {
    } else {
        let span = cells[idx(s, y)].span as int;
        if span > 0 && s + span > start {
            let e = min_int(s + span, 96);
            lemma_clear_cols(cells, y, s, e, ink);
            let c1 = clear_cols(cells, y, s, e, ink);
            lemma_clear_runs_crossing(c1, y, e, start, ink);
            lemma_unchanged_or_emptied_trans(clear_runs_crossing(c1, y, e, start, ink), c1, cells, ink);
        } else {
            lemma_clear_runs_crossing(cells, y, s + 1, start, ink);
        }
    }
}

proof fn lemma_unchanged_or_emptied_trans<C>(c2: Seq<Cell<C>>, c1: Seq<Cell<C>>, c0: Seq<Cell<C>>, ink: C)
    requires
        unchanged_or_emptied(c2, c1, ink),
        unchanged_or_emptied(c1, c0, ink),
    ensures
        unchanged_or_emptied(c2, c0, ink),
{
    assert forall|k: int| 0 <= k < c2.len() implies #[trigger] c2[k] == c0[k] || c2[k] == emptied(c0[k], ink) by {
        assert(c1[k] == c0[k] || c1[k] == emptied(c0[k], ink));
        assert(c2[k] == c1[k] || c2[k] == emptied(c1[k], ink));
        lemma_emptied_idempotent(c0[k], ink);
    }
}

proof fn lemma_clear_cols_from<C>(cells: Seq<Cell<C>>, y: int, i: int, end: int, ink: C)
    requires
        cells_wf(cells),
        0 <= y < 54,
        0 <= i,
        end <= 96,
    ensures
        cells_wf(clear_cols_from(cells, y, i, end, ink)),
        other_rows_same(clear_cols_from(cells, y, i, end, ink), cells, y),
        unchanged_or_emptied(clear_cols_from(cells, y, i, end, ink), cells, ink),
        forall|x: int| i <= x < end ==> is_cleared(#[trigger] clear_cols_from(cells, y, i, end, ink)[idx(x, y)], ink),
    decreases 96 - i,
{
    if i >= end || i < 0 || i >= 96 {
    } else {
        let span = cells[idx(i, y)].span as int;
        let e = if span > 0 {
            min_int(i + span, 96)
        } else {
            i + 1
        };
        lemma_clear_cols(cells, y, i, e, ink);
        let c1 = clear_cols(cells, y, i, e, ink);
        lemma_clear_cols_from(c1, y, e, end, ink);
        let r = clear_cols_from(c1, y, e, end, ink);
        lemma_unchanged_or_emptied_trans(r, c1, cells, ink);
        assert forall|x: int| i <= x < end implies is_cleared(#[trigger] r[idx(x, y)], ink) by {
            if x < e {
                lemma_emptied_idempotent(cells[idx(x, y)], ink);
                assert(is_cleared(c1[idx(x, y)], ink));
                assert(r[idx(x, y)] == c1[idx(x, y)] || r[idx(x, y)] == emptied(c1[idx(x, y)], ink));
            }
        }
    }
}

/// Emptying a column range of a row keeps the grid invariant, the other rows and
/// every background; each cell is at most emptied, and the range itself ends up empty.
pub proof fn lemma_clear_line_range<C>(cells: Seq<Cell<C>>, y: int, start: int, end: int, ink: C)
    requires
        cells_wf(cells),
        0 <= y,
        0 <= start < 96,
    ensures
        cells_wf(clear_line_range(cells, y, start, end, ink)),
        0 <= y < 54 ==> other_rows_same(clear_line_range(cells, y, start, end, ink), cells, y),
        unchanged_or_emptied(clear_line_range(cells, y, start, end, ink), cells, ink),
        forall|x: int|
            0 <= y < 54 && start <= x < end && x < 96 ==> is_cleared(
                #[trigger] clear_line_range(cells, y, start, end, ink)[idx(x, y)],
                ink,
            ),
{
    if y >= 54 || start >= end {
        assert(unchanged_or_emptied(cells, cells, ink));
    } else {
        lemma_clear_runs_crossing(cells, y, 0, start, ink);
        let c1 = clear_runs_crossing(cells, y, 0, start, ink);
        lemma_clear_cols_from(c1, y, start, min_int(end, 96), ink);
        lemma_unchanged_or_emptied_trans(clear_cols_from(c1, y, start, min_int(end, 96), ink), c1, cells, ink);
    }
}


/// Cell `(x, y)` lies in the text run (or the single cell) that starts at
/// `(s, y)`: `s` has a positive span reaching past `x`.
pub open spec fn run_covers<C>(cells: Seq<Cell<C>>, y: int, s: int, x: int) -> bool {
    &&& 0 <= s
    &&& cells[idx(s, y)].span > 0
    &&& s <= x < s + cells[idx(s, y)].span
}

/// No run starting left of column `s0` in row `y` reaches it.
pub open spec fn no_run_reaches<C>(cells: Seq<Cell<C>>, y: int, s0: int) -> bool {
    forall|s2: int| 0 <= s2 < s0 ==> s2 + #[trigger] cells[idx(s2, y)].span <= s0
}

proof fn lemma_runs_crossing_keeps_right<C>(cells: Seq<Cell<C>>, y: int, s: int, start: int, ink: C, b: int)
    requires
        cells_wf(cells),
        0 <= y < 54,
        0 <= s,
        start <= b <= 96,
        forall|s2: int| s <= s2 < start ==> s2 + #[trigger] cells[idx(s2, y)].span <= b,
    ensures
        forall|x: int|
            b <= x < 96 ==> #[trigger] clear_runs_crossing(cells, y, s, start, ink)[idx(x, y)] == cells[idx(x, y)],
    decreases 96 - s,
{
    if s >= start || s < 0 || s >= 96 {
    } else {
        let span = cells[idx(s, y)].span as int;
        if span > 0 && s + span > start {
            let e = min_int(s + span, 96);
            lemma_clear_cols(cells, y, s, e, ink);
            let c1 = clear_cols(cells, y, s, e, ink);
            assert forall|s2: int| e <= s2 < start implies s2 + #[trigger] c1[idx(s2, y)].span <= b by {
                assert(c1[idx(s2, y)] == cells[idx(s2, y)]);
            }
            lemma_runs_crossing_keeps_right(c1, y, e, start, ink, b);
            assert(clear_runs_crossing(cells, y, s, start, ink) == clear_runs_crossing(c1, y, e, start, ink));
            assert forall|x: int| b <= x < 96 implies #[trigger] clear_runs_crossing(cells, y, s, start, ink)[idx(x, y)]
                == cells[idx(x, y)] by {
                assert(c1[idx(x, y)] == cells[idx(x, y)]);
            }
        } else {
            lemma_runs_crossing_keeps_right(cells, y, s + 1, start, ink, b);
            assert(clear_runs_crossing(cells, y, s, start, ink) == clear_runs_crossing(cells, y, s + 1, start, ink));
        }
    }
}

proof fn lemma_runs_crossing_clears_run<C>(cells: Seq<Cell<C>>, y: int, s: int, start: int, ink: C, s0: int)
    requires
        cells_wf(cells),
        0 <= y < 54,
        0 <= s <= s0 < start,
        s0 < 96,
        cells[idx(s0, y)].span > 0,
        s0 + cells[idx(s0, y)].span > start,
        forall|s2: int| s <= s2 < s0 ==> s2 + #[trigger] cells[idx(s2, y)].span <= s0,
    ensures
        forall|x: int|
            s0 <= x < min_int(s0 + cells[idx(s0, y)].span, 96) ==> #[trigger] clear_runs_crossing(
                cells,
                y,
                s,
                start,
                ink,
            )[idx(x, y)] == emptied(cells[idx(x, y)], ink),
    decreases s0 - s,
{
    if s == s0 {
        let e = min_int(s0 + cells[idx(s0, y)].span, 96);
        lemma_clear_cols(cells, y, s0, e, ink);
        let c1 = clear_cols(cells, y, s0, e, ink);
        lemma_clear_runs_crossing(c1, y, e, start, ink);
        let r = clear_runs_crossing(c1, y, e, start, ink);
        assert(clear_runs_crossing(cells, y, s, start, ink) == r);
        assert forall|x: int| s0 <= x < e implies #[trigger] r[idx(x, y)] == emptied(cells[idx(x, y)], ink) by {
            lemma_emptied_idempotent(cells[idx(x, y)], ink);
            assert(r[idx(x, y)] == c1[idx(x, y)] || r[idx(x, y)] == emptied(c1[idx(x, y)], ink));
        }
    } else {
        assert(s + cells[idx(s, y)].span <= s0);
        lemma_runs_crossing_clears_run(cells, y, s + 1, start, ink, s0);
        assert(clear_runs_crossing(cells, y, s, start, ink) == clear_runs_crossing(cells, y, s + 1, start, ink));
    }
}

proof fn lemma_cols_from_clears_run<C>(cells: Seq<Cell<C>>, y: int, i: int, end: int, ink: C, s0: int)
    requires
        cells_wf(cells),
        0 <= y < 54,
        0 <= i <= s0 < end <= 96,
        cells[idx(s0, y)].span > 0,
        forall|s2: int| i <= s2 < s0 ==> s2 + #[trigger] cells[idx(s2, y)].span <= s0,
    ensures
        forall|x: int|
            s0 <= x < min_int(s0 + cells[idx(s0, y)].span, 96) ==> #[trigger] clear_cols_from(
                cells,
                y,
                i,
                end,
                ink,
            )[idx(x, y)] == emptied(cells[idx(x, y)], ink),
    decreases s0 - i,
{
    let span = cells[idx(i, y)].span as int;
    let e = if span > 0 {
        min_int(i + span, 96)
    } else {
        i + 1
    };
    lemma_clear_cols(cells, y, i, e, ink);
    let c1 = clear_cols(cells, y, i, e, ink);
    if i == s0 {
        lemma_clear_cols_from(c1, y, e, end, ink);
        let r = clear_cols_from(c1, y, e, end, ink);
        assert(clear_cols_from(cells, y, i, end, ink) == r);
        assert forall|x: int| s0 <= x < e implies #[trigger] r[idx(x, y)] == emptied(cells[idx(x, y)], ink) by {
            lemma_emptied_idempotent(cells[idx(x, y)], ink);
            assert(r[idx(x, y)] == c1[idx(x, y)] || r[idx(x, y)] == emptied(c1[idx(x, y)], ink));
        }
    } else {
        assert(e <= s0);
        assert forall|s2: int| e <= s2 < s0 implies s2 + #[trigger] c1[idx(s2, y)].span <= s0 by {
            assert(c1[idx(s2, y)] == cells[idx(s2, y)]);
        }
        assert(c1[idx(s0, y)] == cells[idx(s0, y)]);
        lemma_cols_from_clears_run(c1, y, e, end, ink, s0);
        assert(clear_cols_from(cells, y, i, end, ink) == clear_cols_from(c1, y, e, end, ink));
        assert forall|x: int| s0 <= x < min_int(s0 + cells[idx(s0, y)].span, 96) implies #[trigger] clear_cols_from(
            c1,
            y,
            e,
            end,
            ink,
        )[idx(x, y)] == emptied(cells[idx(x, y)], ink) by {
            assert(c1[idx(x, y)] == cells[idx(x, y)]);
        }
    }
}

proof fn lemma_cols_from_keeps_left<C>(cells: Seq<Cell<C>>, y: int, i: int, end: int, ink: C)
    requires
        cells.len() == 5184,
        0 <= y < 54,
        0 <= i,
        end <= 96,
    ensures
        forall|x: int| 0 <= x < i ==> #[trigger] clear_cols_from(cells, y, i, end, ink)[idx(x, y)] == cells[idx(x, y)],
    decreases 96 - i,
{
    if i >= end || i < 0 || i >= 96 {
    } else {
        let span = cells[idx(i, y)].span as int;
        let e = if span > 0 {
            min_int(i + span, 96)
        } else {
            i + 1
        };
        lemma_clear_cols(cells, y, i, e, ink);
        let c1 = clear_cols(cells, y, i, e, ink);
        lemma_cols_from_keeps_left(c1, y, e, end, ink);
        assert(clear_cols_from(cells, y, i, end, ink) == clear_cols_from(c1, y, e, end, ink));
        assert forall|x: int| 0 <= x < i implies #[trigger] clear_cols_from(cells, y, i, end, ink)[idx(x, y)]
            == cells[idx(x, y)] by {
            assert(c1[idx(x, y)] == cells[idx(x, y)]);
        }
    }
}

proof fn lemma_runs_crossing_changes<C>(cells: Seq<Cell<C>>, y: int, s: int, start: int, ink: C)
    requires
        cells_wf(cells),
        0 <= y < 54,
        0 <= s,
        start <= 96,
    ensures
        forall|x: int|
            0 <= x < 96 && #[trigger] clear_runs_crossing(cells, y, s, start, ink)[idx(x, y)] != cells[idx(x, y)]
                ==> exists|s2: int|
                s <= s2 < start && s2 + cells[idx(s2, y)].span > start && #[trigger] run_covers(cells, y, s2, x),
    decreases 96 - s,
{
    if s >= start || s < 0 || s >= 96 {
    } else {
        let span = cells[idx(s, y)].span as int;
        if span > 0 && s + span > start {
            let e = min_int(s + span, 96);
            lemma_clear_cols(cells, y, s, e, ink);
            let c1 = clear_cols(cells, y, s, e, ink);
            lemma_runs_crossing_changes(c1, y, e, start, ink);
            let r = clear_runs_crossing(c1, y, e, start, ink);
            assert(clear_runs_crossing(cells, y, s, start, ink) == r);
            assert forall|x: int| 0 <= x < 96 && #[trigger] r[idx(x, y)] != cells[idx(x, y)] implies exists|s2: int|
                s <= s2 < start && s2 + cells[idx(s2, y)].span > start && #[trigger] run_covers(cells, y, s2, x) by {
                if s <= x < e {
                    assert(run_covers(cells, y, s, x));
                } else {
                    assert(c1[idx(x, y)] == cells[idx(x, y)]);
                    let s2 = choose|s2: int|
                        e <= s2 < start && s2 + c1[idx(s2, y)].span > start && #[trigger] run_covers(c1, y, s2, x);
                    assert(c1[idx(s2, y)] == cells[idx(s2, y)]);
                    assert(run_covers(cells, y, s2, x));
                }
            }
        } else {
            lemma_runs_crossing_changes(cells, y, s + 1, start, ink);
            assert(clear_runs_crossing(cells, y, s, start, ink) == clear_runs_crossing(cells, y, s + 1, start, ink));
            assert forall|x: int|
                0 <= x < 96 && #[trigger] clear_runs_crossing(cells, y, s, start, ink)[idx(x, y)] != cells[idx(x, y)]
                    implies exists|s2: int|
                    s <= s2 < start && s2 + cells[idx(s2, y)].span > start && #[trigger] run_covers(cells, y, s2, x) by {
                let s2 = choose|s2: int|
                    s + 1 <= s2 < start && s2 + cells[idx(s2, y)].span > start && #[trigger] run_covers(cells, y, s2, x);
                assert(run_covers(cells, y, s2, x));
            }
        }
    }
}

proof fn lemma_cols_from_changes<C>(cells: Seq<Cell<C>>, y: int, i: int, end: int, ink: C)
    requires
        cells_wf(cells),
        0 <= y < 54,
        0 <= i,
        end <= 96,
    ensures
        forall|x: int|
            0 <= x < 96 && !(i <= x < end) && #[trigger] clear_cols_from(cells, y, i, end, ink)[idx(x, y)] != cells[idx(
                x,
                y,
            )] ==> exists|s2: int| i <= s2 < end && #[trigger] run_covers(cells, y, s2, x),
    decreases 96 - i,
{
    if i >= end || i < 0 || i >= 96 {
    } else {
        let span = cells[idx(i, y)].span as int;
        let e = if span > 0 {
            min_int(i + span, 96)
        } else {
            i + 1
        };
        lemma_clear_cols(cells, y, i, e, ink);
        let c1 = clear_cols(cells, y, i, e, ink);
        lemma_cols_from_changes(c1, y, e, end, ink);
        let r = clear_cols_from(c1, y, e, end, ink);
        assert(clear_cols_from(cells, y, i, end, ink) == r);
        assert forall|x: int|
            0 <= x < 96 && !(i <= x < end) && #[trigger] r[idx(x, y)] != cells[idx(x, y)] implies exists|s2: int|
            i <= s2 < end && #[trigger] run_covers(cells, y, s2, x) by {
            if i <= x < e {
                assert(run_covers(cells, y, i, x));
            } else {
                assert(c1[idx(x, y)] == cells[idx(x, y)]);
                let s2 = choose|s2: int| e <= s2 < end && #[trigger] run_covers(c1, y, s2, x);
                assert(c1[idx(s2, y)] == cells[idx(s2, y)]);
                assert(run_covers(cells, y, s2, x));
            }
        }
    }
}

/// What emptying columns `[start, end)` of row `y` changes, stated directly:
/// every column of the range (clipped to the grid) is emptied, and a cell of
/// the row outside it is changed only by being emptied, and only when it lies
/// in a run that reaches into the range.
pub proof fn lemma_clear_line_range_changes<C>(cells: Seq<Cell<C>>, y: int, start: int, end: int, ink: C)
    requires
        cells_wf(cells),
        0 <= y < 54,
        0 <= start < 96,
        start < end,
    ensures
        forall|x: int|
            start <= x < min_int(end, 96) ==> #[trigger] clear_line_range(cells, y, start, end, ink)[idx(x, y)]
                == emptied(cells[idx(x, y)], ink),
        forall|x: int|
            0 <= x < 96 && !(start <= x < min_int(end, 96)) && #[trigger] clear_line_range(
                cells,
                y,
                start,
                end,
                ink,
            )[idx(x, y)] != cells[idx(x, y)] ==> {
                &&& clear_line_range(cells, y, start, end, ink)[idx(x, y)] == emptied(cells[idx(x, y)], ink)
                &&& exists|s: int|
                    s < min_int(end, 96) && s + cells[idx(s, y)].span > start && #[trigger] run_covers(
                        cells,
                        y,
                        s,
                        x,
                    )
            },
{
    let xe = min_int(end, 96);
    lemma_clear_line_range(cells, y, start, end, ink);
    lemma_clear_runs_crossing(cells, y, 0, start, ink);
    let c1 = clear_runs_crossing(cells, y, 0, start, ink);
    lemma_runs_crossing_changes(cells, y, 0, start, ink);
    lemma_cols_from_keeps_left(c1, y, start, xe, ink);
    lemma_cols_from_changes(c1, y, start, xe, ink);
    let r = clear_line_range(cells, y, start, end, ink);
    assert(r == clear_cols_from(c1, y, start, xe, ink));
    assert forall|x: int| start <= x < xe implies #[trigger] r[idx(x, y)] == emptied(cells[idx(x, y)], ink) by {
        lemma_emptied_idempotent(cells[idx(x, y)], ink);
        assert(r[idx(x, y)] == cells[idx(x, y)] || r[idx(x, y)] == emptied(cells[idx(x, y)], ink));
    }
    assert forall|x: int|
        0 <= x < 96 && !(start <= x < xe) && #[trigger] r[idx(x, y)] != cells[idx(x, y)] implies {
            &&& r[idx(x, y)] == emptied(cells[idx(x, y)], ink)
            &&& exists|s: int| s < xe && s + cells[idx(s, y)].span > start && #[trigger] run_covers(cells, y, s, x)
        } by {
        assert(r[idx(x, y)] == cells[idx(x, y)] || r[idx(x, y)] == emptied(cells[idx(x, y)], ink));
        if c1[idx(x, y)] != cells[idx(x, y)] {
            let s2 = choose|s2: int|
                0 <= s2 < start && s2 + cells[idx(s2, y)].span > start && #[trigger] run_covers(cells, y, s2, x);
            assert(run_covers(cells, y, s2, x));
        } else {
            assert(x >= xe);
            let s2 = choose|s2: int| start <= s2 < xe && #[trigger] run_covers(c1, y, s2, x);
            assert(c1[idx(s2, y)] == cells[idx(s2, y)] || c1[idx(s2, y)] == emptied(cells[idx(s2, y)], ink));
            assert(c1[idx(s2, y)] == cells[idx(s2, y)]);
            assert(run_covers(cells, y, s2, x));
        }
    }
}

/// Emptying columns `[start, end)` of row `y` empties the whole of every run
/// that reaches into the range, from the left or from inside it, unless an
/// earlier run of the row overlaps it.
pub proof fn lemma_clear_line_range_clears_runs<C>(cells: Seq<Cell<C>>, y: int, start: int, end: int, ink: C, s0: int)
    requires
        cells_wf(cells),
        0 <= y < 54,
        0 <= start < 96,
        start < end,
        0 <= s0 < min_int(end, 96),
        cells[idx(s0, y)].span > 0,
        s0 + cells[idx(s0, y)].span > start,
        no_run_reaches(cells, y, s0),
    ensures
        forall|x: int|
            s0 <= x < min_int(s0 + cells[idx(s0, y)].span, 96) ==> #[trigger] clear_line_range(
                cells,
                y,
                start,
                end,
                ink,
            )[idx(x, y)] == emptied(cells[idx(x, y)], ink),
{
    let xe = min_int(end, 96);
    lemma_clear_runs_crossing(cells, y, 0, start, ink);
    let c1 = clear_runs_crossing(cells, y, 0, start, ink);
    let r = clear_line_range(cells, y, start, end, ink);
    assert(r == clear_cols_from(c1, y, start, xe, ink));
    if s0 < start {
        lemma_runs_crossing_clears_run(cells, y, 0, start, ink, s0);
        lemma_clear_cols_from(c1, y, start, xe, ink);
        assert forall|x: int| s0 <= x < min_int(s0 + cells[idx(s0, y)].span, 96) implies #[trigger] r[idx(x, y)]
            == emptied(cells[idx(x, y)], ink) by {
            lemma_emptied_idempotent(cells[idx(x, y)], ink);
            assert(r[idx(x, y)] == c1[idx(x, y)] || r[idx(x, y)] == emptied(c1[idx(x, y)], ink));
        }
    } else {
        assert forall|s2: int| 0 <= s2 < start implies s2 + #[trigger] cells[idx(s2, y)].span <= s0 by {}
        lemma_runs_crossing_keeps_right(cells, y, 0, start, ink, s0);
        assert forall|s2: int| start <= s2 < s0 implies s2 + #[trigger] c1[idx(s2, y)].span <= s0 by {
            assert(c1[idx(s2, y)] == cells[idx(s2, y)] || c1[idx(s2, y)] == emptied(cells[idx(s2, y)], ink));
        }
        assert(c1[idx(s0, y)] == cells[idx(s0, y)]);
        lemma_cols_from_clears_run(c1, y, start, xe, ink, s0);
        assert forall|x: int| s0 <= x < min_int(s0 + cells[idx(s0, y)].span, 96) implies #[trigger] r[idx(x, y)]
            == emptied(cells[idx(x, y)], ink) by {
            assert(c1[idx(x, y)] == cells[idx(x, y)]);
        }
    }
}

/// The second column of a wide character.
pub open spec fn continuation_cell<C>(color: C, bg: Option<C>) -> Cell<C> {
    Cell {
        content: CellContent::Continuation,
        span: 0,
        color: color,
        background_color: bg,
        container_end: None,
        container_align: None,
    }
}

/// Placing one character at `(x, y)`: the columns it covers are emptied first
/// (with any text run overlapping them), then the character goes in, followed
/// by a continuation cell when it is two columns wide and the row has room.
pub open spec fn glyph_effect<C>(
    cells: Seq<Cell<C>>,
    x: int,
    y: int,
    ch: char,
    color: C,
    bg: Option<C>,
    ink: C,
) -> Seq<Cell<C>> {
    if x >= 96 || y >= 54 {
        cells
    } else {
        let w = layout_width(ch);
        let c1 = clear_line_range(cells, y, x, min_int(x + w, 96), ink);
        let c2 = c1.update(idx(x, y), char_cell(ch, 0, color, bg));
        if w == 2 && x + 1 < 96 {
            c2.update(idx(x + 1, y), continuation_cell(color, bg))
        } else {
            c2
        }
    }
}

pub open spec fn sat_sub(a: int, b: int) -> int {
    if a >= b {
        a - b
    } else {
        0
    }
}

/// Column where a line of width `tw` starts inside `avail` columns from `x_start`.
pub open spec fn line_start_x(x_start: int, avail: int, tw: int, align: TextAlign) -> int {
    match align {
        TextAlign::Left => x_start,
        TextAlign::Center => x_start + sat_sub(avail, tw) / 2,
        TextAlign::Right => x_start + sat_sub(avail, tw),
    }
}

/// The first cell of a text run.
pub open spec fn run_start_cell<C>(
    ch: char,
    tw: int,
    color: C,
    bg: Option<C>,
    x_end: int,
    align: TextAlign,
) -> Cell<C> {
    Cell {
        content: CellContent::Char(ch),
        span: tw as usize,
        color: color,
        background_color: bg,
        container_end: Some(x_end as usize),
        container_align: Some(align),
    }
}

/// Writes `ft[1..]` into row `y` from column `ax + 1` on, one character per
/// cell, stopping before column `limit`.
pub open spec fn place_chars<C>(
    cells: Seq<Cell<C>>,
    y: int,
    ax: int,
    limit: int,
    ft: Seq<char>,
    color: C,
    bg: Option<C>,
) -> Seq<Cell<C>> {
    Seq::new(
        cells.len(),
        |k: int|
            if idx(ax, y) < k < idx(limit, y) && k - idx(ax, y) < ft.len() {
                char_cell(ft[k - idx(ax, y)], 0, color, bg)
            } else {
                cells[k]
            },
    )
}

/// Writes the characters `ft` from column `ax` of row `y`, one per cell, as a
/// run of width `tw` confined to `[.., x_end)`.
pub open spec fn place_text<C>(
    cells: Seq<Cell<C>>,
    y: int,
    ax: int,
    x_end: int,
    ft: Seq<char>,
    tw: int,
    color: C,
    bg: Option<C>,
    align: TextAlign,
) -> Seq<Cell<C>> {
    place_chars(
        cells.update(idx(ax, y), run_start_cell(ft[0], tw, color, bg, x_end, align)),
        y,
        ax,
        x_end,
        ft,
        color,
        bg,
    )
}

/// Gives every cell of columns `[from, to)` in row `y` that has no background the background `b`.
pub open spec fn fill_missing_bg<C>(cells: Seq<Cell<C>>, y: int, from: int, to: int, b: C) -> Seq<Cell<C>> {
    Seq::new(
        cells.len(),
        |k: int|
            if idx(from, y) <= k < idx(to, y) && cells[k].background_color is None {
                Cell { background_color: Some(b), ..cells[k] }
            } else {
                cells[k]
            },
    )
}

/// Whether the line would be placed at all (row and start column on the grid, non-empty range).
pub open spec fn line_in_range(y: int, x_start: int, x_end: int) -> bool {
    y < 54 && x_start < x_end && x_start < 96
}

/// The column where the line's first character goes.
pub open spec fn line_x(x_start: int, x_end: int, text: Seq<char>, align: TextAlign) -> int {
    let xe = min_int(x_end, 96);
    line_start_x(x_start, xe - x_start, fitted_text(text, xe - x_start).1, align)
}

/// Writing one line of text into columns `[x_start, x_end)` of row `y`: the range
/// is emptied, given background `bg` where it has none, and the fitted text is
/// placed according to `align` as one run. Text whose first character would
/// fall at or right of the range's end (right-aligned text made only of
/// zero-width characters) is not placed, so every character written lies in
/// `[x_start, min(x_end, 96))`.
pub open spec fn line_effect<C>(
    cells: Seq<Cell<C>>,
    y: int,
    x_start: int,
    x_end: int,
    text: Seq<char>,
    align: TextAlign,
    color: C,
    bg: Option<C>,
    ink: C,
) -> Seq<Cell<C>> {
    if !line_in_range(y, x_start, x_end) {
        cells
    } else {
        let xe = min_int(x_end, 96);
        let avail = xe - x_start;
        let c1 = clear_line_range(cells, y, x_start, xe, ink);
        let c2 = match bg {
            Some(b) => fill_missing_bg(c1, y, x_start, xe, b),
            None => c1,
        };
        let ft = fitted_text(text, avail).0;
        let tw = fitted_text(text, avail).1;
        let ax = line_start_x(x_start, avail, tw, align);
        if ft.len() == 0 || ax >= xe {
            c2
        } else {
            place_text(c2, y, ax, xe, ft, tw, color, bg, align)
        }
    }
}


/// A drawing command, queued by screens and applied in order.
pub enum CanvasCommand<C> {
    /// Empty the whole canvas.
    Clear,
    /// Empty `(x, y, width, height)`.
    ClearRect(usize, usize, usize, usize),
    /// Fill `(x, y, width, height)` with a character in a colour.
    FillRect(usize, usize, usize, usize, char, C),
    /// Fill `(x, y, width, height)` with a character, foreground and background.
    FillRectWithBg(usize, usize, usize, usize, char, C, C),
    /// Put a character at `(x, y)`.
    SetChar(usize, usize, char, C),
    /// Put a character at `(x, y)` with foreground and background.
    SetCharWithBg(usize, usize, char, C, C),
    /// Write a line `(y, x_start, x_end, text, align, color)`.
    SetLine(usize, usize, usize, String, TextAlign, C),
    /// Write a line `(y, x_start, x_end, text, align, fg, bg)`.
    SetLineWithBg(usize, usize, usize, String, TextAlign, C, C),
    /// Put an icon `(x, y, id, color)`.
    SetSvg(usize, usize, String, C),
    /// Set the background of `(x, y, width, height)`.
    FillBackgroundRect(usize, usize, usize, usize, C),
}

/// Writing a line changes only its own row (when it is placed at all).
pub proof fn lemma_line_stays_in_its_row<C>(
    cells: Seq<Cell<C>>,
    y: int,
    x_start: int,
    x_end: int,
    text: Seq<char>,
    align: TextAlign,
    color: C,
    bg: Option<C>,
    ink: C,
)
    requires
        cells_wf(cells),
        0 <= y,
        0 <= x_start,
    ensures
        line_effect(cells, y, x_start, x_end, text, align, color, bg, ink).len() == cells.len(),
        line_in_range(y, x_start, x_end) ==> other_rows_same(
            line_effect(cells, y, x_start, x_end, text, align, color, bg, ink),
            cells,
            y,
        ),
        !line_in_range(y, x_start, x_end) ==> line_effect(cells, y, x_start, x_end, text, align, color, bg, ink)
            == cells,
{
    if line_in_range(y, x_start, x_end) {
        let xe = min_int(x_end, 96);
        let avail = xe - x_start;
        lemma_clear_line_range(cells, y, x_start, xe, ink);
        let c1 = clear_line_range(cells, y, x_start, xe, ink);
        let c2 = match bg {
            Some(b) => fill_missing_bg(c1, y, x_start, xe, b),
            None => c1,
        };
        assert(other_rows_same(c2, cells, y)) by {
            assert forall|xx: int, yy: int| #![trigger c2[idx(xx, yy)]] in_canvas(xx, yy) && yy != y implies c2[idx(
                xx,
                yy,
            )] == cells[idx(xx, yy)] by {
                assert(c1[idx(xx, yy)] == cells[idx(xx, yy)]);
                if yy < y {
                    assert(idx(xx, yy) < idx(x_start, y)) by (nonlinear_arith)
                        requires
                            yy < y,
                            0 <= xx < 96,
                            0 <= x_start,
                    ;
                } else {
                    assert(idx(xx, yy) >= idx(xe, y)) by (nonlinear_arith)
                        requires
                            yy > y,
                            0 <= xx,
                            xe <= 96,
                    ;
                }
            }
        }
        let ft = fitted_text(text, avail).0;
        let tw = fitted_text(text, avail).1;
        let ax = line_start_x(x_start, avail, tw, align);
        if ft.len() > 0 && ax < xe {
            assert(0 <= ax < 96);
            let c3 = c2.update(idx(ax, y), run_start_cell(ft[0], tw, color, bg, xe, align));
            let c4 = place_chars(c3, y, ax, xe, ft, color, bg);
            assert forall|xx: int, yy: int| #![trigger c4[idx(xx, yy)]] in_canvas(xx, yy) && yy != y implies c4[idx(
                xx,
                yy,
            )] == cells[idx(xx, yy)] by {
                assert(c2[idx(xx, yy)] == cells[idx(xx, yy)]);
                if yy < y {
                    assert(idx(xx, yy) < idx(ax, y)) by (nonlinear_arith)
                        requires
                            yy < y,
                            0 <= xx < 96,
                            0 <= ax,
                    ;
                } else {
                    assert(idx(xx, yy) >= idx(xe, y)) by (nonlinear_arith)
                        requires
                            yy > y,
                            0 <= xx,
                            xe <= 96,
                    ;
                    assert(idx(xx, yy) > idx(ax, y)) by (nonlinear_arith)
                        requires
                            yy > y,
                            0 <= xx,
                            ax < 96,
                    ;
                }
            }
        }
    }
}

/// A line writes only inside its range: in its row, every cell outside
/// `[x_start, min(x_end, 96))` is unchanged or emptied (a text run that reached
/// into the range is removed whole), and no character of the text lands there.
pub proof fn lemma_line_writes_inside_its_range<C>(
    cells: Seq<Cell<C>>,
    y: int,
    x_start: int,
    x_end: int,
    text: Seq<char>,
    align: TextAlign,
    color: C,
    bg: Option<C>,
    ink: C,
)
    requires
        cells_wf(cells),
        0 <= y,
        0 <= x_start,
        line_in_range(y, x_start, x_end),
    ensures
        forall|x: int|
            0 <= x < 96 && !(x_start <= x < min_int(x_end, 96)) ==> {
                let c = #[trigger] line_effect(cells, y, x_start, x_end, text, align, color, bg, ink)[idx(x, y)];
                c == cells[idx(x, y)] || c == emptied(cells[idx(x, y)], ink)
            },
{
    let xe = min_int(x_end, 96);
    let avail = xe - x_start;
    lemma_clear_line_range(cells, y, x_start, xe, ink);
    let c1 = clear_line_range(cells, y, x_start, xe, ink);
    let c2 = match bg {
        Some(b) => fill_missing_bg(c1, y, x_start, xe, b),
        None => c1,
    };
    let ft = fitted_text(text, avail).0;
    let tw = fitted_text(text, avail).1;
    let ax = line_start_x(x_start, avail, tw, align);
    lemma_fitted_width(text, avail);
    let r = line_effect(cells, y, x_start, x_end, text, align, color, bg, ink);
    assert forall|x: int| 0 <= x < 96 && !(x_start <= x < xe) implies {
        let c = #[trigger] r[idx(x, y)];
        c == cells[idx(x, y)] || c == emptied(cells[idx(x, y)], ink)
    } by {
        assert(c1[idx(x, y)] == cells[idx(x, y)] || c1[idx(x, y)] == emptied(cells[idx(x, y)], ink));
        if x < x_start {
            assert(idx(x, y) < idx(x_start, y));
        } else {
            assert(idx(x, y) >= idx(xe, y));
        }
        assert(c2[idx(x, y)] == c1[idx(x, y)]);
        if ft.len() > 0 && ax < xe {
            assert(x_start <= ax);
            assert(idx(x, y) != idx(ax, y));
        }
    }
}

/// A placed line never runs past its container or the grid: it starts at or
/// after `x_start`, and its start plus its display width stays within
/// `min(x_end, 96)`. Text does not wrap.
pub proof fn lemma_line_fits_its_container(x_start: int, x_end: int, text: Seq<char>, align: TextAlign)
    requires
        0 <= x_start < x_end,
        x_start < 96,
    ensures
        x_start <= line_x(x_start, x_end, text, align),
        line_x(x_start, x_end, text, align) + fitted_text(text, min_int(x_end, 96) - x_start).1 <= min_int(
            x_end,
            96,
        ),
{
    lemma_fitted_width(text, min_int(x_end, 96) - x_start);
}

/// Two cells that agree in everything but their background.
pub open spec fn same_but_background<C>(a: Cell<C>, b: Cell<C>) -> bool {
    a == Cell { background_color: a.background_color, ..b }
}

/// A line written with a background and the same line written without one
/// leave the same grid but for backgrounds: every cell agrees in content,
/// span, colour and container.
pub proof fn lemma_line_background_only_differs<C>(
    cells: Seq<Cell<C>>,
    y: int,
    x_start: int,
    x_end: int,
    text: Seq<char>,
    align: TextAlign,
    color: C,
    bg: C,
    ink: C,
)
    requires
        cells_wf(cells),
        0 <= y,
        0 <= x_start,
    ensures
        line_effect(cells, y, x_start, x_end, text, align, color, None, ink).len() == line_effect(
            cells,
            y,
            x_start,
            x_end,
            text,
            align,
            color,
            Some(bg),
            ink,
        ).len(),
        forall|k: int|
            0 <= k < cells.len() ==> same_but_background(
                #[trigger] line_effect(cells, y, x_start, x_end, text, align, color, None, ink)[k],
                line_effect(cells, y, x_start, x_end, text, align, color, Some(bg), ink)[k],
            ),
{
    lemma_line_stays_in_its_row(cells, y, x_start, x_end, text, align, color, None, ink);
    lemma_line_stays_in_its_row(cells, y, x_start, x_end, text, align, color, Some(bg), ink);
    if line_in_range(y, x_start, x_end) {
        let xe = min_int(x_end, 96);
        let avail = xe - x_start;
        lemma_clear_line_range(cells, y, x_start, xe, ink);
        let c1 = clear_line_range(cells, y, x_start, xe, ink);
        let c2 = fill_missing_bg(c1, y, x_start, xe, bg);
        assert forall|k: int| 0 <= k < cells.len() implies same_but_background(#[trigger] c1[k], c2[k]) by {}
        let ft = fitted_text(text, avail).0;
        let tw = fitted_text(text, avail).1;
        let ax = line_start_x(x_start, avail, tw, align);
        if ft.len() > 0 && ax < xe {
            let p = place_text(c1, y, ax, xe, ft, tw, color, None, align);
            let q = place_text(c2, y, ax, xe, ft, tw, color, Some(bg), align);
            assert forall|k: int| 0 <= k < cells.len() implies same_but_background(#[trigger] p[k], q[k]) by {
                assert(same_but_background(c1[k], c2[k]));
            }
        }
    }
}

/// A drawing command as plain values, texts as character sequences.
pub enum DrawOp<C> {
    Clear,
    ClearRect(usize, usize, usize, usize),
    FillRect(usize, usize, usize, usize, char, C),
    FillRectWithBg(usize, usize, usize, usize, char, C, C),
    SetChar(usize, usize, char, C),
    SetCharWithBg(usize, usize, char, C, C),
    SetLine(usize, usize, usize, Seq<char>, TextAlign, C),
    SetLineWithBg(usize, usize, usize, Seq<char>, TextAlign, C, C),
    SetSvg(usize, usize, Seq<char>, C),
    FillBackgroundRect(usize, usize, usize, usize, C),
}

/// A command as plain values.
pub open spec fn op_of<C>(c: CanvasCommand<C>) -> DrawOp<C> {
    match c {
        CanvasCommand::Clear => DrawOp::Clear,
        CanvasCommand::ClearRect(x, y, w, h) => DrawOp::ClearRect(x, y, w, h),
        CanvasCommand::FillRect(x, y, w, h, ch, c) => DrawOp::FillRect(x, y, w, h, ch, c),
        CanvasCommand::FillRectWithBg(x, y, w, h, ch, c, b) => DrawOp::FillRectWithBg(x, y, w, h, ch, c, b),
        CanvasCommand::SetChar(x, y, ch, c) => DrawOp::SetChar(x, y, ch, c),
        CanvasCommand::SetCharWithBg(x, y, ch, c, b) => DrawOp::SetCharWithBg(x, y, ch, c, b),
        CanvasCommand::SetLine(y, xs, xe, t, a, c) => DrawOp::SetLine(y, xs, xe, t@, a, c),
        CanvasCommand::SetLineWithBg(y, xs, xe, t, a, c, b) => DrawOp::SetLineWithBg(y, xs, xe, t@, a, c, b),
        CanvasCommand::SetSvg(x, y, id, c) => DrawOp::SetSvg(x, y, id@, c),
        CanvasCommand::FillBackgroundRect(x, y, w, h, b) => DrawOp::FillBackgroundRect(x, y, w, h, b),
    }
}

/// A command list as plain values.
pub open spec fn ops_of<C>(cs: Seq<CanvasCommand<C>>) -> Seq<DrawOp<C>> {
    cs.map_values(|c: CanvasCommand<C>| op_of(c))
}

proof fn lemma_ops_push<C>(cs: Seq<CanvasCommand<C>>, c: CanvasCommand<C>)
    ensures
        ops_of(cs.push(c)) == ops_of(cs).push(op_of(c)),
{
    assert(ops_of(cs.push(c)) =~= ops_of(cs).push(op_of(c)));
}

/// Appends `SetChar(x, y, ch, color)`.
pub fn push_set_char<C: Copy>(cmds: &mut Vec<CanvasCommand<C>>, x: usize, y: usize, ch: char, color: C)
    ensures
        ops_of(final(cmds)@) == ops_of(old(cmds)@).push(DrawOp::SetChar(x, y, ch, color)),
{
    let ghost before = cmds@;
    cmds.push(CanvasCommand::SetChar(x, y, ch, color));
    proof {
        lemma_ops_push(before, CanvasCommand::SetChar(x, y, ch, color));
    }
}

/// Appends `SetCharWithBg(x, y, ch, color, bg)`.
pub fn push_set_char_with_bg<C: Copy>(cmds: &mut Vec<CanvasCommand<C>>, x: usize, y: usize, ch: char, color: C, bg: C)
    ensures
        ops_of(final(cmds)@) == ops_of(old(cmds)@).push(DrawOp::SetCharWithBg(x, y, ch, color, bg)),
{
    let ghost before = cmds@;
    cmds.push(CanvasCommand::SetCharWithBg(x, y, ch, color, bg));
    proof {
        lemma_ops_push(before, CanvasCommand::SetCharWithBg(x, y, ch, color, bg));
    }
}

/// Appends `SetLine(y, x_start, x_end, text, align, color)`.
pub fn push_set_line<C: Copy>(
    cmds: &mut Vec<CanvasCommand<C>>,
    y: usize,
    x_start: usize,
    x_end: usize,
    text: String,
    align: TextAlign,
    color: C,
)
    ensures
        ops_of(final(cmds)@) == ops_of(old(cmds)@).push(DrawOp::SetLine(y, x_start, x_end, text@, align, color)),
{
    let ghost before = cmds@;
    let ghost t = text;
    cmds.push(CanvasCommand::SetLine(y, x_start, x_end, text, align, color));
    proof {
        lemma_ops_push(before, CanvasCommand::SetLine(y, x_start, x_end, t, align, color));
    }
}

/// Appends `SetLineWithBg(y, x_start, x_end, text, align, color, bg)`.
pub fn push_set_line_with_bg<C: Copy>(
    cmds: &mut Vec<CanvasCommand<C>>,
    y: usize,
    x_start: usize,
    x_end: usize,
    text: String,
    align: TextAlign,
    color: C,
    bg: C,
)
    ensures
        ops_of(final(cmds)@) == ops_of(old(cmds)@).push(
            DrawOp::SetLineWithBg(y, x_start, x_end, text@, align, color, bg),
        ),
{
    let ghost before = cmds@;
    let ghost t = text;
    cmds.push(CanvasCommand::SetLineWithBg(y, x_start, x_end, text, align, color, bg));
    proof {
        lemma_ops_push(before, CanvasCommand::SetLineWithBg(y, x_start, x_end, t, align, color, bg));
    }
}

/// Appends `FillRectWithBg(x, y, w, h, ch, color, bg)`.
pub fn push_fill_rect_with_bg<C: Copy>(
    cmds: &mut Vec<CanvasCommand<C>>,
    x: usize,
    y: usize,
    w: usize,
    h: usize,
    ch: char,
    color: C,
    bg: C,
)
    ensures
        ops_of(final(cmds)@) == ops_of(old(cmds)@).push(DrawOp::FillRectWithBg(x, y, w, h, ch, color, bg)),
{
    let ghost before = cmds@;
    cmds.push(CanvasCommand::FillRectWithBg(x, y, w, h, ch, color, bg));
    proof {
        lemma_ops_push(before, CanvasCommand::FillRectWithBg(x, y, w, h, ch, color, bg));
    }
}

/// Appends `FillBackgroundRect(x, y, w, h, bg)`.
pub fn push_fill_background_rect<C: Copy>(cmds: &mut Vec<CanvasCommand<C>>, x: usize, y: usize, w: usize, h: usize, bg: C)
    ensures
        ops_of(final(cmds)@) == ops_of(old(cmds)@).push(DrawOp::FillBackgroundRect(x, y, w, h, bg)),
{
    let ghost before = cmds@;
    cmds.push(CanvasCommand::FillBackgroundRect(x, y, w, h, bg));
    proof {
        lemma_ops_push(before, CanvasCommand::FillBackgroundRect(x, y, w, h, bg));
    }
}

/// Appends `ClearRect(x, y, w, h)`.
pub fn push_clear_rect<C: Copy>(cmds: &mut Vec<CanvasCommand<C>>, x: usize, y: usize, w: usize, h: usize)
    ensures
        ops_of(final(cmds)@) == ops_of(old(cmds)@).push(DrawOp::ClearRect(x, y, w, h)),
{
    let ghost before = cmds@;
    cmds.push(CanvasCommand::ClearRect(x, y, w, h));
    proof {
        lemma_ops_push(before, CanvasCommand::ClearRect(x, y, w, h));
    }
}

/// Whether the canvas can carry out `cmd` (see `command_in_bounds`).
pub fn command_fits<C>(cmd: &CanvasCommand<C>) -> (r: bool)
    ensures
        r == command_in_bounds(*cmd),
{
    match cmd {
        CanvasCommand::ClearRect(x, y, w, h) => *w <= usize::MAX - *x && *h <= usize::MAX - *y,
        CanvasCommand::FillRect(x, y, w, h, _, _) => *w <= usize::MAX - *x && *h <= usize::MAX - *y,
        CanvasCommand::FillRectWithBg(x, y, w, h, _, _, _) => *w <= usize::MAX - *x && *h <= usize::MAX - *y,
        CanvasCommand::FillBackgroundRect(x, y, w, h, _) => *w <= usize::MAX - *x && *h <= usize::MAX - *y,
        _ => true,
    }
}

/// The rectangle sizes of a command do not overflow when added to its corner.
pub open spec fn command_in_bounds<C>(cmd: CanvasCommand<C>) -> bool {
    match cmd {
        CanvasCommand::ClearRect(x, y, w, h) => x + w <= usize::MAX && y + h <= usize::MAX,
        CanvasCommand::FillRect(x, y, w, h, _, _) => x + w <= usize::MAX && y + h <= usize::MAX,
        CanvasCommand::FillRectWithBg(x, y, w, h, _, _, _) => x + w <= usize::MAX && y + h <= usize::MAX,
        CanvasCommand::FillBackgroundRect(x, y, w, h, _) => x + w <= usize::MAX && y + h <= usize::MAX,
        _ => true,
    }
}

/// What a command does to the cells and the dirty flag: the effect of
/// the canvas method of the same name.
pub open spec fn command_effect<C>(
    new: Seq<Cell<C>>,
    new_dirty: bool,
    old: Seq<Cell<C>>,
    old_dirty: bool,
    cmd: CanvasCommand<C>,
    ink: C,
) -> bool {
    match cmd {
        CanvasCommand::Clear => new == Seq::new(5184, |k: int| blank_cell(ink)) && new_dirty,
        CanvasCommand::ClearRect(x, y, w, h) => rect_effect(
            new,
            old,
            x as int,
            y as int,
            x + w,
            y + h,
            |o: int, c: Cell<C>| blank_cell(ink),
        ) && new_dirty,
        CanvasCommand::FillRect(x, y, w, h, ch, color) => rect_effect(
            new,
            old,
            x as int,
            y as int,
            x + w,
            y + h,
            |o: int, c: Cell<C>| fill_cell(ch, o, color, None),
        ) && new_dirty,
        CanvasCommand::FillRectWithBg(x, y, w, h, ch, color, bg) => rect_effect(
            new,
            old,
            x as int,
            y as int,
            x + w,
            y + h,
            |o: int, c: Cell<C>| fill_cell(ch, o, color, Some(bg)),
        ) && new_dirty,
        CanvasCommand::FillBackgroundRect(x, y, w, h, bg) => rect_effect(
            new,
            old,
            x as int,
            y as int,
            x + w,
            y + h,
            |o: int, c: Cell<C>| Cell { background_color: Some(bg), ..c },
        ) && new_dirty,
        CanvasCommand::SetChar(x, y, ch, color) => new == glyph_effect(
            old,
            x as int,
            y as int,
            ch,
            color,
            None,
            ink,
        ) && new_dirty == (old_dirty || (x < 96 && y < 54)),
        CanvasCommand::SetCharWithBg(x, y, ch, color, bg) => new == glyph_effect(
            old,
            x as int,
            y as int,
            ch,
            color,
            Some(bg),
            ink,
        ) && new_dirty == (old_dirty || (x < 96 && y < 54)),
        CanvasCommand::SetLine(y, xs, xe, text, align, color) => new == line_effect(
            old,
            y as int,
            xs as int,
            xe as int,
            text@,
            align,
            color,
            None,
            ink,
        ) && new_dirty == (old_dirty || line_in_range(y as int, xs as int, xe as int)),
        CanvasCommand::SetLineWithBg(y, xs, xe, text, align, color, bg) => new == line_effect(
            old,
            y as int,
            xs as int,
            xe as int,
            text@,
            align,
            color,
            Some(bg),
            ink,
        ) && new_dirty == (old_dirty || line_in_range(y as int, xs as int, xe as int)),
        CanvasCommand::SetSvg(x, y, id, color) => if in_canvas(x as int, y as int) {
            let c = new[idx(x as int, y as int)];
            &&& new == old.update(idx(x as int, y as int), c)
            &&& c.content matches CellContent::Svg(s) && s@ == id@
            &&& c.span == 1
            &&& c.color == color
            &&& c.background_color is None
            &&& c.container_end is None
            &&& c.container_align is None
            &&& new_dirty
        } else {
            new == old && new_dirty == old_dirty
        },
    }
}

/// `trace` lists the cells and dirty flag before each of `cmds` and after the
/// last: each state follows from the one before by the command between them.
pub open spec fn commands_trace<C>(trace: Seq<(Seq<Cell<C>>, bool)>, cmds: Seq<CanvasCommand<C>>, ink: C) -> bool {
    &&& trace.len() == cmds.len() + 1
    &&& forall|i: int|
        0 <= i < cmds.len() ==> command_effect(
            trace[i + 1].0,
            trace[i + 1].1,
            trace[i].0,
            trace[i].1,
            #[trigger] cmds[i],
            ink,
        )
}

impl<C: Copy> Canvas<C> {
    /// The cells, row by row.
    pub closed spec fn cells(&self) -> Seq<Cell<C>> {
        self.cells@
    }

    /// The foreground colour of an empty cell.
    pub closed spec fn ink(&self) -> C {
        self.default_color
    }

    /// Whether the canvas changed since the renderer last took it.
    pub closed spec fn is_dirty(&self) -> bool {
        self.dirty
    }

    pub closed spec fn wf(&self) -> bool {
        cells_wf(self.cells@)
    }

    /// The grid's shape is kept: `new` gives a well-formed canvas and every
    /// method of `Canvas` that changes one ensures it stays well formed; a
    /// well-formed canvas is `CANVAS_WIDTH` × `CANVAS_HEIGHT` cells, stored row
    /// by row, in which every run fits in its row.
    pub proof fn lemma_wf_cells(&self)
        requires
            self.wf(),
        ensures
            cells_wf(self.cells()),
            self.cells().len() == CANVAS_WIDTH * CANVAS_HEIGHT,
            forall|x: int, y: int|
                #![trigger self.cells()[idx(x, y)]]
                in_canvas(x, y) ==> self.cells()[idx(x, y)].span + x <= CANVAS_WIDTH,
    {
    }

    /// A blank canvas whose empty cells are drawn in `default_color`; it starts dirty.
    pub fn new(default_color: C) -> (r: Self)
        ensures
            r.wf(),
            r.ink() == default_color,
            r.is_dirty(),
            r.cells() == Seq::new(5184, |k: int| blank_cell(default_color)),
    {
        let mut cells: Vec<Cell<C>> = Vec::new();
        let mut i: usize = 0;
        while i < CANVAS_CELLS
            invariant
                i <= CANVAS_CELLS,
                cells@.len() == i,
                forall|k: int| 0 <= k < i ==> cells@[k] == blank_cell(default_color),
            decreases CANVAS_CELLS - i,
        {
            cells.push(Self::blank(default_color));
            i = i + 1;
        }
        let r = Canvas { cells, default_color, dirty: true };
        assert(r.cells() =~= Seq::new(5184, |k: int| blank_cell(default_color)));
        r
    }

    fn blank(ink: C) -> (c: Cell<C>)
        ensures
            c == blank_cell(ink),
    {
        Cell {
            content: CellContent::Empty,
            span: 1,
            color: ink,
            background_color: None,
            container_end: None,
            container_align: None,
        }
    }

    /// Tells the renderer that the canvas changed.
    pub fn mark_dirty(&mut self)
        ensures
            final(self).is_dirty(),
            final(self).cells() == old(self).cells(),
            final(self).ink() == old(self).ink(),
            old(self).wf() ==> final(self).wf(),
    {
        self.dirty = true;
    }

    /// Whether a render is due; clears the flag.
    pub fn take_dirty(&mut self) -> (was: bool)
        ensures
            was == old(self).is_dirty(),
            !final(self).is_dirty(),
            final(self).cells() == old(self).cells(),
            final(self).ink() == old(self).ink(),
            old(self).wf() ==> final(self).wf(),
    {
        let was = self.dirty;
        self.dirty = false;
        was
    }


    fn paint_rect(&mut self, x0: usize, y0: usize, x1: usize, y1: usize, op: &RectFill<C>)
        requires
            old(self).wf(),
            x1 <= CANVAS_WIDTH,
            y1 <= CANVAS_HEIGHT,
        ensures
            final(self).wf(),
            final(self).ink() == old(self).ink(),
            final(self).is_dirty() == old(self).is_dirty(),
            rect_effect(
                final(self).cells(),
                old(self).cells(),
                x0 as int,
                y0 as int,
                x1 as int,
                y1 as int,
                |o: int, c: Cell<C>| rect_cell(*op, o, c, old(self).ink()),
            ),
    {
        let ghost old_cells = self.cells@;
        let ghost ink = self.default_color;
        let mut row = y0;
        while row < y1
            invariant
                y0 <= row,
                row <= y1 || row == y0,
                x1 <= CANVAS_WIDTH,
                y1 <= CANVAS_HEIGHT,
                self.default_color == ink,
                self.dirty == old(self).dirty,
                cells_wf(self.cells@),
                self.cells@.len() == old_cells.len(),
                forall|x: int, y: int|
                    #![trigger self.cells@[idx(x, y)]]
                    in_canvas(x, y) ==> self.cells@[idx(x, y)] == if x0 <= x < x1 && y0 <= y < row {
                        rect_cell(*op, x - x0, old_cells[idx(x, y)], ink)
                    } else {
                        old_cells[idx(x, y)]
                    },
            decreases y1 - row,
        {
            let mut col = x0;
            while col < x1
                invariant
                    y0 <= row < y1,
                    x0 <= col,
                    col <= x1 || col == x0,
                    x1 <= CANVAS_WIDTH,
                    y1 <= CANVAS_HEIGHT,
                    self.default_color == ink,
                    self.dirty == old(self).dirty,
                    cells_wf(self.cells@),
                    self.cells@.len() == old_cells.len(),
                    forall|x: int, y: int|
                        #![trigger self.cells@[idx(x, y)]]
                        in_canvas(x, y) ==> self.cells@[idx(x, y)] == if (x0 <= x < x1 && y0 <= y < row)
                            || (y == row && x0 <= x < col) {
                            rect_cell(*op, x - x0, old_cells[idx(x, y)], ink)
                        } else {
                            old_cells[idx(x, y)]
                        },
                decreases x1 - col,
            {
                let i = row * CANVAS_WIDTH + col;
                let ghost before = self.cells@;
                match op {
                    RectFill::Blank => {
                        self.cells.set(i, Self::blank(self.default_color));
                    },
                    RectFill::Glyph(ch, color, bg) => {
                        let second_column = layout_width_of(*ch) == 2 && (col - x0) % 2 == 1;
                        let content = if second_column {
                            CellContent::Continuation
                        } else {
                            CellContent::Char(*ch)
                        };
                        self.cells.set(
                            i,
                            Cell {
                                content,
                                span: if second_column { 0 } else { 1 },
                                color: *color,
                                background_color: *bg,
                                container_end: None,
                                container_align: None,
                            },
                        );
                    },
                    RectFill::Background(b) => {
                        self.cells[i].background_color = Some(*b);
                        assert(self.cells@[i as int] == rect_cell(*op, col - x0, before[i as int], ink));
                        assert(self.cells@ =~= before.update(i as int, rect_cell(*op, col - x0, before[i as int], ink)));
                    },
                }
                assert(self.cells@ == before.update(idx(col as int, row as int), rect_cell(*op, col - x0, before[idx(col as int, row as int)], ink)));
                assert forall|x: int, y: int| in_canvas(x, y) && idx(x, y) == idx(col as int, row as int) implies x == col && y == row by {}
                col = col + 1;
            }
            row = row + 1;
        }
        assert forall|x: int, y: int| in_canvas(x, y) implies #[trigger] self.cells@[idx(x, y)] == if x0 <= x < x1 && y0 <= y < y1 {
            rect_cell(*op, x - x0, old_cells[idx(x, y)], ink)
        } else {
            old_cells[idx(x, y)]
        } by {}
    }

    /// Empties every cell, background included.
    pub fn clear(&mut self)
        requires
            old(self).wf(),
        ensures
            final(self).wf(),
            final(self).ink() == old(self).ink(),
            final(self).is_dirty(),
            final(self).cells() == Seq::new(5184, |k: int| blank_cell(old(self).ink())),
    {
        self.paint_rect(0, 0, CANVAS_WIDTH, CANVAS_HEIGHT, &RectFill::Blank);
        proof {
            let ink = self.default_color;
            assert forall|k: int| 0 <= k < 5184 implies #[trigger] self.cells@[k] == blank_cell(ink) by {
                let y = k / 96;
                let x = k % 96;
                assert(in_canvas(x, y) && k == idx(x, y));
            }
            assert(self.cells@ =~= Seq::new(5184, |k: int| blank_cell(ink)));
        }
        self.mark_dirty();
    }

    /// Empties the cells of `[x, x + width) × [y, y + height)` inside the grid.
    pub fn clear_rect(&mut self, x: usize, y: usize, width: usize, height: usize)
        requires
            old(self).wf(),
            x + width <= usize::MAX,
            y + height <= usize::MAX,
        ensures
            final(self).wf(),
            final(self).ink() == old(self).ink(),
            final(self).is_dirty(),
            rect_effect(
                final(self).cells(),
                old(self).cells(),
                x as int,
                y as int,
                x + width,
                y + height,
                |o: int, c: Cell<C>| blank_cell(old(self).ink()),
            ),
    {
        let end_x = if x + width < CANVAS_WIDTH { x + width } else { CANVAS_WIDTH };
        let end_y = if y + height < CANVAS_HEIGHT { y + height } else { CANVAS_HEIGHT };
        self.paint_rect(x, y, end_x, end_y, &RectFill::Blank);
        self.mark_dirty();
    }

    /// Fills the rectangle with `ch` without background: every cell holds it,
    /// except that a two-column character takes the columns in pairs, each
    /// pair holding it and then a continuation cell (see `fill_cell`).
    pub fn fill_rect(&mut self, x: usize, y: usize, width: usize, height: usize, ch: char, color: C)
        requires
            old(self).wf(),
            x + width <= usize::MAX,
            y + height <= usize::MAX,
        ensures
            final(self).wf(),
            final(self).ink() == old(self).ink(),
            final(self).is_dirty(),
            rect_effect(
                final(self).cells(),
                old(self).cells(),
                x as int,
                y as int,
                x + width,
                y + height,
                |o: int, c: Cell<C>| fill_cell(ch, o, color, None),
            ),
    {
        let end_x = if x + width < CANVAS_WIDTH { x + width } else { CANVAS_WIDTH };
        let end_y = if y + height < CANVAS_HEIGHT { y + height } else { CANVAS_HEIGHT };
        self.paint_rect(x, y, end_x, end_y, &RectFill::Glyph(ch, color, None));
        self.mark_dirty();
    }

    /// Fills the rectangle with `ch` on background `bg_color`, columns taken
    /// as `fill_rect` takes them.
    pub fn fill_rect_with_bg(
        &mut self,
        x: usize,
        y: usize,
        width: usize,
        height: usize,
        ch: char,
        color: C,
        bg_color: C,
    )
        requires
            old(self).wf(),
            x + width <= usize::MAX,
            y + height <= usize::MAX,
        ensures
            final(self).wf(),
            final(self).ink() == old(self).ink(),
            final(self).is_dirty(),
            rect_effect(
                final(self).cells(),
                old(self).cells(),
                x as int,
                y as int,
                x + width,
                y + height,
                |o: int, c: Cell<C>| fill_cell(ch, o, color, Some(bg_color)),
            ),
    {
        let end_x = if x + width < CANVAS_WIDTH { x + width } else { CANVAS_WIDTH };
        let end_y = if y + height < CANVAS_HEIGHT { y + height } else { CANVAS_HEIGHT };
        self.paint_rect(x, y, end_x, end_y, &RectFill::Glyph(ch, color, Some(bg_color)));
        self.mark_dirty();
    }

    /// Sets the background of every cell of the rectangle; contents stay.
    pub fn fill_background_rect(&mut self, x: usize, y: usize, width: usize, height: usize, bg_color: C)
        requires
            old(self).wf(),
            x + width <= usize::MAX,
            y + height <= usize::MAX,
        ensures
            final(self).wf(),
            final(self).ink() == old(self).ink(),
            final(self).is_dirty(),
            rect_effect(
                final(self).cells(),
                old(self).cells(),
                x as int,
                y as int,
                x + width,
                y + height,
                |o: int, c: Cell<C>| Cell { background_color: Some(bg_color), ..c },
            ),
    {
        let end_x = if x + width < CANVAS_WIDTH { x + width } else { CANVAS_WIDTH };
        let end_y = if y + height < CANVAS_HEIGHT { y + height } else { CANVAS_HEIGHT };
        self.paint_rect(x, y, end_x, end_y, &RectFill::Background(bg_color));
        self.mark_dirty();
    }


    /// Empties columns `[from, to)` of row `y`, keeping backgrounds.
    fn clear_cols(&mut self, y: usize, from: usize, to: usize)
        requires
            old(self).wf(),
            y < CANVAS_HEIGHT,
            from <= to <= CANVAS_WIDTH,
        ensures
            final(self).wf(),
            final(self).ink() == old(self).ink(),
            final(self).is_dirty() == old(self).is_dirty(),
            final(self).cells() == clear_cols(old(self).cells(), y as int, from as int, to as int, old(self).ink()),
    {
        let ghost old_cells = self.cells@;
        let ink = self.default_color;
        let base = y * CANVAS_WIDTH;
        let mut i = from;
        while i < to
            invariant
                from <= i <= to <= CANVAS_WIDTH,
                y < CANVAS_HEIGHT,
                base == y * 96,
                self.default_color == ink,
                self.dirty == old(self).dirty,
                self.cells@ == clear_cols(old_cells, y as int, from as int, i as int, ink),
                old_cells.len() == 5184,
            decreases to - i,
        {
            let bg = self.cells[base + i].background_color;
            let ghost before = self.cells@;
            self.cells.set(
                base + i,
                Cell {
                    content: CellContent::Empty,
                    span: 1,
                    color: ink,
                    background_color: bg,
                    container_end: None,
                    container_align: None,
                },
            );
            proof {
                lemma_emptied_idempotent(old_cells[idx(i as int, y as int)], ink);
                assert(self.cells@ =~= clear_cols(old_cells, y as int, from as int, i + 1, ink));
            }
            i = i + 1;
        }
        proof {
            lemma_clear_cols(old_cells, y as int, from as int, to as int, ink);
        }
    }

    /// Empties the text in columns `[start, end)` of row `y`, keeping backgrounds;
    /// a text run that overlaps the range is emptied as a whole.
    fn clear_range_string_content(&mut self, y: usize, start: usize, end: usize)
        requires
            old(self).wf(),
            start < CANVAS_WIDTH,
        ensures
            final(self).wf(),
            final(self).ink() == old(self).ink(),
            final(self).is_dirty() == old(self).is_dirty(),
            final(self).cells() == clear_line_range(
                old(self).cells(),
                y as int,
                start as int,
                end as int,
                old(self).ink(),
            ),
    {
        if y >= CANVAS_HEIGHT || start >= end {
            return;
        }
        let ghost old_cells = self.cells@;
        let ghost ink = self.default_color;
        let end = if end < CANVAS_WIDTH { end } else { CANVAS_WIDTH };
        let base = y * CANVAS_WIDTH;
        // runs that begin left of `start` and reach into the range
        let mut s: usize = 0;
        while s < start
            invariant
                s <= CANVAS_WIDTH,
                start < CANVAS_WIDTH,
                y < CANVAS_HEIGHT,
                base == y * 96,
                self.wf(),
                self.default_color == ink,
                self.dirty == old(self).dirty,
                clear_runs_crossing(old_cells, y as int, 0, start as int, ink) == clear_runs_crossing(
                    self.cells@,
                    y as int,
                    s as int,
                    start as int,
                    ink,
                ),
            decreases CANVAS_WIDTH - s,
        {
            let span = self.cells[base + s].span;
            proof {
                assert(self.cells@[idx(s as int, y as int)].span + s <= 96);
            }
            if span > 0 && s + span > start {
                let run_end = if s + span < CANVAS_WIDTH { s + span } else { CANVAS_WIDTH };
                self.clear_cols(y, s, run_end);
                s = run_end;
            } else {
                s = s + 1;
            }
        }
        let ghost mid = self.cells@;
        // the range itself, together with runs that begin in it
        let mut i = start;
        while i < end
            invariant
                start <= i <= CANVAS_WIDTH,
                end <= CANVAS_WIDTH,
                y < CANVAS_HEIGHT,
                base == y * 96,
                self.wf(),
                self.default_color == ink,
                self.dirty == old(self).dirty,
                clear_cols_from(mid, y as int, start as int, end as int, ink) == clear_cols_from(
                    self.cells@,
                    y as int,
                    i as int,
                    end as int,
                    ink,
                ),
            decreases CANVAS_WIDTH - i,
        {
            let span = self.cells[base + i].span;
            proof {
                assert(self.cells@[idx(i as int, y as int)].span + i <= 96);
            }
            let run_end = if span > 0 {
                if i + span < CANVAS_WIDTH { i + span } else { CANVAS_WIDTH }
            } else {
                i + 1
            };
            self.clear_cols(y, i, run_end);
            i = run_end;
        }
    }


    fn put_glyph(&mut self, x: usize, y: usize, ch: char, color: C, bg: Option<C>)
        requires
            old(self).wf(),
        ensures
            final(self).wf(),
            final(self).ink() == old(self).ink(),
            final(self).cells() == glyph_effect(
                old(self).cells(),
                x as int,
                y as int,
                ch,
                color,
                bg,
                old(self).ink(),
            ),
            final(self).is_dirty() == (old(self).is_dirty() || (x < CANVAS_WIDTH && y < CANVAS_HEIGHT)),
    {
        if x >= CANVAS_WIDTH || y >= CANVAS_HEIGHT {
            return;
        }
        let ghost old_cells = self.cells@;
        let width = layout_width_of(ch);
        let clear_end = if x + width < CANVAS_WIDTH { x + width } else { CANVAS_WIDTH };
        self.clear_range_string_content(y, x, clear_end);
        proof {
            lemma_clear_line_range(old_cells, y as int, x as int, clear_end as int, self.default_color);
        }
        let base = y * CANVAS_WIDTH;
        self.cells.set(
            base + x,
            Cell {
                content: CellContent::Char(ch),
                span: 0,
                color,
                background_color: bg,
                container_end: None,
                container_align: None,
            },
        );
        if width == 2 && x + 1 < CANVAS_WIDTH {
            self.cells.set(
                base + x + 1,
                Cell {
                    content: CellContent::Continuation,
                    span: 0,
                    color,
                    background_color: bg,
                    container_end: None,
                    container_align: None,
                },
            );
        }
        self.mark_dirty();
    }

    /// Puts `ch` at `(x, y)` without background; a wide character also takes the
    /// cell to its right. Any text overlapping those columns is removed first.
    pub fn set_char(&mut self, x: usize, y: usize, ch: char, color: C)
        requires
            old(self).wf(),
        ensures
            final(self).wf(),
            final(self).ink() == old(self).ink(),
            final(self).cells() == glyph_effect(old(self).cells(), x as int, y as int, ch, color, None, old(self).ink()),
            final(self).is_dirty() == (old(self).is_dirty() || (x < CANVAS_WIDTH && y < CANVAS_HEIGHT)),
    {
        self.put_glyph(x, y, ch, color, None);
    }

    /// Puts `ch` at `(x, y)` on background `bg_color` (a wide character's
    /// continuation cell gets the same background).
    pub fn set_char_with_bg(&mut self, x: usize, y: usize, ch: char, color: C, bg_color: C)
        requires
            old(self).wf(),
        ensures
            final(self).wf(),
            final(self).ink() == old(self).ink(),
            final(self).cells() == glyph_effect(
                old(self).cells(),
                x as int,
                y as int,
                ch,
                color,
                Some(bg_color),
                old(self).ink(),
            ),
            final(self).is_dirty() == (old(self).is_dirty() || (x < CANVAS_WIDTH && y < CANVAS_HEIGHT)),
    {
        self.put_glyph(x, y, ch, color, Some(bg_color));
    }



    fn fill_missing_background(&mut self, y: usize, from: usize, to: usize, b: C)
        requires
            old(self).wf(),
            y < CANVAS_HEIGHT,
            from <= to <= CANVAS_WIDTH,
        ensures
            final(self).wf(),
            final(self).ink() == old(self).ink(),
            final(self).is_dirty() == old(self).is_dirty(),
            final(self).cells() == fill_missing_bg(old(self).cells(), y as int, from as int, to as int, b),
    {
        let ghost c1 = self.cells@;
        let base = y * CANVAS_WIDTH;
        let mut x = from;
        while x < to
            invariant
                from <= x <= to <= CANVAS_WIDTH,
                y < CANVAS_HEIGHT,
                base == y * 96,
                self.wf(),
                self.default_color == old(self).default_color,
                self.dirty == old(self).dirty,
                c1.len() == 5184,
                self.cells@ == fill_missing_bg(c1, y as int, from as int, x as int, b),
            decreases to - x,
        {
            if self.cells[base + x].background_color.is_none() {
                self.cells[base + x].background_color = Some(b);
            }
            proof {
                assert(self.cells@ =~= fill_missing_bg(c1, y as int, from as int, x + 1, b));
            }
            x = x + 1;
        }
    }

    fn place_run(
        &mut self,
        y: usize,
        actual_x: usize,
        x_end: usize,
        final_text: &Vec<char>,
        text_width: usize,
        color: C,
        bg: Option<C>,
        align: TextAlign,
    )
        requires
            old(self).wf(),
            y < CANVAS_HEIGHT,
            actual_x < CANVAS_WIDTH,
            actual_x <= x_end <= CANVAS_WIDTH,
            actual_x + text_width <= x_end,
            final_text.len() > 0,
        ensures
            final(self).wf(),
            final(self).ink() == old(self).ink(),
            final(self).is_dirty() == old(self).is_dirty(),
            final(self).cells() == place_text(
                old(self).cells(),
                y as int,
                actual_x as int,
                x_end as int,
                final_text@,
                text_width as int,
                color,
                bg,
                align,
            ),
    {
        let ghost ax = actual_x as int;
        let ghost ft = final_text@;
        let base = y * CANVAS_WIDTH;
        self.cells.set(
            base + actual_x,
            Cell {
                content: CellContent::Char(final_text[0]),
                span: text_width,
                color,
                background_color: bg,
                container_end: Some(x_end),
                container_align: Some(align),
            },
        );
        let ghost c2 = self.cells@;
        assert(c2 == old(self).cells@.update(
            idx(ax, y as int),
            run_start_cell(ft[0], text_width as int, color, bg, x_end as int, align),
        ));
        assert(cells_wf(c2)) by {
            assert forall|x: int, yy: int| #![trigger c2[idx(x, yy)]] in_canvas(x, yy) implies {
                &&& c2[idx(x, yy)].span + x <= 96
                &&& (c2[idx(x, yy)].container_end matches Some(e) ==> x <= e)
            } by {
                if idx(x, yy) == idx(ax, y as int) {
                    assert(x == ax && yy == y);
                }
            }
        }
        proof {
            assert(c2 =~= place_chars(c2, y as int, ax, ax + 1, ft, color, bg));
        }
        let mut i: usize = 1;
        while i < final_text.len() && i < x_end - actual_x
            invariant
                1 <= i <= x_end - actual_x || i == 1,
                actual_x < CANVAS_WIDTH,
                actual_x <= x_end <= CANVAS_WIDTH,
                y < CANVAS_HEIGHT,
                base == y * 96,
                ft == final_text@,
                ax == actual_x as int,
                i <= ft.len(),
                self.default_color == old(self).default_color,
                self.dirty == old(self).dirty,
                c2.len() == 5184,
                cells_wf(c2),
                cells_wf(self.cells@),
                self.cells@ == place_chars(c2, y as int, ax, ax + i, ft, color, bg),
            decreases final_text.len() - i,
        {
            let cell_x = actual_x + i;
            let ghost prev = self.cells@;
            let ghost i0 = i as int;
            self.cells.set(
                base + cell_x,
                Cell {
                    content: CellContent::Char(final_text[i]),
                    span: 0,
                    color,
                    background_color: bg,
                    container_end: None,
                    container_align: None,
                },
            );
            i = i + 1;
            proof {
                let k0 = idx(ax + i0, y as int);
                assert(self.cells@ == prev.update(k0, char_cell(ft[i0], 0, color, bg)));
                assert forall|k: int| 0 <= k < 5184 implies #[trigger] self.cells@[k] == place_chars(c2, y as int, ax, ax + i, ft, color, bg)[k] by {
                    if k == k0 {
                        assert(k - idx(ax, y as int) == i0);
                    } else {
                        assert(prev[k] == place_chars(c2, y as int, ax, ax + i0, ft, color, bg)[k]);
                    }
                }
                assert(self.cells@ =~= place_chars(c2, y as int, ax, ax + i, ft, color, bg));
            }
        }
        proof {
            assert(self.cells@ =~= place_chars(c2, y as int, ax, x_end as int, ft, color, bg));
        }
    }

    fn put_line(
        &mut self,
        y: usize,
        x_start: usize,
        x_end: usize,
        text: &Vec<char>,
        align: TextAlign,
        color: C,
        bg: Option<C>,
    )
        requires
            old(self).wf(),
        ensures
            final(self).wf(),
            final(self).ink() == old(self).ink(),
            final(self).cells() == line_effect(
                old(self).cells(),
                y as int,
                x_start as int,
                x_end as int,
                text@,
                align,
                color,
                bg,
                old(self).ink(),
            ),
            final(self).is_dirty() == (old(self).is_dirty() || line_in_range(y as int, x_start as int, x_end as int)),
    {
        if y >= CANVAS_HEIGHT || x_start >= x_end || x_start >= CANVAS_WIDTH {
            return;
        }
        let ghost old_cells = self.cells@;
        let ghost ink = self.default_color;
        let x_end = if x_end < CANVAS_WIDTH { x_end } else { CANVAS_WIDTH };
        let available_width = x_end - x_start;
        let base = y * CANVAS_WIDTH;
        self.clear_range_string_content(y, x_start, x_end);
        proof {
            lemma_clear_line_range(old_cells, y as int, x_start as int, x_end as int, ink);
        }
        if let Some(b) = bg {
            self.fill_missing_background(y, x_start, x_end, b);
        }
        let ghost c2 = self.cells@;
        let (final_text, text_width) = fit_text_with_ellipsis(text, available_width);
        proof {
            lemma_fitted_width(text@, available_width as int);
        }
        if final_text.len() == 0 {
            self.mark_dirty();
            return;
        }
        let actual_x = match align {
            TextAlign::Left => x_start,
            TextAlign::Center => x_start + (if available_width >= text_width {
                available_width - text_width
            } else {
                0
            }) / 2,
            TextAlign::Right => x_start + (if available_width >= text_width {
                available_width - text_width
            } else {
                0
            }),
        };
        assert(actual_x as int == line_start_x(x_start as int, available_width as int, text_width as int, align));
        if actual_x >= x_end {
            self.mark_dirty();
            return;
        }
        assert(actual_x <= x_end);
        self.place_run(y, actual_x, x_end, &final_text, text_width, color, bg, align);
        self.mark_dirty();
    }


    /// Writes one line of `text` into columns `[x_start, x_end)` of row `y`
    /// (clipped to the grid), aligned by `align`, without background. The range
    /// and any text run overlapping it are emptied first; text that does not fit
    /// is cut with an ellipsis. Text whose first character would fall at or
    /// right of the range's end is dropped (see `line_effect`).
    pub fn set_line(&mut self, y: usize, x_start: usize, x_end: usize, text: &str, align: TextAlign, color: C)
        requires
            old(self).wf(),
        ensures
            final(self).wf(),
            final(self).ink() == old(self).ink(),
            final(self).cells() == line_effect(
                old(self).cells(),
                y as int,
                x_start as int,
                x_end as int,
                text@,
                align,
                color,
                None,
                old(self).ink(),
            ),
            final(self).is_dirty() == (old(self).is_dirty() || line_in_range(y as int, x_start as int, x_end as int)),
    {
        let chars = str_chars(text);
        self.put_line(y, x_start, x_end, &chars, align, color, None);
    }

    /// Like `set_line`, and every cell of the range without a background gets
    /// `bg_color`, as do the text's own cells.
    pub fn set_line_with_bg(
        &mut self,
        y: usize,
        x_start: usize,
        x_end: usize,
        text: &str,
        align: TextAlign,
        color: C,
        bg_color: C,
    )
        requires
            old(self).wf(),
        ensures
            final(self).wf(),
            final(self).ink() == old(self).ink(),
            final(self).cells() == line_effect(
                old(self).cells(),
                y as int,
                x_start as int,
                x_end as int,
                text@,
                align,
                color,
                Some(bg_color),
                old(self).ink(),
            ),
            final(self).is_dirty() == (old(self).is_dirty() || line_in_range(y as int, x_start as int, x_end as int)),
    {
        let chars = str_chars(text);
        self.put_line(y, x_start, x_end, &chars, align, color, Some(bg_color));
    }

    /// Puts the icon `svg_id` at `(x, y)` as a one-cell item without background.
    pub fn set_svg(&mut self, x: usize, y: usize, svg_id: &str, color: C)
        requires
            old(self).wf(),
        ensures
            final(self).wf(),
            final(self).ink() == old(self).ink(),
            !in_canvas(x as int, y as int) ==> final(self).cells() == old(self).cells() && final(self).is_dirty() == old(self).is_dirty(),
            in_canvas(x as int, y as int) ==> {
                let c = final(self).cells()[idx(x as int, y as int)];
                &&& final(self).cells() == old(self).cells().update(idx(x as int, y as int), c)
                &&& c.content matches CellContent::Svg(id) && id@ == svg_id@
                &&& c.span == 1
                &&& c.color == color
                &&& c.background_color is None
                &&& c.container_end is None
                &&& c.container_align is None
                &&& final(self).is_dirty()
            },
    {
        if x < CANVAS_WIDTH && y < CANVAS_HEIGHT {
            self.cells.set(
                y * CANVAS_WIDTH + x,
                Cell {
                    content: CellContent::Svg(String::from_str(svg_id)),
                    span: 1,
                    color,
                    background_color: None,
                    container_end: None,
                    container_align: None,
                },
            );
            self.mark_dirty();
        }
    }

    /// Gives cell `(x, y)` the background `bg_color`; its content stays.
    pub fn set_background(&mut self, x: usize, y: usize, bg_color: C)
        requires
            old(self).wf(),
        ensures
            final(self).wf(),
            final(self).ink() == old(self).ink(),
            !in_canvas(x as int, y as int) ==> final(self).cells() == old(self).cells() && final(self).is_dirty() == old(self).is_dirty(),
            in_canvas(x as int, y as int) ==> final(self).cells() == old(self).cells().update(
                idx(x as int, y as int),
                Cell { background_color: Some(bg_color), ..old(self).cells()[idx(x as int, y as int)] },
            ) && final(self).is_dirty(),
    {
        if x < CANVAS_WIDTH && y < CANVAS_HEIGHT {
            self.cells[y * CANVAS_WIDTH + x].background_color = Some(bg_color);
            self.mark_dirty();
        }
    }

    /// Removes the background of cell `(x, y)`; its content stays.
    pub fn clear_background(&mut self, x: usize, y: usize)
        requires
            old(self).wf(),
        ensures
            final(self).wf(),
            final(self).ink() == old(self).ink(),
            !in_canvas(x as int, y as int) ==> final(self).cells() == old(self).cells() && final(self).is_dirty() == old(self).is_dirty(),
            in_canvas(x as int, y as int) ==> final(self).cells() == old(self).cells().update(
                idx(x as int, y as int),
                Cell { background_color: None, ..old(self).cells()[idx(x as int, y as int)] },
            ) && final(self).is_dirty(),
    {
        if x < CANVAS_WIDTH && y < CANVAS_HEIGHT {
            self.cells[y * CANVAS_WIDTH + x].background_color = None;
            self.mark_dirty();
        }
    }


    /// Carries out `cmd` with the canvas method of the same name.
    pub fn apply_command(&mut self, cmd: &CanvasCommand<C>)
        requires
            old(self).wf(),
            command_in_bounds(*cmd),
        ensures
            final(self).wf(),
            final(self).ink() == old(self).ink(),
            command_effect(
                final(self).cells(),
                final(self).is_dirty(),
                old(self).cells(),
                old(self).is_dirty(),
                *cmd,
                old(self).ink(),
            ),
    {
        match cmd {
            CanvasCommand::Clear => {
                self.clear();
            },
            CanvasCommand::ClearRect(x, y, w, h) => {
                self.clear_rect(*x, *y, *w, *h);
            },
            CanvasCommand::FillRect(x, y, w, h, ch, color) => {
                self.fill_rect(*x, *y, *w, *h, *ch, *color);
            },
            CanvasCommand::FillRectWithBg(x, y, w, h, ch, fg, bg) => {
                self.fill_rect_with_bg(*x, *y, *w, *h, *ch, *fg, *bg);
            },
            CanvasCommand::SetChar(x, y, ch, color) => {
                self.set_char(*x, *y, *ch, *color);
            },
            CanvasCommand::SetCharWithBg(x, y, ch, fg, bg) => {
                self.set_char_with_bg(*x, *y, *ch, *fg, *bg);
            },
            CanvasCommand::SetLine(y, x_start, x_end, text, align, color) => {
                self.set_line(*y, *x_start, *x_end, text.as_str(), *align, *color);
            },
            CanvasCommand::SetLineWithBg(y, x_start, x_end, text, align, fg, bg) => {
                self.set_line_with_bg(*y, *x_start, *x_end, text.as_str(), *align, *fg, *bg);
            },
            CanvasCommand::SetSvg(x, y, svg_id, color) => {
                self.set_svg(*x, *y, svg_id.as_str(), *color);
            },
            CanvasCommand::FillBackgroundRect(x, y, w, h, bg) => {
                self.fill_background_rect(*x, *y, *w, *h, *bg);
            },
        }
    }

    /// Carries out `cmds` in order, when every rectangle in them fits
    /// (`command_in_bounds`); otherwise carries out none and returns `false`.
    pub fn apply_commands(&mut self, cmds: &Vec<CanvasCommand<C>>) -> (done: bool)
        requires
            old(self).wf(),
        ensures
            final(self).wf(),
            final(self).ink() == old(self).ink(),
            done == (forall|i: int| 0 <= i < cmds@.len() ==> command_in_bounds(#[trigger] cmds@[i])),
            done ==> exists|trace: Seq<(Seq<Cell<C>>, bool)>|
                {
                    &&& commands_trace(trace, cmds@, old(self).ink())
                    &&& trace[0] == (old(self).cells(), old(self).is_dirty())
                    &&& trace.last() == (final(self).cells(), final(self).is_dirty())
                },
            !done ==> *final(self) == *old(self),
    {
        let mut j: usize = 0;
        while j < cmds.len()
            invariant
                j <= cmds@.len(),
                forall|i: int| 0 <= i < j ==> command_in_bounds(#[trigger] cmds@[i]),
                *self == *old(self),
                self.wf(),
            decreases cmds@.len() - j,
        {
            if !command_fits(&cmds[j]) {
                return false;
            }
            j = j + 1;
        }
        let ghost ink = self.default_color;
        let ghost mut trace: Seq<(Seq<Cell<C>>, bool)> = seq![(self.cells@, self.dirty)];
        let mut k: usize = 0;
        while k < cmds.len()
            invariant
                k <= cmds@.len(),
                forall|i: int| 0 <= i < cmds@.len() ==> command_in_bounds(#[trigger] cmds@[i]),
                self.wf(),
                self.default_color == ink,
                commands_trace(trace, cmds@.take(k as int), ink),
                trace[0] == (old(self).cells@, old(self).dirty),
                trace.last() == (self.cells@, self.dirty),
            decreases cmds@.len() - k,
        {
            let ghost before = trace;
            self.apply_command(&cmds[k]);
            proof {
                trace = trace.push((self.cells@, self.dirty));
                assert forall|i: int| 0 <= i < k + 1 implies command_effect(
                    trace[i + 1].0,
                    trace[i + 1].1,
                    trace[i].0,
                    trace[i].1,
                    #[trigger] cmds@.take(k + 1)[i],
                    ink,
                ) by {
                    if i < k {
                        assert(cmds@.take(k + 1)[i] == cmds@.take(k as int)[i]);
                    }
                }
            }
            k = k + 1;
        }
        proof {
            assert(cmds@.take(cmds@.len() as int) =~= cmds@);
        }
        true
    }

    /// The cell at `(x, y)`.
    pub fn cell(&self, x: usize, y: usize) -> (c: &Cell<C>)
        requires
            self.wf(),
            x < CANVAS_WIDTH,
            y < CANVAS_HEIGHT,
        ensures
            *c == self.cells()[idx(x as int, y as int)],
    {
        &self.cells[y * CANVAS_WIDTH + x]
    }
}

} // verus!

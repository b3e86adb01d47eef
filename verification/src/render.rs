//! What the renderer draws for a canvas: background blocks first, then text
//! runs, single glyphs and icon boxes, each with the font to use.

use vstd::prelude::*;
use crate::canvas::{
    Canvas, Cell, CellContent, TextAlign, CANVAS_HEIGHT, CANVAS_WIDTH, cells_wf, idx, in_canvas, min_int,
};

verus! {

/// Which font a piece of text is drawn with.
#[derive(Debug, Clone, Copy, PartialEq, Eq, Structural)]
pub enum FontChoice {
    /// The icon font (the text holds a private-use character and that font is loaded).
    Icons,
    /// The CJK font, once loaded.
    Cjk,
    /// The engine's built-in font.
    Builtin,
}

/// One thing to draw, in cell coordinates.
pub enum RenderItem<C> {
    /// A background block over columns `[x, x + width)` of row `y`.
    Background { x: usize, y: usize, width: usize, color: C },
    /// A text run placed inside the container `[x, container_end)` by `align`.
    Text {
        x: usize,
        y: usize,
        container_end: usize,
        align: TextAlign,
        text: Vec<char>,
        color: C,
        font: FontChoice,
    },
    /// A single character centred in its cell.
    Glyph { x: usize, y: usize, ch: char, color: C, font: FontChoice },
    /// The placeholder box of an icon cell.
    Icon { x: usize, y: usize, color: C },
}

/// `RenderItem` with its text as a sequence.
pub enum RenderSpec<C> {
    Background { x: int, y: int, width: int, color: C },
    Text { x: int, y: int, container_end: int, align: TextAlign, text: Seq<char>, color: C, font: FontChoice },
    Glyph { x: int, y: int, ch: char, color: C, font: FontChoice },
    Icon { x: int, y: int, color: C },
}

pub open spec fn item_view<C>(i: RenderItem<C>) -> RenderSpec<C> {
    match i {
        RenderItem::Background { x, y, width, color } => RenderSpec::Background {
            x: x as int,
            y: y as int,
            width: width as int,
            color,
        },
        RenderItem::Text { x, y, container_end, align, text, color, font } => RenderSpec::Text {
            x: x as int,
            y: y as int,
            container_end: container_end as int,
            align,
            text: text@,
            color,
            font,
        },
        RenderItem::Glyph { x, y, ch, color, font } => RenderSpec::Glyph { x: x as int, y: y as int, ch, color, font },
        RenderItem::Icon { x, y, color } => RenderSpec::Icon { x: x as int, y: y as int, color },
    }
}

pub open spec fn items_view<C>(s: Seq<RenderItem<C>>) -> Seq<RenderSpec<C>> {
    s.map_values(|i: RenderItem<C>| item_view(i))
}

/// A character of the icon font's private-use ranges.
pub open spec fn is_icon_char(c: char) -> bool {
    (0xE000 <= (c as u32) <= 0xF8FF) || (c as u32) >= 0xF0000
}

/// The icon font for text holding an icon character once it is loaded, else
/// the CJK font once loaded, else the built-in font.
pub open spec fn font_for(text: Seq<char>, icons_loaded: bool, cjk_loaded: bool) -> FontChoice {
    if (exists|i: int| 0 <= i < text.len() && is_icon_char(#[trigger] text[i])) && icons_loaded {
        FontChoice::Icons
    } else if cjk_loaded {
        FontChoice::Cjk
    } else {
        FontChoice::Builtin
    }
}

/// Background blocks of row `y` from column `x` on: a cell with a background
/// and a container covers the container at once, any other cell with a
/// background covers itself.
pub open spec fn row_backgrounds<C>(cells: Seq<Cell<C>>, y: int, x: int) -> Seq<RenderSpec<C>>
    decreases 96 - x,
{
    if x < 0 || x >= 96 {
        Seq::empty()
    } else {
        let c = cells[idx(x, y)];
        match c.background_color {
            Some(b) => match c.container_end {
                Some(e) => {
                    let end = min_int(e as int, 96);
                    if end <= x {
                        Seq::empty()
                    } else {
                        seq![RenderSpec::Background { x, y, width: end - x, color: b }] + row_backgrounds(
                            cells,
                            y,
                            end,
                        )
                    }
                },
                None => seq![RenderSpec::Background { x, y, width: 1, color: b }] + row_backgrounds(
                    cells,
                    y,
                    x + 1,
                ),
            },
            None => row_backgrounds(cells, y, x + 1),
        }
    }
}

/// The characters of the run starting at column `x` after its first: the
/// character cells among columns `x + i .. x + span`.
pub open spec fn run_tail<C>(cells: Seq<Cell<C>>, y: int, x: int, i: int, span: int) -> Seq<char>
    decreases span - i,
{
    if i >= span {
        Seq::empty()
    } else {
        let rest = run_tail(cells, y, x, i + 1, span);
        if x + i < 96 {
            match cells[idx(x + i, y)].content {
                CellContent::Char(c) => seq![c] + rest,
                _ => rest,
            }
        } else {
            rest
        }
    }
}

/// Text items of row `y` from column `x` on.
pub open spec fn row_texts<C>(cells: Seq<Cell<C>>, y: int, x: int, icons: bool, cjk: bool) -> Seq<RenderSpec<C>>
    decreases 96 - x,
{
    if x < 0 || x >= 96 {
        Seq::empty()
    } else {
        let c = cells[idx(x, y)];
        match c.content {
            CellContent::Char(ch) => if c.span > 0 {
                let text = seq![ch] + run_tail(cells, y, x, 1, c.span as int);
                let end = match c.container_end {
                    Some(e) => e as int,
                    None => x + c.span,
                };
                let align = match c.container_align {
                    Some(a) => a,
                    None => TextAlign::Left,
                };
                seq![
                    RenderSpec::Text {
                        x,
                        y,
                        container_end: end,
                        align,
                        text,
                        color: c.color,
                        font: font_for(text, icons, cjk),
                    },
                ] + row_texts(cells, y, min_int(x + c.span, 96), icons, cjk)
            } else {
                seq![RenderSpec::Glyph { x, y, ch, color: c.color, font: font_for(seq![ch], icons, cjk) }]
                    + row_texts(cells, y, x + 1, icons, cjk)
            },
            CellContent::Svg(_) => seq![RenderSpec::Icon { x, y, color: c.color }] + row_texts(
                cells,
                y,
                x + 1,
                icons,
                cjk,
            ),
            _ => row_texts(cells, y, x + 1, icons, cjk),
        }
    }
}

pub open spec fn backgrounds_from_row<C>(cells: Seq<Cell<C>>, y: int) -> Seq<RenderSpec<C>>
    decreases 54 - y,
{
    if y < 0 || y >= 54 {
        Seq::empty()
    } else {
        row_backgrounds(cells, y, 0) + backgrounds_from_row(cells, y + 1)
    }
}

pub open spec fn texts_from_row<C>(cells: Seq<Cell<C>>, y: int, icons: bool, cjk: bool) -> Seq<RenderSpec<C>>
    decreases 54 - y,
{
    if y < 0 || y >= 54 {
        Seq::empty()
    } else {
        row_texts(cells, y, 0, icons, cjk) + texts_from_row(cells, y + 1, icons, cjk)
    }
}

/// Everything drawn for `cells`: all background blocks, row by row, then all
/// text, glyphs and icons, row by row.
pub open spec fn render_plan_of<C>(cells: Seq<Cell<C>>, icons: bool, cjk: bool) -> Seq<RenderSpec<C>> {
    backgrounds_from_row(cells, 0) + texts_from_row(cells, 0, icons, cjk)
}

/// A cell with a background whose container ends at or left of its column `x`.
pub open spec fn stalls_render<C>(c: Cell<C>, x: int) -> bool {
    match (c.background_color, c.container_end) {
        (Some(_), Some(e)) => e <= x,
        _ => false,
    }
}

/// No cell with a background carries a container that ends at its own column;
/// the renderer would never move past such a cell.
pub open spec fn renders_finitely<C>(cells: Seq<Cell<C>>) -> bool {
    forall|x: int, y: int|
        #![trigger cells[idx(x, y)]]
        in_canvas(x, y) ==> !stalls_render(cells[idx(x, y)], x)
}

proof fn lemma_push_view<C>(s: Seq<RenderItem<C>>, i: RenderItem<C>)
    ensures
        items_view(s.push(i)) == items_view(s).push(item_view(i)),
{
    assert(items_view(s.push(i)) =~= items_view(s).push(item_view(i)));
}

fn is_icon(c: char) -> (r: bool)
    ensures
        r == is_icon_char(c),
{
    let code = c as u32;
    (code >= 0xE000 && code <= 0xF8FF) || code >= 0xF0000
}

fn choose_font(text: &Vec<char>, icons_loaded: bool, cjk_loaded: bool) -> (f: FontChoice)
    ensures
        f == font_for(text@, icons_loaded, cjk_loaded),
{
    let mut has_icon = false;
    let mut i: usize = 0;
    while i < text.len()
        invariant
            i <= text.len(),
            has_icon == exists|j: int| 0 <= j < i && is_icon_char(#[trigger] text@[j]),
        decreases text.len() - i,
    {
        if is_icon(text[i]) {
            has_icon = true;
        }
        i = i + 1;
    }
    if has_icon && icons_loaded {
        FontChoice::Icons
    } else if cjk_loaded {
        FontChoice::Cjk
    } else {
        FontChoice::Builtin
    }
}

/// Whether rendering `canvas` terminates (see `renders_finitely`).
pub fn check_renders_finitely<C: Copy>(canvas: &Canvas<C>) -> (r: bool)
    requires
        canvas.wf(),
    ensures
        r == renders_finitely(canvas.cells()),
{
    let mut y: usize = 0;
    while y < CANVAS_HEIGHT
        invariant
            y <= CANVAS_HEIGHT,
            canvas.wf(),
            forall|xx: int, yy: int|
                #![trigger canvas.cells()[idx(xx, yy)]]
                0 <= xx < 96 && 0 <= yy < y ==> !stalls_render(canvas.cells()[idx(xx, yy)], xx),
        decreases CANVAS_HEIGHT - y,
    {
        let mut x: usize = 0;
        while x < CANVAS_WIDTH
            invariant
                x <= CANVAS_WIDTH,
                y < CANVAS_HEIGHT,
                canvas.wf(),
                forall|xx: int, yy: int|
                    #![trigger canvas.cells()[idx(xx, yy)]]
                    (0 <= xx < 96 && 0 <= yy < y) || (yy == y && 0 <= xx < x) ==> !stalls_render(
                        canvas.cells()[idx(xx, yy)],
                        xx,
                    ),
            decreases CANVAS_WIDTH - x,
        {
            let c = canvas.cell(x, y);
            if c.background_color.is_some() {
                if let Some(e) = c.container_end {
                    if e <= x {
                        return false;
                    }
                }
            }
            x = x + 1;
        }
        y = y + 1;
    }
    true
}

fn push_row_backgrounds<C: Copy>(canvas: &Canvas<C>, y: usize, out: &mut Vec<RenderItem<C>>)
    requires
        canvas.wf(),
        y < CANVAS_HEIGHT,
        renders_finitely(canvas.cells()),
    ensures
        items_view(final(out)@) == items_view(old(out)@) + row_backgrounds(canvas.cells(), y as int, 0),
{
    let ghost cells = canvas.cells();
    let ghost start = items_view(out@);
    let mut x: usize = 0;
    while x < CANVAS_WIDTH
        invariant
            x <= CANVAS_WIDTH,
            y < CANVAS_HEIGHT,
            canvas.wf(),
            cells == canvas.cells(),
            renders_finitely(cells),
            items_view(out@) + row_backgrounds(cells, y as int, x as int) == start + row_backgrounds(
                cells,
                y as int,
                0,
            ),
        decreases CANVAS_WIDTH - x,
    {
        let ghost before = out@;
        let c = canvas.cell(x, y);
        assert(!stalls_render(cells[idx(x as int, y as int)], x as int));
        if let Some(b) = c.background_color {
            if let Some(e) = c.container_end {
                let end = if e < CANVAS_WIDTH { e } else { CANVAS_WIDTH };
                out.push(RenderItem::Background { x, y, width: end - x, color: b });
                proof {
                    lemma_push_view(before, RenderItem::Background { x, y, width: (end - x) as usize, color: b });
                    assert(items_view(out@) + row_backgrounds(cells, y as int, end as int) =~= items_view(before)
                        + row_backgrounds(cells, y as int, x as int));
                }
                x = end;
                continue;
            }
            out.push(RenderItem::Background { x, y, width: 1, color: b });
            proof {
                lemma_push_view(before, RenderItem::Background { x, y, width: 1, color: b });
                assert(items_view(out@) + row_backgrounds(cells, y as int, x + 1) =~= items_view(before)
                    + row_backgrounds(cells, y as int, x as int));
            }
        }
        x = x + 1;
    }
}

fn run_text<C: Copy>(canvas: &Canvas<C>, x: usize, y: usize, ch: char, span: usize) -> (t: Vec<char>)
    requires
        canvas.wf(),
        x < CANVAS_WIDTH,
        y < CANVAS_HEIGHT,
    ensures
        t@ == seq![ch] + run_tail(canvas.cells(), y as int, x as int, 1, span as int),
{
    let ghost cells = canvas.cells();
    let mut text: Vec<char> = Vec::new();
    text.push(ch);
    let mut i: usize = 1;
    while i < span
        invariant
            1 <= i,
            x < CANVAS_WIDTH,
            y < CANVAS_HEIGHT,
            canvas.wf(),
            cells == canvas.cells(),
            text@ + run_tail(cells, y as int, x as int, i as int, span as int) == seq![ch] + run_tail(
                cells,
                y as int,
                x as int,
                1,
                span as int,
            ),
        decreases span - i,
    {
        let ghost before = text@;
        if i < CANVAS_WIDTH - x {
            if let CellContent::Char(next_ch) = canvas.cell(x + i, y).content {
                text.push(next_ch);
                proof {
                    assert(text@ + run_tail(cells, y as int, x as int, i + 1, span as int) =~= before + run_tail(
                        cells,
                        y as int,
                        x as int,
                        i as int,
                        span as int,
                    ));
                }
            }
        }
        i = i + 1;
    }
    text
}

fn push_row_texts<C: Copy>(
    canvas: &Canvas<C>,
    y: usize,
    icons_loaded: bool,
    cjk_loaded: bool,
    out: &mut Vec<RenderItem<C>>,
)
    requires
        canvas.wf(),
        y < CANVAS_HEIGHT,
    ensures
        items_view(final(out)@) == items_view(old(out)@) + row_texts(
            canvas.cells(),
            y as int,
            0,
            icons_loaded,
            cjk_loaded,
        ),
{
    let ghost cells = canvas.cells();
    let ghost start = items_view(out@);
    let mut x: usize = 0;
    while x < CANVAS_WIDTH
        invariant
            x <= CANVAS_WIDTH,
            y < CANVAS_HEIGHT,
            canvas.wf(),
            cells == canvas.cells(),
            items_view(out@) + row_texts(cells, y as int, x as int, icons_loaded, cjk_loaded) == start
                + row_texts(cells, y as int, 0, icons_loaded, cjk_loaded),
        decreases CANVAS_WIDTH - x,
    {
        let ghost before = out@;
        let c = canvas.cell(x, y);
        match &c.content {
            CellContent::Char(ch) => {
                if c.span > 0 {
                    let span = c.span;
                    proof {
                        canvas.lemma_wf_cells();
                    }
                    assert(cells[idx(x as int, y as int)].span + x <= 96);
                    let text = run_text(canvas, x, y, *ch, span);
                    let container_end = match c.container_end {
                        Some(e) => e,
                        None => x + span,
                    };
                    let align = match c.container_align {
                        Some(a) => a,
                        None => TextAlign::Left,
                    };
                    let font = choose_font(&text, icons_loaded, cjk_loaded);
                    let ghost tv = text@;
                    let item = RenderItem::Text { x, y, container_end, align, text, color: c.color, font };
                    proof {
                        assert(item_view(item) == RenderSpec::Text {
                            x: x as int,
                            y: y as int,
                            container_end: container_end as int,
                            align,
                            text: tv,
                            color: c.color,
                            font,
                        });
                    }
                    out.push(item);
                    let next = if x + span < CANVAS_WIDTH { x + span } else { CANVAS_WIDTH };
                    proof {
                        lemma_push_view(before, item);
                        assert(items_view(out@) + row_texts(cells, y as int, next as int, icons_loaded, cjk_loaded)
                            =~= items_view(before) + row_texts(
                            cells,
                            y as int,
                            x as int,
                            icons_loaded,
                            cjk_loaded,
                        ));
                    }
                    x = next;
                } else {
                    let mut single: Vec<char> = Vec::new();
                    single.push(*ch);
                    proof {
                        assert(single@ =~= seq![*ch]);
                    }
                    let font = choose_font(&single, icons_loaded, cjk_loaded);
                    let item = RenderItem::Glyph { x, y, ch: *ch, color: c.color, font };
                    out.push(item);
                    proof {
                        lemma_push_view(before, item);
                        assert(items_view(out@) + row_texts(cells, y as int, x + 1, icons_loaded, cjk_loaded)
                            =~= items_view(before) + row_texts(
                            cells,
                            y as int,
                            x as int,
                            icons_loaded,
                            cjk_loaded,
                        ));
                    }
                    x = x + 1;
                }
            },
            CellContent::Svg(_) => {
                let item = RenderItem::Icon { x, y, color: c.color };
                out.push(item);
                proof {
                    lemma_push_view(before, item);
                    assert(items_view(out@) + row_texts(cells, y as int, x + 1, icons_loaded, cjk_loaded)
                        =~= items_view(before) + row_texts(cells, y as int, x as int, icons_loaded, cjk_loaded));
                }
                x = x + 1;
            },
            _ => {
                x = x + 1;
            },
        }
    }
}

/// What the renderer draws for `canvas` (see `render_plan_of`), given whether
/// the icon and CJK fonts have finished loading.
pub fn render_plan<C: Copy>(canvas: &Canvas<C>, icons_loaded: bool, cjk_loaded: bool) -> (plan: Vec<RenderItem<C>>)
    requires
        canvas.wf(),
        renders_finitely(canvas.cells()),
    ensures
        items_view(plan@) == render_plan_of(canvas.cells(), icons_loaded, cjk_loaded),
{
    let ghost cells = canvas.cells();
    let mut out: Vec<RenderItem<C>> = Vec::new();
    proof {
        assert(items_view(out@) =~= Seq::<RenderSpec<C>>::empty());
    }
    let mut y: usize = 0;
    while y < CANVAS_HEIGHT
        invariant
            y <= CANVAS_HEIGHT,
            canvas.wf(),
            cells == canvas.cells(),
            renders_finitely(cells),
            items_view(out@) + backgrounds_from_row(cells, y as int) == backgrounds_from_row(cells, 0),
        decreases CANVAS_HEIGHT - y,
    {
        let ghost before = items_view(out@);
        push_row_backgrounds(canvas, y, &mut out);
        proof {
            assert(items_view(out@) + backgrounds_from_row(cells, y + 1) =~= before + backgrounds_from_row(
                cells,
                y as int,
            ));
        }
        y = y + 1;
    }
    proof {
        assert(items_view(out@) =~= backgrounds_from_row(cells, 0));
    }
    let ghost bgs = items_view(out@);
    let mut y: usize = 0;
    while y < CANVAS_HEIGHT
        invariant
            y <= CANVAS_HEIGHT,
            canvas.wf(),
            cells == canvas.cells(),
            bgs == backgrounds_from_row(cells, 0),
            items_view(out@) + texts_from_row(cells, y as int, icons_loaded, cjk_loaded) == bgs
                + texts_from_row(cells, 0, icons_loaded, cjk_loaded),
        decreases CANVAS_HEIGHT - y,
    {
        let ghost before = items_view(out@);
        push_row_texts(canvas, y, icons_loaded, cjk_loaded, &mut out);
        proof {
            assert(items_view(out@) + texts_from_row(cells, y + 1, icons_loaded, cjk_loaded) =~= before
                + texts_from_row(cells, y as int, icons_loaded, cjk_loaded));
        }
        y = y + 1;
    }
    proof {
        assert(items_view(out@) =~= render_plan_of(cells, icons_loaded, cjk_loaded));
    }
    out
}


/// Progress of loading the two fonts (CJK text and icons).
#[derive(Debug, Clone, Copy, PartialEq, Eq, Structural)]
pub struct FontLoadState {
    /// Loading was started.
    pub load_attempted: bool,
    pub noto_loaded: bool,
    pub nerd_loaded: bool,
}

impl FontLoadState {
    /// Nothing started or loaded.
    pub fn new() -> (s: Self)
        ensures
            s == (FontLoadState { load_attempted: false, noto_loaded: false, nerd_loaded: false }),
    {
        FontLoadState { load_attempted: false, noto_loaded: false, nerd_loaded: false }
    }

    /// Whether to start loading now: only the first time.
    pub fn begin_load(&mut self) -> (start: bool)
        ensures
            start == !old(self).load_attempted,
            *final(self) == (FontLoadState { load_attempted: true, ..*old(self) }),
    {
        if self.load_attempted {
            return false;
        }
        self.load_attempted = true;
        true
    }

    /// Takes note of which fonts are available now (`noto_ready`,
    /// `nerd_ready`); a font once loaded stays loaded. Returns whether a font
    /// became loaded, in which case the canvas is to be redrawn.
    pub fn check(&mut self, noto_ready: bool, nerd_ready: bool) -> (newly: bool)
        ensures
            final(self).load_attempted == old(self).load_attempted,
            final(self).noto_loaded == (old(self).noto_loaded || noto_ready),
            final(self).nerd_loaded == (old(self).nerd_loaded || nerd_ready),
            newly == ((!old(self).noto_loaded && noto_ready) || (!old(self).nerd_loaded && nerd_ready)),
    {
        if self.noto_loaded && self.nerd_loaded {
            return false;
        }
        let mut any_loaded = false;
        if !self.noto_loaded && noto_ready {
            self.noto_loaded = true;
            any_loaded = true;
        }
        if !self.nerd_loaded && nerd_ready {
            self.nerd_loaded = true;
            any_loaded = true;
        }
        any_loaded
    }
}


proof fn lemma_blank_row<C>(cells: Seq<Cell<C>>, ink: C, y: int, x: int, icons: bool, cjk: bool)
    requires
        cells == Seq::new(5184, |k: int| crate::canvas::blank_cell(ink)),
        0 <= y < 54,
        0 <= x,
    ensures
        row_backgrounds(cells, y, x) == Seq::<RenderSpec<C>>::empty(),
        row_texts(cells, y, x, icons, cjk) == Seq::<RenderSpec<C>>::empty(),
    decreases 96 - x,
{
    if x < 96 {
        assert(0 <= idx(x, y) < 5184) by {
            assert(idx(x, y) == y * 96 + x);
            assert(y * 96 <= 53 * 96) by (nonlinear_arith)
                requires
                    y <= 53,
            ;
        }
        lemma_blank_row(cells, ink, y, x + 1, icons, cjk);
    }
}

proof fn lemma_blank_rows<C>(cells: Seq<Cell<C>>, ink: C, y: int, icons: bool, cjk: bool)
    requires
        cells == Seq::new(5184, |k: int| crate::canvas::blank_cell(ink)),
        0 <= y,
    ensures
        backgrounds_from_row(cells, y) == Seq::<RenderSpec<C>>::empty(),
        texts_from_row(cells, y, icons, cjk) == Seq::<RenderSpec<C>>::empty(),
    decreases 54 - y,
{
    if y < 54 {
        lemma_blank_row(cells, ink, y, 0, icons, cjk);
        lemma_blank_rows(cells, ink, y + 1, icons, cjk);
        assert(Seq::<RenderSpec<C>>::empty() + Seq::<RenderSpec<C>>::empty() =~= Seq::<RenderSpec<C>>::empty());
    }
}

/// A cleared canvas draws nothing: no backgrounds, no text.
pub proof fn lemma_blank_canvas_renders_nothing<C>(ink: C, icons: bool, cjk: bool)
    ensures
        render_plan_of(Seq::new(5184, |k: int| crate::canvas::blank_cell(ink)), icons, cjk)
            == Seq::<RenderSpec<C>>::empty(),
{
    let cells = Seq::new(5184, |k: int| crate::canvas::blank_cell(ink));
    lemma_blank_rows(cells, ink, 0, icons, cjk);
    assert(Seq::<RenderSpec<C>>::empty() + Seq::<RenderSpec<C>>::empty() =~= Seq::<RenderSpec<C>>::empty());
}

/// Some character of `text`, at any position, lies in the icon font's
/// private-use ranges.
pub open spec fn holds_icon_char(text: Seq<char>) -> bool {
    exists|i: int| 0 <= i < text.len() && is_icon_char(#[trigger] text[i])
}

/// Whether a planned item's font follows its characters: text holding a
/// character of the icon font's private-use ranges uses that font once it is
/// loaded; other text uses the CJK font once loaded, else the built-in one.
spec fn font_follows_chars<C>(item: RenderSpec<C>, icons: bool, cjk: bool) -> bool {
    match item {
        RenderSpec::Text { text, font, .. } => {
            &&& (icons && holds_icon_char(text)) ==> font
                == FontChoice::Icons
            &&& !(icons && holds_icon_char(text)) ==> font == (
            if cjk {
                FontChoice::Cjk
            } else {
                FontChoice::Builtin
            })
        },
        RenderSpec::Glyph { ch, font, .. } => {
            &&& (icons && is_icon_char(ch)) ==> font == FontChoice::Icons
            &&& !(icons && is_icon_char(ch)) ==> font == (if cjk {
                FontChoice::Cjk
            } else {
                FontChoice::Builtin
            })
        },
        _ => true,
    }
}

spec fn fonts_follow_chars<C>(s: Seq<RenderSpec<C>>, icons: bool, cjk: bool) -> bool {
    forall|k: int| 0 <= k < s.len() ==> font_follows_chars(#[trigger] s[k], icons, cjk)
}

proof fn lemma_fonts_concat<C>(a: Seq<RenderSpec<C>>, b: Seq<RenderSpec<C>>, icons: bool, cjk: bool)
    requires
        fonts_follow_chars(a, icons, cjk),
        fonts_follow_chars(b, icons, cjk),
    ensures
        fonts_follow_chars(a + b, icons, cjk),
{
    assert forall|k: int| 0 <= k < (a + b).len() implies font_follows_chars(#[trigger] (a + b)[k], icons, cjk) by {
        if k < a.len() {
            assert((a + b)[k] == a[k]);
        } else {
            assert((a + b)[k] == b[k - a.len()]);
        }
    }
}

proof fn lemma_row_backgrounds_fonts<C>(cells: Seq<Cell<C>>, y: int, x: int, icons: bool, cjk: bool)
    ensures
        fonts_follow_chars(row_backgrounds(cells, y, x), icons, cjk),
    decreases 96 - x,
{
    if x < 0 || x >= 96 {
    } else {
        let c = cells[idx(x, y)];
        match c.background_color {
            Some(b) => match c.container_end {
                Some(e) => {
                    let end = min_int(e as int, 96);
                    if end > x {
                        lemma_row_backgrounds_fonts(cells, y, end, icons, cjk);
                        lemma_fonts_concat(
                            seq![RenderSpec::Background { x, y, width: end - x, color: b }],
                            row_backgrounds(cells, y, end),
                            icons,
                            cjk,
                        );
                    }
                },
                None => {
                    lemma_row_backgrounds_fonts(cells, y, x + 1, icons, cjk);
                    lemma_fonts_concat(
                        seq![RenderSpec::Background { x, y, width: 1, color: b }],
                        row_backgrounds(cells, y, x + 1),
                        icons,
                        cjk,
                    );
                },
            },
            None => {
                lemma_row_backgrounds_fonts(cells, y, x + 1, icons, cjk);
            },
        }
    }
}

proof fn lemma_row_texts_fonts<C>(cells: Seq<Cell<C>>, y: int, x: int, icons: bool, cjk: bool)
    ensures
        fonts_follow_chars(row_texts(cells, y, x, icons, cjk), icons, cjk),
    decreases 96 - x,
{
    if x < 0 || x >= 96 {
    } else {
        let c = cells[idx(x, y)];
        match c.content {
            CellContent::Char(ch) => if c.span > 0 {
                let text = seq![ch] + run_tail(cells, y, x, 1, c.span as int);
                let rest = row_texts(cells, y, min_int(x + c.span, 96), icons, cjk);
                lemma_row_texts_fonts(cells, y, min_int(x + c.span, 96), icons, cjk);
                let end = match c.container_end {
                    Some(e) => e as int,
                    None => x + c.span,
                };
                let align = match c.container_align {
                    Some(a) => a,
                    None => TextAlign::Left,
                };
                let first = RenderSpec::Text {
                    x,
                    y,
                    container_end: end,
                    align,
                    text,
                    color: c.color,
                    font: font_for(text, icons, cjk),
                };
                assert(row_texts(cells, y, x, icons, cjk) == seq![first] + rest);
                assert(font_follows_chars(first, icons, cjk));
                lemma_fonts_concat(seq![first], rest, icons, cjk);
            } else {
                let rest = row_texts(cells, y, x + 1, icons, cjk);
                lemma_row_texts_fonts(cells, y, x + 1, icons, cjk);
                let first = row_texts(cells, y, x, icons, cjk)[0];
                assert(seq![ch][0] == ch);
                if is_icon_char(ch) {
                    assert(is_icon_char(seq![ch][0]));
                } else {
                    assert(forall|i: int| 0 <= i < 1 ==> !is_icon_char(#[trigger] seq![ch][i]));
                }
                assert(font_follows_chars(first, icons, cjk));
                lemma_fonts_concat(seq![first], rest, icons, cjk);
                assert(row_texts(cells, y, x, icons, cjk) == seq![first] + rest);
            },
            CellContent::Svg(_) => {
                lemma_row_texts_fonts(cells, y, x + 1, icons, cjk);
                lemma_fonts_concat(
                    seq![RenderSpec::Icon { x, y, color: c.color }],
                    row_texts(cells, y, x + 1, icons, cjk),
                    icons,
                    cjk,
                );
            },
            _ => {
                lemma_row_texts_fonts(cells, y, x + 1, icons, cjk);
            },
        }
    }
}

proof fn lemma_rows_fonts<C>(cells: Seq<Cell<C>>, y: int, icons: bool, cjk: bool)
    ensures
        fonts_follow_chars(backgrounds_from_row(cells, y), icons, cjk),
        fonts_follow_chars(texts_from_row(cells, y, icons, cjk), icons, cjk),
    decreases 54 - y,
{
    if 0 <= y < 54 {
        lemma_row_backgrounds_fonts(cells, y, 0, icons, cjk);
        lemma_row_texts_fonts(cells, y, 0, icons, cjk);
        lemma_rows_fonts(cells, y + 1, icons, cjk);
        lemma_fonts_concat(row_backgrounds(cells, y, 0), backgrounds_from_row(cells, y + 1), icons, cjk);
        lemma_fonts_concat(row_texts(cells, y, 0, icons, cjk), texts_from_row(cells, y + 1, icons, cjk), icons, cjk);
    }
}

/// Every text run and glyph of the plan is drawn in the font its characters
/// need: when any character of it, at any position, lies in the icon font's
/// private-use ranges and that font is loaded, the icon font; otherwise the
/// CJK font when it is loaded, else the built-in font.
pub proof fn lemma_plan_fonts_follow_chars<C>(cells: Seq<Cell<C>>, icons: bool, cjk: bool)
    ensures
        forall|k: int|
            0 <= k < render_plan_of(cells, icons, cjk).len() ==> match #[trigger] render_plan_of(cells, icons, cjk)[k] {
                RenderSpec::Text { text, font, .. } => {
                    &&& (icons && holds_icon_char(text)) ==> font
                        == FontChoice::Icons
                    &&& !(icons && holds_icon_char(text)) ==> font
                        == (if cjk {
                        FontChoice::Cjk
                    } else {
                        FontChoice::Builtin
                    })
                },
                RenderSpec::Glyph { ch, font, .. } => {
                    &&& (icons && is_icon_char(ch)) ==> font == FontChoice::Icons
                    &&& !(icons && is_icon_char(ch)) ==> font == (if cjk {
                        FontChoice::Cjk
                    } else {
                        FontChoice::Builtin
                    })
                },
                _ => true,
            },
{
    lemma_rows_fonts(cells, 0, icons, cjk);
    lemma_fonts_concat(backgrounds_from_row(cells, 0), texts_from_row(cells, 0, icons, cjk), icons, cjk);
    let p = render_plan_of(cells, icons, cjk);
    assert forall|k: int| 0 <= k < p.len() implies font_follows_chars(#[trigger] p[k], icons, cjk) by {}
}

} // verus!

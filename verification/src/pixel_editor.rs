//! The pixel editor: a 16×16 icon painted with square brushes in the theme's
//! palette, exported as `#rrggbb` pixel lists and imported back.

use vstd::prelude::*;
use vstd::string::*;
use vstd::utf8::*;
use crate::hex::{Rgb8, Rgba8, opaque, to_rgba, hex_rgb, fields_on_boundaries, rgb_hex, rgb_to_hex, hex_to_rgb, lemma_hex_roundtrip};
use crate::fmt::{decimal, push_decimal};
use crate::canvas::{CanvasCommand, DrawOp, TextAlign, ops_of, push_clear_rect, push_set_line, push_set_line_with_bg, push_set_char_with_bg, push_fill_rect_with_bg};

verus! {

/// The icon is `ICON_SIZE` pixels square.
pub const ICON_SIZE: usize = 16;
/// Each icon pixel is drawn as a square of `CELLS_PER_PIXEL` cells.
pub const CELLS_PER_PIXEL: usize = 2;
/// Top-left cell of the icon area.
pub const ICON_X: usize = 2;
pub const ICON_Y: usize = 2;
/// Size of the icon area in cells.
pub const ICON_CELL_W: usize = 32;
pub const ICON_CELL_H: usize = 32;
/// The box showing the selected colour.
pub const SELECTED_BOX_X: usize = 38;
pub const SELECTED_BOX_Y: usize = 2;
pub const SELECTED_BOX_SIZE: usize = 2;
/// The palette grid: 2×2-cell slots, eight per row.
pub const PALETTE_GRID_X: usize = 38;
pub const PALETTE_GRID_Y: usize = 6;
pub const PALETTE_SLOT_SIZE: usize = 2;
pub const PALETTE_SLOT_COLS: usize = 8;
/// The brush row: sizes 1 to 8, two cells each (number, then mark).
pub const BRUSH_ROW_Y: usize = 18;
pub const BRUSH_ROW_X: usize = 38;
pub const BRUSH_ITEM_WIDTH: usize = 2;
pub const BRUSH_SIZES: usize = 8;
/// The export, import and back buttons.
pub const BTN_EXPORT_Y: usize = 40;
pub const BTN_IMPORT_Y: usize = 42;
pub const BTN_BACK_Y: usize = 44;
pub const BTN_X_START: usize = 2;
pub const BTN_X_END: usize = 30;
/// Rows above the status bar.
pub const STATUS_ROW_TOP: usize = 52;

/// One pixel of an export: its position and `#rrggbb` colour.
pub struct PixelData {
    pub x: usize,
    pub y: usize,
    pub color: String,
}

/// An exported icon: its name, if it has one, and its pixels.
pub struct IconExport {
    pub name: Option<String>,
    pub pixels: Vec<PixelData>,
}

/// A named palette colour.
pub struct PaletteEntry(pub String, pub Rgb8);

/// The editor's buttons.
#[derive(Debug, Clone, Copy, PartialEq, Eq, Structural)]
pub enum EditorButton {
    Export,
    Import,
    Back,
}

/// The editor's state. `pixels` holds the icon row by row (`y * 16 + x`); the
/// `prev_*` fields remember what was drawn.
pub struct PixelEditorState {
    pub pixels: Vec<Rgb8>,
    pub selected_palette_index: usize,
    pub icon_name: String,
    pub prev_selected: usize,
    pub prev_pixels: Vec<Rgb8>,
    pub hovered_icon_pixel: Option<(usize, usize)>,
    pub hovered_palette_index: Option<usize>,
    pub prev_hovered_icon: Option<(usize, usize)>,
    pub prev_hovered_palette: Option<usize>,
    /// Brush side, 1 to 8.
    pub brush_size: usize,
    pub prev_brush_size: usize,
}

/// The dark grey of an unpainted pixel.
pub open spec fn blank_pixel() -> Rgb8 {
    Rgb8 { r: 26, g: 26, b: 31 }
}

/// The colour of an unpainted pixel.
pub fn default_pixel() -> (c: Rgb8)
    ensures
        c == blank_pixel(),
{
    Rgb8 { r: 26, g: 26, b: 31 }
}

/// The icon pixel under cell `(x, y)`.
pub open spec fn icon_pixel_at(x: int, y: int) -> Option<(usize, usize)> {
    if 2 <= x < 34 && 2 <= y < 34 {
        Some((((x - 2) / 2) as usize, ((y - 2) / 2) as usize))
    } else {
        None
    }
}

/// Maps a cell to the icon pixel it shows (each pixel is 2×2 cells).
pub fn cell_to_icon_pixel(x: usize, y: usize) -> (p: Option<(usize, usize)>)
    ensures
        p == icon_pixel_at(x as int, y as int),
{
    if x < ICON_X || x >= ICON_X + ICON_CELL_W || y < ICON_Y || y >= ICON_Y + ICON_CELL_H {
        return None;
    }
    let px = (x - ICON_X) / CELLS_PER_PIXEL;
    let py = (y - ICON_Y) / CELLS_PER_PIXEL;
    if px < ICON_SIZE && py < ICON_SIZE {
        Some((px, py))
    } else {
        None
    }
}

/// Whether `(x, y)` is on the selected-colour box (shown only; clicks do nothing).
pub fn cell_in_selected_box(x: usize, y: usize) -> (r: bool)
    ensures
        r == (38 <= x < 40 && 2 <= y < 4),
{
    x >= SELECTED_BOX_X && x < SELECTED_BOX_X + SELECTED_BOX_SIZE && y >= SELECTED_BOX_Y && y
        < SELECTED_BOX_Y + SELECTED_BOX_SIZE
}

/// Whether the palette slot number under `(x, y)` fits a machine word.
pub open spec fn palette_index_fits(x: int, y: int) -> bool {
    x < 38 || y < 6 || (x - 38) / 2 >= 8 || ((y - 6) / 2) * 8 + (x - 38) / 2 <= usize::MAX
}

/// Whether the palette slot number under `(x, y)` fits a machine word (see
/// `palette_index_fits`); always so on the canvas.
pub fn palette_slot_fits(x: usize, y: usize) -> (r: bool)
    ensures
        r == palette_index_fits(x as int, y as int),
{
    if x < PALETTE_GRID_X || y < PALETTE_GRID_Y {
        return true;
    }
    let col = (x - PALETTE_GRID_X) / PALETTE_SLOT_SIZE;
    if col >= PALETTE_SLOT_COLS {
        return true;
    }
    let row = (y - PALETTE_GRID_Y) / PALETTE_SLOT_SIZE;
    row <= (usize::MAX - col) / 8
}

/// The palette entry under `(x, y)` for a palette of `len` colours.
pub open spec fn palette_index_at(x: int, y: int, len: int) -> Option<usize> {
    if x < 38 || y < 6 || (x - 38) / 2 >= 8 {
        None
    } else {
        let idx = ((y - 6) / 2) * 8 + (x - 38) / 2;
        if idx < len {
            Some(idx as usize)
        } else {
            None
        }
    }
}

/// Maps a cell to a palette index (the grid only, not the selected box).
pub fn cell_to_palette_index(x: usize, y: usize, entries_len: usize) -> (i: Option<usize>)
    requires
        palette_index_fits(x as int, y as int),
    ensures
        i == palette_index_at(x as int, y as int, entries_len as int),
{
    if x < PALETTE_GRID_X || y < PALETTE_GRID_Y {
        return None;
    }
    let cell_col = x - PALETTE_GRID_X;
    let cell_row = y - PALETTE_GRID_Y;
    let slot_col = cell_col / PALETTE_SLOT_SIZE;
    let slot_row = cell_row / PALETTE_SLOT_SIZE;
    if slot_col >= PALETTE_SLOT_COLS {
        return None;
    }
    let idx = slot_row * PALETTE_SLOT_COLS + slot_col;
    if idx < entries_len {
        Some(idx)
    } else {
        None
    }
}

/// The brush size picked at `(x, y)`.
pub open spec fn brush_size_at(x: int, y: int) -> Option<usize> {
    if y != 18 || x < 38 || x - 38 >= 16 {
        None
    } else {
        Some(((x - 38) / 2 + 1) as usize)
    }
}

/// Maps a cell of the brush row to a brush size 1 to 8.
pub fn cell_to_brush_size(x: usize, y: usize) -> (s: Option<usize>)
    ensures
        s == brush_size_at(x as int, y as int),
{
    if y != BRUSH_ROW_Y || x < BRUSH_ROW_X {
        return None;
    }
    let col = x - BRUSH_ROW_X;
    if col >= BRUSH_SIZES * BRUSH_ITEM_WIDTH {
        return None;
    }
    Some(col / BRUSH_ITEM_WIDTH + 1)
}

/// The button at `(x, y)`.
pub open spec fn editor_button_at(x: int, y: int) -> Option<EditorButton> {
    if x < 2 || x >= 30 {
        None
    } else if y == 40 {
        Some(EditorButton::Export)
    } else if y == 42 {
        Some(EditorButton::Import)
    } else if y == 44 {
        Some(EditorButton::Back)
    } else {
        None
    }
}

/// Maps a cell to an editor button.
pub fn cell_to_editor_button(x: usize, y: usize) -> (b: Option<EditorButton>)
    ensures
        b == editor_button_at(x as int, y as int),
{
    if x < BTN_X_START || x >= BTN_X_END {
        return None;
    }
    if y == BTN_EXPORT_Y {
        Some(EditorButton::Export)
    } else if y == BTN_IMPORT_Y {
        Some(EditorButton::Import)
    } else if y == BTN_BACK_Y {
        Some(EditorButton::Back)
    } else {
        None
    }
}

/// The brush side actually used: the brush size clamped to 1..=8.
pub open spec fn brush_side(b: usize) -> int {
    if b < 1 {
        1
    } else if b > 8 {
        8
    } else {
        b as int
    }
}

/// The first row or column of a brush stamp of side `sz` centred on `p`,
/// moved inside the icon.
pub open spec fn stamp_origin(p: int, sz: int) -> int {
    let a = if p >= sz / 2 {
        p - sz / 2
    } else {
        0
    };
    if a <= 16 - sz {
        a
    } else {
        16 - sz
    }
}

/// Whether pixel `(x, y)` is under the brush stamp at `(px, py)`.
pub open spec fn in_stamp(x: int, y: int, px: int, py: int, brush: usize) -> bool {
    let sz = brush_side(brush);
    let x0 = stamp_origin(px, sz);
    let y0 = stamp_origin(py, sz);
    x0 <= x < x0 + sz && y0 <= y < y0 + sz
}

/// The icon after stamping colour `c` with the brush at `(px, py)`.
pub open spec fn painted(old: Seq<Rgb8>, px: int, py: int, brush: usize, c: Rgb8) -> Seq<Rgb8> {
    Seq::new(256, |k: int| if in_stamp(k % 16, k / 16, px, py, brush) { c } else { old[k] })
}

/// The colour of palette entry `i`, or the blank pixel colour when there is none.
pub open spec fn selected_color(palette: Seq<PaletteEntry>, i: usize) -> Rgb8 {
    if i < palette.len() {
        palette[i as int].1
    } else {
        blank_pixel()
    }
}

/// What the pointer at `(x, y)` hovers: an icon pixel or a palette entry.
pub open spec fn editor_hover_at(x: int, y: int, len: int) -> (Option<(usize, usize)>, Option<usize>) {
    if palette_index_at(x, y, len) is Some {
        (None, palette_index_at(x, y, len))
    } else if 38 <= x < 40 && 2 <= y < 4 {
        (None, None)
    } else if icon_pixel_at(x, y) is Some {
        (icon_pixel_at(x, y), None)
    } else {
        (None, None)
    }
}

/// The status-bar text for the pointer at `(x, y)`, in order of precedence:
/// the palette colour's name, the selected colour, a pixel, a brush size, a button.
pub open spec fn editor_hover_text(palette: Seq<PaletteEntry>, sel: usize, x: int, y: int) -> Option<Seq<char>> {
    let p = palette_index_at(x, y, palette.len() as int);
    if p is Some {
        Some(palette[p->0 as int].0@)
    } else if 38 <= x < 40 && 2 <= y < 4 {
        Some(
            if sel < palette.len() {
                "当前: "@ + palette[sel as int].0@
            } else {
                "当前颜色"@
            },
        )
    } else if icon_pixel_at(x, y) is Some {
        Some("像素"@)
    } else if brush_size_at(x, y) is Some {
        let n = decimal(brush_size_at(x, y)->0 as nat);
        Some("画笔 "@ + n + "×"@ + n)
    } else if editor_button_at(x, y) is Some {
        Some(
            match editor_button_at(x, y)->0 {
                EditorButton::Export => "导出到剪贴板"@,
                EditorButton::Import => "从剪贴板导入"@,
                EditorButton::Back => "返回主菜单"@,
            },
        )
    } else {
        None
    }
}

/// The view of an optional text.
pub open spec fn opt_text(t: Option<String>) -> Option<Seq<char>> {
    match t {
        Some(s) => Some(s@),
        None => None,
    }
}

/// The export of `s`: its name (none when empty) and all 256 pixels row by
/// row, pixel `k` at `(k % 16, k / 16)` in `#rrggbb`.
pub open spec fn is_export_of(e: IconExport, s: PixelEditorState) -> bool {
    &&& (if s.icon_name@.len() == 0 {
        e.name is None
    } else {
        e.name matches Some(n) && n@ == s.icon_name@
    })
    &&& e.pixels@.len() == 256
    &&& forall|k: int|
        #![trigger e.pixels@[k]]
        0 <= k < 256 ==> e.pixels@[k].x == k % 16 && e.pixels@[k].y == k / 16 && e.pixels@[k].color@
            == rgb_hex(s.pixels@[k])
}

/// Whether every colour of an import can be read without splitting a character.
pub open spec fn import_readable(data: Seq<PixelData>) -> bool {
    forall|k: int| 0 <= k < data.len() ==> fields_on_boundaries(encode_utf8(#[trigger] data[k].color@))
}

/// The icon after importing `data` in order: each entry inside the icon with
/// a readable colour sets its pixel; later entries win.
pub open spec fn import_pixels(px: Seq<Rgb8>, data: Seq<PixelData>) -> Seq<Rgb8>
    decreases data.len(),
{
    if data.len() == 0 {
        px
    } else {
        let p = import_pixels(px, data.drop_last());
        let d = data.last();
        let c = hex_rgb(encode_utf8(d.color@));
        if d.x < 16 && d.y < 16 && c is Some {
            p.update(d.y * 16 + d.x, c->0)
        } else {
            p
        }
    }
}

/// `s` with what is drawn recorded as drawn.
pub open spec fn editor_drawn(s: PixelEditorState) -> PixelEditorState {
    PixelEditorState {
        prev_pixels: s.prev_pixels,
        prev_selected: s.selected_palette_index,
        prev_hovered_icon: s.hovered_icon_pixel,
        prev_hovered_palette: s.hovered_palette_index,
        prev_brush_size: s.brush_size,
        ..s
    }
}

/// Whether anything shown changed since the last drawing.
pub open spec fn editor_changed(s: PixelEditorState) -> bool {
    s.pixels@ != s.prev_pixels@ || s.selected_palette_index != s.prev_selected || s.hovered_icon_pixel
        != s.prev_hovered_icon || s.hovered_palette_index != s.prev_hovered_palette || s.brush_size
        != s.prev_brush_size
}

fn copy_pixels(v: &Vec<Rgb8>) -> (r: Vec<Rgb8>)
    ensures
        r@ == v@,
{
    let mut r: Vec<Rgb8> = Vec::new();
    let mut i: usize = 0;
    while i < v.len()
        invariant
            i <= v@.len(),
            r@ == v@.take(i as int),
        decreases v@.len() - i,
    {
        r.push(v[i]);
        proof {
            assert(r@ =~= v@.take(i + 1));
        }
        i = i + 1;
    }
    proof {
        assert(v@.take(v@.len() as int) =~= v@);
    }
    r
}

fn same_pixel(a: Option<(usize, usize)>, b: Option<(usize, usize)>) -> (r: bool)
    ensures
        r == (a == b),
{
    match (a, b) {
        (Some((ax, ay)), Some((bx, by))) => ax == bx && ay == by,
        (None, None) => true,
        _ => false,
    }
}

fn same_index(a: Option<usize>, b: Option<usize>) -> (r: bool)
    ensures
        r == (a == b),
{
    match (a, b) {
        (Some(x), Some(y)) => x == y,
        (None, None) => true,
        _ => false,
    }
}

proof fn lemma_import_export_prefix(s: PixelEditorState, e: IconExport, px: Seq<Rgb8>, n: int)
    requires
        s.wf(),
        is_export_of(e, s),
        px.len() == 256,
        0 <= n <= 256,
    ensures
        import_pixels(px, e.pixels@.take(n)) == Seq::new(256, |k: int| if k < n { s.pixels@[k] } else { px[k] }),
    decreases n,
{
    if n == 0 {
        assert(e.pixels@.take(0) =~= Seq::<PixelData>::empty());
        assert(px =~= Seq::new(256, |k: int| if k < 0 { s.pixels@[k] } else { px[k] }));
    } else {
        lemma_import_export_prefix(s, e, px, n - 1);
        let d = e.pixels@.take(n);
        assert(d.drop_last() =~= e.pixels@.take(n - 1));
        let entry = e.pixels@[n - 1];
        assert(d.last() == entry);
        lemma_hex_roundtrip(s.pixels@[n - 1]);
        assert(entry.y * 16 + entry.x == n - 1);
        assert(import_pixels(px, d) =~= Seq::new(256, |k: int| if k < n { s.pixels@[k] } else { px[k] }));
    }
}

/// Importing an export of `s` restores every pixel of `s`, whatever the icon
/// held before.
pub proof fn lemma_import_of_export(s: PixelEditorState, e: IconExport, px: Seq<Rgb8>)
    requires
        s.wf(),
        is_export_of(e, s),
        px.len() == 256,
    ensures
        import_pixels(px, e.pixels@) == s.pixels@,
        import_readable(e.pixels@),
{
    lemma_import_export_prefix(s, e, px, 256);
    assert(e.pixels@.take(256) =~= e.pixels@);
    assert(Seq::new(256, |k: int| if k < 256 { s.pixels@[k] } else { px[k] }) =~= s.pixels@);
    assert forall|k: int| 0 <= k < e.pixels@.len() implies fields_on_boundaries(
        encode_utf8(#[trigger] e.pixels@[k].color@),
    ) by {
        lemma_hex_roundtrip(s.pixels@[k]);
    }
}

impl PixelEditorState {
    /// Both pixel buffers hold 16×16 pixels.
    pub open spec fn wf(&self) -> bool {
        &&& self.pixels@.len() == 256
        &&& self.prev_pixels@.len() == 256
    }

    /// A blank icon, palette entry 0, brush 1, nothing drawn yet.
    pub fn new() -> (s: Self)
        ensures
            s.wf(),
            s.pixels@ == Seq::new(256, |k: int| blank_pixel()),
            s.prev_pixels@ == s.pixels@,
            s.selected_palette_index == 0,
            s.icon_name@.len() == 0,
            s.prev_selected == 999,
            s.hovered_icon_pixel is None,
            s.hovered_palette_index is None,
            s.prev_hovered_icon is None,
            s.prev_hovered_palette is None,
            s.brush_size == 1,
            s.prev_brush_size == 0,
    {
        let mut pixels: Vec<Rgb8> = Vec::new();
        let mut i: usize = 0;
        while i < 256
            invariant
                i <= 256,
                pixels@ == Seq::new(i as nat, |k: int| blank_pixel()),
            decreases 256 - i,
        {
            pixels.push(default_pixel());
            proof {
                assert(pixels@ =~= Seq::new((i + 1) as nat, |k: int| blank_pixel()));
            }
            i = i + 1;
        }
        let prev_pixels = copy_pixels(&pixels);
        PixelEditorState {
            pixels,
            selected_palette_index: 0,
            icon_name: String::new(),
            prev_selected: 999,
            prev_pixels,
            hovered_icon_pixel: None,
            hovered_palette_index: None,
            prev_hovered_icon: None,
            prev_hovered_palette: None,
            brush_size: 1,
            prev_brush_size: 0,
        }
    }

    /// Whether anything shown changed since the last drawing (see `editor_changed`).
    pub fn pixels_changed(&self) -> (r: bool)
        requires
            self.wf(),
        ensures
            r == editor_changed(*self),
    {
        let mut same = true;
        let mut i: usize = 0;
        while i < 256
            invariant
                self.wf(),
                i <= 256,
                same == (forall|j: int| 0 <= j < i ==> self.pixels@[j] == self.prev_pixels@[j]),
            decreases 256 - i,
        {
            same = same && self.pixels[i] == self.prev_pixels[i];
            i = i + 1;
        }
        proof {
            if same {
                assert(self.pixels@ =~= self.prev_pixels@);
            }
        }
        !same || self.selected_palette_index != self.prev_selected || !same_pixel(
            self.hovered_icon_pixel,
            self.prev_hovered_icon,
        ) || !same_index(self.hovered_palette_index, self.prev_hovered_palette)
            || self.brush_size != self.prev_brush_size
    }

    /// Records what is shown as drawn.
    pub fn mark_drawn(&mut self)
        requires
            old(self).wf(),
        ensures
            *final(self) == (PixelEditorState { prev_pixels: final(self).prev_pixels, ..editor_drawn(*old(self)) }),
            final(self).prev_pixels@ == old(self).pixels@,
            final(self).wf(),
    {
        self.prev_pixels = copy_pixels(&self.pixels);
        self.prev_selected = self.selected_palette_index;
        self.prev_hovered_icon = self.hovered_icon_pixel;
        self.prev_hovered_palette = self.hovered_palette_index;
        self.prev_brush_size = self.brush_size;
    }

    /// Starts a frame: when anything shown changed, records it as drawn and
    /// returns `true` (the editor is then redrawn); otherwise changes nothing.
    pub fn begin_draw(&mut self) -> (redraw: bool)
        requires
            old(self).wf(),
        ensures
            final(self).wf(),
            redraw == editor_changed(*old(self)),
            redraw ==> *final(self) == (PixelEditorState { prev_pixels: final(self).prev_pixels, ..editor_drawn(*old(self)) })
                && final(self).prev_pixels@ == old(self).pixels@,
            !redraw ==> *final(self) == *old(self),
    {
        if !self.pixels_changed() {
            return false;
        }
        self.mark_drawn();
        true
    }

    /// Stamps colour `c` with the current brush at icon pixel `(px, py)`.
    fn paint(&mut self, px: usize, py: usize, c: Rgb8)
        requires
            old(self).wf(),
            px < 16,
            py < 16,
        ensures
            final(self).wf(),
            *final(self) == (PixelEditorState { pixels: final(self).pixels, ..*old(self) }),
            final(self).pixels@ == painted(old(self).pixels@, px as int, py as int, old(self).brush_size, c),
    {
        let sz: usize = if self.brush_size < 1 { 1 } else if self.brush_size > 8 { 8 } else { self.brush_size };
        let half = sz / 2;
        let mut x0 = if px >= half { px - half } else { 0 };
        let mut y0 = if py >= half { py - half } else { 0 };
        if x0 > ICON_SIZE - sz {
            x0 = ICON_SIZE - sz;
        }
        if y0 > ICON_SIZE - sz {
            y0 = ICON_SIZE - sz;
        }
        let ghost old_px = self.pixels@;
        let ghost orig = *self;
        let mut k: usize = 0;
        while k < 256
            invariant
                k <= 256,
                *self == (PixelEditorState { pixels: self.pixels, ..orig }),
                self.pixels@.len() == 256,
                self.prev_pixels@.len() == 256,
                old_px.len() == 256,
                sz == brush_side(self.brush_size),
                x0 == stamp_origin(px as int, sz as int),
                y0 == stamp_origin(py as int, sz as int),
                forall|j: int|
                    0 <= j < 256 ==> #[trigger] self.pixels@[j] == (if j < k && in_stamp(
                        j % 16,
                        j / 16,
                        px as int,
                        py as int,
                        self.brush_size,
                    ) {
                        c
                    } else {
                        old_px[j]
                    }),
            decreases 256 - k,
        {
            let x = k % 16;
            let y = k / 16;
            if x0 <= x && x < x0 + sz && y0 <= y && y < y0 + sz {
                self.pixels.set(k, c);
            }
            k = k + 1;
        }
        proof {
            assert(self.pixels@ =~= painted(old_px, px as int, py as int, self.brush_size, c));
        }
    }

    fn set_hover(&mut self, icon: Option<(usize, usize)>, palette: Option<usize>)
        ensures
            *final(self) == (PixelEditorState { hovered_icon_pixel: icon, hovered_palette_index: palette, ..*old(self) }),
    {
        self.hovered_icon_pixel = icon;
        self.hovered_palette_index = palette;
    }

    /// The pointer moved to `cell` (`None`: off the canvas). Updates the hover
    /// and returns the status-bar text (see `editor_hover_text`).
    pub fn on_hover(&mut self, cell: Option<(usize, usize)>, palette: &Vec<PaletteEntry>) -> (text: Option<String>)
        requires
            cell matches Some((x, y)) ==> palette_index_fits(x as int, y as int),
        ensures
            *final(self) == (PixelEditorState {
                hovered_icon_pixel: final(self).hovered_icon_pixel,
                hovered_palette_index: final(self).hovered_palette_index,
                ..*old(self)
            }),
            (final(self).hovered_icon_pixel, final(self).hovered_palette_index) == (match cell {
                Some((x, y)) => editor_hover_at(x as int, y as int, palette@.len() as int),
                None => (None, None),
            }),
            opt_text(text) == (match cell {
                Some((x, y)) => editor_hover_text(palette@, old(self).selected_palette_index, x as int, y as int),
                None => None,
            }),
    {
        match cell {
            None => {
                self.set_hover(None, None);
                None
            },
            Some((x, y)) => {
                if let Some(idx) = cell_to_palette_index(x, y, palette.len()) {
                    self.set_hover(None, Some(idx));
                    Some(palette[idx].0.clone())
                } else if cell_in_selected_box(x, y) {
                    self.set_hover(None, None);
                    let idx = self.selected_palette_index;
                    if idx < palette.len() {
                        let mut s = String::from_str("当前: ");
                        s.append(palette[idx].0.as_str());
                        proof {
                            reveal_strlit("当前: ");
                        }
                        Some(s)
                    } else {
                        Some(String::from_str("当前颜色"))
                    }
                } else if let Some((px, py)) = cell_to_icon_pixel(x, y) {
                    self.set_hover(Some((px, py)), None);
                    Some(String::from_str("像素"))
                } else if let Some(size) = cell_to_brush_size(x, y) {
                    self.set_hover(None, None);
                    let mut s = String::from_str("画笔 ");
                    push_decimal(&mut s, size);
                    s.append("×");
                    push_decimal(&mut s, size);
                    proof {
                        reveal_strlit("画笔 ");
                        reveal_strlit("×");
                        assert(s@ =~= "画笔 "@ + decimal(size as nat) + "×"@ + decimal(size as nat));
                    }
                    Some(s)
                } else if let Some(btn) = cell_to_editor_button(x, y) {
                    self.set_hover(None, None);
                    match btn {
                        EditorButton::Export => Some(String::from_str("导出到剪贴板")),
                        EditorButton::Import => Some(String::from_str("从剪贴板导入")),
                        EditorButton::Back => Some(String::from_str("返回主菜单")),
                    }
                } else {
                    self.set_hover(None, None);
                    None
                }
            },
        }
    }

    /// A click released at `(x, y)`: paints with the brush on the icon, picks
    /// a brush size or a palette colour, or returns the button pressed (the
    /// caller exports, imports or leaves).
    pub fn on_release(&mut self, x: usize, y: usize, palette: &Vec<PaletteEntry>) -> (pressed: Option<EditorButton>)
        requires
            old(self).wf(),
            palette_index_fits(x as int, y as int),
        ensures
            final(self).wf(),
            pressed == (if icon_pixel_at(x as int, y as int) is None && brush_size_at(x as int, y as int) is None
                && palette_index_at(x as int, y as int, palette@.len() as int) is None {
                editor_button_at(x as int, y as int)
            } else {
                None
            }),
            ({
                let o = *old(self);
                let n = *final(self);
                match icon_pixel_at(x as int, y as int) {
                    Some((px, py)) => n == (PixelEditorState { pixels: n.pixels, ..o }) && n.pixels@ == painted(
                        o.pixels@,
                        px as int,
                        py as int,
                        o.brush_size,
                        selected_color(palette@, o.selected_palette_index),
                    ),
                    None => match brush_size_at(x as int, y as int) {
                        Some(s) => n == (PixelEditorState { brush_size: s, ..o }),
                        None => match palette_index_at(x as int, y as int, palette@.len() as int) {
                            Some(i) => n == (PixelEditorState { selected_palette_index: i, ..o }),
                            None => n == o,
                        },
                    },
                }
            }),
    {
        if let Some((px, py)) = cell_to_icon_pixel(x, y) {
            let c = if self.selected_palette_index < palette.len() {
                palette[self.selected_palette_index].1
            } else {
                default_pixel()
            };
            self.paint(px, py, c);
            None
        } else if let Some(size) = cell_to_brush_size(x, y) {
            self.brush_size = if size < 1 { 1 } else if size > 8 { 8 } else { size };
            None
        } else if let Some(idx) = cell_to_palette_index(x, y, palette.len()) {
            self.selected_palette_index = idx;
            None
        } else {
            cell_to_editor_button(x, y)
        }
    }

    /// The icon as an export (see `is_export_of`).
    pub fn export_icon(&self) -> (e: IconExport)
        requires
            self.wf(),
        ensures
            is_export_of(e, *self),
    {
        let mut pixels: Vec<PixelData> = Vec::new();
        let mut k: usize = 0;
        while k < 256
            invariant
                self.wf(),
                k <= 256,
                pixels@.len() == k,
                forall|j: int|
                    #![trigger pixels@[j]]
                    0 <= j < k ==> pixels@[j].x == j % 16 && pixels@[j].y == j / 16 && pixels@[j].color@
                        == rgb_hex(self.pixels@[j]),
            decreases 256 - k,
        {
            pixels.push(PixelData { x: k % 16, y: k / 16, color: rgb_to_hex(self.pixels[k]) });
            k = k + 1;
        }
        let name = if self.icon_name.as_str().unicode_len() == 0 {
            None
        } else {
            Some(self.icon_name.clone())
        };
        IconExport { name, pixels }
    }

    /// Imports an icon: takes its name if it has one and sets each listed
    /// pixel inside the icon whose colour reads (see `import_pixels`). What
    /// was last drawn is kept, so the imported icon is shown on the next
    /// frame that changes anything.
    pub fn import_icon(&mut self, data: &IconExport)
        requires
            old(self).wf(),
            import_readable(data.pixels@),
        ensures
            final(self).wf(),
            final(self).pixels@ == import_pixels(old(self).pixels@, data.pixels@),
            final(self).icon_name@ == (match data.name {
                Some(n) => n@,
                None => old(self).icon_name@,
            }),
            final(self).prev_pixels == old(self).prev_pixels,
            *final(self) == (PixelEditorState {
                pixels: final(self).pixels,
                icon_name: final(self).icon_name,
                ..*old(self)
            }),
    {
        match &data.name {
            Some(name) => {
                self.icon_name = name.clone();
            },
            None => {},
        }
        let ghost start = self.pixels@;
        let ghost orig = *self;
        let mut i: usize = 0;
        while i < data.pixels.len()
            invariant
                i <= data.pixels@.len(),
                *self == (PixelEditorState { pixels: self.pixels, ..orig }),
                self.pixels@.len() == 256,
                self.prev_pixels@.len() == 256,
                start.len() == 256,
                import_readable(data.pixels@),
                self.pixels@ == import_pixels(start, data.pixels@.take(i as int)),
            decreases data.pixels@.len() - i,
        {
            let pd = &data.pixels[i];
            proof {
                assert(data.pixels@.take(i + 1).drop_last() =~= data.pixels@.take(i as int));
                assert(data.pixels@.take(i + 1).last() == data.pixels@[i as int]);
                assert(fields_on_boundaries(encode_utf8(data.pixels@[i as int].color@)));
            }
            if pd.x < ICON_SIZE && pd.y < ICON_SIZE {
                if let Some(c) = hex_to_rgb(pd.color.as_str()) {
                    self.pixels.set(pd.y * 16 + pd.x, c);
                }
            }
            i = i + 1;
        }
        proof {
            assert(data.pixels@.take(data.pixels@.len() as int) =~= data.pixels@);
        }
    }
}


/// The theme colours the editor is drawn with.
#[derive(Debug, Clone, Copy, PartialEq, Eq, Structural)]
pub struct EditorColors {
    /// Text, and the selected palette mark.
    pub primary: Rgba8,
    /// Borders, and the unselected brush marks.
    pub muted: Rgba8,
    /// Background behind the borders.
    pub bg: Rgba8,
    /// Border of the hovered palette entry.
    pub highlight: Rgba8,
    /// The selected brush mark.
    pub success: Rgba8,
    /// Background of the brush row and the buttons.
    pub button_bg: Rgba8,
}

/// The colour painted with: the selected palette entry's, or the blank pixel's.
pub open spec fn paint_color(palette: Seq<PaletteEntry>, i: usize) -> Rgba8 {
    opaque(selected_color(palette, i))
}

/// The icon: pixel `k` as a 2×2 block at `(2 + 2 * (k % 16), 2 + 2 * (k / 16))`.
pub open spec fn icon_ops(pixels: Seq<Rgb8>, primary: Rgba8) -> Seq<DrawOp<Rgba8>> {
    Seq::new(
        256,
        |k: int|
            DrawOp::FillRectWithBg(
                (2 + 2 * (k % 16)) as usize,
                (2 + 2 * (k / 16)) as usize,
                2,
                2,
                ' ',
                primary,
                opaque(pixels[k]),
            ),
    )
}

/// The frame around the icon, one cell outside it: top and bottom edges
/// column by column, then left and right edges row by row.
pub open spec fn frame_ops(c: EditorColors) -> Seq<DrawOp<Rgba8>> {
    Seq::new(
        68,
        |k: int|
            if k % 2 == 0 {
                DrawOp::SetCharWithBg((1 + k / 2) as usize, 1, '─', c.muted, c.bg)
            } else {
                DrawOp::SetCharWithBg((1 + k / 2) as usize, 34, '─', c.muted, c.bg)
            },
    ) + Seq::new(
        68,
        |k: int|
            if k % 2 == 0 {
                DrawOp::SetCharWithBg(1, (1 + k / 2) as usize, '│', c.muted, c.bg)
            } else {
                DrawOp::SetCharWithBg(34, (1 + k / 2) as usize, '│', c.muted, c.bg)
            },
    )
}

/// The outline of the brush stamp under the hovered pixel, in the paint colour.
pub open spec fn stamp_outline_ops(s: PixelEditorState, paint: Rgba8, bg: Rgba8) -> Seq<DrawOp<Rgba8>> {
    match s.hovered_icon_pixel {
        Some((hpx, hpy)) => {
            let sz = brush_side(s.brush_size);
            let left = 2 + 2 * stamp_origin(hpx as int, sz);
            let top = 2 + 2 * stamp_origin(hpy as int, sz);
            let w = 2 * sz;
            Seq::new(
                (2 * w) as nat,
                |k: int|
                    if k % 2 == 0 {
                        DrawOp::SetCharWithBg((left + k / 2) as usize, top as usize, '─', paint, bg)
                    } else {
                        DrawOp::SetCharWithBg((left + k / 2) as usize, (top + w - 1) as usize, '─', paint, bg)
                    },
            ) + Seq::new(
                (2 * w) as nat,
                |k: int|
                    if k % 2 == 0 {
                        DrawOp::SetCharWithBg(left as usize, (top + k / 2) as usize, '│', paint, bg)
                    } else {
                        DrawOp::SetCharWithBg((left + w - 1) as usize, (top + k / 2) as usize, '│', paint, bg)
                    },
            )
        },
        None => Seq::empty(),
    }
}

/// Palette entry `i`: a 2×2 swatch at `(38 + 2 * (i % 8), 6 + 2 * (i / 8))`,
/// marked `●` when selected, outlined when hovered.
pub open spec fn entry_ops(s: PixelEditorState, palette: Seq<PaletteEntry>, i: int, c: EditorColors) -> Seq<DrawOp<Rgba8>> {
    let x = (38 + 2 * (i % 8)) as usize;
    let y = (6 + 2 * (i / 8)) as usize;
    let color = opaque(palette[i].1);
    let selected = s.selected_palette_index == i;
    let swatch = DrawOp::FillRectWithBg(
        x,
        y,
        2,
        2,
        if selected {
            '●'
        } else {
            ' '
        },
        if selected {
            c.primary
        } else {
            c.muted
        },
        color,
    );
    if s.hovered_palette_index == Some(i as usize) {
        seq![
            swatch,
            DrawOp::SetCharWithBg(x, y, '─', c.highlight, color),
            DrawOp::SetCharWithBg(x, (y + 1) as usize, '─', c.highlight, color),
            DrawOp::SetCharWithBg((x + 1) as usize, y, '─', c.highlight, color),
            DrawOp::SetCharWithBg((x + 1) as usize, (y + 1) as usize, '─', c.highlight, color),
            DrawOp::SetCharWithBg(x, y, '│', c.highlight, color),
            DrawOp::SetCharWithBg((x + 1) as usize, y, '│', c.highlight, color),
            DrawOp::SetCharWithBg(x, (y + 1) as usize, '│', c.highlight, color),
            DrawOp::SetCharWithBg((x + 1) as usize, (y + 1) as usize, '│', c.highlight, color),
        ]
    } else {
        seq![swatch]
    }
}

/// The first `n` palette entries, in order.
pub open spec fn palette_ops(s: PixelEditorState, palette: Seq<PaletteEntry>, n: int, c: EditorColors) -> Seq<DrawOp<Rgba8>>
    decreases n,
{
    if n <= 0 {
        Seq::empty()
    } else {
        palette_ops(s, palette, n - 1, c) + entry_ops(s, palette, n - 1, c)
    }
}

/// The brush row: for sizes 1 to 8, the digit then `✓` (selected) or `○`.
pub open spec fn brush_ops(s: PixelEditorState, c: EditorColors) -> Seq<DrawOp<Rgba8>> {
    Seq::new(
        16,
        |k: int|
            {
                let size = k / 2 + 1;
                let x = (38 + 2 * (size - 1)) as usize;
                if k % 2 == 0 {
                    DrawOp::SetCharWithBg(x, 18, (48 + size) as char, c.primary, c.button_bg)
                } else if s.brush_size == size {
                    DrawOp::SetCharWithBg((x + 1) as usize, 18, '✓', c.success, c.button_bg)
                } else {
                    DrawOp::SetCharWithBg((x + 1) as usize, 18, '○', c.muted, c.button_bg)
                }
            },
    )
}

/// The editor's drawing: the area above the status bar cleared, the title,
/// the icon and its frame, the brush outline under the pointer, the selected
/// colour, the palette, the brush row and the three buttons.
pub open spec fn pixel_editor_ops(s: PixelEditorState, palette: Seq<PaletteEntry>, c: EditorColors) -> Seq<DrawOp<Rgba8>> {
    let paint = paint_color(palette, s.selected_palette_index);
    seq![
        DrawOp::ClearRect(0, 0, 96, 52),
        DrawOp::SetLine(0, 0, 96, " 像素编辑器 16×16 "@, TextAlign::Center, c.primary),
    ] + icon_ops(s.pixels@, c.primary) + frame_ops(c) + stamp_outline_ops(s, paint, c.bg) + seq![
        DrawOp::FillRectWithBg(38, 2, 2, 2, ' ', c.primary, paint),
    ] + palette_ops(s, palette, palette.len() as int, c) + brush_ops(s, c) + seq![
        DrawOp::SetLineWithBg(40, 2, 30, " 导出 "@, TextAlign::Left, c.primary, c.button_bg),
        DrawOp::SetLineWithBg(42, 2, 30, " 导入 "@, TextAlign::Left, c.primary, c.button_bg),
        DrawOp::SetLineWithBg(44, 2, 30, " 返回 "@, TextAlign::Left, c.primary, c.button_bg),
    ]
}

fn push_stamp_outline(cmds: &mut Vec<CanvasCommand<Rgba8>>, s: &PixelEditorState, paint: Rgba8, bg: Rgba8)
    ensures
        ops_of(final(cmds)@) == ops_of(old(cmds)@) + stamp_outline_ops(*s, paint, bg),
{
    match s.hovered_icon_pixel {
        Some((hpx, hpy)) => {
            let sz: usize = if s.brush_size < 1 { 1 } else if s.brush_size > 8 { 8 } else { s.brush_size };
            let half = sz / 2;
            let mut x0 = if hpx >= half { hpx - half } else { 0 };
            let mut y0 = if hpy >= half { hpy - half } else { 0 };
            if x0 > ICON_SIZE - sz {
                x0 = ICON_SIZE - sz;
            }
            if y0 > ICON_SIZE - sz {
                y0 = ICON_SIZE - sz;
            }
            let left = ICON_X + x0 * CELLS_PER_PIXEL;
            let top = ICON_Y + y0 * CELLS_PER_PIXEL;
            let w = sz * CELLS_PER_PIXEL;
            let ghost start = ops_of(cmds@);
            let ghost horiz = Seq::new(
                (2 * w) as nat,
                |k: int|
                    if k % 2 == 0 {
                        DrawOp::SetCharWithBg((left + k / 2) as usize, top as usize, '─', paint, bg)
                    } else {
                        DrawOp::SetCharWithBg((left + k / 2) as usize, (top + w - 1) as usize, '─', paint, bg)
                    },
            );
            let ghost vert = Seq::new(
                (2 * w) as nat,
                |k: int|
                    if k % 2 == 0 {
                        DrawOp::SetCharWithBg(left as usize, (top + k / 2) as usize, '│', paint, bg)
                    } else {
                        DrawOp::SetCharWithBg((left + w - 1) as usize, (top + k / 2) as usize, '│', paint, bg)
                    },
            );
            let mut k: usize = 0;
            while k < 2 * w
                invariant
                    k <= 2 * w,
                    w <= 16,
                    left <= 34,
                    top <= 34,
                    horiz == Seq::new(
                        (2 * w) as nat,
                        |k: int|
                            if k % 2 == 0 {
                                DrawOp::SetCharWithBg((left + k / 2) as usize, top as usize, '─', paint, bg)
                            } else {
                                DrawOp::SetCharWithBg((left + k / 2) as usize, (top + w - 1) as usize, '─', paint, bg)
                            },
                    ),
                    ops_of(cmds@) == start + horiz.take(k as int),
                decreases 2 * w - k,
            {
                if k % 2 == 0 {
                    push_set_char_with_bg(cmds, left + k / 2, top, '─', paint, bg);
                } else {
                    push_set_char_with_bg(cmds, left + k / 2, top + w - 1, '─', paint, bg);
                }
                proof {
                    assert(horiz.take(k + 1) =~= horiz.take(k as int).push(horiz[k as int]));
                }
                k = k + 1;
            }
            let mut k: usize = 0;
            while k < 2 * w
                invariant
                    k <= 2 * w,
                    w <= 16,
                    left <= 34,
                    top <= 34,
                    vert == Seq::new(
                        (2 * w) as nat,
                        |k: int|
                            if k % 2 == 0 {
                                DrawOp::SetCharWithBg(left as usize, (top + k / 2) as usize, '│', paint, bg)
                            } else {
                                DrawOp::SetCharWithBg((left + w - 1) as usize, (top + k / 2) as usize, '│', paint, bg)
                            },
                    ),
                    ops_of(cmds@) == start + horiz + vert.take(k as int),
                decreases 2 * w - k,
            {
                if k % 2 == 0 {
                    push_set_char_with_bg(cmds, left, top + k / 2, '│', paint, bg);
                } else {
                    push_set_char_with_bg(cmds, left + w - 1, top + k / 2, '│', paint, bg);
                }
                proof {
                    assert(vert.take(k + 1) =~= vert.take(k as int).push(vert[k as int]));
                }
                k = k + 1;
            }
            proof {
                assert(horiz.take(2 * w) =~= horiz);
                assert(vert.take(2 * w) =~= vert);
                assert(start + horiz + vert =~= start + (horiz + vert));
            }
        },
        None => {
            proof {
                assert(ops_of(cmds@) =~= ops_of(cmds@) + Seq::<DrawOp<Rgba8>>::empty());
            }
        },
    }
}

fn push_palette_entry(cmds: &mut Vec<CanvasCommand<Rgba8>>, s: &PixelEditorState, palette: &Vec<PaletteEntry>, i: usize, c: EditorColors)
    requires
        i < palette@.len(),
    ensures
        ops_of(final(cmds)@) == ops_of(old(cmds)@) + entry_ops(*s, palette@, i as int, c),
{
    let ghost start = ops_of(cmds@);
    let x = PALETTE_GRID_X + (i % PALETTE_SLOT_COLS) * PALETTE_SLOT_SIZE;
    let y = PALETTE_GRID_Y + (i / PALETTE_SLOT_COLS) * PALETTE_SLOT_SIZE;
    let color = to_rgba(palette[i].1);
    let selected = s.selected_palette_index == i;
    let ch = if selected { '●' } else { ' ' };
    let fg = if selected { c.primary } else { c.muted };
    push_fill_rect_with_bg(cmds, x, y, 2, 2, ch, fg, color);
    let hovered = match s.hovered_palette_index {
        Some(h) => h == i,
        None => false,
    };
    if hovered {
        push_set_char_with_bg(cmds, x, y, '─', c.highlight, color);
        push_set_char_with_bg(cmds, x, y + 1, '─', c.highlight, color);
        push_set_char_with_bg(cmds, x + 1, y, '─', c.highlight, color);
        push_set_char_with_bg(cmds, x + 1, y + 1, '─', c.highlight, color);
        push_set_char_with_bg(cmds, x, y, '│', c.highlight, color);
        push_set_char_with_bg(cmds, x + 1, y, '│', c.highlight, color);
        push_set_char_with_bg(cmds, x, y + 1, '│', c.highlight, color);
        push_set_char_with_bg(cmds, x + 1, y + 1, '│', c.highlight, color);
    }
    proof {
        assert(ops_of(cmds@) =~= start + entry_ops(*s, palette@, i as int, c));
    }
}

/// The editor's drawing commands (see `pixel_editor_ops`).
pub fn pixel_editor_draw(s: &PixelEditorState, palette: &Vec<PaletteEntry>, c: EditorColors) -> (cmds: Vec<CanvasCommand<Rgba8>>)
    requires
        s.wf(),
    ensures
        ops_of(cmds@) == pixel_editor_ops(*s, palette@, c),
{
    let mut cmds: Vec<CanvasCommand<Rgba8>> = Vec::new();
    push_clear_rect(&mut cmds, 0, 0, 96, STATUS_ROW_TOP);
    proof {
        reveal_strlit(" 像素编辑器 16×16 ");
    }
    push_set_line(&mut cmds, 0, 0, 96, String::from_str(" 像素编辑器 16×16 "), TextAlign::Center, c.primary);
    let ghost head = ops_of(cmds@);
    let mut k: usize = 0;
    while k < 256
        invariant
            k <= 256,
            s.wf(),
            ops_of(cmds@) == head + icon_ops(s.pixels@, c.primary).take(k as int),
        decreases 256 - k,
    {
        push_fill_rect_with_bg(&mut cmds, ICON_X + (k % 16) * 2, ICON_Y + (k / 16) * 2, 2, 2, ' ', c.primary, to_rgba(s.pixels[k]));
        proof {
            let io = icon_ops(s.pixels@, c.primary);
            assert(io.take(k + 1) =~= io.take(k as int).push(io[k as int]));
        }
        k = k + 1;
    }
    proof {
        assert(icon_ops(s.pixels@, c.primary).take(256) =~= icon_ops(s.pixels@, c.primary));
    }
    let ghost head2 = ops_of(cmds@);
    let ghost fo = frame_ops(c);
    let mut k: usize = 0;
    while k < 68
        invariant
            k <= 68,
            fo == frame_ops(c),
            ops_of(cmds@) == head2 + fo.take(k as int),
        decreases 68 - k,
    {
        if k % 2 == 0 {
            push_set_char_with_bg(&mut cmds, 1 + k / 2, 1, '─', c.muted, c.bg);
        } else {
            push_set_char_with_bg(&mut cmds, 1 + k / 2, 34, '─', c.muted, c.bg);
        }
        proof {
            assert(fo.take(k + 1) =~= fo.take(k as int).push(fo[k as int]));
        }
        k = k + 1;
    }
    let mut k: usize = 0;
    while k < 68
        invariant
            k <= 68,
            fo == frame_ops(c),
            ops_of(cmds@) == head2 + fo.take(68 + k),
        decreases 68 - k,
    {
        if k % 2 == 0 {
            push_set_char_with_bg(&mut cmds, 1, 1 + k / 2, '│', c.muted, c.bg);
        } else {
            push_set_char_with_bg(&mut cmds, 34, 1 + k / 2, '│', c.muted, c.bg);
        }
        proof {
            assert(fo.take(68 + k + 1) =~= fo.take(68 + k).push(fo[68 + k]));
        }
        k = k + 1;
    }
    proof {
        assert(fo.take(136) =~= fo);
    }
    let paint = if s.selected_palette_index < palette.len() {
        to_rgba(palette[s.selected_palette_index].1)
    } else {
        to_rgba(default_pixel())
    };
    push_stamp_outline(&mut cmds, s, paint, c.bg);
    push_fill_rect_with_bg(&mut cmds, SELECTED_BOX_X, SELECTED_BOX_Y, 2, 2, ' ', c.primary, paint);
    let ghost head3 = ops_of(cmds@);
    let mut i: usize = 0;
    while i < palette.len()
        invariant
            i <= palette@.len(),
            ops_of(cmds@) == head3 + palette_ops(*s, palette@, i as int, c),
        decreases palette@.len() - i,
    {
        push_palette_entry(&mut cmds, s, palette, i, c);
        proof {
            assert(head3 + palette_ops(*s, palette@, i as int, c) + entry_ops(*s, palette@, i as int, c) =~= head3
                + palette_ops(*s, palette@, i + 1, c));
        }
        i = i + 1;
    }
    let ghost head4 = ops_of(cmds@);
    let ghost bo = brush_ops(*s, c);
    let mut k: usize = 0;
    while k < 16
        invariant
            k <= 16,
            bo == brush_ops(*s, c),
            ops_of(cmds@) == head4 + bo.take(k as int),
        decreases 16 - k,
    {
        let size = k / 2 + 1;
        let x = BRUSH_ROW_X + (size - 1) * BRUSH_ITEM_WIDTH;
        if k % 2 == 0 {
            let digit = ((48 + size) as u8) as char;
            push_set_char_with_bg(&mut cmds, x, BRUSH_ROW_Y, digit, c.primary, c.button_bg);
        } else if s.brush_size == size {
            push_set_char_with_bg(&mut cmds, x + 1, BRUSH_ROW_Y, '✓', c.success, c.button_bg);
        } else {
            push_set_char_with_bg(&mut cmds, x + 1, BRUSH_ROW_Y, '○', c.muted, c.button_bg);
        }
        proof {
            assert(bo.take(k + 1) =~= bo.take(k as int).push(bo[k as int]));
        }
        k = k + 1;
    }
    proof {
        assert(bo.take(16) =~= bo);
        reveal_strlit(" 导出 ");
        reveal_strlit(" 导入 ");
        reveal_strlit(" 返回 ");
    }
    push_set_line_with_bg(&mut cmds, BTN_EXPORT_Y, BTN_X_START, BTN_X_END, String::from_str(" 导出 "), TextAlign::Left, c.primary, c.button_bg);
    push_set_line_with_bg(&mut cmds, BTN_IMPORT_Y, BTN_X_START, BTN_X_END, String::from_str(" 导入 "), TextAlign::Left, c.primary, c.button_bg);
    push_set_line_with_bg(&mut cmds, BTN_BACK_Y, BTN_X_START, BTN_X_END, String::from_str(" 返回 "), TextAlign::Left, c.primary, c.button_bg);
    proof {
        assert(ops_of(cmds@) =~= pixel_editor_ops(*s, palette@, c));
    }
    cmds
}


/// The brush always paints the clicked pixel, and only pixels of the icon.
pub proof fn lemma_stamp_covers_click(px: int, py: int, brush: usize, x: int, y: int)
    requires
        0 <= px < 16,
        0 <= py < 16,
    ensures
        in_stamp(px, py, px, py, brush),
        in_stamp(x, y, px, py, brush) ==> 0 <= x < 16 && 0 <= y < 16,
{
}


impl Default for PixelEditorState {
    /// A blank icon (see `new`).
    fn default() -> (s: Self)
        ensures
            s.wf(),
            s.pixels@ == Seq::new(256, |k: int| blank_pixel()),
            s.selected_palette_index == 0,
            s.brush_size == 1,
    {
        Self::new()
    }
}

/// An imported icon is shown: when the editor last showed what it holds and an
/// import (state `t`, as `import_icon` leaves it) changes a pixel, the next
/// `begin_draw` reports a redraw, and the editor drawn from the state it leaves
/// (`u`) paints every pixel of the imported icon as its 2×2 block.
pub proof fn lemma_import_is_shown(
    s: PixelEditorState,
    data: Seq<PixelData>,
    t: PixelEditorState,
    u: PixelEditorState,
    palette: Seq<PaletteEntry>,
    c: EditorColors,
)
    requires
        !editor_changed(s),
        t == (PixelEditorState { pixels: t.pixels, icon_name: t.icon_name, ..s }),
        t.pixels@ == import_pixels(s.pixels@, data),
        import_pixels(s.pixels@, data) != s.pixels@,
        u == (PixelEditorState { prev_pixels: u.prev_pixels, ..editor_drawn(t) }),
    ensures
        editor_changed(t),
        pixel_editor_ops(u, palette, c).subrange(2, 258) == icon_ops(import_pixels(s.pixels@, data), c.primary),
{
    let ops = pixel_editor_ops(u, palette, c);
    assert(ops.subrange(2, 258) =~= icon_ops(u.pixels@, c.primary));
}

/// The brush outline drawn under the pointer frames exactly the pixels a
/// click there paints. The outline follows the title, the 256 pixel blocks
/// and the 136 frame cells in the drawing; its first cell is the top-left corner
/// `(l, t)` of a box `2 * side` cells wide and high, and a pixel's 2×2 block
/// lies in that box just when painting at the hovered pixel covers it.
pub proof fn lemma_outline_frames_the_stamp(
    s: PixelEditorState,
    palette: Seq<PaletteEntry>,
    c: EditorColors,
    hpx: usize,
    hpy: usize,
)
    requires
        s.hovered_icon_pixel == Some((hpx, hpy)),
    ensures
        ({
            let op = pixel_editor_ops(s, palette, c)[394];
            let side = brush_side(s.brush_size);
            &&& op matches DrawOp::SetCharWithBg(l, t, ch, _, _)
            &&& ch == '─'
            &&& forall|x: int, y: int|
                0 <= x < 16 && 0 <= y < 16 ==> (#[trigger] in_stamp(x, y, hpx as int, hpy as int, s.brush_size) <==> (
                l <= 2 + 2 * x < l + 2 * side && t <= 2 + 2 * y < t + 2 * side))
        }),
{
    let paint = paint_color(palette, s.selected_palette_index);
    let ops = pixel_editor_ops(s, palette, c);
    let front = seq![
        DrawOp::ClearRect(0, 0, 96, 52),
        DrawOp::SetLine(0, 0, 96, " 像素编辑器 16×16 "@, TextAlign::Center, c.primary),
    ] + icon_ops(s.pixels@, c.primary) + frame_ops(c);
    let outline = stamp_outline_ops(s, paint, c.bg);
    assert(front.len() == 394);
    assert(ops == front + outline + (seq![DrawOp::FillRectWithBg(38, 2, 2, 2, ' ', c.primary, paint)]
        + palette_ops(s, palette, palette.len() as int, c) + brush_ops(s, c) + seq![
        DrawOp::SetLineWithBg(40, 2, 30, " 导出 "@, TextAlign::Left, c.primary, c.button_bg),
        DrawOp::SetLineWithBg(42, 2, 30, " 导入 "@, TextAlign::Left, c.primary, c.button_bg),
        DrawOp::SetLineWithBg(44, 2, 30, " 返回 "@, TextAlign::Left, c.primary, c.button_bg),
    ]));
    assert(outline.len() > 0);
    assert(ops[394] == outline[0]);
}

/// A brush stamp that fits inside the icon is centred on the clicked pixel:
/// with `half = side / 2`, it covers columns `px - half .. px - half + side`
/// and rows likewise.
pub proof fn lemma_stamp_is_centred(x: int, y: int, px: int, py: int, brush: usize)
    requires
        brush_side(brush) / 2 <= px <= 16 - brush_side(brush) + brush_side(brush) / 2,
        brush_side(brush) / 2 <= py <= 16 - brush_side(brush) + brush_side(brush) / 2,
    ensures
        in_stamp(x, y, px, py, brush) <==> (px - brush_side(brush) / 2 <= x < px - brush_side(brush) / 2
            + brush_side(brush) && py - brush_side(brush) / 2 <= y < py - brush_side(brush) / 2 + brush_side(brush)),
{
}

} // verus!

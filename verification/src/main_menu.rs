//! The main menu: the block-letter title INTERSTICE and four icon buttons
//! (start, settings, credits, quit) with hover and press highlighting.

use vstd::prelude::*;
use vstd::string::*;
use crate::canvas::{CanvasCommand, DrawOp, TextAlign, ops_of, push_set_char, push_set_line_with_bg};
use crate::text::push_char;

verus! {

/// Letters of the title art are 5 cells wide with 1 cell between them.
pub const LETTER_W: usize = 5;
pub const LETTER_SPACING: usize = 1;
/// The title's block character.
pub const TITLE_BLOCK: char = '\u{2588}';
/// First row of the title art.
pub const TITLE_ART_ROW: usize = 15;
/// Buttons: rows 30, 32, 34, 36, columns `[BUTTON_X_START, BUTTON_X_END)`.
pub const BUTTON_ROW_START: usize = 30;
pub const BUTTON_X_START: usize = 36;
pub const BUTTON_X_END: usize = 62;

/// The menu buttons, top to bottom.
#[derive(Debug, Clone, Copy, PartialEq, Eq, Structural)]
pub enum MainMenuButton {
    Start,
    Settings,
    Credits,
    Quit,
}

pub open spec fn button_row(b: MainMenuButton) -> usize {
    match b {
        MainMenuButton::Start => 30,
        MainMenuButton::Settings => 32,
        MainMenuButton::Credits => 34,
        MainMenuButton::Quit => 36,
    }
}

pub open spec fn button_icon(b: MainMenuButton) -> char {
    match b {
        MainMenuButton::Start => '\u{f04b}',
        MainMenuButton::Settings => '\u{f013}',
        MainMenuButton::Credits => '\u{f0c0}',
        MainMenuButton::Quit => '\u{f08b}',
    }
}

pub open spec fn button_label(b: MainMenuButton) -> Seq<char> {
    match b {
        MainMenuButton::Start => "开始游戏"@,
        MainMenuButton::Settings => "设置"@,
        MainMenuButton::Credits => "制作人员"@,
        MainMenuButton::Quit => "离开游戏"@,
    }
}

impl MainMenuButton {
    /// The button's row.
    pub fn row(&self) -> (r: usize)
        ensures
            r == button_row(*self),
    {
        match self {
            MainMenuButton::Start => BUTTON_ROW_START,
            MainMenuButton::Settings => BUTTON_ROW_START + 2,
            MainMenuButton::Credits => BUTTON_ROW_START + 4,
            MainMenuButton::Quit => BUTTON_ROW_START + 6,
        }
    }

    /// The button's icon.
    pub fn icon(&self) -> (c: char)
        ensures
            c == button_icon(*self),
    {
        match self {
            MainMenuButton::Start => '\u{f04b}',
            MainMenuButton::Settings => '\u{f013}',
            MainMenuButton::Credits => '\u{f0c0}',
            MainMenuButton::Quit => '\u{f08b}',
        }
    }

    /// The button's text.
    pub fn label(&self) -> (s: &'static str)
        ensures
            s@ == button_label(*self),
    {
        match self {
            MainMenuButton::Start => {
                proof { reveal_strlit("开始游戏"); }
                "开始游戏"
            },
            MainMenuButton::Settings => {
                proof { reveal_strlit("设置"); }
                "设置"
            },
            MainMenuButton::Credits => {
                proof { reveal_strlit("制作人员"); }
                "制作人员"
            },
            MainMenuButton::Quit => {
                proof { reveal_strlit("离开游戏"); }
                "离开游戏"
            },
        }
    }
}

/// The rows of a title letter, `#` marking a block; letters without art use I's.
pub open spec fn letter_art(c: char) -> Seq<Seq<char>> {
    if c == 'N' {
        seq!["#   #"@, "##  #"@, "# # #"@, "#  ##"@, "#   #"@]
    } else if c == 'T' {
        seq!["#####"@, "  #  "@, "  #  "@, "  #  "@, "  #  "@]
    } else if c == 'E' {
        seq!["#####"@, "#    "@, "#####"@, "#    "@, "#####"@]
    } else if c == 'R' {
        seq!["#### "@, "#   #"@, "#### "@, "#  # "@, "#   #"@]
    } else if c == 'S' {
        seq![" ####"@, "#    "@, " ### "@, "    #"@, "#### "@]
    } else if c == 'C' {
        seq![" ####"@, "#    "@, "#    "@, "#    "@, " ####"@]
    } else {
        seq!["#####"@, "  #  "@, "  #  "@, "  #  "@, "#####"@]
    }
}

proof fn lemma_letter_art_shape(c: char)
    ensures
        letter_art(c).len() == 5,
        forall|row: int| 0 <= row < 5 ==> #[trigger] letter_art(c)[row].len() == 5,
{
    reveal_strlit("    #");
    reveal_strlit("  #  ");
    reveal_strlit(" ### ");
    reveal_strlit(" ####");
    reveal_strlit("#    ");
    reveal_strlit("#   #");
    reveal_strlit("#  # ");
    reveal_strlit("#  ##");
    reveal_strlit("# # #");
    reveal_strlit("##  #");
    reveal_strlit("#### ");
    reveal_strlit("#####");
}

/// The five rows of a title letter's art.
pub fn title_art_letter(c: char) -> (rows: [&'static str; 5])
    ensures
        rows@.map_values(|r: &'static str| r@) == letter_art(c),
{
    let rows: [&'static str; 5] = if c == 'N' {
        ["#   #", "##  #", "# # #", "#  ##", "#   #"]
    } else if c == 'T' {
        ["#####", "  #  ", "  #  ", "  #  ", "  #  "]
    } else if c == 'E' {
        ["#####", "#    ", "#####", "#    ", "#####"]
    } else if c == 'R' {
        ["#### ", "#   #", "#### ", "#  # ", "#   #"]
    } else if c == 'S' {
        [" ####", "#    ", " ### ", "    #", "#### "]
    } else if c == 'C' {
        [" ####", "#    ", "#    ", "#    ", " ####"]
    } else {
        ["#####", "  #  ", "  #  ", "  #  ", "#####"]
    };
    proof {
        assert(rows@.map_values(|r: &'static str| r@) =~= letter_art(c));
    }
    rows
}

/// The button at `(x, y)`.
pub open spec fn menu_button_at(x: int, y: int) -> Option<MainMenuButton> {
    if x < 36 || x >= 62 {
        None
    } else if y == 30 {
        Some(MainMenuButton::Start)
    } else if y == 32 {
        Some(MainMenuButton::Settings)
    } else if y == 34 {
        Some(MainMenuButton::Credits)
    } else if y == 36 {
        Some(MainMenuButton::Quit)
    } else {
        None
    }
}

/// The button under cell `(x, y)`, icon or text.
pub fn cell_to_main_menu_button(x: usize, y: usize) -> (b: Option<MainMenuButton>)
    ensures
        b == menu_button_at(x as int, y as int),
{
    if x < BUTTON_X_START || x >= BUTTON_X_END {
        return None;
    }
    if y == 30 {
        Some(MainMenuButton::Start)
    } else if y == 32 {
        Some(MainMenuButton::Settings)
    } else if y == 34 {
        Some(MainMenuButton::Credits)
    } else if y == 36 {
        Some(MainMenuButton::Quit)
    } else {
        None
    }
}

/// The menu's hover and press, and what was last drawn.
pub struct MainMenuState {
    pub hovered: Option<MainMenuButton>,
    pub pressed: Option<MainMenuButton>,
    pub prev_hovered: Option<MainMenuButton>,
    pub prev_pressed: Option<MainMenuButton>,
}

fn same_button(a: Option<MainMenuButton>, b: Option<MainMenuButton>) -> (r: bool)
    ensures
        r == (a == b),
{
    match (a, b) {
        (Some(x), Some(y)) => x == y,
        (None, None) => true,
        _ => false,
    }
}

/// The view of an optional text.
pub open spec fn opt_text(t: Option<String>) -> Option<Seq<char>> {
    match t {
        Some(s) => Some(s@),
        None => None,
    }
}

impl MainMenuState {
    /// Nothing hovered or pressed; the drawn hover differs so that the first
    /// frame draws the menu.
    pub fn new() -> (s: Self)
        ensures
            s.hovered is None,
            s.pressed is None,
            s.prev_hovered == Some(MainMenuButton::Start),
            s.prev_pressed is None,
    {
        MainMenuState { hovered: None, pressed: None, prev_hovered: Some(MainMenuButton::Start), prev_pressed: None }
    }

    /// The pointer moved to `cell`; returns the status-bar text: the hovered
    /// button's label, or none.
    pub fn on_hover(&mut self, cell: Option<(usize, usize)>) -> (text: Option<String>)
        ensures
            final(self).hovered == (match cell {
                Some((x, y)) => menu_button_at(x as int, y as int),
                None => None,
            }),
            *final(self) == (MainMenuState { hovered: final(self).hovered, ..*old(self) }),
            opt_text(text) == (match final(self).hovered {
                Some(b) => Some(button_label(b)),
                None => None,
            }),
    {
        self.hovered = match cell {
            Some((x, y)) => cell_to_main_menu_button(x, y),
            None => None,
        };
        match self.hovered {
            Some(b) => Some(String::from_str(b.label())),
            None => None,
        }
    }

    /// A press at `(x, y)`.
    pub fn on_press(&mut self, x: usize, y: usize)
        ensures
            *final(self) == (MainMenuState { pressed: menu_button_at(x as int, y as int), ..*old(self) }),
    {
        self.pressed = cell_to_main_menu_button(x, y);
    }

    /// A release at `(x, y)`: ends a press, and returns the button clicked
    /// when the press and the release were on the same button.
    pub fn on_release(&mut self, x: usize, y: usize) -> (clicked: Option<MainMenuButton>)
        ensures
            *final(self) == (MainMenuState {
                pressed: if old(self).pressed is Some {
                    None
                } else {
                    old(self).pressed
                },
                ..*old(self)
            }),
            clicked == (match old(self).pressed {
                Some(b) => if menu_button_at(x as int, y as int) == Some(b) {
                    Some(b)
                } else {
                    None
                },
                None => None,
            }),
    {
        match self.pressed {
            Some(b) => {
                let here = cell_to_main_menu_button(x, y);
                self.pressed = None;
                if same_button(here, Some(b)) {
                    Some(b)
                } else {
                    None
                }
            },
            None => None,
        }
    }

    /// Starts a frame: when the hover or press changed since the last drawing,
    /// records them as drawn and returns `true` (the menu is then redrawn).
    pub fn begin_draw(&mut self) -> (redraw: bool)
        ensures
            redraw == (old(self).hovered != old(self).prev_hovered || old(self).pressed != old(self).prev_pressed),
            redraw ==> *final(self) == (MainMenuState {
                prev_hovered: old(self).hovered,
                prev_pressed: old(self).pressed,
                ..*old(self)
            }),
            !redraw ==> *final(self) == *old(self),
    {
        if same_button(self.hovered, self.prev_hovered) && same_button(self.pressed, self.prev_pressed) {
            return false;
        }
        self.prev_hovered = self.hovered;
        self.prev_pressed = self.pressed;
        true
    }
}


/// The title's characters.
pub open spec fn title_word() -> Seq<char> {
    "INTERSTICE"@
}

/// The character drawn for art cell `(row, col)` of letter `c`: a block for
/// `#`, the art's character otherwise.
pub open spec fn title_glyph(c: char, row: int, col: int) -> char {
    let ch = letter_art(c)[row][col];
    if ch == '#' {
        '\u{2588}'
    } else {
        ch
    }
}

/// The title drawn cell by cell: five rows from row 15, ten letters from
/// column 18, six columns apart, five cells each.
pub open spec fn title_ops<C>(color: C) -> Seq<DrawOp<C>> {
    Seq::new(
        250,
        |k: int|
            {
                let row = k / 50;
                let j = (k % 50) / 5;
                let col = k % 5;
                DrawOp::SetChar(
                    (18 + 6 * j + col) as usize,
                    (15 + row) as usize,
                    title_glyph(title_word()[j], row, col),
                    color,
                )
            },
    )
}

/// The background of a button: pressed, hovered, or normal.
pub open spec fn menu_button_bg<C>(s: MainMenuState, b: MainMenuButton, normal: C, hover: C, press: C) -> C {
    if s.pressed == Some(b) {
        press
    } else if s.hovered == Some(b) {
        hover
    } else {
        normal
    }
}

/// The four buttons: icon, two spaces and label on the button's row.
pub open spec fn button_ops<C>(s: MainMenuState, text: C, normal: C, hover: C, press: C) -> Seq<DrawOp<C>> {
    Seq::new(
        4,
        |i: int|
            {
                let b = if i == 0 {
                    MainMenuButton::Start
                } else if i == 1 {
                    MainMenuButton::Settings
                } else if i == 2 {
                    MainMenuButton::Credits
                } else {
                    MainMenuButton::Quit
                };
                DrawOp::SetLineWithBg(
                    button_row(b),
                    36,
                    62,
                    seq![button_icon(b)] + "  "@ + button_label(b),
                    TextAlign::Left,
                    text,
                    menu_button_bg(s, b, normal, hover, press),
                )
            },
    )
}

fn button_bg<C: Copy>(s: &MainMenuState, b: MainMenuButton, normal: C, hover: C, press: C) -> (c: C)
    ensures
        c == menu_button_bg(*s, b, normal, hover, press),
{
    if same_button(s.pressed, Some(b)) {
        press
    } else if same_button(s.hovered, Some(b)) {
        hover
    } else {
        normal
    }
}

/// The menu's drawing: the title art, then the buttons with their
/// hover / press backgrounds.
pub fn main_menu_draw<C: Copy>(state: &MainMenuState, title_color: C, text_color: C, normal_bg: C, hover_bg: C, press_bg: C) -> (cmds: Vec<CanvasCommand<C>>)
    ensures
        ops_of(cmds@) == title_ops(title_color) + button_ops(*state, text_color, normal_bg, hover_bg, press_bg),
{
    let word = crate::text::str_chars("INTERSTICE");
    proof {
        reveal_strlit("INTERSTICE");
    }
    let mut cmds: Vec<CanvasCommand<C>> = Vec::new();
    let mut k: usize = 0;
    while k < 250
        invariant
            k <= 250,
            word@ == title_word(),
            word@.len() == 10,
            ops_of(cmds@) == title_ops(title_color).take(k as int),
        decreases 250 - k,
    {
        let row = k / 50;
        let j = (k % 50) / 5;
        let col = k % 5;
        let art = title_art_letter(word[j]);
        proof {
            assert(art@.map_values(|r: &'static str| r@)[row as int] == art@[row as int]@);
            lemma_letter_art_shape(word@[j as int]);
        }
        let ch = art[row].get_char(col);
        let glyph = if ch == '#' { '\u{2588}' } else { ch };
        push_set_char(&mut cmds, 18 + 6 * j + col, 15 + row, glyph, title_color);
        proof {
            assert(title_ops(title_color).take(k + 1) =~= title_ops(title_color).take(k as int).push(
                title_ops(title_color)[k as int],
            ));
        }
        k = k + 1;
    }
    let buttons = [MainMenuButton::Start, MainMenuButton::Settings, MainMenuButton::Credits, MainMenuButton::Quit];
    let mut i: usize = 0;
    while i < 4
        invariant
            i <= 4,
            buttons@ == seq![MainMenuButton::Start, MainMenuButton::Settings, MainMenuButton::Credits, MainMenuButton::Quit],
            ops_of(cmds@) == title_ops(title_color) + button_ops(*state, text_color, normal_bg, hover_bg, press_bg).take(i as int),
        decreases 4 - i,
    {
        let b = buttons[i];
        let mut text = String::new();
        push_char(&mut text, b.icon());
        text.append("  ");
        text.append(b.label());
        proof {
            reveal_strlit("  ");
            assert(text@ =~= seq![button_icon(b)] + "  "@ + button_label(b));
        }
        let bg = button_bg(state, b, normal_bg, hover_bg, press_bg);
        push_set_line_with_bg(&mut cmds, b.row(), BUTTON_X_START, BUTTON_X_END, text, TextAlign::Left, text_color, bg);
        proof {
            let bo = button_ops(*state, text_color, normal_bg, hover_bg, press_bg);
            assert(bo.take(i + 1) =~= bo.take(i as int).push(bo[i as int]));
        }
        i = i + 1;
    }
    proof {
        assert(title_ops(title_color).take(250) =~= title_ops(title_color));
        let bo = button_ops(*state, text_color, normal_bg, hover_bg, press_bg);
        assert(bo.take(4) =~= bo);
    }
    cmds
}


impl Default for MainMenuState {
    /// Nothing hovered or pressed (see `new`).
    fn default() -> (s: Self)
        ensures
            s.hovered is None,
            s.pressed is None,
            s.prev_hovered == Some(MainMenuButton::Start),
            s.prev_pressed is None,
    {
        Self::new()
    }
}

/// Every button is drawn on its row with the background its state calls for:
/// the press colour whenever it is the pressed button, whatever the hover;
/// otherwise the hover colour when it is hovered; otherwise the normal colour.
/// Its drawing follows the 250 title cells, in button order.
pub proof fn lemma_button_backgrounds<C>(
    s: MainMenuState,
    b: MainMenuButton,
    title: C,
    text: C,
    normal: C,
    hover: C,
    press: C,
)
    ensures
        ({
            let i: int = match b {
                MainMenuButton::Start => 0,
                MainMenuButton::Settings => 1,
                MainMenuButton::Credits => 2,
                MainMenuButton::Quit => 3,
            };
            let op = (title_ops(title) + button_ops(s, text, normal, hover, press))[250 + i];
            &&& op matches DrawOp::SetLineWithBg(row, xs, xe, _, _, fg, bg)
            &&& row == 30 + 2 * i
            &&& xs == 36 && xe == 62 && fg == text
            &&& s.pressed == Some(b) ==> bg == press
            &&& (s.pressed != Some(b) && s.hovered == Some(b)) ==> bg == hover
            &&& (s.pressed != Some(b) && s.hovered != Some(b)) ==> bg == normal
        }),
{
    let i: int = match b {
        MainMenuButton::Start => 0,
        MainMenuButton::Settings => 1,
        MainMenuButton::Credits => 2,
        MainMenuButton::Quit => 3,
    };
    let t = title_ops(title);
    let bo = button_ops(s, text, normal, hover, press);
    assert(t.len() == 250);
    assert((t + bo)[250 + i] == bo[i]);
}

} // verus!

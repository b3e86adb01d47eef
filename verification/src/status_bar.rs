//! The status bar on the two bottom rows: a left button (the pixel editor from
//! the main menu, back to the main menu elsewhere), a settings button, and the
//! hover text between them, scrolling when it is too long.

use vstd::prelude::*;
use vstd::string::*;
use crate::router::AppState;
use crate::text::{push_char, str_chars};
use crate::canvas::{CanvasCommand, DrawOp, TextAlign, ops_of, push_clear_rect, push_set_line, push_set_line_with_bg};

verus! {

/// The status bar's rows.
pub const STATUS_ROW_TOP: usize = 52;
pub const STATUS_ROW_BOTTOM: usize = 53;
/// Layout of the bottom row: left button, text area, settings button.
pub const GRID_TOGGLE_X: usize = 0;
pub const TEXT_AREA_X_START: usize = 1;
pub const TEXT_AREA_X_END: usize = 95;
pub const SETTINGS_BUTTON_X: usize = 95;
/// Ideographic spaces around the scrolling text, on each side.
pub const SCROLL_PADDING_FULLWIDTH: usize = 2;

/// The status-bar buttons.
#[derive(Debug, Clone, Copy, PartialEq, Eq, Structural)]
pub enum StatusBarButton {
    /// The pixel editor from the main menu; back to the main menu elsewhere.
    Left,
    Settings,
}

/// The text shown while a status-bar button is hovered on page `page`.
pub open spec fn status_label(b: StatusBarButton, page: AppState) -> Seq<char> {
    match b {
        StatusBarButton::Left => match page {
            AppState::MainMenu => "像素编辑器"@,
            _ => "返回主菜单"@,
        },
        StatusBarButton::Settings => "设置"@,
    }
}

impl StatusBarButton {
    /// The button's cell.
    pub fn cell(&self) -> (c: (usize, usize))
        ensures
            c == (match *self {
                StatusBarButton::Left => (0usize, 53usize),
                StatusBarButton::Settings => (95usize, 53usize),
            }),
    {
        match self {
            StatusBarButton::Left => (GRID_TOGGLE_X, STATUS_ROW_BOTTOM),
            StatusBarButton::Settings => (SETTINGS_BUTTON_X, STATUS_ROW_BOTTOM),
        }
    }

    /// The full description shown while the button is hovered.
    pub fn hover_label(&self, app_state: &AppState) -> (s: &'static str)
        ensures
            s@ == status_label(*self, *app_state),
    {
        match self {
            StatusBarButton::Left => match app_state {
                AppState::MainMenu => {
                    proof { reveal_strlit("像素编辑器"); }
                    "像素编辑器"
                },
                _ => {
                    proof { reveal_strlit("返回主菜单"); }
                    "返回主菜单"
                },
            },
            StatusBarButton::Settings => {
                proof { reveal_strlit("设置"); }
                "设置"
            },
        }
    }
}

/// The status-bar button at `(x, y)`.
pub open spec fn status_button_at(x: int, y: int) -> Option<StatusBarButton> {
    if y != 53 {
        None
    } else if x == 0 {
        Some(StatusBarButton::Left)
    } else if x == 95 {
        Some(StatusBarButton::Settings)
    } else {
        None
    }
}

/// The status-bar button under cell `(x, y)`.
pub fn cell_to_status_bar_button(x: usize, y: usize) -> (b: Option<StatusBarButton>)
    ensures
        b == status_button_at(x as int, y as int),
{
    if y != STATUS_ROW_BOTTOM {
        return None;
    }
    if x == GRID_TOGGLE_X {
        return Some(StatusBarButton::Left);
    }
    if x == SETTINGS_BUTTON_X {
        return Some(StatusBarButton::Settings);
    }
    None
}

/// The status bar's state; the `prev_*` fields remember what was drawn.
pub struct StatusBarState {
    pub hovered: Option<StatusBarButton>,
    pub pressed: Option<StatusBarButton>,
    /// A click on the left button waiting to be acted on.
    pub pending_left_click: bool,
    /// The full text for the hovered place.
    pub hover_text: String,
    pub scroll_offset: usize,
    pub prev_hovered: Option<StatusBarButton>,
    pub prev_pressed: Option<StatusBarButton>,
    pub prev_hover_text: String,
    pub prev_scroll_offset: usize,
    pub prev_grid_visible: bool,
    pub prev_app_state: Option<AppState>,
}

/// `n` ideographic spaces.
pub open spec fn ideo_spaces(n: int) -> Seq<char> {
    Seq::new(n as nat, |i: int| '\u{3000}')
}

/// The text area's content: two ideographic spaces on each side of the text;
/// a text that fits in `max_cells - 4` is shown once and padded with
/// ideographic spaces, a longer one is shown from `offset` on, wrapping round.
pub open spec fn scroll_display(content: Seq<char>, offset: int, max_cells: int) -> Seq<char> {
    let pad = ideo_spaces(2);
    let len = content.len() as int;
    let take = if max_cells >= 4 {
        max_cells - 4
    } else {
        0
    };
    if len == 0 {
        pad + pad
    } else if len <= take {
        pad + content + ideo_spaces(take - len) + pad
    } else {
        pad + Seq::new(take as nat, |i: int| content[(offset + i) % len]) + pad
    }
}

/// Whether the scroll position plus the shown width fits a machine word
/// (needed only when the text is longer than the area).
pub open spec fn scroll_fits(content: Seq<char>, offset: int, max_cells: int) -> bool {
    let take = if max_cells >= 4 {
        max_cells - 4
    } else {
        0
    };
    content.len() <= take || offset + take <= usize::MAX + 1
}

/// Whether `scroll_text_for_display` can be asked for these arguments (see `scroll_fits`).
pub fn scroll_text_fits(content: &str, offset: usize, max_cells: usize) -> (r: bool)
    ensures
        r == scroll_fits(content@, offset as int, max_cells as int),
{
    let take = if max_cells >= 4 { max_cells - 4 } else { 0 };
    content.unicode_len() <= take || take == 0 || offset <= usize::MAX - (take - 1)
}

/// The text area's content for `content` scrolled by `offset` (see `scroll_display`).
pub fn scroll_text_for_display(content: &str, offset: usize, max_cells: usize) -> (s: String)
    requires
        scroll_fits(content@, offset as int, max_cells as int),
    ensures
        s@ == scroll_display(content@, offset as int, max_cells as int),
{
    let chars = str_chars(content);
    let len = chars.len();
    let mut out = String::new();
    push_char(&mut out, '\u{3000}');
    push_char(&mut out, '\u{3000}');
    proof {
        assert(out@ =~= ideo_spaces(2));
    }
    if len == 0 {
        push_char(&mut out, '\u{3000}');
        push_char(&mut out, '\u{3000}');
        proof {
            assert(out@ =~= scroll_display(content@, offset as int, max_cells as int));
        }
        return out;
    }
    let take = if max_cells >= 4 { max_cells - 4 } else { 0 };
    if len <= take {
        let mut i: usize = 0;
        while i < len
            invariant
                i <= len == chars@.len(),
                chars@ == content@,
                out@ == ideo_spaces(2) + chars@.take(i as int),
            decreases len - i,
        {
            push_char(&mut out, chars[i]);
            proof {
                assert(out@ =~= ideo_spaces(2) + chars@.take(i + 1));
            }
            i = i + 1;
        }
        let mut j: usize = len;
        while j < take
            invariant
                len <= j <= take,
                len == chars@.len(),
                chars@ == content@,
                out@ == ideo_spaces(2) + chars@ + ideo_spaces(j - len),
            decreases take - j,
        {
            push_char(&mut out, '\u{3000}');
            proof {
                assert(out@ =~= ideo_spaces(2) + chars@ + ideo_spaces(j + 1 - len));
            }
            j = j + 1;
        }
        proof {
            assert(chars@.take(len as int) =~= chars@);
        }
    } else {
        let mut i: usize = 0;
        while i < take
            invariant
                i <= take < len == chars@.len(),
                chars@ == content@,
                offset + take <= usize::MAX + 1,
                out@ == ideo_spaces(2) + Seq::new(i as nat, |k: int| content@[(offset + k) % (len as int)]),
            decreases take - i,
        {
            let idx = (offset + i) % len;
            push_char(&mut out, chars[idx]);
            proof {
                assert(out@ =~= ideo_spaces(2) + Seq::new((i + 1) as nat, |k: int| content@[(offset + k) % (len as int)]));
            }
            i = i + 1;
        }
    }
    push_char(&mut out, '\u{3000}');
    push_char(&mut out, '\u{3000}');
    proof {
        assert(out@ =~= scroll_display(content@, offset as int, max_cells as int));
    }
    out
}

fn same_button(a: Option<StatusBarButton>, b: Option<StatusBarButton>) -> (r: bool)
    ensures
        r == (a == b),
{
    match (a, b) {
        (Some(x), Some(y)) => x == y,
        (None, None) => true,
        _ => false,
    }
}

fn same_page(a: Option<AppState>, b: Option<AppState>) -> (r: bool)
    ensures
        r == (a == b),
{
    match (a, b) {
        (Some(x), Some(y)) => x == y,
        (None, None) => true,
        _ => false,
    }
}

/// `s` with what is shown recorded as drawn.
pub open spec fn status_drawn(s: StatusBarState, grid_visible: bool, page: AppState) -> StatusBarState {
    StatusBarState {
        prev_hovered: s.hovered,
        prev_pressed: s.pressed,
        prev_hover_text: s.hover_text,
        prev_scroll_offset: s.scroll_offset,
        prev_grid_visible: grid_visible,
        prev_app_state: Some(page),
        ..s
    }
}

/// Whether anything the status bar shows changed since it was last drawn.
pub open spec fn status_changed(s: StatusBarState, grid_visible: bool, page: AppState) -> bool {
    s.hovered != s.prev_hovered || s.pressed != s.prev_pressed || s.hover_text@ != s.prev_hover_text@
        || s.scroll_offset != s.prev_scroll_offset || grid_visible != s.prev_grid_visible
        || s.prev_app_state != Some(page)
}

impl StatusBarState {
    /// Nothing hovered, pressed or shown yet.
    pub fn new() -> (s: Self)
        ensures
            s.hovered is None && s.pressed is None && !s.pending_left_click,
            s.hover_text@.len() == 0,
            s.scroll_offset == 0,
            s.prev_hovered is None && s.prev_pressed is None,
            s.prev_hover_text@.len() == 0,
            s.prev_scroll_offset == 0,
            !s.prev_grid_visible,
            s.prev_app_state is None,
    {
        StatusBarState {
            hovered: None,
            pressed: None,
            pending_left_click: false,
            hover_text: String::new(),
            scroll_offset: 0,
            prev_hovered: None,
            prev_pressed: None,
            prev_hover_text: String::new(),
            prev_scroll_offset: 0,
            prev_grid_visible: false,
            prev_app_state: None,
        }
    }

    /// The pointer moved to `cell` on page `page`: the hovered button, and the
    /// text to show: the button's description, else the text another page set
    /// (`external`), else nothing.
    pub fn on_hover(&mut self, cell: Option<(usize, usize)>, page: AppState, external: &Option<String>)
        ensures
            final(self).hovered == (match cell {
                Some((x, y)) => status_button_at(x as int, y as int),
                None => None,
            }),
            final(self).hover_text@ == (match final(self).hovered {
                Some(b) => status_label(b, page),
                None => match external {
                    Some(t) => t@,
                    None => Seq::empty(),
                },
            }),
            *final(self) == (StatusBarState {
                hovered: final(self).hovered,
                hover_text: final(self).hover_text,
                ..*old(self)
            }),
    {
        self.hovered = match cell {
            Some((x, y)) => cell_to_status_bar_button(x, y),
            None => None,
        };
        self.hover_text = match self.hovered {
            Some(b) => String::from_str(b.hover_label(&page)),
            None => match external {
                Some(t) => t.clone(),
                None => String::new(),
            },
        };
    }

    /// A press at `(x, y)`.
    pub fn on_press(&mut self, x: usize, y: usize)
        ensures
            *final(self) == (StatusBarState { pressed: status_button_at(x as int, y as int), ..*old(self) }),
    {
        self.pressed = cell_to_status_bar_button(x, y);
    }

    /// A release at `(x, y)`: ends a press; a click (press and release on the
    /// same button) on the left button is kept for `take_navigation`.
    pub fn on_release(&mut self, x: usize, y: usize)
        ensures
            *final(self) == (match old(self).pressed {
                Some(b) => StatusBarState {
                    pressed: None,
                    pending_left_click: old(self).pending_left_click || (b == StatusBarButton::Left
                        && status_button_at(x as int, y as int) == Some(b)),
                    ..*old(self)
                },
                None => *old(self),
            }),
    {
        match self.pressed {
            Some(b) => {
                if same_button(cell_to_status_bar_button(x, y), Some(b)) {
                    match b {
                        StatusBarButton::Left => {
                            self.pending_left_click = true;
                        },
                        StatusBarButton::Settings => {},
                    }
                }
                self.pressed = None;
            },
            None => {},
        }
    }

    /// After the events of a frame: a pending left click leads from the main
    /// menu to the pixel editor and from any other page to the main menu.
    pub fn take_navigation(&mut self, page: AppState) -> (next: Option<AppState>)
        ensures
            *final(self) == (StatusBarState { pending_left_click: false, ..*old(self) }),
            next == (if old(self).pending_left_click {
                Some(
                    match page {
                        AppState::MainMenu => AppState::PixelEditor,
                        _ => AppState::MainMenu,
                    },
                )
            } else {
                None
            }),
    {
        if self.pending_left_click {
            self.pending_left_click = false;
            match page {
                AppState::MainMenu => Some(AppState::PixelEditor),
                _ => Some(AppState::MainMenu),
            }
        } else {
            None
        }
    }

    /// One scroll step: the text moves one character on, wrapping round.
    pub fn advance_scroll(&mut self)
        requires
            old(self).scroll_offset < usize::MAX,
        ensures
            *final(self) == (StatusBarState {
                scroll_offset: if old(self).hover_text@.len() > 0 {
                    ((old(self).scroll_offset + 1) % (old(self).hover_text@.len() as int)) as usize
                } else {
                    old(self).scroll_offset
                },
                ..*old(self)
            }),
    {
        let len = self.hover_text.as_str().unicode_len();
        if len > 0 {
            self.scroll_offset = (self.scroll_offset + 1) % len;
        }
    }

    /// Starts a frame: when anything shown changed (see `status_changed`),
    /// records it as drawn and returns `true` (the bar is then redrawn).
    pub fn begin_draw(&mut self, grid_visible: bool, page: AppState) -> (redraw: bool)
        ensures
            redraw == status_changed(*old(self), grid_visible, page),
            redraw ==> *final(self) == status_drawn(*old(self), grid_visible, page),
            !redraw ==> *final(self) == *old(self),
    {
        let changed = !same_button(self.hovered, self.prev_hovered) || !same_button(
            self.pressed,
            self.prev_pressed,
        ) || !(self.hover_text == self.prev_hover_text) || self.scroll_offset != self.prev_scroll_offset
            || grid_visible != self.prev_grid_visible || !same_page(self.prev_app_state, Some(page));
        if !changed {
            return false;
        }
        self.prev_hovered = self.hovered;
        self.prev_pressed = self.pressed;
        self.prev_hover_text = self.hover_text.clone();
        self.prev_scroll_offset = self.scroll_offset;
        self.prev_grid_visible = grid_visible;
        self.prev_app_state = Some(page);
        true
    }
}


/// The left button's one-character caption: the pixel editor from the main
/// menu, back elsewhere.
pub open spec fn left_caption(page: AppState) -> Seq<char> {
    match page {
        AppState::MainMenu => "像"@,
        _ => "返"@,
    }
}

/// The background of a status-bar button: pressed, hovered, or normal.
pub open spec fn status_button_bg<C>(s: StatusBarState, b: StatusBarButton, normal: C, hover: C, press: C) -> C {
    if s.pressed == Some(b) {
        press
    } else if s.hovered == Some(b) {
        hover
    } else {
        normal
    }
}

/// The status bar's drawing: both rows cleared, the top row left empty, then
/// the left button, the hover text (see `scroll_display`) and the settings button.
pub open spec fn status_bar_ops<C>(
    s: StatusBarState,
    page: AppState,
    muted: C,
    primary: C,
    secondary: C,
    text_bg: C,
    normal: C,
    hover: C,
    press: C,
) -> Seq<DrawOp<C>> {
    seq![
        DrawOp::ClearRect(0, 52, 96, 2),
        DrawOp::SetLine(52, 0, 96, Seq::empty(), TextAlign::Left, muted),
        DrawOp::SetLineWithBg(
            53,
            0,
            1,
            left_caption(page),
            TextAlign::Center,
            primary,
            status_button_bg(s, StatusBarButton::Left, normal, hover, press),
        ),
        DrawOp::SetLineWithBg(
            53,
            1,
            95,
            scroll_display(s.hover_text@, s.scroll_offset as int, 94),
            TextAlign::Left,
            secondary,
            text_bg,
        ),
        DrawOp::SetLineWithBg(
            53,
            95,
            96,
            "设"@,
            TextAlign::Center,
            primary,
            status_button_bg(s, StatusBarButton::Settings, normal, hover, press),
        ),
    ]
}

fn status_bg<C: Copy>(s: &StatusBarState, b: StatusBarButton, normal: C, hover: C, press: C) -> (c: C)
    ensures
        c == status_button_bg(*s, b, normal, hover, press),
{
    if same_button(s.pressed, Some(b)) {
        press
    } else if same_button(s.hovered, Some(b)) {
        hover
    } else {
        normal
    }
}

/// The status bar's drawing commands (see `status_bar_ops`).
pub fn status_bar_draw<C: Copy>(
    state: &StatusBarState,
    page: AppState,
    muted: C,
    primary: C,
    secondary: C,
    text_bg: C,
    normal_bg: C,
    hover_bg: C,
    press_bg: C,
) -> (cmds: Vec<CanvasCommand<C>>)
    requires
        scroll_fits(state.hover_text@, state.scroll_offset as int, 94),
    ensures
        ops_of(cmds@) == status_bar_ops(*state, page, muted, primary, secondary, text_bg, normal_bg, hover_bg, press_bg),
{
    let mut cmds: Vec<CanvasCommand<C>> = Vec::new();
    push_clear_rect(&mut cmds, 0, STATUS_ROW_TOP, 96, 2);
    push_set_line(&mut cmds, STATUS_ROW_TOP, 0, 96, String::new(), TextAlign::Left, muted);
    let left = match page {
        AppState::MainMenu => {
            proof { reveal_strlit("像"); }
            String::from_str("像")
        },
        _ => {
            proof { reveal_strlit("返"); }
            String::from_str("返")
        },
    };
    let left_bg = status_bg(state, StatusBarButton::Left, normal_bg, hover_bg, press_bg);
    push_set_line_with_bg(&mut cmds, STATUS_ROW_BOTTOM, 0, 1, left, TextAlign::Center, primary, left_bg);
    let scroll = scroll_text_for_display(state.hover_text.as_str(), state.scroll_offset, TEXT_AREA_X_END - TEXT_AREA_X_START);
    push_set_line_with_bg(
        &mut cmds,
        STATUS_ROW_BOTTOM,
        TEXT_AREA_X_START,
        TEXT_AREA_X_END,
        scroll,
        TextAlign::Left,
        secondary,
        text_bg,
    );
    let settings_bg = status_bg(state, StatusBarButton::Settings, normal_bg, hover_bg, press_bg);
    push_set_line_with_bg(
        &mut cmds,
        STATUS_ROW_BOTTOM,
        SETTINGS_BUTTON_X,
        SETTINGS_BUTTON_X + 1,
        String::from_str("设"),
        TextAlign::Center,
        primary,
        settings_bg,
    );
    proof {
        assert(ops_of(cmds@) =~= status_bar_ops(*state, page, muted, primary, secondary, text_bg, normal_bg, hover_bg, press_bg));
    }
    cmds
}


/// A non-empty hover text always fills the text area exactly: 94 cells.
pub proof fn lemma_scroll_display_fills(content: Seq<char>, offset: int)
    requires
        content.len() > 0,
    ensures
        scroll_display(content, offset, 94).len() == 94,
{
}



impl Default for StatusBarState {
    /// Nothing hovered, pressed or shown yet (see `new`).
    fn default() -> (s: Self)
        ensures
            s.hovered is None && s.pressed is None && !s.pending_left_click,
            s.hover_text@.len() == 0,
            s.scroll_offset == 0,
            s.prev_app_state is None,
    {
        Self::new()
    }
}

} // verus!

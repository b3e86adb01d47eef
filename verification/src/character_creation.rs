//! Character creation in steps (base attributes, origin, abilities, items):
//! the name field, the 30-point attribute budget, step navigation, and the
//! copy of the choices kept in the game being created.

use vstd::prelude::*;
use vstd::string::*;
use crate::router::AppState;
use crate::text::{pop_char, push_char, str_chars};
use crate::fmt::{decimal, push_decimal};
use crate::canvas::{CanvasCommand, DrawOp, TextAlign, ops_of, push_clear_rect, push_set_char, push_set_line, push_set_char_with_bg, push_set_line_with_bg};

verus! {

/// Rows 52 and 53 belong to the status bar.
pub const STATUS_BAR_TOP: usize = 52;
pub const TITLE_X: usize = 2;
pub const TITLE_Y: usize = 2;
/// The back button, top right.
pub const BACK_TOP_Y: usize = 2;
pub const BACK_TOP_X_START: usize = 90;
pub const BACK_TOP_X_END: usize = 96;
/// The stepper row: the step name, then one icon per step.
pub const STEPPER_ROW_Y: usize = 4;
pub const STEP_NAME_X_START: usize = 2;
pub const STEP_NAME_X_END: usize = 24;
pub const STEPPER_ICONS_X_START: usize = 28;
pub const STEPPER_ICON_SPACING: usize = 4;
pub const NUM_STEPS: usize = 4;
/// The name row: label and input field; names hold at most `MAX_NAME_LEN` characters.
pub const NAME_ROW_Y: usize = 6;
pub const NAME_LABEL_X_START: usize = 4;
pub const NAME_LABEL_X_END: usize = 8;
pub const NAME_INPUT_X_START: usize = 8;
pub const NAME_INPUT_X_END: usize = 50;
pub const MAX_NAME_LEN: usize = 20;
/// The content area of a step.
pub const CONTENT_ROW_START: usize = 8;
pub const CONTENT_X_START: usize = 4;
pub const CONTENT_X_END: usize = 92;
/// 30 points to spend, at most 15 per attribute at creation (20 later).
pub const BASE_ATTR_POINTS_TOTAL: u8 = 30;
pub const BASE_ATTR_MAX_AT_CREATION: u8 = 15;
pub const BASE_ATTR_MAX: u8 = 20;
/// Rows of the description and of the three attributes.
pub const BASE_ATTR_ROW_DESC: usize = 8;
pub const BASE_ATTR_ROW_EXEC: usize = 10;
pub const BASE_ATTR_ROW_REACT: usize = 12;
pub const BASE_ATTR_ROW_HABIT: usize = 14;
/// Columns of an attribute row.
pub const BASE_ATTR_NAME_X: usize = 4;
pub const BASE_ATTR_MINUS_X_START: usize = 10;
pub const BASE_ATTR_MINUS_X_END: usize = 12;
pub const BASE_ATTR_VAL_X: usize = 14;
pub const BASE_ATTR_MOD_X_START: usize = 18;
pub const BASE_ATTR_MOD_X_END: usize = 28;
pub const BASE_ATTR_PLUS_X_START: usize = 30;
pub const BASE_ATTR_PLUS_X_END: usize = 32;
/// The previous / next buttons.
pub const BUTTON_ROW_Y: usize = 46;
pub const BTN_PREV_X_START: usize = 2;
pub const BTN_PREV_X_END: usize = 18;
pub const BTN_NEXT_X_START: usize = 22;
pub const BTN_NEXT_X_END: usize = 46;

/// `(value - 10) / 2`, rounded toward zero.
pub open spec fn modifier_of(value: u8) -> int {
    if value >= 10 {
        (value - 10) / 2
    } else {
        -((10 - value) / 2)
    }
}

/// The modifier of an attribute value: `(value - 10) / 2` in integer division.
pub fn base_attr_modifier(value: u8) -> (m: i32)
    ensures
        m == modifier_of(value),
{
    if value >= 10 {
        ((value - 10) / 2) as i32
    } else {
        -(((10 - value) / 2) as i32)
    }
}

/// The three base attributes.
#[derive(Debug, Clone, Copy, PartialEq, Eq, Structural)]
pub enum BaseAttrKind {
    Execution,
    Reaction,
    Habit,
}

pub open spec fn attr_name(k: BaseAttrKind) -> Seq<char> {
    match k {
        BaseAttrKind::Execution => "执行"@,
        BaseAttrKind::Reaction => "反应"@,
        BaseAttrKind::Habit => "习性"@,
    }
}

impl BaseAttrKind {
    /// The attribute's name.
    pub fn name(self) -> (s: &'static str)
        ensures
            s@ == attr_name(self),
    {
        match self {
            BaseAttrKind::Execution => {
                proof { reveal_strlit("执行"); }
                "执行"
            },
            BaseAttrKind::Reaction => {
                proof { reveal_strlit("反应"); }
                "反应"
            },
            BaseAttrKind::Habit => {
                proof { reveal_strlit("习性"); }
                "习性"
            },
        }
    }
}

/// The − and + buttons of an attribute row.
#[derive(Debug, Clone, Copy, PartialEq, Eq, Structural)]
pub enum BaseAttrButton {
    Minus(BaseAttrKind),
    Plus(BaseAttrKind),
}

pub open spec fn kind_row(k: BaseAttrKind) -> usize {
    match k {
        BaseAttrKind::Execution => 10,
        BaseAttrKind::Reaction => 12,
        BaseAttrKind::Habit => 14,
    }
}

/// The row of a button's attribute.
pub fn base_attr_row(btn: BaseAttrButton) -> (row: usize)
    ensures
        row == kind_row(
            match btn {
                BaseAttrButton::Minus(k) => k,
                BaseAttrButton::Plus(k) => k,
            },
        ),
{
    let k = match btn {
        BaseAttrButton::Minus(k) => k,
        BaseAttrButton::Plus(k) => k,
    };
    match k {
        BaseAttrKind::Execution => BASE_ATTR_ROW_EXEC,
        BaseAttrKind::Reaction => BASE_ATTR_ROW_REACT,
        BaseAttrKind::Habit => BASE_ATTR_ROW_HABIT,
    }
}

/// The attribute button under `(x, y)`: − in columns 10..12, + in 30..32 of
/// rows 10, 12, 14.
pub open spec fn attr_button_at(x: int, y: int) -> Option<BaseAttrButton> {
    let kind = if y == 10 {
        Some(BaseAttrKind::Execution)
    } else if y == 12 {
        Some(BaseAttrKind::Reaction)
    } else if y == 14 {
        Some(BaseAttrKind::Habit)
    } else {
        None
    };
    match kind {
        Some(k) => if 10 <= x < 12 {
            Some(BaseAttrButton::Minus(k))
        } else if 30 <= x < 32 {
            Some(BaseAttrButton::Plus(k))
        } else {
            None
        },
        None => None,
    }
}

/// The attribute button under cell `(x, y)`.
pub fn cell_to_base_attr_button(x: usize, y: usize) -> (b: Option<BaseAttrButton>)
    ensures
        b == attr_button_at(x as int, y as int),
{
    let kind = if y == BASE_ATTR_ROW_EXEC {
        BaseAttrKind::Execution
    } else if y == BASE_ATTR_ROW_REACT {
        BaseAttrKind::Reaction
    } else if y == BASE_ATTR_ROW_HABIT {
        BaseAttrKind::Habit
    } else {
        return None;
    };
    if x >= BASE_ATTR_MINUS_X_START && x < BASE_ATTR_MINUS_X_END {
        return Some(BaseAttrButton::Minus(kind));
    }
    if x >= BASE_ATTR_PLUS_X_START && x < BASE_ATTR_PLUS_X_END {
        return Some(BaseAttrButton::Plus(kind));
    }
    None
}

/// The creation steps, in order.
#[derive(Debug, Clone, Copy, PartialEq, Eq, Structural)]
pub enum CreationStep {
    BaseAttr,
    Origin,
    Ability,
    Item,
}

pub open spec fn step_index(s: CreationStep) -> usize {
    match s {
        CreationStep::BaseAttr => 0,
        CreationStep::Origin => 1,
        CreationStep::Ability => 2,
        CreationStep::Item => 3,
    }
}

/// The step at an index; indices from 3 on are the last step.
pub open spec fn step_at(i: usize) -> CreationStep {
    if i == 0 {
        CreationStep::BaseAttr
    } else if i == 1 {
        CreationStep::Origin
    } else if i == 2 {
        CreationStep::Ability
    } else {
        CreationStep::Item
    }
}

pub open spec fn step_name(s: CreationStep) -> Seq<char> {
    match s {
        CreationStep::BaseAttr => "基础属性"@,
        CreationStep::Origin => "出身"@,
        CreationStep::Ability => "能力"@,
        CreationStep::Item => "物品"@,
    }
}

impl CreationStep {
    /// Position of the step, from 0.
    pub fn index(self) -> (i: usize)
        ensures
            i == step_index(self),
    {
        match self {
            CreationStep::BaseAttr => 0,
            CreationStep::Origin => 1,
            CreationStep::Ability => 2,
            CreationStep::Item => 3,
        }
    }

    /// The step at index `i` (the last step for any index from 3 on).
    pub fn from_index(i: usize) -> (s: Self)
        ensures
            s == step_at(i),
    {
        match i {
            0 => CreationStep::BaseAttr,
            1 => CreationStep::Origin,
            2 => CreationStep::Ability,
            _ => CreationStep::Item,
        }
    }

    /// The step's title.
    pub fn name(self) -> (s: &'static str)
        ensures
            s@ == step_name(self),
    {
        match self {
            CreationStep::BaseAttr => {
                proof { reveal_strlit("基础属性"); }
                "基础属性"
            },
            CreationStep::Origin => {
                proof { reveal_strlit("出身"); }
                "出身"
            },
            CreationStep::Ability => {
                proof { reveal_strlit("能力"); }
                "能力"
            },
            CreationStep::Item => {
                proof { reveal_strlit("物品"); }
                "物品"
            },
        }
    }

    /// The step's stepper icon.
    pub fn icon(self) -> (c: char)
        ensures
            c == match self {
                CreationStep::BaseAttr => '\u{f007}',
                CreationStep::Origin => '\u{f015}',
                CreationStep::Ability => '\u{f0e7}',
                CreationStep::Item => '\u{f466}',
            },
    {
        match self {
            CreationStep::BaseAttr => '\u{f007}',
            CreationStep::Origin => '\u{f015}',
            CreationStep::Ability => '\u{f0e7}',
            CreationStep::Item => '\u{f466}',
        }
    }

    /// The following step, if any.
    pub fn next(self) -> (n: Option<Self>)
        ensures
            n == (if step_index(self) < 3 {
                Some(step_at((step_index(self) + 1) as usize))
            } else {
                None
            }),
    {
        match self {
            CreationStep::BaseAttr => Some(CreationStep::Origin),
            CreationStep::Origin => Some(CreationStep::Ability),
            CreationStep::Ability => Some(CreationStep::Item),
            CreationStep::Item => None,
        }
    }

    /// The preceding step, if any.
    pub fn prev(self) -> (p: Option<Self>)
        ensures
            p == (if step_index(self) > 0 {
                Some(step_at((step_index(self) - 1) as usize))
            } else {
                None
            }),
    {
        match self {
            CreationStep::BaseAttr => None,
            CreationStep::Origin => Some(CreationStep::BaseAttr),
            CreationStep::Ability => Some(CreationStep::Origin),
            CreationStep::Item => Some(CreationStep::Ability),
        }
    }
}

/// Whether `(x, y)` is on the previous-step button.
pub fn cell_in_prev_button(x: usize, y: usize) -> (r: bool)
    ensures
        r == (y == 46 && 2 <= x < 18),
{
    y == BUTTON_ROW_Y && x >= BTN_PREV_X_START && x < BTN_PREV_X_END
}

/// Whether `(x, y)` is on the next-step button.
pub fn cell_in_next_button(x: usize, y: usize) -> (r: bool)
    ensures
        r == (y == 46 && 22 <= x < 46),
{
    y == BUTTON_ROW_Y && x >= BTN_NEXT_X_START && x < BTN_NEXT_X_END
}

/// Whether `(x, y)` is on the back button.
pub fn cell_in_back_button(x: usize, y: usize) -> (r: bool)
    ensures
        r == (y == 2 && 90 <= x < 96),
{
    y == BACK_TOP_Y && x >= BACK_TOP_X_START && x < BACK_TOP_X_END
}

/// Whether `(x, y)` is on the name field.
pub fn cell_in_name_input(x: usize, y: usize) -> (r: bool)
    ensures
        r == (y == 6 && 8 <= x < 50),
{
    y == NAME_ROW_Y && x >= NAME_INPUT_X_START && x < NAME_INPUT_X_END
}

/// A character of the game being created.
pub struct InitialCharacter {
    pub name: String,
    pub attr_execution: u8,
    pub attr_reaction: u8,
    pub attr_habit: u8,
}

/// The characters of the game being created, while one is.
pub struct NewGameInProgress(pub Option<Vec<InitialCharacter>>);

/// A key press while the page is shown.
pub enum KeyInput {
    Backspace,
    /// Enter or the keypad's Enter.
    Enter,
    Escape,
    /// A key that types text.
    Text(String),
    /// Any other key.
    Other,
}

/// The character-creation page's state; the `prev_*` fields remember what was drawn.
pub struct CharacterCreationState {
    pub current_step: usize,
    pub attr_execution: u8,
    pub attr_reaction: u8,
    pub attr_habit: u8,
    /// The name being edited; the first character's name follows it.
    pub name_edit_buffer: String,
    /// Whether key presses edit the name.
    pub editing_name: bool,
    pub prev_app_state: Option<AppState>,
    pub prev_step: usize,
    pub prev_attr_execution: u8,
    pub prev_attr_reaction: u8,
    pub prev_attr_habit: u8,
    pub prev_name_edit_buffer: String,
    pub prev_editing_name: bool,
    pub prev_hover_prev: bool,
    pub prev_hover_next: bool,
    pub prev_hover_back: bool,
    pub prev_hover_name: bool,
    pub prev_hover_base_attr: Option<BaseAttrButton>,
    pub hover_prev: bool,
    pub hover_next: bool,
    pub hover_back: bool,
    pub hover_name: bool,
    pub hover_base_attr: Option<BaseAttrButton>,
}

/// Whether `c` is a control character (Unicode category Cc).
pub open spec fn is_control(c: char) -> bool {
    (c as u32) <= 0x1f || (0x7f <= (c as u32) && (c as u32) <= 0x9f)
}

fn char_is_control(c: char) -> (r: bool)
    ensures
        r == is_control(c),
{
    let v = c as u32;
    v <= 0x1f || (0x7f <= v && v <= 0x9f)
}

/// `buf` after typing `t`: each character that is not a control character is
/// appended while the name is shorter than 20 characters.
pub open spec fn typed(buf: Seq<char>, t: Seq<char>) -> Seq<char>
    decreases t.len(),
{
    if t.len() == 0 {
        buf
    } else {
        let b = typed(buf, t.drop_last());
        if b.len() < 20 && !is_control(t.last()) {
            b.push(t.last())
        } else {
            b
        }
    }
}

/// A character as plain values: name and the three attributes.
pub open spec fn char_view(c: InitialCharacter) -> (Seq<char>, u8, u8, u8) {
    (c.name@, c.attr_execution, c.attr_reaction, c.attr_habit)
}

/// The game being created as plain values.
pub open spec fn game_view(g: NewGameInProgress) -> Option<Seq<(Seq<char>, u8, u8, u8)>> {
    match g.0 {
        Some(v) => Some(v@.map_values(|c: InitialCharacter| char_view(c))),
        None => None,
    }
}

/// The first character's name, when there is a game with a character.
pub open spec fn first_name(g: Option<Seq<(Seq<char>, u8, u8, u8)>>) -> Option<Seq<char>> {
    match g {
        Some(v) => if v.len() > 0 {
            Some(v[0].0)
        } else {
            None
        },
        None => None,
    }
}

/// The game with its first character (if any) replaced by `c`.
pub open spec fn set_first(g: Option<Seq<(Seq<char>, u8, u8, u8)>>, c: (Seq<char>, u8, u8, u8)) -> Option<
    Seq<(Seq<char>, u8, u8, u8)>,
> {
    match g {
        Some(v) => if v.len() > 0 {
            Some(v.update(0, c))
        } else {
            Some(v)
        },
        None => None,
    }
}

/// The game with its first character's name (if any) set to `name`.
pub open spec fn set_first_name(g: Option<Seq<(Seq<char>, u8, u8, u8)>>, name: Seq<char>) -> Option<
    Seq<(Seq<char>, u8, u8, u8)>,
> {
    match g {
        Some(v) => if v.len() > 0 {
            Some(v.update(0, (name, v[0].1, v[0].2, v[0].3)))
        } else {
            Some(v)
        },
        None => None,
    }
}

/// The name-editing part of the page: the buffer, whether editing, and the game.
pub open spec fn key_step(
    s: (Seq<char>, bool, Option<Seq<(Seq<char>, u8, u8, u8)>>),
    k: KeyInput,
) -> (Seq<char>, bool, Option<Seq<(Seq<char>, u8, u8, u8)>>) {
    match k {
        KeyInput::Backspace => (if s.0.len() > 0 {
            s.0.drop_last()
        } else {
            s.0
        }, s.1, s.2),
        KeyInput::Enter => (s.0, false, set_first_name(s.2, s.0)),
        KeyInput::Escape => (match first_name(s.2) {
            Some(n) => n,
            None => s.0,
        }, false, s.2),
        KeyInput::Text(t) => (typed(s.0, t@), s.1, s.2),
        KeyInput::Other => s,
    }
}

/// The keys of one frame handled in order (see `key_step`).
pub open spec fn keys_effect(
    s: (Seq<char>, bool, Option<Seq<(Seq<char>, u8, u8, u8)>>),
    keys: Seq<KeyInput>,
) -> (Seq<char>, bool, Option<Seq<(Seq<char>, u8, u8, u8)>>)
    decreases keys.len(),
{
    if keys.len() == 0 {
        s
    } else {
        key_step(keys_effect(s, keys.drop_last()), keys.last())
    }
}

/// Points spent.
pub open spec fn points_used(s: CharacterCreationState) -> int {
    s.attr_execution + s.attr_reaction + s.attr_habit
}

/// Points left of the 30, never below zero.
pub open spec fn points_left(s: CharacterCreationState) -> int {
    if points_used(s) >= 30 {
        0
    } else {
        30 - points_used(s)
    }
}

/// The value of attribute `k`.
pub open spec fn attr_of(s: CharacterCreationState, k: BaseAttrKind) -> u8 {
    match k {
        BaseAttrKind::Execution => s.attr_execution,
        BaseAttrKind::Reaction => s.attr_reaction,
        BaseAttrKind::Habit => s.attr_habit,
    }
}

/// `s` with attribute `k` set to `v`.
pub open spec fn with_attr(s: CharacterCreationState, k: BaseAttrKind, v: u8) -> CharacterCreationState {
    match k {
        BaseAttrKind::Execution => CharacterCreationState { attr_execution: v, ..s },
        BaseAttrKind::Reaction => CharacterCreationState { attr_reaction: v, ..s },
        BaseAttrKind::Habit => CharacterCreationState { attr_habit: v, ..s },
    }
}

/// The first character as the page holds it.
pub open spec fn page_character(s: CharacterCreationState) -> (Seq<char>, u8, u8, u8) {
    (s.name_edit_buffer@, s.attr_execution, s.attr_reaction, s.attr_habit)
}

/// A release first ends or starts name editing: a click on the name field
/// starts it; any other click while editing ends it and commits the name.
pub open spec fn release_name_stage(
    s: CharacterCreationState,
    g: Option<Seq<(Seq<char>, u8, u8, u8)>>,
    x: int,
    y: int,
) -> (CharacterCreationState, Option<Seq<(Seq<char>, u8, u8, u8)>>) {
    if y == 6 && 8 <= x < 50 {
        (CharacterCreationState { editing_name: true, ..s }, g)
    } else if s.editing_name {
        (CharacterCreationState { editing_name: false, ..s }, set_first_name(g, s.name_edit_buffer@))
    } else {
        (s, g)
    }
}

/// Then, on the first step, an attribute button: − lowers a positive value,
/// + raises a value below 15 while points are left; a change is copied to the
/// first character.
pub open spec fn release_attr_stage(
    s: CharacterCreationState,
    g: Option<Seq<(Seq<char>, u8, u8, u8)>>,
    x: int,
    y: int,
) -> (CharacterCreationState, Option<Seq<(Seq<char>, u8, u8, u8)>>) {
    if s.current_step != 0 {
        (s, g)
    } else {
        match attr_button_at(x, y) {
            Some(BaseAttrButton::Minus(k)) => if attr_of(s, k) > 0 {
                let s2 = with_attr(s, k, (attr_of(s, k) - 1) as u8);
                (s2, set_first(g, page_character(s2)))
            } else {
                (s, g)
            },
            Some(BaseAttrButton::Plus(k)) => if points_left(s) > 0 && attr_of(s, k) < 15 {
                let s2 = with_attr(s, k, (attr_of(s, k) + 1) as u8);
                (s2, set_first(g, page_character(s2)))
            } else {
                (s, g)
            },
            None => (s, g),
        }
    }
}

/// Last the navigation buttons: previous and next step, and back, which ends
/// editing (committing the name), drops the game being created and leaves.
pub open spec fn release_nav_stage(
    s: CharacterCreationState,
    g: Option<Seq<(Seq<char>, u8, u8, u8)>>,
    x: int,
    y: int,
) -> (CharacterCreationState, Option<Seq<(Seq<char>, u8, u8, u8)>>, bool) {
    if y == 46 && 2 <= x < 18 {
        (CharacterCreationState {
            current_step: if s.current_step > 0 {
                (s.current_step - 1) as usize
            } else {
                s.current_step
            },
            ..s
        }, g, false)
    } else if y == 46 && 22 <= x < 46 {
        (CharacterCreationState {
            current_step: if s.current_step + 1 < 4 {
                (s.current_step + 1) as usize
            } else {
                s.current_step
            },
            ..s
        }, g, false)
    } else if y == 2 && 90 <= x < 96 {
        (CharacterCreationState { editing_name: false, ..s }, None, true)
    } else {
        (s, g, false)
    }
}

/// The whole effect of a release at `(x, y)`: the three stages in turn.
pub open spec fn release_effect(
    s: CharacterCreationState,
    g: Option<Seq<(Seq<char>, u8, u8, u8)>>,
    x: int,
    y: int,
) -> (CharacterCreationState, Option<Seq<(Seq<char>, u8, u8, u8)>>, bool) {
    let (s1, g1) = release_name_stage(s, g, x, y);
    let (s2, g2) = release_attr_stage(s1, g1, x, y);
    release_nav_stage(s2, g2, x, y)
}

/// The hover part of the state.
pub open spec fn creation_hover(s: CharacterCreationState) -> (bool, bool, bool, bool, Option<BaseAttrButton>) {
    (s.hover_prev, s.hover_next, s.hover_back, s.hover_name, s.hover_base_attr)
}

/// What the pointer at `(x, y)` hovers: previous, next, back, the name field,
/// and on the first step an attribute button.
pub open spec fn creation_hover_at(step: usize, x: int, y: int) -> (bool, bool, bool, bool, Option<BaseAttrButton>) {
    (
        y == 46 && 2 <= x < 18,
        y == 46 && 22 <= x < 46,
        y == 2 && 90 <= x < 96,
        y == 6 && 8 <= x < 50,
        if step == 0 {
            attr_button_at(x, y)
        } else {
            None
        },
    )
}

/// The status-bar text for a hover.
pub open spec fn creation_hover_text(step: usize, h: (bool, bool, bool, bool, Option<BaseAttrButton>)) -> Option<
    Seq<char>,
> {
    if h.0 {
        Some("上一步"@)
    } else if h.1 {
        Some(
            if step + 1 >= 4 {
                "完成"@
            } else {
                "下一步"@
            },
        )
    } else if h.2 {
        Some("返回"@)
    } else if h.3 {
        Some("点击修改名字"@)
    } else {
        match h.4 {
            Some(BaseAttrButton::Minus(k)) => Some(attr_name(k) + " -1"@),
            Some(BaseAttrButton::Plus(k)) => Some(attr_name(k) + " +1"@),
            None => None,
        }
    }
}

/// The view of an optional text.
pub open spec fn opt_text(t: Option<String>) -> Option<Seq<char>> {
    match t {
        Some(s) => Some(s@),
        None => None,
    }
}

/// Which parts of the page a frame redraws: the content, and the hover layer
/// (whenever anything is redrawn).
#[derive(Debug, Clone, Copy, PartialEq, Eq, Structural)]
pub struct CreationRedraw {
    pub content: bool,
    pub hover: bool,
}

/// What a frame redraws: the content when the page was just entered or the
/// step, the attributes on the first step, the name or its editing changed;
/// the hover layer also when only the hover changed.
pub open spec fn creation_redraw_of(s: CharacterCreationState) -> CreationRedraw {
    let attrs = s.current_step == 0 && (s.attr_execution != s.prev_attr_execution || s.attr_reaction
        != s.prev_attr_reaction || s.attr_habit != s.prev_attr_habit);
    let name = s.name_edit_buffer@ != s.prev_name_edit_buffer@ || s.editing_name != s.prev_editing_name;
    let content = s.prev_app_state != Some(AppState::CharacterCreation) || s.current_step != s.prev_step
        || attrs || name;
    let hover = s.hover_prev != s.prev_hover_prev || s.hover_next != s.prev_hover_next || s.hover_back
        != s.prev_hover_back || s.hover_name != s.prev_hover_name || s.hover_base_attr
        != s.prev_hover_base_attr;
    CreationRedraw { content, hover: content || hover }
}

/// `s` with what is shown recorded as drawn.
pub open spec fn creation_drawn(s: CharacterCreationState) -> CharacterCreationState {
    CharacterCreationState {
        prev_app_state: Some(AppState::CharacterCreation),
        prev_step: s.current_step,
        prev_attr_execution: s.attr_execution,
        prev_attr_reaction: s.attr_reaction,
        prev_attr_habit: s.attr_habit,
        prev_name_edit_buffer: s.name_edit_buffer,
        prev_editing_name: s.editing_name,
        prev_hover_prev: s.hover_prev,
        prev_hover_next: s.hover_next,
        prev_hover_back: s.hover_back,
        prev_hover_name: s.hover_name,
        prev_hover_base_attr: s.hover_base_attr,
        ..s
    }
}

/// Whether the attributes are a legal creation: each at most 15, 30 in all at most.
pub open spec fn points_valid(s: CharacterCreationState) -> bool {
    &&& s.attr_execution <= 15
    &&& s.attr_reaction <= 15
    &&& s.attr_habit <= 15
    &&& points_used(s) <= 30
}

fn set_first_character_name(g: &mut NewGameInProgress, name: &String)
    ensures
        game_view(*final(g)) == set_first_name(game_view(*old(g)), name@),
{
    match &mut g.0 {
        Some(v) => {
            if v.len() > 0 {
                let ghost before = v@;
                let c = InitialCharacter {
                    name: name.clone(),
                    attr_execution: v[0].attr_execution,
                    attr_reaction: v[0].attr_reaction,
                    attr_habit: v[0].attr_habit,
                };
                v.set(0, c);
                proof {
                    assert(v@.map_values(|c: InitialCharacter| char_view(c)) =~= before.map_values(
                        |c: InitialCharacter| char_view(c),
                    ).update(0, (name@, before[0].attr_execution, before[0].attr_reaction, before[0].attr_habit)));
                }
            }
        },
        None => {},
    }
}

fn set_first_character(g: &mut NewGameInProgress, name: &String, e: u8, r: u8, h: u8)
    ensures
        game_view(*final(g)) == set_first(game_view(*old(g)), (name@, e, r, h)),
{
    match &mut g.0 {
        Some(v) => {
            if v.len() > 0 {
                let ghost before = v@;
                let c = InitialCharacter { name: name.clone(), attr_execution: e, attr_reaction: r, attr_habit: h };
                v.set(0, c);
                proof {
                    assert(v@.map_values(|c: InitialCharacter| char_view(c)) =~= before.map_values(
                        |c: InitialCharacter| char_view(c),
                    ).update(0, (name@, e, r, h)));
                }
            }
        },
        None => {},
    }
}

fn same_attr_button(a: Option<BaseAttrButton>, b: Option<BaseAttrButton>) -> (r: bool)
    ensures
        r == (a == b),
{
    match (a, b) {
        (Some(x), Some(y)) => x == y,
        (None, None) => true,
        _ => false,
    }
}

impl CharacterCreationState {
    /// The step is one of the four and the attribute sum fits a byte.
    pub open spec fn wf(&self) -> bool {
        &&& self.current_step < 4
        &&& self.attr_execution + self.attr_reaction + self.attr_habit <= 255
    }

    /// The page before it is first shown: the first step, 10 in each
    /// attribute, the name `HAJIMEHERO`, nothing drawn.
    pub fn new() -> (s: Self)
        ensures
            s.wf(),
            points_valid(s),
            s.current_step == 0,
            s.attr_execution == 10 && s.attr_reaction == 10 && s.attr_habit == 10,
            s.name_edit_buffer@ == "HAJIMEHERO"@,
            !s.editing_name,
            s.prev_app_state is None,
            s.prev_name_edit_buffer@.len() == 0,
            creation_hover(s) == (false, false, false, false, None::<BaseAttrButton>),
    {
        CharacterCreationState {
            current_step: 0,
            attr_execution: 10,
            attr_reaction: 10,
            attr_habit: 10,
            name_edit_buffer: String::from_str("HAJIMEHERO"),
            editing_name: false,
            prev_app_state: None,
            prev_step: 0,
            prev_attr_execution: 10,
            prev_attr_reaction: 10,
            prev_attr_habit: 10,
            prev_name_edit_buffer: String::new(),
            prev_editing_name: false,
            prev_hover_prev: false,
            prev_hover_next: false,
            prev_hover_back: false,
            prev_hover_name: false,
            prev_hover_base_attr: None,
            hover_prev: false,
            hover_next: false,
            hover_back: false,
            hover_name: false,
            hover_base_attr: None,
        }
    }

    /// Points spent.
    pub fn base_attr_used(&self) -> (u: u8)
        requires
            self.wf(),
        ensures
            u == points_used(*self),
    {
        self.attr_execution + self.attr_reaction + self.attr_habit
    }

    /// Points left of the 30 (zero when more are spent).
    pub fn base_attr_remaining(&self) -> (r: u8)
        requires
            self.wf(),
        ensures
            r == points_left(*self),
    {
        let used = self.base_attr_used();
        if used >= BASE_ATTR_POINTS_TOTAL {
            0
        } else {
            BASE_ATTR_POINTS_TOTAL - used
        }
    }

    /// On entering the page: the first step, not editing; the attributes and
    /// name of the game's first character, or the defaults when there is none;
    /// everything redrawn.
    pub fn enter(&mut self, new_game: &NewGameInProgress)
        ensures
            match new_game.0 {
                Some(v) if v@.len() > 0 => *final(self) == (CharacterCreationState {
                    current_step: 0,
                    editing_name: false,
                    attr_execution: v@[0].attr_execution,
                    attr_reaction: v@[0].attr_reaction,
                    attr_habit: v@[0].attr_habit,
                    name_edit_buffer: v@[0].name,
                    prev_app_state: None,
                    prev_step: 0,
                    prev_attr_execution: v@[0].attr_execution,
                    prev_attr_reaction: v@[0].attr_reaction,
                    prev_attr_habit: v@[0].attr_habit,
                    prev_name_edit_buffer: v@[0].name,
                    ..*old(self)
                }),
                _ => {
                    &&& *final(self) == (CharacterCreationState {
                        current_step: 0,
                        editing_name: false,
                        attr_execution: 10,
                        attr_reaction: 10,
                        attr_habit: 10,
                        name_edit_buffer: final(self).name_edit_buffer,
                        prev_app_state: None,
                        prev_step: 0,
                        prev_attr_execution: 10,
                        prev_attr_reaction: 10,
                        prev_attr_habit: 10,
                        ..*old(self)
                    })
                    &&& final(self).name_edit_buffer@ == "HAJIMEHERO"@
                },
            },
    {
        self.current_step = 0;
        self.editing_name = false;
        match &new_game.0 {
            Some(v) => {
                if v.len() > 0 {
                    let c = &v[0];
                    self.attr_execution = c.attr_execution;
                    self.attr_reaction = c.attr_reaction;
                    self.attr_habit = c.attr_habit;
                    self.name_edit_buffer = c.name.clone();
                    self.prev_app_state = None;
                    self.prev_step = 0;
                    self.prev_attr_execution = c.attr_execution;
                    self.prev_attr_reaction = c.attr_reaction;
                    self.prev_attr_habit = c.attr_habit;
                    self.prev_name_edit_buffer = c.name.clone();
                    return;
                }
            },
            None => {},
        }
        self.attr_execution = 10;
        self.attr_reaction = 10;
        self.attr_habit = 10;
        self.name_edit_buffer = String::from_str("HAJIMEHERO");
        self.prev_app_state = None;
        self.prev_step = 0;
        self.prev_attr_execution = 10;
        self.prev_attr_reaction = 10;
        self.prev_attr_habit = 10;
    }

    fn type_text(&mut self, text: &String)
        ensures
            final(self).name_edit_buffer@ == typed(old(self).name_edit_buffer@, text@),
            *final(self) == (CharacterCreationState { name_edit_buffer: final(self).name_edit_buffer, ..*old(self) }),
    {
        let chars = str_chars(text.as_str());
        let ghost start = self.name_edit_buffer@;
        let ghost orig = *self;
        let mut i: usize = 0;
        while i < chars.len()
            invariant
                i <= chars@.len(),
                chars@ == text@,
                self.name_edit_buffer@ == typed(start, chars@.take(i as int)),
                *self == (CharacterCreationState { name_edit_buffer: self.name_edit_buffer, ..orig }),
            decreases chars@.len() - i,
        {
            let c = chars[i];
            proof {
                assert(chars@.take(i + 1).drop_last() =~= chars@.take(i as int));
                assert(chars@.take(i + 1).last() == c);
            }
            if self.name_edit_buffer.as_str().unicode_len() < MAX_NAME_LEN && !char_is_control(c) {
                push_char(&mut self.name_edit_buffer, c);
            }
            i = i + 1;
        }
        proof {
            assert(chars@.take(chars@.len() as int) =~= chars@);
        }
    }

    fn handle_key(&mut self, key: &KeyInput, new_game: &mut NewGameInProgress)
        ensures
            (final(self).name_edit_buffer@, final(self).editing_name, game_view(*final(new_game))) == key_step(
                (old(self).name_edit_buffer@, old(self).editing_name, game_view(*old(new_game))),
                *key,
            ),
            *final(self) == (CharacterCreationState {
                name_edit_buffer: final(self).name_edit_buffer,
                editing_name: final(self).editing_name,
                ..*old(self)
            }),
    {
        match key {
            KeyInput::Backspace => {
                pop_char(&mut self.name_edit_buffer);
            },
            KeyInput::Enter => {
                self.editing_name = false;
                set_first_character_name(new_game, &self.name_edit_buffer);
            },
            KeyInput::Escape => {
                self.editing_name = false;
                match &new_game.0 {
                    Some(v) => {
                        if v.len() > 0 {
                            self.name_edit_buffer = v[0].name.clone();
                        }
                    },
                    None => {},
                }
            },
            KeyInput::Text(t) => {
                self.type_text(t);
            },
            KeyInput::Other => {},
        }
    }

    /// The key presses of a frame. They edit the name only while it is being
    /// edited (checked once, before the first key): Backspace deletes the last
    /// character, Enter ends editing and commits the name to the first
    /// character, Escape ends editing and restores that character's name,
    /// text is typed (see `typed`).
    pub fn on_keys(&mut self, keys: &Vec<KeyInput>, new_game: &mut NewGameInProgress)
        ensures
            old(self).editing_name ==> (final(self).name_edit_buffer@, final(self).editing_name, game_view(
                *final(new_game),
            )) == keys_effect(
                (old(self).name_edit_buffer@, true, game_view(*old(new_game))),
                keys@,
            ),
            !old(self).editing_name ==> *final(self) == *old(self) && *final(new_game) == *old(new_game),
            *final(self) == (CharacterCreationState {
                name_edit_buffer: final(self).name_edit_buffer,
                editing_name: final(self).editing_name,
                ..*old(self)
            }),
    {
        if !self.editing_name {
            return;
        }
        let ghost orig = *self;
        let ghost g0 = game_view(*new_game);
        let mut i: usize = 0;
        while i < keys.len()
            invariant
                i <= keys@.len(),
                (self.name_edit_buffer@, self.editing_name, game_view(*new_game)) == keys_effect(
                    (orig.name_edit_buffer@, true, g0),
                    keys@.take(i as int),
                ),
                *self == (CharacterCreationState {
                    name_edit_buffer: self.name_edit_buffer,
                    editing_name: self.editing_name,
                    ..orig
                }),
            decreases keys@.len() - i,
        {
            proof {
                assert(keys@.take(i + 1).drop_last() =~= keys@.take(i as int));
                assert(keys@.take(i + 1).last() == keys@[i as int]);
            }
            self.handle_key(&keys[i], new_game);
            i = i + 1;
        }
        proof {
            assert(keys@.take(keys@.len() as int) =~= keys@);
        }
    }

    /// The pointer moved to `cell` (`None`: off the canvas). Updates the hover
    /// and returns the status-bar text (see `creation_hover_text`).
    pub fn on_hover(&mut self, cell: Option<(usize, usize)>) -> (text: Option<String>)
        requires
            old(self).wf(),
        ensures
            *final(self) == (CharacterCreationState {
                hover_prev: final(self).hover_prev,
                hover_next: final(self).hover_next,
                hover_back: final(self).hover_back,
                hover_name: final(self).hover_name,
                hover_base_attr: final(self).hover_base_attr,
                ..*old(self)
            }),
            match cell {
                Some((x, y)) => {
                    &&& creation_hover(*final(self)) == creation_hover_at(old(self).current_step, x as int, y as int)
                    &&& opt_text(text) == creation_hover_text(old(self).current_step, creation_hover(*final(self)))
                },
                None => creation_hover(*final(self)) == (false, false, false, false, None::<BaseAttrButton>)
                    && text is None,
            },
    {
        match cell {
            None => {
                self.hover_prev = false;
                self.hover_next = false;
                self.hover_back = false;
                self.hover_name = false;
                self.hover_base_attr = None;
                None
            },
            Some((x, y)) => {
                self.hover_prev = cell_in_prev_button(x, y);
                self.hover_next = cell_in_next_button(x, y);
                self.hover_back = cell_in_back_button(x, y);
                self.hover_name = cell_in_name_input(x, y);
                self.hover_base_attr = if self.current_step == 0 {
                    cell_to_base_attr_button(x, y)
                } else {
                    None
                };
                if self.hover_prev {
                    Some(String::from_str("上一步"))
                } else if self.hover_next {
                    if self.current_step + 1 >= NUM_STEPS {
                        Some(String::from_str("完成"))
                    } else {
                        Some(String::from_str("下一步"))
                    }
                } else if self.hover_back {
                    Some(String::from_str("返回"))
                } else if self.hover_name {
                    Some(String::from_str("点击修改名字"))
                } else {
                    match self.hover_base_attr {
                        Some(BaseAttrButton::Minus(k)) => {
                            let mut s = String::from_str(k.name());
                            s.append(" -1");
                            proof {
                                reveal_strlit(" -1");
                            }
                            Some(s)
                        },
                        Some(BaseAttrButton::Plus(k)) => {
                            let mut s = String::from_str(k.name());
                            s.append(" +1");
                            proof {
                                reveal_strlit(" +1");
                            }
                            Some(s)
                        },
                        None => None,
                    }
                }
            },
        }
    }

    /// A click released at `(x, y)` (see `release_effect`); returns whether to
    /// leave the page (go back).
    pub fn on_release(&mut self, x: usize, y: usize, new_game: &mut NewGameInProgress) -> (leave: bool)
        requires
            old(self).wf(),
        ensures
            final(self).wf(),
            ({
                let (s, g, l) = release_effect(*old(self), game_view(*old(new_game)), x as int, y as int);
                &&& *final(self) == s
                &&& game_view(*final(new_game)) == g
                &&& leave == l
            }),
            points_valid(*old(self)) ==> points_valid(*final(self)),
    {
        self.release_name(x, y, new_game);
        self.release_attr(x, y, new_game);
        self.release_nav(x, y, new_game)
    }

    fn release_name(&mut self, x: usize, y: usize, new_game: &mut NewGameInProgress)
        ensures
            (*final(self), game_view(*final(new_game))) == release_name_stage(
                *old(self),
                game_view(*old(new_game)),
                x as int,
                y as int,
            ),
    {
        if cell_in_name_input(x, y) {
            self.editing_name = true;
        } else if self.editing_name {
            self.editing_name = false;
            set_first_character_name(new_game, &self.name_edit_buffer);
        }
    }

    fn release_attr(&mut self, x: usize, y: usize, new_game: &mut NewGameInProgress)
        requires
            old(self).wf(),
        ensures
            final(self).wf(),
            (*final(self), game_view(*final(new_game))) == release_attr_stage(
                *old(self),
                game_view(*old(new_game)),
                x as int,
                y as int,
            ),
            points_valid(*old(self)) ==> points_valid(*final(self)),
    {
        if self.current_step != 0 {
            return;
        }
        if let Some(btn) = cell_to_base_attr_button(x, y) {
            match btn {
                BaseAttrButton::Minus(k) => {
                    let v = match k {
                        BaseAttrKind::Execution => self.attr_execution,
                        BaseAttrKind::Reaction => self.attr_reaction,
                        BaseAttrKind::Habit => self.attr_habit,
                    };
                    if v > 0 {
                        match k {
                            BaseAttrKind::Execution => self.attr_execution = v - 1,
                            BaseAttrKind::Reaction => self.attr_reaction = v - 1,
                            BaseAttrKind::Habit => self.attr_habit = v - 1,
                        }
                        set_first_character(
                            new_game,
                            &self.name_edit_buffer,
                            self.attr_execution,
                            self.attr_reaction,
                            self.attr_habit,
                        );
                    }
                },
                BaseAttrButton::Plus(k) => {
                    let remaining = self.base_attr_remaining();
                    let v = match k {
                        BaseAttrKind::Execution => self.attr_execution,
                        BaseAttrKind::Reaction => self.attr_reaction,
                        BaseAttrKind::Habit => self.attr_habit,
                    };
                    if remaining > 0 && v < BASE_ATTR_MAX_AT_CREATION {
                        match k {
                            BaseAttrKind::Execution => self.attr_execution = v + 1,
                            BaseAttrKind::Reaction => self.attr_reaction = v + 1,
                            BaseAttrKind::Habit => self.attr_habit = v + 1,
                        }
                        set_first_character(
                            new_game,
                            &self.name_edit_buffer,
                            self.attr_execution,
                            self.attr_reaction,
                            self.attr_habit,
                        );
                    }
                },
            }
        }
    }

    fn release_nav(&mut self, x: usize, y: usize, new_game: &mut NewGameInProgress) -> (leave: bool)
        requires
            old(self).wf(),
        ensures
            final(self).wf(),
            (*final(self), game_view(*final(new_game)), leave) == release_nav_stage(
                *old(self),
                game_view(*old(new_game)),
                x as int,
                y as int,
            ),
    {
        if cell_in_prev_button(x, y) {
            if self.current_step > 0 {
                self.current_step = self.current_step - 1;
            }
            false
        } else if cell_in_next_button(x, y) {
            if self.current_step + 1 < NUM_STEPS {
                self.current_step = self.current_step + 1;
            }
            false
        } else if cell_in_back_button(x, y) {
            if self.editing_name {
                self.editing_name = false;
                set_first_character_name(new_game, &self.name_edit_buffer);
            }
            new_game.0 = None;
            true
        } else {
            false
        }
    }

    /// Starts a frame of the page: says what to redraw (see
    /// `creation_redraw_of`) and records what is shown as drawn.
    pub fn begin_draw(&mut self) -> (r: CreationRedraw)
        ensures
            r == creation_redraw_of(*old(self)),
            *final(self) == creation_drawn(*old(self)),
    {
        let just_entered = match self.prev_app_state {
            Some(AppState::CharacterCreation) => false,
            _ => true,
        };
        let attrs = self.current_step == 0 && (self.attr_execution != self.prev_attr_execution
            || self.attr_reaction != self.prev_attr_reaction || self.attr_habit != self.prev_attr_habit);
        let name = !(self.name_edit_buffer == self.prev_name_edit_buffer) || self.editing_name
            != self.prev_editing_name;
        let content = just_entered || self.current_step != self.prev_step || attrs || name;
        let hover = self.hover_prev != self.prev_hover_prev || self.hover_next != self.prev_hover_next
            || self.hover_back != self.prev_hover_back || self.hover_name != self.prev_hover_name
            || !same_attr_button(self.hover_base_attr, self.prev_hover_base_attr);
        self.prev_app_state = Some(AppState::CharacterCreation);
        self.prev_step = self.current_step;
        self.prev_attr_execution = self.attr_execution;
        self.prev_attr_reaction = self.attr_reaction;
        self.prev_attr_habit = self.attr_habit;
        self.prev_name_edit_buffer = self.name_edit_buffer.clone();
        self.prev_editing_name = self.editing_name;
        self.prev_hover_prev = self.hover_prev;
        self.prev_hover_next = self.hover_next;
        self.prev_hover_back = self.hover_back;
        self.prev_hover_name = self.hover_name;
        self.prev_hover_base_attr = self.hover_base_attr;
        CreationRedraw { content, hover: content || hover }
    }
}


/// The colours the page is drawn with.
#[derive(Debug, Clone, Copy, PartialEq, Eq, Structural)]
pub struct CreationColors<C> {
    pub text: C,
    pub dim: C,
    pub accent: C,
    pub hover_bg: C,
}

/// The name as shown: its first 42 characters, with `_` while editing, or
/// `—` when that leaves nothing.
pub open spec fn name_display(buf: Seq<char>, editing: bool) -> Seq<char> {
    let t = if buf.len() <= 42 {
        buf
    } else {
        buf.take(42)
    };
    if editing {
        t.push('_')
    } else if t.len() == 0 {
        "—"@
    } else {
        t
    }
}

/// The label of the next button: "finish" on the last step.
pub open spec fn next_label(step: usize) -> Seq<char> {
    if step + 1 >= 4 {
        "完成"@
    } else {
        "下一步"@
    }
}

/// A modifier with its sign: `+n` from zero up, `-n` below.
pub open spec fn signed_text(m: int) -> Seq<char> {
    if m >= 0 {
        "+"@ + decimal(m as nat)
    } else {
        "-"@ + decimal((-m) as nat)
    }
}

/// One attribute row: name, −, value, modifier, +.
pub open spec fn attr_row_ops<C>(row: usize, k: BaseAttrKind, val: u8, c: CreationColors<C>) -> Seq<DrawOp<C>> {
    seq![
        DrawOp::SetLine(row, 4, 8, attr_name(k), TextAlign::Left, c.text),
        DrawOp::SetChar(10, row, '−', c.text),
        DrawOp::SetLine(row, 14, 16, decimal(val as nat), TextAlign::Left, c.text),
        DrawOp::SetLine(row, 18, 28, "调整"@ + signed_text(modifier_of(val)), TextAlign::Left, c.dim),
        DrawOp::SetChar(30, row, '+', c.text),
    ]
}

/// The content of the current step: the point budget and the three
/// attribute rows on the first step, a placeholder on the others.
pub open spec fn step_content_ops<C>(s: CharacterCreationState, c: CreationColors<C>) -> Seq<DrawOp<C>> {
    if s.current_step == 0 {
        seq![
            DrawOp::SetLine(8, 4, 28, "剩余 "@ + decimal(points_left(s) as nat) + " 点未分配"@, TextAlign::Left, c.accent),
            DrawOp::SetLine(
                8,
                30,
                92,
                "已用"@ + decimal(points_used(s) as nat) + "/30 单属性最高15 调整值=(属性-10)/2"@,
                TextAlign::Left,
                c.dim,
            ),
        ] + attr_row_ops(10, BaseAttrKind::Execution, s.attr_execution, c) + attr_row_ops(
            12,
            BaseAttrKind::Reaction,
            s.attr_reaction,
            c,
        ) + attr_row_ops(14, BaseAttrKind::Habit, s.attr_habit, c)
    } else {
        seq![
            DrawOp::SetLine(
                8,
                4,
                92,
                "请在此配置「"@ + step_name(step_at(s.current_step)) + "」……"@,
                TextAlign::Left,
                c.dim,
            ),
        ]
    }
}

/// The page's content: title, back, the name row, the step name and the
/// stepper icons, the step's content, and the previous / next buttons.
pub open spec fn creation_content_ops<C>(s: CharacterCreationState, c: CreationColors<C>) -> Seq<DrawOp<C>> {
    seq![
        DrawOp::SetLine(2, 2, 10, "新建人物"@, TextAlign::Left, c.text),
        DrawOp::SetLine(2, 90, 96, "返回"@, TextAlign::Right, c.text),
        DrawOp::SetLine(6, 4, 8, "名字"@, TextAlign::Left, c.text),
        DrawOp::SetLine(
            6,
            8,
            50,
            name_display(s.name_edit_buffer@, s.editing_name),
            TextAlign::Left,
            if s.editing_name {
                c.accent
            } else {
                c.text
            },
        ),
        DrawOp::SetLine(4, 2, 24, step_name(step_at(s.current_step)), TextAlign::Left, c.text),
    ] + Seq::new(
        4,
        |i: int|
            DrawOp::SetChar(
                (28 + 5 * i) as usize,
                4,
                match step_at(i as usize) {
                    CreationStep::BaseAttr => '\u{f007}',
                    CreationStep::Origin => '\u{f015}',
                    CreationStep::Ability => '\u{f0e7}',
                    CreationStep::Item => '\u{f466}',
                },
                if i == s.current_step {
                    c.accent
                } else {
                    c.dim
                },
            ),
    ) + step_content_ops(s, c) + seq![
        DrawOp::SetLine(
            46,
            2,
            18,
            "上一步"@,
            TextAlign::Left,
            if s.current_step > 0 {
                c.text
            } else {
                c.dim
            },
        ),
        DrawOp::SetLine(46, 22, 46, next_label(s.current_step), TextAlign::Left, c.text),
    ]
}

/// The hover highlights: previous (when there is a previous step), next,
/// back, the name field, and on the first step the hovered − or +.
pub open spec fn creation_hover_ops<C>(s: CharacterCreationState, c: CreationColors<C>) -> Seq<DrawOp<C>> {
    hover_nav_ops(s, c) + hover_name_ops(s, c) + hover_attr_ops(s, c)
}

/// The highlights of the previous, next and back buttons.
pub open spec fn hover_nav_ops<C>(s: CharacterCreationState, c: CreationColors<C>) -> Seq<DrawOp<C>> {
    (if s.hover_prev && s.current_step > 0 {
        seq![DrawOp::SetLineWithBg(46, 2, 18, "上一步"@, TextAlign::Left, c.text, c.hover_bg)]
    } else {
        Seq::empty()
    }) + (if s.hover_next {
        seq![DrawOp::SetLineWithBg(46, 22, 46, next_label(s.current_step), TextAlign::Left, c.text, c.hover_bg)]
    } else {
        Seq::empty()
    }) + (if s.hover_back {
        seq![DrawOp::SetLineWithBg(2, 90, 96, "返回"@, TextAlign::Right, c.text, c.hover_bg)]
    } else {
        Seq::empty()
    })
}

/// The highlight of the name field.
pub open spec fn hover_name_ops<C>(s: CharacterCreationState, c: CreationColors<C>) -> Seq<DrawOp<C>> {
    if s.hover_name {
        seq![
            DrawOp::SetLineWithBg(
                6,
                8,
                50,
                name_display(s.name_edit_buffer@, s.editing_name),
                TextAlign::Left,
                if s.editing_name {
                    c.accent
                } else {
                    c.text
                },
                c.hover_bg,
            ),
        ]
    } else {
        Seq::empty()
    }
}

/// On the first step, the highlight of the hovered − or +.
pub open spec fn hover_attr_ops<C>(s: CharacterCreationState, c: CreationColors<C>) -> Seq<DrawOp<C>> {
    if s.current_step == 0 {
        match s.hover_base_attr {
            Some(BaseAttrButton::Minus(k)) => seq![DrawOp::SetCharWithBg(10, kind_row(k), '−', c.text, c.hover_bg)],
            Some(BaseAttrButton::Plus(k)) => seq![DrawOp::SetCharWithBg(30, kind_row(k), '+', c.text, c.hover_bg)],
            None => Seq::empty(),
        }
    } else {
        Seq::empty()
    }
}

/// The page's drawing: the area above the status bar cleared, the content,
/// then the hover highlights.
pub open spec fn creation_ops<C>(s: CharacterCreationState, c: CreationColors<C>) -> Seq<DrawOp<C>> {
    seq![DrawOp::ClearRect(0, 0, 96, 52)] + creation_content_ops(s, c) + creation_hover_ops(s, c)
}

fn name_display_text(buf: &String, editing: bool) -> (t: String)
    ensures
        t@ == name_display(buf@, editing),
{
    let chars = str_chars(buf.as_str());
    let n = if chars.len() <= 42 { chars.len() } else { 42 };
    let mut t = String::new();
    let mut i: usize = 0;
    while i < n
        invariant
            i <= n <= chars@.len(),
            n <= 42,
            chars@ == buf@,
            t@ == chars@.take(i as int),
        decreases n - i,
    {
        push_char(&mut t, chars[i]);
        proof {
            assert(t@ =~= chars@.take(i + 1));
        }
        i = i + 1;
    }
    proof {
        if chars@.len() <= 42 {
            assert(chars@.take(n as int) =~= chars@);
        }
    }
    if editing {
        push_char(&mut t, '_');
        t
    } else if n == 0 {
        proof {
            reveal_strlit("—");
        }
        String::from_str("—")
    } else {
        t
    }
}

fn signed_modifier_text(value: u8) -> (t: String)
    ensures
        t@ == "调整"@ + signed_text(modifier_of(value)),
{
    let m = base_attr_modifier(value);
    let mut t = String::from_str("调整");
    proof {
        reveal_strlit("调整");
        reveal_strlit("+");
        reveal_strlit("-");
    }
    if m >= 0 {
        t.append("+");
        push_decimal(&mut t, m as usize);
    } else {
        t.append("-");
        push_decimal(&mut t, (-m) as usize);
    }
    proof {
        assert(t@ =~= "调整"@ + signed_text(modifier_of(value)));
    }
    t
}

fn push_attr_row<C: Copy>(cmds: &mut Vec<CanvasCommand<C>>, row: usize, k: BaseAttrKind, val: u8, c: CreationColors<C>)
    ensures
        ops_of(final(cmds)@) == ops_of(old(cmds)@) + attr_row_ops(row, k, val, c),
{
    let ghost start = ops_of(cmds@);
    push_set_line(cmds, row, BASE_ATTR_NAME_X, BASE_ATTR_NAME_X + 4, String::from_str(k.name()), TextAlign::Left, c.text);
    push_set_char(cmds, BASE_ATTR_MINUS_X_START, row, '−', c.text);
    let mut v = String::new();
    push_decimal(&mut v, val as usize);
    push_set_line(cmds, row, BASE_ATTR_VAL_X, BASE_ATTR_VAL_X + 2, v, TextAlign::Left, c.text);
    push_set_line(cmds, row, BASE_ATTR_MOD_X_START, BASE_ATTR_MOD_X_END, signed_modifier_text(val), TextAlign::Left, c.dim);
    push_set_char(cmds, BASE_ATTR_PLUS_X_START, row, '+', c.text);
    proof {
        assert(ops_of(cmds@) =~= start + attr_row_ops(row, k, val, c));
    }
}

fn push_step_content<C: Copy>(cmds: &mut Vec<CanvasCommand<C>>, s: &CharacterCreationState, c: CreationColors<C>)
    requires
        s.wf(),
    ensures
        ops_of(final(cmds)@) == ops_of(old(cmds)@) + step_content_ops(*s, c),
{
    let ghost start = ops_of(cmds@);
    if s.current_step == 0 {
        let used = s.base_attr_used();
        let remaining = s.base_attr_remaining();
        proof {
            reveal_strlit("剩余 ");
            reveal_strlit(" 点未分配");
            reveal_strlit("已用");
            reveal_strlit("/30 单属性最高15 调整值=(属性-10)/2");
        }
        let mut t1 = String::from_str("剩余 ");
        push_decimal(&mut t1, remaining as usize);
        t1.append(" 点未分配");
        push_set_line(cmds, BASE_ATTR_ROW_DESC, CONTENT_X_START, CONTENT_X_START + 24, t1, TextAlign::Left, c.accent);
        let mut t2 = String::from_str("已用");
        push_decimal(&mut t2, used as usize);
        t2.append("/30 单属性最高15 调整值=(属性-10)/2");
        push_set_line(cmds, BASE_ATTR_ROW_DESC, CONTENT_X_START + 26, CONTENT_X_END, t2, TextAlign::Left, c.dim);
        let ghost mid = ops_of(cmds@);
        push_attr_row(cmds, BASE_ATTR_ROW_EXEC, BaseAttrKind::Execution, s.attr_execution, c);
        push_attr_row(cmds, BASE_ATTR_ROW_REACT, BaseAttrKind::Reaction, s.attr_reaction, c);
        push_attr_row(cmds, BASE_ATTR_ROW_HABIT, BaseAttrKind::Habit, s.attr_habit, c);
        proof {
            assert(ops_of(cmds@) =~= start + step_content_ops(*s, c));
        }
    } else {
        let step = CreationStep::from_index(s.current_step);
        proof {
            reveal_strlit("请在此配置「");
            reveal_strlit("」……");
        }
        let mut t = String::from_str("请在此配置「");
        t.append(step.name());
        t.append("」……");
        push_set_line(cmds, CONTENT_ROW_START, CONTENT_X_START, CONTENT_X_END, t, TextAlign::Left, c.dim);
        proof {
            assert(ops_of(cmds@) =~= start + step_content_ops(*s, c));
        }
    }
}

fn next_label_text(step: usize) -> (t: String)
    ensures
        t@ == next_label(step),
{
    if step >= 3 {
        String::from_str("完成")
    } else {
        String::from_str("下一步")
    }
}

fn push_creation_content<C: Copy>(cmds: &mut Vec<CanvasCommand<C>>, s: &CharacterCreationState, c: CreationColors<C>)
    requires
        s.wf(),
    ensures
        ops_of(final(cmds)@) == ops_of(old(cmds)@) + creation_content_ops(*s, c),
{
    let ghost start = ops_of(cmds@);
    push_set_line(cmds, TITLE_Y, TITLE_X, TITLE_X + 8, String::from_str("新建人物"), TextAlign::Left, c.text);
    push_set_line(cmds, BACK_TOP_Y, BACK_TOP_X_START, BACK_TOP_X_END, String::from_str("返回"), TextAlign::Right, c.text);
    push_set_line(cmds, NAME_ROW_Y, NAME_LABEL_X_START, NAME_LABEL_X_END, String::from_str("名字"), TextAlign::Left, c.text);
    let name_color = if s.editing_name { c.accent } else { c.text };
    push_set_line(cmds, NAME_ROW_Y, NAME_INPUT_X_START, NAME_INPUT_X_END, name_display_text(&s.name_edit_buffer, s.editing_name), TextAlign::Left, name_color);
    let step = CreationStep::from_index(s.current_step);
    push_set_line(cmds, STEPPER_ROW_Y, STEP_NAME_X_START, STEP_NAME_X_END, String::from_str(step.name()), TextAlign::Left, c.text);
    let ghost head = ops_of(cmds@);
    let ghost icons = Seq::new(
        4,
        |i: int|
            DrawOp::SetChar(
                (28 + 5 * i) as usize,
                4,
                match step_at(i as usize) {
                    CreationStep::BaseAttr => '\u{f007}',
                    CreationStep::Origin => '\u{f015}',
                    CreationStep::Ability => '\u{f0e7}',
                    CreationStep::Item => '\u{f466}',
                },
                if i == s.current_step {
                    c.accent
                } else {
                    c.dim
                },
            ),
    );
    let mut i: usize = 0;
    while i < 4
        invariant
            i <= 4,
            icons == Seq::new(
                4,
                |i: int|
                    DrawOp::SetChar(
                        (28 + 5 * i) as usize,
                        4,
                        match step_at(i as usize) {
                            CreationStep::BaseAttr => '\u{f007}',
                            CreationStep::Origin => '\u{f015}',
                            CreationStep::Ability => '\u{f0e7}',
                            CreationStep::Item => '\u{f466}',
                        },
                        if i == s.current_step {
                            c.accent
                        } else {
                            c.dim
                        },
                    ),
            ),
            ops_of(cmds@) == head + icons.take(i as int),
        decreases 4 - i,
    {
        let st = CreationStep::from_index(i);
        let color = if i == s.current_step { c.accent } else { c.dim };
        push_set_char(cmds, STEPPER_ICONS_X_START + 5 * i, STEPPER_ROW_Y, st.icon(), color);
        proof {
            assert(icons.take(i + 1) =~= icons.take(i as int).push(icons[i as int]));
        }
        i = i + 1;
    }
    proof {
        assert(icons.take(4) =~= icons);
    }
    push_step_content(cmds, s, c);
    let prev_color = if s.current_step > 0 { c.text } else { c.dim };
    push_set_line(cmds, BUTTON_ROW_Y, BTN_PREV_X_START, BTN_PREV_X_END, String::from_str("上一步"), TextAlign::Left, prev_color);
    push_set_line(cmds, BUTTON_ROW_Y, BTN_NEXT_X_START, BTN_NEXT_X_END, next_label_text(s.current_step), TextAlign::Left, c.text);
    proof {
        assert(ops_of(cmds@) =~= start + creation_content_ops(*s, c));
    }
}

fn push_hover_nav<C: Copy>(cmds: &mut Vec<CanvasCommand<C>>, s: &CharacterCreationState, c: CreationColors<C>)
    requires
        s.wf(),
    ensures
        ops_of(final(cmds)@) == ops_of(old(cmds)@) + hover_nav_ops(*s, c),
{
    let ghost start = ops_of(cmds@);
    if s.hover_prev && s.current_step > 0 {
        push_set_line_with_bg(cmds, BUTTON_ROW_Y, BTN_PREV_X_START, BTN_PREV_X_END, String::from_str("上一步"), TextAlign::Left, c.text, c.hover_bg);
    }
    let ghost a = ops_of(cmds@);
    if s.hover_next {
        push_set_line_with_bg(cmds, BUTTON_ROW_Y, BTN_NEXT_X_START, BTN_NEXT_X_END, next_label_text(s.current_step), TextAlign::Left, c.text, c.hover_bg);
    }
    let ghost b = ops_of(cmds@);
    if s.hover_back {
        push_set_line_with_bg(cmds, BACK_TOP_Y, BACK_TOP_X_START, BACK_TOP_X_END, String::from_str("返回"), TextAlign::Right, c.text, c.hover_bg);
    }
    proof {
        assert(ops_of(cmds@) =~= start + hover_nav_ops(*s, c));
    }
}

fn push_creation_hover<C: Copy>(cmds: &mut Vec<CanvasCommand<C>>, s: &CharacterCreationState, c: CreationColors<C>)
    requires
        s.wf(),
    ensures
        ops_of(final(cmds)@) == ops_of(old(cmds)@) + creation_hover_ops(*s, c),
{
    let ghost start = ops_of(cmds@);
    push_hover_nav(cmds, s, c);
    let ghost a = ops_of(cmds@);
    if s.hover_name {
        let color = if s.editing_name { c.accent } else { c.text };
        push_set_line_with_bg(cmds, NAME_ROW_Y, NAME_INPUT_X_START, NAME_INPUT_X_END, name_display_text(&s.name_edit_buffer, s.editing_name), TextAlign::Left, color, c.hover_bg);
    }
    proof {
        assert(ops_of(cmds@) =~= a + hover_name_ops(*s, c));
    }
    let ghost b = ops_of(cmds@);
    if s.current_step == 0 {
        match s.hover_base_attr {
            Some(BaseAttrButton::Minus(k)) => {
                let row = base_attr_row(BaseAttrButton::Minus(k));
                push_set_char_with_bg(cmds, BASE_ATTR_MINUS_X_START, row, '−', c.text, c.hover_bg);
            },
            Some(BaseAttrButton::Plus(k)) => {
                let row = base_attr_row(BaseAttrButton::Plus(k));
                push_set_char_with_bg(cmds, BASE_ATTR_PLUS_X_START, row, '+', c.text, c.hover_bg);
            },
            None => {},
        }
    }
    proof {
        assert(ops_of(cmds@) =~= b + hover_attr_ops(*s, c));
        assert(ops_of(cmds@) =~= start + creation_hover_ops(*s, c));
    }
}

/// The page's drawing commands (see `creation_ops`).
pub fn character_creation_draw<C: Copy>(s: &CharacterCreationState, c: CreationColors<C>) -> (cmds: Vec<CanvasCommand<C>>)
    requires
        s.wf(),
    ensures
        ops_of(cmds@) == creation_ops(*s, c),
{
    let mut cmds: Vec<CanvasCommand<C>> = Vec::new();
    push_clear_rect(&mut cmds, 0, 0, 96, STATUS_BAR_TOP);
    push_creation_content(&mut cmds, s, c);
    push_creation_hover(&mut cmds, s, c);
    proof {
        assert(ops_of(cmds@) =~= creation_ops(*s, c));
    }
    cmds
}


/// Typing keeps what was there, never makes a name of at most 20 characters
/// longer than 20, and never adds a control character.
pub proof fn lemma_typed_name_limit(buf: Seq<char>, t: Seq<char>)
    requires
        buf.len() <= 20,
    ensures
        typed(buf, t).len() <= 20,
        buf.len() <= typed(buf, t).len(),
        typed(buf, t).take(buf.len() as int) == buf,
        forall|i: int| buf.len() <= i < typed(buf, t).len() ==> !is_control(#[trigger] typed(buf, t)[i]),
    decreases t.len(),
{
    if t.len() > 0 {
        lemma_typed_name_limit(buf, t.drop_last());
        let b = typed(buf, t.drop_last());
        if b.len() < 20 && !is_control(t.last()) {
            assert(b.push(t.last()).take(buf.len() as int) =~= b.take(buf.len() as int));
        }
    } else {
        assert(buf.take(buf.len() as int) =~= buf);
    }
}

/// The name-editing state keeps names within the limit: the buffer, and the
/// first character's name when there is one, have at most 20 characters.
pub open spec fn names_fit(s: (Seq<char>, bool, Option<Seq<(Seq<char>, u8, u8, u8)>>)) -> bool {
    &&& s.0.len() <= 20
    &&& match first_name(s.2) {
        Some(n) => n.len() <= 20,
        None => true,
    }
}

/// Neither the buffer nor the first character's name holds a control character.
pub open spec fn names_control_free(s: (Seq<char>, bool, Option<Seq<(Seq<char>, u8, u8, u8)>>)) -> bool {
    &&& forall|i: int| 0 <= i < s.0.len() ==> !is_control(#[trigger] s.0[i])
    &&& match first_name(s.2) {
        Some(n) => forall|i: int| 0 <= i < n.len() ==> !is_control(#[trigger] n[i]),
        None => true,
    }
}

proof fn lemma_key_step_keeps_names(s: (Seq<char>, bool, Option<Seq<(Seq<char>, u8, u8, u8)>>), k: KeyInput)
    requires
        names_fit(s),
    ensures
        names_fit(key_step(s, k)),
        names_control_free(s) ==> names_control_free(key_step(s, k)),
{
    match k {
        KeyInput::Text(t) => {
            lemma_typed_name_limit(s.0, t@);
            let r = typed(s.0, t@);
            if names_control_free(s) {
                assert forall|i: int| 0 <= i < r.len() implies !is_control(#[trigger] r[i]) by {
                    if i < s.0.len() {
                        assert(r.take(s.0.len() as int)[i] == r[i]);
                    }
                }
            }
        },
        _ => {},
    }
}

/// Over any sequence of keys handled by `on_keys`, the buffer and the first
/// character's name stay within 20 characters; and when neither holds a
/// control character to begin with, no key brings one in.
pub proof fn lemma_keys_keep_names(s: (Seq<char>, bool, Option<Seq<(Seq<char>, u8, u8, u8)>>), keys: Seq<KeyInput>)
    requires
        names_fit(s),
    ensures
        names_fit(keys_effect(s, keys)),
        names_control_free(s) ==> names_control_free(keys_effect(s, keys)),
    decreases keys.len(),
{
    if keys.len() > 0 {
        lemma_keys_keep_names(s, keys.drop_last());
        lemma_key_step_keeps_names(keys_effect(s, keys.drop_last()), keys.last());
    }
}

/// The modifier is 0 at 10 and 11, and goes up by one every two points.
pub proof fn lemma_modifier_steps(v: u8)
    requires
        v <= 253,
    ensures
        modifier_of(10) == 0,
        modifier_of(11) == 0,
        v >= 10 ==> modifier_of((v + 2) as u8) == modifier_of(v) + 1,
{
}


impl Default for CharacterCreationState {
    /// The page before it is first shown (see `new`).
    fn default() -> (s: Self)
        ensures
            s.wf(),
            s.current_step == 0,
            s.attr_execution == 10 && s.attr_reaction == 10 && s.attr_habit == 10,
            s.name_edit_buffer@ == "HAJIMEHERO"@,
            !s.editing_name,
            s.prev_app_state is None,
    {
        Self::new()
    }
}

proof fn lemma_contains_in_concat<T>(a: Seq<T>, b: Seq<T>, x: T)
    requires
        a.contains(x) || b.contains(x),
    ensures
        (a + b).contains(x),
{
    if a.contains(x) {
        let i = choose|i: int| 0 <= i < a.len() && a[i] == x;
        assert((a + b)[i] == x);
    } else {
        let i = choose|i: int| 0 <= i < b.len() && b[i] == x;
        assert((a + b)[a.len() + i] == x);
    }
}

/// On the attribute step the page shows the points spent, the sum of the
/// three attributes, as "已用<sum>/30 ...", and the points still free,
/// thirty less that sum (when the sum is at most thirty), as "剩余 <left> 点未分配".
pub proof fn lemma_points_lines_show_the_budget<C>(s: CharacterCreationState, c: CreationColors<C>)
    requires
        s.current_step == 0,
    ensures
        creation_ops(s, c).contains(
            DrawOp::SetLine(
                8,
                30,
                92,
                "已用"@ + decimal((s.attr_execution + s.attr_reaction + s.attr_habit) as nat)
                    + "/30 单属性最高15 调整值=(属性-10)/2"@,
                TextAlign::Left,
                c.dim,
            ),
        ),
        s.attr_execution + s.attr_reaction + s.attr_habit <= 30 ==> creation_ops(s, c).contains(
            DrawOp::SetLine(
                8,
                4,
                28,
                "剩余 "@ + decimal((30 - (s.attr_execution + s.attr_reaction + s.attr_habit)) as nat) + " 点未分配"@,
                TextAlign::Left,
                c.accent,
            ),
        ),
{
    let used = DrawOp::SetLine(
        8,
        30,
        92,
        "已用"@ + decimal((s.attr_execution + s.attr_reaction + s.attr_habit) as nat)
            + "/30 单属性最高15 调整值=(属性-10)/2"@,
        TextAlign::Left,
        c.dim,
    );
    let left = DrawOp::SetLine(
        8,
        4,
        28,
        "剩余 "@ + decimal((30 - (s.attr_execution + s.attr_reaction + s.attr_habit)) as nat) + " 点未分配"@,
        TextAlign::Left,
        c.accent,
    );
    let shown_left = DrawOp::SetLine(
        8,
        4,
        28,
        "剩余 "@ + decimal(points_left(s) as nat) + " 点未分配"@,
        TextAlign::Left,
        c.accent,
    );
    let two = seq![shown_left, used];
    let rows = attr_row_ops(10, BaseAttrKind::Execution, s.attr_execution, c) + attr_row_ops(
        12,
        BaseAttrKind::Reaction,
        s.attr_reaction,
        c,
    ) + attr_row_ops(14, BaseAttrKind::Habit, s.attr_habit, c);
    assert(step_content_ops(s, c) == two + rows);
    assert(two[0] == shown_left && two[1] == used);
    lemma_contains_in_concat(two, rows, used);
    lemma_contains_in_concat(two, rows, shown_left);
    let head = seq![
        DrawOp::SetLine(2, 2, 10, "新建人物"@, TextAlign::Left, c.text),
        DrawOp::SetLine(2, 90, 96, "返回"@, TextAlign::Right, c.text),
        DrawOp::SetLine(6, 4, 8, "名字"@, TextAlign::Left, c.text),
        DrawOp::SetLine(
            6,
            8,
            50,
            name_display(s.name_edit_buffer@, s.editing_name),
            TextAlign::Left,
            if s.editing_name {
                c.accent
            } else {
                c.text
            },
        ),
        DrawOp::SetLine(4, 2, 24, step_name(step_at(s.current_step)), TextAlign::Left, c.text),
    ] + Seq::new(
        4,
        |i: int|
            DrawOp::SetChar(
                (28 + 5 * i) as usize,
                4,
                match step_at(i as usize) {
                    CreationStep::BaseAttr => '\u{f007}',
                    CreationStep::Origin => '\u{f015}',
                    CreationStep::Ability => '\u{f0e7}',
                    CreationStep::Item => '\u{f466}',
                },
                if i == s.current_step {
                    c.accent
                } else {
                    c.dim
                },
            ),
    );
    let foot = seq![
        DrawOp::SetLine(
            46,
            2,
            18,
            "上一步"@,
            TextAlign::Left,
            if s.current_step > 0 {
                c.text
            } else {
                c.dim
            },
        ),
        DrawOp::SetLine(46, 22, 46, next_label(s.current_step), TextAlign::Left, c.text),
    ];
    assert(creation_content_ops(s, c) == head + step_content_ops(s, c) + foot);
    let front = seq![DrawOp::ClearRect(0, 0, 96, 52)] + head;
    assert(creation_ops(s, c) == front + step_content_ops(s, c) + (foot + creation_hover_ops(s, c)));
    let mid = step_content_ops(s, c);
    lemma_contains_in_concat(front, mid, used);
    lemma_contains_in_concat(front + mid, foot + creation_hover_ops(s, c), used);
    lemma_contains_in_concat(front, mid, shown_left);
    lemma_contains_in_concat(front + mid, foot + creation_hover_ops(s, c), shown_left);
    assert(s.attr_execution + s.attr_reaction + s.attr_habit <= 30 ==> shown_left == left);
}

} // verus!

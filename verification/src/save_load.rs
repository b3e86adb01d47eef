//! The save page: a vertical timeline of saves and chapters per branch, a list
//! of the forks branching off the selected save, player-style controls, and the
//! hover texts shown in the status bar.

use vstd::prelude::*;
use vstd::string::*;
use crate::fmt::{chinese_num, decimal, pad2, push_chinese_num, push_decimal, push_pad2};
use crate::router::AppState;
use crate::text::push_char;
use crate::canvas::{CanvasCommand, DrawOp, TextAlign, ops_of, push_set_char, push_set_line, push_set_char_with_bg, push_set_line_with_bg, push_fill_background_rect};

verus! {

/// Column of the timeline line.
pub const TIMELINE_X: usize = 2;
/// First row of the visible timeline.
pub const TIMELINE_VIEW_TOP: usize = 6;
/// Last row of the visible timeline.
pub const TIMELINE_VIEW_BOTTOM: usize = 40;
/// Row of the selected node.
pub const TIMELINE_CENTER_Y: usize = 23;
/// Rows between nodes.
pub const NODE_SPACING: usize = 4;
/// Node labels occupy columns `[LABEL_X_START, LABEL_X_END)`.
pub const LABEL_X_START: usize = 6;
pub const LABEL_X_END: usize = 36;
/// Title position; the fork information starts at `TITLE_FORK_INFO_X`.
pub const TITLE_X: usize = 2;
pub const TITLE_Y: usize = 2;
pub const TITLE_FORK_INFO_X: usize = 38;
/// The fork list occupies columns `[FORK_LIST_X_START, FORK_LIST_X_END)` and
/// rows `FORK_LIST_ROW_START..=FORK_LIST_ROW_END`, two rows per item, with its
/// title on `FORK_LIST_TITLE_ROW`.
pub const FORK_LIST_X_START: usize = 40;
pub const FORK_LIST_X_END: usize = 76;
pub const FORK_LIST_ROW_START: usize = 6;
pub const FORK_LIST_ROW_END: usize = 40;
pub const FORK_LIST_TITLE_ROW: usize = 4;
pub const FORK_ITEM_HEIGHT: usize = 2;
/// The control row: six buttons of three columns from `CONTROLS_X_START`.
pub const CONTROLS_ROW_Y: usize = 44;
pub const CONTROLS_X_START: usize = 2;
pub const CONTROL_BTN_WIDTH: usize = 3;
pub const NUM_CONTROL_BTNS: usize = 6;
pub const CONTROLS_X_END: usize = 20;
/// The continue / start button.
pub const CONTINUE_ROW_Y: usize = 46;
pub const CONTINUE_X_START: usize = 2;
pub const CONTINUE_X_END: usize = 28;
/// The chapter and play-time label.
pub const CHAPTER_LABEL_ROW_Y: usize = 48;
pub const CHAPTER_LABEL_X_START: usize = 60;
pub const CHAPTER_LABEL_X_END: usize = 94;
/// The back button, top right.
pub const BACK_BTN_Y: usize = 2;
pub const BACK_BTN_X_START: usize = 92;
pub const BACK_BTN_X_END: usize = 96;
/// Rows above the status bar.
pub const STATUS_ROW_TOP: usize = 52;

/// One save or chapter point of a timeline.
pub struct TimelineNode {
    /// A chapter point (target of previous/next chapter).
    pub is_chapter: bool,
    /// The chapter this save belongs to.
    pub chapter_name: String,
    /// The play time when saved, such as `01:23:45`.
    pub duration_display: String,
}

/// Where a fork branched off: time, chapter and sequence number.
pub struct ForkMeta {
    pub time: String,
    pub chapter: String,
    pub seq: usize,
}

/// The main line or a fork: its timeline, the branch and node it split from,
/// and the fork's description.
pub struct Branch {
    pub timeline: Vec<TimelineNode>,
    pub fork_from: Option<(usize, usize)>,
    pub fork_meta: Option<ForkMeta>,
}

pub open spec fn node_view(n: TimelineNode) -> (bool, Seq<char>, Seq<char>) {
    (n.is_chapter, n.chapter_name@, n.duration_display@)
}

pub open spec fn nodes_view(s: Seq<TimelineNode>) -> Seq<(bool, Seq<char>, Seq<char>)> {
    s.map_values(|n: TimelineNode| node_view(n))
}

pub open spec fn meta_view(m: Option<ForkMeta>) -> Option<(Seq<char>, Seq<char>, usize)> {
    match m {
        Some(x) => Some((x.time@, x.chapter@, x.seq)),
        None => None,
    }
}

/// What a node shows on the timeline: the chapter name for a chapter point,
/// the play time otherwise.
pub open spec fn node_label(n: (bool, Seq<char>, Seq<char>)) -> Seq<char> {
    if n.0 {
        n.1
    } else {
        n.2
    }
}

impl TimelineNode {
    /// The node's timeline label.
    pub fn label(&self) -> (s: String)
        ensures
            s@ == node_label(node_view(*self)),
    {
        if self.is_chapter {
            self.chapter_name.clone()
        } else {
            self.duration_display.clone()
        }
    }

    /// An equal node.
    pub fn duplicate(&self) -> (n: TimelineNode)
        ensures
            node_view(n) == node_view(*self),
    {
        TimelineNode {
            is_chapter: self.is_chapter,
            chapter_name: self.chapter_name.clone(),
            duration_display: self.duration_display.clone(),
        }
    }
}

proof fn lemma_nodes_view_push(s: Seq<TimelineNode>, n: TimelineNode)
    ensures
        nodes_view(s.push(n)) == nodes_view(s).push(node_view(n)),
        nodes_view(s).len() == s.len(),
{
    assert(nodes_view(s.push(n)) =~= nodes_view(s).push(node_view(n)));
}

proof fn lemma_nodes_view_len(s: Seq<TimelineNode>)
    ensures
        nodes_view(s).len() == s.len(),
{
}

fn duplicate_nodes(v: &Vec<TimelineNode>, n: usize) -> (r: Vec<TimelineNode>)
    requires
        n <= v@.len(),
    ensures
        nodes_view(r@) == nodes_view(v@.take(n as int)),
{
    let mut r: Vec<TimelineNode> = Vec::new();
    let mut i: usize = 0;
    while i < n
        invariant
            i <= n <= v@.len(),
            nodes_view(r@) == nodes_view(v@.take(i as int)),
        decreases n - i,
    {
        let ghost before = r@;
        let d = v[i].duplicate();
        r.push(d);
        proof {
            lemma_nodes_view_push(before, d);
            assert(v@.take(i + 1) =~= v@.take(i as int).push(v@[i as int]));
            lemma_nodes_view_push(v@.take(i as int), v@[i as int]);
            assert(nodes_view(r@) =~= nodes_view(v@.take(i + 1)));
        }
        i = i + 1;
    }
    r
}

/// `第<n>章`.
pub open spec fn chapter_label(n: nat) -> Seq<char> {
    seq!['第'] + chinese_num(n) + seq!['章']
}

/// `hh:mm:00` for a play time of `minutes`.
pub open spec fn duration_label(minutes: nat) -> Seq<char> {
    pad2(minutes / 60) + seq![':'] + pad2(minutes % 60) + seq![':', '0', '0']
}

/// The sample main line: a prologue, then 24 saves three minutes apart from
/// minute 8, four per chapter, every fourth a chapter point.
pub open spec fn main_node(i: int) -> (bool, Seq<char>, Seq<char>) {
    if i == 0 {
        (true, "序章"@, "00:00:00"@)
    } else {
        (i % 4 == 0, chapter_label(((i - 1) / 4 + 1) as nat), duration_label((5 + i * 3) as nat))
    }
}

/// The sample fork: the main line's first six nodes, then eleven saves four
/// minutes apart.
pub open spec fn fork_node(i: int) -> (bool, Seq<char>, Seq<char>) {
    if i < 6 {
        main_node(i)
    } else {
        (i % 4 == 0, chapter_label(((i - 1) / 4 + 1) as nat), duration_label((25 + i * 4) as nat))
    }
}

fn make_node(is_chapter: bool, chapter_no: usize, minutes: usize) -> (n: TimelineNode)
    ensures
        node_view(n) == (is_chapter, chapter_label(chapter_no as nat), duration_label(minutes as nat)),
{
    let mut duration_display = String::new();
    push_pad2(&mut duration_display, minutes / 60);
    proof {
        reveal_strlit(":");
        reveal_strlit(":00");
        reveal_strlit("第");
        reveal_strlit("章");
    }
    duration_display.append(":");
    push_pad2(&mut duration_display, minutes % 60);
    duration_display.append(":00");
    let mut chapter_name = String::from_str("第");
    push_chinese_num(&mut chapter_name, chapter_no);
    chapter_name.append("章");
    proof {
        assert(duration_display@ =~= duration_label(minutes as nat));
        assert(chapter_name@ =~= chapter_label(chapter_no as nat));
    }
    TimelineNode { is_chapter, chapter_name, duration_display }
}

/// The sample main-line timeline (see `main_node`).
pub fn default_timeline_nodes() -> (nodes: Vec<TimelineNode>)
    ensures
        nodes_view(nodes@) == Seq::new(25, |i: int| main_node(i)),
{
    let mut nodes: Vec<TimelineNode> = Vec::new();
    nodes.push(
        TimelineNode {
            is_chapter: true,
            chapter_name: String::from_str("序章"),
            duration_display: String::from_str("00:00:00"),
        },
    );
    proof {
        assert(nodes_view(nodes@) =~= Seq::new(1, |i: int| main_node(i)));
    }
    let mut i: usize = 1;
    while i <= 24
        invariant
            1 <= i <= 25,
            nodes_view(nodes@) == Seq::new(i as nat, |k: int| main_node(k)),
        decreases 25 - i,
    {
        let node = make_node(i % 4 == 0, (i - 1) / 4 + 1, 5 + i * 3);
        let ghost before = nodes@;
        nodes.push(node);
        proof {
            lemma_nodes_view_push(before, node);
            assert(nodes_view(nodes@) =~= Seq::new((i + 1) as nat, |k: int| main_node(k)));
        }
        i = i + 1;
    }
    nodes
}

pub open spec fn branch_view(b: Branch) -> (
    Seq<(bool, Seq<char>, Seq<char>)>,
    Option<(usize, usize)>,
    Option<(Seq<char>, Seq<char>, usize)>,
) {
    (nodes_view(b.timeline@), b.fork_from, meta_view(b.fork_meta))
}

/// The sample branches: the main line, and one fork from its sixth node
/// (index 5) at `01:15:00` in chapter one, sequence number 1.
pub fn default_branches() -> (b: Vec<Branch>)
    ensures
        b@.len() == 2,
        nodes_view(b@[0].timeline@) == Seq::new(25, |i: int| main_node(i)),
        b@[0].fork_from is None,
        b@[0].fork_meta is None,
        nodes_view(b@[1].timeline@) == Seq::new(17, |i: int| fork_node(i)),
        b@[1].fork_from == Some((0usize, 5usize)),
        meta_view(b@[1].fork_meta) == Some(("01:15:00"@, "第一章"@, 1usize)),
{
    let main_nodes = default_timeline_nodes();
    proof {
        lemma_nodes_view_len(main_nodes@);
        assert(nodes_view(main_nodes@).len() == 25);
    }
    let mut fork_nodes = duplicate_nodes(&main_nodes, 6);
    proof {
        assert forall|k: int| 0 <= k < 6 implies nodes_view(main_nodes@.take(6))[k] == fork_node(k) by {
            assert(nodes_view(main_nodes@.take(6))[k] == node_view(main_nodes@[k]));
            assert(nodes_view(main_nodes@)[k] == node_view(main_nodes@[k]));
        }
        assert(nodes_view(fork_nodes@) =~= Seq::new(6, |k: int| fork_node(k)));
    }
    let mut i: usize = 6;
    while i <= 16
        invariant
            6 <= i <= 17,
            nodes_view(fork_nodes@) == Seq::new(i as nat, |k: int| fork_node(k)),
        decreases 17 - i,
    {
        let node = make_node(i % 4 == 0, (i - 1) / 4 + 1, 25 + i * 4);
        let ghost before = fork_nodes@;
        fork_nodes.push(node);
        proof {
            lemma_nodes_view_push(before, node);
            assert(nodes_view(fork_nodes@) =~= Seq::new((i + 1) as nat, |k: int| fork_node(k)));
        }
        i = i + 1;
    }
    let mut branches: Vec<Branch> = Vec::new();
    branches.push(Branch { timeline: main_nodes, fork_from: None, fork_meta: None });
    branches.push(
        Branch {
            timeline: fork_nodes,
            fork_from: Some((0, 5)),
            fork_meta: Some(
                ForkMeta {
                    time: String::from_str("01:15:00"),
                    chapter: String::from_str("第一章"),
                    seq: 1,
                },
            ),
        },
    );
    branches
}

/// The control row, left to right: game start, previous chapter, previous
/// save, next save, next chapter, latest progress.
#[derive(Debug, Clone, Copy, PartialEq, Eq, Structural)]
pub enum SaveLoadControlButton {
    Start,
    PrevChapter,
    PrevSave,
    NextSave,
    NextChapter,
    Latest,
}

/// Position of a control button in its row.
pub open spec fn control_index(b: SaveLoadControlButton) -> int {
    match b {
        SaveLoadControlButton::Start => 0,
        SaveLoadControlButton::PrevChapter => 1,
        SaveLoadControlButton::PrevSave => 2,
        SaveLoadControlButton::NextSave => 3,
        SaveLoadControlButton::NextChapter => 4,
        SaveLoadControlButton::Latest => 5,
    }
}

/// The control hover texts.
pub open spec fn control_hover_text(b: SaveLoadControlButton) -> Seq<char> {
    match b {
        SaveLoadControlButton::Start => "游戏开始"@,
        SaveLoadControlButton::PrevChapter => "上一章"@,
        SaveLoadControlButton::PrevSave => "上一个存档"@,
        SaveLoadControlButton::NextSave => "下一个存档"@,
        SaveLoadControlButton::NextChapter => "下一章"@,
        SaveLoadControlButton::Latest => "最新进度"@,
    }
}

impl SaveLoadControlButton {
    /// The button's icon.
    pub fn icon(&self) -> (c: char)
        ensures
            c == match *self {
                SaveLoadControlButton::Start => '\u{f048}',
                SaveLoadControlButton::PrevChapter => '\u{f045f}',
                SaveLoadControlButton::PrevSave => '\u{25c0}',
                SaveLoadControlButton::NextSave => '\u{25b6}',
                SaveLoadControlButton::NextChapter => '\u{f0211}',
                SaveLoadControlButton::Latest => '\u{f051}',
            },
    {
        match self {
            SaveLoadControlButton::Start => '\u{f048}',
            SaveLoadControlButton::PrevChapter => '\u{f045f}',
            SaveLoadControlButton::PrevSave => '\u{25c0}',
            SaveLoadControlButton::NextSave => '\u{25b6}',
            SaveLoadControlButton::NextChapter => '\u{f0211}',
            SaveLoadControlButton::Latest => '\u{f051}',
        }
    }

    /// The text shown in the status bar while the button is hovered.
    pub fn hover_label(&self) -> (s: &'static str)
        ensures
            s@ == control_hover_text(*self),
    {
        match self {
            SaveLoadControlButton::Start => {
                proof { reveal_strlit("游戏开始"); }
                "游戏开始"
            },
            SaveLoadControlButton::PrevChapter => {
                proof { reveal_strlit("上一章"); }
                "上一章"
            },
            SaveLoadControlButton::PrevSave => {
                proof { reveal_strlit("上一个存档"); }
                "上一个存档"
            },
            SaveLoadControlButton::NextSave => {
                proof { reveal_strlit("下一个存档"); }
                "下一个存档"
            },
            SaveLoadControlButton::NextChapter => {
                proof { reveal_strlit("下一章"); }
                "下一章"
            },
            SaveLoadControlButton::Latest => {
                proof { reveal_strlit("最新进度"); }
                "最新进度"
            },
        }
    }

    /// The button's columns `[start, end)` on the control row.
    pub fn cell_range(&self) -> (r: (usize, usize))
        ensures
            r.0 == 2 + 3 * control_index(*self),
            r.1 == r.0 + 3,
    {
        let i: usize = match self {
            SaveLoadControlButton::Start => 0,
            SaveLoadControlButton::PrevChapter => 1,
            SaveLoadControlButton::PrevSave => 2,
            SaveLoadControlButton::NextSave => 3,
            SaveLoadControlButton::NextChapter => 4,
            SaveLoadControlButton::Latest => 5,
        };
        let x = CONTROLS_X_START + i * CONTROL_BTN_WIDTH;
        (x, x + CONTROL_BTN_WIDTH)
    }
}

/// The control button at a position of the control row, if any.
pub open spec fn control_at(x: int, y: int) -> Option<SaveLoadControlButton> {
    if y != 44 || x < 2 || x >= 20 {
        None
    } else {
        let i = (x - 2) / 3;
        if i == 0 {
            Some(SaveLoadControlButton::Start)
        } else if i == 1 {
            Some(SaveLoadControlButton::PrevChapter)
        } else if i == 2 {
            Some(SaveLoadControlButton::PrevSave)
        } else if i == 3 {
            Some(SaveLoadControlButton::NextSave)
        } else if i == 4 {
            Some(SaveLoadControlButton::NextChapter)
        } else {
            Some(SaveLoadControlButton::Latest)
        }
    }
}

/// The control button under cell `(x, y)`.
pub fn cell_to_control_button(x: usize, y: usize) -> (b: Option<SaveLoadControlButton>)
    ensures
        b == control_at(x as int, y as int),
{
    if y != CONTROLS_ROW_Y {
        return None;
    }
    if x < CONTROLS_X_START || x >= CONTROLS_X_END {
        return None;
    }
    let i = (x - CONTROLS_X_START) / CONTROL_BTN_WIDTH;
    match i {
        0 => Some(SaveLoadControlButton::Start),
        1 => Some(SaveLoadControlButton::PrevChapter),
        2 => Some(SaveLoadControlButton::PrevSave),
        3 => Some(SaveLoadControlButton::NextSave),
        4 => Some(SaveLoadControlButton::NextChapter),
        5 => Some(SaveLoadControlButton::Latest),
        _ => None,
    }
}

/// Whether `(x, y)` is on the continue / start button.
pub fn cell_to_continue_button(x: usize, y: usize) -> (r: bool)
    ensures
        r == (y == 46 && 2 <= x < 28),
{
    y == CONTINUE_ROW_Y && x >= CONTINUE_X_START && x < CONTINUE_X_END
}

/// Whether `(x, y)` is on the back button.
pub fn cell_to_back_button(x: usize, y: usize) -> (r: bool)
    ensures
        r == (y == 2 && 92 <= x < 96),
{
    y == BACK_BTN_Y && x >= BACK_BTN_X_START && x < BACK_BTN_X_END
}

/// The timeline node under `(x, y)` when node `target` is selected: the dot and
/// line columns (up to 4) or the label columns, on a node row between the view's
/// top and bottom; the node `target + (y - 23) / 4`, if the timeline has it.
pub open spec fn timeline_node_at(x: int, y: int, len: int, target: int) -> Option<usize> {
    let in_left = x <= 4;
    let in_label = 6 <= x < 36;
    if !in_left && !in_label {
        None
    } else if y < 6 || y > 40 {
        None
    } else if (y - 23) % 4 != 0 {
        None
    } else {
        let i = target + (y - 23) / 4;
        if 0 <= i < len {
            Some(i as usize)
        } else {
            None
        }
    }
}

/// The timeline node under cell `(x, y)` (see `timeline_node_at`).
pub fn cell_to_timeline_node_index(x: usize, y: usize, nodes: &Vec<TimelineNode>, target: usize) -> (r: Option<usize>)
    requires
        target + 4 <= i32::MAX,
        nodes@.len() <= i32::MAX,
    ensures
        r == timeline_node_at(x as int, y as int, nodes@.len() as int, target as int),
{
    let in_left = x <= 4;
    let in_label = x >= LABEL_X_START && x < LABEL_X_END;
    if !in_left && !in_label {
        return None;
    }
    if y < TIMELINE_VIEW_TOP || y > TIMELINE_VIEW_BOTTOM {
        return None;
    }
    let dy: i32 = y as i32 - TIMELINE_CENTER_Y as i32;
    if dy % (NODE_SPACING as i32) != 0 {
        return None;
    }
    let offset: i32 = dy / (NODE_SPACING as i32);
    let idx: i32 = target as i32 + offset;
    if idx >= 0 && idx < nodes.len() as i32 {
        Some(idx as usize)
    } else {
        None
    }
}

/// Ids of the branches among `branches[0..n]` that forked from node
/// `from_node` of branch `from_branch`, in order.
pub open spec fn forks_of(branches: Seq<Branch>, n: int, from_branch: usize, from_node: usize) -> Seq<usize>
    decreases n,
{
    if n <= 0 {
        Seq::empty()
    } else {
        forks_of(branches, n - 1, from_branch, from_node) + if branches[n - 1].fork_from == Some(
            (from_branch, from_node),
        ) {
            seq![(n - 1) as usize]
        } else {
            Seq::empty()
        }
    }
}

/// The ids of the branches that forked from node `from_node` of branch `from_branch`.
pub fn fork_branch_ids_from(branches: &Vec<Branch>, from_branch_id: usize, from_node: usize) -> (ids: Vec<usize>)
    ensures
        ids@ == forks_of(branches@, branches@.len() as int, from_branch_id, from_node),
{
    let mut ids: Vec<usize> = Vec::new();
    let mut i: usize = 0;
    while i < branches.len()
        invariant
            i <= branches.len(),
            ids@ == forks_of(branches@, i as int, from_branch_id, from_node),
        decreases branches.len() - i,
    {
        let matches = match branches[i].fork_from {
            Some((b, n)) => b == from_branch_id && n == from_node,
            None => false,
        };
        if matches {
            ids.push(i);
        }
        proof {
            assert(ids@ =~= forks_of(branches@, i + 1, from_branch_id, from_node));
        }
        i = i + 1;
    }
    ids
}

/// `s` without the elements equal to `v`.
pub open spec fn without(s: Seq<usize>, v: usize) -> Seq<usize>
    decreases s.len(),
{
    if s.len() == 0 {
        s
    } else {
        without(s.drop_last(), v) + if s.last() == v {
            Seq::empty()
        } else {
            seq![s.last()]
        }
    }
}

fn remove_value(s: &Vec<usize>, v: usize) -> (r: Vec<usize>)
    ensures
        r@ == without(s@, v),
{
    let mut r: Vec<usize> = Vec::new();
    let mut i: usize = 0;
    while i < s.len()
        invariant
            i <= s.len(),
            r@ == without(s@.take(i as int), v),
        decreases s.len() - i,
    {
        proof {
            assert(s@.take(i + 1).drop_last() =~= s@.take(i as int));
        }
        if s[i] != v {
            r.push(s[i]);
        }
        proof {
            assert(r@ =~= without(s@.take(i + 1), v));
        }
        i = i + 1;
    }
    proof {
        assert(s@.take(s@.len() as int) =~= s@);
    }
    r
}

/// Index of the fork list item under `(x, y)` with the list scrolled by `offset`.
pub open spec fn fork_item_at(x: int, y: int, count: int, offset: int) -> Option<usize> {
    if x < 40 || x >= 76 || y < 6 || y > 40 {
        None
    } else {
        let i = offset + (y - 6) / 2;
        if i < count {
            Some(i as usize)
        } else {
            None
        }
    }
}

/// The fork list item under cell `(x, y)`, if any.
pub fn cell_to_fork_list_index(x: usize, y: usize, fork_count: usize, fork_list_offset: usize) -> (r: Option<usize>)
    requires
        fork_list_offset <= usize::MAX - 20,
    ensures
        r == fork_item_at(x as int, y as int, fork_count as int, fork_list_offset as int),
{
    if x < FORK_LIST_X_START || x >= FORK_LIST_X_END {
        return None;
    }
    if y < FORK_LIST_ROW_START || y > FORK_LIST_ROW_END {
        return None;
    }
    let row = y - FORK_LIST_ROW_START;
    let item = row / FORK_ITEM_HEIGHT;
    let idx = fork_list_offset + item;
    if idx < fork_count {
        Some(idx)
    } else {
        None
    }
}

/// The save page's state. `nodes` is the timeline of the current branch and
/// `target` the selected node; the `prev_*` fields remember what was drawn.
pub struct SaveLoadState {
    pub branches: Vec<Branch>,
    pub current_branch_id: usize,
    pub nodes: Vec<TimelineNode>,
    pub target: usize,
    pub fork_list_offset: usize,
    pub hovered_control: Option<SaveLoadControlButton>,
    pub hovered_continue: bool,
    pub hovered_back: bool,
    pub hovered_node: Option<usize>,
    /// Index in the fork list (not a branch id).
    pub hovered_fork_index: Option<usize>,
    pub prev_app_state: Option<AppState>,
    pub prev_target: usize,
    pub prev_branch_id: usize,
    pub prev_fork_list_offset: usize,
    pub prev_hovered_control: Option<SaveLoadControlButton>,
    pub prev_hovered_continue: bool,
    pub prev_hovered_back: bool,
    pub prev_hovered_node: Option<usize>,
    pub prev_hovered_fork_index: Option<usize>,
}

/// Which parts of the page to redraw this frame.
#[derive(Debug, Clone, Copy, PartialEq, Eq, Structural)]
pub struct SaveLoadRedraw {
    /// Everything: timeline, fork list and controls, with their hover layers.
    pub content: bool,
    /// Only the timeline hover layer.
    pub timeline_hover: bool,
    /// Only the controller hover layer.
    pub controller_hover: bool,
}

/// A wheel movement: up selects the previous node, down the next.
#[derive(Debug, Clone, Copy, PartialEq, Eq, Structural)]
pub enum ScrollDir {
    Up,
    Down,
    Still,
}

/// The number of nodes that navigation counts with (at least one).
pub open spec fn nav_len(nodes: Seq<TimelineNode>) -> int {
    if nodes.len() == 0 {
        1
    } else {
        nodes.len() as int
    }
}

/// The nearest chapter point before node `i`.
pub open spec fn prev_chapter(nodes: Seq<TimelineNode>, i: int) -> Option<int>
    decreases i,
{
    if i <= 0 {
        None
    } else if nodes[i - 1].is_chapter {
        Some(i - 1)
    } else {
        prev_chapter(nodes, i - 1)
    }
}

/// The first chapter point at or after node `i` and before `len`.
pub open spec fn next_chapter(nodes: Seq<TimelineNode>, i: int, len: int) -> Option<int>
    decreases len - i,
{
    if i >= len {
        None
    } else if nodes[i].is_chapter {
        Some(i)
    } else {
        next_chapter(nodes, i + 1, len)
    }
}

/// The node selected after pressing control `b` with node `target` selected.
pub open spec fn control_target(nodes: Seq<TimelineNode>, target: int, b: SaveLoadControlButton) -> int {
    let len = nav_len(nodes);
    match b {
        SaveLoadControlButton::Start => 0,
        SaveLoadControlButton::PrevChapter => match prev_chapter(nodes, target) {
            Some(i) => i,
            None => target,
        },
        SaveLoadControlButton::PrevSave => if target > 0 {
            target - 1
        } else {
            0
        },
        SaveLoadControlButton::NextSave => if target + 1 < len - 1 {
            target + 1
        } else {
            len - 1
        },
        SaveLoadControlButton::NextChapter => match next_chapter(nodes, target + 1, len) {
            Some(i) => i,
            None => target,
        },
        SaveLoadControlButton::Latest => len - 1,
    }
}

/// The branches listed on the right for the selected node of branch `cur`: at
/// the node a fork split off, its parent and the parent's forks from that node;
/// otherwise the forks from the selected node. The current branch is left out.
pub open spec fn listed_branches(branches: Seq<Branch>, cur: usize, target: usize) -> Seq<usize> {
    let ids = match branches[cur as int].fork_from {
        Some((p, from_node)) => if target == from_node {
            seq![p] + forks_of(branches, branches.len() as int, p, from_node)
        } else {
            forks_of(branches, branches.len() as int, cur, target)
        },
        None => forks_of(branches, branches.len() as int, cur, target),
    };
    without(ids, cur)
}

/// The status-bar text of a fork list item.
pub open spec fn fork_hover_text(meta: Option<(Seq<char>, Seq<char>, usize)>) -> Seq<char> {
    match meta {
        Some((time, _, n)) => "切换到 ["@ + time + "] #"@ + decimal(n as nat),
        None => "切换到 [00:00:00] 序章 #0"@,
    }
}

/// The hover part of the state.
pub open spec fn hover_of(s: SaveLoadState) -> (Option<SaveLoadControlButton>, bool, bool, Option<usize>, Option<usize>) {
    (s.hovered_control, s.hovered_continue, s.hovered_back, s.hovered_node, s.hovered_fork_index)
}

/// Everything but the hover part is the same.
pub open spec fn same_but_hover(a: SaveLoadState, b: SaveLoadState) -> bool {
    a == SaveLoadState {
        hovered_control: a.hovered_control,
        hovered_continue: a.hovered_continue,
        hovered_back: a.hovered_back,
        hovered_node: a.hovered_node,
        hovered_fork_index: a.hovered_fork_index,
        ..b
    }
}

/// `new` is `old` switched to branch `id`, at that branch's latest node.
pub open spec fn switched_to(new: SaveLoadState, old: SaveLoadState, id: usize) -> bool {
    &&& new.current_branch_id == id
    &&& nodes_view(new.nodes@) == nodes_view(old.branches@[id as int].timeline@)
    &&& new.target == (if old.branches@[id as int].timeline@.len() > 0 {
        old.branches@[id as int].timeline@.len() - 1
    } else {
        0
    })
    &&& new == (SaveLoadState { current_branch_id: id, nodes: new.nodes, target: new.target, ..old })
}

/// The node selected after a wheel movement.
pub open spec fn scrolled_target(nodes: Seq<TimelineNode>, target: usize, dir: ScrollDir) -> usize {
    match dir {
        ScrollDir::Up => control_target(nodes, target as int, SaveLoadControlButton::PrevSave) as usize,
        ScrollDir::Down => control_target(nodes, target as int, SaveLoadControlButton::NextSave) as usize,
        ScrollDir::Still => target,
    }
}

impl SaveLoadState {
    /// The state invariant: the current branch exists and `nodes` shows its
    /// timeline, the selected node exists (node 0 of an empty timeline), every
    /// fork's parent exists, and the sizes stay far from machine limits.
    pub open spec fn wf(&self) -> bool {
        &&& self.current_branch_id < self.branches@.len()
        &&& nodes_view(self.nodes@) == nodes_view(self.branches@[self.current_branch_id as int].timeline@)
        &&& self.target < nav_len(self.nodes@)
        &&& self.fork_list_offset <= usize::MAX - 20
        &&& forall|b: int|
            #![trigger self.branches@[b]]
            0 <= b < self.branches@.len() ==> self.branches@[b].timeline@.len() <= 0x7fff_0000 && (
            self.branches@[b].fork_from matches Some((p, _)) ==> p < self.branches@.len())
    }

    /// The page as first shown: the sample branches, the main line, its latest node.
    pub fn new() -> (s: Self)
        ensures
            s.wf(),
            s.current_branch_id == 0,
            s.target == 24,
            s.prev_target == 24,
            nodes_view(s.nodes@) == Seq::new(25, |i: int| main_node(i)),
            s.branches@.len() == 2,
            hover_of(s) == (None::<SaveLoadControlButton>, false, false, None::<usize>, None::<usize>),
    {
        let branches = default_branches();
        proof {
            lemma_nodes_view_len(branches@[0].timeline@);
            lemma_nodes_view_len(branches@[1].timeline@);
        }
        let nodes = duplicate_nodes(&branches[0].timeline, branches[0].timeline.len());
        proof {
            assert(branches@[0].timeline@.take(25) =~= branches@[0].timeline@);
            lemma_nodes_view_len(nodes@);
        }
        let last = nodes.len() - 1;
        SaveLoadState {
            branches,
            current_branch_id: 0,
            nodes,
            target: last,
            fork_list_offset: 0,
            hovered_control: None,
            hovered_continue: false,
            hovered_back: false,
            hovered_node: None,
            hovered_fork_index: None,
            prev_app_state: None,
            prev_target: last,
            prev_branch_id: 0,
            prev_fork_list_offset: 0,
            prev_hovered_control: None,
            prev_hovered_continue: false,
            prev_hovered_back: false,
            prev_hovered_node: None,
            prev_hovered_fork_index: None,
        }
    }

    /// The branch being viewed.
    pub fn current_branch(&self) -> (b: &Branch)
        requires
            self.wf(),
        ensures
            *b == self.branches@[self.current_branch_id as int],
    {
        &self.branches[self.current_branch_id]
    }

    /// Whether the main line (branch 0) is viewed.
    pub fn is_main_branch(&self) -> (r: bool)
        ensures
            r == (self.current_branch_id == 0),
    {
        self.current_branch_id == 0
    }

    /// The branch ids listed on the right (see `listed_branches`).
    pub fn list_branch_ids(&self) -> (ids: Vec<usize>)
        requires
            self.wf(),
        ensures
            ids@ == listed_branches(self.branches@, self.current_branch_id, self.target),
    {
        let cur = self.current_branch_id;
        let target = self.target;
        let ids = match self.current_branch().fork_from {
            Some((parent_id, from_node)) => {
                if target == from_node {
                    let mut list: Vec<usize> = Vec::new();
                    list.push(parent_id);
                    let forks = fork_branch_ids_from(&self.branches, parent_id, from_node);
                    let mut i: usize = 0;
                    while i < forks.len()
                        invariant
                            i <= forks.len(),
                            list@ == seq![parent_id] + forks@.take(i as int),
                        decreases forks.len() - i,
                    {
                        list.push(forks[i]);
                        proof {
                            assert(list@ =~= seq![parent_id] + forks@.take(i + 1));
                        }
                        i = i + 1;
                    }
                    proof {
                        assert(forks@.take(forks@.len() as int) =~= forks@);
                    }
                    list
                } else {
                    fork_branch_ids_from(&self.branches, cur, target)
                }
            },
            None => fork_branch_ids_from(&self.branches, cur, target),
        };
        remove_value(&ids, cur)
    }

    /// `<chapter> <play time>` of the selected node, or `—` when there is none.
    pub fn current_chapter_and_duration(&self) -> (s: String)
        ensures
            s@ == (if self.target < self.nodes@.len() {
                self.nodes@[self.target as int].chapter_name@ + " "@ + self.nodes@[self.target as int].duration_display@
            } else {
                "—"@
            }),
    {
        if self.target < self.nodes.len() {
            let n = &self.nodes[self.target];
            let mut s = n.chapter_name.clone();
            s.append(" ");
            s.append(n.duration_display.as_str());
            s
        } else {
            String::from_str("—")
        }
    }

    /// Whether the latest node is selected (only then the button reads "continue").
    pub fn is_latest_progress(&self) -> (r: bool)
        ensures
            r == (self.nodes@.len() > 0 && self.target == self.nodes@.len() - 1),
    {
        self.nodes.len() > 0 && self.target == self.nodes.len() - 1
    }

    /// Views branch `branch_id` at its latest node; an unknown or the current
    /// branch changes nothing. Returns whether the branch changed.
    pub fn switch_to_branch(&mut self, branch_id: usize) -> (switched: bool)
        requires
            old(self).wf(),
        ensures
            final(self).wf(),
            switched == (branch_id < old(self).branches@.len() && branch_id != old(self).current_branch_id),
            switched ==> switched_to(*final(self), *old(self), branch_id),
            !switched ==> *final(self) == *old(self),
    {
        if branch_id >= self.branches.len() || branch_id == self.current_branch_id {
            return false;
        }
        self.current_branch_id = branch_id;
        let n = self.branches[branch_id].timeline.len();
        let nodes = duplicate_nodes(&self.branches[branch_id].timeline, n);
        proof {
            assert(self.branches@[branch_id as int].timeline@.take(n as int) =~= self.branches@[branch_id as int].timeline@);
            lemma_nodes_view_len(nodes@);
            lemma_nodes_view_len(self.branches@[branch_id as int].timeline@);
        }
        self.nodes = nodes;
        self.target = if n > 0 { n - 1 } else { 0 };
        true
    }

    /// On entering the page: select the latest node and redraw everything.
    pub fn enter_latest(&mut self)
        requires
            old(self).wf(),
        ensures
            final(self).wf(),
            final(self).target == (if old(self).nodes@.len() > 0 { old(self).nodes@.len() - 1 } else { 0 }),
            *final(self) == (SaveLoadState {
                target: final(self).target,
                prev_target: final(self).target,
                prev_branch_id: old(self).current_branch_id,
                prev_app_state: None,
                ..*old(self)
            }),
    {
        let last = if self.nodes.len() > 0 { self.nodes.len() - 1 } else { 0 };
        self.target = last;
        self.prev_target = last;
        self.prev_branch_id = self.current_branch_id;
        self.prev_app_state = None;
    }

    /// A wheel movement: up selects the previous node, down the next (within the timeline).
    pub fn scroll(&mut self, dir: ScrollDir)
        requires
            old(self).wf(),
        ensures
            final(self).wf(),
            *final(self) == (SaveLoadState { target: scrolled_target(old(self).nodes@, old(self).target, dir), ..*old(self) }),
    {
        let len = if self.nodes.len() > 0 { self.nodes.len() } else { 1 };
        match dir {
            ScrollDir::Up => {
                self.target = if self.target > 0 { self.target - 1 } else { 0 };
            },
            ScrollDir::Down => {
                self.target = if self.target + 1 < len - 1 { self.target + 1 } else { len - 1 };
            },
            ScrollDir::Still => {},
        }
    }
}


proof fn lemma_forks_of_bounds(branches: Seq<Branch>, n: int, from_branch: usize, from_node: usize)
    requires
        0 <= n,
    ensures
        forall|k: int|
            0 <= k < forks_of(branches, n, from_branch, from_node).len() ==> #[trigger] forks_of(
                branches,
                n,
                from_branch,
                from_node,
            )[k] < n,
    decreases n,
{
    if n > 0 {
        lemma_forks_of_bounds(branches, n - 1, from_branch, from_node);
        let prev = forks_of(branches, n - 1, from_branch, from_node);
        let cur = forks_of(branches, n, from_branch, from_node);
        assert forall|k: int| 0 <= k < cur.len() implies #[trigger] cur[k] < n by {
            if k < prev.len() {
                assert(cur[k] == prev[k]);
            }
        }
    }
}

proof fn lemma_without_bounds(s: Seq<usize>, v: usize, bound: int)
    requires
        forall|j: int| 0 <= j < s.len() ==> #[trigger] s[j] < bound,
    ensures
        forall|k: int|
            0 <= k < without(s, v).len() ==> #[trigger] without(s, v)[k] < bound && without(s, v)[k] != v,
    decreases s.len(),
{
    if s.len() > 0 {
        let t = s.drop_last();
        assert forall|j: int| 0 <= j < t.len() implies #[trigger] t[j] < bound by {
            assert(t[j] == s[j]);
        }
        lemma_without_bounds(t, v, bound);
        let w = without(s, v);
        let wt = without(t, v);
        assert forall|k: int| 0 <= k < w.len() implies #[trigger] w[k] < bound && w[k] != v by {
            if k < wt.len() {
                assert(w[k] == wt[k]);
            }
        }
    }
}

/// Every listed branch exists and differs from the current one.
proof fn lemma_listed_bounds(s: SaveLoadState)
    requires
        s.wf(),
    ensures
        forall|k: int|
            0 <= k < listed_branches(s.branches@, s.current_branch_id, s.target).len() ==> {
                let id = #[trigger] listed_branches(s.branches@, s.current_branch_id, s.target)[k];
                id < s.branches@.len() && id != s.current_branch_id
            },
{
    let branches = s.branches@;
    let n = branches.len() as int;
    let cur = s.current_branch_id;
    let target = s.target;
    let ids = match branches[cur as int].fork_from {
        Some((p, from_node)) => if target == from_node {
            seq![p] + forks_of(branches, n, p, from_node)
        } else {
            forks_of(branches, n, cur, target)
        },
        None => forks_of(branches, n, cur, target),
    };
    match branches[cur as int].fork_from {
        Some((p, from_node)) => {
            lemma_forks_of_bounds(branches, n, p, from_node);
            lemma_forks_of_bounds(branches, n, cur, target);
            assert(p < n);
        },
        None => {
            lemma_forks_of_bounds(branches, n, cur, target);
        },
    }
    assert forall|j: int| 0 <= j < ids.len() implies #[trigger] ids[j] < n by {
        match branches[cur as int].fork_from {
            Some((p, from_node)) => {
                if target == from_node && j > 0 {
                    assert(ids[j] == forks_of(branches, n, p, from_node)[j - 1]);
                }
            },
            None => {},
        }
    }
    lemma_without_bounds(ids, cur, n);
}

/// The prompt of the continue button: "continue" at the latest node, "start" elsewhere.
pub open spec fn continue_text(latest: bool) -> Seq<char> {
    if latest {
        "继续游戏"@
    } else {
        "开始游戏"@
    }
}

/// Whether the latest node of `nodes` is selected.
pub open spec fn at_latest(nodes: Seq<TimelineNode>, target: usize) -> bool {
    nodes.len() > 0 && target == nodes.len() - 1
}

/// No hover at all.
pub open spec fn no_hover() -> (Option<SaveLoadControlButton>, bool, bool, Option<usize>, Option<usize>) {
    (None, false, false, None, None)
}

/// What the pointer at `(x, y)` hovers, in order of precedence: a control
/// button, the continue button, the back button, a timeline node, a fork list item.
pub open spec fn hover_at(s: SaveLoadState, x: int, y: int) -> (
    Option<SaveLoadControlButton>,
    bool,
    bool,
    Option<usize>,
    Option<usize>,
) {
    let ids = listed_branches(s.branches@, s.current_branch_id, s.target);
    let fi = fork_item_at(x, y, ids.len() as int, s.fork_list_offset as int);
    let node = timeline_node_at(x, y, s.nodes@.len() as int, s.target as int);
    if control_at(x, y) is Some {
        (control_at(x, y), false, false, None, None)
    } else if y == 46 && 2 <= x < 28 {
        (None, true, false, None, None)
    } else if y == 2 && 92 <= x < 96 {
        (None, false, true, None, None)
    } else if node is Some {
        (None, false, false, node, None)
    } else if fi is Some {
        (None, false, false, None, fi)
    } else {
        no_hover()
    }
}

/// The status-bar text for the pointer at `(x, y)` (see `hover_at`).
pub open spec fn hover_text_at(s: SaveLoadState, x: int, y: int) -> Option<Seq<char>> {
    let ids = listed_branches(s.branches@, s.current_branch_id, s.target);
    let fi = fork_item_at(x, y, ids.len() as int, s.fork_list_offset as int);
    let node = timeline_node_at(x, y, s.nodes@.len() as int, s.target as int);
    if control_at(x, y) is Some {
        Some(control_hover_text(control_at(x, y)->0))
    } else if y == 46 && 2 <= x < 28 {
        Some(continue_text(at_latest(s.nodes@, s.target)))
    } else if y == 2 && 92 <= x < 96 {
        Some("返回主菜单"@)
    } else if node is Some {
        Some(node_label(node_view(s.nodes@[node->0 as int])))
    } else if fi is Some {
        Some(fork_hover_text(meta_view(s.branches@[ids[fi->0 as int] as int].fork_meta)))
    } else {
        None
    }
}

/// The view of an optional text.
pub open spec fn opt_text(t: Option<String>) -> Option<Seq<char>> {
    match t {
        Some(s) => Some(s@),
        None => None,
    }
}

/// The status-bar text of a fork list item (see `fork_hover_text`).
pub fn fork_switch_text(meta: &Option<ForkMeta>) -> (s: String)
    ensures
        s@ == fork_hover_text(meta_view(*meta)),
{
    match meta {
        Some(m) => {
            let mut s = String::from_str("切换到 [");
            s.append(m.time.as_str());
            s.append("] #");
            crate::fmt::push_decimal(&mut s, m.seq);
            proof {
                reveal_strlit("切换到 [");
                reveal_strlit("] #");
                assert(s@ =~= fork_hover_text(meta_view(*meta)));
            }
            s
        },
        None => String::from_str("切换到 [00:00:00] 序章 #0"),
    }
}

/// The node selected after a click at `(x, y)`, and what else the click does:
/// a control button moves the selection, a timeline node is selected, a fork
/// list item switches to that branch, the back button leads to the main menu.
pub open spec fn release_effect(new: SaveLoadState, old: SaveLoadState, x: int, y: int, nav: Option<AppState>) -> bool {
    let ids = listed_branches(old.branches@, old.current_branch_id, old.target);
    let fi = fork_item_at(x, y, ids.len() as int, old.fork_list_offset as int);
    let node = timeline_node_at(x, y, old.nodes@.len() as int, old.target as int);
    if control_at(x, y) is Some {
        &&& new == (SaveLoadState {
            target: control_target(old.nodes@, old.target as int, control_at(x, y)->0) as usize,
            ..old
        })
        &&& nav is None
    } else if y == 46 && 2 <= x < 28 {
        new == old && nav is None
    } else if y == 2 && 92 <= x < 96 {
        new == old && nav == Some(AppState::MainMenu)
    } else if node is Some {
        new == (SaveLoadState { target: node->0, ..old }) && nav is None
    } else if fi is Some {
        switched_to(new, old, ids[fi->0 as int]) && nav is None
    } else {
        new == old && nav is None
    }
}

proof fn lemma_prev_chapter_range(nodes: Seq<TimelineNode>, i: int)
    ensures
        prev_chapter(nodes, i) matches Some(j) ==> 0 <= j < i,
    decreases i,
{
    if i > 0 {
        lemma_prev_chapter_range(nodes, i - 1);
    }
}

proof fn lemma_next_chapter_range(nodes: Seq<TimelineNode>, i: int, len: int)
    ensures
        next_chapter(nodes, i, len) matches Some(j) ==> i <= j < len,
    decreases len - i,
{
    if i < len {
        lemma_next_chapter_range(nodes, i + 1, len);
    }
}

proof fn lemma_control_target_range(nodes: Seq<TimelineNode>, target: int, b: SaveLoadControlButton)
    requires
        0 <= target < nav_len(nodes),
    ensures
        0 <= control_target(nodes, target, b) < nav_len(nodes),
{
    lemma_prev_chapter_range(nodes, target);
    lemma_next_chapter_range(nodes, target + 1, nav_len(nodes));
}

/// Whether two optional control buttons are the same.
fn same_control(a: Option<SaveLoadControlButton>, b: Option<SaveLoadControlButton>) -> (r: bool)
    ensures
        r == (a == b),
{
    match (a, b) {
        (Some(x), Some(y)) => x == y,
        (None, None) => true,
        _ => false,
    }
}

/// Whether two optional indices are the same.
fn same_index(a: Option<usize>, b: Option<usize>) -> (r: bool)
    ensures
        r == (a == b),
{
    match (a, b) {
        (Some(x), Some(y)) => x == y,
        (None, None) => true,
        _ => false,
    }
}

/// What a frame of the page redraws: everything when the page was just entered
/// or the selection, branch or list scroll changed; otherwise each hover layer
/// whose hover changed.
pub open spec fn redraw_of(s: SaveLoadState) -> SaveLoadRedraw {
    let content = s.prev_app_state != Some(AppState::SaveLoad) || s.target != s.prev_target
        || s.current_branch_id != s.prev_branch_id || s.fork_list_offset != s.prev_fork_list_offset;
    let timeline = s.hovered_node != s.prev_hovered_node;
    let controller = s.hovered_control != s.prev_hovered_control || s.hovered_continue
        != s.prev_hovered_continue || s.hovered_back != s.prev_hovered_back || s.hovered_fork_index
        != s.prev_hovered_fork_index;
    SaveLoadRedraw {
        content,
        timeline_hover: !content && timeline,
        controller_hover: !content && controller,
    }
}

/// `s` with what is drawn recorded as drawn.
pub open spec fn drawn(s: SaveLoadState) -> SaveLoadState {
    SaveLoadState {
        prev_app_state: Some(AppState::SaveLoad),
        prev_target: s.target,
        prev_branch_id: s.current_branch_id,
        prev_fork_list_offset: s.fork_list_offset,
        prev_hovered_control: s.hovered_control,
        prev_hovered_continue: s.hovered_continue,
        prev_hovered_back: s.hovered_back,
        prev_hovered_node: s.hovered_node,
        prev_hovered_fork_index: s.hovered_fork_index,
        ..s
    }
}

fn find_prev_chapter(nodes: &Vec<TimelineNode>, target: usize) -> (r: Option<usize>)
    requires
        target <= nodes@.len(),
    ensures
        r matches Some(j) ==> prev_chapter(nodes@, target as int) == Some(j as int),
        r is None ==> prev_chapter(nodes@, target as int) is None,
{
    let mut i = target;
    while i > 0
        invariant
            i <= target <= nodes@.len(),
            prev_chapter(nodes@, target as int) == prev_chapter(nodes@, i as int),
        decreases i,
    {
        if nodes[i - 1].is_chapter {
            return Some(i - 1);
        }
        i = i - 1;
    }
    None
}

fn find_next_chapter(nodes: &Vec<TimelineNode>, from: usize, len: usize) -> (r: Option<usize>)
    requires
        len <= nodes@.len() || from >= len,
    ensures
        r matches Some(j) ==> next_chapter(nodes@, from as int, len as int) == Some(j as int),
        r is None ==> next_chapter(nodes@, from as int, len as int) is None,
{
    let mut i = from;
    while i < len
        invariant
            from <= i,
            len <= nodes@.len() || i >= len,
            next_chapter(nodes@, from as int, len as int) == next_chapter(nodes@, i as int, len as int),
        decreases len - i,
    {
        if nodes[i].is_chapter {
            return Some(i);
        }
        i = i + 1;
    }
    None
}

proof fn lemma_wf_limits(s: SaveLoadState)
    requires
        s.wf(),
    ensures
        s.nodes@.len() <= 0x7fff_0000,
        s.target <= 0x7fff_0000,
{
    assert(s.branches@[s.current_branch_id as int].timeline@.len() <= 0x7fff_0000);
    assert(nodes_view(s.nodes@).len() == s.nodes@.len());
}

impl SaveLoadState {
    fn set_hover(
        &mut self,
        control: Option<SaveLoadControlButton>,
        cont: bool,
        back: bool,
        node: Option<usize>,
        fork: Option<usize>,
    )
        ensures
            *final(self) == (SaveLoadState {
                hovered_control: control,
                hovered_continue: cont,
                hovered_back: back,
                hovered_node: node,
                hovered_fork_index: fork,
                ..*old(self)
            }),
    {
        self.hovered_control = control;
        self.hovered_continue = cont;
        self.hovered_back = back;
        self.hovered_node = node;
        self.hovered_fork_index = fork;
    }

    /// The pointer moved to `cell` (`None`: off the canvas). Updates the hover
    /// and returns the status-bar text for it.
    pub fn on_hover(&mut self, cell: Option<(usize, usize)>) -> (text: Option<String>)
        requires
            old(self).wf(),
        ensures
            final(self).wf(),
            same_but_hover(*final(self), *old(self)),
            hover_of(*final(self)) == (match cell {
                Some((x, y)) => hover_at(*old(self), x as int, y as int),
                None => no_hover(),
            }),
            opt_text(text) == (match cell {
                Some((x, y)) => hover_text_at(*old(self), x as int, y as int),
                None => None,
            }),
    {
        match cell {
            None => {
                self.set_hover(None, false, false, None, None);
                None
            },
            Some((x, y)) => {
                proof {
                    lemma_listed_bounds(*self);
                    lemma_wf_limits(*self);
                }
                let fork_ids = self.list_branch_ids();
                let fork_count = fork_ids.len();
                let fork_idx = cell_to_fork_list_index(x, y, fork_count, self.fork_list_offset);
                if let Some(btn) = cell_to_control_button(x, y) {
                    self.set_hover(Some(btn), false, false, None, None);
                    Some(String::from_str(btn.hover_label()))
                } else if cell_to_continue_button(x, y) {
                    self.set_hover(None, true, false, None, None);
                    if self.is_latest_progress() {
                        Some(String::from_str("继续游戏"))
                    } else {
                        Some(String::from_str("开始游戏"))
                    }
                } else if cell_to_back_button(x, y) {
                    self.set_hover(None, false, true, None, None);
                    Some(String::from_str("返回主菜单"))
                } else if let Some(idx) = cell_to_timeline_node_index(x, y, &self.nodes, self.target) {
                    self.set_hover(None, false, false, Some(idx), None);
                    Some(self.nodes[idx].label())
                } else if let Some(fi) = fork_idx {
                    self.set_hover(None, false, false, None, Some(fi));
                    let bid = fork_ids[fi];
                    Some(fork_switch_text(&self.branches[bid].fork_meta))
                } else {
                    self.set_hover(None, false, false, None, None);
                    None
                }
            },
        }
    }

    /// A click released at `(x, y)` (see `release_effect`); returns the page to
    /// go to, if any.
    pub fn on_release(&mut self, x: usize, y: usize) -> (nav: Option<AppState>)
        requires
            old(self).wf(),
        ensures
            final(self).wf(),
            release_effect(*final(self), *old(self), x as int, y as int, nav),
    {
        proof {
            lemma_wf_limits(*self);
        }
        if let Some(btn) = cell_to_control_button(x, y) {
            proof {
                lemma_control_target_range(self.nodes@, self.target as int, btn);
            }
            let len = if self.nodes.len() > 0 { self.nodes.len() } else { 1 };
            match btn {
                SaveLoadControlButton::Start => {
                    self.target = 0;
                },
                SaveLoadControlButton::PrevChapter => {
                    if let Some(j) = find_prev_chapter(&self.nodes, self.target) {
                        self.target = j;
                    }
                },
                SaveLoadControlButton::PrevSave => {
                    self.target = if self.target > 0 { self.target - 1 } else { 0 };
                },
                SaveLoadControlButton::NextSave => {
                    self.target = if self.target + 1 < len - 1 { self.target + 1 } else { len - 1 };
                },
                SaveLoadControlButton::NextChapter => {
                    if let Some(j) = find_next_chapter(&self.nodes, self.target + 1, len) {
                        self.target = j;
                    }
                },
                SaveLoadControlButton::Latest => {
                    self.target = len - 1;
                },
            }
            None
        } else if cell_to_continue_button(x, y) {
            None
        } else if cell_to_back_button(x, y) {
            Some(AppState::MainMenu)
        } else if let Some(idx) = cell_to_timeline_node_index(x, y, &self.nodes, self.target) {
            self.target = idx;
            None
        } else {
            proof {
                lemma_listed_bounds(*self);
            }
            let fork_ids = self.list_branch_ids();
            let fork_count = fork_ids.len();
            if let Some(fi) = cell_to_fork_list_index(x, y, fork_count, self.fork_list_offset) {
                self.switch_to_branch(fork_ids[fi]);
            }
            None
        }
    }

    /// Starts a frame of the page: says what to redraw (see `redraw_of`) and
    /// records the current selection and hover as drawn.
    pub fn begin_draw(&mut self) -> (r: SaveLoadRedraw)
        ensures
            r == redraw_of(*old(self)),
            *final(self) == drawn(*old(self)),
    {
        let just_entered = match self.prev_app_state {
            Some(AppState::SaveLoad) => false,
            _ => true,
        };
        let content = just_entered || self.target != self.prev_target || self.current_branch_id
            != self.prev_branch_id || self.fork_list_offset != self.prev_fork_list_offset;
        let timeline = !same_index(self.hovered_node, self.prev_hovered_node);
        let controller = !same_control(self.hovered_control, self.prev_hovered_control)
            || self.hovered_continue != self.prev_hovered_continue || self.hovered_back
            != self.prev_hovered_back || !same_index(self.hovered_fork_index, self.prev_hovered_fork_index);
        self.prev_app_state = Some(AppState::SaveLoad);
        self.prev_target = self.target;
        self.prev_branch_id = self.current_branch_id;
        self.prev_fork_list_offset = self.fork_list_offset;
        self.prev_hovered_control = self.hovered_control;
        self.prev_hovered_continue = self.hovered_continue;
        self.prev_hovered_back = self.hovered_back;
        self.prev_hovered_node = self.hovered_node;
        self.prev_hovered_fork_index = self.hovered_fork_index;
        SaveLoadRedraw {
            content,
            timeline_hover: !content && timeline,
            controller_hover: !content && controller,
        }
    }
}


/// The colours the page is drawn with.
#[derive(Debug, Clone, Copy, PartialEq, Eq, Structural)]
pub struct SaveLoadColors<C> {
    pub text: C,
    pub dim: C,
    pub accent: C,
    /// Background of the buttons.
    pub bg: C,
    pub hover_bg: C,
}

/// The fork information next to the title.
pub open spec fn fork_info_text(m: Option<(Seq<char>, Seq<char>, usize)>) -> Seq<char> {
    match m {
        Some((t, c, n)) => "分叉与 ["@ + t + "] "@ + c + " [#"@ + decimal(n as nat) + "]"@,
        None => "分叉与 [00:00:00] 序章 [#0]"@,
    }
}

/// The row of node `idx` when node `target` is selected.
pub open spec fn node_row(idx: int, target: int) -> int {
    23 + (idx - target) * 4
}

/// Whether node `idx` of the current branch is a fork point: a branch forked
/// from it, or the current branch forked there.
pub open spec fn has_forks(s: SaveLoadState, idx: int) -> bool {
    forks_of(s.branches@, s.branches@.len() as int, s.current_branch_id, idx as usize).len() > 0
        || (s.branches@[s.current_branch_id as int].fork_from matches Some((_, f)) && f == idx)
}

/// Node `idx` on the timeline, when its row is in view: the fork mark, the
/// dot (filled when selected) and the label.
pub open spec fn node_ops<C>(s: SaveLoadState, idx: int, c: SaveLoadColors<C>) -> Seq<DrawOp<C>> {
    let y = node_row(idx, s.target as int);
    if y < 6 || y > 40 {
        Seq::empty()
    } else {
        let sel = idx == s.target;
        (if has_forks(s, idx) {
            seq![DrawOp::SetChar(1, y as usize, '◇', c.dim)]
        } else {
            Seq::empty()
        }) + seq![
            DrawOp::SetChar(
                2,
                y as usize,
                if sel {
                    '●'
                } else {
                    '◦'
                },
                if sel {
                    c.accent
                } else {
                    c.dim
                },
            ),
            DrawOp::SetLine(
                y as usize,
                6,
                36,
                node_label(node_view(s.nodes@[idx])),
                TextAlign::Left,
                if sel {
                    c.text
                } else {
                    c.dim
                },
            ),
        ]
    }
}

/// The first `n` nodes, in order.
pub open spec fn nodes_ops<C>(s: SaveLoadState, n: int, c: SaveLoadColors<C>) -> Seq<DrawOp<C>>
    decreases n,
{
    if n <= 0 {
        Seq::empty()
    } else {
        nodes_ops(s, n - 1, c) + node_ops(s, n - 1, c)
    }
}

/// How many fork list items are shown: those from the scroll offset on, at
/// most 18 (rows 6 to 40, two rows each).
pub open spec fn shown_forks(count: int, offset: int) -> int {
    if offset >= count {
        0
    } else if count - offset > 18 {
        18
    } else {
        count - offset
    }
}

/// Fork list item `k` (from the offset): `[time] chapter` and `#seq` of the branch.
pub open spec fn fork_item_ops<C>(s: SaveLoadState, ids: Seq<usize>, k: int, c: SaveLoadColors<C>) -> Seq<DrawOp<C>> {
    let bid = ids[s.fork_list_offset + k];
    let row0 = 6 + 2 * k;
    let (l1, l2) = match meta_view(s.branches@[bid as int].fork_meta) {
        Some((t, ch, n)) => ("["@ + t + "] "@ + ch, "#"@ + decimal(n as nat)),
        None => ("[00:00:00] 序章"@, "#0"@),
    };
    seq![DrawOp::SetLine(row0 as usize, 40, 76, l1, TextAlign::Left, c.dim)] + if row0 + 1 <= 40 {
        seq![DrawOp::SetLine((row0 + 1) as usize, 40, 76, l2, TextAlign::Left, c.dim)]
    } else {
        Seq::empty()
    }
}

/// The first `n` fork list items, in order.
pub open spec fn fork_list_ops<C>(s: SaveLoadState, ids: Seq<usize>, n: int, c: SaveLoadColors<C>) -> Seq<DrawOp<C>>
    decreases n,
{
    if n <= 0 {
        Seq::empty()
    } else {
        fork_list_ops(s, ids, n - 1, c) + fork_item_ops(s, ids, n - 1, c)
    }
}

/// The timeline part of the page: title, fork information, the line, the
/// nodes in view, and the fork list with its title.
pub open spec fn timeline_content_ops<C>(s: SaveLoadState, c: SaveLoadColors<C>) -> Seq<DrawOp<C>> {
    let ids = listed_branches(s.branches@, s.current_branch_id, s.target);
    seq![
        DrawOp::SetLine(2, 2, 10, "存档页面"@, TextAlign::Left, c.text),
        DrawOp::SetLine(
            2,
            38,
            76,
            fork_info_text(meta_view(s.branches@[s.current_branch_id as int].fork_meta)),
            TextAlign::Left,
            c.dim,
        ),
    ] + Seq::new(35, |i: int| DrawOp::SetChar(2, (6 + i) as usize, '│', c.dim)) + nodes_ops(
        s,
        s.nodes@.len() as int,
        c,
    ) + (if ids.len() > 0 {
        seq![DrawOp::SetLine(4, 40, 76, "分叉"@, TextAlign::Left, c.dim)]
    } else {
        Seq::empty()
    }) + fork_list_ops(s, ids, shown_forks(ids.len() as int, s.fork_list_offset as int), c)
}

fn fork_info(meta: &Option<ForkMeta>) -> (t: String)
    ensures
        t@ == fork_info_text(meta_view(*meta)),
{
    match meta {
        Some(m) => {
            proof {
                reveal_strlit("分叉与 [");
                reveal_strlit("] ");
                reveal_strlit(" [#");
                reveal_strlit("]");
            }
            let mut t = String::from_str("分叉与 [");
            t.append(m.time.as_str());
            t.append("] ");
            t.append(m.chapter.as_str());
            t.append(" [#");
            crate::fmt::push_decimal(&mut t, m.seq);
            t.append("]");
            proof {
                assert(t@ =~= fork_info_text(meta_view(*meta)));
            }
            t
        },
        None => String::from_str("分叉与 [00:00:00] 序章 [#0]"),
    }
}

fn push_node<C: Copy>(cmds: &mut Vec<CanvasCommand<C>>, s: &SaveLoadState, idx: usize, c: SaveLoadColors<C>)
    requires
        s.wf(),
        idx < s.nodes@.len(),
        s.nodes@.len() <= 0x1000_0000,
    ensures
        ops_of(final(cmds)@) == ops_of(old(cmds)@) + node_ops(*s, idx as int, c),
{
    let ghost start = ops_of(cmds@);
    let yi: i64 = 23 + (idx as i64 - s.target as i64) * 4;
    if yi < 6 || yi > 40 {
        proof {
            assert(ops_of(cmds@) =~= start + node_ops(*s, idx as int, c));
        }
        return;
    }
    let y = yi as usize;
    let forks = fork_branch_ids_from(&s.branches, s.current_branch_id, idx);
    let from_here = match s.current_branch().fork_from {
        Some((_, f)) => f == idx,
        None => false,
    };
    if forks.len() > 0 || from_here {
        push_set_char(cmds, TIMELINE_X - 1, y, '◇', c.dim);
    }
    let sel = idx == s.target;
    let dot = if sel { '●' } else { '◦' };
    let dot_color = if sel { c.accent } else { c.dim };
    push_set_char(cmds, TIMELINE_X, y, dot, dot_color);
    let label_color = if sel { c.text } else { c.dim };
    push_set_line(cmds, y, LABEL_X_START, LABEL_X_END, s.nodes[idx].label(), TextAlign::Left, label_color);
    proof {
        assert(ops_of(cmds@) =~= start + node_ops(*s, idx as int, c));
    }
}

fn push_fork_item<C: Copy>(cmds: &mut Vec<CanvasCommand<C>>, s: &SaveLoadState, ids: &Vec<usize>, k: usize, c: SaveLoadColors<C>)
    requires
        s.wf(),
        k < 18,
        s.fork_list_offset + k < ids@.len(),
        forall|j: int| 0 <= j < ids@.len() ==> #[trigger] ids@[j] < s.branches@.len(),
    ensures
        ops_of(final(cmds)@) == ops_of(old(cmds)@) + fork_item_ops(*s, ids@, k as int, c),
{
    let ghost start = ops_of(cmds@);
    let bid = ids[s.fork_list_offset + k];
    let row0 = FORK_LIST_ROW_START + k * FORK_ITEM_HEIGHT;
    proof {
        reveal_strlit("[");
        reveal_strlit("] ");
        reveal_strlit("#");
    }
    let (l1, l2) = match &s.branches[bid].fork_meta {
        Some(m) => {
            let mut a = String::from_str("[");
            a.append(m.time.as_str());
            a.append("] ");
            a.append(m.chapter.as_str());
            let mut b = String::from_str("#");
            crate::fmt::push_decimal(&mut b, m.seq);
            (a, b)
        },
        None => (String::from_str("[00:00:00] 序章"), String::from_str("#0")),
    };
    proof {
        let (e1, e2) = match meta_view(s.branches@[bid as int].fork_meta) {
            Some((t, ch, n)) => ("["@ + t + "] "@ + ch, "#"@ + decimal(n as nat)),
            None => ("[00:00:00] 序章"@, "#0"@),
        };
        assert(l1@ =~= e1);
        assert(l2@ =~= e2);
    }
    push_set_line(cmds, row0, FORK_LIST_X_START, FORK_LIST_X_END, l1, TextAlign::Left, c.dim);
    if row0 + 1 <= FORK_LIST_ROW_END {
        push_set_line(cmds, row0 + 1, FORK_LIST_X_START, FORK_LIST_X_END, l2, TextAlign::Left, c.dim);
    }
    proof {
        assert(ops_of(cmds@) =~= start + fork_item_ops(*s, ids@, k as int, c));
    }
}

/// The timeline part of the page (see `timeline_content_ops`).
pub fn draw_timeline_content<C: Copy>(s: &SaveLoadState, c: SaveLoadColors<C>) -> (cmds: Vec<CanvasCommand<C>>)
    requires
        s.wf(),
        s.nodes@.len() <= 0x1000_0000,
    ensures
        ops_of(cmds@) == timeline_content_ops(*s, c),
{
    let mut cmds: Vec<CanvasCommand<C>> = Vec::new();
    proof {
        reveal_strlit("存档页面");
    }
    push_set_line(&mut cmds, TITLE_Y, TITLE_X, TITLE_X + 8, String::from_str("存档页面"), TextAlign::Left, c.text);
    push_set_line(
        &mut cmds,
        TITLE_Y,
        TITLE_FORK_INFO_X,
        FORK_LIST_X_END,
        fork_info(&s.current_branch().fork_meta),
        TextAlign::Left,
        c.dim,
    );
    let ghost head = ops_of(cmds@);
    let ghost line = Seq::new(35, |i: int| DrawOp::SetChar(2, (6 + i) as usize, '│', c.dim));
    let mut y: usize = TIMELINE_VIEW_TOP;
    while y <= TIMELINE_VIEW_BOTTOM
        invariant
            6 <= y <= 41,
            line == Seq::new(35, |i: int| DrawOp::SetChar(2, (6 + i) as usize, '│', c.dim)),
            ops_of(cmds@) == head + line.take(y - 6),
        decreases 41 - y,
    {
        push_set_char(&mut cmds, TIMELINE_X, y, '│', c.dim);
        proof {
            assert(line.take(y - 6 + 1) =~= line.take(y - 6).push(line[y - 6]));
        }
        y = y + 1;
    }
    proof {
        assert(line.take(35) =~= line);
    }
    let ghost head2 = ops_of(cmds@);
    let mut i: usize = 0;
    while i < s.nodes.len()
        invariant
            s.wf(),
            s.nodes@.len() <= 0x1000_0000,
            i <= s.nodes@.len(),
            ops_of(cmds@) == head2 + nodes_ops(*s, i as int, c),
        decreases s.nodes@.len() - i,
    {
        push_node(&mut cmds, s, i, c);
        proof {
            assert(head2 + nodes_ops(*s, i as int, c) + node_ops(*s, i as int, c) =~= head2 + nodes_ops(*s, i + 1, c));
        }
        i = i + 1;
    }
    proof {
        lemma_listed_bounds(*s);
    }
    let ids = s.list_branch_ids();
    if ids.len() > 0 {
        proof {
            reveal_strlit("分叉");
        }
        push_set_line(&mut cmds, FORK_LIST_TITLE_ROW, FORK_LIST_X_START, FORK_LIST_X_END, String::from_str("分叉"), TextAlign::Left, c.dim);
    }
    let ghost head3 = ops_of(cmds@);
    let n = if s.fork_list_offset >= ids.len() {
        0
    } else if ids.len() - s.fork_list_offset > 18 {
        18
    } else {
        ids.len() - s.fork_list_offset
    };
    let mut k: usize = 0;
    while k < n
        invariant
            s.wf(),
            k <= n <= 18,
            n == shown_forks(ids@.len() as int, s.fork_list_offset as int),
            forall|j: int| 0 <= j < ids@.len() ==> #[trigger] ids@[j] < s.branches@.len(),
            ops_of(cmds@) == head3 + fork_list_ops(*s, ids@, k as int, c),
        decreases n - k,
    {
        push_fork_item(&mut cmds, s, &ids, k, c);
        proof {
            assert(head3 + fork_list_ops(*s, ids@, k as int, c) + fork_item_ops(*s, ids@, k as int, c) =~= head3
                + fork_list_ops(*s, ids@, k + 1, c));
        }
        k = k + 1;
    }
    proof {
        assert(ops_of(cmds@) =~= timeline_content_ops(*s, c));
    }
    cmds
}

/// The control button at position `i` of the row.
pub open spec fn control_at_index(i: int) -> SaveLoadControlButton {
    if i == 0 {
        SaveLoadControlButton::Start
    } else if i == 1 {
        SaveLoadControlButton::PrevChapter
    } else if i == 2 {
        SaveLoadControlButton::PrevSave
    } else if i == 3 {
        SaveLoadControlButton::NextSave
    } else if i == 4 {
        SaveLoadControlButton::NextChapter
    } else {
        SaveLoadControlButton::Latest
    }
}

pub open spec fn control_icon(b: SaveLoadControlButton) -> char {
    match b {
        SaveLoadControlButton::Start => '\u{f048}',
        SaveLoadControlButton::PrevChapter => '\u{f045f}',
        SaveLoadControlButton::PrevSave => '\u{25c0}',
        SaveLoadControlButton::NextSave => '\u{25b6}',
        SaveLoadControlButton::NextChapter => '\u{f0211}',
        SaveLoadControlButton::Latest => '\u{f051}',
    }
}

/// `<chapter> <play time>` of the selected node, or `—`.
pub open spec fn chapter_and_duration(s: SaveLoadState) -> Seq<char> {
    if s.target < s.nodes@.len() {
        s.nodes@[s.target as int].chapter_name@ + " "@ + s.nodes@[s.target as int].duration_display@
    } else {
        "—"@
    }
}

/// The controller part of the page: the six control buttons (space, icon,
/// space), the continue button, the chapter label and the back button.
pub open spec fn controller_content_ops<C>(s: SaveLoadState, c: SaveLoadColors<C>) -> Seq<DrawOp<C>> {
    Seq::new(
        18,
        |k: int|
            DrawOp::SetCharWithBg(
                (2 + k) as usize,
                44,
                if k % 3 == 1 {
                    control_icon(control_at_index(k / 3))
                } else {
                    ' '
                },
                c.text,
                c.bg,
            ),
    ) + seq![
        DrawOp::SetCharWithBg(2, 46, '\u{f04b}', c.text, c.bg),
        DrawOp::SetLineWithBg(46, 3, 28, continue_text(at_latest(s.nodes@, s.target)), TextAlign::Left, c.text, c.bg),
        DrawOp::SetLine(48, 60, 94, chapter_and_duration(s), TextAlign::Right, c.dim),
        DrawOp::SetLineWithBg(2, 92, 96, "返回"@, TextAlign::Right, c.text, c.bg),
    ]
}

/// The controller part of the page (see `controller_content_ops`).
pub fn draw_controller_content<C: Copy>(s: &SaveLoadState, c: SaveLoadColors<C>) -> (cmds: Vec<CanvasCommand<C>>)
    ensures
        ops_of(cmds@) == controller_content_ops(*s, c),
{
    let mut cmds: Vec<CanvasCommand<C>> = Vec::new();
    let buttons = [
        SaveLoadControlButton::Start,
        SaveLoadControlButton::PrevChapter,
        SaveLoadControlButton::PrevSave,
        SaveLoadControlButton::NextSave,
        SaveLoadControlButton::NextChapter,
        SaveLoadControlButton::Latest,
    ];
    let ghost row = Seq::new(
        18,
        |k: int|
            DrawOp::SetCharWithBg(
                (2 + k) as usize,
                44,
                if k % 3 == 1 {
                    control_icon(control_at_index(k / 3))
                } else {
                    ' '
                },
                c.text,
                c.bg,
            ),
    );
    let mut k: usize = 0;
    while k < 18
        invariant
            k <= 18,
            buttons@ == seq![
                SaveLoadControlButton::Start,
                SaveLoadControlButton::PrevChapter,
                SaveLoadControlButton::PrevSave,
                SaveLoadControlButton::NextSave,
                SaveLoadControlButton::NextChapter,
                SaveLoadControlButton::Latest,
            ],
            row == Seq::new(
                18,
                |k: int|
                    DrawOp::SetCharWithBg(
                        (2 + k) as usize,
                        44,
                        if k % 3 == 1 {
                            control_icon(control_at_index(k / 3))
                        } else {
                            ' '
                        },
                        c.text,
                        c.bg,
                    ),
            ),
            ops_of(cmds@) == row.take(k as int),
        decreases 18 - k,
    {
        let ch = if k % 3 == 1 { buttons[k / 3].icon() } else { ' ' };
        push_set_char_with_bg(&mut cmds, CONTROLS_X_START + k, CONTROLS_ROW_Y, ch, c.text, c.bg);
        proof {
            assert(row.take(k + 1) =~= row.take(k as int).push(row[k as int]));
        }
        k = k + 1;
    }
    proof {
        assert(row.take(18) =~= row);
    }
    push_set_char_with_bg(&mut cmds, CONTINUE_X_START, CONTINUE_ROW_Y, '\u{f04b}', c.text, c.bg);
    let text = if s.is_latest_progress() {
        String::from_str("继续游戏")
    } else {
        String::from_str("开始游戏")
    };
    push_set_line_with_bg(&mut cmds, CONTINUE_ROW_Y, CONTINUE_X_START + 1, CONTINUE_X_END, text, TextAlign::Left, c.text, c.bg);
    push_set_line(
        &mut cmds,
        CHAPTER_LABEL_ROW_Y,
        CHAPTER_LABEL_X_START,
        CHAPTER_LABEL_X_END,
        s.current_chapter_and_duration(),
        TextAlign::Right,
        c.dim,
    );
    push_set_line_with_bg(&mut cmds, BACK_BTN_Y, BACK_BTN_X_START, BACK_BTN_X_END, String::from_str("返回"), TextAlign::Right, c.text, c.bg);
    proof {
        assert(ops_of(cmds@) =~= controller_content_ops(*s, c));
    }
    cmds
}

/// The hover highlight of the timeline: the hovered node's label row, when in view.
pub open spec fn timeline_hover_ops<C>(s: SaveLoadState, hover_bg: C) -> Seq<DrawOp<C>> {
    match s.hovered_node {
        Some(idx) => {
            let y = node_row(idx as int, s.target as int);
            if 6 <= y <= 40 {
                seq![DrawOp::FillBackgroundRect(6, y as usize, 30, 1, hover_bg)]
            } else {
                Seq::empty()
            }
        },
        None => Seq::empty(),
    }
}

/// The hover highlight of the timeline (see `timeline_hover_ops`).
pub fn draw_timeline_hover<C: Copy>(s: &SaveLoadState, hover_bg: C) -> (cmds: Vec<CanvasCommand<C>>)
    requires
        s.target <= 0x1000_0000,
        s.hovered_node matches Some(i) ==> i <= 0x1000_0000,
    ensures
        ops_of(cmds@) == timeline_hover_ops(*s, hover_bg),
{
    let mut cmds: Vec<CanvasCommand<C>> = Vec::new();
    if let Some(idx) = s.hovered_node {
        let yi: i64 = 23 + (idx as i64 - s.target as i64) * 4;
        if yi >= 6 && yi <= 40 {
            push_fill_background_rect(&mut cmds, LABEL_X_START, yi as usize, LABEL_X_END - LABEL_X_START, 1, hover_bg);
        }
    }
    proof {
        assert(ops_of(cmds@) =~= timeline_hover_ops(*s, hover_bg));
    }
    cmds
}

/// The row of fork list item `fi` scrolled by `offset` (saturating).
pub open spec fn fork_item_row(fi: int, offset: int) -> int {
    let d = if fi >= offset {
        fi - offset
    } else {
        0
    };
    if 6 + d * 2 > usize::MAX {
        usize::MAX as int
    } else {
        6 + d * 2
    }
}

/// The controller's hover highlights: the hovered control button, fork list
/// item (when in view), continue button and back button.
pub open spec fn controller_hover_ops<C>(s: SaveLoadState, hover_bg: C) -> Seq<DrawOp<C>> {
    (match s.hovered_control {
        Some(b) => seq![DrawOp::FillBackgroundRect((2 + 3 * control_index(b)) as usize, 44, 3, 1, hover_bg)],
        None => Seq::empty(),
    }) + (match s.hovered_fork_index {
        Some(fi) => {
            let row0 = fork_item_row(fi as int, s.fork_list_offset as int);
            if row0 <= 40 {
                seq![
                    DrawOp::FillBackgroundRect(
                        40,
                        row0 as usize,
                        36,
                        if 41 - row0 < 2 {
                            (41 - row0) as usize
                        } else {
                            2
                        },
                        hover_bg,
                    ),
                ]
            } else {
                Seq::empty()
            }
        },
        None => Seq::empty(),
    }) + (if s.hovered_continue {
        seq![DrawOp::FillBackgroundRect(2, 46, 26, 1, hover_bg)]
    } else {
        Seq::empty()
    }) + (if s.hovered_back {
        seq![DrawOp::FillBackgroundRect(92, 2, 4, 1, hover_bg)]
    } else {
        Seq::empty()
    })
}

/// The controller's hover highlights (see `controller_hover_ops`).
pub fn draw_controller_hover<C: Copy>(s: &SaveLoadState, hover_bg: C) -> (cmds: Vec<CanvasCommand<C>>)
    requires
        s.hovered_fork_index matches Some(fi) ==> (if fi >= s.fork_list_offset {
            fi - s.fork_list_offset
        } else {
            0
        }) * 2 <= usize::MAX,
    ensures
        ops_of(cmds@) == controller_hover_ops(*s, hover_bg),
{
    let mut cmds: Vec<CanvasCommand<C>> = Vec::new();
    if let Some(btn) = s.hovered_control {
        let (x, _) = btn.cell_range();
        push_fill_background_rect(&mut cmds, x, CONTROLS_ROW_Y, CONTROL_BTN_WIDTH, 1, hover_bg);
    }
    let ghost a = ops_of(cmds@);
    if let Some(fi) = s.hovered_fork_index {
        let d = if fi >= s.fork_list_offset { fi - s.fork_list_offset } else { 0 };
        let dd = d * FORK_ITEM_HEIGHT;
        let row0 = if dd > usize::MAX - FORK_LIST_ROW_START { usize::MAX } else { FORK_LIST_ROW_START + dd };
        if row0 <= FORK_LIST_ROW_END {
            let h = if FORK_LIST_ROW_END - row0 + 1 < FORK_ITEM_HEIGHT { FORK_LIST_ROW_END - row0 + 1 } else { FORK_ITEM_HEIGHT };
            push_fill_background_rect(&mut cmds, FORK_LIST_X_START, row0, FORK_LIST_X_END - FORK_LIST_X_START, h, hover_bg);
        }
    }
    let ghost b = ops_of(cmds@);
    if s.hovered_continue {
        push_fill_background_rect(&mut cmds, CONTINUE_X_START, CONTINUE_ROW_Y, CONTINUE_X_END - CONTINUE_X_START, 1, hover_bg);
    }
    if s.hovered_back {
        push_fill_background_rect(&mut cmds, BACK_BTN_X_START, BACK_BTN_Y, BACK_BTN_X_END - BACK_BTN_X_START, 1, hover_bg);
    }
    proof {
        assert(ops_of(cmds@) =~= controller_hover_ops(*s, hover_bg));
    }
    cmds
}


impl Default for SaveLoadState {
    /// The page as first shown (see `new`).
    fn default() -> (s: Self)
        ensures
            s.wf(),
            s.current_branch_id == 0,
            s.target == 24,
            nodes_view(s.nodes@) == Seq::new(25, |i: int| main_node(i)),
    {
        Self::new()
    }
}

proof fn lemma_contains_in_concat<T>(a: Seq<T>, b: Seq<T>, x: T)
    requires
        a.contains(x) || b.contains(x),
    ensures
        (a + b).contains(x),
{
    if a.contains(x) {
        let i = choose|i: int| 0 <= i < a.len() && a[i] == x;
        assert((a + b)[i] == x);
    } else {
        let i = choose|i: int| 0 <= i < b.len() && b[i] == x;
        assert((a + b)[a.len() + i] == x);
    }
}

proof fn lemma_forks_of_lists<C>(branches: Seq<Branch>, n: int, from_branch: usize, from_node: usize, b: int)
    requires
        0 <= b < n,
        branches[b].fork_from == Some((from_branch, from_node)),
    ensures
        forks_of(branches, n, from_branch, from_node).len() > 0,
    decreases n,
{
    if b < n - 1 {
        lemma_forks_of_lists::<C>(branches, n - 1, from_branch, from_node, b);
    }
}

proof fn lemma_nodes_ops_holds<C>(s: SaveLoadState, n: int, idx: int, c: SaveLoadColors<C>, op: DrawOp<C>)
    requires
        0 <= idx < n,
        node_ops(s, idx, c).contains(op),
    ensures
        nodes_ops(s, n, c).contains(op),
    decreases n,
{
    if idx < n - 1 {
        lemma_nodes_ops_holds(s, n - 1, idx, c, op);
    }
    lemma_contains_in_concat(nodes_ops(s, n - 1, c), node_ops(s, n - 1, c), op);
}

/// Every node in view that is a fork point shows the fork mark: when some
/// branch forked from node `idx` of the current branch, or the current branch
/// itself forked there, the timeline drawing holds `◇` in column 1 of the
/// node's row.
pub proof fn lemma_fork_points_are_marked<C>(s: SaveLoadState, c: SaveLoadColors<C>, idx: int)
    requires
        0 <= idx < s.nodes@.len(),
        0 <= s.current_branch_id < s.branches@.len(),
        6 <= 23 + (idx - s.target) * 4 <= 40,
        (exists|b: int|
            0 <= b < s.branches@.len() && #[trigger] s.branches@[b].fork_from == Some((s.current_branch_id, idx as usize)))
            || (s.branches@[s.current_branch_id as int].fork_from matches Some(p) && p.1 == idx),
    ensures
        timeline_content_ops(s, c).contains(DrawOp::SetChar(1, (23 + (idx - s.target) * 4) as usize, '◇', c.dim)),
{
    let mark = DrawOp::SetChar(1, (23 + (idx - s.target) * 4) as usize, '◇', c.dim);
    if exists|b: int|
        0 <= b < s.branches@.len() && #[trigger] s.branches@[b].fork_from == Some((s.current_branch_id, idx as usize)) {
        let b = choose|b: int|
            0 <= b < s.branches@.len() && #[trigger] s.branches@[b].fork_from == Some((s.current_branch_id, idx as usize));
        lemma_forks_of_lists::<C>(s.branches@, s.branches@.len() as int, s.current_branch_id, idx as usize, b);
    }
    let y = node_row(idx, s.target as int);
    let sel = idx == s.target;
    let tail = seq![
        DrawOp::SetChar(2, y as usize, if sel { '●' } else { '◦' }, if sel { c.accent } else { c.dim }),
        DrawOp::SetLine(y as usize, 6, 36, node_label(node_view(s.nodes@[idx])), TextAlign::Left, if sel { c.text } else { c.dim }),
    ];
    assert(node_ops(s, idx, c) == seq![mark] + tail);
    assert((seq![mark] + tail)[0] == mark);
    assert(node_ops(s, idx, c).contains(mark));
    lemma_nodes_ops_holds(s, s.nodes@.len() as int, idx, c, mark);
    let ids = listed_branches(s.branches@, s.current_branch_id, s.target);
    let head = seq![
        DrawOp::SetLine(2, 2, 10, "存档页面"@, TextAlign::Left, c.text),
        DrawOp::SetLine(
            2,
            38,
            76,
            fork_info_text(meta_view(s.branches@[s.current_branch_id as int].fork_meta)),
            TextAlign::Left,
            c.dim,
        ),
    ] + Seq::new(35, |i: int| DrawOp::SetChar(2, (6 + i) as usize, '│', c.dim));
    let rest = (if ids.len() > 0 {
        seq![DrawOp::SetLine(4, 40, 76, "分叉"@, TextAlign::Left, c.dim)]
    } else {
        Seq::empty()
    }) + fork_list_ops(s, ids, shown_forks(ids.len() as int, s.fork_list_offset as int), c);
    lemma_contains_in_concat(head, nodes_ops(s, s.nodes@.len() as int, c), mark);
    lemma_contains_in_concat(head + nodes_ops(s, s.nodes@.len() as int, c), rest, mark);
    assert(timeline_content_ops(s, c) == head + nodes_ops(s, s.nodes@.len() as int, c) + rest);
}

proof fn lemma_forks_of_witness(branches: Seq<Branch>, n: int, from_branch: usize, from_node: usize)
    requires
        forks_of(branches, n, from_branch, from_node).len() > 0,
    ensures
        exists|b: int| 0 <= b < n && #[trigger] branches[b].fork_from == Some((from_branch, from_node)),
    decreases n,
{
    if n > 0 {
        if branches[n - 1].fork_from == Some((from_branch, from_node)) {
            assert(branches[n - 1].fork_from == Some((from_branch, from_node)));
        } else {
            assert(forks_of(branches, n, from_branch, from_node) =~= forks_of(branches, n - 1, from_branch, from_node));
            lemma_forks_of_witness(branches, n - 1, from_branch, from_node);
        }
    }
}

/// A `SetChar` in column 1 comes from a fork point among the first `n` nodes.
spec fn marks_fork_point<C>(s: SaveLoadState, op: DrawOp<C>, n: int) -> bool {
    match op {
        DrawOp::SetChar(x, y, _, _) => x == 1 ==> exists|j: int|
            0 <= j < n && 6 <= node_row(j, s.target as int) <= 40 && node_row(j, s.target as int) == y as int
                && #[trigger] has_forks(s, j),
        _ => true,
    }
}

proof fn lemma_nodes_ops_marks<C>(s: SaveLoadState, n: int, c: SaveLoadColors<C>)
    ensures
        forall|k: int| 0 <= k < nodes_ops(s, n, c).len() ==> marks_fork_point(s, #[trigger] nodes_ops(s, n, c)[k], n),
    decreases n,
{
    if n > 0 {
        lemma_nodes_ops_marks(s, n - 1, c);
        let a = nodes_ops(s, n - 1, c);
        let b = node_ops(s, n - 1, c);
        assert(nodes_ops(s, n, c) == a + b);
        assert forall|k: int| 0 <= k < (a + b).len() implies marks_fork_point(s, #[trigger] (a + b)[k], n) by {
            if k < a.len() {
                assert((a + b)[k] == a[k]);
                assert(marks_fork_point(s, a[k], n - 1));
                match a[k] {
                    DrawOp::SetChar(x, y, _, _) => {
                        if x == 1 {
                            let j = choose|j: int|
                                0 <= j < n - 1 && 6 <= node_row(j, s.target as int) <= 40 && node_row(j, s.target as int)
                                    == y as int && #[trigger] has_forks(s, j);
                            assert(has_forks(s, j));
                        }
                    },
                    _ => {},
                }
            } else {
                assert((a + b)[k] == b[k - a.len()]);
                if has_forks(s, n - 1) {
                    assert(has_forks(s, n - 1));
                }
            }
        }
    }
}

proof fn lemma_fork_list_ops_lines<C>(s: SaveLoadState, ids: Seq<usize>, n: int, c: SaveLoadColors<C>)
    ensures
        forall|k: int| 0 <= k < fork_list_ops(s, ids, n, c).len() ==> #[trigger] fork_list_ops(s, ids, n, c)[k] is SetLine,
    decreases n,
{
    if n > 0 {
        lemma_fork_list_ops_lines(s, ids, n - 1, c);
        let a = fork_list_ops(s, ids, n - 1, c);
        let b = fork_item_ops(s, ids, n - 1, c);
        assert(fork_list_ops(s, ids, n, c) == a + b);
        assert forall|k: int| 0 <= k < (a + b).len() implies #[trigger] (a + b)[k] is SetLine by {
            if k < a.len() {
                assert((a + b)[k] == a[k]);
            } else {
                assert((a + b)[k] == b[k - a.len()]);
            }
        }
    }
}

/// Only fork points are marked: when no branch forked from node `idx` of the
/// current branch and the current branch did not fork there, the timeline
/// drawing holds no `◇` in column 1 of the node's row.
pub proof fn lemma_only_fork_points_are_marked<C>(s: SaveLoadState, c: SaveLoadColors<C>, idx: int)
    requires
        0 <= idx < s.nodes@.len(),
        0 <= s.current_branch_id < s.branches@.len(),
        6 <= 23 + (idx - s.target) * 4 <= 40,
        !(exists|b: int|
            0 <= b < s.branches@.len() && #[trigger] s.branches@[b].fork_from == Some((s.current_branch_id, idx as usize))),
        !(s.branches@[s.current_branch_id as int].fork_from matches Some(p) && p.1 == idx),
    ensures
        !timeline_content_ops(s, c).contains(DrawOp::SetChar(1, (23 + (idx - s.target) * 4) as usize, '◇', c.dim)),
{
    let mark = DrawOp::SetChar(1, (23 + (idx - s.target) * 4) as usize, '◇', c.dim);
    let ids = listed_branches(s.branches@, s.current_branch_id, s.target);
    let head = seq![
        DrawOp::SetLine(2, 2, 10, "存档页面"@, TextAlign::Left, c.text),
        DrawOp::SetLine(
            2,
            38,
            76,
            fork_info_text(meta_view(s.branches@[s.current_branch_id as int].fork_meta)),
            TextAlign::Left,
            c.dim,
        ),
    ] + Seq::new(35, |i: int| DrawOp::SetChar(2, (6 + i) as usize, '│', c.dim));
    let title = if ids.len() > 0 {
        seq![DrawOp::SetLine(4, 40, 76, "分叉"@, TextAlign::Left, c.dim)]
    } else {
        Seq::empty()
    };
    let list = fork_list_ops(s, ids, shown_forks(ids.len() as int, s.fork_list_offset as int), c);
    let nodes = nodes_ops(s, s.nodes@.len() as int, c);
    let all = head + nodes + (title + list);
    assert(timeline_content_ops(s, c) == all);
    lemma_nodes_ops_marks(s, s.nodes@.len() as int, c);
    lemma_fork_list_ops_lines(s, ids, shown_forks(ids.len() as int, s.fork_list_offset as int), c);
    if !(forks_of(s.branches@, s.branches@.len() as int, s.current_branch_id, idx as usize).len() > 0) {
    } else {
        lemma_forks_of_witness(s.branches@, s.branches@.len() as int, s.current_branch_id, idx as usize);
    }
    assert(!has_forks(s, idx));
    assert forall|k: int| 0 <= k < all.len() implies #[trigger] all[k] != mark by {
        if k < head.len() {
            assert(all[k] == head[k]);
        } else if k < head.len() + nodes.len() {
            assert(all[k] == nodes[k - head.len()]);
            assert(marks_fork_point(s, nodes[k - head.len()], s.nodes@.len() as int));
            if all[k] == mark {
                let j = choose|j: int|
                    0 <= j < s.nodes@.len() && 6 <= node_row(j, s.target as int) <= 40 && node_row(j, s.target as int)
                        == (23 + (idx - s.target) * 4) as usize as int && #[trigger] has_forks(s, j);
                assert(j == idx);
            }
        } else {
            let k2 = k - head.len() - nodes.len();
            assert(all[k] == (title + list)[k2]);
            if k2 < title.len() {
                assert((title + list)[k2] == title[k2]);
            } else {
                assert((title + list)[k2] == list[k2 - title.len()]);
            }
        }
    }
}

} // verus!

use interstice::canvas::{Canvas, CanvasCommand, CellContent, TextAlign, command_fits, CANVAS_HEIGHT, CANVAS_WIDTH};
use interstice::render::{render_plan, FontChoice, FontLoadState, RenderItem};
use interstice::text::{fit_text_with_ellipsis, str_chars};
use interstice::width::layout_width_of;

const INK: u32 = 0xffffff;
const RED: u32 = 0xff0000;
const BLUE: u32 = 0x0000ff;

fn content_at(c: &Canvas<u32>, x: usize, y: usize) -> CellContent {
    c.cell(x, y).content.clone()
}

#[test]
fn new_canvas_is_blank_and_dirty() {
    let mut c = Canvas::new(INK);
    for y in 0..CANVAS_HEIGHT {
        for x in 0..CANVAS_WIDTH {
            let cell = c.cell(x, y);
            assert_eq!(cell.content, CellContent::Empty);
            assert_eq!(cell.span, 1);
            assert_eq!(cell.color, INK);
            assert_eq!(cell.background_color, None);
        }
    }
    assert!(c.take_dirty());
    assert!(!c.take_dirty());
}

#[test]
fn blank_canvas_renders_nothing() {
    let c = Canvas::new(INK);
    assert!(render_plan(&c, true, true).is_empty());
}

#[test]
fn narrow_char_takes_one_cell() {
    let mut c = Canvas::new(INK);
    c.set_char(3, 4, 'A', RED);
    assert_eq!(content_at(&c, 3, 4), CellContent::Char('A'));
    assert_eq!(c.cell(3, 4).span, 0);
    assert_eq!(c.cell(3, 4).color, RED);
    assert_eq!(content_at(&c, 4, 4), CellContent::Empty);
}

#[test]
fn wide_char_gets_a_continuation_cell() {
    let mut c = Canvas::new(INK);
    c.set_char(3, 4, '你', RED);
    assert_eq!(content_at(&c, 3, 4), CellContent::Char('你'));
    assert_eq!(content_at(&c, 4, 4), CellContent::Continuation);
    assert_eq!(c.cell(4, 4).color, RED);
}

#[test]
fn wide_char_in_last_column_has_no_continuation() {
    let mut c = Canvas::new(INK);
    c.set_char(95, 0, '你', RED);
    assert_eq!(content_at(&c, 95, 0), CellContent::Char('你'));
    assert_eq!(content_at(&c, 94, 0), CellContent::Empty);
}

#[test]
fn char_outside_the_grid_is_ignored() {
    let mut c = Canvas::new(INK);
    c.take_dirty();
    c.set_char(96, 0, 'A', RED);
    c.set_char(0, 54, 'A', RED);
    assert!(!c.take_dirty());
}

#[test]
fn layout_widths() {
    assert_eq!(layout_width_of('A'), 1);
    assert_eq!(layout_width_of('你'), 2);
    assert_eq!(layout_width_of('\u{7}'), 1);
}

#[test]
fn left_aligned_line_is_one_run() {
    let mut c = Canvas::new(INK);
    c.set_line(0, 0, 10, "Hello", TextAlign::Left, RED);
    let first = c.cell(0, 0);
    assert_eq!(first.content, CellContent::Char('H'));
    assert_eq!(first.span, 5);
    assert_eq!(first.container_end, Some(10));
    assert_eq!(first.container_align, Some(TextAlign::Left));
    assert_eq!(content_at(&c, 1, 0), CellContent::Char('e'));
    assert_eq!(content_at(&c, 4, 0), CellContent::Char('o'));
    assert_eq!(c.cell(4, 0).span, 0);
    assert_eq!(content_at(&c, 5, 0), CellContent::Empty);
}

#[test]
fn right_and_centre_alignment() {
    let mut c = Canvas::new(INK);
    c.set_line(0, 0, 10, "Hi", TextAlign::Right, RED);
    assert_eq!(content_at(&c, 8, 0), CellContent::Char('H'));
    assert_eq!(content_at(&c, 9, 0), CellContent::Char('i'));
    c.set_line(1, 0, 10, "Hi", TextAlign::Center, RED);
    assert_eq!(content_at(&c, 4, 1), CellContent::Char('H'));
    assert_eq!(content_at(&c, 5, 1), CellContent::Char('i'));
}

#[test]
fn long_line_ends_in_three_dots() {
    let mut c = Canvas::new(INK);
    c.set_line(0, 0, 5, "Hello world", TextAlign::Left, RED);
    let expected = ['H', 'e', '.', '.', '.'];
    for (x, ch) in expected.iter().enumerate() {
        assert_eq!(content_at(&c, x, 0), CellContent::Char(*ch));
    }
    assert_eq!(c.cell(0, 0).span, 5);
    assert_eq!(content_at(&c, 5, 0), CellContent::Empty);
}

#[test]
fn fitting_text_formulas() {
    let (t, w) = fit_text_with_ellipsis(&str_chars("你好世界"), 5);
    assert_eq!(t, vec!['你', '.', '.', '.']);
    assert_eq!(w, 5);
    let (t, w) = fit_text_with_ellipsis(&str_chars("abc"), 2);
    assert_eq!(t, vec!['…']);
    assert_eq!(w, 1);
    let (t, w) = fit_text_with_ellipsis(&str_chars("abc"), 0);
    assert!(t.is_empty());
    assert_eq!(w, 0);
    let (t, w) = fit_text_with_ellipsis(&str_chars("ab"), 2);
    assert_eq!(t, vec!['a', 'b']);
    assert_eq!(w, 2);
}

#[test]
fn fitting_into_more_than_the_grid() {
    let (t, w) = fit_text_with_ellipsis(&str_chars("你好"), 500);
    assert_eq!(t, vec!['你', '好']);
    assert_eq!(w, 4);
    let (t, w) = fit_text_with_ellipsis(&str_chars("abc"), usize::MAX);
    assert_eq!(t, vec!['a', 'b', 'c']);
    assert_eq!(w, 3);
    let long: String = std::iter::repeat('x').take(200).collect();
    let (t, w) = fit_text_with_ellipsis(&str_chars(&long), 100);
    assert_eq!(t.len(), 100);
    assert_eq!(&t[97..], &['.', '.', '.']);
    assert_eq!(w, 100);
}

#[test]
fn rewriting_a_line_clears_the_old_run() {
    let mut c = Canvas::new(INK);
    c.set_line(0, 0, 20, "Hello world", TextAlign::Left, RED);
    c.set_line(0, 0, 20, "Hi", TextAlign::Left, RED);
    assert_eq!(content_at(&c, 1, 0), CellContent::Char('i'));
    assert_eq!(content_at(&c, 2, 0), CellContent::Empty);
    assert_eq!(content_at(&c, 10, 0), CellContent::Empty);
}

#[test]
fn char_over_a_run_clears_the_whole_run() {
    let mut c = Canvas::new(INK);
    c.set_line(0, 0, 10, "Hello", TextAlign::Left, RED);
    c.set_char(2, 0, 'X', BLUE);
    assert_eq!(content_at(&c, 0, 0), CellContent::Empty);
    assert_eq!(content_at(&c, 1, 0), CellContent::Empty);
    assert_eq!(content_at(&c, 2, 0), CellContent::Char('X'));
    assert_eq!(content_at(&c, 3, 0), CellContent::Empty);
}

#[test]
fn line_with_background_fills_its_container() {
    let mut c = Canvas::new(INK);
    c.set_line_with_bg(2, 4, 8, "ab", TextAlign::Left, RED, BLUE);
    for x in 4..8 {
        assert_eq!(c.cell(x, 2).background_color, Some(BLUE));
    }
    assert_eq!(c.cell(3, 2).background_color, None);
    assert_eq!(c.cell(8, 2).background_color, None);
    assert_eq!(content_at(&c, 4, 2), CellContent::Char('a'));
}

#[test]
fn background_fill_keeps_content() {
    let mut c = Canvas::new(INK);
    c.set_char(1, 1, 'A', RED);
    c.fill_background_rect(0, 0, 3, 3, BLUE);
    assert_eq!(content_at(&c, 1, 1), CellContent::Char('A'));
    assert_eq!(c.cell(1, 1).color, RED);
    assert_eq!(c.cell(1, 1).background_color, Some(BLUE));
    assert_eq!(c.cell(3, 3).background_color, None);
}

#[test]
fn clearing_a_rectangle_blanks_it() {
    let mut c = Canvas::new(INK);
    c.fill_rect_with_bg(0, 0, 4, 2, '#', RED, BLUE);
    assert_eq!(content_at(&c, 3, 1), CellContent::Char('#'));
    assert_eq!(c.cell(3, 1).span, 1);
    c.clear_rect(1, 0, 2, 2);
    assert_eq!(content_at(&c, 0, 0), CellContent::Char('#'));
    assert_eq!(content_at(&c, 1, 0), CellContent::Empty);
    assert_eq!(c.cell(1, 0).background_color, None);
    assert_eq!(content_at(&c, 3, 1), CellContent::Char('#'));
    c.clear();
    assert_eq!(content_at(&c, 0, 0), CellContent::Empty);
}

#[test]
fn wide_fill_takes_columns_in_pairs() {
    let mut c = Canvas::new(INK);
    c.take_dirty();
    c.fill_rect(10, 3, 5, 2, '中', RED);
    for y in 3..5 {
        for x in 10..15 {
            let cell = c.cell(x, y);
            if (x - 10) % 2 == 1 {
                assert_eq!(cell.content, CellContent::Continuation);
                assert_eq!(cell.span, 0);
            } else {
                assert_eq!(cell.content, CellContent::Char('中'));
                assert_eq!(cell.span, 1);
            }
            assert_eq!(cell.color, RED);
            assert_eq!(cell.background_color, None);
        }
    }
    assert_eq!(content_at(&c, 15, 3), CellContent::Empty);
    assert_eq!(content_at(&c, 10, 5), CellContent::Empty);
    assert!(c.take_dirty());
    c.fill_rect_with_bg(0, 0, 4, 1, '中', RED, BLUE);
    assert_eq!(content_at(&c, 0, 0), CellContent::Char('中'));
    assert_eq!(content_at(&c, 1, 0), CellContent::Continuation);
    assert_eq!(c.cell(1, 0).background_color, Some(BLUE));
    c.fill_rect(0, 1, 3, 1, 'x', RED);
    assert_eq!(content_at(&c, 1, 1), CellContent::Char('x'));
}

#[test]
fn zero_width_line_at_the_last_column_places_no_text() {
    let mut c = Canvas::new(INK);
    c.set_char(95, 0, 'z', BLUE);
    c.take_dirty();
    c.set_line(0, 95, 96, "\u{301}", TextAlign::Right, RED);
    assert_eq!(content_at(&c, 95, 0), CellContent::Empty);
    assert!(c.take_dirty());
    c.set_line_with_bg(1, 95, 96, "\u{200B}", TextAlign::Right, RED, BLUE);
    assert_eq!(content_at(&c, 95, 1), CellContent::Empty);
    assert_eq!(c.cell(95, 1).background_color, Some(BLUE));
    c.set_line(2, 0, 4, "ok", TextAlign::Right, RED);
    assert_eq!(content_at(&c, 2, 2), CellContent::Char('o'));
}

#[test]
fn zero_width_text_stays_inside_its_range() {
    let mut c = Canvas::new(INK);
    c.set_char(10, 0, 'k', BLUE);
    c.set_line(0, 0, 10, "\u{301}", TextAlign::Right, RED);
    assert_eq!(content_at(&c, 10, 0), CellContent::Char('k'));
    for x in 0..10 {
        assert_eq!(content_at(&c, x, 0), CellContent::Empty);
    }
    c.set_line_with_bg(1, 0, 10, "\u{301}", TextAlign::Right, RED, BLUE);
    assert_eq!(c.cell(10, 1).background_color, None);
    assert_eq!(c.cell(9, 1).background_color, Some(BLUE));
    c.set_line(2, 0, 10, "\u{301}", TextAlign::Center, RED);
    assert_eq!(content_at(&c, 5, 2), CellContent::Char('\u{301}'));
    assert!(!render_plan(&c, true, true).is_empty());
}

#[test]
fn command_lists_run_in_order_or_not_at_all() {
    let mut a = Canvas::new(INK);
    let cmds = vec![
        CanvasCommand::FillRect(0, 0, 4, 1, '#', RED),
        CanvasCommand::SetLine(0, 1, 3, "ab".to_string(), TextAlign::Left, BLUE),
        CanvasCommand::FillBackgroundRect(0, 0, 2, 1, BLUE),
    ];
    assert!(a.apply_commands(&cmds));
    let mut b = Canvas::new(INK);
    b.fill_rect(0, 0, 4, 1, '#', RED);
    b.set_line(0, 1, 3, "ab", TextAlign::Left, BLUE);
    b.fill_background_rect(0, 0, 2, 1, BLUE);
    for x in 0..6 {
        let (p, q) = (a.cell(x, 0), b.cell(x, 0));
        assert_eq!(p.content, q.content);
        assert_eq!(p.span, q.span);
        assert_eq!(p.color, q.color);
        assert_eq!(p.background_color, q.background_color);
        assert_eq!(p.container_end, q.container_end);
    }
    let mut c = Canvas::new(INK);
    c.take_dirty();
    let bad = vec![
        CanvasCommand::FillRect(0, 0, 4, 1, '#', RED),
        CanvasCommand::ClearRect(usize::MAX, 0, 1, 1),
    ];
    assert!(!c.apply_commands(&bad));
    assert_eq!(content_at(&c, 0, 0), CellContent::Empty);
    assert!(!c.take_dirty());
}

#[test]
fn icons_and_single_backgrounds() {
    let mut c = Canvas::new(INK);
    c.set_svg(5, 5, "gear", RED);
    assert_eq!(content_at(&c, 5, 5), CellContent::Svg("gear".to_string()));
    c.set_background(6, 5, BLUE);
    assert_eq!(c.cell(6, 5).background_color, Some(BLUE));
    c.clear_background(6, 5);
    assert_eq!(c.cell(6, 5).background_color, None);
}

#[test]
fn commands_do_what_the_methods_do() {
    let mut c = Canvas::new(INK);
    let cmd = CanvasCommand::SetLine(3, 0, 10, "cmd".to_string(), TextAlign::Left, RED);
    assert!(command_fits(&cmd));
    c.apply_command(&cmd);
    assert_eq!(content_at(&c, 0, 3), CellContent::Char('c'));
    let huge: CanvasCommand<u32> = CanvasCommand::ClearRect(usize::MAX, 0, 1, 1);
    assert!(!command_fits(&huge));
}

#[test]
fn render_plan_lists_text_runs_with_their_font() {
    let mut c = Canvas::new(INK);
    c.set_line(0, 0, 10, "Hi", TextAlign::Left, RED);
    let plan = render_plan(&c, false, false);
    assert_eq!(plan.len(), 1);
    match &plan[0] {
        RenderItem::Text { x, y, container_end, text, font, .. } => {
            assert_eq!((*x, *y, *container_end), (0, 0, 10));
            assert_eq!(text, &vec!['H', 'i']);
            assert_eq!(*font, FontChoice::Builtin);
        }
        _ => panic!("expected a text run"),
    }
    let plan = render_plan(&c, false, true);
    match &plan[0] {
        RenderItem::Text { font, .. } => assert_eq!(*font, FontChoice::Cjk),
        _ => panic!("expected a text run"),
    }
}

#[test]
fn icon_glyphs_use_the_icon_font_once_loaded() {
    let mut c = Canvas::new(INK);
    c.set_char(1, 1, '\u{f04b}', RED);
    let plan = render_plan(&c, true, true);
    assert_eq!(plan.len(), 1);
    match &plan[0] {
        RenderItem::Glyph { x, y, ch, font, .. } => {
            assert_eq!((*x, *y, *ch), (1, 1, '\u{f04b}'));
            assert_eq!(*font, FontChoice::Icons);
        }
        _ => panic!("expected a glyph"),
    }
}

#[test]
fn backgrounds_come_before_text() {
    let mut c = Canvas::new(INK);
    c.set_char(0, 0, 'A', RED);
    c.fill_background_rect(0, 0, 2, 1, BLUE);
    let plan = render_plan(&c, false, false);
    assert_eq!(plan.len(), 3);
    assert!(matches!(plan[0], RenderItem::Background { x: 0, y: 0, width: 1, .. }));
    assert!(matches!(plan[1], RenderItem::Background { x: 1, y: 0, width: 1, .. }));
    assert!(matches!(plan[2], RenderItem::Glyph { x: 0, y: 0, ch: 'A', .. }));
}

#[test]
fn fonts_load_once_and_stay_loaded() {
    let mut f = FontLoadState::new();
    assert!(f.begin_load());
    assert!(!f.begin_load());
    assert!(!f.check(false, false));
    assert!(f.check(true, false));
    assert!(f.noto_loaded && !f.nerd_loaded);
    assert!(!f.check(true, false));
    assert!(f.check(false, true));
    assert!(f.noto_loaded && f.nerd_loaded);
    assert!(!f.check(false, false));
}

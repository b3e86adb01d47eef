use interstice::canvas::{Canvas, CellContent, TextAlign};
use interstice::character_creation::{CharacterCreationState, InitialCharacter, KeyInput, NewGameInProgress};
use interstice::hex::Rgb8;
use interstice::pixel_editor::{PaletteEntry, PixelEditorState};
use interstice::render::render_plan;
use interstice::router::{AppState, Route, RouteStack};
use interstice::save_load::SaveLoadState;

#[test]
fn a_line_only_changes_its_own_row() {
    let mut c = Canvas::new(0u32);
    c.fill_rect(0, 4, 96, 3, 'x', 1);
    c.set_line(5, 0, 96, "a line across the middle row", TextAlign::Center, 2);
    for x in 0..96 {
        assert_eq!(c.cell(x, 4).content, CellContent::Char('x'));
        assert_eq!(c.cell(x, 6).content, CellContent::Char('x'));
    }
    c.set_line(5, 0, 96, "", TextAlign::Left, 2);
    for x in 0..96 {
        assert_eq!(c.cell(x, 5).content, CellContent::Empty);
    }
}

#[test]
fn clearing_everything_renders_nothing() {
    let mut c = Canvas::new(0u32);
    c.set_line_with_bg(0, 0, 10, "text", TextAlign::Left, 1, 2);
    c.set_svg(3, 3, "icon", 1);
    assert!(!render_plan(&c, false, false).is_empty());
    c.clear();
    assert!(render_plan(&c, false, false).is_empty());
}

#[test]
fn the_brush_always_paints_the_clicked_pixel() {
    let pal = vec![PaletteEntry("white".to_string(), Rgb8 { r: 255, g: 255, b: 255 })];
    for size_x in [38usize, 40, 42, 44, 46, 48, 50, 52] {
        for (px, py) in [(0usize, 0usize), (15, 0), (0, 15), (15, 15), (7, 8)] {
            let mut e = PixelEditorState::new();
            e.on_release(size_x, 18, &pal);
            e.on_release(2 + 2 * px, 2 + 2 * py, &pal);
            assert_eq!(e.pixels[py * 16 + px], Rgb8 { r: 255, g: 255, b: 255 });
            let painted = e.pixels.iter().filter(|p| **p == Rgb8 { r: 255, g: 255, b: 255 }).count();
            let side = (size_x - 38) / 2 + 1;
            assert_eq!(painted, side * side);
        }
    }
}

#[test]
fn typing_never_exceeds_twenty_characters() {
    let mut s = CharacterCreationState::new();
    let mut g = NewGameInProgress(Some(vec![InitialCharacter {
        name: "n".to_string(),
        attr_execution: 10,
        attr_reaction: 10,
        attr_habit: 10,
    }]));
    s.enter(&g);
    s.on_release(9, 6, &mut g);
    for _ in 0..5 {
        s.on_keys(&vec![KeyInput::Text("名字很长的角色".to_string())], &mut g);
        assert!(s.name_edit_buffer.chars().count() <= 20);
    }
    assert_eq!(s.name_edit_buffer.chars().count(), 20);
    assert!(s.name_edit_buffer.starts_with('n'));
}

#[test]
fn attribute_clicks_keep_a_legal_build() {
    let mut s = CharacterCreationState::new();
    let mut g = NewGameInProgress(None);
    let cells = [(10usize, 10usize), (30, 10), (10, 12), (30, 12), (10, 14), (30, 14)];
    for round in 0..200usize {
        let (x, y) = cells[(round * 7 + round / 3) % cells.len()];
        s.on_release(x, y, &mut g);
        let sum = s.attr_execution as u32 + s.attr_reaction as u32 + s.attr_habit as u32;
        assert!(sum <= 30);
        assert!(s.attr_execution <= 15 && s.attr_reaction <= 15 && s.attr_habit <= 15);
    }
}

#[test]
fn going_to_a_page_and_back_restores_the_stack() {
    let mut stack = RouteStack { stack: vec![Route::main_menu()] };
    stack.handle_navigation(&vec![Route::save_load()], 0);
    assert_eq!(stack.current(), Some(&Route::save_load()));
    stack.handle_navigation(&vec![], 1);
    assert_eq!(stack.stack, vec![Route::main_menu()]);
    stack.handle_navigation(&vec![], 5);
    assert_eq!(stack.stack.len(), 1);
}

#[test]
fn the_selected_save_always_exists() {
    let mut s = SaveLoadState::new();
    let clicks = [(2usize, 44usize), (17, 44), (5, 44), (14, 44), (8, 44), (11, 44), (3, 7), (3, 39), (50, 6)];
    for round in 0..300usize {
        let (x, y) = clicks[(round * 5 + round / 4) % clicks.len()];
        s.on_release(x, y);
        assert!(s.target < s.nodes.len());
        assert!(s.current_branch_id < s.branches.len());
    }
}

#[test]
fn a_line_with_background_differs_only_in_backgrounds() {
    let texts = ["short", "a much longer line that will not fit", "宽字符文本", ""];
    for text in texts {
        for align in [TextAlign::Left, TextAlign::Center, TextAlign::Right] {
            let mut plain = Canvas::new(0u32);
            plain.set_line(2, 0, 30, "under it", TextAlign::Left, 5);
            plain.set_background(3, 2, 9);
            let mut shaded = Canvas::new(0u32);
            shaded.set_line(2, 0, 30, "under it", TextAlign::Left, 5);
            shaded.set_background(3, 2, 9);
            plain.set_line(2, 1, 12, text, align, 7);
            shaded.set_line_with_bg(2, 1, 12, text, align, 7, 8);
            for y in 0..54 {
                for x in 0..96 {
                    let (a, b) = (plain.cell(x, y), shaded.cell(x, y));
                    assert_eq!(a.content, b.content);
                    assert_eq!(a.span, b.span);
                    assert_eq!(a.color, b.color);
                    assert_eq!(a.container_end, b.container_end);
                    assert_eq!(a.container_align, b.container_align);
                }
            }
            for x in 1..12 {
                assert!(shaded.cell(x, 2).background_color.is_some());
            }
        }
    }
}

fn key(i: usize) -> KeyInput {
    match i {
        0 => KeyInput::Text("abcdefghij\u{1b}klmnop".to_string()),
        1 => KeyInput::Enter,
        2 => KeyInput::Text("more text typed here".to_string()),
        3 => KeyInput::Backspace,
        4 => KeyInput::Escape,
        5 => KeyInput::Text("\u{7}\u{9f}qrstuvwxyz0123456789".to_string()),
        _ => KeyInput::Other,
    }
}

#[test]
fn any_keys_keep_the_name_within_twenty_characters() {
    let mut s = CharacterCreationState::new();
    let mut g = NewGameInProgress(Some(vec![InitialCharacter {
        name: "first".to_string(),
        attr_execution: 10,
        attr_reaction: 10,
        attr_habit: 10,
    }]));
    s.enter(&g);
    s.on_release(9, 6, &mut g);
    for round in 0..40usize {
        if !s.editing_name {
            s.on_release(9, 6, &mut g);
        }
        let pick = (round * 3 + round / 5) % 7;
        s.on_keys(&vec![key(pick), key(pick)], &mut g);
        assert!(s.name_edit_buffer.chars().count() <= 20);
        assert!(!s.name_edit_buffer.chars().any(|c| c.is_control()));
        let name = &g.0.as_ref().unwrap()[0].name;
        assert!(name.chars().count() <= 20);
        assert!(!name.chars().any(|c| c.is_control()));
    }
}

#[test]
fn back_requests_pop_from_the_top_but_keep_one_page() {
    let mut stack = RouteStack { stack: vec![Route::main_menu()] };
    let next = stack.handle_navigation(&vec![Route::save_load(), Route::pixel_editor(), Route::character_creation()], 2);
    assert_eq!(stack.stack, vec![Route::main_menu(), Route::save_load()]);
    assert_eq!(next, Some(AppState::SaveLoad));
    let next = stack.handle_navigation(&vec![Route::pixel_editor()], 9);
    assert_eq!(stack.stack, vec![Route::main_menu()]);
    assert_eq!(next, Some(AppState::MainMenu));
    let next = stack.handle_navigation(&vec![], 3);
    assert_eq!(stack.stack, vec![Route::main_menu()]);
    assert_eq!(next, None);
}

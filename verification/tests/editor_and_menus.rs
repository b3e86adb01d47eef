use interstice::canvas::{Canvas, CanvasCommand, CellContent, TextAlign};
use interstice::character_creation::{
    base_attr_modifier, cell_to_base_attr_button, character_creation_draw, BaseAttrButton, BaseAttrKind,
    CharacterCreationState, CreationColors, CreationStep, InitialCharacter, KeyInput, NewGameInProgress,
};
use interstice::hex::{hex_to_rgb, parse_hex_color, rgb_to_hex, Rgb8, Rgba8};
use interstice::main_menu::{cell_to_main_menu_button, main_menu_draw, title_art_letter, MainMenuButton, MainMenuState};
use interstice::pixel_editor::{
    cell_to_brush_size, cell_to_editor_button, cell_to_icon_pixel, cell_to_palette_index, cell_in_selected_box,
    pixel_editor_draw, EditorButton, EditorColors, IconExport, PaletteEntry, PixelData, PixelEditorState,
};
use interstice::router::AppState;
use interstice::save_load::{draw_controller_content, draw_timeline_content, SaveLoadColors, SaveLoadState};
use interstice::status_bar::{cell_to_status_bar_button, scroll_text_for_display, status_bar_draw, StatusBarButton, StatusBarState};

fn rgb(r: u8, g: u8, b: u8) -> Rgb8 {
    Rgb8 { r, g, b }
}

fn palette() -> Vec<PaletteEntry> {
    vec![
        PaletteEntry("red".to_string(), rgb(255, 0, 0)),
        PaletteEntry("green".to_string(), rgb(0, 255, 0)),
        PaletteEntry("blue".to_string(), rgb(0, 0, 255)),
    ]
}

fn game(name: &str, e: u8, r: u8, h: u8) -> NewGameInProgress {
    NewGameInProgress(Some(vec![InitialCharacter {
        name: name.to_string(),
        attr_execution: e,
        attr_reaction: r,
        attr_habit: h,
    }]))
}

#[test]
fn hex_colours_parse_like_the_theme_files() {
    assert_eq!(hex_to_rgb("#ff8000"), Some(rgb(255, 128, 0)));
    assert_eq!(hex_to_rgb("ff8000"), Some(rgb(255, 128, 0)));
    assert_eq!(hex_to_rgb("##A0b1C2"), Some(rgb(0xa0, 0xb1, 0xc2)));
    assert_eq!(hex_to_rgb("+f+e+d"), Some(rgb(15, 14, 13)));
    assert_eq!(hex_to_rgb("#ff80"), None);
    assert_eq!(hex_to_rgb("#gg0000"), None);
    assert_eq!(parse_hex_color("#123456"), rgb(0x12, 0x34, 0x56));
    assert_eq!(parse_hex_color("#12"), rgb(255, 255, 255));
    assert_eq!(parse_hex_color("#12zz56"), rgb(0x12, 255, 0x56));
}

#[test]
fn hex_formatting_round_trips() {
    assert_eq!(rgb_to_hex(rgb(0, 15, 255)), "#000fff");
    assert_eq!(rgb_to_hex(rgb(26, 26, 31)), "#1a1a1f");
    for c in [rgb(1, 2, 3), rgb(200, 100, 50), rgb(255, 255, 255)] {
        assert_eq!(hex_to_rgb(&rgb_to_hex(c)), Some(c));
    }
}

#[test]
fn pixel_editor_cells() {
    assert_eq!(cell_to_icon_pixel(2, 2), Some((0, 0)));
    assert_eq!(cell_to_icon_pixel(33, 33), Some((15, 15)));
    assert_eq!(cell_to_icon_pixel(34, 2), None);
    assert_eq!(cell_to_icon_pixel(1, 5), None);
    assert!(cell_in_selected_box(39, 3));
    assert!(!cell_in_selected_box(40, 3));
    assert_eq!(cell_to_palette_index(38, 6, 3), Some(0));
    assert_eq!(cell_to_palette_index(43, 7, 3), Some(2));
    assert_eq!(cell_to_palette_index(44, 6, 3), None);
    assert_eq!(cell_to_palette_index(38, 8, 20), Some(8));
    assert_eq!(cell_to_palette_index(54, 6, 20), None);
    assert_eq!(cell_to_brush_size(38, 18), Some(1));
    assert_eq!(cell_to_brush_size(53, 18), Some(8));
    assert_eq!(cell_to_brush_size(54, 18), None);
    assert_eq!(cell_to_editor_button(2, 40), Some(EditorButton::Export));
    assert_eq!(cell_to_editor_button(29, 42), Some(EditorButton::Import));
    assert_eq!(cell_to_editor_button(10, 44), Some(EditorButton::Back));
    assert_eq!(cell_to_editor_button(30, 44), None);
}

#[test]
fn brush_stamps_are_clamped_into_the_icon() {
    let pal = palette();
    let mut e = PixelEditorState::new();
    assert_eq!(e.pixels.len(), 256);
    assert_eq!(e.pixels[0], rgb(26, 26, 31));
    assert_eq!(e.on_release(2, 2, &pal), None);
    assert_eq!(e.pixels[0], rgb(255, 0, 0));
    assert_eq!(e.pixels[1], rgb(26, 26, 31));
    e.on_release(40, 6, &pal);
    assert_eq!(e.selected_palette_index, 1);
    e.on_release(44, 18, &pal);
    assert_eq!(e.brush_size, 4);
    e.on_release(33, 33, &pal);
    for y in 0..16 {
        for x in 0..16 {
            let expected = if x >= 12 && y >= 12 { rgb(0, 255, 0) } else if x == 0 && y == 0 { rgb(255, 0, 0) } else { rgb(26, 26, 31) };
            assert_eq!(e.pixels[y * 16 + x], expected);
        }
    }
    e.on_release(4, 4, &pal);
    for y in 0..4 {
        for x in 0..4 {
            assert_eq!(e.pixels[y * 16 + x], rgb(0, 255, 0));
        }
    }
    assert_eq!(e.pixels[4 * 16 + 4], rgb(26, 26, 31));
    e.selected_palette_index = 9;
    e.brush_size = 1;
    e.on_release(2, 2, &pal);
    assert_eq!(e.pixels[0], rgb(26, 26, 31));
    assert_eq!(e.on_release(3, 44, &pal), Some(EditorButton::Back));
}

#[test]
fn pixel_editor_hover_texts() {
    let pal = palette();
    let mut e = PixelEditorState::new();
    assert_eq!(e.on_hover(Some((40, 6)), &pal), Some("green".to_string()));
    assert_eq!(e.hovered_palette_index, Some(1));
    assert_eq!(e.on_hover(Some((38, 2)), &pal), Some("当前: red".to_string()));
    assert_eq!(e.on_hover(Some((5, 5)), &pal), Some("像素".to_string()));
    assert_eq!(e.hovered_icon_pixel, Some((1, 1)));
    assert_eq!(e.on_hover(Some((41, 18)), &pal), Some("画笔 2×2".to_string()));
    assert_eq!(e.on_hover(Some((3, 40)), &pal), Some("导出到剪贴板".to_string()));
    assert_eq!(e.on_hover(Some((3, 42)), &pal), Some("从剪贴板导入".to_string()));
    assert_eq!(e.on_hover(Some((90, 50)), &pal), None);
    assert_eq!(e.on_hover(None, &pal), None);
    e.selected_palette_index = 7;
    assert_eq!(e.on_hover(Some((38, 2)), &pal), Some("当前颜色".to_string()));
}

#[test]
fn export_then_import_restores_the_icon() {
    let pal = palette();
    let mut e = PixelEditorState::new();
    e.on_release(2, 2, &pal);
    e.selected_palette_index = 2;
    e.on_release(20, 20, &pal);
    let exported = e.export_icon();
    assert!(exported.name.is_none());
    assert_eq!(exported.pixels.len(), 256);
    assert_eq!((exported.pixels[17].x, exported.pixels[17].y), (1, 1));
    assert_eq!(exported.pixels[0].color, "#ff0000");
    let mut f = PixelEditorState::new();
    f.import_icon(&exported);
    assert_eq!(f.pixels, e.pixels);
    assert!(f.pixels_changed());
    assert!(f.begin_draw());
    assert!(!f.pixels_changed());
    e.icon_name = "sword".to_string();
    assert_eq!(e.export_icon().name, Some("sword".to_string()));
}

#[test]
fn import_skips_bad_entries_and_later_entries_win() {
    let mut e = PixelEditorState::new();
    let data = IconExport {
        name: Some("x".to_string()),
        pixels: vec![
            PixelData { x: 1, y: 0, color: "#010203".to_string() },
            PixelData { x: 16, y: 0, color: "#ffffff".to_string() },
            PixelData { x: 2, y: 0, color: "nonsense".to_string() },
            PixelData { x: 1, y: 0, color: "#040506".to_string() },
        ],
    };
    e.import_icon(&data);
    assert_eq!(e.icon_name, "x");
    assert_eq!(e.pixels[1], rgb(4, 5, 6));
    assert_eq!(e.pixels[2], rgb(26, 26, 31));
    assert_eq!(e.pixels[16], rgb(26, 26, 31));
}

#[test]
fn import_into_a_drawn_editor_is_redrawn() {
    let mut e = PixelEditorState::new();
    assert!(e.begin_draw());
    assert!(!e.pixels_changed());
    let data = IconExport {
        name: None,
        pixels: vec![PixelData { x: 3, y: 2, color: "#102030".to_string() }],
    };
    e.import_icon(&data);
    assert_eq!(e.pixels[35], rgb(16, 32, 48));
    assert!(e.pixels_changed());
    assert!(e.begin_draw());
    let white = Rgba8 { r: 255, g: 255, b: 255, a: 255 };
    let colors = EditorColors { primary: white, muted: white, bg: white, highlight: white, success: white, button_bg: white };
    let cmds = pixel_editor_draw(&e, &palette(), colors);
    assert!(matches!(
        cmds[2 + 35],
        CanvasCommand::FillRectWithBg(8, 6, 2, 2, ' ', _, Rgba8 { r: 16, g: 32, b: 48, a: 255 })
    ));
    assert!(!e.begin_draw());
}

#[test]
fn pixel_editor_redraw_detection() {
    let pal = palette();
    let mut e = PixelEditorState::new();
    assert!(e.pixels_changed());
    assert!(e.begin_draw());
    assert!(!e.begin_draw());
    e.on_release(2, 2, &pal);
    assert!(e.begin_draw());
    e.on_hover(Some((4, 4)), &pal);
    assert!(e.begin_draw());
    assert!(!e.pixels_changed());
}

#[test]
fn pixel_editor_drawing() {
    let pal = palette();
    let mut e = PixelEditorState::new();
    e.on_hover(Some((38, 6)), &pal);
    let white = Rgba8 { r: 255, g: 255, b: 255, a: 255 };
    let grey = Rgba8 { r: 100, g: 100, b: 100, a: 255 };
    let colors = EditorColors { primary: white, muted: grey, bg: grey, highlight: white, success: white, button_bg: grey };
    let cmds = pixel_editor_draw(&e, &pal, colors);
    assert!(matches!(cmds[0], CanvasCommand::ClearRect(0, 0, 96, 52)));
    assert!(matches!(cmds[2], CanvasCommand::FillRectWithBg(2, 2, 2, 2, ' ', _, Rgba8 { r: 26, g: 26, b: 31, a: 255 })));
    assert_eq!(cmds.len(), 2 + 256 + 136 + 1 + 3 + 8 + 16 + 3);
    let mut canvas = Canvas::new(white);
    assert!(canvas.apply_commands(&cmds));
    assert_eq!(canvas.cell(38, 6).content, CellContent::Char('│'));
    assert_eq!(canvas.cell(38, 18).content, CellContent::Char('1'));
    assert_eq!(canvas.cell(39, 18).content, CellContent::Char('✓'));
    assert_eq!(canvas.cell(41, 18).content, CellContent::Char('○'));
}

#[test]
fn attribute_modifiers_round_toward_zero() {
    assert_eq!(base_attr_modifier(10), 0);
    assert_eq!(base_attr_modifier(11), 0);
    assert_eq!(base_attr_modifier(12), 1);
    assert_eq!(base_attr_modifier(15), 2);
    assert_eq!(base_attr_modifier(9), 0);
    assert_eq!(base_attr_modifier(7), -1);
    assert_eq!(base_attr_modifier(0), -5);
    assert_eq!(base_attr_modifier(255), 122);
}

#[test]
fn creation_steps() {
    assert_eq!(CreationStep::from_index(0), CreationStep::BaseAttr);
    assert_eq!(CreationStep::from_index(7), CreationStep::Item);
    assert_eq!(CreationStep::Origin.index(), 1);
    assert_eq!(CreationStep::Ability.name(), "能力");
    assert_eq!(CreationStep::Item.next(), None);
    assert_eq!(CreationStep::BaseAttr.prev(), None);
    assert_eq!(CreationStep::Origin.next(), Some(CreationStep::Ability));
    assert_eq!(CreationStep::Item.icon(), '\u{f466}');
    assert_eq!(cell_to_base_attr_button(10, 12), Some(BaseAttrButton::Minus(BaseAttrKind::Reaction)));
    assert_eq!(cell_to_base_attr_button(31, 14), Some(BaseAttrButton::Plus(BaseAttrKind::Habit)));
    assert_eq!(cell_to_base_attr_button(20, 10), None);
    assert_eq!(BaseAttrKind::Execution.name(), "执行");
}

#[test]
fn attribute_points_stay_within_the_budget() {
    let mut s = CharacterCreationState::new();
    let mut g = game("Ada", 10, 10, 10);
    s.enter(&g);
    assert_eq!(s.base_attr_used(), 30);
    assert_eq!(s.base_attr_remaining(), 0);
    s.on_release(30, 10, &mut g);
    assert_eq!(s.attr_execution, 10);
    s.on_release(10, 12, &mut g);
    assert_eq!(s.attr_reaction, 9);
    assert_eq!(g.0.as_ref().unwrap()[0].attr_reaction, 9);
    for _ in 0..10 {
        s.on_release(30, 10, &mut g);
    }
    assert_eq!(s.attr_execution, 11);
    assert_eq!(s.base_attr_remaining(), 0);
    let mut s = CharacterCreationState::new();
    let mut g = game("Bo", 14, 0, 0);
    s.enter(&g);
    for _ in 0..5 {
        s.on_release(30, 10, &mut g);
    }
    assert_eq!(s.attr_execution, 15);
    assert_eq!(g.0.as_ref().unwrap()[0].attr_execution, 15);
    s.on_release(10, 12, &mut g);
    assert_eq!(s.attr_reaction, 0);
}

#[test]
fn steps_and_leaving() {
    let mut s = CharacterCreationState::new();
    let mut g = game("Ada", 10, 10, 10);
    s.enter(&g);
    assert!(!s.on_release(5, 46, &mut g));
    assert_eq!(s.current_step, 0);
    for _ in 0..5 {
        s.on_release(30, 46, &mut g);
    }
    assert_eq!(s.current_step, 3);
    s.on_release(30, 10, &mut g);
    assert_eq!(s.attr_execution, 10);
    s.on_release(5, 46, &mut g);
    assert_eq!(s.current_step, 2);
    assert!(s.on_release(92, 2, &mut g));
    assert!(g.0.is_none());
}

#[test]
fn editing_the_name() {
    let mut s = CharacterCreationState::new();
    let mut g = game("Ada", 10, 10, 10);
    s.enter(&g);
    assert_eq!(s.name_edit_buffer, "Ada");
    s.on_keys(&vec![KeyInput::Text("x".to_string())], &mut g);
    assert_eq!(s.name_edit_buffer, "Ada");
    s.on_release(10, 6, &mut g);
    assert!(s.editing_name);
    s.on_keys(&vec![KeyInput::Backspace, KeyInput::Text("m\u{7}y".to_string()), KeyInput::Other], &mut g);
    assert_eq!(s.name_edit_buffer, "Admy");
    assert_eq!(g.0.as_ref().unwrap()[0].name, "Ada");
    s.on_keys(&vec![KeyInput::Enter, KeyInput::Text("!".to_string())], &mut g);
    assert!(!s.editing_name);
    assert_eq!(g.0.as_ref().unwrap()[0].name, "Admy");
    assert_eq!(s.name_edit_buffer, "Admy!");
    s.on_release(10, 6, &mut g);
    s.on_keys(&vec![KeyInput::Text("abcdefghijklmnopqrstuvwxyz".to_string())], &mut g);
    assert_eq!(s.name_edit_buffer.chars().count(), 20);
    s.on_keys(&vec![KeyInput::Escape], &mut g);
    assert_eq!(s.name_edit_buffer, "Admy");
    assert!(!s.editing_name);
    s.on_release(10, 6, &mut g);
    s.on_keys(&vec![KeyInput::Backspace], &mut g);
    s.on_release(60, 30, &mut g);
    assert!(!s.editing_name);
    assert_eq!(g.0.as_ref().unwrap()[0].name, "Adm");
}

#[test]
fn entering_without_a_character_uses_defaults() {
    let mut s = CharacterCreationState::new();
    s.attr_execution = 3;
    s.enter(&NewGameInProgress(None));
    assert_eq!(s.attr_execution, 10);
    assert_eq!(s.name_edit_buffer, "HAJIMEHERO");
    assert_eq!(s.current_step, 0);
}

#[test]
fn creation_hover_texts_and_redraws() {
    let mut s = CharacterCreationState::new();
    assert_eq!(s.on_hover(Some((5, 46))), Some("上一步".to_string()));
    assert_eq!(s.on_hover(Some((30, 46))), Some("下一步".to_string()));
    assert_eq!(s.on_hover(Some((91, 2))), Some("返回".to_string()));
    assert_eq!(s.on_hover(Some((20, 6))), Some("点击修改名字".to_string()));
    assert_eq!(s.on_hover(Some((11, 14))), Some("习性 -1".to_string()));
    assert_eq!(s.on_hover(Some((30, 10))), Some("执行 +1".to_string()));
    assert_eq!(s.on_hover(Some((60, 30))), None);
    s.current_step = 3;
    assert_eq!(s.on_hover(Some((30, 46))), Some("完成".to_string()));
    assert_eq!(s.on_hover(Some((30, 10))), None);
    let r = s.begin_draw();
    assert!(r.content && r.hover);
    let r = s.begin_draw();
    assert!(!r.content && !r.hover);
    s.on_hover(Some((5, 46)));
    let r = s.begin_draw();
    assert!(!r.content && r.hover);
}

#[test]
fn creation_drawing() {
    let mut s = CharacterCreationState::new();
    s.attr_execution = 7;
    let c = CreationColors { text: 1u32, dim: 2, accent: 3, hover_bg: 4 };
    let cmds = character_creation_draw(&s, c);
    let mut canvas = Canvas::new(0u32);
    for cmd in &cmds {
        canvas.apply_command(cmd);
    }
    let row: String = (4..28).map(|x| match canvas.cell(x, 8).content {
        CellContent::Char(ch) => ch,
        _ => ' ',
    }).collect();
    assert!(row.starts_with("剩余 3 点未分配"));
    let row: String = (18..28).map(|x| match canvas.cell(x, 10).content {
        CellContent::Char(ch) => ch,
        _ => ' ',
    }).collect();
    assert!(row.starts_with("调整-1"));
    assert_eq!(canvas.cell(8, 6).content, CellContent::Char('H'));
    assert_eq!(canvas.cell(28, 4).color, 3);
    assert_eq!(canvas.cell(33, 4).color, 2);
}

#[test]
fn status_bar_scrolling_text() {
    assert_eq!(scroll_text_for_display("", 0, 94), "\u{3000}".repeat(4));
    let short = scroll_text_for_display("hi", 0, 10);
    assert_eq!(short, format!("{}hi{}{}", "\u{3000}".repeat(2), "\u{3000}".repeat(4), "\u{3000}".repeat(2)));
    let long = scroll_text_for_display("abcdefgh", 6, 10);
    assert_eq!(long, format!("{}ghabcd{}", "\u{3000}".repeat(2), "\u{3000}".repeat(2)));
    assert_eq!(scroll_text_for_display("abcdefgh", 3, 94).chars().count(), 94);
}

#[test]
fn status_bar_buttons() {
    assert_eq!(cell_to_status_bar_button(0, 53), Some(StatusBarButton::Left));
    assert_eq!(cell_to_status_bar_button(95, 53), Some(StatusBarButton::Settings));
    assert_eq!(cell_to_status_bar_button(95, 52), None);
    assert_eq!(StatusBarButton::Left.hover_label(&AppState::MainMenu), "像素编辑器");
    assert_eq!(StatusBarButton::Left.hover_label(&AppState::PixelEditor), "返回主菜单");
    assert_eq!(StatusBarButton::Settings.cell(), (95, 53));
    let mut s = StatusBarState::new();
    s.on_hover(Some((0, 53)), AppState::MainMenu, &Some("x".to_string()));
    assert_eq!(s.hover_text, "像素编辑器");
    s.on_hover(Some((40, 53)), AppState::MainMenu, &Some("开始游戏".to_string()));
    assert_eq!(s.hover_text, "开始游戏");
    s.on_hover(None, AppState::MainMenu, &None);
    assert_eq!(s.hover_text, "");
    s.on_press(0, 53);
    s.on_release(1, 53);
    assert_eq!(s.take_navigation(AppState::MainMenu), None);
    s.on_press(0, 53);
    s.on_release(0, 53);
    assert!(s.pressed.is_none());
    assert_eq!(s.take_navigation(AppState::MainMenu), Some(AppState::PixelEditor));
    assert_eq!(s.take_navigation(AppState::MainMenu), None);
    s.on_press(0, 53);
    s.on_release(0, 53);
    assert_eq!(s.take_navigation(AppState::PixelEditor), Some(AppState::MainMenu));
    s.on_press(95, 53);
    s.on_release(95, 53);
    assert_eq!(s.take_navigation(AppState::MainMenu), None);
}

#[test]
fn status_bar_scroll_and_redraw() {
    let mut s = StatusBarState::new();
    assert!(s.begin_draw(false, AppState::MainMenu));
    assert!(!s.begin_draw(false, AppState::MainMenu));
    assert!(s.begin_draw(true, AppState::MainMenu));
    assert!(s.begin_draw(true, AppState::PixelEditor));
    s.on_hover(Some((40, 53)), AppState::MainMenu, &Some("abc".to_string()));
    s.advance_scroll();
    s.advance_scroll();
    assert_eq!(s.scroll_offset, 2);
    s.advance_scroll();
    assert_eq!(s.scroll_offset, 0);
    assert!(s.begin_draw(true, AppState::PixelEditor));
    let cmds = status_bar_draw(&s, AppState::PixelEditor, 1u32, 2, 3, 4, 5, 6, 7);
    assert_eq!(cmds.len(), 5);
    match &cmds[2] {
        CanvasCommand::SetLineWithBg(53, 0, 1, t, TextAlign::Center, 2, 5) => assert_eq!(t, "返"),
        _ => panic!("unexpected command"),
    }
}

#[test]
fn main_menu_clicks_need_press_and_release_on_one_button() {
    assert_eq!(cell_to_main_menu_button(36, 30), Some(MainMenuButton::Start));
    assert_eq!(cell_to_main_menu_button(61, 36), Some(MainMenuButton::Quit));
    assert_eq!(cell_to_main_menu_button(62, 30), None);
    assert_eq!(cell_to_main_menu_button(40, 31), None);
    assert_eq!(MainMenuButton::Credits.label(), "制作人员");
    assert_eq!(MainMenuButton::Settings.row(), 32);
    let mut m = MainMenuState::new();
    assert_eq!(m.on_hover(Some((40, 32))), Some("设置".to_string()));
    assert_eq!(m.on_hover(Some((10, 10))), None);
    m.on_press(40, 30);
    assert_eq!(m.on_release(40, 32), None);
    assert!(m.pressed.is_none());
    m.on_press(40, 30);
    assert_eq!(m.on_release(50, 30), Some(MainMenuButton::Start));
    assert_eq!(m.on_release(50, 30), None);
}

#[test]
fn main_menu_redraws_on_change_and_draws_the_title() {
    let mut m = MainMenuState::new();
    assert!(m.begin_draw());
    assert!(!m.begin_draw());
    m.on_hover(Some((40, 34)));
    assert!(m.begin_draw());
    assert_eq!(title_art_letter('N')[2], "# # #");
    assert_eq!(title_art_letter('?'), title_art_letter('I'));
    let cmds = main_menu_draw(&m, 1u32, 2, 3, 4, 5);
    assert_eq!(cmds.len(), 254);
    let mut canvas = Canvas::new(0u32);
    for cmd in &cmds {
        canvas.apply_command(cmd);
    }
    assert_eq!(canvas.cell(18, 15).content, CellContent::Char('\u{2588}'));
    assert_eq!(canvas.cell(19, 16).content, CellContent::Char(' '));
    assert_eq!(canvas.cell(36, 30).content, CellContent::Char('\u{f04b}'));
    assert_eq!(canvas.cell(36, 34).background_color, Some(4));
    assert_eq!(canvas.cell(36, 30).background_color, Some(3));
}

#[test]
fn save_page_drawing() {
    let s = SaveLoadState::new();
    let c = SaveLoadColors { text: 1u32, dim: 2, accent: 3, bg: 4, hover_bg: 5 };
    let mut canvas = Canvas::new(0u32);
    for cmd in draw_timeline_content(&s, c).iter().chain(draw_controller_content(&s, c).iter()) {
        canvas.apply_command(cmd);
    }
    assert_eq!(canvas.cell(2, 23).content, CellContent::Char('●'));
    assert_eq!(canvas.cell(2, 23).color, 3);
    assert_eq!(canvas.cell(2, 19).content, CellContent::Char('◦'));
    assert_eq!(canvas.cell(1, 3).content, CellContent::Empty);
    assert_eq!(canvas.cell(6, 23).content, CellContent::Char('第'));
    assert_eq!(canvas.cell(2, 24).content, CellContent::Char('│'));
    assert_eq!(canvas.cell(3, 44).content, CellContent::Char('\u{f048}'));
    assert_eq!(canvas.cell(3, 46).content, CellContent::Char('继'));
    assert_eq!(canvas.cell(38, 2).content, CellContent::Char('分'));
}

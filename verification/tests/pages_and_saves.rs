use interstice::fmt::to_chinese_num;
use interstice::router::{route_to_app_state, AppState, Route, RouteStack};
use interstice::save::{versions_match, GameSave, SemVer, SAVE_VERSION};
use interstice::save_load::{
    cell_to_control_button, cell_to_fork_list_index, cell_to_timeline_node_index, default_branches,
    default_timeline_nodes, fork_branch_ids_from, SaveLoadControlButton, SaveLoadState, ScrollDir,
};

#[test]
fn chinese_numerals() {
    assert_eq!(to_chinese_num(0), "零");
    assert_eq!(to_chinese_num(5), "五");
    assert_eq!(to_chinese_num(10), "十");
    assert_eq!(to_chinese_num(11), "十一");
    assert_eq!(to_chinese_num(19), "十九");
    assert_eq!(to_chinese_num(20), "20");
    assert_eq!(to_chinese_num(123), "123");
}

#[test]
fn route_stack_push_and_back() {
    let mut stack = RouteStack { stack: Vec::new() };
    stack.init();
    assert_eq!(stack.stack, vec![Route::MainMenu(None)]);
    assert!(!stack.can_pop());
    let next = stack.handle_navigation(&vec![Route::save_load()], 0);
    assert_eq!(next, Some(AppState::SaveLoad));
    assert!(stack.can_pop());
    assert_eq!(stack.current_app_state(), Some(AppState::SaveLoad));
    let next = stack.handle_navigation(&vec![], 1);
    assert_eq!(next, Some(AppState::MainMenu));
    assert_eq!(stack.stack, vec![Route::MainMenu(None)]);
}

#[test]
fn back_on_the_last_page_is_ignored() {
    let mut stack = RouteStack { stack: vec![Route::main_menu()] };
    assert_eq!(stack.handle_navigation(&vec![], 3), None);
    assert_eq!(stack.stack.len(), 1);
}

#[test]
fn push_and_back_in_one_frame_restores_the_stack() {
    let mut stack = RouteStack { stack: vec![Route::main_menu(), Route::pixel_editor()] };
    let next = stack.handle_navigation(&vec![Route::character_creation()], 1);
    assert_eq!(stack.stack, vec![Route::main_menu(), Route::pixel_editor()]);
    assert_eq!(next, Some(AppState::PixelEditor));
}

#[test]
fn routes_map_to_pages() {
    assert_eq!(route_to_app_state(&Route::main_menu()), AppState::MainMenu);
    assert_eq!(route_to_app_state(&Route::save_load()), AppState::SaveLoad);
    assert_eq!(route_to_app_state(&Route::pixel_editor()), AppState::PixelEditor);
    assert_eq!(route_to_app_state(&Route::character_creation()), AppState::CharacterCreation);
    assert_eq!(AppState::default(), AppState::MainMenu);
}

#[test]
fn new_game_save() {
    let s = GameSave::new_game();
    assert_eq!(SAVE_VERSION, "1.0.0");
    assert_eq!(s.name, "[00:00:00] 第一章");
    assert_eq!(s.version, "1.0.0");
    assert!(s.fork_from.is_none());
    assert_eq!(s.timeline.len(), 1);
    assert!(s.timeline[0].is_chapter);
    assert_eq!(s.timeline[0].chapter_name, "第一章");
    assert_eq!(s.timeline[0].duration_display, "00:00:00");
    assert!(!s.id.is_empty() && s.id.chars().count() <= 24);
    assert!(s.id.chars().next().unwrap().is_ascii_lowercase());
    assert!(s.id.chars().all(|c| c.is_ascii_lowercase() || c.is_ascii_digit()));
    assert!(s.is_compatible());
    let t = GameSave::new_game();
    assert_ne!(s.id, t.id);
}

#[test]
fn save_versions_must_match_exactly() {
    let mut s = GameSave::new_game_with("abc".to_string(), [7u8; 32]);
    assert_eq!(s.seed, [7u8; 32]);
    assert!(s.is_compatible());
    s.version = "2.0.0".to_string();
    assert!(!s.is_compatible());
    s.version = "1.0.1".to_string();
    assert!(!s.is_compatible());
    s.version = "1.0.0+build".to_string();
    assert!(!s.is_compatible());
    s.version = "not a version".to_string();
    assert!(!s.is_compatible());
    let v = |a, b, c| Some(SemVer { major: a, minor: b, patch: c, pre: String::new(), build: String::new() });
    assert!(versions_match(&v(1, 0, 0), &v(1, 0, 0)));
    assert!(!versions_match(&v(1, 0, 0), &v(1, 1, 0)));
    assert!(!versions_match(&None, &v(1, 0, 0)));
}

#[test]
fn sample_timeline() {
    let nodes = default_timeline_nodes();
    assert_eq!(nodes.len(), 25);
    assert_eq!(nodes[0].label(), "序章");
    assert_eq!(nodes[1].chapter_name, "第一章");
    assert_eq!(nodes[1].duration_display, "00:08:00");
    assert_eq!(nodes[1].label(), "00:08:00");
    assert!(nodes[4].is_chapter);
    assert_eq!(nodes[4].label(), "第一章");
    assert_eq!(nodes[5].chapter_name, "第二章");
    assert_eq!(nodes[24].duration_display, "01:17:00");
    assert_eq!(nodes[24].chapter_name, "第六章");
}

#[test]
fn sample_branches() {
    let b = default_branches();
    assert_eq!(b.len(), 2);
    assert_eq!(b[1].fork_from, Some((0, 5)));
    assert_eq!(b[1].timeline.len(), 17);
    assert_eq!(b[1].timeline[5].duration_display, b[0].timeline[5].duration_display);
    assert_eq!(b[1].timeline[6].duration_display, "00:49:00");
    let m = b[1].fork_meta.as_ref().unwrap();
    assert_eq!((m.time.as_str(), m.chapter.as_str(), m.seq), ("01:15:00", "第一章", 1));
    assert_eq!(fork_branch_ids_from(&b, 0, 5), vec![1]);
    assert!(fork_branch_ids_from(&b, 0, 4).is_empty());
}

#[test]
fn save_page_cells() {
    assert_eq!(cell_to_control_button(2, 44), Some(SaveLoadControlButton::Start));
    assert_eq!(cell_to_control_button(19, 44), Some(SaveLoadControlButton::Latest));
    assert_eq!(cell_to_control_button(20, 44), None);
    assert_eq!(cell_to_control_button(5, 45), None);
    let nodes = default_timeline_nodes();
    assert_eq!(cell_to_timeline_node_index(2, 23, &nodes, 10), Some(10));
    assert_eq!(cell_to_timeline_node_index(10, 27, &nodes, 10), Some(11));
    assert_eq!(cell_to_timeline_node_index(10, 25, &nodes, 10), None);
    assert_eq!(cell_to_timeline_node_index(5, 23, &nodes, 10), None);
    assert_eq!(cell_to_timeline_node_index(2, 39, &nodes, 24), None);
    assert_eq!(cell_to_fork_list_index(40, 6, 3, 0), Some(0));
    assert_eq!(cell_to_fork_list_index(75, 9, 3, 0), Some(1));
    assert_eq!(cell_to_fork_list_index(40, 9, 3, 2), None);
    assert_eq!(cell_to_fork_list_index(76, 6, 3, 0), None);
}

#[test]
fn save_page_controls_move_the_selection() {
    let mut s = SaveLoadState::new();
    assert_eq!(s.target, 24);
    assert!(s.is_latest_progress());
    s.on_release(2, 44);
    assert_eq!(s.target, 0);
    s.on_release(14, 44);
    assert_eq!(s.target, 4);
    s.on_release(14, 44);
    assert_eq!(s.target, 8);
    s.on_release(5, 44);
    assert_eq!(s.target, 4);
    s.on_release(8, 44);
    assert_eq!(s.target, 3);
    s.on_release(11, 44);
    assert_eq!(s.target, 4);
    s.on_release(17, 44);
    assert_eq!(s.target, 24);
    s.on_release(11, 44);
    assert_eq!(s.target, 24);
    s.on_release(14, 44);
    assert_eq!(s.target, 24);
    s.on_release(2, 44);
    s.on_release(5, 44);
    assert_eq!(s.target, 0);
    s.on_release(8, 44);
    assert_eq!(s.target, 0);
}

#[test]
fn save_page_scroll_and_timeline_clicks() {
    let mut s = SaveLoadState::new();
    s.scroll(ScrollDir::Down);
    assert_eq!(s.target, 24);
    s.scroll(ScrollDir::Up);
    assert_eq!(s.target, 23);
    s.scroll(ScrollDir::Still);
    assert_eq!(s.target, 23);
    assert_eq!(s.on_release(10, 19), None);
    assert_eq!(s.target, 22);
    assert_eq!(s.current_chapter_and_duration(), "第六章 01:11:00");
    assert_eq!(s.on_release(93, 2), Some(AppState::MainMenu));
    assert_eq!(s.target, 22);
}

#[test]
fn save_page_hover_texts() {
    let mut s = SaveLoadState::new();
    assert_eq!(s.on_hover(Some((3, 44))), Some("游戏开始".to_string()));
    assert_eq!(s.hovered_control, Some(SaveLoadControlButton::Start));
    assert_eq!(s.on_hover(Some((5, 46))), Some("继续游戏".to_string()));
    assert!(s.hovered_continue && s.hovered_control.is_none());
    assert_eq!(s.on_hover(Some((94, 2))), Some("返回主菜单".to_string()));
    assert_eq!(s.on_hover(Some((8, 23))), Some("第六章".to_string()));
    assert_eq!(s.hovered_node, Some(24));
    assert_eq!(s.on_hover(Some((60, 30))), None);
    assert_eq!(s.on_hover(None), None);
    assert!(s.hovered_node.is_none() && !s.hovered_back);
    s.on_release(2, 44);
    assert_eq!(s.on_hover(Some((5, 46))), Some("开始游戏".to_string()));
}

#[test]
fn forks_are_listed_and_switched_to() {
    let mut s = SaveLoadState::new();
    assert!(s.list_branch_ids().is_empty());
    s.target = 5;
    assert_eq!(s.list_branch_ids(), vec![1]);
    assert_eq!(s.on_hover(Some((50, 6))), Some("切换到 [01:15:00] #1".to_string()));
    assert_eq!(s.hovered_fork_index, Some(0));
    s.on_release(50, 6);
    assert_eq!(s.current_branch_id, 1);
    assert!(!s.is_main_branch());
    assert_eq!(s.nodes.len(), 17);
    assert_eq!(s.target, 16);
    s.target = 5;
    assert_eq!(s.list_branch_ids(), vec![0]);
    assert_eq!(s.on_hover(Some((50, 7))), Some("切换到 [00:00:00] 序章 #0".to_string()));
    assert!(s.switch_to_branch(0));
    assert!(!s.switch_to_branch(0));
    assert!(!s.switch_to_branch(9));
    assert_eq!(s.target, 24);
}

#[test]
fn save_page_redraws_only_what_changed() {
    let mut s = SaveLoadState::new();
    let r = s.begin_draw();
    assert!(r.content);
    let r = s.begin_draw();
    assert!(!r.content && !r.timeline_hover && !r.controller_hover);
    s.on_hover(Some((8, 23)));
    let r = s.begin_draw();
    assert!(!r.content && r.timeline_hover && !r.controller_hover);
    s.on_hover(Some((3, 44)));
    let r = s.begin_draw();
    assert!(!r.content && r.timeline_hover && r.controller_hover);
    s.on_release(2, 44);
    assert!(s.begin_draw().content);
    s.enter_latest();
    assert_eq!(s.target, 24);
    assert!(s.begin_draw().content);
}

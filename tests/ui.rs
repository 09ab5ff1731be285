use kubescope::entry::LogEntry;
use kubescope::export::{export_line, keys_matching};
use kubescope::level::LogLevel;
use kubescope::parser::LogParser;
use kubescope::ui::{
    compile_search, current_list_len, list_nav_hints, log_viewer_commands, select_down, select_up, Action,
    CommandPaletteState, Navigation, Screen, StatusBar,
};

#[test]
fn export_line_format() {
    let e = LogParser::parse("2024-01-15T10:30:00.123456Z [ERROR] boom", "api-1", 1);
    assert_eq!(export_line(&e), "2024-01-15T10:30:00.123Z [ERR] api-1 | 2024-01-15T10:30:00.123456Z [ERROR] boom");
    let mut plain = LogEntry::new("web".to_string(), 1, "hello".to_string());
    plain.level = LogLevel::Info;
    assert_eq!(export_line(&plain), " [INF] web | hello");
}

#[test]
fn key_search_is_case_insensitive() {
    let keys = vec!["UserId".to_string(), "msg".to_string(), "user_agent".to_string()];
    assert_eq!(keys_matching(&keys, "USER"), vec!["UserId".to_string(), "user_agent".to_string()]);
    assert_eq!(keys_matching(&keys, ""), keys);
    assert!(keys_matching(&keys, "zzz").is_empty());
}

#[test]
fn palette_filters_and_wraps() {
    let cmds = log_viewer_commands();
    assert_eq!(cmds.len(), 18);
    assert!(matches!(cmds[0].action, Action::ToggleAutoScroll));
    let mut p = CommandPaletteState::new();
    p.open(&cmds);
    assert!(p.visible);
    assert_eq!(p.filtered_indices.len(), 18);
    p.search_input = "TOGGLE".to_string();
    p.update_filtered(&cmds);
    assert_eq!(p.filtered_indices, vec![0, 1, 2, 3, 4, 6, 10]);
    p.move_up();
    assert_eq!(p.selected, Some(6));
    p.move_down();
    assert_eq!(p.selected, Some(0));
    assert_eq!(p.selected_command(&cmds), Some(0));
    p.search_input = "nothing matches".to_string();
    p.update_filtered(&cmds);
    assert_eq!(p.selected, None);
    assert_eq!(p.selected_command(&cmds), None);
    p.close();
    assert!(!p.visible);
    assert_eq!(select_up(Some(0), 3), Some(2));
    assert_eq!(select_down(Some(2), 3), Some(0));
    assert_eq!(select_down(None, 3), Some(0));
    assert_eq!(select_up(Some(1), 0), Some(1));
}

#[test]
fn status_bar_builder() {
    let bar = StatusBar::new().hints(list_nav_hints()).right("3 items".to_string());
    assert_eq!(bar.hints.len(), 5);
    assert_eq!(bar.hints[2], ("Enter", "Select"));
    assert_eq!(bar.right_text.as_deref(), Some("3 items"));
}

#[test]
fn navigation_stack() {
    let mut nav = Navigation::new();
    nav.list_down(3);
    assert_eq!(nav.selected, Some(1));
    nav.navigate_to(Screen::NamespaceSelect);
    assert_eq!(nav.selected, Some(0));
    nav.navigate_to(Screen::DeploymentSelect);
    assert!(nav.go_back());
    assert_eq!(nav.current_screen, Screen::NamespaceSelect);
    assert!(nav.go_back());
    assert_eq!(nav.current_screen, Screen::ContextSelect);
    assert!(!nav.go_back());
    nav.list_up(4);
    assert_eq!(nav.selected, Some(3));
    assert_eq!(current_list_len(Screen::LogViewer, 1, 2, 3), 0);
    assert_eq!(current_list_len(Screen::NamespaceSelect, 1, 2, 3), 2);
}

#[test]
fn search_input_compiles_to_a_filter() {
    assert!(compile_search("", true).unwrap().is_none());
    let f = compile_search("Err", true).unwrap().unwrap();
    assert!(f.is_case_insensitive());
    assert!(compile_search("(", false).is_err());
}

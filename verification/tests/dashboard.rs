use jex_core::dashboard::{
    border_tones, content_title, help_lines, nav_lines, overview_lines, status_line, DashAction, DashKey,
    DashState, DashboardData, Panel, Piece, Tab, Tone,
};

fn texts(line: &Vec<Piece>) -> Vec<String> {
    line.iter().map(|p| p.text.clone()).collect()
}

#[test]
fn tab_labels_and_indices() {
    assert_eq!(Tab::from_index(0).label(), "项目概览");
    assert_eq!(Tab::from_index(1).label(), "依赖更新");
    assert_eq!(Tab::from_index(2).label(), "安全审计");
    assert_eq!(Tab::from_index(3).label(), "许可证");
}

#[test]
fn keys_move_and_quit() {
    let mut st = DashState::new();
    assert_eq!(st.handle_key(DashKey::Down), DashAction::Continue);
    assert_eq!(st.nav_selected, 1);
    assert_eq!(st.handle_key(DashKey::Char('j')), DashAction::Continue);
    assert_eq!(st.handle_key(DashKey::Down), DashAction::Continue);
    assert_eq!(st.handle_key(DashKey::Down), DashAction::Continue);
    assert_eq!(st.nav_selected, 3);
    st.handle_key(DashKey::Up);
    assert_eq!(st.nav_selected, 2);
    st.handle_key(DashKey::Tab);
    assert_eq!(st.active_panel, Panel::Content);
    st.handle_key(DashKey::Down);
    st.handle_key(DashKey::PageDown);
    assert_eq!(st.content_scroll, 11);
    st.handle_key(DashKey::PageUp);
    assert_eq!(st.content_scroll, 1);
    st.handle_key(DashKey::End);
    assert_eq!(st.content_scroll, usize::MAX);
    st.handle_key(DashKey::Home);
    assert_eq!(st.content_scroll, 0);
    assert_eq!(st.handle_key(DashKey::Char('r')), DashAction::Refresh);
    assert_eq!(st.handle_key(DashKey::Char('q')), DashAction::Quit);
    assert_eq!(st.handle_key(DashKey::Esc), DashAction::Quit);
}

#[test]
fn help_swallows_next_key() {
    let mut st = DashState::new();
    st.handle_key(DashKey::Char('?'));
    assert!(st.show_help);
    assert_eq!(st.handle_key(DashKey::Char('q')), DashAction::Continue);
    assert!(!st.show_help);
    assert_eq!(status_line(&st), " [导航] jex dashboard | Tab:切换  ↑↓:导航  r:刷新  q:退出  ?:帮助 ");
}

#[test]
fn overview_of_empty_data() {
    let mut d = DashboardData::new();
    d.dependency_count = 3;
    let lines = overview_lines(&d);
    assert_eq!(lines.len(), 9);
    assert_eq!(texts(&lines[0]), vec![" 项目概览"]);
    assert!(lines[0][0].bold);
    assert_eq!(texts(&lines[2]), vec!["  项目名称: ", "(未知)"]);
    assert_eq!(texts(&lines[3]), vec!["  依赖数量: ", "3"]);
    assert_eq!(lines[3][1].tone, Tone::Green);
    assert_eq!(texts(&lines[4]), vec!["  Java 版本: ", "未指定"]);
    assert_eq!(texts(&lines[6]), vec!["  依赖更新: ", "0 个可更新"]);
    assert_eq!(lines[6][1].tone, Tone::Green);
}

#[test]
fn navigation_marks_selected_tab() {
    let st = DashState::new();
    let d = DashboardData::new();
    let lines = nav_lines(&st, &d);
    assert_eq!(lines.len(), 4);
    assert_eq!(texts(&lines[0]), vec!["  项目概览"]);
    assert_eq!(lines[0][0].tone, Tone::Yellow);
    assert_eq!(texts(&lines[1]), vec!["  依赖更新 !"]);
    assert_eq!(lines[1][0].tone, Tone::DarkGray);
    assert_eq!(border_tones(&st), (Tone::Yellow, Tone::DarkGray));
    assert_eq!(content_title(&st), " 项目概览 ");
}

#[test]
fn dashboard_help_overlay() {
    let lines = help_lines();
    assert_eq!(lines.len(), 9);
    assert_eq!(texts(&lines[0]), vec!["  jex dashboard 帮助"]);
    assert_eq!(texts(&lines[8]), vec!["  按任意键关闭帮助"]);
}

#[test]
fn refresh_keeps_project_details_on_read_error() {
    let mut d = DashboardData::new();
    d.refresh_with(Ok((Some("demo".to_string()), Some("21".to_string()), 3)), Ok(vec![]), Err("offline".to_string()), Err("no lock".to_string()));
    assert_eq!(d.project_name, "demo");
    assert_eq!(d.java_version, Some("21".to_string()));
    assert_eq!(d.dependency_count, 3);
    assert!(d.outdated.is_some() && d.outdated_error.is_none());
    assert_eq!(d.audit_error, Some("offline".to_string()));
    assert!(d.license_report.is_none());
    d.refresh_with(Err("no jex.toml".to_string()), Err("x".to_string()), Err("y".to_string()), Err("z".to_string()));
    assert_eq!(d.project_name, "读取失败: no jex.toml");
    assert_eq!(d.java_version, Some("21".to_string()));
    assert_eq!(d.dependency_count, 3);
    assert!(d.outdated.is_none());
    assert_eq!(d.outdated_error, Some("x".to_string()));
    d.refresh_with(Ok((None, None, 0)), Err("x".to_string()), Err("y".to_string()), Err("z".to_string()));
    assert_eq!(d.project_name, "(未命名)");
}

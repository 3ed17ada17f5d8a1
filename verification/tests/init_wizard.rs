use jex_core::init_wizard::{
    build_tool_value, common_dep, default_project_name, java_version_value, App, KeyOutcome, Step, WizardKey,
};

fn app() -> App {
    App::new(default_project_name(None))
}

#[test]
fn test_app_new_default_name() {
    let app = app();
    assert!(!app.name_input.is_empty());
    assert_eq!(app.current_step, 0);
    assert_eq!(app.java_selected, 2);
    assert_eq!(app.build_selected, 0);
}

#[test]
fn test_app_navigation() {
    let mut app = app();
    assert_eq!(app.current_step, 0);
    app.next_step();
    assert_eq!(app.current_step, 1);
    app.next_step();
    assert_eq!(app.current_step, 2);
    app.next_step();
    assert_eq!(app.current_step, 3);
    app.next_step();
    assert_eq!(app.current_step, 4);
    app.next_step();
    assert_eq!(app.current_step, 4);
    app.prev_step();
    assert_eq!(app.current_step, 3);
}

#[test]
fn test_name_editing() {
    let mut app = app();
    app.name_input.clear();
    app.name_cursor = 0;
    app.name_insert_char('h');
    app.name_insert_char('i');
    assert_eq!(app.name_input, "hi");
    assert_eq!(app.name_cursor, 2);
    app.name_delete_char();
    assert_eq!(app.name_input, "h");
    assert_eq!(app.name_cursor, 1);
}

#[test]
fn test_dep_toggle() {
    let mut app = app();
    app.current_step = 3;
    app.step_cursor = 0;
    assert!(!app.deps_selected[0]);
    app.toggle_dep();
    assert!(app.deps_selected[0]);
    app.toggle_dep();
    assert!(!app.deps_selected[0]);
}

#[test]
fn test_jex_toml_content_minimal() {
    let mut app = app();
    app.name_input = "test-project".to_string();
    app.java_selected = 3;
    app.build_selected = 1;
    let content = app.build_jex_toml_content();
    assert!(content.contains("name = \"test-project\""));
    assert!(content.contains("java = \"21\""));
    assert!(content.contains("build_tool = \"maven\""));
    assert!(!content.contains("[dependencies]"));
}

#[test]
fn test_jex_toml_content_with_deps() {
    let mut app = app();
    app.name_input = "myapp".to_string();
    app.java_selected = 2;
    app.build_selected = 0;
    app.deps_selected[0] = true;
    app.deps_selected[1] = true;
    let content = app.build_jex_toml_content();
    assert!(content.contains("[dependencies]"));
    assert!(content.contains("org.junit.jupiter:junit-jupiter-api"));
    assert!(content.contains("com.google.code.gson:gson"));
    assert!(!content.contains("build_tool"));
}

#[test]
fn test_step_from_index() {
    assert_eq!(Step::from_index(0), Step::Name);
    assert_eq!(Step::from_index(4), Step::Preview);
    assert_eq!(Step::from_index(99), Step::Preview);
}

#[test]
fn test_max_cursor_values() {
    let mut app = app();
    app.current_step = 1;
    assert_eq!(app.max_cursor(), 4 - 1);
    app.current_step = 2;
    assert_eq!(app.max_cursor(), 3 - 1);
    app.current_step = 3;
    assert_eq!(app.max_cursor(), 7 - 1);
}

#[test]
fn test_move_up_down_limits() {
    let mut app = app();
    app.current_step = 1;
    app.step_cursor = 0;
    app.move_up();
    assert_eq!(app.step_cursor, 0);
    app.move_down();
    assert_eq!(app.step_cursor, 1);
    let max = app.max_cursor();
    app.step_cursor = max;
    app.move_down();
    assert_eq!(app.step_cursor, max);
}

#[test]
fn wizard_tables() {
    assert_eq!(java_version_value(3), "21");
    assert_eq!(build_tool_value(2), "gradle");
    assert_eq!(common_dep(1).1, "com.google.code.gson");
    assert_eq!(default_project_name(Some("proj".to_string())), "proj");
}

#[test]
fn keys_drive_the_wizard_to_confirmation() {
    let mut app = App::new("x".to_string());
    assert_eq!(app.handle_key(WizardKey::Enter), KeyOutcome::Continue);
    assert_eq!(app.current_step, 1);
    app.handle_key(WizardKey::Down);
    app.handle_key(WizardKey::Enter);
    assert_eq!(app.current_step, 2);
    app.handle_key(WizardKey::Enter);
    app.handle_key(WizardKey::Char(' '));
    app.handle_key(WizardKey::Enter);
    assert_eq!(app.current_step, 4);
    match app.handle_key(WizardKey::Enter) {
        KeyOutcome::Confirmed(t) => assert!(t.contains("name = \"x\"")),
        other => panic!("unexpected {:?}", other),
    }
    assert!(app.confirmed);
}

#[test]
fn quit_key_cancels() {
    let mut app = App::new("x".to_string());
    assert_eq!(app.handle_key(WizardKey::Char('q')), KeyOutcome::Cancelled);
    assert!(app.cancelled);
}

#[test]
fn wizard_choice_labels() {
    assert_eq!(jex_core::init_wizard::java_version_label(3), "Java 21 (LTS, recommended)");
    assert_eq!(jex_core::init_wizard::build_tool_label(1), "Apache Maven");
    assert_eq!(jex_core::init_wizard::common_dep_name(6), "Jackson Databind");
}

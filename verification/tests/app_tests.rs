use cmake_runner::action::Action;
use cmake_runner::app::{App, Effect, KeyCode, KeyEvent, KeyModifier};
use cmake_runner::layout::{pane_layout, OutputBorder, PaneRect};
use cmake_runner::list_box::BorderKind;
use cmake_runner::project::Project;
use cmake_runner::runner::{OutputChunk, RunnerMsg, StreamSource};

fn key(code: KeyCode) -> KeyEvent {
    KeyEvent { code, modifier: KeyModifier::Plain }
}

fn modified(code: KeyCode, modifier: KeyModifier) -> KeyEvent {
    KeyEvent { code, modifier }
}

fn app_with_targets() -> App {
    let mut app = App::new(String::from("/tmp/project"));
    app.set_projects(vec![
        Project { target: String::from("app1"), file_name: String::from("app1_bin") },
        Project { target: String::from("app2"), file_name: String::from("") },
    ]);
    app
}

#[test]
fn new_app_starts_idle_with_three_actions() {
    let app = App::new(String::from("."));
    assert!(app.projects.active);
    assert!(!app.actions.active);
    assert_eq!(app.actions.list.items, vec![Action::Run, Action::Build, Action::Debug]);
    assert_eq!(app.actions.list.state.selected, Some(0));
    assert!(app.projects.list.items.is_empty());
    assert!(app.output.is_empty());
    assert!(!app.exit);
    assert!(!app.input);
}

#[test]
fn focus_toggle_flips_both_panes() {
    let mut app = app_with_targets();
    let eff = app.handle_key_event(key(KeyCode::Char('a')));
    assert!(matches!(eff, Effect::Idle));
    assert!(!app.projects.active);
    assert!(app.actions.active);
    app.handle_key_event(key(KeyCode::Char('a')));
    assert!(app.projects.active);
    assert!(!app.actions.active);
}

#[test]
fn navigation_moves_the_active_cursor_cyclically() {
    let mut app = app_with_targets();
    assert_eq!(app.projects.list.state.selected, Some(0));
    app.handle_key_event(key(KeyCode::Down));
    assert_eq!(app.projects.list.state.selected, Some(1));
    app.handle_key_event(key(KeyCode::Down));
    assert_eq!(app.projects.list.state.selected, Some(0));
    app.handle_key_event(key(KeyCode::Up));
    assert_eq!(app.projects.list.state.selected, Some(1));
    // The inactive pane's cursor did not move.
    assert_eq!(app.actions.list.state.selected, Some(0));
}

#[test]
fn enter_starts_an_invocation_and_clears_the_log() {
    let mut app = app_with_targets();
    app.push_message(RunnerMsg::Chunk(OutputChunk::Separator));
    assert_eq!(app.output.len(), 1);
    let eff = app.handle_key_event(key(KeyCode::Enter));
    match eff {
        Effect::Start { action, project } => {
            assert_eq!(action, Action::Run);
            assert_eq!(project.target, "app1");
        },
        _ => panic!("expected an invocation to start"),
    }
    assert!(app.output.is_empty());
    assert!(app.in_sink);
}

#[test]
fn enter_without_targets_does_nothing() {
    let mut app = App::new(String::from("."));
    let eff = app.handle_key_event(key(KeyCode::Enter));
    assert!(matches!(eff, Effect::Idle));
    assert!(!app.in_sink);
}

#[test]
fn quit_combination_sets_the_exit_flag() {
    let mut app = app_with_targets();
    let eff = app.handle_key_event(modified(KeyCode::Char('c'), KeyModifier::Control));
    assert!(matches!(eff, Effect::Idle));
    assert!(app.exit);
}

#[test]
fn plain_c_does_not_quit() {
    let mut app = app_with_targets();
    app.handle_key_event(key(KeyCode::Char('c')));
    assert!(!app.exit);
}

#[test]
fn refresh_key_asks_for_a_reload() {
    let mut app = app_with_targets();
    let eff = app.handle_key_event(modified(KeyCode::Char('r'), KeyModifier::Shift));
    assert!(matches!(eff, Effect::Refresh));
}

#[test]
fn scroll_keys_move_the_offset_and_stop_at_zero() {
    let mut app = app_with_targets();
    app.handle_key_event(key(KeyCode::Char('j')));
    app.handle_key_event(key(KeyCode::Char('j')));
    assert_eq!(app.offset, 2);
    app.handle_key_event(key(KeyCode::Char('k')));
    app.handle_key_event(key(KeyCode::Char('k')));
    app.handle_key_event(key(KeyCode::Char('k')));
    assert_eq!(app.offset, 0);
}

#[test]
fn input_mode_forwards_text_and_echoes_it() {
    let mut app = app_with_targets();
    app.handle_key_event(key(KeyCode::Enter));
    app.push_message(RunnerMsg::Chunk(OutputChunk::Stream {
        source: StreamSource::Stdout,
        bytes: b"> ".to_vec(),
    }));
    app.handle_key_event(modified(KeyCode::Char('i'), KeyModifier::Alt));
    assert!(app.input);

    let eff = app.handle_key_event(key(KeyCode::Char('x')));
    match eff {
        Effect::Forward { text } => assert_eq!(text, "x"),
        _ => panic!("expected the key to be forwarded"),
    }
    assert_eq!(app.output.len(), 2);
    match &app.output[1] {
        OutputChunk::Echo { text } => assert_eq!(text, "x"),
        _ => panic!("expected an echo chunk"),
    }

    let eff = app.handle_key_event(key(KeyCode::Enter));
    match eff {
        Effect::Forward { text } => assert_eq!(text, "\n"),
        _ => panic!("expected the enter key to be forwarded"),
    }
}

#[test]
fn input_mode_scrolls_with_control_keys_instead_of_forwarding() {
    let mut app = app_with_targets();
    app.handle_key_event(key(KeyCode::Enter));
    app.handle_key_event(modified(KeyCode::Char('i'), KeyModifier::Alt));
    let eff = app.handle_key_event(modified(KeyCode::Char('j'), KeyModifier::Control));
    assert!(matches!(eff, Effect::Idle));
    assert_eq!(app.offset, 1);
    let eff = app.handle_key_event(modified(KeyCode::Char('k'), KeyModifier::Control));
    assert!(matches!(eff, Effect::Idle));
    assert_eq!(app.offset, 0);
}

#[test]
fn input_mode_toggle_drops_the_sink() {
    let mut app = app_with_targets();
    app.handle_key_event(key(KeyCode::Enter));
    app.handle_key_event(modified(KeyCode::Char('i'), KeyModifier::Alt));
    assert!(app.input && app.in_sink);
    let eff = app.handle_key_event(modified(KeyCode::Char('i'), KeyModifier::Alt));
    assert!(matches!(eff, Effect::StopForwarding));
    assert!(!app.input && !app.in_sink);
}

#[test]
fn input_mode_without_sink_ignores_keys() {
    let mut app = app_with_targets();
    app.handle_key_event(modified(KeyCode::Char('i'), KeyModifier::Alt));
    assert!(app.input && !app.in_sink);
    let eff = app.handle_key_event(key(KeyCode::Char('x')));
    assert!(matches!(eff, Effect::Idle));
    assert!(app.output.is_empty());
}

#[test]
fn navigation_keys_are_not_interpreted_while_forwarding() {
    let mut app = app_with_targets();
    app.handle_key_event(key(KeyCode::Enter));
    app.handle_key_event(modified(KeyCode::Char('i'), KeyModifier::Alt));
    let before = app.projects.list.state.selected;
    app.handle_key_event(key(KeyCode::Down));
    assert_eq!(app.projects.list.state.selected, before);
}

#[test]
fn error_messages_land_in_the_log_as_notices() {
    let mut app = app_with_targets();
    app.push_message(RunnerMsg::Error(String::from("boom")));
    match &app.output[0] {
        OutputChunk::Notice { message } => assert_eq!(message, "boom"),
        _ => panic!("expected a notice chunk"),
    }
}

#[test]
fn pane_layout_splits_the_region() {
    let area = PaneRect { x: 0, y: 0, width: 100, height: 41 };
    let (projects, actions, output) = pane_layout(&area);
    assert_eq!(projects, PaneRect { x: 1, y: 0, width: 25, height: 20 });
    assert_eq!(actions, PaneRect { x: 1, y: 20, width: 25, height: 20 });
    assert_eq!(output, PaneRect { x: 26, y: 0, width: 74, height: 40 });
}

#[test]
fn render_model_describes_the_frame() {
    let mut app = app_with_targets();
    let area = PaneRect { x: 0, y: 0, width: 80, height: 24 };
    let frame = app.render_model(&area);
    assert_eq!(frame.projects.title, " Projects ");
    assert_eq!(frame.projects.border, BorderKind::Active);
    assert_eq!(frame.projects.labels, vec!["app1", "app2"]);
    assert_eq!(frame.projects.selected, Some(0));
    assert_eq!(frame.actions.title, " Actions ");
    assert_eq!(frame.actions.border, BorderKind::Inactive);
    assert_eq!(frame.actions.labels, vec!["Run", "Build", "Debug"]);
    assert_eq!(frame.output_border, OutputBorder::Normal);
    assert_eq!(frame.scroll, 0);

    app.handle_key_event(key(KeyCode::Enter));
    app.handle_key_event(modified(KeyCode::Char('i'), KeyModifier::Alt));
    let frame = app.render_model(&area);
    assert_eq!(frame.output_border, OutputBorder::Forwarding);
}

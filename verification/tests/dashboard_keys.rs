use zkteco_bridge::dashboard::{
    command_decision, handle_key, log_window_bounds, should_run_attached, split_command_line, BridgeAction,
    CommandDecision, DashState, Key, KeyEffect, Mode, Page,
};

#[test]
fn command_line_splitter_keeps_quoted_paths_together() {
    let words = split_command_line("bridge config show --path \"/tmp/my config.json\"").expect("split");
    assert_eq!(words, ["bridge", "config", "show", "--path", "/tmp/my config.json"]);
}

#[test]
fn interactive_commands_are_attached_to_the_real_terminal() {
    assert!(should_run_attached(&["uninstall".into()]));
    assert!(should_run_attached(&["update".into()]));
    assert!(!should_run_attached(&["update".into(), "--check".into()]));
}

#[test]
fn log_window_defaults_to_newest_lines() {
    assert_eq!(log_window_bounds(100, 10, 0), (90, 100, 0, 90));
    assert_eq!(log_window_bounds(5, 10, 0), (0, 5, 0, 0));
}

#[test]
fn log_window_scrolls_older_and_clamps() {
    assert_eq!(log_window_bounds(100, 10, 7), (83, 93, 7, 90));
    assert_eq!(log_window_bounds(100, 10, usize::MAX), (0, 10, 90, 90));
}

#[test]
fn commands_map_to_dashboard_actions() {
    assert_eq!(command_decision("fbsy start"), CommandDecision::StartBridge);
    assert_eq!(command_decision("q"), CommandDecision::Quit);
    assert_eq!(command_decision("fbsy"), CommandDecision::Status("type a command, for example: start".into()));
    assert_eq!(command_decision("frob"), CommandDecision::Status("error: unrecognized command 'frob'".into()));
    assert_eq!(command_decision("update --check"), CommandDecision::Capture(vec!["update".into(), "--check".into()]));
    assert_eq!(command_decision("uninstall"), CommandDecision::Attach(vec!["uninstall".into()]));
}

#[test]
fn escape_returns_home_and_quits_from_home() {
    let mut st = DashState::new();
    assert_eq!(handle_key(&mut st, Key::Char('?')), KeyEffect::Nothing);
    assert_eq!(st.page, Page::Help);
    handle_key(&mut st, Key::Esc);
    assert_eq!(st.page, Page::Home);
    handle_key(&mut st, Key::Tab);
    assert_eq!(st.page, Page::Output);
    handle_key(&mut st, Key::Esc);
    assert_eq!(st.page, Page::Home);
    assert!(!st.quit);
    handle_key(&mut st, Key::Esc);
    assert!(st.quit);
}

#[test]
fn typing_a_command_hands_over_the_trimmed_line() {
    let mut st = DashState::new();
    assert_eq!(handle_key(&mut st, Key::Char(':')), KeyEffect::Nothing);
    assert_eq!(st.mode, Mode::Command);
    for c in " sync ".chars() {
        handle_key(&mut st, Key::Char(c));
    }
    handle_key(&mut st, Key::Backspace);
    assert_eq!(handle_key(&mut st, Key::Enter), KeyEffect::Command("sync".into()));
    assert_eq!(st.mode, Mode::Normal);
    assert!(st.input.is_empty());
}

#[test]
fn shortcuts_run_bridge_actions_on_the_output_page() {
    let mut st = DashState::new();
    assert_eq!(handle_key(&mut st, Key::Char('s')), KeyEffect::Action(BridgeAction::Start));
    assert_eq!(st.page, Page::Output);
    handle_key(&mut st, Key::Up);
    handle_key(&mut st, Key::PageUp);
    assert_eq!(st.log_scroll, 11);
    handle_key(&mut st, Key::End);
    assert_eq!(st.log_scroll, 0);
    handle_key(&mut st, Key::Down);
    assert_eq!(st.log_scroll, 0);
    let mut home = DashState::new();
    handle_key(&mut home, Key::Char('z'));
    assert_eq!(home.mode, Mode::Command);
    assert_eq!(home.input, vec!['z']);
}

use rust_esp_starter::command::{
    dispatch, format_entry, greet, parse_command, report_listing, report_system_info,
    resolve_path, Command, DirEntry, IoError, Query,
};
use rust_esp_starter::console::SharedConsoleState;

fn strings(items: &[&str]) -> Vec<String> {
    items.iter().map(|s| s.to_string()).collect()
}

fn filled(n: usize) -> SharedConsoleState {
    let mut state = SharedConsoleState::new();
    for i in 0..n {
        state.add_message(format!("line{}", i));
    }
    state
}

#[test]
fn ls_of_a_missing_directory_reports_one_error_line() {
    let mut state = SharedConsoleState::new();
    let query = dispatch("ls missing", &mut state);
    assert_eq!(query, Query::ListDir { path: "/spiffs/missing".to_string() });
    let before = state.snapshot();
    assert_eq!(before, strings(&["> ls missing", "Listing /spiffs/missing"]));
    report_listing(&mut state, Err(IoError::NotFound));
    let after = state.snapshot();
    assert_eq!(after.len(), before.len() + 1);
    assert_eq!(&after[..before.len()], &before[..]);
    assert_eq!(after[before.len()], "ls error: entity not found");
    assert!(!after.iter().any(|line| line.starts_with("- ")));
}

#[test]
fn unknown_command_adds_echo_and_answer() {
    let mut state = SharedConsoleState::new();
    let query = dispatch("unknowncmd", &mut state);
    assert_eq!(query, Query::Nothing);
    assert_eq!(state.snapshot(), strings(&["> unknowncmd", "Unknown: unknowncmd"]));
}

#[test]
fn clear_leaves_only_the_confirmation() {
    let mut state = filled(5);
    assert_eq!(state.len(), 5);
    let query = dispatch("clear", &mut state);
    assert_eq!(query, Query::Nothing);
    assert_eq!(state.snapshot(), strings(&["Cleared"]));
    assert!(state.redraw_pending());
}

#[test]
fn clear_on_a_full_log() {
    let mut state = filled(18);
    dispatch("  clear  ", &mut state);
    assert_eq!(state.snapshot(), strings(&["Cleared"]));
}

#[test]
fn empty_lines_are_ignored() {
    let mut state = filled(2);
    state.take_redraw();
    for line in ["", "   ", "\t\r\n"] {
        assert_eq!(dispatch(line, &mut state), Query::Nothing);
    }
    assert_eq!(state.snapshot(), strings(&["line0", "line1"]));
    assert!(!state.redraw_pending());
}

#[test]
fn help_shows_the_usage() {
    let mut state = SharedConsoleState::new();
    state.take_redraw();
    assert_eq!(dispatch("help\n", &mut state), Query::Nothing);
    assert_eq!(state.snapshot(), strings(&["> help", "help, info, clear, ls [path]"]));
    assert!(state.take_redraw());
}

#[test]
fn commands_are_case_sensitive_and_exact() {
    let mut state = SharedConsoleState::new();
    dispatch("Help", &mut state);
    dispatch("helpme", &mut state);
    assert_eq!(
        state.snapshot(),
        strings(&["> Help", "Unknown: Help", "> helpme", "Unknown: helpme"])
    );
}

#[test]
fn only_the_first_token_selects() {
    let mut state = SharedConsoleState::new();
    assert_eq!(dispatch("help clear ls", &mut state), Query::Nothing);
    assert_eq!(state.snapshot(), strings(&["> help clear ls", "help, info, clear, ls [path]"]));
}

#[test]
fn info_waits_for_its_answer() {
    let mut state = SharedConsoleState::new();
    assert_eq!(dispatch("info", &mut state), Query::SystemInfo);
    assert_eq!(state.snapshot(), strings(&["> info"]));
    report_system_info(&mut state, Some("v5.1.2".to_string()), 123456);
    assert_eq!(state.snapshot(), strings(&["> info", "IDF: v5.1.2", "Heap: 123456 bytes"]));
}

#[test]
fn info_without_version_shows_unknown() {
    let mut state = SharedConsoleState::new();
    state.take_redraw();
    report_system_info(&mut state, None, 0);
    assert_eq!(state.snapshot(), strings(&["IDF: unknown", "Heap: 0 bytes"]));
    assert!(state.redraw_pending());
}

#[test]
fn ls_without_argument_lists_the_root() {
    let mut state = SharedConsoleState::new();
    let query = dispatch("ls", &mut state);
    assert_eq!(query, Query::ListDir { path: "/spiffs".to_string() });
    assert_eq!(state.snapshot(), strings(&["> ls", "Listing /spiffs"]));
}

#[test]
fn listing_shows_one_line_per_entry() {
    let mut state = SharedConsoleState::new();
    let entries = vec![
        DirEntry { name: "notes.txt".to_string(), is_dir: false, size_bytes: 1024 },
        DirEntry { name: "logs".to_string(), is_dir: true, size_bytes: 0 },
        DirEntry { name: "empty".to_string(), is_dir: false, size_bytes: 0 },
    ];
    report_listing(&mut state, Ok(entries));
    assert_eq!(
        state.snapshot(),
        strings(&["- notes.txt (1024B)", "- logs ([DIR])", "- empty (0B)"])
    );
}

#[test]
fn listing_of_an_empty_directory_says_so() {
    let mut state = SharedConsoleState::new();
    state.take_redraw();
    report_listing(&mut state, Ok(Vec::new()));
    assert_eq!(state.snapshot(), strings(&["(empty)"]));
    assert!(state.redraw_pending());
}

#[test]
fn each_error_has_its_line() {
    let mut state = SharedConsoleState::new();
    report_listing(&mut state, Err(IoError::NotFound));
    report_listing(&mut state, Err(IoError::PermissionDenied));
    report_listing(&mut state, Err(IoError::Other("disk on fire".to_string())));
    assert_eq!(
        state.snapshot(),
        strings(&[
            "ls error: entity not found",
            "ls error: permission denied",
            "ls error: disk on fire"
        ])
    );
    assert_eq!(IoError::NotFound.message(), "entity not found");
    assert_eq!(IoError::PermissionDenied.message(), "permission denied");
    assert_eq!(IoError::Other("x".to_string()).message(), "x");
}

#[test]
fn long_answers_wrap() {
    let mut state = SharedConsoleState::with_limits(18, 10);
    report_listing(&mut state, Err(IoError::NotFound));
    assert_eq!(state.snapshot(), strings(&["ls error:", "entity not", "found"]));
}

#[test]
fn parse_command_reads_the_first_word() {
    assert_eq!(parse_command(""), None);
    assert_eq!(parse_command("  \t"), None);
    assert_eq!(parse_command("help"), Some(Command::Help));
    assert_eq!(parse_command(" info "), Some(Command::Info));
    assert_eq!(parse_command("clear now"), Some(Command::Clear));
    assert_eq!(parse_command("ls"), Some(Command::Ls { arg: None }));
    assert_eq!(
        parse_command("ls  data  extra"),
        Some(Command::Ls { arg: Some("data".to_string()) })
    );
    assert_eq!(
        parse_command("reboot now"),
        Some(Command::Unknown { token: "reboot".to_string() })
    );
}

#[test]
fn resolve_path_joins_below_the_root() {
    assert_eq!(resolve_path(&None), "/spiffs");
    assert_eq!(resolve_path(&Some("a/b".to_string())), "/spiffs/a/b");
}

#[test]
fn format_entry_shows_name_and_size() {
    let file = DirEntry { name: "a".to_string(), is_dir: false, size_bytes: 42 };
    let dir = DirEntry { name: "d".to_string(), is_dir: true, size_bytes: 42 };
    assert_eq!(format_entry(&file), "- a (42B)");
    assert_eq!(format_entry(&dir), "- d ([DIR])");
}

#[test]
fn greet_shows_the_banner() {
    let mut state = SharedConsoleState::new();
    greet(&mut state);
    assert_eq!(state.snapshot(), strings(&["Type 'help' for commands."]));
}

#[test]
fn echo_is_trimmed() {
    let mut state = SharedConsoleState::new();
    dispatch("   frobnicate   \r\n", &mut state);
    assert_eq!(state.snapshot(), strings(&["> frobnicate", "Unknown: frobnicate"]));
}

use chelotype::backend::{
    available_scroll_lines, display_limits_from_scrollbar, fish_var_encode, headless_shell_command,
    inject_input_cursor_target_file, input_bridge_operation_path, input_bridge_sidecar_path,
    replace_range_payload, spawn_environment, wants_input_cursor_target, DisplayLimits, ScreenSize,
    ScreenSizeError,
};
use chelotype::text::replace_all_str;

#[test]
fn fish_var_encoding_preserves_empty_unicode_and_control_bytes() {
    assert_eq!(fish_var_encode(""), "x");
    assert_eq!(fish_var_encode("_"), "x__");
    assert_eq!(fish_var_encode("\n\n"), "x_0A_0A_");
    assert_eq!(fish_var_encode("好😀"), "x_E5_A5_BD_F0_9F_98_80_");
}

#[test]
fn fish_var_encoding_ends_escape_runs_at_plain_characters() {
    assert_eq!(fish_var_encode("a b_c"), "xa_20_b__c");
}

#[test]
fn screen_size_refuses_zero_sides() {
    assert_eq!(ScreenSize::new(0, 24), Err(ScreenSizeError::ZeroSize));
    assert_eq!(ScreenSize::new(80, 0), Err(ScreenSizeError::ZeroSize));
    assert_eq!(ScreenSize::new(80, 24), Ok(ScreenSize { cols: 80, rows: 24 }));
    assert_eq!(ScreenSize::default(), ScreenSize { cols: 120, rows: 36 });
}

#[test]
fn sidecar_path_appends_suffix() {
    assert_eq!(input_bridge_sidecar_path("/tmp/target", ".cursor-1"), "/tmp/target.cursor-1");
}

#[test]
fn operation_files_carry_a_twenty_digit_counter() {
    assert_eq!(
        input_bridge_operation_path("/tmp/target", "cursor", 7),
        "/tmp/target.cursor-00000000000000000007"
    );
    assert_eq!(
        input_bridge_operation_path("/tmp/target", "replace", u64::MAX),
        "/tmp/target.replace-18446744073709551615"
    );
}

#[test]
fn replace_payload_is_tab_separated_with_encoded_text() {
    assert_eq!(replace_range_payload(3, 9, "a b"), "3\t9\txa_20_b");
    assert_eq!(replace_range_payload(0, 0, ""), "0\t0\tx");
}

#[test]
fn display_limits_count_from_the_bottom_and_saturate() {
    assert_eq!(
        display_limits_from_scrollbar(100, 24, 70),
        DisplayLimits { offset: 6, max_offset: 76 }
    );
    assert_eq!(
        display_limits_from_scrollbar(10, 24, 0),
        DisplayLimits { offset: 0, max_offset: 0 }
    );
    assert_eq!(
        display_limits_from_scrollbar(100, 24, 90),
        DisplayLimits { offset: 0, max_offset: 76 }
    );
}

#[test]
fn scrolling_up_is_bounded_by_history_and_down_by_the_offset() {
    let limits = DisplayLimits { offset: 6, max_offset: 76 };
    assert_eq!(available_scroll_lines(3, limits), 70);
    assert_eq!(available_scroll_lines(-3, limits), 6);
    assert_eq!(available_scroll_lines(0, limits), 0);
}

#[test]
fn headless_shell_is_a_quiet_zsh() {
    let command = headless_shell_command();
    assert_eq!(command.argv, vec!["/usr/bin/zsh", "-f", "-i"]);
    assert!(command.env.contains(&("TERM".to_string(), "xterm-256color".to_string())));
    assert!(command.env.contains(&("HISTFILE".to_string(), "/dev/null".to_string())));
    assert_eq!(command.env.len(), 6);
}

#[test]
fn cursor_target_path_replaces_every_placeholder() {
    let mut argv = vec![
        "env".to_string(),
        "TARGET=@T@".to_string(),
        "--env=TARGET=@T@ @T@".to_string(),
    ];
    inject_input_cursor_target_file(&mut argv, "@T@", "/tmp/c");
    assert_eq!(argv, vec!["env", "TARGET=/tmp/c", "--env=TARGET=/tmp/c /tmp/c"]);
}

#[test]
fn replace_matches_str_replace() {
    for (s, p, w) in [("aaaa", "aa", "b"), ("abcabc", "bc", ""), ("xyz", "q", "r"), ("", "a", "b")] {
        assert_eq!(replace_all_str(s, p, w), s.replace(p, w));
    }
}

#[test]
fn spawned_shells_learn_the_terminal_type_and_size() {
    let env = spawn_environment(ScreenSize { cols: 80, rows: 24 });
    let pairs: Vec<(&str, &str)> = env.iter().map(|(k, v)| (k.as_str(), v.as_str())).collect();
    assert_eq!(
        pairs,
        vec![("TERM", "xterm-256color"), ("COLORTERM", "truecolor"), ("COLUMNS", "80"), ("LINES", "24")]
    );
}

#[test]
fn cursor_target_is_wanted_only_when_the_bridge_is_marked() {
    let pair = |k: &str, v: &str| (k.to_string(), v.to_string());
    assert!(wants_input_cursor_target(&vec![pair("BRIDGE", "fish")], "BRIDGE", "fish"));
    assert!(!wants_input_cursor_target(&vec![pair("BRIDGE", "zsh")], "BRIDGE", "fish"));
    assert!(!wants_input_cursor_target(&vec![], "BRIDGE", "fish"));
    assert!(wants_input_cursor_target(
        &vec![pair("BRIDGE", "zsh"), pair("OTHER", "x"), pair("BRIDGE", "fish")],
        "BRIDGE",
        "fish"
    ));
    assert!(!wants_input_cursor_target(
        &vec![pair("BRIDGE", "fish"), pair("BRIDGE", "no")],
        "BRIDGE",
        "fish"
    ));
}

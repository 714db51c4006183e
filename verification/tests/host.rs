use chelotype::backend::ScreenSize;
use chelotype::host::{command_argv, file_check_path, host_path, trimmed_value};

#[test]
fn absolute_host_paths_are_mapped_under_flatpak_host_root() {
    assert_eq!(
        host_path("/usr/bin/fish").as_deref(),
        Some("/var/run/host/usr/bin/fish")
    );
    assert_eq!(host_path("fish"), None);
}

#[test]
fn command_builder_targets_program_directly_outside_flatpak() {
    assert_eq!(command_argv("/bin/sh", None, false), vec!["/bin/sh"]);
}

#[test]
fn command_builder_uses_flatpak_spawn_inside_flatpak() {
    assert_eq!(
        command_argv("/bin/sh", None, true),
        vec!["flatpak-spawn", "--host", "/bin/sh"]
    );
}

#[test]
fn command_builder_exports_terminal_size_through_flatpak_spawn() {
    assert_eq!(
        command_argv(
            "/bin/sh",
            Some(ScreenSize::new(240, 50).expect("valid size")),
            true
        ),
        vec![
            "flatpak-spawn",
            "--host",
            "--env=COLUMNS=240",
            "--env=LINES=50",
            "/bin/sh"
        ]
    );
}

#[test]
fn environment_values_are_trimmed_and_blank_ones_dropped() {
    assert_eq!(trimmed_value("  /bin/fish\n".to_string()), Some("/bin/fish".to_string()));
    assert_eq!(trimmed_value(" \t\n".to_string()), None);
    assert_eq!(file_check_path("relative", true), None);
    assert_eq!(file_check_path("relative", false), Some("relative".to_string()));
    assert_eq!(host_path("//etc"), Some("/etc".to_string()));
}

use chelotype::config::{
    config_dir, config_path, cursor_animation_duration_ms, cursor_animation_enabled, cursor_shape,
    cursor_style, read_bool, read_u32, read_value, smooth_scrolling_enabled, wheel_profile_path,
    write_value, CursorShape, CursorStyle, DEFAULT_CURSOR_ANIMATION_DURATION_MS,
};

#[test]
fn config_writer_updates_one_key_without_dropping_others() {
    let mut config = String::new();
    config = write_value(&config, "font_size_tenths", "150");
    config = write_value(&config, "startup_launch_target", "toolbox:fedora-toolbox-latest");
    config = write_value(&config, "font_size_tenths", "160");

    assert_eq!(read_value(&config, "font_size_tenths").as_deref(), Some("160"));
    assert_eq!(
        read_value(&config, "startup_launch_target").as_deref(),
        Some("toolbox:fedora-toolbox-latest")
    );
    assert_eq!(
        config,
        "font_size_tenths=160\nstartup_launch_target=toolbox:fedora-toolbox-latest\n"
    );
}

#[test]
fn cursor_style_defaults_to_neovide_and_keeps_legacy_animation_config() {
    let mut config = String::new();
    assert!(cursor_animation_enabled(&config));
    assert_eq!(cursor_style(&config), CursorStyle::Neovide);
    config = write_value(&config, "cursor_animation", "off");
    assert!(!cursor_animation_enabled(&config));
    assert_eq!(cursor_style(&config), CursorStyle::Steady);
    config = write_value(&config, "cursor_animation", "on");
    assert!(cursor_animation_enabled(&config));
    assert_eq!(cursor_style(&config), CursorStyle::Smooth);
    config = write_value(&config, "cursor_style", "smear");
    assert!(cursor_animation_enabled(&config));
    assert_eq!(cursor_style(&config), CursorStyle::Smear);
    config = write_value(&config, "cursor_style", "neovide");
    assert_eq!(cursor_style(&config), CursorStyle::Neovide);
    config = write_value(&config, "cursor_style", "steady");
    assert!(!cursor_animation_enabled(&config));
    assert_eq!(cursor_style(&config), CursorStyle::Steady);
}

#[test]
fn cursor_shape_defaults_to_bar_and_reads_block_config() {
    let mut config = String::new();
    assert_eq!(cursor_shape(&config), CursorShape::Bar);
    config = write_value(&config, "cursor_shape", "block");
    assert_eq!(cursor_shape(&config), CursorShape::Block);
    config = write_value(&config, "cursor_shape", "bar");
    assert_eq!(cursor_shape(&config), CursorShape::Bar);
    config = write_value(&config, "cursor_shape", "unknown");
    assert_eq!(cursor_shape(&config), CursorShape::Bar);
}

#[test]
fn smooth_scrolling_defaults_to_enabled_and_reads_config() {
    let mut config = String::new();
    assert!(smooth_scrolling_enabled(&config));
    config = write_value(&config, "smooth_scrolling", "off");
    assert!(!smooth_scrolling_enabled(&config));
    config = write_value(&config, "smooth_scrolling", "on");
    assert!(smooth_scrolling_enabled(&config));
    config = write_value(&config, "smooth_scrolling", "unexpected");
    assert!(smooth_scrolling_enabled(&config));
}

#[test]
fn cursor_animation_parameters_clamp_config_values() {
    let mut config = String::new();
    assert_eq!(
        cursor_animation_duration_ms(&config),
        DEFAULT_CURSOR_ANIMATION_DURATION_MS
    );
    config = write_value(&config, "cursor_animation_duration_ms", "15");
    assert_eq!(cursor_animation_duration_ms(&config), 40);
    config = write_value(&config, "cursor_animation_duration_ms", "900");
    assert_eq!(cursor_animation_duration_ms(&config), 500);
    config = write_value(&config, "cursor_animation_duration_ms", "+90");
    assert_eq!(cursor_animation_duration_ms(&config), 90);
    config = write_value(&config, "cursor_animation_duration_ms", "ninety");
    assert_eq!(cursor_animation_duration_ms(&config), 150);
}

#[test]
fn reading_trims_values_and_skips_lines_without_equals() {
    let config = "# comment\r\nkey = spaced value \r\nflag=1\nother=x=y";
    assert_eq!(read_value(config, "key ").as_deref(), Some("spaced value"));
    assert_eq!(read_value(config, "other").as_deref(), Some("x=y"));
    assert_eq!(read_value(config, "missing"), None);
    assert!(read_bool(config, "flag", false));
    assert_eq!(read_u32(config, "flag", 9, 0, 5), 1);
    assert_eq!(
        write_value(config, "flag", "0"),
        "key = spaced value \nflag=0\nother=x=y\n"
    );
}

#[test]
fn config_directory_follows_environment_precedence() {
    assert_eq!(config_dir(Some("/cfg"), Some("/xdg"), Some("/home/u")), Some("/cfg".to_string()));
    assert_eq!(
        config_dir(None, Some("/xdg"), Some("/home/u")),
        Some("/xdg/chelotype".to_string())
    );
    assert_eq!(
        config_dir(None, None, Some("/home/u/")),
        Some("/home/u/.config/chelotype".to_string())
    );
    assert_eq!(config_dir(None, None, None), None);
    assert_eq!(config_path(Some("/cfg")), Some("/cfg/config".to_string()));
    assert_eq!(
        wheel_profile_path(Some("/cfg")),
        Some("/cfg/wheel-profile.tsv".to_string())
    );
}

#[test]
fn settings_indices_round_trip() {
    for style in [CursorStyle::Steady, CursorStyle::Smooth, CursorStyle::Smear, CursorStyle::Neovide] {
        assert_eq!(CursorStyle::from_selected_index(style.selected_index()), style);
        assert_eq!(CursorStyle::from_config_value(style.config_value()), Some(style));
    }
    assert_eq!(CursorStyle::from_selected_index(9), CursorStyle::Neovide);
    assert_eq!(CursorStyle::Smear.label(), "Smear");
    assert_eq!(CursorShape::from_selected_index(7), CursorShape::Bar);
    assert_eq!(CursorShape::Block.config_value(), "block");
    assert_eq!(CursorShape::from_config_value("block"), Some(CursorShape::Block));
}

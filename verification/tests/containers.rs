use chelotype::containers::{
    available_launch_targets, parse_podman_targets, parse_toolbox_list, remember_startup_launch_target,
    select_startup_launch_target, shell_quote, startup_launch_target, launch_working_directory,
    host_shell_command, shell_launch_for, shell_program, single_tab_launch_target_to_remember, LaunchCommand, LaunchTarget, PodmanContainer,
    ShellLaunch,
};

#[test]
fn parses_toolbox_table_names() {
    let output = "\
CONTAINER ID  CONTAINER NAME              CREATED       STATUS   IMAGE NAME
ca296c735b0d  fedora-toolbox-latest       5 months ago  exited   image
e861f5c4e141  fedora-toolbox-sha-b719027  7 months ago  running  image
";
    assert_eq!(
        parse_toolbox_list(output),
        vec!["fedora-toolbox-latest", "fedora-toolbox-sha-b719027"]
    );
}

#[test]
fn shell_quotes_container_names() {
    assert_eq!(shell_quote("fedora-toolbox"), "'fedora-toolbox'");
    assert_eq!(shell_quote("bad'name"), "'bad'\\''name'");
}

fn labels(pairs: &[(&str, &str)]) -> Vec<(String, String)> {
    pairs
        .iter()
        .map(|(key, value)| (key.to_string(), value.to_string()))
        .collect()
}

#[test]
fn parses_podman_json_with_ptyxis_label_priority() {
    let containers = vec![
        PodmanContainer {
            is_infra: Some(false),
            names: vec!["fedora-toolbox".to_string()],
            labels: labels(&[
                ("manager", "distrobox"),
                ("com.github.containers.toolbox", "true"),
                ("distrobox.unshare_groups", "0"),
            ]),
        },
        PodmanContainer {
            is_infra: Some(false),
            names: vec!["fedora-toolbox-raw".to_string()],
            labels: labels(&[("com.github.containers.toolbox", "true")]),
        },
        PodmanContainer {
            is_infra: Some(false),
            names: vec!["postgres".to_string()],
            labels: Vec::new(),
        },
        PodmanContainer {
            is_infra: Some(true),
            names: vec!["infra".to_string()],
            labels: Vec::new(),
        },
    ];

    assert_eq!(
        parse_podman_targets(&containers),
        vec![
            LaunchTarget::Distrobox {
                name: "fedora-toolbox".to_string(),
                has_unshared_groups: false,
            },
            LaunchTarget::Toolbox {
                name: "fedora-toolbox-raw".to_string(),
            },
            LaunchTarget::Podman {
                name: "postgres".to_string(),
            },
        ]
    );
}

#[test]
fn launch_target_ids_are_stable() {
    assert_eq!(LaunchTarget::Host.id(), "host");
    assert_eq!(
        LaunchTarget::Distrobox {
            name: "fedora-toolbox".to_string(),
            has_unshared_groups: false
        }
        .id(),
        "distrobox:fedora-toolbox"
    );
    assert_eq!(
        LaunchTarget::Toolbox {
            name: "fedora-toolbox-latest".to_string()
        }
        .id(),
        "toolbox:fedora-toolbox-latest"
    );
    assert_eq!(
        LaunchTarget::Podman {
            name: "postgres".to_string()
        }
        .id(),
        "podman:postgres"
    );
}

#[test]
fn startup_target_prefers_existing_remembered_container() {
    let targets = vec![
        LaunchTarget::Host,
        LaunchTarget::Toolbox {
            name: "fedora-toolbox-latest".to_string(),
        },
        LaunchTarget::Podman {
            name: "postgres".to_string(),
        },
    ];

    assert_eq!(
        select_startup_launch_target(&targets, Some("podman:postgres".to_string())),
        LaunchTarget::Podman {
            name: "postgres".to_string()
        }
    );
}

#[test]
fn startup_target_falls_back_to_first_container_before_host() {
    let targets = vec![
        LaunchTarget::Host,
        LaunchTarget::Toolbox {
            name: "fedora-toolbox-latest".to_string(),
        },
    ];

    assert_eq!(
        select_startup_launch_target(&targets, None),
        LaunchTarget::Toolbox {
            name: "fedora-toolbox-latest".to_string()
        }
    );
    assert_eq!(
        select_startup_launch_target(&targets, Some("podman:missing".to_string())),
        LaunchTarget::Toolbox {
            name: "fedora-toolbox-latest".to_string()
        }
    );
}

#[test]
fn startup_target_uses_host_when_no_container_exists() {
    assert_eq!(
        select_startup_launch_target(&[LaunchTarget::Host], None),
        LaunchTarget::Host
    );
}

#[test]
fn remembered_startup_target_is_chosen_on_next_start() {
    let targets = vec![
        LaunchTarget::Host,
        LaunchTarget::Toolbox {
            name: "fedora-toolbox-latest".to_string(),
        },
        LaunchTarget::Podman {
            name: "postgres".to_string(),
        },
    ];
    let config = remember_startup_launch_target("font_size_tenths=150\n", &targets[2]);
    assert_eq!(config, "font_size_tenths=150\nstartup_launch_target=podman:postgres\n");
    assert_eq!(startup_launch_target(&targets, &config), targets[2]);
    assert_eq!(startup_launch_target(&targets, ""), targets[1]);
}

#[test]
fn toolbox_containers_listed_by_podman_are_not_repeated() {
    let targets = available_launch_targets(
        vec!["shared".to_string(), "toolbox-only".to_string()],
        vec![LaunchTarget::Podman {
            name: "shared".to_string(),
        }],
    );
    assert_eq!(
        targets,
        vec![
            LaunchTarget::Host,
            LaunchTarget::Toolbox {
                name: "toolbox-only".to_string()
            },
            LaunchTarget::Podman {
                name: "shared".to_string()
            },
        ]
    );
}

#[test]
fn launch_directory_falls_back_to_home_for_blank_working_directory() {
    assert_eq!(
        launch_working_directory(Some("/work".to_string()), Some("/home/u".to_string())),
        Some("/work".to_string())
    );
    assert_eq!(
        launch_working_directory(Some("  ".to_string()), Some("/home/u".to_string())),
        Some("/home/u".to_string())
    );
    assert_eq!(launch_working_directory(None, None), None);
}

#[test]
fn launch_target_titles_name_the_host_and_containers() {
    assert_eq!(LaunchTarget::Host.title(), "My Computer");
    assert_eq!(
        LaunchTarget::Toolbox {
            name: "box".to_string()
        }
        .title(),
        "box"
    );
}

const BRIDGE_ENV: &str = "CHELOTYPE_INPUT_CURSOR_BRIDGE";
const BRIDGE_FISH: &str = "fish";
const TARGET_FILE_ENV: &str = "CHELOTYPE_INPUT_CURSOR_TARGET_FILE";
const TARGET_FILE_PLACEHOLDER: &str = "__CHELOTYPE_INPUT_CURSOR_TARGET__";

fn shell(argv: &[&str], command_line: &str, input_edit_bridge: bool) -> ShellLaunch {
    ShellLaunch {
        argv: argv.iter().map(|a| a.to_string()).collect(),
        command_line: command_line.to_string(),
        input_edit_bridge,
        bridge_env: BRIDGE_ENV.to_string(),
        bridge_value: BRIDGE_FISH.to_string(),
        target_file_env: TARGET_FILE_ENV.to_string(),
        target_file_placeholder: TARGET_FILE_PLACEHOLDER.to_string(),
    }
}

fn sh() -> ShellLaunch {
    shell(&["/bin/sh"], "'/bin/sh'", false)
}

fn fish() -> ShellLaunch {
    shell(
        &["/usr/bin/fish", "--init-command", "source /tmp/chelotype.fish"],
        "'/usr/bin/fish' '--init-command' 'source /tmp/chelotype.fish'",
        true,
    )
}

fn launch(
    target: LaunchTarget,
    is_flatpak: bool,
    user: Option<&str>,
    working_directory: Option<&str>,
    shell: &ShellLaunch,
) -> LaunchCommand {
    target
        .command_with_size(None, is_flatpak, user, working_directory, shell)
        .expect("container targets have a launch command")
}

#[test]
fn distrobox_launch_uses_distrobox_enter_without_root_podman_exec() {
    let command = launch(
        LaunchTarget::Distrobox {
            name: "fedora-toolbox".to_string(),
            has_unshared_groups: false,
        },
        false,
        None,
        Some("/var/home/chelokot"),
        &sh(),
    );
    let argv = command.argv;

    assert_eq!(argv[0], "distrobox");
    assert_eq!(argv[1], "enter");
    assert!(argv.contains(&"--no-tty".to_string()));
    assert!(argv.contains(&"fedora-toolbox".to_string()));
    assert!(argv.contains(&"--additional-flags".to_string()));
    assert!(argv.contains(&"--tty".to_string()));
    assert!(argv.contains(&"--".to_string()));
    assert!(argv.contains(&"env".to_string()));
    assert!(argv.contains(&"--chdir=/var/home/chelokot".to_string()));
    assert_eq!(argv.last().map(String::as_str), Some("/bin/sh"));
}

#[test]
fn distrobox_fish_launch_exports_cursor_target_placeholder() {
    let command = launch(
        LaunchTarget::Distrobox {
            name: "fedora-toolbox".to_string(),
            has_unshared_groups: false,
        },
        false,
        None,
        None,
        &fish(),
    );

    assert_eq!(
        command.env.iter().find(|(key, _)| key == BRIDGE_ENV).map(|(_, value)| value.as_str()),
        Some(BRIDGE_FISH)
    );
    assert!(command
        .argv
        .contains(&format!("{}={}", TARGET_FILE_ENV, TARGET_FILE_PLACEHOLDER)));
}

#[test]
fn distrobox_with_unshared_groups_keeps_its_own_tty() {
    let command = launch(
        LaunchTarget::Distrobox {
            name: "box".to_string(),
            has_unshared_groups: true,
        },
        false,
        None,
        None,
        &sh(),
    );
    assert_eq!(command.argv, vec!["distrobox", "enter", "box", "--", "env", "/bin/sh"]);
    assert!(command.env.is_empty());
}

#[test]
fn toolbox_launch_runs_as_user_in_working_directory() {
    let shell = fish();
    let command = launch(
        LaunchTarget::Toolbox {
            name: "fedora-toolbox-latest".to_string(),
        },
        false,
        Some("chelokot"),
        Some("/var/home/chelokot"),
        &shell,
    );
    let argv = command.argv;

    assert_eq!(argv[0], "/bin/sh");
    assert_eq!(argv[1], "-lc");
    assert!(argv[2].contains("podman start 'fedora-toolbox-latest'"));
    assert!(argv[2].contains("podman exec --privileged --interactive --tty"));
    if shell.input_edit_bridge {
        assert!(argv[2].contains(&format!("--env={}={}", TARGET_FILE_ENV, TARGET_FILE_PLACEHOLDER)));
    }
    assert!(argv[2].contains("--user="));
    assert!(argv[2].contains("--workdir="));
}

#[test]
fn podman_launch_runs_configured_shell_inside_container() {
    let shell = fish();
    let command = launch(
        LaunchTarget::Podman {
            name: "fedora-toolbox".to_string(),
        },
        false,
        Some("chelokot"),
        Some("/var/home/chelokot"),
        &shell,
    );
    let argv = command.argv;

    assert_eq!(argv[0], "/bin/sh");
    assert_eq!(argv[1], "-lc");
    assert!(argv[2].contains("podman exec --privileged --interactive --tty"));
    if shell.input_edit_bridge {
        assert!(argv[2].contains(&format!("--env={}={}", TARGET_FILE_ENV, TARGET_FILE_PLACEHOLDER)));
    }
    assert!(!argv[2].contains("--user="));
    assert!(!argv[2].contains("--workdir="));
    if argv[2].contains("fish") {
        assert!(argv[2].contains("'--init-command'"));
    }
}

#[test]
fn podman_script_quotes_the_name_and_ends_with_the_shell() {
    let command = launch(
        LaunchTarget::Toolbox {
            name: "bad'name".to_string(),
        },
        false,
        Some("me"),
        None,
        &sh(),
    );
    assert_eq!(
        command.argv[2],
        "podman start 'bad'\\''name' >/dev/null 2>&1 || true; exec podman exec --privileged \
         --interactive --tty --detach-keys= --user='me' 'bad'\\''name' '/bin/sh'"
    );
}

#[test]
fn toolbox_launch_runs_through_host_when_flatpaked() {
    let command = launch(
        LaunchTarget::Toolbox {
            name: "fedora-toolbox-latest".to_string(),
        },
        true,
        Some("chelotype-test"),
        None,
        &sh(),
    );
    let argv = command.argv;

    assert_eq!(argv[0], "flatpak-spawn");
    assert_eq!(argv[1], "--host");
    assert_eq!(argv[2], "/bin/sh");
    assert_eq!(argv[3], "-lc");
    assert!(argv[4].contains("podman start 'fedora-toolbox-latest'"));
    assert!(argv[4].contains("--user='chelotype-test'"));
}

#[test]
fn podman_launch_runs_through_host_shell_when_flatpaked() {
    let command = launch(
        LaunchTarget::Podman {
            name: "fedora-toolbox".to_string(),
        },
        true,
        None,
        None,
        &sh(),
    );
    let argv = command.argv;

    assert_eq!(argv[0], "flatpak-spawn");
    assert_eq!(argv[1], "--host");
    assert_eq!(argv[2], "/bin/sh");
    assert_eq!(argv[3], "-lc");
    assert!(argv[4].contains("podman exec --privileged --interactive --tty"));
}

#[test]
fn host_target_has_no_container_command() {
    assert!(LaunchTarget::Host
        .command_with_size(None, false, None, None, &sh())
        .is_none());
}

#[test]
fn only_a_single_container_tab_is_remembered() {
    let container = LaunchTarget::Toolbox {
        name: "fedora-toolbox-latest".to_string(),
    };
    assert_eq!(
        single_tab_launch_target_to_remember(1, Some(&container)),
        Some(container.clone())
    );
    assert_eq!(single_tab_launch_target_to_remember(2, Some(&container)), None);
    assert_eq!(single_tab_launch_target_to_remember(1, Some(&LaunchTarget::Host)), None);
    assert_eq!(single_tab_launch_target_to_remember(1, None), None);
}

#[test]
fn shell_choice_takes_the_first_set_shell() {
    assert_eq!(shell_program(Some("/usr/bin/fish"), Some("/bin/bash")), "/usr/bin/fish");
    assert_eq!(shell_program(Some("  "), Some("/bin/bash")), "/bin/bash");
    assert_eq!(shell_program(None, None), "/bin/sh");
    assert_eq!(shell_program(None, Some("")), "/bin/sh");
}

#[test]
fn only_fish_gets_the_input_bridge() {
    let fish = shell_launch_for("/usr/bin/fish", "B", "fish", "T", "@T@");
    assert!(fish.input_edit_bridge);
    assert_eq!(fish.argv, vec!["/usr/bin/fish"]);
    assert_eq!(fish.command_line, "'/usr/bin/fish'");
    assert!(!shell_launch_for("/usr/bin/fishy", "B", "fish", "T", "@T@").input_edit_bridge);
    assert!(!shell_launch_for("/bin/bash", "B", "fish", "T", "@T@").input_edit_bridge);
    assert!(shell_launch_for("fish", "B", "fish", "T", "@T@").input_edit_bridge);
}

#[test]
fn host_shell_runs_directly_or_through_flatpak_spawn() {
    let command = host_shell_command(&fish(), None, false);
    assert_eq!(
        command.argv,
        vec!["/usr/bin/fish", "--init-command", "source /tmp/chelotype.fish"]
    );
    assert_eq!(command.env, vec![(BRIDGE_ENV.to_string(), BRIDGE_FISH.to_string())]);
    let spawned = host_shell_command(
        &sh(),
        Some(chelotype::backend::ScreenSize { cols: 80, rows: 24 }),
        true,
    );
    assert_eq!(
        spawned.argv,
        vec!["flatpak-spawn", "--host", "--env=COLUMNS=80", "--env=LINES=24", "/bin/sh"]
    );
    assert!(spawned.env.is_empty());
}

#[test]
fn duplicate_free_labels_pick_the_listed_toolbox_kind() {
    let containers = vec![PodmanContainer {
        is_infra: None,
        labels: labels(&[("org.containers.toolbox", "true"), ("manager", "apx")]),
        names: vec!["box".to_string()],
    }];
    assert_eq!(
        parse_podman_targets(&containers),
        vec![LaunchTarget::Distrobox { name: "box".to_string(), has_unshared_groups: false }]
    );
}

use knightty::shell::{
    cmd_startup_script, cmd_update_prompt_command, command_for_configured_shell_with_identity,
    command_for_shell_with_identity, posix_prompt, powershell_prompt_script, shell_kind, zsh_prompt,
    PromptIdentity, ShellCommand, ShellKind, ShellLaunch,
};

fn test_identity() -> PromptIdentity {
    PromptIdentity {
        username: "alice".to_owned(),
        computer_name: "workstation".to_owned(),
    }
}

fn argv(launch: &ShellLaunch) -> Vec<String> {
    let mut argv = vec![launch.program.clone()];
    argv.extend(launch.args.iter().cloned());
    argv
}

fn env_value<'a>(launch: &'a ShellLaunch, key: &str) -> Option<&'a str> {
    launch
        .env
        .iter()
        .find(|(name, _)| name == key)
        .map(|(_, value)| value.as_str())
}

#[test]
fn cmd_shell_command_uses_quiet_startup_args_and_prompt_header() {
    let identity = test_identity();
    let command = command_for_shell_with_identity(r"C:\Windows\System32\cmd.exe", &identity, true);
    let argv = argv(&command);

    assert_eq!(argv.len(), 5);
    assert_eq!(argv[1], "/Q");
    assert_eq!(argv[2], "/D");
    assert_eq!(argv[3], "/K");
    assert_eq!(Some(argv[4].as_str()), Some(cmd_startup_script(&identity).as_str()));
}

#[test]
fn cmd_prompt_update_matches_powershell_directory_policy() {
    let identity = test_identity();
    let update = cmd_update_prompt_command(&identity);

    assert!(update.contains(r#""%~fI"=="%USERPROFILE%""#));
    assert!(update.contains("prompt [alice@workstation ~]$$$S"));
    assert!(update.contains("prompt [alice@workstation %~nxI]$$$S"));
    assert!(update.contains("prompt [alice@workstation %~fI]$$$S"));
}

#[test]
fn cmd_startup_updates_prompt_after_directory_commands() {
    let identity = test_identity();
    let script = cmd_startup_script(&identity);

    assert!(script.contains("doskey cd=cd $* ^& (for %I in (.) do"));
    assert!(script.contains("doskey cd..=cd .. ^& (for %I in (.) do"));
    assert!(script.contains("doskey cd\\=cd \\ ^& (for %I in (.) do"));
    assert!(script.contains("doskey chdir=chdir $* ^& (for %I in (.) do"));
    assert!(script.contains("doskey pushd=pushd $* ^& (for %I in (.) do"));
    assert!(script.contains("doskey popd=popd ^& (for %I in (.) do"));
    assert!(!script.contains("$T"));
}

#[test]
fn configured_cmd_without_command_installs_prompt_setup() {
    let identity = test_identity();
    let command = command_for_configured_shell_with_identity(
        &ShellCommand {
            program: "cmd".to_owned(),
            args: vec!["/Q".to_owned()],
        },
        &identity,
        true,
    );
    let argv = argv(&command);

    assert_eq!(argv[0], "cmd");
    assert_eq!(argv[1], "/Q");
    assert_eq!(argv[2], "/D");
    assert_eq!(argv[3], "/K");
    assert_eq!(Some(argv[4].as_str()), Some(cmd_startup_script(&identity).as_str()));
}

#[test]
fn configured_cmd_command_is_left_intact() {
    let identity = test_identity();
    let command = command_for_configured_shell_with_identity(
        &ShellCommand {
            program: "cmd".to_owned(),
            args: vec!["/C".to_owned(), "echo hi".to_owned()],
        },
        &identity,
        true,
    );
    let argv = argv(&command);

    assert_eq!(argv.len(), 3);
    assert_eq!(argv[0], "cmd");
    assert_eq!(argv[1], "/C");
    assert_eq!(argv[2], "echo hi");
}

#[test]
fn powershell_shell_command_installs_prompt_function() {
    let identity = test_identity();
    let command = command_for_shell_with_identity("pwsh.exe", &identity, true);
    let argv = argv(&command);

    assert_eq!(argv.len(), 5);
    assert_eq!(argv[1], "-NoLogo");
    assert_eq!(argv[2], "-NoExit");
    assert_eq!(argv[3], "-Command");
    let script = powershell_prompt_script(&identity);
    assert_eq!(Some(argv[4].as_str()), Some(script.as_str()));
}

#[test]
fn configured_powershell_preserves_options_before_prompt_function() {
    let identity = test_identity();
    let command = command_for_configured_shell_with_identity(
        &ShellCommand {
            program: "pwsh".to_owned(),
            args: vec!["-NoLogo".to_owned(), "-NoProfile".to_owned()],
        },
        &identity,
        true,
    );
    let argv = argv(&command);

    assert_eq!(argv.len(), 6);
    assert_eq!(argv[0], "pwsh");
    assert_eq!(argv[1], "-NoLogo");
    assert_eq!(argv[2], "-NoProfile");
    assert_eq!(argv[3], "-NoExit");
    assert_eq!(argv[4], "-Command");
    let script = powershell_prompt_script(&identity);
    assert_eq!(Some(argv[5].as_str()), Some(script.as_str()));
}

#[test]
fn configured_powershell_command_is_left_intact() {
    let identity = test_identity();
    let command = command_for_configured_shell_with_identity(
        &ShellCommand {
            program: "pwsh".to_owned(),
            args: vec!["-Command".to_owned(), "Write-Host hi".to_owned()],
        },
        &identity,
        true,
    );
    let argv = argv(&command);

    assert_eq!(argv.len(), 3);
    assert_eq!(argv[0], "pwsh");
    assert_eq!(argv[1], "-Command");
    assert_eq!(argv[2], "Write-Host hi");
}

#[test]
fn configured_unknown_shell_uses_program_and_args_exactly() {
    let identity = test_identity();
    let command = command_for_configured_shell_with_identity(
        &ShellCommand {
            program: "custom-shell".to_owned(),
            args: vec!["--login".to_owned()],
        },
        &identity,
        false,
    );
    let argv = argv(&command);

    assert_eq!(argv.len(), 2);
    assert_eq!(argv[0], "custom-shell");
    assert_eq!(argv[1], "--login");
}

#[test]
fn bash_like_shell_uses_home_aware_directory_name_prompt_header() {
    let identity = test_identity();
    let command = command_for_shell_with_identity("/bin/bash", &identity, false);

    assert_eq!(
        env_value(&command, "PS1"),
        Some(
            r#"[alice@workstation $(if [ "$PWD" = "$HOME" ]; then printf '~'; else dir=${PWD##*/}; if [ -n "$dir" ]; then printf '%s' "$dir"; else printf '%s' "$PWD"; fi; fi)]$ "#
        )
    );
}

#[test]
fn zsh_shell_uses_home_aware_directory_name_prompt_header() {
    let identity = test_identity();
    let command = command_for_shell_with_identity("/bin/zsh", &identity, false);

    assert_eq!(env_value(&command, "PROMPT"), Some("[alice@workstation %1~]$ "));
}

#[test]
fn prompt_literals_escape_shell_prompt_markers() {
    let identity = PromptIdentity {
        username: "a$li%ce".to_owned(),
        computer_name: "work$station%".to_owned(),
    };

    assert!(cmd_update_prompt_command(&identity).contains("[a$$li^%ce@work$$station^% %~nxI]$$$S"));
    assert_eq!(
        posix_prompt(&identity),
        r#"[a\$li%ce@work\$station% $(if [ "$PWD" = "$HOME" ]; then printf '~'; else dir=${PWD##*/}; if [ -n "$dir" ]; then printf '%s' "$dir"; else printf '%s' "$PWD"; fi; fi)]$ "#
    );
    assert_eq!(zsh_prompt(&identity), r#"[a\$li%%ce@work\$station%% %1~]$ "#);
}

#[test]
fn shell_kind_uses_file_name_from_windows_or_unix_paths() {
    assert_eq!(shell_kind(r"C:\Program Files\PowerShell\7\pwsh.exe"), ShellKind::PowerShell);
    assert_eq!(shell_kind("/usr/bin/bash"), ShellKind::BashLike);
}

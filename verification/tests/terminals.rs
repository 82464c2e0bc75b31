//! Terminals, shells and questions to the user, on concrete values.
use onetcli::mfa::{
    is_ssh_password_prompt, keyboard_interactive_answers_for_terminal, MfaError, MfaStep,
    TerminalMfaPrompt, TerminalMfaRequest, TerminalMfaResponder,
};
use onetcli::shell::{
    build_cd_command, build_local_shell, build_remote_history_load_command,
    build_ssh_base_init_commands, build_ssh_init_commands, build_windows_shell, compose_ssh_init_commands,
    find_executable, history_file_candidates, history_file_name, history_files_in, integration_setup,
    local_working_dir, normalize_history_command, resolve_default_windows_shell,
    resolve_local_working_dir, shell_escape_arg, shell_kind, split_remote_history, trim_history,
    windows_shell_places, zshrc_text, HistoryTransfer, ShellHistoryFormat, ShellKind,
};
use onetcli::ssh_auth::{
    KeyboardInteractivePrompt, KeyboardInteractiveRequest, KeyboardInteractiveTarget, SshAuth,
};
use onetcli::ssh_connect::ChannelEvent;
use onetcli::terminal::{format_connection_error, ConnectOutcome, Terminal};
use onetcli::terminal_types::{
    ConnectionState, EventQueue, SshAuthMethod, StoredJumpServer, StoredSshParams,
    TerminalConnectionKind, TerminalEffect, TerminalEvent, TerminalModelEvent,
    TerminalScrollSnapshot, TerminalSize,
};

fn some(s: &str) -> Option<String> {
    Some(s.to_string())
}

#[test]
fn shell_escape_arg_handles_single_quote() {
    let escaped = shell_escape_arg("a'b");
    assert_eq!(escaped, "'a'\"'\"'b'");
}

#[test]
fn shell_escape_arg_quotes_the_empty_text() {
    assert_eq!(shell_escape_arg(""), "''");
    assert_eq!(shell_escape_arg("$HOME"), "'$HOME'");
}

#[test]
fn build_cd_command_escapes_injection_chars() {
    let cmd = build_cd_command("dir; rm -rf /");
    assert_eq!(cmd, "cd -- 'dir; rm -rf /'");
}

#[test]
fn build_cd_command_escapes_newline() {
    let cmd = build_cd_command("a\nb");
    assert_eq!(cmd, "cd -- 'a\nb'");
}

fn home() -> Option<String> {
    dirs::home_dir().map(|p| p.to_string_lossy().into_owned())
}

#[test]
fn resolve_local_working_dir_uses_home_when_unspecified() {
    assert_eq!(home(), resolve_local_working_dir(None));
}

#[test]
fn resolve_local_working_dir_keeps_explicit_directory() {
    assert_eq!(
        some("/tmp/onetcli"),
        resolve_local_working_dir(Some("/tmp/onetcli".to_string()))
    );
}

#[test]
fn resolve_local_working_dir_treats_blank_as_unspecified() {
    assert_eq!(home(), resolve_local_working_dir(Some("  ".to_string())));
    assert_eq!(local_working_dir(some(" "), some("/home/u")), some("/home/u"));
    assert_eq!(local_working_dir(None, None), None);
}

#[test]
fn build_ssh_init_commands_ignores_sync_path_switch_for_script_integration() {
    let enabled = build_ssh_init_commands(&None, &some("/tmp"), &some("echo ready"), true).unwrap();
    let disabled =
        build_ssh_init_commands(&None, &some("/tmp"), &some("echo ready"), false).unwrap();
    assert_eq!(enabled, disabled);
    assert!(disabled.contains("echo ready"));
    assert_eq!(disabled, "cd -- '/tmp'\necho ready");
}

#[test]
fn build_ssh_base_init_commands_prioritizes_explicit_working_dir() {
    let commands =
        build_ssh_base_init_commands(&some("/workspace"), &some("/default"), &some("echo ready"))
            .unwrap();

    assert!(commands.contains("cd -- '/workspace'"));
    assert!(!commands.contains("/default"));
    assert!(!commands.contains("echo ready"));
}

#[test]
fn compose_ssh_init_commands_supports_base_commands_only() {
    let commands = compose_ssh_init_commands(&some("echo ready"), true).unwrap();
    assert_eq!(commands, "echo ready");

    assert!(compose_ssh_init_commands(&None, false).is_none());
    assert!(compose_ssh_init_commands(&None, true).is_none());
    assert!(compose_ssh_init_commands(&some(""), true).is_none());
}

fn with_files(places: Vec<String>, there: &[&str]) -> Vec<(String, bool)> {
    places
        .into_iter()
        .map(|place| {
            let is_file = there.contains(&place.as_str());
            (place, is_file)
        })
        .collect()
}

#[test]
fn resolve_default_windows_shell_prefers_pwsh_from_path() {
    let path = vec!["/empty".to_string(), "/tools/".to_string()];
    let places = windows_shell_places(&path, &None, &some("/tools/cmd.exe"));
    let there = ["/tools/pwsh.exe", "/tools/cmd.exe"];

    let resolved = resolve_default_windows_shell(&with_files(places.clone(), &there));

    assert_eq!(resolved, "/tools/pwsh.exe");
    assert_eq!(find_executable(&with_files(places, &there)), some("/tools/pwsh.exe"));
}

#[test]
fn resolve_default_windows_shell_falls_back_to_comspec() {
    let places = windows_shell_places(&vec![], &None, &some("/windows/cmd.exe"));
    assert_eq!(places, vec!["/windows/cmd.exe".to_string()]);

    let resolved =
        resolve_default_windows_shell(&with_files(places.clone(), &["/windows/cmd.exe"]));

    assert_eq!(resolved, "/windows/cmd.exe");
    assert_eq!(resolve_default_windows_shell(&with_files(places, &[])), "cmd.exe");
    let command = build_windows_shell(None, &vec![]);
    assert_eq!(command.program, "cmd.exe");
    assert!(command.args.is_empty());
}

#[test]
fn windows_shells_are_tried_from_the_newest_on() {
    let path = vec!["/a".to_string(), "/b".to_string()];
    let all = [
        "/a/pwsh.exe",
        "/b/pwsh.exe",
        "/windows/System32/WindowsPowerShell/v1.0/powershell.exe",
        "/a/powershell.exe",
        "/b/powershell.exe",
        "/other/cmd.exe",
        "/windows/System32/cmd.exe",
    ];
    let places = windows_shell_places(&path, &some("/windows"), &some("/other/cmd.exe"));
    assert_eq!(places, all);
    for i in 0..all.len() {
        let found = with_files(places.clone(), &all[i..]);
        assert_eq!(resolve_default_windows_shell(&found), all[i]);
    }
}

#[test]
fn local_shells_know_their_program_when_they_get_arguments() {
    assert!(build_local_shell(None, vec![], some("/bin/zsh")).is_none());
    let shell = build_local_shell(None, vec!["--rcfile".to_string()], some("/bin/bash")).unwrap();
    assert_eq!(shell.program, "/bin/bash");
    assert_eq!(shell.args, vec!["--rcfile"]);
    assert_eq!(
        build_local_shell(some("/bin/sh"), vec![], None).unwrap().program,
        "/bin/sh"
    );
}

#[test]
fn shell_integration_depends_on_the_shell() {
    assert_eq!(shell_kind(&some("/bin/ZSH"), &None), ShellKind::Zsh);
    assert_eq!(shell_kind(&None, &some("/bin/bash")), ShellKind::Bash);
    assert_eq!(shell_kind(&None, &None), ShellKind::Other);
    let setup = integration_setup(
        ShellKind::Zsh,
        some("/tmp/z"),
        String::new(),
        "/tmp/rc".to_string(),
    );
    assert_eq!(setup.env.len(), 3);
    assert_eq!(setup.env[2], ("ZDOTDIR".to_string(), "/tmp/z".to_string()));
    assert!(setup.args.is_empty());
    let setup = integration_setup(ShellKind::Bash, None, String::new(), "/tmp/rc".to_string());
    assert_eq!(setup.args, vec!["--rcfile", "/tmp/rc"]);
    assert_eq!(setup.env.len(), 1);
    assert!(zshrc_text("/tmp/s.sh").ends_with("source \"/tmp/s.sh\"\n"));
    assert!(!zshrc_text("/tmp/s.sh").contains('\r'));
}

#[test]
fn normalize_history_command_trims_and_rejects_blank_input() {
    assert_eq!(
        normalize_history_command("  git status  "),
        Some("git status".to_string())
    );
    assert_eq!(normalize_history_command("   "), None);
    assert_eq!(normalize_history_command("\n\t"), None);
}

#[test]
fn histories_are_trimmed_to_their_end() {
    let history = vec![
        "a".to_string(),
        " ".to_string(),
        " b ".to_string(),
        "c".to_string(),
    ];
    assert_eq!(trim_history(&history, 2), vec!["b", "c"]);
    assert_eq!(trim_history(&history, 9), vec!["a", "b", "c"]);
}

#[test]
fn remote_histories_come_in_two_parts() {
    assert_eq!(
        split_remote_history("ls\n\n__ONETCLI_HISTORY_SPLIT__\n: 1:0;pwd"),
        ("ls\n".to_string(), ": 1:0;pwd".to_string())
    );
    assert_eq!(
        split_remote_history("ls"),
        ("ls".to_string(), String::new())
    );
    assert!(build_remote_history_load_command().starts_with("sh -lc ' if [ -f"));
    assert_eq!(
        history_files_in(&some("/home/u"), &some("/bin/ZSH")),
        vec![
            ("/home/u/.bash_history".to_string(), ShellHistoryFormat::Bash),
            ("/home/u/.zsh_history".to_string(), ShellHistoryFormat::Zsh),
        ]
    );
    let files = history_files_in(&some("/home/u/"), &None);
    assert_eq!(files[0], ("/home/u/.zsh_history".to_string(), ShellHistoryFormat::Zsh));
    assert!(history_files_in(&None, &None).is_empty());
    assert_eq!(
        history_file_candidates(&None),
        history_files_in(&home(), &None)
    );
    assert_eq!(history_file_name(ShellHistoryFormat::Bash), ".bash_history");
}

#[test]
fn history_transfer_ends_with_the_channel() {
    let mut t = HistoryTransfer::new();
    t.take(Some(ChannelEvent::Data(vec![1, 2])));
    t.take(Some(ChannelEvent::Data(vec![3])));
    assert!(!t.ended);
    t.take(Some(ChannelEvent::ExitStatus(0)));
    t.take(Some(ChannelEvent::Eof));
    assert!(t.ended);
    assert_eq!(t.finish(), Ok("\u{1}\u{2}\u{3}".to_string()));
    let mut t = HistoryTransfer::new();
    t.take(Some(ChannelEvent::Data(vec![0x6c, 0x73, 0xff, 0xc3])));
    t.take(Some(ChannelEvent::Data(vec![0xa9])));
    assert_eq!(t.finish(), Ok("ls\u{fffd}\u{e9}".to_string()));
    let mut t = HistoryTransfer::new();
    t.take(Some(ChannelEvent::ExitStatus(2)));
    t.take(None);
    assert_eq!(
        t.finish(),
        Err("ssh history loader exited with status 2".to_string())
    );
}

fn request(target: KeyboardInteractiveTarget, prompt: &str) -> KeyboardInteractiveRequest {
    KeyboardInteractiveRequest {
        target,
        name: "MFA".to_string(),
        instructions: "Enter code".to_string(),
        prompts: vec![KeyboardInteractivePrompt {
            prompt: prompt.to_string(),
            echo: false,
        }],
    }
}

#[test]
fn terminal_mfa_responder_waits_for_submitted_response() {
    let mut responder = TerminalMfaResponder::new(some("jump123"), None);
    let asked = request(KeyboardInteractiveTarget::JumpServer, "Verification code:");
    let (step, told) = responder.respond(&asked);
    assert!(matches!(step, MfaStep::Waiting));
    assert!(matches!(told, Some(TerminalEvent::SshMfaChanged)));
    assert_eq!(
        Some(TerminalMfaRequest {
            name: "MFA".to_string(),
            instructions: "Enter code".to_string(),
            prompts: vec![TerminalMfaPrompt {
                prompt: "Verification code:".to_string(),
                echo: false,
            }],
        }),
        responder.pending_request()
    );
    let (responses, told) = responder.submit(vec!["123456".to_string()]);
    assert!(responses.is_some());
    assert!(matches!(told, Some(TerminalEvent::SshMfaChanged)));
    assert!(responder.pending_request().is_none());
    assert_eq!(
        Ok(vec!["123456".to_string()]),
        responder.answers(&asked, &responses)
    );
    assert_eq!(responder.submit(vec!["again".to_string()]), (None, None));
}

#[test]
fn terminal_mfa_responder_cancel_clears_pending_request() {
    let mut responder = TerminalMfaResponder::new(None, None);
    let asked = request(KeyboardInteractiveTarget::TargetServer, "Verification code:");
    let (step, told) = responder.respond(&asked);
    assert!(matches!(step, MfaStep::Waiting));
    assert!(matches!(told, Some(TerminalEvent::SshMfaChanged)));
    assert!(responder.pending_request().is_some());
    let (cleared, told) = responder.cancel();
    assert!(cleared);
    assert!(matches!(told, Some(TerminalEvent::SshMfaChanged)));
    assert!(responder.pending_request().is_none());
    assert_eq!(responder.answers(&asked, &None), Err(MfaError::Cancelled));
    assert_eq!(responder.cancel(), (false, None));
}

#[test]
fn terminal_mfa_answers_jump_mfa_and_both_password_rounds() {
    let passwords = (some("jump123"), some("target123"));
    let jump_password = keyboard_interactive_answers_for_terminal(
        &request(KeyboardInteractiveTarget::JumpServer, "Password:"),
        &vec![],
        &passwords.0,
        &passwords.1,
    )
    .unwrap();
    assert_eq!(vec!["jump123".to_string()], jump_password);

    let jump_mfa = keyboard_interactive_answers_for_terminal(
        &request(KeyboardInteractiveTarget::JumpServer, "Verification code:"),
        &vec!["123456".to_string()],
        &passwords.0,
        &passwords.1,
    )
    .unwrap();
    assert_eq!(vec!["123456".to_string()], jump_mfa);

    let target_password = keyboard_interactive_answers_for_terminal(
        &request(
            KeyboardInteractiveTarget::TargetServer,
            "root@10.2.4.56's password:",
        ),
        &vec![],
        &passwords.0,
        &passwords.1,
    )
    .unwrap();
    assert_eq!(vec!["target123".to_string()], target_password);
}

#[test]
fn questions_that_cannot_be_answered_say_why() {
    let code = request(KeyboardInteractiveTarget::TargetServer, "Code:");
    let answer = |responses: Vec<&str>| {
        keyboard_interactive_answers_for_terminal(
            &code,
            &responses.into_iter().map(|s| s.to_string()).collect(),
            &None,
            &None,
        )
    };
    assert_eq!(answer(vec![]), Err(MfaError::MissingResponse));
    assert_eq!(answer(vec!["  "]), Err(MfaError::EmptyResponse));
    assert_eq!(answer(vec!["1", "2"]), Err(MfaError::ResponseCount));
    assert_eq!(
        keyboard_interactive_answers_for_terminal(
            &request(KeyboardInteractiveTarget::TargetServer, "PASSWORD :: "),
            &vec![],
            &some("jump"),
            &some("target"),
        ),
        Err(MfaError::MissingResponse)
    );
    assert_eq!(
        keyboard_interactive_answers_for_terminal(
            &request(KeyboardInteractiveTarget::TargetServer, "Password:"),
            &vec![],
            &some("jump"),
            &None,
        ),
        Err(MfaError::NoPassword)
    );
    assert_eq!(MfaError::EmptyResponse.text(), "SSH MFA response is empty");
    assert!(is_ssh_password_prompt(" Password:: "));
    assert!(!is_ssh_password_prompt("Password (again):"));
}

#[test]
fn password_questions_are_answered_at_once() {
    let mut responder = TerminalMfaResponder::new(some("jump"), some("target"));
    let (step, told) =
        responder.respond(&request(KeyboardInteractiveTarget::TargetServer, "Password: "));
    assert!(told.is_none());
    assert!(matches!(
        step,
        MfaStep::Answered(Ok(answers)) if answers == vec!["target".to_string()]
    ));
    assert!(responder.pending_request().is_none());
}

#[test]
fn format_connection_error_keeps_anyhow_context_chain() {
    let err = anyhow::Error::msg("channel open failed")
        .context("shell setup channel failed")
        .context("SSH connect failed");

    let message = format_connection_error(&err);

    assert!(message.contains("SSH connect failed"));
    assert!(message.contains("shell setup channel failed"));
    assert!(message.contains("channel open failed"));
}

fn params() -> StoredSshParams {
    StoredSshParams {
        host: "h".to_string(),
        port: 22,
        username: "u".to_string(),
        auth_method: SshAuthMethod::Password {
            password: "target123".to_string(),
        },
        connect_timeout: Some(7),
        keepalive_interval: None,
        keepalive_max: Some(3),
        default_directory: some("/srv"),
        init_script: None,
        disable_shell_integration: None,
        jump_server: Some(StoredJumpServer {
            host: "j".to_string(),
            port: 2222,
            username: "ju".to_string(),
            auth_method: SshAuthMethod::PrivateKey {
                key_path: "k".to_string(),
                passphrase: None,
            },
        }),
        proxy: None,
    }
}

fn ssh_terminal() -> Terminal {
    let (terminal, effects) = Terminal::new_ssh(Some(4), "SSH".to_string(), &params(), &None, true);
    assert!(matches!(
        &effects[..],
        [
            TerminalEffect::ConnectSsh { generation: 1 },
            TerminalEffect::LoadHistory
        ]
    ));
    terminal
}

#[test]
fn ssh_terminals_come_from_stored_connections() {
    let terminal = ssh_terminal();
    assert_eq!(terminal.connection_state(), &ConnectionState::Connecting);
    assert_eq!(terminal.connection_kind(), TerminalConnectionKind::Ssh);
    assert_eq!(terminal.connection_name(), Some("SSH"));
    assert_eq!(terminal.connection_id(), Some(4));
    assert_eq!(terminal.init_commands.as_deref(), Some("cd -- '/srv'"));
    let config = terminal.ssh_config().unwrap();
    assert!(matches!(&config.ssh_config.auth, SshAuth::Password(p) if p == "target123"));
    assert_eq!(
        config.ssh_config.timeout,
        Some(core::time::Duration::from_secs(7))
    );
    assert!(matches!(
        &config.ssh_config.jump_server.as_ref().unwrap().auth,
        SshAuth::PrivateKey { key_path, certificate_path: None, .. } if key_path == "k"
    ));
    assert!(!config.disable_shell_integration);
    assert!(terminal.can_reconnect());
    assert_eq!(terminal.mfa.as_ref().unwrap().target_password.as_deref(), Some("target123"));
    assert_eq!(terminal.mfa.as_ref().unwrap().jump_password, None);
}

#[test]
fn connected_terminal_is_told_its_size() {
    let mut terminal = ssh_terminal();
    assert!(terminal.write(vec![1]).is_empty());
    let effects = terminal.handle_ssh_result(ConnectOutcome::Connected, 1);
    assert!(matches!(
        &effects[..],
        [
            TerminalEffect::SetActive { connection_id: 4, active: true },
            TerminalEffect::ResizeSurface { cols: 80, rows: 24 },
            TerminalEffect::ResizeBackend(TerminalSize { rows: 24, cols: 80, .. }),
            TerminalEffect::Emit(TerminalModelEvent::Wakeup)
        ]
    ));
    assert_eq!(terminal.connection_state(), &ConnectionState::Connected);
    assert!(matches!(
        &terminal.write(vec![1])[..],
        [TerminalEffect::Write(data)] if data == &vec![1]
    ));
    assert_eq!(terminal.resize(80, 24, 9, 9).len(), 0);
    assert!(matches!(
        &terminal.nudge_resize()[..],
        [TerminalEffect::ResizeBackend(TerminalSize { pixel_width: 9, .. })]
    ));
    assert_eq!(terminal.resize(100, 30, 9, 9).len(), 2);
    assert!(matches!(
        &terminal.shutdown()[..],
        [TerminalEffect::ShutdownBackend]
    ));
}

#[test]
fn failed_connection_keeps_the_reason() {
    let mut terminal = ssh_terminal();
    let error = anyhow::Error::msg("inner").context("outer");
    terminal.handle_ssh_result(ConnectOutcome::Failed(error), 1);
    assert_eq!(
        terminal.connection_state(),
        &ConnectionState::Disconnected {
            error: some("outer: inner")
        }
    );
    let mut terminal = ssh_terminal();
    terminal.handle_ssh_result(ConnectOutcome::Broken("gone".to_string()), 1);
    assert_eq!(
        terminal.connection_state(),
        &ConnectionState::Disconnected {
            error: some("gone")
        }
    );
}

#[test]
fn stale_connections_do_not_matter() {
    let mut terminal = ssh_terminal();
    terminal.handle_ssh_result(ConnectOutcome::Connected, 1);
    let effects = terminal.reconnect();
    assert!(effects
        .iter()
        .any(|e| matches!(e, TerminalEffect::CloseSession { generation: 2 })));
    assert!(effects
        .iter()
        .any(|e| matches!(e, TerminalEffect::ShutdownBackend)));
    assert!(terminal.session_closed(1).is_empty());
    assert!(matches!(
        &terminal.session_closed(2)[..],
        [TerminalEffect::ConnectSsh { generation: 2 }]
    ));
    assert!(matches!(
        &terminal.handle_ssh_result(ConnectOutcome::Connected, 1)[..],
        [TerminalEffect::ShutdownArrived]
    ));
    assert!(terminal.handle_disconnect(1).is_empty());
    assert_eq!(terminal.connection_state(), &ConnectionState::Connecting);
    terminal.handle_ssh_result(ConnectOutcome::Connected, 2);
    terminal.handle_disconnect(2);
    assert_eq!(
        terminal.connection_state(),
        &ConnectionState::Disconnected { error: None }
    );
    assert!(!terminal.has_backend);
}

#[test]
fn generations_wrap_to_one() {
    let mut terminal = ssh_terminal();
    terminal.connection_generation = u64::MAX;
    terminal.reconnect();
    assert!(terminal.is_current_connection_generation(1));
}

#[test]
fn reset_terminal_surface_clears_buffer_and_stale_connection_metadata() {
    let mut terminal = ssh_terminal();
    terminal.handle_terminal_event(TerminalEvent::TitleChanged("old title".to_string()));
    terminal.handle_terminal_event(TerminalEvent::WorkingDirChanged("/tmp/project".to_string()));
    terminal.handle_terminal_event(TerminalEvent::ChildExit(255));
    assert_eq!(terminal.title(), "old title");
    assert_eq!(terminal.current_working_dir(), Some("/tmp/project"));
    assert_eq!(terminal.child_exited(), Some(255));

    let effects = terminal.reconnect();

    assert!(effects
        .iter()
        .any(|e| matches!(e, TerminalEffect::ResetSurface { cols: 80, rows: 24 })));
    assert_eq!(terminal.title(), "");
    assert_eq!(terminal.current_working_dir(), None);
    assert_eq!(terminal.child_exited(), None);
}

#[test]
fn serial_terminals_connect_directly() {
    let (mut terminal, effects) = Terminal::new_serial(None, "COM".to_string());
    assert!(matches!(
        &effects[..],
        [TerminalEffect::ConnectSerial { generation: 1 }]
    ));
    terminal.handle_serial_result(Ok(()), 1);
    assert_eq!(terminal.connection_state(), &ConnectionState::Connected);
    assert!(terminal
        .reconnect()
        .iter()
        .any(|e| matches!(e, TerminalEffect::ConnectSerial { generation: 2 })));
    terminal.handle_serial_result(Err("busy".to_string()), 2);
    assert_eq!(
        terminal.connection_state(),
        &ConnectionState::Disconnected {
            error: some("busy")
        }
    );
}

#[test]
fn local_terminals_stay_as_they_are() {
    let (mut terminal, message, effects) = Terminal::new_local_or_disconnected(Ok(()));
    assert!(message.is_none());
    assert_eq!(effects.len(), 1);
    assert!(!terminal.can_reconnect());
    assert!(terminal.reconnect().is_empty());
    terminal.set_sync_path_with_terminal(true);
    let (terminal, message, _) =
        Terminal::new_local_or_disconnected(Err("no shell".to_string()));
    assert_eq!(message.as_deref(), Some("no shell"));
    assert_eq!(
        terminal.connection_state(),
        &ConnectionState::Disconnected {
            error: some("no shell")
        }
    );
}

#[test]
fn pending_questions_are_dropped_with_the_connection() {
    let mut terminal = ssh_terminal();
    let asked = request(KeyboardInteractiveTarget::JumpServer, "Code:");
    terminal.mfa.as_mut().unwrap().respond(&asked);
    assert!(terminal.ssh_mfa_request().is_some());
    let effects = terminal.reconnect();
    assert!(effects
        .iter()
        .any(|e| matches!(e, TerminalEffect::MfaChanged)));
    assert!(terminal.ssh_mfa_request().is_none());
    terminal.mfa.as_mut().unwrap().respond(&asked);
    let (handed_on, effects) = terminal.submit_ssh_mfa(vec!["1".to_string()]);
    assert_eq!(handed_on, Some(vec!["1".to_string()]));
    assert!(matches!(effects.as_slice(), [TerminalEffect::MfaChanged]));
    let (handed_on, effects) = terminal.submit_ssh_mfa(vec!["1".to_string()]);
    assert_eq!(handed_on, None);
    assert!(effects.is_empty());
}

#[test]
fn events_of_the_program_are_reported() {
    let mut terminal = ssh_terminal();
    assert!(matches!(
        &terminal.handle_terminal_event(TerminalEvent::Bell)[..],
        [TerminalEffect::Emit(TerminalModelEvent::Bell)]
    ));
    assert!(terminal
        .handle_terminal_event(TerminalEvent::ClipboardLoad)
        .is_empty());
    terminal.handle_terminal_event(TerminalEvent::WorkingDirChanged("/w".to_string()));
    assert!(matches!(
        &terminal.handle_terminal_event(TerminalEvent::CommandRecorded("ls".to_string()))[..],
        [TerminalEffect::RecordCommand { command, cwd: Some(cwd) }] if command == "ls" && cwd == "/w"
    ));
    assert!(matches!(
        &terminal.handle_terminal_event(TerminalEvent::CommandFinished { exit_code: 3 })[..],
        [TerminalEffect::RecordExitCode(3)]
    ));
    assert_eq!(terminal.record_command("pwd").len(), 1);
}

#[test]
fn histories_are_taken_over_once() {
    let mut terminal = ssh_terminal();
    let history = vec!["a".to_string(), " b".to_string()];
    assert_eq!(terminal.set_persisted_history(&history, 5).len(), 1);
    assert!(terminal.set_persisted_history(&history, 5).is_empty());
    assert_eq!(terminal.persisted_history, vec!["a", "b"]);
}

#[test]
fn events_wait_and_drawing_comes_last() {
    let mut queue = EventQueue::new();
    queue.push(TerminalEvent::Wakeup);
    queue.push(TerminalEvent::Bell);
    queue.push(TerminalEvent::Wakeup);
    queue.push(TerminalEvent::PromptStart);
    assert_eq!(
        queue.drain(),
        vec![
            TerminalEvent::Bell,
            TerminalEvent::PromptStart,
            TerminalEvent::Wakeup
        ]
    );
    assert!(queue.drain().is_empty());
}

#[test]
fn selections_count_scrolled_lines() {
    let snapshot = TerminalScrollSnapshot {
        display_offset: 3,
        history_size: 10,
        screen_lines: 24,
        columns: 80,
    };
    let all = snapshot.everything();
    assert_eq!((all.first_line, all.last_line, all.last_column), (-10, 23, 79));
    assert_eq!(snapshot.line_at(1), -2);
}

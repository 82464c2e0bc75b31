//! SSH logins and connections on concrete values.
use core::time::Duration;
use onetcli::base64::{base64_encode, encode_bytes};
use onetcli::ssh_auth::{
    auth_result_allows_keyboard_interactive, authenticate_keyboard_interactive,
    authenticate_session, authenticate_with_strategy, build_auto_publickey_failure_message,
    build_keyboard_interactive_request, default_key_places, default_key_places_in, discover_default_private_keys,
    expand_auto_publickey_auth, explain, finish_auth_result_or_keyboard_interactive,
    request_keyboard_interactive_responses, start_agent, AgentStep, AgentTry, AuthAction,
    AuthFailureMessages, FallbackRun, KeyboardInteractivePrompt, KeyboardInteractiveTarget,
    KeyboardReply, SshAuth,
};
use onetcli::ssh_connect::{
    address, connect_steps, ends_proxy_headers, http_connect_request, http_proxy_answer,
    ping_outcome, session_settings, ConnectStep, JumpServerConnectConfig, PingResult,
    ProxyConnectConfig, ProxyType, PtyConfig, SshConnectConfig,
};

fn test_auth_failure_messages() -> AuthFailureMessages {
    AuthFailureMessages {
        password_failed: "password".to_string(),
        certificate_failed: "certificate".to_string(),
        public_key_failed: "public_key".to_string(),
        agent_connect_failed: "agent_connect".to_string(),
        agent_no_identities: "agent_no_identities".to_string(),
        agent_auth_failed: "agent_auth_failed".to_string(),
        auto_publickey_failed: "auto_publickey_failed".to_string(),
        no_local_identity: "no_local_identity".to_string(),
        auto_publickey_next_step: "next_step".to_string(),
        keyboard_interactive_required: "keyboard_interactive_required".to_string(),
        keyboard_interactive_failed: "keyboard_interactive_failed".to_string(),
        keyboard_interactive_cancelled: "keyboard_interactive_cancelled".to_string(),
    }
}

#[test]
fn agent_connect_without_env_returns_readable_error() {
    let messages = test_auth_failure_messages();
    let err = match start_agent(Err("SSH_AUTH_SOCK not set".to_string()), &messages) {
        Ok(_) => panic!("an agent that cannot be reached is an error"),
        Err(err) => err,
    };
    assert!(err.contains("agent_connect"));
    assert_eq!(err, "agent_connect: SSH_AUTH_SOCK not set");
    assert_eq!(explain("a", "b"), "a: b");
}

#[test]
fn discover_default_private_keys_returns_expected_order() {
    let present = ["id_rsa", "id_ed25519"];
    let places: Vec<(String, bool)> = default_key_places_in(&Some("/home/u".to_string()))
        .into_iter()
        .map(|path| {
            let there = present.iter().any(|name| path.ends_with(name));
            (path, there)
        })
        .collect();
    assert_eq!(places.len(), 4);

    let discovered = discover_default_private_keys(&places);

    assert_eq!(
        discovered,
        vec![
            "/home/u/.ssh/id_ed25519".to_string(),
            "/home/u/.ssh/id_rsa".to_string(),
        ]
    );
}

#[test]
fn keys_are_looked_for_at_home() {
    let home = dirs::home_dir().map(|p| p.to_string_lossy().into_owned());
    assert_eq!(default_key_places(), default_key_places_in(&home));
    assert!(default_key_places_in(&None).is_empty());
    let places = |home: &str| default_key_places_in(&Some(home.to_string()));
    assert_eq!(
        places("/home/u/"),
        vec![
            "/home/u/.ssh/id_ed25519",
            "/home/u/.ssh/id_rsa",
            "/home/u/.ssh/id_ecdsa",
            "/home/u/.ssh/id_dsa",
        ]
    );
    assert_eq!(places("")[0], ".ssh/id_ed25519");
    for path in places(r"\\?\C:\a\..\b") {
        assert!(path.contains(".ssh/id_") || path.contains(r".ssh\id_"));
    }
}

#[test]
fn expand_auto_publickey_auth_contains_agent_and_default_keys() {
    let key_path = "/home/u/.ssh/id_ed25519".to_string();

    let expanded = expand_auto_publickey_auth(vec![key_path.clone()]);

    assert!(matches!(expanded.first(), Some(SshAuth::Agent)));
    assert!(expanded.iter().any(|auth| matches!(
        auth,
        SshAuth::PrivateKey { key_path: path, .. } if path == &key_path
    )));
}

#[test]
fn build_auto_publickey_failure_message_mentions_missing_identity() {
    let messages = test_auth_failure_messages();
    let message = build_auto_publickey_failure_message(
        &messages,
        false,
        &vec!["agent_connect".to_string()],
    );

    assert!(message.contains("auto_publickey_failed"));
    assert!(message.contains("no_local_identity"));
    assert!(message.contains("agent_connect"));
}

#[test]
fn build_auto_publickey_failure_message_includes_next_step() {
    let messages = test_auth_failure_messages();
    let message = build_auto_publickey_failure_message(
        &messages,
        true,
        &vec!["public_key_failed".to_string()],
    );
    assert!(message.contains("next_step"));
    assert_eq!(
        message,
        "auto_publickey_failed: public_key_failed: next_step"
    );
}

#[test]
fn authenticate_session_with_fallbacks_returns_error_when_no_candidates() {
    let candidates: Vec<SshAuth> = vec![];
    let messages = test_auth_failure_messages();

    match FallbackRun::start(&candidates, &messages) {
        Ok(_) => panic!("there is nothing to try"),
        Err(message) => assert_eq!(message, "no_local_identity"),
    }
    assert!(FallbackRun::start(&vec![SshAuth::AutoPublicKey], &messages).is_err());

    let msg = build_auto_publickey_failure_message(&messages, false, &vec![]);
    assert!(msg.contains("auto_publickey_failed"));
    assert!(msg.contains("no_local_identity"));
    assert!(msg.contains("next_step"));
}

#[test]
fn password_failure_can_continue_with_keyboard_interactive() {
    let result = russh::client::AuthResult::Failure {
        remaining_methods: russh::MethodSet::from(
            &[russh::MethodKind::KeyboardInteractive][..],
        ),
        partial_success: false,
    };

    assert!(auth_result_allows_keyboard_interactive(&result));
    let other = russh::client::AuthResult::Failure {
        remaining_methods: russh::MethodSet::from(&[russh::MethodKind::PublicKey][..]),
        partial_success: false,
    };
    assert!(!auth_result_allows_keyboard_interactive(&other));
    assert!(!auth_result_allows_keyboard_interactive(
        &russh::client::AuthResult::Success
    ));
    let messages = test_auth_failure_messages();
    let password = SshAuth::Password("p".to_string());
    assert!(matches!(
        finish_auth_result_or_keyboard_interactive(&password, &result, &messages),
        AuthAction::StartKeyboardInteractive
    ));
    assert!(matches!(
        finish_auth_result_or_keyboard_interactive(&password, &other, &messages),
        AuthAction::Fail(m) if m == "password"
    ));
    assert!(matches!(
        finish_auth_result_or_keyboard_interactive(
            &password,
            &russh::client::AuthResult::Success,
            &messages
        ),
        AuthAction::Done
    ));
    let key = SshAuth::PrivateKey {
        key_path: "k".to_string(),
        passphrase: None,
        certificate_path: Some("c".to_string()),
    };
    assert!(matches!(
        finish_auth_result_or_keyboard_interactive(&key, &other, &messages),
        AuthAction::Fail(m) if m == "certificate"
    ));
}

#[test]
fn keyboard_interactive_responder_receives_prompts() {
    let messages = test_auth_failure_messages();
    let prompts = || {
        vec![KeyboardInteractivePrompt {
            prompt: "Verification code:".to_string(),
            echo: false,
        }]
    };
    let request = build_keyboard_interactive_request(
        KeyboardInteractiveTarget::JumpServer,
        "MFA".to_string(),
        "Enter verification code".to_string(),
        prompts(),
    );
    assert_eq!(request.target, KeyboardInteractiveTarget::JumpServer);
    let reply = || KeyboardReply::InfoRequest {
        name: "MFA".to_string(),
        instructions: "Enter verification code".to_string(),
        prompts: prompts(),
    };
    match authenticate_keyboard_interactive(
        reply(),
        KeyboardInteractiveTarget::JumpServer,
        true,
        &messages,
    ) {
        AuthAction::Ask(asked) => {
            assert_eq!(asked.target, KeyboardInteractiveTarget::JumpServer);
            assert_eq!(asked.prompts[0].prompt, "Verification code:");
        }
        _ => panic!("the user is asked"),
    }
    match request_keyboard_interactive_responses(Some(vec!["654321".to_string()]), &messages) {
        AuthAction::Answer(responses) => assert_eq!(responses, vec!["654321"]),
        _ => panic!("the answer is handed on"),
    }
    assert!(matches!(
        authenticate_keyboard_interactive(
            reply(),
            KeyboardInteractiveTarget::TargetServer,
            false,
            &messages
        ),
        AuthAction::Fail(m) if m == "keyboard_interactive_required"
    ));
    assert!(matches!(
        request_keyboard_interactive_responses(None, &messages),
        AuthAction::Fail(m) if m == "keyboard_interactive_cancelled"
    ));
    assert!(matches!(
        authenticate_keyboard_interactive(
            KeyboardReply::Failure,
            KeyboardInteractiveTarget::TargetServer,
            true,
            &messages
        ),
        AuthAction::Fail(m) if m == "keyboard_interactive_failed"
    ));
}

#[test]
fn methods_are_tried_one_after_the_other() {
    let messages = test_auth_failure_messages();
    let candidates = expand_auto_publickey_auth(vec!["k1".to_string(), "k2".to_string()]);
    let run = FallbackRun::start(&candidates, &messages).unwrap();
    assert_eq!(run.login().target, KeyboardInteractiveTarget::TargetServer);
    assert!(!run.login().answers_questions);
    assert!(matches!(run.current(), SshAuth::Agent));
    assert!(matches!(
        authenticate_session(run.current()),
        AuthAction::Agent
    ));
    let run = run.failed("e1".to_string(), &messages).unwrap();
    assert!(matches!(run.current(), SshAuth::PrivateKey { key_path, .. } if key_path == "k1"));
    let run = run.failed("e2".to_string(), &messages).unwrap();
    let end = run.failed("e3".to_string(), &messages);
    match end {
        Err(message) => assert_eq!(
            message,
            "auto_publickey_failed: e1; e2; e3: next_step"
        ),
        Ok(_) => panic!("nothing is left to try"),
    }
}

#[test]
fn identities_of_the_agent_are_tried_in_turn() {
    let messages = test_auth_failure_messages();
    assert!(matches!(
        start_agent(Ok(0), &messages),
        Err(m) if m == "agent_no_identities"
    ));
    let run = start_agent(Ok(2), &messages).unwrap();
    let AgentStep::Next(run) = run.tried(AgentTry::Broken("b".to_string()), &messages) else {
        panic!("one identity is left");
    };
    assert!(matches!(
        run.tried(AgentTry::Refused, &messages),
        AgentStep::Fail(m) if m == "agent_auth_failed: b"
    ));
    let run = start_agent(Ok(1), &messages).unwrap();
    assert!(matches!(
        run.tried(AgentTry::Refused, &messages),
        AgentStep::Fail(m) if m == "agent_auth_failed"
    ));
    let run = start_agent(Ok(1), &messages).unwrap();
    assert!(matches!(
        run.tried(AgentTry::Accepted, &messages),
        AgentStep::Done
    ));
}

#[test]
fn first_attempts_follow_the_method() {
    assert!(matches!(
        authenticate_with_strategy(&SshAuth::AutoPublicKey),
        AuthAction::Fallbacks
    ));
    assert!(matches!(
        authenticate_with_strategy(&SshAuth::PrivateKey {
            key_path: "k".to_string(),
            passphrase: None,
            certificate_path: None
        }),
        AuthAction::PublicKey { key_path, .. } if key_path == "k"
    ));
}

fn config() -> SshConnectConfig {
    SshConnectConfig {
        host: "h".to_string(),
        port: 22,
        username: "u".to_string(),
        auth: SshAuth::Agent,
        timeout: None,
        keepalive_interval: Some(Duration::from_secs(5)),
        keepalive_max: None,
        jump_server: None,
        proxy: None,
    }
}

#[test]
fn settings_have_defaults() {
    let s = session_settings(&config());
    assert_eq!(s.inactivity_timeout, Duration::from_secs(300));
    assert_eq!(s.keepalive_interval, Duration::from_secs(5));
    assert_eq!(s.keepalive_max, 6);
    let pty = PtyConfig::default();
    assert_eq!((pty.term.as_str(), pty.width, pty.height), ("xterm-256color", 80, 24));
}

#[test]
fn servers_on_the_way_come_first() {
    let mut c = config();
    let steps = connect_steps(&c);
    assert_eq!(steps.len(), 2);
    assert!(matches!(
        &steps[0],
        ConnectStep::Dial { through_proxy: false, host, port: 22 } if host == "h"
    ));
    c.jump_server = Some(JumpServerConnectConfig {
        host: "j".to_string(),
        port: 2222,
        username: "ju".to_string(),
        auth: SshAuth::Password("jp".to_string()),
    });
    c.proxy = Some(ProxyConnectConfig {
        proxy_type: ProxyType::Http,
        host: "p".to_string(),
        port: 8080,
        username: None,
        password: None,
    });
    let steps = connect_steps(&c);
    assert_eq!(steps.len(), 4);
    assert!(matches!(
        &steps[0],
        ConnectStep::Dial { through_proxy: true, host, port: 2222 } if host == "j"
    ));
    assert!(matches!(
        &steps[1],
        ConnectStep::Authenticate { target: KeyboardInteractiveTarget::JumpServer, username, .. }
            if username == "ju"
    ));
    assert!(matches!(&steps[2], ConnectStep::Forward { host, .. } if host == "h"));
    assert!(matches!(
        &steps[3],
        ConnectStep::Authenticate { target: KeyboardInteractiveTarget::TargetServer, username, .. }
            if username == "u"
    ));
}

#[test]
fn base64_matches_known_encodings() {
    assert_eq!(base64_encode(""), "");
    assert_eq!(base64_encode("f"), "Zg==");
    assert_eq!(base64_encode("fo"), "Zm8=");
    assert_eq!(base64_encode("foo"), "Zm9v");
    assert_eq!(base64_encode("foob"), "Zm9vYg==");
    assert_eq!(base64_encode("fooba"), "Zm9vYmE=");
    assert_eq!(base64_encode("foobar"), "Zm9vYmFy");
    assert_eq!(encode_bytes(&[0xfb, 0xff, 0xfe]), "+//+");
    assert_eq!(base64_encode("é"), "w6k=");
}

#[test]
fn proxies_are_asked_and_answer() {
    let mut proxy = ProxyConnectConfig {
        proxy_type: ProxyType::Http,
        host: "p".to_string(),
        port: 8080,
        username: None,
        password: Some("x".to_string()),
    };
    assert_eq!(address(&proxy.host, proxy.port), "p:8080");
    assert_eq!(
        http_connect_request(&proxy, "h", 22),
        "CONNECT h:22 HTTP/1.1\r\nHost: h:22\r\n\r\n"
    );
    proxy.username = Some("user".to_string());
    assert_eq!(
        http_connect_request(&proxy, "h", 22),
        "CONNECT h:22 HTTP/1.1\r\nHost: h:22\r\nProxy-Authorization: Basic dXNlcjp4\r\n\r\n"
    );
    assert_eq!(http_proxy_answer("HTTP/1.1 200 OK\r\n"), Ok(()));
    assert_eq!(
        http_proxy_answer("HTTP/1.1 407 No\r\n"),
        Err("HTTP/1.1 407 No".to_string())
    );
    assert!(ends_proxy_headers("\r\n"));
    assert!(ends_proxy_headers(""));
    assert!(!ends_proxy_headers("Via: x\r\n"));
}

#[test]
fn pings_say_why_a_server_is_gone() {
    assert_eq!(ping_outcome(false, &PingResult::Answered), None);
    assert_eq!(
        ping_outcome(true, &PingResult::Answered).as_deref(),
        Some("session already closed")
    );
    assert_eq!(
        ping_outcome(false, &PingResult::Broken("x".to_string())).as_deref(),
        Some("ping failed: x")
    );
    assert_eq!(
        ping_outcome(false, &PingResult::TimedOut).as_deref(),
        Some("ping timed out after 3s")
    );
}

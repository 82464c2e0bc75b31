//! What holds of logins on SSH servers: what is tried with a method, what
//! follows from the answers, and the way to a server.
use vstd::prelude::*;

use crate::base64;
use crate::ssh_auth;
use crate::ssh_auth::{ActionView, AuthAction, AuthFailureMessages, AuthView,
    KeyboardInteractiveTarget, KeyboardReply, SshAuth};
use crate::ssh_connect;
use crate::ssh_connect::{PingResult, SshConnectConfig, StepView};
use crate::text;

verus! {

// ---------------------------------------------------------------------------
// What is tried
// ---------------------------------------------------------------------------

/// The path of the key that an action is tried with, if it is tried with one.
pub open spec fn key_of(a: ActionView) -> Option<Seq<char>> {
    match a {
        ActionView::PublicKey { key_path, passphrase } => Some(key_path),
        ActionView::Certificate { key_path, passphrase, certificate_path } => Some(key_path),
        _ => None,
    }
}

/// The passphrase that an action opens its key with.
pub open spec fn passphrase_of(a: ActionView) -> Option<Seq<char>> {
    match a {
        ActionView::PublicKey { key_path, passphrase } => passphrase,
        ActionView::Certificate { key_path, passphrase, certificate_path } => passphrase,
        _ => None,
    }
}

/// The certificate that an action shows with its key.
pub open spec fn certificate_of(a: ActionView) -> Option<Seq<char>> {
    match a {
        ActionView::Certificate { key_path, passphrase, certificate_path } => Some(certificate_path),
        _ => None,
    }
}

/// What is tried with a private key is tried with that key, its passphrase and
/// its certificate, unchanged.
pub proof fn law_key_is_tried_as_given(
    key_path: Seq<char>,
    passphrase: Option<Seq<char>>,
    certificate_path: Option<Seq<char>>,
)
    ensures
        ({
            let a = ssh_auth::first_action(
                AuthView::PrivateKey { key_path, passphrase, certificate_path },
            );
            &&& key_of(a) == Some(key_path)
            &&& passphrase_of(a) == passphrase
            &&& certificate_of(a) == certificate_path
        }),
{
}

/// A password is tried as it is, an agent as an agent, and several methods
/// just where the method is left open.
pub proof fn law_method_is_tried(auth: AuthView, password: Seq<char>)
    ensures
        ssh_auth::first_action(AuthView::Password(password)) == (ActionView::Password { password }),
        ssh_auth::first_action(AuthView::Agent) is Agent,
        ssh_auth::first_action(auth) is Fallbacks <==> auth is AutoPublicKey,
        ssh_auth::first_action(auth) is Password <==> auth is Password,
        key_of(ssh_auth::first_action(auth)) is Some <==> auth is PrivateKey,
{
}

/// Two methods that differ are tried differently.
pub proof fn law_methods_differ(a: AuthView, b: AuthView)
    requires
        ssh_auth::first_action(a) == ssh_auth::first_action(b),
    ensures
        a == b,
{
}

/// What is tried with a method holds what the method holds: the password, or
/// the key with its passphrase and its certificate.
pub proof fn law_secrets_reach_login(auth: SshAuth, action: AuthAction)
    requires
        action@ == ssh_auth::first_action(auth@),
    ensures
        auth matches SshAuth::Password(p) ==> action matches AuthAction::Password { password }
            && password@ == p@,
        auth matches SshAuth::PrivateKey { key_path, passphrase, certificate_path } ==> match action {
            AuthAction::PublicKey { key_path: k, passphrase: p } => certificate_path is None && k@
                == key_path@ && (p is Some <==> passphrase is Some) && (p matches Some(a) ==> a@ == (
            passphrase->0)@),
            AuthAction::Certificate { key_path: k, passphrase: p, certificate_path: c } => {
                &&& certificate_path matches Some(d) && c@ == d@
                &&& k@ == key_path@
                &&& p is Some <==> passphrase is Some
                &&& p matches Some(a) ==> a@ == (passphrase->0)@
            },
            _ => false,
        },
        auth is Agent ==> action is Agent,
        auth is AutoPublicKey ==> action is Fallbacks,
{
}

// ---------------------------------------------------------------------------
// What follows
// ---------------------------------------------------------------------------

/// A server that leaves no method to be tried has accepted the user. Where it
/// still asks questions, they are asked for; where it does not, the login
/// failed, and the message is that of what was tried.
pub proof fn law_answer_of_server(
    password: Seq<char>,
    key_path: Seq<char>,
    passphrase: Option<Seq<char>>,
    certificate: Seq<char>,
    methods: Seq<Seq<char>>,
    messages: AuthFailureMessages,
    auth: AuthView,
)
    ensures
        ssh_auth::after_answer(auth, None, messages) is Done,
        (exists|i: int|
            0 <= i < methods.len() && #[trigger] methods[i] == "keyboard-interactive"@)
            ==> ssh_auth::after_answer(auth, Some(methods), messages) is StartKeyboardInteractive,
        (forall|i: int|
            0 <= i < methods.len() ==> #[trigger] methods[i] != "keyboard-interactive"@) ==> {
            &&& ssh_auth::after_answer(auth, Some(methods), messages) is Fail
            &&& ssh_auth::after_answer(AuthView::Password(password), Some(methods), messages)
                == ActionView::Fail(messages.password_failed@)
            &&& ssh_auth::after_answer(
                AuthView::PrivateKey { key_path, passphrase, certificate_path: None },
                Some(methods),
                messages,
            ) == ActionView::Fail(messages.public_key_failed@)
            &&& ssh_auth::after_answer(
                AuthView::PrivateKey { key_path, passphrase, certificate_path: Some(certificate) },
                Some(methods),
                messages,
            ) == ActionView::Fail(messages.certificate_failed@)
        },
{
}

/// The questions of a server are put to the user as they are, all of them and
/// in their order, and with the server that asks; without a user there is
/// nobody to ask.
pub proof fn law_questions_are_put(
    name: String,
    instructions: String,
    prompts: Vec<ssh_auth::KeyboardInteractivePrompt>,
    target: KeyboardInteractiveTarget,
    messages: AuthFailureMessages,
    i: int,
)
    requires
        0 <= i < prompts@.len(),
    ensures
        ({
            let reply = KeyboardReply::InfoRequest { name, instructions, prompts };
            &&& ssh_auth::after_reply(reply, target, true, messages) matches ActionView::Ask(r)
                && r.target == target && r.name == name@ && r.instructions == instructions@
                && r.prompts.len() == prompts@.len() && r.prompts[i].0 == prompts@[i].prompt@
                && r.prompts[i].1 == prompts@[i].echo
            &&& ssh_auth::after_reply(reply, target, false, messages) == ActionView::Fail(
                messages.keyboard_interactive_required@,
            )
        }),
{
}

/// A server that is content with the answers has accepted the user, and one
/// that is not has refused them, whoever answers.
pub proof fn law_questions_end(
    target: KeyboardInteractiveTarget,
    attended: bool,
    messages: AuthFailureMessages,
)
    ensures
        ssh_auth::after_reply(KeyboardReply::Success, target, attended, messages) is Done,
        ssh_auth::after_reply(KeyboardReply::Failure, target, attended, messages)
            == ActionView::Fail(messages.keyboard_interactive_failed@),
{
}

// ---------------------------------------------------------------------------
// The keys of the user
// ---------------------------------------------------------------------------

/// The paths that lead to a file are found in their order, and no other.
pub proof fn law_present_paths(a: Seq<(Seq<char>, bool)>, path: Seq<char>)
    ensures
        ssh_auth::paths_present(Seq::empty()).len() == 0,
        ssh_auth::paths_present(a.push((path, true))) == ssh_auth::paths_present(a).push(path),
        ssh_auth::paths_present(a.push((path, false))) == ssh_auth::paths_present(a),
{
    assert(a.push((path, true)).drop_last() =~= a);
    assert(a.push((path, false)).drop_last() =~= a);
}

/// Where the method is left open, the agent is tried first and then every key
/// in its order, each without a passphrase and without a certificate.
pub proof fn law_open_method(keys: Seq<Seq<char>>, i: int)
    requires
        0 <= i < keys.len(),
    ensures
        ssh_auth::auto_methods(keys).len() == keys.len() + 1,
        ssh_auth::auto_methods(keys)[0] is Agent,
        ssh_auth::auto_methods(keys)[i + 1] == (AuthView::PrivateKey {
            key_path: keys[i],
            passphrase: None,
            certificate_path: None,
        }),
{
}

/// The methods are tried in the order they are given in.
pub proof fn law_methods_in_order(a: Seq<AuthView>, m: AuthView)
    ensures
        ssh_auth::definite(Seq::empty()).len() == 0,
        !(m is AutoPublicKey) ==> ssh_auth::definite(a.push(m)) == ssh_auth::definite(a).push(m),
        m is AutoPublicKey ==> ssh_auth::definite(a.push(m)) == ssh_auth::definite(a),
{
    assert(a.push(m).drop_last() =~= a);
}

/// Where every method failed, the message says so, tells of missing keys where
/// there are none, gives every error in its order, and ends with what to do.
pub proof fn law_failure_message(
    messages: AuthFailureMessages,
    errors: Seq<Seq<char>>,
)
    requires
        errors.len() > 0,
    ensures
        ssh_auth::failure_text(messages, true, errors) == messages.auto_publickey_failed@ + ": "@
            + text::joined(errors, "; "@) + ": "@ + messages.auto_publickey_next_step@,
        ssh_auth::failure_text(messages, false, errors) == messages.auto_publickey_failed@ + ": "@
            + messages.no_local_identity@ + ": "@ + text::joined(errors, "; "@) + ": "@
            + messages.auto_publickey_next_step@,
        ssh_auth::failure_text(messages, true, Seq::empty()) == messages.auto_publickey_failed@
            + ": "@ + messages.auto_publickey_next_step@,
{
    let a = messages.auto_publickey_failed@;
    let n = messages.no_local_identity@;
    let e = text::joined(errors, "; "@);
    let z = messages.auto_publickey_next_step@;
    let sep = ": "@;
    reveal_with_fuel(text::joined, 5);
    let p3 = ssh_auth::failure_parts(messages, true, errors);
    assert(p3 =~= seq![a, e, z]);
    assert(p3.drop_last() =~= seq![a, e]);
    assert(p3.drop_last().drop_last() =~= seq![a]);
    let p4 = ssh_auth::failure_parts(messages, false, errors);
    assert(p4 =~= seq![a, n, e, z]);
    assert(p4.drop_last() =~= seq![a, n, e]);
    assert(p4.drop_last().drop_last() =~= seq![a, n]);
    assert(p4.drop_last().drop_last().drop_last() =~= seq![a]);
    let p2 = ssh_auth::failure_parts(messages, true, Seq::empty());
    assert(p2 =~= seq![a, z]);
    assert(p2.drop_last() =~= seq![a]);
    assert(text::joined(p3, sep) =~= a + sep + e + sep + z);
    assert(text::joined(p4, sep) =~= a + sep + n + sep + e + sep + z);
    assert(text::joined(p2, sep) =~= a + sep + z);
}

/// Some method is a key just where one of those that are left to be tried is.
pub proof fn law_has_key(a: Seq<AuthView>, m: AuthView)
    ensures
        !ssh_auth::has_key(Seq::empty()),
        ssh_auth::has_key(a.push(m)) <==> ssh_auth::has_key(a) || m is PrivateKey,
{
    let b = a.push(m);
    if ssh_auth::has_key(a) {
        let i = choose|i: int| 0 <= i < a.len() && #[trigger] a[i] is PrivateKey;
        assert(b[i] is PrivateKey);
    }
    if m is PrivateKey {
        assert(b[a.len() as int] is PrivateKey);
    }
    if ssh_auth::has_key(b) {
        let i = choose|i: int| 0 <= i < b.len() && #[trigger] b[i] is PrivateKey;
        if i < a.len() {
            assert(a[i] is PrivateKey);
        }
    }
}

/// What the agent failed with stands behind the message, where it is known.
pub proof fn law_agent_failure(messages: AuthFailureMessages, error: Seq<char>)
    ensures
        ssh_auth::agent_failure(None, messages) == messages.agent_auth_failed@,
        ssh_auth::agent_failure(Some(error), messages) == messages.agent_auth_failed@ + ": "@
            + error,
{
}

// ---------------------------------------------------------------------------
// The way to a server
// ---------------------------------------------------------------------------

/// Without a server on the way the server itself is dialled, through the proxy
/// just where there is one, and the user is made known to it.
pub proof fn law_direct_way(config: SshConnectConfig)
    requires
        config.jump_server is None,
    ensures
        ssh_connect::way(config).len() == 2,
        ssh_connect::way(config)[0] == (StepView::Dial {
            through_proxy: config.proxy is Some,
            host: config.host@,
            port: config.port,
        }),
        ssh_connect::way(config)[1] matches StepView::Authenticate { target, username, auth }
            && target == KeyboardInteractiveTarget::TargetServer && username == config.username@
            && auth == config.auth@,
{
}

/// With a server on the way that one is dialled, through the proxy just where
/// there is one, and the user is made known to it as is said for it; from there
/// the way leads on to the server itself.
pub proof fn law_way_by_another_server(config: SshConnectConfig)
    requires
        config.jump_server is Some,
    ensures
        ({
            let jump = config.jump_server->0;
            let w = ssh_connect::way(config);
            &&& w.len() == 4
            &&& w[0] == (StepView::Dial {
                through_proxy: config.proxy is Some,
                host: jump.host@,
                port: jump.port,
            })
            &&& w[1] == (StepView::Authenticate {
                target: KeyboardInteractiveTarget::JumpServer,
                username: jump.username@,
                auth: jump.auth@,
            })
            &&& w[2] == (StepView::Forward { host: config.host@, port: config.port })
            &&& w[3] == (StepView::Authenticate {
                target: KeyboardInteractiveTarget::TargetServer,
                username: config.username@,
                auth: config.auth@,
            })
        }),
{
}

/// An address is the host and the port in decimal, with a colon between them.
pub proof fn law_address(host: Seq<char>, port: u16)
    ensures
        ssh_connect::host_and_port(host, port) == host.push(':') + text::decimal(port as nat),
{
    reveal_strlit(":");
    assert(host + ":"@ =~= host.push(':'));
}

/// A proxy is shown a user and a password just where both are given.
pub proof fn law_proxy_credentials(proxy: ssh_connect::ProxyConnectConfig)
    ensures
        ssh_connect::proxy_credentials(proxy) is Some <==> proxy.username is Some
            && proxy.password is Some,
        ssh_connect::proxy_credentials(proxy) matches Some((u, p)) ==> u == (proxy.username->0)@
            && p == (proxy.password->0)@,
{
}

/// A HTTP proxy is asked for the server by its address, which stands in the
/// first line and again as the host; the request ends with an empty line. The
/// user and the password stand in it just where they are given, encoded.
pub proof fn law_http_connect(host: Seq<char>, port: u16, user: Seq<char>, password: Seq<char>)
    ensures
        ({
            let place = host.push(':') + text::decimal(port as nat);
            let first = "CONNECT "@ + place + " HTTP/1.1\r\n"@;
            let second = "Host: "@ + place + "\r\n"@;
            let third = "Proxy-Authorization: Basic "@ + base64::encoded(
                vstd::utf8::encode_utf8(user.push(':') + password),
            ) + "\r\n"@;
            &&& ssh_connect::http_connect(None, host, port) == first + second + "\r\n"@
            &&& ssh_connect::http_connect(Some((user, password)), host, port) == first + second
                + third + "\r\n"@
        }),
{
    law_address(host, port);
    reveal_strlit(":");
    assert(user + ":"@ =~= user.push(':'));
    let place = host.push(':') + text::decimal(port as nat);
    let first = "CONNECT "@ + place + " HTTP/1.1\r\n"@;
    let second = "Host: "@ + place + "\r\n"@;
    assert(" HTTP/1.1\r\nHost: "@ =~= " HTTP/1.1\r\n"@ + "Host: "@) by {
        reveal_strlit(" HTTP/1.1\r\nHost: ");
        reveal_strlit(" HTTP/1.1\r\n");
        reveal_strlit("Host: ");
    }
    assert("CONNECT "@ + place + " HTTP/1.1\r\nHost: "@ + place + "\r\n"@ =~= first + second);
    assert(first + second + Seq::<char>::empty() =~= first + second);
}

/// A server is there just where the session is open and it answered; otherwise
/// it is said why not.
pub proof fn law_ping(closed: bool, result: PingResult, e: String)
    ensures
        ssh_connect::ping_failure(closed, result) is None <==> !closed && result is Answered,
        ssh_connect::ping_failure(false, PingResult::Broken(e)) == Some("ping failed: "@ + e@),
        ssh_connect::ping_failure(false, PingResult::TimedOut) != ssh_connect::ping_failure(
            true,
            result,
        ),
{
    reveal_strlit("ping timed out after 3s");
    reveal_strlit("session already closed");
    assert("ping timed out after 3s"@[0] != "session already closed"@[0]);
}

// ---------------------------------------------------------------------------
// Base64
// ---------------------------------------------------------------------------

/// The character that stands for six bits.
pub open spec fn letter(n: int) -> char {
    "ABCDEFGHIJKLMNOPQRSTUVWXYZabcdefghijklmnopqrstuvwxyz0123456789+/"@[n]
}

proof fn lemma_letter(n: int)
    requires
        0 <= n < 64,
    ensures
        base64::sextet_char(n) == letter(n),
{
    reveal_strlit("ABCDEFGHIJKLMNOPQRSTUVWXYZabcdefghijklmnopqrstuvwxyz0123456789+/");
}

/// The six bits of three bytes, one after the other.
proof fn lemma_bits(x: int, y: int, z: int)
    requires
        0 <= x < 256,
        0 <= y < 256,
        0 <= z < 256,
    ensures
        ({
            let n = base64::triple(x, y, z);
            &&& n / 262144 == x / 4
            &&& n / 4096 % 64 == (x % 4) * 16 + y / 16
            &&& n / 64 % 64 == (y % 16) * 4 + z / 64
            &&& n % 64 == z % 64
        }),
{
    let n = x * 65536 + y * 256 + z;
    let q = x / 4;
    let r = x % 4;
    let s = y / 16;
    let t = y % 16;
    let u = z / 64;
    let v = z % 64;
    assert(n == q * 262144 + (r * 16 + s) * 4096 + (t * 4 + u) * 64 + v);
    assert(n / 4096 == q * 64 + (r * 16 + s));
    assert(n / 64 == (q * 64 + (r * 16 + s)) * 64 + (t * 4 + u));
}

/// Three bytes are four characters of the standard alphabet, six bits each,
/// the highest first; what is missing at the end is filled with equals signs.
pub proof fn law_base64_group(x: u8, y: u8, z: u8)
    ensures
        base64::encoded(seq![x, y, z]) == seq![
            letter((x / 4) as int),
            letter((x % 4) * 16 + y / 16),
            letter((y % 16) * 4 + z / 64),
            letter((z % 64) as int),
        ],
        base64::encoded(seq![x, y]) == seq![
            letter((x / 4) as int),
            letter((x % 4) * 16 + y / 16),
            letter((y % 16) * 4),
            '=',
        ],
        base64::encoded(seq![x]) == seq![
            letter((x / 4) as int),
            letter((x % 4) * 16),
            '=',
            '=',
        ],
{
    assert(base64::encoded(seq![x, y, z]) =~= seq![
        letter((x / 4) as int),
        letter((x % 4) * 16 + y / 16),
        letter((y % 16) * 4 + z / 64),
        letter((z % 64) as int),
    ]) by {
        lemma_bits(x as int, y as int, z as int);
        lemma_letter((x / 4) as int);
        lemma_letter((x % 4) * 16 + y / 16);
        lemma_letter((y % 16) * 4 + z / 64);
        lemma_letter((z % 64) as int);
    }
    assert(base64::encoded(seq![x, y]) =~= seq![
        letter((x / 4) as int),
        letter((x % 4) * 16 + y / 16),
        letter((y % 16) * 4),
        '=',
    ]) by {
        lemma_bits(x as int, y as int, 0);
        lemma_letter((x / 4) as int);
        lemma_letter((x % 4) * 16 + y / 16);
        lemma_letter((y % 16) * 4);
    }
    assert(base64::encoded(seq![x]) =~= seq![
        letter((x / 4) as int),
        letter((x % 4) * 16),
        '=',
        '=',
    ]) by {
        lemma_bits(x as int, 0, 0);
        lemma_letter((x / 4) as int);
        lemma_letter((x % 4) * 16);
    }
}

/// Longer bytes are encoded three by three, and no bytes give no text.
pub proof fn law_base64_of_parts(a: Seq<u8>, b: Seq<u8>)
    requires
        a.len() == 3,
    ensures
        base64::encoded(Seq::empty()).len() == 0,
        base64::encoded(a + b) == base64::encoded(a) + base64::encoded(b),
{
    if b.len() == 0 {
        assert(a + b =~= a);
        assert(base64::encoded(a) + base64::encoded(b) =~= base64::encoded(a));
    } else {
        assert((a + b).take(3) =~= a);
        assert((a + b).skip(3) =~= b);
    }
}

/// A connection without times of its own ends after five minutes without a
/// sign of life; one is asked for every half a minute, and six may be missing.
pub proof fn law_default_times()
    ensures
        ssh_connect::INACTIVITY_TIMEOUT_SECS == 300,
        ssh_connect::KEEPALIVE_INTERVAL_SECS == 30,
        ssh_connect::KEEPALIVE_MAX == 6,
        ssh_connect::KEEPALIVE_INTERVAL_SECS * ssh_connect::KEEPALIVE_MAX
            < ssh_connect::INACTIVITY_TIMEOUT_SECS,
{
}

} // verus!

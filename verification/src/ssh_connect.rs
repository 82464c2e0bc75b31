//! How an SSH server is reached: the settings of the session, the servers on
//! the way, and the proxy.
use vstd::prelude::*;

use core::time::Duration;

use crate::base64;
use crate::ssh_auth::{AuthView, KeyboardInteractiveTarget, SshAuth};
use crate::text;

verus! {

/// After how many seconds without an answer a server counts as gone.
pub const INACTIVITY_TIMEOUT_SECS: u64 = 300;

/// After how many seconds a server is asked whether it is still there.
pub const KEEPALIVE_INTERVAL_SECS: u64 = 30;

/// How often a server may fail to answer that before it counts as gone.
pub const KEEPALIVE_MAX: usize = 6;

/// What is known of a server once shell integration is set up there.
#[derive(Clone, Debug, PartialEq, Eq)]
pub struct ShellIntegrationSetup {
    pub home_dir: String,
    pub session_dir: String,
    pub login_shell: Option<String>,
}

/// A server on the way to another.
#[derive(Clone, Debug)]
pub struct JumpServerConnectConfig {
    pub host: String,
    pub port: u16,
    pub username: String,
    pub auth: SshAuth,
}

/// The kinds of proxies.
#[derive(Clone, Copy, Debug, PartialEq, Eq, Structural)]
pub enum ProxyType {
    Socks5,
    Http,
}

/// A proxy.
#[derive(Clone, Debug)]
pub struct ProxyConnectConfig {
    pub proxy_type: ProxyType,
    pub host: String,
    pub port: u16,
    pub username: Option<String>,
    pub password: Option<String>,
}

/// How an SSH server is reached.
#[derive(Clone, Debug)]
pub struct SshConnectConfig {
    pub host: String,
    pub port: u16,
    pub username: String,
    pub auth: SshAuth,
    pub timeout: Option<Duration>,
    pub keepalive_interval: Option<Duration>,
    pub keepalive_max: Option<usize>,
    pub jump_server: Option<JumpServerConnectConfig>,
    pub proxy: Option<ProxyConnectConfig>,
}

/// The terminal that a server is asked for.
#[derive(Clone, Debug)]
pub struct PtyConfig {
    pub term: String,
    pub width: u32,
    pub height: u32,
    pub pix_width: u32,
    pub pix_height: u32,
}

impl Default for PtyConfig {
    fn default() -> (r: PtyConfig)
        ensures
            r.term@ == "xterm-256color"@,
            r.width == 80,
            r.height == 24,
            r.pix_width == 0,
            r.pix_height == 0,
    {
        PtyConfig {
            term: "xterm-256color".to_owned(),
            width: 80,
            height: 24,
            pix_width: 0,
            pix_height: 0,
        }
    }
}

/// What a channel brings.
#[derive(Clone, Debug, PartialEq, Eq)]
pub enum ChannelEvent {
    Data(Vec<u8>),
    ExtendedData { ext: u32, data: Vec<u8> },
    Eof,
    ExitStatus(u32),
    ExitSignal { signal_name: String, error_message: String },
    Close,
}

// ---------------------------------------------------------------------------
// Settings
// ---------------------------------------------------------------------------

/// The time of that many seconds.
pub uninterp spec fn seconds(n: u64) -> Duration;

/// `Duration::from_secs`: the time of that many seconds.
#[verifier::external_body]
pub(crate) fn from_secs(n: u64) -> (r: Duration)
    ensures
        r == seconds(n),
{
    Duration::from_secs(n)
}

/// When a session counts as dead, and how it is kept alive.
#[derive(Debug)]
pub struct SessionSettings {
    pub inactivity_timeout: Duration,
    pub keepalive_interval: Duration,
    pub keepalive_max: usize,
}

/// The settings of a session: those that are given, and the defaults for the
/// others.
pub fn session_settings(config: &SshConnectConfig) -> (r: SessionSettings)
    ensures
        r.inactivity_timeout == (match config.timeout {
            Some(t) => t,
            None => seconds(INACTIVITY_TIMEOUT_SECS),
        }),
        r.keepalive_interval == (match config.keepalive_interval {
            Some(t) => t,
            None => seconds(KEEPALIVE_INTERVAL_SECS),
        }),
        r.keepalive_max == (match config.keepalive_max {
            Some(n) => n,
            None => KEEPALIVE_MAX,
        }),
{
    SessionSettings {
        inactivity_timeout: match config.timeout {
            Some(t) => t,
            None => from_secs(INACTIVITY_TIMEOUT_SECS),
        },
        keepalive_interval: match config.keepalive_interval {
            Some(t) => t,
            None => from_secs(KEEPALIVE_INTERVAL_SECS),
        },
        keepalive_max: match config.keepalive_max {
            Some(n) => n,
            None => KEEPALIVE_MAX,
        },
    }
}

// ---------------------------------------------------------------------------
// The way to the server
// ---------------------------------------------------------------------------

/// One step on the way to a server.
#[derive(Debug)]
pub enum ConnectStep {
    Dial { through_proxy: bool, host: String, port: u16 },
    Forward { host: String, port: u16 },
    Authenticate { target: KeyboardInteractiveTarget, username: String, auth: SshAuth },
}

/// The mathematical value of a [`ConnectStep`].
#[allow(inconsistent_fields)]
pub ghost enum StepView {
    Dial { through_proxy: bool, host: Seq<char>, port: u16 },
    Forward { host: Seq<char>, port: u16 },
    Authenticate { target: KeyboardInteractiveTarget, username: Seq<char>, auth: AuthView },
}

impl ConnectStep {
    /// The mathematical value of the step.
    pub open spec fn view(&self) -> StepView {
        match *self {
            ConnectStep::Dial { through_proxy, host, port } => StepView::Dial {
                through_proxy,
                host: host@,
                port,
            },
            ConnectStep::Forward { host, port } => StepView::Forward { host: host@, port },
            ConnectStep::Authenticate { target, username, auth } => StepView::Authenticate {
                target,
                username: username@,
                auth: auth@,
            },
        }
    }
}

/// The mathematical values of a list of steps.
pub open spec fn step_views(v: Seq<ConnectStep>) -> Seq<StepView> {
    Seq::new(v.len(), |i: int| v[i]@)
}

/// The way to the server: straight, through the proxy, or by a server on the
/// way, which is itself reached through the proxy where there is one.
pub open spec fn way(config: SshConnectConfig) -> Seq<StepView> {
    let through_proxy = config.proxy is Some;
    let login = StepView::Authenticate {
        target: KeyboardInteractiveTarget::TargetServer,
        username: config.username@,
        auth: config.auth@,
    };
    match config.jump_server {
        Some(jump) => seq![
            StepView::Dial { through_proxy, host: jump.host@, port: jump.port },
            StepView::Authenticate {
                target: KeyboardInteractiveTarget::JumpServer,
                username: jump.username@,
                auth: jump.auth@,
            },
            StepView::Forward { host: config.host@, port: config.port },
            login,
        ],
        None => seq![
            StepView::Dial { through_proxy, host: config.host@, port: config.port },
            login,
        ],
    }
}

/// The way to the server, step by step.
pub fn connect_steps(config: &SshConnectConfig) -> (r: Vec<ConnectStep>)
    ensures
        step_views(r@) == way(*config),
{
    let through_proxy = config.proxy.is_some();
    let mut steps: Vec<ConnectStep> = Vec::new();
    match &config.jump_server {
        Some(jump) => {
            steps.push(
                ConnectStep::Dial { through_proxy, host: jump.host.clone(), port: jump.port },
            );
            steps.push(
                ConnectStep::Authenticate {
                    target: KeyboardInteractiveTarget::JumpServer,
                    username: jump.username.clone(),
                    auth: jump.auth.copy(),
                },
            );
            steps.push(ConnectStep::Forward { host: config.host.clone(), port: config.port });
        },
        None => {
            steps.push(
                ConnectStep::Dial { through_proxy, host: config.host.clone(), port: config.port },
            );
        },
    }
    steps.push(
        ConnectStep::Authenticate {
            target: KeyboardInteractiveTarget::TargetServer,
            username: config.username.clone(),
            auth: config.auth.copy(),
        },
    );
    assert(step_views(steps@) =~= way(*config));
    steps
}

/// The user is made known to the server itself last of all, and what the user
/// is known by there is shown to no other server.
pub proof fn law_way_ends_at_server(config: SshConnectConfig)
    ensures
        way(config).last() == (StepView::Authenticate {
            target: KeyboardInteractiveTarget::TargetServer,
            username: config.username@,
            auth: config.auth@,
        }),
        way(config)[0] is Dial,
        forall|i: int|
            0 <= i < way(config).len() - 1 ==> (#[trigger] way(config)[i] matches
                StepView::Authenticate { target, username, auth } ==> config.jump_server matches
                Some(jump) && target == KeyboardInteractiveTarget::JumpServer && username
                == jump.username@ && auth == jump.auth@),
{
}

// ---------------------------------------------------------------------------
// The proxy
// ---------------------------------------------------------------------------

/// A host with its port.
pub open spec fn host_and_port(host: Seq<char>, port: u16) -> Seq<char> {
    host + ":"@ + text::decimal(port as nat)
}

/// A host with its port.
pub fn address(host: &str, port: u16) -> (r: String)
    ensures
        r@ == host_and_port(host@, port),
{
    let mut s = host.to_owned();
    s.append(":");
    s.append(text::number(port as u64).as_str());
    s
}

/// The user and the password for a proxy, where both are given.
pub open spec fn proxy_credentials(proxy: ProxyConnectConfig) -> Option<(Seq<char>, Seq<char>)> {
    match (proxy.username, proxy.password) {
        (Some(u), Some(p)) => Some((u@, p@)),
        _ => None,
    }
}

/// What a HTTP proxy is asked to be put through to a server.
pub open spec fn http_connect(
    credentials: Option<(Seq<char>, Seq<char>)>,
    host: Seq<char>,
    port: u16,
) -> Seq<char> {
    let place = host_and_port(host, port);
    "CONNECT "@ + place + " HTTP/1.1\r\nHost: "@ + place + "\r\n"@ + (match credentials {
        Some((user, password)) => "Proxy-Authorization: Basic "@ + base64::encoded(
            vstd::utf8::encode_utf8(user + ":"@ + password),
        ) + "\r\n"@,
        None => Seq::empty(),
    }) + "\r\n"@
}

/// What a HTTP proxy is asked to be put through to a server.
pub fn http_connect_request(proxy: &ProxyConnectConfig, host: &str, port: u16) -> (r: String)
    ensures
        r@ == http_connect(proxy_credentials(*proxy), host@, port),
{
    let place = address(host, port);
    let mut s = "CONNECT ".to_owned();
    s.append(place.as_str());
    s.append(" HTTP/1.1\r\nHost: ");
    s.append(place.as_str());
    s.append("\r\n");
    let mut auth = String::new();
    match (&proxy.username, &proxy.password) {
        (Some(user), Some(password)) => {
            let mut credentials = user.clone();
            credentials.append(":");
            credentials.append(password.as_str());
            auth.append("Proxy-Authorization: Basic ");
            auth.append(base64::base64_encode(credentials.as_str()).as_str());
            auth.append("\r\n");
            assert(auth@ =~= "Proxy-Authorization: Basic "@ + base64::encoded(
                vstd::utf8::encode_utf8(user@ + ":"@ + password@),
            ) + "\r\n"@);
        },
        _ => {},
    }
    s.append(auth.as_str());
    s.append("\r\n");
    s
}

/// Whether a HTTP proxy put the connection through, by the first line of its
/// answer; where it did not, what it said.
pub fn http_proxy_answer(line: &str) -> (r: Result<(), String>)
    ensures
        match r {
            Ok(_) => text::occurs(line@, "200"@),
            Err(said) => !text::occurs(line@, "200"@) && said@ == text::trimmed(line@),
        },
{
    if text::contains(line, "200") {
        Ok(())
    } else {
        Err(text::trim(line))
    }
}

/// Whether a line of the answer of a HTTP proxy is the last before the
/// connection itself: an empty line, or none at all.
pub fn ends_proxy_headers(line: &str) -> (r: bool)
    ensures
        r == (line@ == "\r\n"@ || line@.len() == 0),
{
    line.is_empty() || text::same(line, "\r\n")
}

// ---------------------------------------------------------------------------
// Is the server there
// ---------------------------------------------------------------------------

/// What came of asking a server whether it is there.
#[derive(Debug)]
pub enum PingResult {
    Answered,
    Broken(String),
    TimedOut,
}

/// Why a server is not there; nothing where it is.
pub open spec fn ping_failure(closed: bool, result: PingResult) -> Option<Seq<char>> {
    if closed {
        Some("session already closed"@)
    } else {
        match result {
            PingResult::Answered => None,
            PingResult::Broken(e) => Some("ping failed: "@ + e@),
            PingResult::TimedOut => Some("ping timed out after 3s"@),
        }
    }
}

/// Why a server is not there; nothing where it is.
pub fn ping_outcome(closed: bool, result: &PingResult) -> (r: Option<String>)
    ensures
        text::opt_view(r) == ping_failure(closed, *result),
{
    if closed {
        return Some("session already closed".to_owned());
    }
    match result {
        PingResult::Answered => None,
        PingResult::Broken(e) => {
            let mut s = "ping failed: ".to_owned();
            s.append(e.as_str());
            Some(s)
        },
        PingResult::TimedOut => Some("ping timed out after 3s".to_owned()),
    }
}

} // verus!

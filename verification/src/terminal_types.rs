//! What a terminal is made from and what it reports: stored connections,
//! events, and what has to be done outside it.
use vstd::prelude::*;

use core::time::Duration;

use crate::ssh_auth::{AuthView, SshAuth};
use crate::ssh_connect;
use crate::ssh_connect::{JumpServerConnectConfig, ProxyConnectConfig, ProxyType, PtyConfig,
    SshConnectConfig};
use crate::text;

verus! {

/// How many columns a terminal has at first.
pub const DEFAULT_COLS: usize = 80;

/// How many rows a terminal has at first.
pub const DEFAULT_ROWS: usize = 24;

/// How many lines a terminal can scroll back.
pub const SCROLLING_HISTORY: usize = 10000;

// ---------------------------------------------------------------------------
// Stored connections
// ---------------------------------------------------------------------------

/// How a user is made known, as it is stored.
#[derive(Clone, Debug)]
pub enum SshAuthMethod {
    Password { password: String },
    PrivateKey { key_path: String, passphrase: Option<String> },
    Agent,
    AutoPublicKey,
}

/// A server on the way, as it is stored.
#[derive(Clone, Debug)]
pub struct StoredJumpServer {
    pub host: String,
    pub port: u16,
    pub username: String,
    pub auth_method: SshAuthMethod,
}

/// A proxy, as it is stored.
#[derive(Clone, Debug)]
pub struct StoredProxy {
    pub proxy_type: ProxyType,
    pub host: String,
    pub port: u16,
    pub username: Option<String>,
    pub password: Option<String>,
}

/// An SSH connection, as it is stored. Times are in seconds.
#[derive(Clone, Debug)]
pub struct StoredSshParams {
    pub host: String,
    pub port: u16,
    pub username: String,
    pub auth_method: SshAuthMethod,
    pub connect_timeout: Option<u64>,
    pub keepalive_interval: Option<u64>,
    pub keepalive_max: Option<usize>,
    pub default_directory: Option<String>,
    pub init_script: Option<String>,
    pub disable_shell_integration: Option<bool>,
    pub jump_server: Option<StoredJumpServer>,
    pub proxy: Option<StoredProxy>,
}

/// The method as it is used.
pub open spec fn method_used(m: SshAuthMethod) -> AuthView {
    match m {
        SshAuthMethod::Password { password } => AuthView::Password(password@),
        SshAuthMethod::PrivateKey { key_path, passphrase } => AuthView::PrivateKey {
            key_path: key_path@,
            passphrase: text::opt_view(passphrase),
            certificate_path: None,
        },
        SshAuthMethod::Agent => AuthView::Agent,
        SshAuthMethod::AutoPublicKey => AuthView::AutoPublicKey,
    }
}

/// The password of a method, where it has one.
pub open spec fn method_password(m: SshAuthMethod) -> Option<Seq<char>> {
    match m {
        SshAuthMethod::Password { password } => Some(password@),
        _ => None,
    }
}

/// The password for the server on the way, where there is one.
pub open spec fn jump_password(p: StoredSshParams) -> Option<Seq<char>> {
    match p.jump_server {
        Some(jump) => method_password(jump.auth_method),
        None => None,
    }
}

impl SshAuthMethod {
    /// The method as it is used.
    pub fn used(&self) -> (r: SshAuth)
        ensures
            r@ == method_used(*self),
    {
        match self {
            SshAuthMethod::Password { password } => SshAuth::Password(password.clone()),
            SshAuthMethod::PrivateKey { key_path, passphrase } => SshAuth::PrivateKey {
                key_path: key_path.clone(),
                passphrase: text::copy_opt(passphrase),
                certificate_path: None,
            },
            SshAuthMethod::Agent => SshAuth::Agent,
            SshAuthMethod::AutoPublicKey => SshAuth::AutoPublicKey,
        }
    }

    /// The password of the method, where it has one.
    pub fn password(&self) -> (r: Option<String>)
        ensures
            text::opt_view(r) == method_password(*self),
    {
        match self {
            SshAuthMethod::Password { password } => Some(password.clone()),
            _ => None,
        }
    }
}

/// An SSH session with its terminal.
#[derive(Clone, Debug)]
pub struct SshTerminalConfig {
    pub ssh_config: SshConnectConfig,
    pub pty_config: PtyConfig,
    pub disable_shell_integration: bool,
}

/// A time that may be given.
pub open spec fn time_given(secs: Option<u64>) -> Option<Duration> {
    match secs {
        Some(n) => Some(ssh_connect::seconds(n)),
        None => None,
    }
}

/// The server on the way is the stored one.
pub open spec fn jump_matches(
    jump: Option<JumpServerConnectConfig>,
    stored: Option<StoredJumpServer>,
) -> bool {
    match (jump, stored) {
        (Some(j), Some(s)) => j.host == s.host && j.port == s.port && j.username == s.username
            && j.auth@ == method_used(s.auth_method),
        (None, None) => true,
        _ => false,
    }
}

/// The proxy is the stored one.
pub open spec fn proxy_matches(
    proxy: Option<ProxyConnectConfig>,
    stored: Option<StoredProxy>,
) -> bool {
    match (proxy, stored) {
        (Some(p), Some(s)) => p.proxy_type == s.proxy_type && p.host == s.host && p.port == s.port
            && p.username == s.username && p.password == s.password,
        (None, None) => true,
        _ => false,
    }
}

/// The session is that of the stored connection.
pub open spec fn config_matches(c: SshTerminalConfig, p: StoredSshParams) -> bool {
    &&& c.ssh_config.host == p.host
    &&& c.ssh_config.port == p.port
    &&& c.ssh_config.username == p.username
    &&& c.ssh_config.auth@ == method_used(p.auth_method)
    &&& c.ssh_config.timeout == time_given(p.connect_timeout)
    &&& c.ssh_config.keepalive_interval == time_given(p.keepalive_interval)
    &&& c.ssh_config.keepalive_max == p.keepalive_max
    &&& jump_matches(c.ssh_config.jump_server, p.jump_server)
    &&& proxy_matches(c.ssh_config.proxy, p.proxy)
    &&& c.pty_config.term@ == "xterm-256color"@
    &&& c.pty_config.width == 80
    &&& c.pty_config.height == 24
    &&& c.pty_config.pix_width == 0
    &&& c.pty_config.pix_height == 0
    &&& c.disable_shell_integration == (p.disable_shell_integration == Some(true))
}

/// A time that may be given.
fn given_time(secs: Option<u64>) -> (r: Option<Duration>)
    ensures
        r == time_given(secs),
{
    match secs {
        Some(n) => Some(ssh_connect::from_secs(n)),
        None => None,
    }
}

/// The session of a stored connection.
pub fn ssh_terminal_config(params: &StoredSshParams) -> (r: SshTerminalConfig)
    ensures
        config_matches(r, *params),
{
    let jump_server = match &params.jump_server {
        Some(jump) => Some(
            JumpServerConnectConfig {
                host: jump.host.clone(),
                port: jump.port,
                username: jump.username.clone(),
                auth: jump.auth_method.used(),
            },
        ),
        None => None,
    };
    let proxy = match &params.proxy {
        Some(p) => Some(
            ProxyConnectConfig {
                proxy_type: p.proxy_type,
                host: p.host.clone(),
                port: p.port,
                username: text::copy_opt(&p.username),
                password: text::copy_opt(&p.password),
            },
        ),
        None => None,
    };
    SshTerminalConfig {
        ssh_config: SshConnectConfig {
            host: params.host.clone(),
            port: params.port,
            username: params.username.clone(),
            auth: params.auth_method.used(),
            timeout: given_time(params.connect_timeout),
            keepalive_interval: given_time(params.keepalive_interval),
            keepalive_max: params.keepalive_max,
            jump_server,
            proxy,
        },
        pty_config: PtyConfig::default(),
        disable_shell_integration: match params.disable_shell_integration {
            Some(b) => b,
            None => false,
        },
    }
}

// ---------------------------------------------------------------------------
// Events
// ---------------------------------------------------------------------------

/// What the program in a terminal does.
#[derive(Clone, Debug, PartialEq, Eq)]
pub enum TerminalEvent {
    Wakeup,
    SshMfaChanged,
    PromptStart,
    InputStart,
    TitleChanged(String),
    Bell,
    ChildExit(i32),
    ClipboardStore(String),
    ClipboardLoad,
    WorkingDirChanged(String),
    CommandFinished { exit_code: i32 },
    CommandRecorded(String),
}

/// What a terminal reports.
#[derive(Clone, Debug, PartialEq, Eq)]
pub enum TerminalModelEvent {
    Wakeup,
    SshMfaChanged,
    PromptStart,
    InputStart,
    TitleChanged(String),
    Bell,
    ChildExit(i32),
    ClipboardStore(String),
    WorkingDirChanged(String),
}

/// The mathematical value of a [`TerminalModelEvent`].
pub ghost enum ModelEventView {
    Wakeup,
    SshMfaChanged,
    PromptStart,
    InputStart,
    TitleChanged(Seq<char>),
    Bell,
    ChildExit(i32),
    ClipboardStore(Seq<char>),
    WorkingDirChanged(Seq<char>),
}

impl TerminalModelEvent {
    /// The mathematical value of the event.
    pub open spec fn view(&self) -> ModelEventView {
        match *self {
            TerminalModelEvent::Wakeup => ModelEventView::Wakeup,
            TerminalModelEvent::SshMfaChanged => ModelEventView::SshMfaChanged,
            TerminalModelEvent::PromptStart => ModelEventView::PromptStart,
            TerminalModelEvent::InputStart => ModelEventView::InputStart,
            TerminalModelEvent::TitleChanged(s) => ModelEventView::TitleChanged(s@),
            TerminalModelEvent::Bell => ModelEventView::Bell,
            TerminalModelEvent::ChildExit(code) => ModelEventView::ChildExit(code),
            TerminalModelEvent::ClipboardStore(s) => ModelEventView::ClipboardStore(s@),
            TerminalModelEvent::WorkingDirChanged(s) => ModelEventView::WorkingDirChanged(s@),
        }
    }
}

/// The size of a terminal, as the program in it is told.
#[derive(Clone, Copy, Debug, PartialEq, Eq, Structural)]
pub struct TerminalSize {
    pub rows: u16,
    pub cols: u16,
    pub pixel_width: u16,
    pub pixel_height: u16,
}

/// Whether a terminal is connected.
#[derive(Clone, Debug, PartialEq, Eq)]
pub enum ConnectionState {
    Connected,
    Connecting,
    Disconnected { error: Option<String> },
}

/// The mathematical value of a [`ConnectionState`].
pub ghost enum StateView {
    Connected,
    Connecting,
    Disconnected { error: Option<Seq<char>> },
}

impl ConnectionState {
    /// The mathematical value of the state.
    pub open spec fn view(&self) -> StateView {
        match *self {
            ConnectionState::Connected => StateView::Connected,
            ConnectionState::Connecting => StateView::Connecting,
            ConnectionState::Disconnected { error } => StateView::Disconnected {
                error: text::opt_view(error),
            },
        }
    }
}

/// What a terminal is connected to.
#[derive(Clone, Copy, Debug, PartialEq, Eq, Structural)]
pub enum TerminalConnectionKind {
    Local,
    Ssh,
    Serial,
}

/// What has to be done outside a terminal.
#[allow(inconsistent_fields)]
#[derive(Debug)]
pub enum TerminalEffect {
    Emit(TerminalModelEvent),
    MfaChanged,
    SetActive { connection_id: i64, active: bool },
    ResizeSurface { cols: usize, rows: usize },
    ResetSurface { cols: usize, rows: usize },
    ResizeBackend(TerminalSize),
    Write(Vec<u8>),
    ShutdownBackend,
    DropBackend,
    ShutdownArrived,
    CloseSession { generation: u64 },
    ConnectSsh { generation: u64 },
    ConnectSerial { generation: u64 },
    LoadHistory,
    RecordCommand { command: String, cwd: Option<String> },
    RecordExitCode(i32),
}

/// The mathematical value of a [`TerminalEffect`].
#[allow(inconsistent_fields)]
pub ghost enum EffectView {
    Emit(ModelEventView),
    MfaChanged,
    SetActive { connection_id: i64, active: bool },
    ResizeSurface { cols: usize, rows: usize },
    ResetSurface { cols: usize, rows: usize },
    ResizeBackend(TerminalSize),
    Write(Seq<u8>),
    ShutdownBackend,
    DropBackend,
    ShutdownArrived,
    CloseSession { generation: u64 },
    ConnectSsh { generation: u64 },
    ConnectSerial { generation: u64 },
    LoadHistory,
    RecordCommand { command: Seq<char>, cwd: Option<Seq<char>> },
    RecordExitCode(i32),
}

impl TerminalEffect {
    /// The mathematical value of the effect.
    pub open spec fn view(&self) -> EffectView {
        match *self {
            TerminalEffect::Emit(e) => EffectView::Emit(e@),
            TerminalEffect::MfaChanged => EffectView::MfaChanged,
            TerminalEffect::SetActive { connection_id, active } => EffectView::SetActive {
                connection_id,
                active,
            },
            TerminalEffect::ResizeSurface { cols, rows } => EffectView::ResizeSurface {
                cols,
                rows,
            },
            TerminalEffect::ResetSurface { cols, rows } => EffectView::ResetSurface { cols, rows },
            TerminalEffect::ResizeBackend(size) => EffectView::ResizeBackend(size),
            TerminalEffect::Write(data) => EffectView::Write(data@),
            TerminalEffect::ShutdownBackend => EffectView::ShutdownBackend,
            TerminalEffect::DropBackend => EffectView::DropBackend,
            TerminalEffect::ShutdownArrived => EffectView::ShutdownArrived,
            TerminalEffect::CloseSession { generation } => EffectView::CloseSession { generation },
            TerminalEffect::ConnectSsh { generation } => EffectView::ConnectSsh { generation },
            TerminalEffect::ConnectSerial { generation } => EffectView::ConnectSerial {
                generation,
            },
            TerminalEffect::LoadHistory => EffectView::LoadHistory,
            TerminalEffect::RecordCommand { command, cwd } => EffectView::RecordCommand {
                command: command@,
                cwd: text::opt_view(cwd),
            },
            TerminalEffect::RecordExitCode(code) => EffectView::RecordExitCode(code),
        }
    }
}

/// The mathematical values of a list of effects.
pub open spec fn effect_views(v: Seq<TerminalEffect>) -> Seq<EffectView> {
    Seq::new(v.len(), |i: int| v[i]@)
}

/// One more effect.
pub(crate) fn push_effect(v: &mut Vec<TerminalEffect>, e: TerminalEffect)
    ensures
        effect_views(final(v)@) == effect_views(old(v)@).push(e@),
{
    let ghost before = v@;
    v.push(e);
    assert(effect_views(v@) =~= effect_views(before).push(e@));
}

/// No effects.
pub(crate) fn no_effects() -> (r: Vec<TerminalEffect>)
    ensures
        effect_views(r@) == Seq::<EffectView>::empty(),
{
    let r: Vec<TerminalEffect> = Vec::new();
    assert(effect_views(r@) =~= Seq::<EffectView>::empty());
    r
}

// ---------------------------------------------------------------------------
// Events that wait to be shown
// ---------------------------------------------------------------------------

/// Events that wait to be shown together.
#[derive(Debug)]
pub struct EventQueue {
    pub wakeup: bool,
    pub events: Vec<TerminalEvent>,
}

impl EventQueue {
    /// Nothing waits.
    pub fn new() -> (r: EventQueue)
        ensures
            !r.wakeup,
            r.events@.len() == 0,
    {
        EventQueue { wakeup: false, events: Vec::new() }
    }

    /// Takes an event over; that something is to be drawn is noted once.
    pub fn push(&mut self, event: TerminalEvent)
        ensures
            event is Wakeup ==> final(self).wakeup && final(self).events@ == old(self).events@,
            !(event is Wakeup) ==> final(self).wakeup == old(self).wakeup && final(self).events@
                == old(self).events@.push(event),
    {
        match event {
            TerminalEvent::Wakeup => {
                self.wakeup = true;
            },
            event => {
                self.events.push(event);
            },
        }
    }

    /// Hands out what waits: the events in their order, and last of all that
    /// something is to be drawn.
    pub fn drain(&mut self) -> (r: Vec<TerminalEvent>)
        ensures
            r@ == (if old(self).wakeup {
                old(self).events@.push(TerminalEvent::Wakeup)
            } else {
                old(self).events@
            }),
            !final(self).wakeup,
            final(self).events@.len() == 0,
    {
        let mut out: Vec<TerminalEvent> = Vec::new();
        out.append(&mut self.events);
        assert(out@ =~= old(self).events@);
        if self.wakeup {
            self.wakeup = false;
            out.push(TerminalEvent::Wakeup);
        }
        out
    }
}

// ---------------------------------------------------------------------------
// Places on the surface
// ---------------------------------------------------------------------------

/// How far a terminal is scrolled, and how large it is.
#[derive(Clone, Copy, Debug, PartialEq, Eq, Structural)]
pub struct TerminalScrollSnapshot {
    pub display_offset: usize,
    pub history_size: usize,
    pub screen_lines: usize,
    pub columns: usize,
}

/// A stretch of a terminal: from the beginning of one line to the end of
/// another. Lines above the screen count down from minus one.
#[derive(Clone, Copy, Debug, PartialEq, Eq, Structural)]
pub struct LineRange {
    pub first_line: i32,
    pub last_line: i32,
    pub last_column: usize,
}

impl TerminalScrollSnapshot {
    /// All of a terminal, with the lines that were scrolled away.
    pub fn everything(&self) -> (r: LineRange)
        requires
            self.history_size <= i32::MAX,
            self.screen_lines <= i32::MAX,
            self.columns >= 1,
        ensures
            r.first_line == -self.history_size,
            r.last_line == self.screen_lines - 1,
            r.last_column == self.columns - 1,
    {
        LineRange {
            first_line: -(self.history_size as i32),
            last_line: self.screen_lines as i32 - 1,
            last_column: self.columns - 1,
        }
    }

    /// The line of a terminal that is shown at a line of the window.
    pub fn line_at(&self, line: i32) -> (r: i32)
        requires
            self.display_offset <= i32::MAX,
            i32::MIN <= line - self.display_offset,
        ensures
            r == line - self.display_offset,
    {
        line - self.display_offset as i32
    }
}

/// All of a terminal holds every line that can be shown, however far it is
/// scrolled.
pub proof fn law_everything_is_selected(s: TerminalScrollSnapshot, r: LineRange, line: int)
    requires
        s.display_offset <= s.history_size <= i32::MAX,
        s.screen_lines <= i32::MAX,
        0 <= line < s.screen_lines,
        r.first_line == -s.history_size,
        r.last_line == s.screen_lines - 1,
    ensures
        r.first_line <= line - s.display_offset <= r.last_line,
{
}

} // verus!

//! A terminal: what it is connected to, whether it is, and what it knows of
//! the program in it.
//!
//! The surface and the connection itself are outside; what has to be done
//! there follows from every operation. Connections are counted, and what comes
//! of one that is no longer current is ignored.
use vstd::prelude::*;

use crate::mfa;
use crate::mfa::{ResponderView, TerminalMfaRequest, TerminalMfaResponder};
use crate::shell;
use crate::terminal_types;
use crate::terminal_types::{no_effects, push_effect, ConnectionState, EffectView, ModelEventView,
    SshTerminalConfig, StateView, StoredSshParams, TerminalConnectionKind, TerminalEffect,
    TerminalEvent, TerminalModelEvent, TerminalSize, DEFAULT_COLS, DEFAULT_ROWS};
use crate::text;

verus! {

/// A terminal.
#[derive(Debug)]
pub struct Terminal {
    pub has_backend: bool,
    pub title: String,
    pub current_working_dir: Option<String>,
    pub child_exited: Option<i32>,
    pub connection_state: ConnectionState,
    pub cols: usize,
    pub rows: usize,
    pub pixel_width: u16,
    pub pixel_height: u16,
    pub ssh_config: Option<SshTerminalConfig>,
    pub mfa: Option<TerminalMfaResponder>,
    pub has_serial_params: bool,
    pub connection_id: Option<i64>,
    pub connection_name: Option<String>,
    pub init_commands: Option<String>,
    pub persisted_history: Vec<String>,
    pub connection_generation: u64,
    pub connection_kind: TerminalConnectionKind,
}

/// The mathematical value of a [`Terminal`].
pub ghost struct TerminalView {
    pub has_backend: bool,
    pub title: Seq<char>,
    pub current_working_dir: Option<Seq<char>>,
    pub child_exited: Option<i32>,
    pub connection_state: StateView,
    pub cols: usize,
    pub rows: usize,
    pub pixel_width: u16,
    pub pixel_height: u16,
    pub ssh_config: Option<SshTerminalConfig>,
    pub mfa: Option<ResponderView>,
    pub has_serial_params: bool,
    pub connection_id: Option<i64>,
    pub connection_name: Option<Seq<char>>,
    pub init_commands: Option<Seq<char>>,
    pub persisted_history: Seq<Seq<char>>,
    pub generation: u64,
    pub kind: TerminalConnectionKind,
}

/// What an operation makes of a terminal, and what follows outside it.
pub ghost struct Step {
    pub state: TerminalView,
    pub effects: Seq<EffectView>,
}

/// What came of an attempt to connect.
#[derive(Debug)]
pub enum ConnectOutcome {
    Connected,
    Failed(anyhow::Error),
    Broken(String),
}

/// The text of an error with all that lies behind it.
pub uninterp spec fn error_chain(e: anyhow::Error) -> Seq<char>;

/// The alternate `Display` text of `anyhow::Error`: the error and its causes.
#[verifier::external_body]
pub(crate) fn chain_text(e: &anyhow::Error) -> (r: String)
    ensures
        r@ == error_chain(*e),
{
    format!("{e:#}")
}

/// The text of an error with all that lies behind it.
pub fn format_connection_error(e: &anyhow::Error) -> (r: String)
    ensures
        r@ == error_chain(*e),
{
    chain_text(e)
}

// ---------------------------------------------------------------------------
// What every operation means
// ---------------------------------------------------------------------------

/// Nothing follows outside.
pub open spec fn quiet(state: TerminalView) -> Step {
    Step { state, effects: Seq::empty() }
}

/// The state and what follows make up the step.
pub open spec fn makes(state: TerminalView, effects: Seq<TerminalEffect>, step: Step) -> bool {
    state == step.state && terminal_types::effect_views(effects) == step.effects
}

/// That something is to be drawn is reported.
pub open spec fn wakeup() -> EffectView {
    EffectView::Emit(ModelEventView::Wakeup)
}

/// The number after a connection; none is ever zero.
pub open spec fn generation_after(g: u64) -> u64 {
    if g == u64::MAX {
        1
    } else {
        (g + 1) as u64
    }
}

/// What is noted of the connection: whether it is in use.
pub open spec fn activity(s: TerminalView, active: bool) -> Seq<EffectView> {
    match s.connection_id {
        Some(connection_id) => seq![EffectView::SetActive { connection_id, active }],
        None => Seq::empty(),
    }
}

/// The questions that wait are given up.
pub open spec fn questions_dropped(s: TerminalView) -> TerminalView {
    TerminalView {
        mfa: match s.mfa {
            Some(m) => Some(ResponderView { pending: None, ..m }),
            None => None,
        },
        ..s
    }
}

/// That the questions changed is reported, where some waited.
pub open spec fn questions_report(s: TerminalView) -> Seq<EffectView> {
    if s.mfa matches Some(m) && m.pending is Some {
        seq![EffectView::MfaChanged]
    } else {
        Seq::empty()
    }
}

/// The size that the program in a terminal is told.
pub open spec fn told_size(s: TerminalView, pixel_width: u16, pixel_height: u16) -> TerminalSize {
    TerminalSize { rows: s.rows as u16, cols: s.cols as u16, pixel_width, pixel_height }
}

/// What came of an attempt to connect.
pub ghost enum OutcomeView {
    Connected,
    Failed(Seq<char>),
}

/// The mathematical value of a [`ConnectOutcome`].
pub open spec fn outcome_view(o: ConnectOutcome) -> OutcomeView {
    match o {
        ConnectOutcome::Connected => OutcomeView::Connected,
        ConnectOutcome::Failed(e) => OutcomeView::Failed(error_chain(e)),
        ConnectOutcome::Broken(s) => OutcomeView::Failed(s@),
    }
}

/// An attempt to reach an SSH server came to an end. A connection that comes
/// too late is shut down; one that is wanted is told the size of the terminal.
pub open spec fn ssh_attempt_ended(s: TerminalView, outcome: OutcomeView, generation: u64) -> Step {
    if s.generation != generation {
        Step {
            state: s,
            effects: if outcome is Connected {
                seq![EffectView::ShutdownArrived]
            } else {
                Seq::empty()
            },
        }
    } else {
        match outcome {
            OutcomeView::Connected => Step {
                state: TerminalView {
                    connection_state: StateView::Connected,
                    has_backend: true,
                    ..s
                },
                effects: activity(s, true) + seq![
                    EffectView::ResizeSurface { cols: s.cols, rows: s.rows },
                    EffectView::ResizeBackend(told_size(s, 0, 0)),
                    wakeup(),
                ],
            },
            OutcomeView::Failed(why) => Step {
                state: TerminalView {
                    connection_state: StateView::Disconnected { error: Some(why) },
                    ..questions_dropped(s)
                },
                effects: questions_report(s) + activity(s, false) + seq![wakeup()],
            },
        }
    }
}

/// The mathematical value of a bare result.
pub open spec fn result_view(r: Result<(), String>) -> Result<(), Seq<char>> {
    match r {
        Ok(u) => Ok(u),
        Err(e) => Err(e@),
    }
}

/// An attempt to open a serial port came to an end.
pub open spec fn serial_attempt_ended(
    s: TerminalView,
    result: Result<(), Seq<char>>,
    generation: u64,
) -> Step {
    if s.generation != generation {
        Step {
            state: s,
            effects: if result is Ok {
                seq![EffectView::ShutdownArrived]
            } else {
                Seq::empty()
            },
        }
    } else {
        match result {
            Ok(_) => Step {
                state: TerminalView {
                    connection_state: StateView::Connected,
                    has_backend: true,
                    ..s
                },
                effects: activity(s, true) + seq![wakeup()],
            },
            Err(why) => Step {
                state: TerminalView {
                    connection_state: StateView::Disconnected { error: Some(why) },
                    ..s
                },
                effects: activity(s, false) + seq![wakeup()],
            },
        }
    }
}

/// A connection was lost.
pub open spec fn connection_lost(s: TerminalView, generation: u64) -> Step {
    if s.generation != generation {
        quiet(s)
    } else {
        Step {
            state: TerminalView {
                connection_state: StateView::Disconnected { error: None },
                has_backend: false,
                ..s
            },
            effects: seq![EffectView::DropBackend] + activity(s, false) + seq![wakeup()],
        }
    }
}

/// A terminal with nothing on it.
pub open spec fn surface_reset(s: TerminalView) -> TerminalView {
    TerminalView {
        title: Seq::empty(),
        current_working_dir: None,
        child_exited: None,
        ..s
    }
}

/// A terminal that is about to be connected anew.
pub open spec fn restarted(s: TerminalView) -> TerminalView {
    TerminalView {
        connection_state: StateView::Connecting,
        has_backend: false,
        generation: generation_after(s.generation),
        ..surface_reset(s)
    }
}

/// What is done with the old connection and the surface before a terminal is
/// connected anew.
pub open spec fn restart_effects(s: TerminalView) -> Seq<EffectView> {
    activity(s, false) + (if s.has_backend {
        seq![EffectView::ShutdownBackend]
    } else {
        Seq::empty()
    }) + seq![EffectView::ResetSurface { cols: s.cols, rows: s.rows }]
}

/// A terminal is connected anew, where that can be done.
pub open spec fn reconnected(s: TerminalView) -> Step {
    let generation = generation_after(s.generation);
    if s.ssh_config is Some {
        Step {
            state: questions_dropped(restarted(s)),
            effects: restart_effects(s) + questions_report(s) + seq![
                EffectView::CloseSession { generation },
                wakeup(),
            ],
        }
    } else if s.has_serial_params {
        Step {
            state: restarted(s),
            effects: restart_effects(s) + seq![EffectView::ConnectSerial { generation }, wakeup()],
        }
    } else {
        quiet(s)
    }
}

/// What the program in a terminal does is taken over and reported.
pub open spec fn event_handled(s: TerminalView, event: TerminalEvent) -> Step {
    match event {
        TerminalEvent::Wakeup => Step { state: s, effects: seq![wakeup()] },
        TerminalEvent::SshMfaChanged => Step {
            state: s,
            effects: seq![EffectView::Emit(ModelEventView::SshMfaChanged)],
        },
        TerminalEvent::PromptStart => Step {
            state: s,
            effects: seq![EffectView::Emit(ModelEventView::PromptStart)],
        },
        TerminalEvent::InputStart => Step {
            state: s,
            effects: seq![EffectView::Emit(ModelEventView::InputStart)],
        },
        TerminalEvent::TitleChanged(title) => Step {
            state: TerminalView { title: title@, ..s },
            effects: seq![EffectView::Emit(ModelEventView::TitleChanged(title@))],
        },
        TerminalEvent::Bell => Step {
            state: s,
            effects: seq![EffectView::Emit(ModelEventView::Bell)],
        },
        TerminalEvent::ChildExit(code) => Step {
            state: TerminalView { child_exited: Some(code), ..s },
            effects: seq![EffectView::Emit(ModelEventView::ChildExit(code))],
        },
        TerminalEvent::ClipboardStore(data) => Step {
            state: s,
            effects: seq![EffectView::Emit(ModelEventView::ClipboardStore(data@))],
        },
        TerminalEvent::ClipboardLoad => quiet(s),
        TerminalEvent::WorkingDirChanged(path) => Step {
            state: TerminalView { current_working_dir: Some(path@), ..s },
            effects: seq![EffectView::Emit(ModelEventView::WorkingDirChanged(path@))],
        },
        TerminalEvent::CommandFinished { exit_code } => Step {
            state: s,
            effects: seq![EffectView::RecordExitCode(exit_code)],
        },
        TerminalEvent::CommandRecorded(command) => Step {
            state: s,
            effects: seq![
                EffectView::RecordCommand { command: command@, cwd: s.current_working_dir },
            ],
        },
    }
}

/// A terminal gets another size. Where the cells stay as they are, only the
/// pixels are noted.
pub open spec fn resized(
    s: TerminalView,
    cols: usize,
    rows: usize,
    pixel_width: u16,
    pixel_height: u16,
) -> Step {
    let after = TerminalView { cols, rows, pixel_width, pixel_height, ..s };
    if s.cols == cols && s.rows == rows {
        quiet(after)
    } else {
        Step {
            state: after,
            effects: seq![EffectView::ResizeSurface { cols, rows }] + (if s.has_backend {
                seq![EffectView::ResizeBackend(told_size(after, pixel_width, pixel_height))]
            } else {
                Seq::empty()
            }),
        }
    }
}

/// The history of the shell is taken over.
pub open spec fn history_loaded(s: TerminalView, history: Seq<Seq<char>>, limit: usize) -> Step {
    let kept = shell::last_commands(shell::kept_commands(history), limit as int);
    if s.persisted_history == kept {
        quiet(s)
    } else {
        Step { state: TerminalView { persisted_history: kept, ..s }, effects: seq![wakeup()] }
    }
}

// ---------------------------------------------------------------------------
// The terminal
// ---------------------------------------------------------------------------

/// Whether two lists hold the same texts.
fn same_texts(a: &Vec<String>, b: &Vec<String>) -> (r: bool)
    ensures
        r == (text::views(a@) == text::views(b@)),
{
    if a.len() != b.len() {
        assert(text::views(a@).len() != text::views(b@).len());
        return false;
    }
    let mut i: usize = 0;
    while i < a.len()
        invariant
            i <= a@.len(),
            a@.len() == b@.len(),
            forall|j: int| 0 <= j < i ==> (#[trigger] a@[j])@ == b@[j]@,
        decreases a@.len() - i,
    {
        if !text::same(a[i].as_str(), b[i].as_str()) {
            assert(text::views(a@)[i as int] != text::views(b@)[i as int]);
            return false;
        }
        i = i + 1;
    }
    assert(text::views(a@) =~= text::views(b@));
    true
}

impl Terminal {
    /// The mathematical value of the terminal.
    pub open spec fn view(&self) -> TerminalView {
        TerminalView {
            has_backend: self.has_backend,
            title: self.title@,
            current_working_dir: text::opt_view(self.current_working_dir),
            child_exited: self.child_exited,
            connection_state: self.connection_state@,
            cols: self.cols,
            rows: self.rows,
            pixel_width: self.pixel_width,
            pixel_height: self.pixel_height,
            ssh_config: self.ssh_config,
            mfa: match self.mfa {
                Some(m) => Some(m@),
                None => None,
            },
            has_serial_params: self.has_serial_params,
            connection_id: self.connection_id,
            connection_name: text::opt_view(self.connection_name),
            init_commands: text::opt_view(self.init_commands),
            persisted_history: text::views(self.persisted_history@),
            generation: self.connection_generation,
            kind: self.connection_kind,
        }
    }

    /// A terminal with nothing on it and no connection.
    fn blank(connection_state: ConnectionState, connection_kind: TerminalConnectionKind) -> (r:
        Terminal)
        ensures
            r@ == blank_terminal(connection_state@, connection_kind),
    {
        let persisted_history: Vec<String> = Vec::new();
        assert(text::views(persisted_history@) =~= Seq::empty());
        Terminal {
            has_backend: false,
            title: String::new(),
            current_working_dir: None,
            child_exited: None,
            connection_state,
            cols: DEFAULT_COLS,
            rows: DEFAULT_ROWS,
            pixel_width: 0,
            pixel_height: 0,
            ssh_config: None,
            mfa: None,
            has_serial_params: false,
            connection_id: None,
            connection_name: None,
            init_commands: None,
            persisted_history,
            connection_generation: 0,
            connection_kind,
        }
    }

    /// A local terminal whose program could not be started.
    pub fn new_local_disconnected(error: String) -> (r: Terminal)
        ensures
            r@ == blank_terminal(
                StateView::Disconnected { error: Some(error@) },
                TerminalConnectionKind::Local,
            ),
    {
        Terminal::blank(
            ConnectionState::Disconnected { error: Some(error) },
            TerminalConnectionKind::Local,
        )
    }

    /// A local terminal whose program runs, and what follows outside.
    pub fn new_local() -> (r: (Terminal, Vec<TerminalEffect>))
        ensures
            r.0@ == (TerminalView {
                has_backend: true,
                ..blank_terminal(StateView::Connected, TerminalConnectionKind::Local)
            }),
            terminal_types::effect_views(r.1@) == seq![EffectView::LoadHistory],
    {
        let mut t = Terminal::blank(ConnectionState::Connected, TerminalConnectionKind::Local);
        t.has_backend = true;
        let mut effects = no_effects();
        push_effect(&mut effects, TerminalEffect::LoadHistory);
        assert(terminal_types::effect_views(effects@) =~= seq![EffectView::LoadHistory]);
        (t, effects)
    }

    /// A local terminal, whether its program could be started or not, and what
    /// to say where it could not.
    pub fn new_local_or_disconnected(started: Result<(), String>) -> (r: (
        Terminal,
        Option<String>,
        Vec<TerminalEffect>,
    ))
        ensures
            match started {
                Ok(_) => r.0@ == (TerminalView {
                    has_backend: true,
                    ..blank_terminal(StateView::Connected, TerminalConnectionKind::Local)
                }) && r.1 is None && terminal_types::effect_views(r.2@) == seq![
                    EffectView::LoadHistory,
                ],
                Err(error) => r.0@ == blank_terminal(
                    StateView::Disconnected { error: Some(error@) },
                    TerminalConnectionKind::Local,
                ) && r.1 == Some(error) && terminal_types::effect_views(r.2@).len() == 0,
            },
    {
        match started {
            Ok(_) => {
                let (t, effects) = Terminal::new_local();
                (t, None, effects)
            },
            Err(error) => {
                let message = error.clone();
                (Terminal::new_local_disconnected(error), Some(message), no_effects())
            },
        }
    }

    /// A terminal for a stored SSH connection, and what follows outside.
    pub fn new_ssh(
        id: Option<i64>,
        name: String,
        params: &StoredSshParams,
        working_dir: &Option<String>,
        sync_path_with_terminal: bool,
    ) -> (r: (Terminal, Vec<TerminalEffect>))
        ensures
            r.0.ssh_config matches Some(c) && terminal_types::config_matches(c, *params),
            r.0@ == (TerminalView {
                ssh_config: r.0@.ssh_config,
                mfa: Some(
                    ResponderView {
                        pending: None,
                        jump_password: terminal_types::jump_password(*params),
                        target_password: terminal_types::method_password(params.auth_method),
                    },
                ),
                connection_id: id,
                connection_name: Some(name@),
                init_commands: shell::one_text(
                    shell::start_commands(
                        text::opt_view(*working_dir),
                        text::opt_view(params.default_directory),
                        text::opt_view(params.init_script),
                    ),
                ),
                generation: 1,
                ..blank_terminal(StateView::Connecting, TerminalConnectionKind::Ssh)
            }),
            terminal_types::effect_views(r.1@) == seq![
                EffectView::ConnectSsh { generation: 1 },
                EffectView::LoadHistory,
            ],
    {
        let target_password = params.auth_method.password();
        let jump_password = match &params.jump_server {
            Some(jump) => jump.auth_method.password(),
            None => None,
        };
        let init_commands = shell::build_ssh_init_commands(
            working_dir,
            &params.default_directory,
            &params.init_script,
            sync_path_with_terminal,
        );
        let config = terminal_types::ssh_terminal_config(params);
        let mut t = Terminal::blank(ConnectionState::Connecting, TerminalConnectionKind::Ssh);
        t.cols = config.pty_config.width as usize;
        t.rows = config.pty_config.height as usize;
        t.ssh_config = Some(config);
        t.mfa = Some(TerminalMfaResponder::new(jump_password, target_password));
        t.connection_id = id;
        t.connection_name = Some(name);
        t.init_commands = init_commands;
        t.connection_generation = 1;
        let mut effects = no_effects();
        push_effect(&mut effects, TerminalEffect::ConnectSsh { generation: 1 });
        push_effect(&mut effects, TerminalEffect::LoadHistory);
        assert(terminal_types::effect_views(effects@) =~= seq![
            EffectView::ConnectSsh { generation: 1 },
            EffectView::LoadHistory,
        ]);
        (t, effects)
    }

    /// A terminal for a stored serial port, and what follows outside.
    pub fn new_serial(id: Option<i64>, name: String) -> (r: (Terminal, Vec<TerminalEffect>))
        ensures
            r.0@ == (TerminalView {
                has_serial_params: true,
                connection_id: id,
                connection_name: Some(name@),
                generation: 1,
                ..blank_terminal(StateView::Connecting, TerminalConnectionKind::Serial)
            }),
            terminal_types::effect_views(r.1@) == seq![EffectView::ConnectSerial { generation: 1 }],
    {
        let mut t = Terminal::blank(ConnectionState::Connecting, TerminalConnectionKind::Serial);
        t.has_serial_params = true;
        t.connection_id = id;
        t.connection_name = Some(name);
        t.connection_generation = 1;
        let mut effects = no_effects();
        push_effect(&mut effects, TerminalEffect::ConnectSerial { generation: 1 });
        assert(terminal_types::effect_views(effects@) =~= seq![
            EffectView::ConnectSerial { generation: 1 },
        ]);
        (t, effects)
    }

    /// Counts one connection further.
    fn next_connection_generation(&mut self) -> (r: u64)
        ensures
            r == generation_after(old(self)@.generation),
            final(self)@ == (TerminalView { generation: r, ..old(self)@ }),
    {
        self.connection_generation = if self.connection_generation == u64::MAX {
            1
        } else {
            self.connection_generation + 1
        };
        self.connection_generation
    }

    /// Whether the connection with the number is the current one.
    pub fn is_current_connection_generation(&self, generation: u64) -> (r: bool)
        ensures
            r == (self@.generation == generation),
    {
        self.connection_generation == generation
    }

    /// Notes whether the connection is in use.
    fn set_connection_active(&self, active: bool, effects: &mut Vec<TerminalEffect>)
        ensures
            terminal_types::effect_views(final(effects)@) == terminal_types::effect_views(
                old(effects)@,
            ) + activity(self@, active),
    {
        let ghost before = terminal_types::effect_views(effects@);
        if let Some(connection_id) = self.connection_id {
            push_effect(effects, TerminalEffect::SetActive { connection_id, active });
        }
        assert(terminal_types::effect_views(effects@) =~= before + activity(self@, active));
    }

    /// Gives the questions up that wait.
    fn drop_questions(&mut self, effects: &mut Vec<TerminalEffect>)
        ensures
            final(self)@ == questions_dropped(old(self)@),
            terminal_types::effect_views(final(effects)@) == terminal_types::effect_views(
                old(effects)@,
            ) + questions_report(old(self)@),
    {
        let ghost before = terminal_types::effect_views(effects@);
        if let Some(m) = self.mfa.take() {
            let mut m = m;
            if m.cancel().0 {
                push_effect(effects, TerminalEffect::MfaChanged);
            }
            self.mfa = Some(m);
        }
        assert(terminal_types::effect_views(effects@) =~= before + questions_report(old(self)@));
    }

    /// Takes over what came of an attempt to reach an SSH server.
    pub fn handle_ssh_result(&mut self, outcome: ConnectOutcome, generation: u64) -> (r: Vec<
        TerminalEffect,
    >)
        ensures
            makes(
                final(self)@,
                r@,
                ssh_attempt_ended(old(self)@, outcome_view(outcome), generation),
            ),
    {
        let ghost want = ssh_attempt_ended(self@, outcome_view(outcome), generation).effects;
        let mut effects = no_effects();
        if !self.is_current_connection_generation(generation) {
            if let ConnectOutcome::Connected = outcome {
                push_effect(&mut effects, TerminalEffect::ShutdownArrived);
            }
            assert(terminal_types::effect_views(effects@) =~= want);
            return effects;
        }
        let failure = match outcome {
            ConnectOutcome::Connected => None,
            ConnectOutcome::Failed(e) => Some(format_connection_error(&e)),
            ConnectOutcome::Broken(s) => Some(s),
        };
        match failure {
            None => {
                self.connection_state = ConnectionState::Connected;
                self.has_backend = true;
                self.set_connection_active(true, &mut effects);
                push_effect(
                    &mut effects,
                    TerminalEffect::ResizeSurface { cols: self.cols, rows: self.rows },
                );
                push_effect(
                    &mut effects,
                    TerminalEffect::ResizeBackend(
                        TerminalSize {
                            rows: self.rows as u16,
                            cols: self.cols as u16,
                            pixel_width: 0,
                            pixel_height: 0,
                        },
                    ),
                );
            },
            Some(why) => {
                self.drop_questions(&mut effects);
                self.connection_state = ConnectionState::Disconnected { error: Some(why) };
                self.set_connection_active(false, &mut effects);
            },
        }
        push_effect(&mut effects, TerminalEffect::Emit(TerminalModelEvent::Wakeup));
        assert(terminal_types::effect_views(effects@) =~= want);
        effects
    }

    /// Takes over what came of an attempt to open a serial port.
    pub fn handle_serial_result(&mut self, result: Result<(), String>, generation: u64) -> (r: Vec<
        TerminalEffect,
    >)
        ensures
            makes(
                final(self)@,
                r@,
                serial_attempt_ended(
                    old(self)@,
                    result_view(result),
                    generation,
                ),
            ),
    {
        let ghost want = serial_attempt_ended(
            self@,
            result_view(result),
            generation,
        ).effects;
        let mut effects = no_effects();
        if !self.is_current_connection_generation(generation) {
            if result.is_ok() {
                push_effect(&mut effects, TerminalEffect::ShutdownArrived);
            }
            assert(terminal_types::effect_views(effects@) =~= want);
            return effects;
        }
        match result {
            Ok(_) => {
                self.connection_state = ConnectionState::Connected;
                self.set_connection_active(true, &mut effects);
                self.has_backend = true;
            },
            Err(why) => {
                self.connection_state = ConnectionState::Disconnected { error: Some(why) };
                self.set_connection_active(false, &mut effects);
            },
        }
        push_effect(&mut effects, TerminalEffect::Emit(TerminalModelEvent::Wakeup));
        assert(terminal_types::effect_views(effects@) =~= want);
        effects
    }

    /// Takes over that a connection was lost.
    pub fn handle_disconnect(&mut self, generation: u64) -> (r: Vec<TerminalEffect>)
        ensures
            makes(final(self)@, r@, connection_lost(old(self)@, generation)),
    {
        let ghost want = connection_lost(self@, generation).effects;
        let mut effects = no_effects();
        if !self.is_current_connection_generation(generation) {
            return effects;
        }
        self.connection_state = ConnectionState::Disconnected { error: None };
        self.has_backend = false;
        push_effect(&mut effects, TerminalEffect::DropBackend);
        self.set_connection_active(false, &mut effects);
        push_effect(&mut effects, TerminalEffect::Emit(TerminalModelEvent::Wakeup));
        assert(terminal_types::effect_views(effects@) =~= want);
        effects
    }

    /// Takes everything off the terminal.
    fn reset_terminal_surface(&mut self, effects: &mut Vec<TerminalEffect>)
        ensures
            final(self)@ == surface_reset(old(self)@),
            terminal_types::effect_views(final(effects)@) == terminal_types::effect_views(
                old(effects)@,
            ).push(EffectView::ResetSurface { cols: old(self)@.cols, rows: old(self)@.rows }),
    {
        self.title = String::new();
        self.current_working_dir = None;
        self.child_exited = None;
        push_effect(
            effects,
            TerminalEffect::ResetSurface { cols: self.cols, rows: self.rows },
        );
    }

    /// Ends the old connection before the terminal is connected anew.
    fn restart(&mut self, effects: &mut Vec<TerminalEffect>) -> (r: u64)
        ensures
            r == generation_after(old(self)@.generation),
            final(self)@ == restarted(old(self)@),
            terminal_types::effect_views(final(effects)@) == terminal_types::effect_views(
                old(effects)@,
            ) + restart_effects(old(self)@),
    {
        let ghost before = terminal_types::effect_views(effects@);
        self.connection_state = ConnectionState::Connecting;
        self.set_connection_active(false, effects);
        if self.has_backend {
            self.has_backend = false;
            push_effect(effects, TerminalEffect::ShutdownBackend);
        }
        self.reset_terminal_surface(effects);
        assert(terminal_types::effect_views(effects@) =~= before + restart_effects(old(self)@));
        self.next_connection_generation()
    }

    /// Connects the terminal anew. The old session of an SSH terminal is closed
    /// first; what follows then says [`Terminal::session_closed`].
    pub fn reconnect(&mut self) -> (r: Vec<TerminalEffect>)
        ensures
            makes(final(self)@, r@, reconnected(old(self)@)),
    {
        let ghost want = reconnected(self@).effects;
        let ghost start = self@;
        let mut effects = no_effects();
        if self.ssh_config.is_some() {
            let generation: u64 = self.restart(&mut effects);
            assert(questions_report(self@) == questions_report(start));
            self.drop_questions(&mut effects);
            push_effect(&mut effects, TerminalEffect::CloseSession { generation });
        } else if self.has_serial_params {
            let generation: u64 = self.restart(&mut effects);
            push_effect(&mut effects, TerminalEffect::ConnectSerial { generation });
        } else {
            return effects;
        }
        push_effect(&mut effects, TerminalEffect::Emit(TerminalModelEvent::Wakeup));
        assert(terminal_types::effect_views(effects@) =~= want);
        effects
    }

    /// What follows once the old session is closed: the new connection, unless
    /// it is no longer wanted.
    pub fn session_closed(&self, generation: u64) -> (r: Vec<TerminalEffect>)
        ensures
            terminal_types::effect_views(r@) == (if self@.generation == generation {
                seq![EffectView::ConnectSsh { generation }]
            } else {
                Seq::empty()
            }),
    {
        let mut effects = no_effects();
        if self.is_current_connection_generation(generation) {
            push_effect(&mut effects, TerminalEffect::ConnectSsh { generation });
            assert(terminal_types::effect_views(effects@) =~= seq![
                EffectView::ConnectSsh { generation },
            ]);
        }
        effects
    }

    /// Takes over what the program in the terminal does.
    pub fn handle_terminal_event(&mut self, event: TerminalEvent) -> (r: Vec<TerminalEffect>)
        ensures
            makes(final(self)@, r@, event_handled(old(self)@, event)),
    {
        let ghost want = event_handled(self@, event).effects;
        let mut effects = no_effects();
        match event {
            TerminalEvent::Wakeup => {
                push_effect(&mut effects, TerminalEffect::Emit(TerminalModelEvent::Wakeup));
            },
            TerminalEvent::SshMfaChanged => {
                push_effect(&mut effects, TerminalEffect::Emit(TerminalModelEvent::SshMfaChanged));
            },
            TerminalEvent::PromptStart => {
                push_effect(&mut effects, TerminalEffect::Emit(TerminalModelEvent::PromptStart));
            },
            TerminalEvent::InputStart => {
                push_effect(&mut effects, TerminalEffect::Emit(TerminalModelEvent::InputStart));
            },
            TerminalEvent::TitleChanged(title) => {
                self.title = title.clone();
                push_effect(
                    &mut effects,
                    TerminalEffect::Emit(TerminalModelEvent::TitleChanged(title)),
                );
            },
            TerminalEvent::Bell => {
                push_effect(&mut effects, TerminalEffect::Emit(TerminalModelEvent::Bell));
            },
            TerminalEvent::ChildExit(code) => {
                self.child_exited = Some(code);
                push_effect(
                    &mut effects,
                    TerminalEffect::Emit(TerminalModelEvent::ChildExit(code)),
                );
            },
            TerminalEvent::ClipboardStore(data) => {
                push_effect(
                    &mut effects,
                    TerminalEffect::Emit(TerminalModelEvent::ClipboardStore(data)),
                );
            },
            TerminalEvent::ClipboardLoad => {},
            TerminalEvent::WorkingDirChanged(path) => {
                self.current_working_dir = Some(path.clone());
                push_effect(
                    &mut effects,
                    TerminalEffect::Emit(TerminalModelEvent::WorkingDirChanged(path)),
                );
            },
            TerminalEvent::CommandFinished { exit_code } => {
                push_effect(&mut effects, TerminalEffect::RecordExitCode(exit_code));
            },
            TerminalEvent::CommandRecorded(command) => {
                push_effect(
                    &mut effects,
                    TerminalEffect::RecordCommand {
                        command,
                        cwd: text::copy_opt(&self.current_working_dir),
                    },
                );
            },
        }
        assert(terminal_types::effect_views(effects@) =~= want);
        effects
    }

    /// Records a command with the directory it was given in.
    pub fn record_command(&self, command: &str) -> (r: Vec<TerminalEffect>)
        ensures
            terminal_types::effect_views(r@) == seq![
                EffectView::RecordCommand { command: command@, cwd: self@.current_working_dir },
            ],
    {
        let mut effects = no_effects();
        push_effect(
            &mut effects,
            TerminalEffect::RecordCommand {
                command: command.to_owned(),
                cwd: text::copy_opt(&self.current_working_dir),
            },
        );
        assert(terminal_types::effect_views(effects@) =~= seq![
            EffectView::RecordCommand { command: command@, cwd: self@.current_working_dir },
        ]);
        effects
    }

    /// Takes the history of the shell over, `limit` commands at most.
    pub fn set_persisted_history(&mut self, history: &Vec<String>, limit: usize) -> (r: Vec<
        TerminalEffect,
    >)
        ensures
            makes(final(self)@, r@, history_loaded(old(self)@, text::views(history@), limit)),
    {
        let ghost want = history_loaded(self@, text::views(history@), limit).effects;
        let mut effects = no_effects();
        let kept = shell::trim_history(history, limit);
        if !same_texts(&self.persisted_history, &kept) {
            self.persisted_history = kept;
            push_effect(&mut effects, TerminalEffect::Emit(TerminalModelEvent::Wakeup));
        }
        assert(terminal_types::effect_views(effects@) =~= want);
        effects
    }

    /// Gives the terminal another size.
    pub fn resize(&mut self, cols: usize, rows: usize, pixel_width: u16, pixel_height: u16) -> (r:
        Vec<TerminalEffect>)
        ensures
            makes(
                final(self)@,
                r@,
                resized(old(self)@, cols, rows, pixel_width, pixel_height),
            ),
    {
        let ghost want = resized(self@, cols, rows, pixel_width, pixel_height).effects;
        let mut effects = no_effects();
        self.pixel_width = pixel_width;
        self.pixel_height = pixel_height;
        if self.cols == cols && self.rows == rows {
            return effects;
        }
        self.cols = cols;
        self.rows = rows;
        push_effect(&mut effects, TerminalEffect::ResizeSurface { cols, rows });
        if self.has_backend {
            push_effect(
                &mut effects,
                TerminalEffect::ResizeBackend(
                    TerminalSize {
                        rows: rows as u16,
                        cols: cols as u16,
                        pixel_width,
                        pixel_height,
                    },
                ),
            );
        }
        assert(terminal_types::effect_views(effects@) =~= want);
        effects
    }

    /// Tells the program in the terminal its size once more, so that it draws
    /// itself anew.
    pub fn nudge_resize(&self) -> (r: Vec<TerminalEffect>)
        ensures
            terminal_types::effect_views(r@) == (if self@.has_backend {
                seq![
                    EffectView::ResizeBackend(
                        told_size(self@, self@.pixel_width, self@.pixel_height),
                    ),
                ]
            } else {
                Seq::empty()
            }),
    {
        let mut effects = no_effects();
        if self.has_backend {
            push_effect(
                &mut effects,
                TerminalEffect::ResizeBackend(
                    TerminalSize {
                        rows: self.rows as u16,
                        cols: self.cols as u16,
                        pixel_width: self.pixel_width,
                        pixel_height: self.pixel_height,
                    },
                ),
            );
            assert(terminal_types::effect_views(effects@) =~= seq![
                EffectView::ResizeBackend(told_size(self@, self@.pixel_width, self@.pixel_height)),
            ]);
        }
        effects
    }

    /// Hands what the user typed to the program in the terminal, where there
    /// is one.
    pub fn write(&self, data: Vec<u8>) -> (r: Vec<TerminalEffect>)
        ensures
            terminal_types::effect_views(r@) == (if self@.has_backend {
                seq![EffectView::Write(data@)]
            } else {
                Seq::empty()
            }),
    {
        let mut effects = no_effects();
        if self.has_backend {
            push_effect(&mut effects, TerminalEffect::Write(data));
            assert(terminal_types::effect_views(effects@) =~= seq![EffectView::Write(data@)]);
        }
        effects
    }

    /// Ends the program in the terminal, where there is one.
    pub fn shutdown(&self) -> (r: Vec<TerminalEffect>)
        ensures
            terminal_types::effect_views(r@) == (if self@.has_backend {
                seq![EffectView::ShutdownBackend]
            } else {
                Seq::empty()
            }),
    {
        let mut effects = no_effects();
        if self.has_backend {
            push_effect(&mut effects, TerminalEffect::ShutdownBackend);
            assert(terminal_types::effect_views(effects@) =~= seq![EffectView::ShutdownBackend]);
        }
        effects
    }

    /// Whether the terminal can be connected anew.
    pub fn can_reconnect(&self) -> (r: bool)
        ensures
            r == (self@.ssh_config is Some || self@.has_serial_params),
    {
        self.ssh_config.is_some() || self.has_serial_params
    }

    /// The questions that wait for the user.
    pub fn ssh_mfa_request(&self) -> (r: Option<TerminalMfaRequest>)
        ensures
            match r {
                Some(request) => self@.mfa matches Some(m) && m.pending == Some(request@),
                None => !(self@.mfa matches Some(m) && m.pending is Some),
            },
    {
        match &self.mfa {
            Some(m) => m.pending_request(),
            None => None,
        }
    }

    /// Takes over the responses of the user: what is handed on to the login
    /// that waits, where one does. The change is then told.
    pub fn submit_ssh_mfa(&mut self, responses: Vec<String>) -> (r: (
        Option<Vec<String>>,
        Vec<TerminalEffect>,
    ))
        ensures
            final(self)@ == questions_dropped(old(self)@),
            r.0 == (if old(self)@.mfa matches Some(m) && m.pending is Some {
                Some(responses)
            } else {
                None
            }),
            terminal_types::effect_views(r.1@) == questions_report(old(self)@),
    {
        let mut effects = no_effects();
        let handed_on = match self.mfa.take() {
            Some(m) => {
                let mut m = m;
                let (handed_on, told) = m.submit(responses);
                if told.is_some() {
                    push_effect(&mut effects, TerminalEffect::MfaChanged);
                }
                self.mfa = Some(m);
                handed_on
            },
            None => None,
        };
        assert(terminal_types::effect_views(effects@) =~= questions_report(old(self)@));
        (handed_on, effects)
    }

    /// The title of the terminal.
    pub fn title(&self) -> (r: &str)
        ensures
            r@ == self@.title,
    {
        self.title.as_str()
    }

    /// What the program in the terminal ended with.
    pub fn child_exited(&self) -> (r: Option<i32>)
        ensures
            r == self@.child_exited,
    {
        self.child_exited
    }

    /// Whether the terminal is connected.
    pub fn connection_state(&self) -> (r: &ConnectionState)
        ensures
            r@ == self@.connection_state,
    {
        &self.connection_state
    }

    /// What the connection is called.
    pub fn connection_name(&self) -> (r: Option<&str>)
        ensures
            match r {
                Some(s) => self@.connection_name == Some(s@),
                None => self@.connection_name is None,
            },
    {
        match &self.connection_name {
            Some(s) => Some(s.as_str()),
            None => None,
        }
    }

    /// The number of the connection among those that are stored.
    pub fn connection_id(&self) -> (r: Option<i64>)
        ensures
            r == self@.connection_id,
    {
        self.connection_id
    }

    /// The directory that the shell is in, as far as it is known.
    pub fn current_working_dir(&self) -> (r: Option<&str>)
        ensures
            match r {
                Some(s) => self@.current_working_dir == Some(s@),
                None => self@.current_working_dir is None,
            },
    {
        match &self.current_working_dir {
            Some(s) => Some(s.as_str()),
            None => None,
        }
    }

    /// What the terminal is connected to.
    pub fn connection_kind(&self) -> (r: TerminalConnectionKind)
        ensures
            r == self@.kind,
    {
        self.connection_kind
    }

    /// The SSH session of the terminal, where it has one.
    pub fn ssh_config(&self) -> (r: Option<&SshTerminalConfig>)
        ensures
            match r {
                Some(c) => self@.ssh_config == Some(*c),
                None => self@.ssh_config is None,
            },
    {
        match &self.ssh_config {
            Some(c) => Some(c),
            None => None,
        }
    }

    /// Whether the path is kept in step does not change the terminal: the
    /// shell reports it by itself.
    pub fn set_sync_path_with_terminal(&mut self, _enabled: bool)
        ensures
            final(self)@ == old(self)@,
    {
    }
}

/// A terminal with nothing on it and no connection.
pub open spec fn blank_terminal(
    connection_state: StateView,
    kind: TerminalConnectionKind,
) -> TerminalView {
    TerminalView {
        has_backend: false,
        title: Seq::empty(),
        current_working_dir: None,
        child_exited: None,
        connection_state,
        cols: DEFAULT_COLS,
        rows: DEFAULT_ROWS,
        pixel_width: 0,
        pixel_height: 0,
        ssh_config: None,
        mfa: None,
        has_serial_params: false,
        connection_id: None,
        connection_name: None,
        init_commands: None,
        persisted_history: Seq::empty(),
        generation: 0,
        kind,
    }
}

// ---------------------------------------------------------------------------
// Laws
// ---------------------------------------------------------------------------

/// Every connection has a number of its own: the next is another, and none is
/// the number of a terminal that was never connected.
pub proof fn law_generations_differ(g: u64)
    ensures
        generation_after(g) != g,
        generation_after(g) >= 1,
{
}

/// What comes of a connection that is no longer current changes nothing.
pub proof fn law_stale_connections_are_ignored(
    s: TerminalView,
    generation: u64,
    outcome: OutcomeView,
    result: Result<(), Seq<char>>,
)
    requires
        s.generation != generation,
    ensures
        ssh_attempt_ended(s, outcome, generation).state == s,
        serial_attempt_ended(s, result, generation).state == s,
        connection_lost(s, generation) == quiet(s),
{
}

/// Once a terminal is connected anew, the old connection is no longer current:
/// neither its end nor an attempt that was still under way can touch the new
/// one, and a connection that still comes of it is shut down.
pub proof fn law_reconnect_supersedes(s: TerminalView, outcome: OutcomeView)
    requires
        s.ssh_config is Some || s.has_serial_params,
    ensures
        ({
            let after = reconnected(s).state;
            &&& after.generation != s.generation
            &&& after.connection_state is Connecting
            &&& !after.has_backend
            &&& connection_lost(after, s.generation) == quiet(after)
            &&& ssh_attempt_ended(after, outcome, s.generation).state == after
            &&& ssh_attempt_ended(after, OutcomeView::Connected, s.generation).effects == seq![
                EffectView::ShutdownArrived,
            ]
        }),
{
}

/// A terminal that is connected anew shows nothing of what was there before,
/// and keeps its size, its connection and its history.
pub proof fn law_reconnect_clears_surface(s: TerminalView)
    requires
        s.ssh_config is Some || s.has_serial_params,
    ensures
        ({
            let after = reconnected(s).state;
            &&& after.title.len() == 0
            &&& after.current_working_dir is None
            &&& after.child_exited is None
            &&& after.cols == s.cols && after.rows == s.rows
            &&& after.ssh_config == s.ssh_config
            &&& after.connection_id == s.connection_id
            &&& after.persisted_history == s.persisted_history
            &&& !(after.mfa matches Some(m) && s.ssh_config is Some && m.pending is Some)
        }),
{
}

/// A terminal that cannot be connected anew stays as it is.
pub proof fn law_local_terminals_stay(s: TerminalView)
    requires
        s.ssh_config is None,
        !s.has_serial_params,
    ensures
        reconnected(s) == quiet(s),
{
}

/// A terminal that has a size already is not told it again, and a new size
/// reaches the surface and the program alike.
pub proof fn law_resize(s: TerminalView, cols: usize, rows: usize, w: u16, h: u16)
    ensures
        ({
            let once = resized(s, cols, rows, w, h).state;
            &&& resized(once, cols, rows, w, h) == quiet(once)
            &&& (s.cols != cols || s.rows != rows) && s.has_backend ==> resized(
                s,
                cols,
                rows,
                w,
                h,
            ).effects == seq![
                EffectView::ResizeSurface { cols, rows },
                EffectView::ResizeBackend(
                    TerminalSize {
                        rows: rows as u16,
                        cols: cols as u16,
                        pixel_width: w,
                        pixel_height: h,
                    },
                ),
            ]
        }),
{
    let e = resized(s, cols, rows, w, h).effects;
    if (s.cols != cols || s.rows != rows) && s.has_backend {
        assert(e =~= seq![
            EffectView::ResizeSurface { cols, rows },
            EffectView::ResizeBackend(
                TerminalSize {
                    rows: rows as u16,
                    cols: cols as u16,
                    pixel_width: w,
                    pixel_height: h,
                },
            ),
        ]);
    }
}

/// The history that a terminal keeps is no longer than the limit, and loading
/// the same history again changes nothing.
pub proof fn law_history_is_bounded(s: TerminalView, history: Seq<Seq<char>>, limit: usize)
    ensures
        ({
            let once = history_loaded(s, history, limit).state;
            &&& once.persisted_history.len() <= limit
            &&& history_loaded(once, history, limit) == quiet(once)
        }),
{
}

} // verus!

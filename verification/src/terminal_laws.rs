//! What holds of terminals: how their connections begin and end, what they
//! report, and how the questions of a server are answered.
use vstd::prelude::*;

use crate::mfa;
use crate::mfa::{Answers, MfaError};
use crate::shell;
use crate::ssh_auth::{AuthView, KeyboardInteractiveTarget};
use crate::ssh_connect;
use crate::terminal;
use crate::terminal::{OutcomeView, TerminalView};
use crate::terminal_types;
use crate::terminal_types::{
    EffectView, ModelEventView, SshAuthMethod, SshTerminalConfig, StateView, StoredSshParams,
    TerminalConnectionKind, TerminalEvent, TerminalSize,
};
use crate::text;
use crate::text_laws;

verus! {

// ---------------------------------------------------------------------------
// The questions of a server
// ---------------------------------------------------------------------------

/// The errors in words.
pub proof fn law_mfa_errors()
    ensures
        mfa::mfa_error_text(MfaError::NoPassword)
            == "SSH password prompt has no configured password"@,
        mfa::mfa_error_text(MfaError::MissingResponse) == "SSH MFA response is missing"@,
        mfa::mfa_error_text(MfaError::EmptyResponse) == "SSH MFA response is empty"@,
        mfa::mfa_error_text(MfaError::ResponseCount)
            == "SSH MFA response count does not match prompts"@,
        mfa::mfa_error_text(MfaError::Cancelled) == "SSH MFA response was cancelled"@,
{
}

/// The text is made of colons.
pub open spec fn is_colons(s: Seq<char>) -> bool {
    forall|i: int| 0 <= i < s.len() ==> #[trigger] s[i] == ':'
}

proof fn lemma_colons_taken_off(s: Seq<char>, colons: Seq<char>)
    requires
        is_colons(colons),
        s.len() == 0 || s.last() != ':',
    ensures
        mfa::without_colons(s + colons) == s,
    decreases colons.len(),
{
    let all = s + colons;
    if colons.len() == 0 {
        assert(all =~= s);
    } else {
        assert(colons[colons.len() - 1] == ':');
        assert(all.last() == ':');
        assert(all.drop_last() =~= s + colons.drop_last());
        lemma_colons_taken_off(s, colons.drop_last());
    }
}

proof fn lemma_colons_left(s: Seq<char>) -> (colons: Seq<char>)
    ensures
        is_colons(colons),
        s == mfa::without_colons(s) + colons,
    decreases s.len(),
{
    if s.len() > 0 && s.last() == ':' {
        let rest = lemma_colons_left(s.drop_last());
        let colons = rest.push(':');
        let bare = mfa::without_colons(s.drop_last());
        assert(s =~= s.drop_last().push(':'));
        assert((bare + rest).push(':') =~= bare + colons);
        colons
    } else {
        assert(s =~= s + Seq::<char>::empty());
        Seq::empty()
    }
}

/// A question asks for the password where it ends with that word, in whatever
/// letters, with colons and white space behind it or without.
pub proof fn law_asks_password(
    a: Seq<char>,
    word: Seq<char>,
    colons: Seq<char>,
    before: Seq<char>,
    after: Seq<char>,
)
    requires
        text::ascii_lowered(word) == "password"@,
        is_colons(colons),
        text_laws::is_blank(before),
        text_laws::is_blank(after),
        !text::is_space((a + word + colons)[0]),
        !text::is_space((a + word + colons).last()),
    ensures
        mfa::asks_password(before + (a + word + colons) + after),
{
    reveal_strlit("password");
    let core = a + word + colons;
    assert("password"@.len() == 8);
    assert(text::ascii_lowered(word).len() == word.len());
    text_laws::law_trimmed(before, core, after);
    assert(text::ascii_lowered(word)[7] == 'd');
    assert((a + word).last() == word[7]);
    lemma_colons_taken_off(a + word, colons);
    let low = text::ascii_lowered(a + word);
    assert(low.subrange(low.len() - 8, low.len() as int) =~= "password"@);
}

/// A question that asks for the password ends with that word, but for colons
/// and white space.
pub proof fn law_password_question(prompt: Seq<char>)
    requires
        mfa::asks_password(prompt),
    ensures
        exists|a: Seq<char>, word: Seq<char>, colons: Seq<char>|
            text::trimmed(prompt) == #[trigger] (a + word + colons) && is_colons(colons)
                && text::ascii_lowered(word) == "password"@,
{
    reveal_strlit("password");
    let t = text::trimmed(prompt);
    let colons = lemma_colons_left(t);
    let s = mfa::without_colons(t);
    let low = text::ascii_lowered(s);
    let a = s.take(s.len() - 8);
    let word = s.skip(s.len() - 8);
    assert(text::ascii_lowered(word) =~= low.subrange(low.len() - 8, low.len() as int));
    assert(s =~= a + word);
    assert(t == a + word + colons);
}

/// The user is asked every question but those for the password, in their order.
pub proof fn law_open_questions(prompts: Seq<(Seq<char>, bool)>, p: (Seq<char>, bool))
    ensures
        mfa::open_questions(Seq::empty()) == Seq::<(Seq<char>, bool)>::empty(),
        mfa::asks_password(p.0) ==> mfa::open_questions(prompts.push(p)) == mfa::open_questions(
            prompts,
        ),
        !mfa::asks_password(p.0) ==> mfa::open_questions(prompts.push(p)) == mfa::open_questions(
            prompts,
        ).push(p),
{
    assert(prompts.push(p).drop_last() =~= prompts);
}

/// Questions are answered one by one: a question for the password with the
/// password, every other with the next response. It fails where there is no
/// password, where the responses run out, and where one is blank.
pub proof fn law_answers(
    prompts: Seq<(Seq<char>, bool)>,
    p: (Seq<char>, bool),
    responses: Seq<Seq<char>>,
    password: Option<Seq<char>>,
)
    ensures
        mfa::answered(Seq::empty(), responses, password) matches Ok(a) && a.answers.len() == 0
            && a.used == 0,
        mfa::answered(prompts, responses, password) matches Err(e) ==> mfa::answered(
            prompts.push(p),
            responses,
            password,
        ) == Err::<Answers, MfaError>(e),
        mfa::answered(prompts, responses, password) matches Ok(a) ==> {
            let next = mfa::answered(prompts.push(p), responses, password);
            &&& mfa::asks_password(p.0) && password is Some ==> next == Ok::<Answers, MfaError>(
                Answers { answers: a.answers.push(password->0), used: a.used },
            )
            &&& mfa::asks_password(p.0) && password is None ==> next == Err::<Answers, MfaError>(
                MfaError::NoPassword,
            )
            &&& !mfa::asks_password(p.0) && a.used >= responses.len() ==> next == Err::<
                Answers,
                MfaError,
            >(MfaError::MissingResponse)
            &&& !mfa::asks_password(p.0) && a.used < responses.len() ==> {
                let r = responses[a.used as int];
                &&& text_laws::is_blank(r) ==> next == Err::<Answers, MfaError>(
                    MfaError::EmptyResponse,
                )
                &&& !text_laws::is_blank(r) ==> next == Ok::<Answers, MfaError>(
                    Answers { answers: a.answers.push(r), used: a.used + 1 },
                )
            }
        },
{
    assert(prompts.push(p).drop_last() =~= prompts);
    if let Ok(a) = mfa::answered(prompts, responses, password) {
        if a.used < responses.len() {
            text_laws::law_trimmed_is_part(responses[a.used as int]);
        }
    }
}

/// All questions are answered where every response was used, and their number
/// is wrong otherwise.
pub proof fn law_all_answered(
    prompts: Seq<(Seq<char>, bool)>,
    responses: Seq<Seq<char>>,
    password: Option<Seq<char>>,
)
    ensures
        match mfa::answered(prompts, responses, password) {
            Ok(a) => if a.used == responses.len() {
                mfa::all_answered(prompts, responses, password) == Ok::<_, MfaError>(a.answers)
            } else {
                mfa::all_answered(prompts, responses, password) == Err::<Seq<Seq<char>>, _>(
                    MfaError::ResponseCount,
                )
            },
            Err(e) => mfa::all_answered(prompts, responses, password) == Err::<Seq<Seq<char>>, _>(
                e,
            ),
        },
{
}

/// Each server is answered with its own password.
pub proof fn law_password_for(jump: Option<Seq<char>>, target: Option<Seq<char>>)
    ensures
        mfa::password_for(KeyboardInteractiveTarget::JumpServer, jump, target) == jump,
        mfa::password_for(KeyboardInteractiveTarget::TargetServer, jump, target) == target,
{
}

// ---------------------------------------------------------------------------
// What is stored of a connection
// ---------------------------------------------------------------------------

/// A method of login is used as it was stored: with its password, or with its
/// key and the key's passphrase.
pub proof fn law_stored_method(m: SshAuthMethod)
    ensures
        match m {
            SshAuthMethod::Password { password } => terminal_types::method_used(m)
                == AuthView::Password(password@) && terminal_types::method_password(m) == Some(
                password@,
            ),
            SshAuthMethod::PrivateKey { key_path, passphrase } => {
                &&& terminal_types::method_used(m) matches AuthView::PrivateKey {
                    key_path: k,
                    passphrase: p,
                    certificate_path: c,
                }
                &&& k == key_path@
                &&& passphrase is None <==> p is None
                &&& passphrase matches Some(s) ==> p == Some(s@)
                &&& c is None
                &&& terminal_types::method_password(m) is None
            },
            SshAuthMethod::Agent => terminal_types::method_used(m) == AuthView::Agent
                && terminal_types::method_password(m) is None,
            SshAuthMethod::AutoPublicKey => terminal_types::method_used(m)
                == AuthView::AutoPublicKey && terminal_types::method_password(m) is None,
        },
{
}

/// A stored connection is opened as it was stored: to its server, by its way,
/// with its methods and its times.
pub proof fn law_stored_connection(c: SshTerminalConfig, p: StoredSshParams)
    requires
        terminal_types::config_matches(c, p),
    ensures
        c.ssh_config.host == p.host,
        c.ssh_config.port == p.port,
        c.ssh_config.username == p.username,
        c.ssh_config.auth@ == terminal_types::method_used(p.auth_method),
        c.ssh_config.keepalive_max == p.keepalive_max,
        p.connect_timeout matches Some(n) ==> c.ssh_config.timeout == Some(ssh_connect::seconds(n)),
        p.connect_timeout is None ==> c.ssh_config.timeout is None,
        p.keepalive_interval matches Some(n) ==> c.ssh_config.keepalive_interval == Some(
            ssh_connect::seconds(n),
        ),
        p.keepalive_interval is None ==> c.ssh_config.keepalive_interval is None,
        p.jump_server is Some <==> c.ssh_config.jump_server is Some,
        p.proxy is Some <==> c.ssh_config.proxy is Some,
        c.disable_shell_integration <==> p.disable_shell_integration == Some(true),
        c.pty_config.term@ == "xterm-256color"@,
        c.pty_config.width == 80 && c.pty_config.height == 24,
        c.pty_config.pix_width == 0 && c.pty_config.pix_height == 0,
{
}

/// The server on the way is the stored one, with its own login, and so is the
/// proxy.
pub proof fn law_stored_way(c: SshTerminalConfig, p: StoredSshParams)
    requires
        terminal_types::config_matches(c, p),
    ensures
        p.jump_server matches Some(s) ==> (c.ssh_config.jump_server matches Some(j) && j.host
            == s.host && j.port == s.port && j.username == s.username && j.auth@
            == terminal_types::method_used(s.auth_method)),
        p.proxy matches Some(s) ==> (c.ssh_config.proxy matches Some(x) && x.proxy_type
            == s.proxy_type && x.host == s.host && x.port == s.port && x.username == s.username
            && x.password == s.password),
        p.jump_server matches Some(s) ==> terminal_types::jump_password(p)
            == terminal_types::method_password(s.auth_method),
        p.jump_server is None ==> terminal_types::jump_password(p) is None,
{
}

// ---------------------------------------------------------------------------
// Connections
// ---------------------------------------------------------------------------

/// The reports of a connection that is stored: whether it is in use.
pub open spec fn reported(s: TerminalView, active: bool) -> Seq<EffectView> {
    if s.connection_id is Some {
        seq![EffectView::SetActive { connection_id: s.connection_id->0, active }]
    } else {
        Seq::empty()
    }
}

/// What is left of the state when the connection changes: what kind of terminal
/// it is, its size, what it was made of and its history.
pub open spec fn same_terminal(s: TerminalView, t: TerminalView) -> bool {
    &&& t.kind == s.kind
    &&& t.cols == s.cols && t.rows == s.rows
    &&& t.pixel_width == s.pixel_width && t.pixel_height == s.pixel_height
    &&& t.ssh_config == s.ssh_config && t.has_serial_params == s.has_serial_params
    &&& t.connection_id == s.connection_id && t.connection_name == s.connection_name
    &&& t.init_commands == s.init_commands && t.persisted_history == s.persisted_history
}

/// A connection that is made is the current one: the terminal is connected, the
/// stored connection counts as in use, and the size of the terminal is told.
pub proof fn law_connected(s: TerminalView)
    ensures
        ({
            let done = terminal::ssh_attempt_ended(s, OutcomeView::Connected, s.generation);
            &&& done.state.connection_state is Connected && done.state.has_backend
            &&& same_terminal(s, done.state) && done.state.generation == s.generation
            &&& done.state.mfa == s.mfa && done.state.title == s.title
            &&& done.effects == reported(s, true) + seq![
                EffectView::ResizeSurface { cols: s.cols, rows: s.rows },
                EffectView::ResizeBackend(
                    TerminalSize {
                        rows: s.rows as u16,
                        cols: s.cols as u16,
                        pixel_width: 0,
                        pixel_height: 0,
                    },
                ),
                EffectView::Emit(ModelEventView::Wakeup),
            ]
        }),
        ({
            let done = terminal::serial_attempt_ended(s, Ok(()), s.generation);
            &&& done.state.connection_state is Connected && done.state.has_backend
            &&& same_terminal(s, done.state) && done.state.generation == s.generation
            &&& done.effects == reported(s, true) + seq![EffectView::Emit(ModelEventView::Wakeup)]
        }),
{
}

/// An attempt that failed leaves the terminal disconnected, with the reason; the
/// questions that were waiting are dropped, and the stored connection does not
/// count as in use.
pub proof fn law_not_connected(s: TerminalView, why: Seq<char>)
    ensures
        ({
            let done = terminal::ssh_attempt_ended(s, OutcomeView::Failed(why), s.generation);
            let waiting = s.mfa is Some && (s.mfa->0).pending is Some;
            &&& done.state.connection_state == (StateView::Disconnected { error: Some(why) })
            &&& same_terminal(s, done.state) && done.state.generation == s.generation
            &&& done.state.has_backend == s.has_backend
            &&& done.state.mfa is Some <==> s.mfa is Some
            &&& done.state.mfa matches Some(m) ==> m.pending is None && m.jump_password
                == (s.mfa->0).jump_password && m.target_password == (s.mfa->0).target_password
            &&& done.effects == (if waiting {
                seq![EffectView::MfaChanged]
            } else {
                Seq::empty()
            }) + reported(s, false) + seq![EffectView::Emit(ModelEventView::Wakeup)]
        }),
        ({
            let done = terminal::serial_attempt_ended(s, Err(why), s.generation);
            &&& done.state.connection_state == (StateView::Disconnected { error: Some(why) })
            &&& same_terminal(s, done.state)
            &&& done.effects == reported(s, false) + seq![EffectView::Emit(ModelEventView::Wakeup)]
        }),
{
}

/// A connection that comes too late is shut down.
pub proof fn law_late_connection(s: TerminalView, generation: u64, why: Seq<char>)
    requires
        generation != s.generation,
    ensures
        terminal::ssh_attempt_ended(s, OutcomeView::Connected, generation).effects == seq![
            EffectView::ShutdownArrived,
        ],
        terminal::serial_attempt_ended(s, Ok(()), generation).effects == seq![
            EffectView::ShutdownArrived,
        ],
        terminal::ssh_attempt_ended(s, OutcomeView::Failed(why), generation).effects.len() == 0,
        terminal::serial_attempt_ended(s, Err(why), generation).effects.len() == 0,
{
}

/// A connection that is lost is dropped, and the terminal is disconnected
/// without an error.
pub proof fn law_lost(s: TerminalView)
    ensures
        ({
            let done = terminal::connection_lost(s, s.generation);
            &&& done.state.connection_state == (StateView::Disconnected { error: None })
            &&& !done.state.has_backend
            &&& same_terminal(s, done.state) && done.state.generation == s.generation
            &&& done.effects == seq![EffectView::DropBackend] + reported(s, false) + seq![
                EffectView::Emit(ModelEventView::Wakeup),
            ]
        }),
{
}

/// A terminal that is connected anew shuts its old connection down, clears its
/// surface, and asks for a connection under a new number: of SSH once the old
/// session is closed, of a serial port at once.
pub proof fn law_reconnected(s: TerminalView)
    ensures
        ({
            let done = terminal::reconnected(s);
            let begun = reported(s, false) + (if s.has_backend {
                seq![EffectView::ShutdownBackend]
            } else {
                Seq::empty()
            }) + seq![EffectView::ResetSurface { cols: s.cols, rows: s.rows }];
            let generation = done.state.generation;
            let waiting = s.mfa is Some && (s.mfa->0).pending is Some;
            &&& s.ssh_config is Some ==> done.effects == begun + (if waiting {
                seq![EffectView::MfaChanged]
            } else {
                Seq::empty()
            }) + seq![
                EffectView::CloseSession { generation },
                EffectView::Emit(ModelEventView::Wakeup),
            ]
            &&& s.ssh_config is None && s.has_serial_params ==> done.effects == begun + seq![
                EffectView::ConnectSerial { generation },
                EffectView::Emit(ModelEventView::Wakeup),
            ]
            &&& s.ssh_config is Some || s.has_serial_params ==> same_terminal(s, done.state)
                && done.state.connection_state is Connecting && !done.state.has_backend
                && done.state.title.len() == 0 && done.state.current_working_dir is None
                && done.state.child_exited is None
            &&& s.ssh_config is None && !s.has_serial_params ==> done.state == s
                && done.effects.len() == 0
            &&& s.generation < u64::MAX && (s.ssh_config is Some || s.has_serial_params)
                ==> generation == s.generation + 1
        }),
{
}

// ---------------------------------------------------------------------------
// Events
// ---------------------------------------------------------------------------

/// What the program in the terminal reports is passed on as it is; its title,
/// its directory and its exit code are remembered. A command is recorded with
/// the directory it ran in.
pub proof fn law_events(s: TerminalView, e: TerminalEvent)
    ensures
        ({
            let done = terminal::event_handled(s, e);
            let emits = |m: ModelEventView| done.effects == seq![EffectView::Emit(m)];
            match e {
                TerminalEvent::Wakeup => done.state == s && emits(ModelEventView::Wakeup),
                TerminalEvent::SshMfaChanged => done.state == s && emits(
                    ModelEventView::SshMfaChanged,
                ),
                TerminalEvent::PromptStart => done.state == s && emits(ModelEventView::PromptStart),
                TerminalEvent::InputStart => done.state == s && emits(ModelEventView::InputStart),
                TerminalEvent::Bell => done.state == s && emits(ModelEventView::Bell),
                TerminalEvent::ClipboardStore(data) => done.state == s && emits(
                    ModelEventView::ClipboardStore(data@),
                ),
                TerminalEvent::ClipboardLoad => done.state == s && done.effects.len() == 0,
                TerminalEvent::TitleChanged(title) => done.state.title == title@ && done.state == (
                TerminalView { title: done.state.title, ..s }) && emits(
                    ModelEventView::TitleChanged(title@),
                ),
                TerminalEvent::ChildExit(code) => done.state.child_exited == Some(code)
                    && done.state == (TerminalView { child_exited: done.state.child_exited, ..s })
                    && emits(ModelEventView::ChildExit(code)),
                TerminalEvent::WorkingDirChanged(path) => done.state.current_working_dir == Some(
                    path@,
                ) && done.state == (TerminalView {
                    current_working_dir: done.state.current_working_dir,
                    ..s
                }) && emits(ModelEventView::WorkingDirChanged(path@)),
                TerminalEvent::CommandFinished { exit_code } => done.state == s && done.effects
                    == seq![EffectView::RecordExitCode(exit_code)],
                TerminalEvent::CommandRecorded(command) => done.state == s && done.effects == seq![
                    EffectView::RecordCommand { command: command@, cwd: s.current_working_dir },
                ],
            }
        }),
{
}

/// A new size is remembered, and told where the number of columns or rows is
/// another one; nothing else changes.
pub proof fn law_new_size(s: TerminalView, cols: usize, rows: usize, w: u16, h: u16)
    ensures
        ({
            let done = terminal::resized(s, cols, rows, w, h);
            &&& done.state == (TerminalView {
                cols,
                rows,
                pixel_width: w,
                pixel_height: h,
                ..s
            })
            &&& cols == s.cols && rows == s.rows ==> done.effects.len() == 0
            &&& (cols != s.cols || rows != s.rows) && !s.has_backend ==> done.effects == seq![
                EffectView::ResizeSurface { cols, rows },
            ]
        }),
{
}

/// A history that is loaded is kept within the limit and drawn where it is
/// another one than before; nothing else changes.
pub proof fn law_history_loaded(s: TerminalView, history: Seq<Seq<char>>, limit: usize)
    ensures
        ({
            let done = terminal::history_loaded(s, history, limit);
            let kept = shell::last_commands(shell::kept_commands(history), limit as int);
            &&& done.state == (TerminalView { persisted_history: kept, ..s })
            &&& kept == s.persisted_history ==> done.effects.len() == 0
            &&& kept != s.persisted_history ==> done.effects == seq![
                EffectView::Emit(ModelEventView::Wakeup),
            ]
        }),
{
}

/// A new terminal has the usual size, and nothing is connected, known or
/// reported of it.
pub proof fn law_blank_terminal(state: StateView, kind: TerminalConnectionKind)
    ensures
        ({
            let s = terminal::blank_terminal(state, kind);
            &&& s.connection_state == state && s.kind == kind
            &&& s.cols == 80 && s.rows == 24
            &&& !s.has_backend && s.title.len() == 0 && s.current_working_dir is None
            &&& s.child_exited is None && s.ssh_config is None && s.mfa is None
            &&& !s.has_serial_params && s.connection_id is None && s.connection_name is None
            &&& s.init_commands is None && s.persisted_history.len() == 0 && s.generation == 0
        }),
{
}

} // verus!

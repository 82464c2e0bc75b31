//! How a user is made known to an SSH server: which method is tried, what
//! follows from the answer of the server, and what is said when nothing helps.
//!
//! The server is asked outside; every function here takes what came back and
//! says what is done next.
use vstd::prelude::*;

use crate::places;
use crate::text;

verus! {

// ---------------------------------------------------------------------------
// Types
// ---------------------------------------------------------------------------

/// How a user is made known.
#[derive(Clone, Debug)]
pub enum SshAuth {
    Password(String),
    PrivateKey { key_path: String, passphrase: Option<String>, certificate_path: Option<String> },
    Agent,
    AutoPublicKey,
}

/// The mathematical value of an [`SshAuth`].
pub ghost enum AuthView {
    Password(Seq<char>),
    PrivateKey {
        key_path: Seq<char>,
        passphrase: Option<Seq<char>>,
        certificate_path: Option<Seq<char>>,
    },
    Agent,
    AutoPublicKey,
}

/// What is said when a method fails.
#[derive(Clone, Debug)]
pub struct AuthFailureMessages {
    pub password_failed: String,
    pub certificate_failed: String,
    pub public_key_failed: String,
    pub agent_connect_failed: String,
    pub agent_no_identities: String,
    pub agent_auth_failed: String,
    pub auto_publickey_failed: String,
    pub no_local_identity: String,
    pub auto_publickey_next_step: String,
    pub keyboard_interactive_required: String,
    pub keyboard_interactive_failed: String,
    pub keyboard_interactive_cancelled: String,
}

/// Which server asks.
#[derive(Clone, Copy, Debug, PartialEq, Eq, Structural)]
pub enum KeyboardInteractiveTarget {
    JumpServer,
    TargetServer,
}

/// One question of a server.
#[derive(Clone, Debug)]
pub struct KeyboardInteractivePrompt {
    pub prompt: String,
    pub echo: bool,
}

/// The questions of a server.
#[derive(Clone, Debug)]
pub struct KeyboardInteractiveRequest {
    pub target: KeyboardInteractiveTarget,
    pub name: String,
    pub instructions: String,
    pub prompts: Vec<KeyboardInteractivePrompt>,
}

/// The mathematical value of a [`KeyboardInteractiveRequest`].
pub ghost struct RequestView {
    pub target: KeyboardInteractiveTarget,
    pub name: Seq<char>,
    pub instructions: Seq<char>,
    pub prompts: Seq<(Seq<char>, bool)>,
}

/// The answer of a server to a question-and-answer login.
#[derive(Debug)]
pub enum KeyboardReply {
    Success,
    Failure,
    InfoRequest { name: String, instructions: String, prompts: Vec<KeyboardInteractivePrompt> },
}

/// What is done next to make a user known.
#[derive(Debug)]
pub enum AuthAction {
    Password { password: String },
    Certificate { key_path: String, passphrase: Option<String>, certificate_path: String },
    PublicKey { key_path: String, passphrase: Option<String> },
    Agent,
    Fallbacks,
    StartKeyboardInteractive,
    Ask(KeyboardInteractiveRequest),
    Answer(Vec<String>),
    Done,
    Fail(String),
}

/// The mathematical value of an [`AuthAction`].
#[allow(inconsistent_fields)]
pub ghost enum ActionView {
    Password { password: Seq<char> },
    Certificate {
        key_path: Seq<char>,
        passphrase: Option<Seq<char>>,
        certificate_path: Seq<char>,
    },
    PublicKey { key_path: Seq<char>, passphrase: Option<Seq<char>> },
    Agent,
    Fallbacks,
    StartKeyboardInteractive,
    Ask(RequestView),
    Answer(Seq<Seq<char>>),
    Done,
    Fail(Seq<char>),
}

impl SshAuth {
    /// The mathematical value of the method.
    pub open spec fn view(&self) -> AuthView {
        match *self {
            SshAuth::Password(p) => AuthView::Password(p@),
            SshAuth::PrivateKey { key_path, passphrase, certificate_path } => {
                AuthView::PrivateKey {
                    key_path: key_path@,
                    passphrase: text::opt_view(passphrase),
                    certificate_path: text::opt_view(certificate_path),
                }
            },
            SshAuth::Agent => AuthView::Agent,
            SshAuth::AutoPublicKey => AuthView::AutoPublicKey,
        }
    }

    /// A method with the same value.
    pub fn copy(&self) -> (r: SshAuth)
        ensures
            r@ == self@,
    {
        match self {
            SshAuth::Password(p) => SshAuth::Password(p.clone()),
            SshAuth::PrivateKey { key_path, passphrase, certificate_path } => SshAuth::PrivateKey {
                key_path: key_path.clone(),
                passphrase: text::copy_opt(passphrase),
                certificate_path: text::copy_opt(certificate_path),
            },
            SshAuth::Agent => SshAuth::Agent,
            SshAuth::AutoPublicKey => SshAuth::AutoPublicKey,
        }
    }
}

/// The mathematical values of a list of methods.
pub open spec fn auth_views(v: Seq<SshAuth>) -> Seq<AuthView> {
    Seq::new(v.len(), |i: int| v[i]@)
}

/// The mathematical values of a list of questions.
pub open spec fn prompt_views(v: Seq<KeyboardInteractivePrompt>) -> Seq<(Seq<char>, bool)> {
    Seq::new(v.len(), |i: int| (v[i].prompt@, v[i].echo))
}

impl KeyboardInteractiveRequest {
    /// The mathematical value of the request.
    pub open spec fn view(&self) -> RequestView {
        RequestView {
            target: self.target,
            name: self.name@,
            instructions: self.instructions@,
            prompts: prompt_views(self.prompts@),
        }
    }
}

impl AuthAction {
    /// The mathematical value of the action.
    pub open spec fn view(&self) -> ActionView {
        match *self {
            AuthAction::Password { password } => ActionView::Password { password: password@ },
            AuthAction::Certificate { key_path, passphrase, certificate_path } => {
                ActionView::Certificate {
                    key_path: key_path@,
                    passphrase: text::opt_view(passphrase),
                    certificate_path: certificate_path@,
                }
            },
            AuthAction::PublicKey { key_path, passphrase } => ActionView::PublicKey {
                key_path: key_path@,
                passphrase: text::opt_view(passphrase),
            },
            AuthAction::Agent => ActionView::Agent,
            AuthAction::Fallbacks => ActionView::Fallbacks,
            AuthAction::StartKeyboardInteractive => ActionView::StartKeyboardInteractive,
            AuthAction::Ask(request) => ActionView::Ask(request@),
            AuthAction::Answer(answers) => ActionView::Answer(text::views(answers@)),
            AuthAction::Done => ActionView::Done,
            AuthAction::Fail(message) => ActionView::Fail(message@),
        }
    }
}

// ---------------------------------------------------------------------------
// One method
// ---------------------------------------------------------------------------

/// What is tried first with a method.
pub open spec fn first_action(auth: AuthView) -> ActionView {
    match auth {
        AuthView::Password(password) => ActionView::Password { password },
        AuthView::PrivateKey { key_path, passphrase, certificate_path } => match certificate_path {
            Some(certificate_path) => ActionView::Certificate {
                key_path,
                passphrase,
                certificate_path,
            },
            None => ActionView::PublicKey { key_path, passphrase },
        },
        AuthView::Agent => ActionView::Agent,
        AuthView::AutoPublicKey => ActionView::Fallbacks,
    }
}

/// What is tried first with a method: the keys of the user one after the
/// other, where the method leaves it open.
pub fn authenticate_with_strategy(auth: &SshAuth) -> (r: AuthAction)
    ensures
        r@ == first_action(auth@),
{
    match auth {
        SshAuth::AutoPublicKey => AuthAction::Fallbacks,
        SshAuth::Password(p) => AuthAction::Password { password: p.clone() },
        SshAuth::PrivateKey { key_path, passphrase, certificate_path } => match certificate_path {
            Some(c) => AuthAction::Certificate {
                key_path: key_path.clone(),
                passphrase: text::copy_opt(passphrase),
                certificate_path: c.clone(),
            },
            None => AuthAction::PublicKey {
                key_path: key_path.clone(),
                passphrase: text::copy_opt(passphrase),
            },
        },
        SshAuth::Agent => AuthAction::Agent,
    }
}

/// What is tried first with a method that does not leave it open.
pub fn authenticate_session(auth: &SshAuth) -> (r: AuthAction)
    requires
        !(auth@ is AutoPublicKey),
    ensures
        r@ == first_action(auth@),
        !(r@ is Fallbacks),
{
    authenticate_with_strategy(auth)
}

/// The answer of a server to a login, of the `russh` crate.
#[verifier::external_type_specification]
#[verifier::external_body]
pub struct ExAuthResult(russh::client::AuthResult);

/// The names of the methods that a server still offers; nothing where it
/// accepted the user.
pub uninterp spec fn offered_methods(result: russh::client::AuthResult) -> Option<Seq<Seq<char>>>;

/// The variants of `AuthResult`: nothing for `Success`, and for `Failure` the
/// name that `russh` gives each of the methods in `remaining_methods`, such as
/// `password`, `publickey` and `keyboard-interactive`.
#[verifier::external_body]
pub(crate) fn methods_left(result: &russh::client::AuthResult) -> (r: Option<Vec<String>>)
    ensures
        match r {
            Some(v) => offered_methods(*result) == Some(text::views(v@)),
            None => offered_methods(*result) is None,
        },
{
    match result {
        russh::client::AuthResult::Success => None,
        russh::client::AuthResult::Failure { remaining_methods, .. } => Some(
            remaining_methods.iter().map(|m| <&'static str>::from(m).to_owned()).collect(),
        ),
    }
}

/// The server offers to ask questions.
pub open spec fn offers_questions(methods: Option<Seq<Seq<char>>>) -> bool {
    methods matches Some(m) && m.contains("keyboard-interactive"@)
}

/// Whether the server offers to ask questions, of the methods it left.
pub fn allows_keyboard_interactive(methods: &Option<Vec<String>>) -> (r: bool)
    ensures
        r == offers_questions(
            match *methods {
                Some(v) => Some(text::views(v@)),
                None => None,
            },
        ),
{
    match methods {
        Some(v) => text::contains_text(v, "keyboard-interactive"),
        None => false,
    }
}

/// Whether the server offers to ask questions.
pub fn auth_result_allows_keyboard_interactive(result: &russh::client::AuthResult) -> (r: bool)
    ensures
        r == offers_questions(offered_methods(*result)),
{
    allows_keyboard_interactive(&methods_left(result))
}

/// What is said when a method fails.
pub open spec fn failure_message(auth: AuthView, messages: AuthFailureMessages) -> Seq<char> {
    match auth {
        AuthView::Password(_) => messages.password_failed@,
        AuthView::PrivateKey { certificate_path, .. } => match certificate_path {
            Some(_) => messages.certificate_failed@,
            None => messages.public_key_failed@,
        },
        _ => messages.agent_auth_failed@,
    }
}

/// What follows from the answer to a password or a key: the user is known, or
/// is asked questions where the server offers that, or is refused.
pub open spec fn after_answer(
    auth: AuthView,
    methods: Option<Seq<Seq<char>>>,
    messages: AuthFailureMessages,
) -> ActionView {
    match methods {
        None => ActionView::Done,
        Some(_) => if offers_questions(methods) {
            ActionView::StartKeyboardInteractive
        } else {
            ActionView::Fail(failure_message(auth, messages))
        },
    }
}

/// What follows from the methods that the server left after a password or a
/// key; nothing is left where it accepted the user.
pub fn finish_or_continue(
    auth: &SshAuth,
    methods: &Option<Vec<String>>,
    messages: &AuthFailureMessages,
) -> (r: AuthAction)
    requires
        auth@ is Password || auth@ is PrivateKey,
    ensures
        r@ == after_answer(
            auth@,
            match *methods {
                Some(v) => Some(text::views(v@)),
                None => None,
            },
            *messages,
        ),
{
    if methods.is_none() {
        return AuthAction::Done;
    }
    if allows_keyboard_interactive(methods) {
        return AuthAction::StartKeyboardInteractive;
    }
    let message = match auth {
        SshAuth::Password(_) => messages.password_failed.clone(),
        SshAuth::PrivateKey { certificate_path, .. } => match certificate_path {
            Some(_) => messages.certificate_failed.clone(),
            None => messages.public_key_failed.clone(),
        },
        _ => messages.agent_auth_failed.clone(),
    };
    AuthAction::Fail(message)
}

/// What follows from the answer of the server to a password or a key.
pub fn finish_auth_result_or_keyboard_interactive(
    auth: &SshAuth,
    result: &russh::client::AuthResult,
    messages: &AuthFailureMessages,
) -> (r: AuthAction)
    requires
        auth@ is Password || auth@ is PrivateKey,
    ensures
        r@ == after_answer(auth@, offered_methods(*result), *messages),
{
    finish_or_continue(auth, &methods_left(result), messages)
}

// ---------------------------------------------------------------------------
// Questions and answers
// ---------------------------------------------------------------------------

/// The request for the answers to the questions of a server.
pub fn build_keyboard_interactive_request(
    target: KeyboardInteractiveTarget,
    name: String,
    instructions: String,
    prompts: Vec<KeyboardInteractivePrompt>,
) -> (r: KeyboardInteractiveRequest)
    ensures
        r@ == (RequestView {
            target,
            name: name@,
            instructions: instructions@,
            prompts: prompt_views(prompts@),
        }),
{
    KeyboardInteractiveRequest { target, name, instructions, prompts }
}

/// What follows from the reply of a server in a question-and-answer login.
/// Where there is nobody to answer, the login fails.
pub open spec fn after_reply(
    reply: KeyboardReply,
    target: KeyboardInteractiveTarget,
    attended: bool,
    messages: AuthFailureMessages,
) -> ActionView {
    match reply {
        KeyboardReply::Success => ActionView::Done,
        KeyboardReply::Failure => ActionView::Fail(messages.keyboard_interactive_failed@),
        KeyboardReply::InfoRequest { name, instructions, prompts } => if attended {
            ActionView::Ask(
                RequestView {
                    target,
                    name: name@,
                    instructions: instructions@,
                    prompts: prompt_views(prompts@),
                },
            )
        } else {
            ActionView::Fail(messages.keyboard_interactive_required@)
        },
    }
}

/// What follows from the reply of a server in a question-and-answer login.
pub fn authenticate_keyboard_interactive(
    reply: KeyboardReply,
    target: KeyboardInteractiveTarget,
    attended: bool,
    messages: &AuthFailureMessages,
) -> (r: AuthAction)
    ensures
        r@ == after_reply(reply, target, attended, *messages),
{
    match reply {
        KeyboardReply::Success => AuthAction::Done,
        KeyboardReply::Failure => AuthAction::Fail(messages.keyboard_interactive_failed.clone()),
        KeyboardReply::InfoRequest { name, instructions, prompts } => {
            let request = build_keyboard_interactive_request(target, name, instructions, prompts);
            if attended {
                AuthAction::Ask(request)
            } else {
                AuthAction::Fail(messages.keyboard_interactive_required.clone())
            }
        },
    }
}

/// What follows once the user answered, or did not.
pub fn request_keyboard_interactive_responses(
    answers: Option<Vec<String>>,
    messages: &AuthFailureMessages,
) -> (r: AuthAction)
    ensures
        r@ == (match answers {
            Some(v) => ActionView::Answer(text::views(v@)),
            None => ActionView::Fail(messages.keyboard_interactive_cancelled@),
        }),
{
    match answers {
        Some(v) => AuthAction::Answer(v),
        None => AuthAction::Fail(messages.keyboard_interactive_cancelled.clone()),
    }
}

// ---------------------------------------------------------------------------
// The keys of the user
// ---------------------------------------------------------------------------

/// The names of the files that the keys of a user are kept in, in the order
/// they are tried in.
pub open spec fn default_key_files() -> Seq<Seq<char>> {
    seq!["id_ed25519"@, "id_rsa"@, "id_ecdsa"@, "id_dsa"@]
}

/// The places are those of the keys in the directory `dir`, in the order they
/// are tried in.
pub open spec fn are_keys_in(dir: Seq<char>, found: Seq<Seq<char>>) -> bool {
    found.len() == default_key_files().len() && forall|i: int|
        0 <= i < found.len() ==> places::is_path_in(
            dir,
            default_key_files()[i],
            #[trigger] found[i],
        )
}

/// The places are those of the keys below `home`; there are none where there
/// is no home.
pub open spec fn are_key_places(home: Option<Seq<char>>, found: Seq<Seq<char>>) -> bool {
    match home {
        None => found.len() == 0,
        Some(h) => exists|dir: Seq<char>|
            places::is_path_in(h, ".ssh"@, dir) && #[trigger] are_keys_in(dir, found),
    }
}

proof fn lemma_rsa_names_are_plain()
    ensures
        places::is_plain_name("id_rsa"@),
        places::is_plain_name("id_dsa"@),
{
    reveal_strlit("id_rsa");
    reveal_strlit("id_dsa");
    reveal_strlit(".");
    reveal_strlit("..");
}

proof fn lemma_curve_names_are_plain()
    ensures
        places::is_plain_name("id_ed25519"@),
        places::is_plain_name("id_ecdsa"@),
        places::is_plain_name(".ssh"@),
{
    reveal_strlit("id_ed25519");
    reveal_strlit("id_ecdsa");
    reveal_strlit(".ssh");
    reveal_strlit(".");
    reveal_strlit("..");
}

/// Where the keys of the user are kept below a home directory.
pub fn default_key_places_in(home: &Option<String>) -> (r: Vec<String>)
    ensures
        are_key_places(text::opt_view(*home), text::views(r@)),
{
    let mut found: Vec<String> = Vec::new();
    match home {
        None => found,
        Some(h) => {
            proof {
                lemma_rsa_names_are_plain();
                lemma_curve_names_are_plain();
            }
            let dir = places::path_in(h.as_str(), ".ssh");
            found.push(places::path_in(dir.as_str(), "id_ed25519"));
            found.push(places::path_in(dir.as_str(), "id_rsa"));
            found.push(places::path_in(dir.as_str(), "id_ecdsa"));
            found.push(places::path_in(dir.as_str(), "id_dsa"));
            assert(places::is_path_in(h@, ".ssh"@, dir@));
            assert(are_keys_in(dir@, text::views(found@)));
            found
        },
    }
}

/// Where the keys of the user are kept. Where the home directory is depends on
/// the machine; the places are below some home directory, or there are none.
pub fn default_key_places() -> (r: Vec<String>)
    ensures
        exists|home: Option<Seq<char>>| #[trigger] are_key_places(home, text::views(r@)),
{
    let home = places::home_dir();
    let found = default_key_places_in(&home);
    assert(are_key_places(text::opt_view(home), text::views(found@)));
    found
}

/// The paths that lead to a file, in their order.
pub open spec fn paths_present(paths: Seq<(Seq<char>, bool)>) -> Seq<Seq<char>>
    decreases paths.len(),
{
    if paths.len() == 0 {
        Seq::empty()
    } else {
        let rest = paths_present(paths.drop_last());
        if paths.last().1 {
            rest.push(paths.last().0)
        } else {
            rest
        }
    }
}

/// The path, where it leads to a file.
pub open spec fn kept(path: (Seq<char>, bool)) -> Seq<Seq<char>> {
    if path.1 {
        seq![path.0]
    } else {
        Seq::empty()
    }
}

/// The views of a list of paths with what was found there.
pub open spec fn path_views(v: Seq<(String, bool)>) -> Seq<(Seq<char>, bool)> {
    Seq::new(v.len(), |i: int| (v[i].0@, v[i].1))
}

/// The keys of the user: of the places where keys are kept, those where there
/// is a file.
pub fn discover_default_private_keys(places: &Vec<(String, bool)>) -> (r: Vec<String>)
    ensures
        text::views(r@) == paths_present(path_views(places@)),
{
    let ghost ps = path_views(places@);
    let mut out: Vec<String> = Vec::new();
    let mut i: usize = 0;
    assert(ps.take(0) =~= Seq::empty());
    assert(text::views(out@) =~= Seq::empty());
    while i < places.len()
        invariant
            i <= places@.len(),
            ps == path_views(places@),
            text::views(out@) == paths_present(ps.take(i as int)),
        decreases places@.len() - i,
    {
        let ghost before = out@;
        assert(ps.take(i as int + 1).drop_last() =~= ps.take(i as int));
        assert(ps.take(i as int + 1).last() == (places@[i as int].0@, places@[i as int].1));
        if places[i].1 {
            out.push(places[i].0.clone());
            assert(text::views(out@) =~= text::views(before).push(places@[i as int].0@));
        }
        i = i + 1;
    }
    assert(ps.take(ps.len() as int) =~= ps);
    out
}

/// A key without a passphrase.
pub open spec fn bare_key(key_path: Seq<char>) -> AuthView {
    AuthView::PrivateKey { key_path, passphrase: None, certificate_path: None }
}

/// The methods that are tried where it is left open: the agent, then the keys.
pub open spec fn auto_methods(keys: Seq<Seq<char>>) -> Seq<AuthView> {
    seq![AuthView::Agent] + Seq::new(keys.len(), |i: int| bare_key(keys[i]))
}

/// The methods that are tried where it is left open.
pub fn expand_auto_publickey_auth(keys: Vec<String>) -> (r: Vec<SshAuth>)
    ensures
        auth_views(r@) == auto_methods(text::views(keys@)),
{
    let ghost ks = text::views(keys@);
    let mut out: Vec<SshAuth> = Vec::new();
    out.push(SshAuth::Agent);
    let mut i: usize = 0;
    while i < keys.len()
        invariant
            i <= keys@.len(),
            ks == text::views(keys@),
            out@.len() == i + 1,
            out@[0]@ is Agent,
            forall|j: int| 0 <= j < i ==> (#[trigger] out@[j + 1])@ == bare_key(ks[j]),
        decreases keys@.len() - i,
    {
        out.push(
            SshAuth::PrivateKey {
                key_path: keys[i].clone(),
                passphrase: None,
                certificate_path: None,
            },
        );
        i = i + 1;
    }
    assert forall|j: int| 0 <= j < out@.len() implies auth_views(out@)[j] == auto_methods(ks)[j] by {
        if j > 0 {
            assert(out@[(j - 1) + 1]@ == bare_key(ks[j - 1]));
        }
    }
    assert(auth_views(out@) =~= auto_methods(ks));
    out
}

// ---------------------------------------------------------------------------
// One method after the other
// ---------------------------------------------------------------------------

/// The methods that can be tried as they are.
pub open spec fn definite(v: Seq<AuthView>) -> Seq<AuthView>
    decreases v.len(),
{
    if v.len() == 0 {
        Seq::empty()
    } else {
        let rest = definite(v.drop_last());
        if v.last() is AutoPublicKey {
            rest
        } else {
            rest.push(v.last())
        }
    }
}

/// One of the methods is a key.
pub open spec fn has_key(v: Seq<AuthView>) -> bool {
    exists|i: int| 0 <= i < v.len() && #[trigger] v[i] is PrivateKey
}

/// The parts of what is said when no method helped.
pub open spec fn failure_parts(
    messages: AuthFailureMessages,
    has_default_keys: bool,
    errors: Seq<Seq<char>>,
) -> Seq<Seq<char>> {
    seq![messages.auto_publickey_failed@] + (if has_default_keys {
        Seq::empty()
    } else {
        seq![messages.no_local_identity@]
    }) + (if errors.len() == 0 {
        Seq::empty()
    } else {
        seq![text::joined(errors, "; "@)]
    }) + seq![messages.auto_publickey_next_step@]
}

/// What is said when no method helped.
pub open spec fn failure_text(
    messages: AuthFailureMessages,
    has_default_keys: bool,
    errors: Seq<Seq<char>>,
) -> Seq<char> {
    text::joined(failure_parts(messages, has_default_keys, errors), ": "@)
}

/// What is said when no method helped.
pub fn build_auto_publickey_failure_message(
    messages: &AuthFailureMessages,
    has_default_keys: bool,
    errors: &Vec<String>,
) -> (r: String)
    ensures
        r@ == failure_text(*messages, has_default_keys, text::views(errors@)),
{
    let mut parts: Vec<String> = Vec::new();
    parts.push(messages.auto_publickey_failed.clone());
    if !has_default_keys {
        parts.push(messages.no_local_identity.clone());
    }
    if errors.len() > 0 {
        parts.push(text::join(errors, "; "));
    }
    parts.push(messages.auto_publickey_next_step.clone());
    assert(text::views(parts@) =~= failure_parts(
        *messages,
        has_default_keys,
        text::views(errors@),
    ));
    text::join(&parts, ": ")
}

/// Methods that are tried one after the other.
#[derive(Debug)]
pub struct FallbackRun {
    candidates: Vec<SshAuth>,
    next: usize,
    errors: Vec<String>,
    has_default_keys: bool,
}

/// Which server a login is for, and whether somebody answers its questions.
#[derive(Debug, Clone, Copy)]
pub struct FallbackLogin {
    pub target: KeyboardInteractiveTarget,
    pub answers_questions: bool,
}

/// The mathematical value of a [`FallbackRun`].
pub ghost struct FallbackView {
    pub candidates: Seq<AuthView>,
    pub next: nat,
    pub errors: Seq<Seq<char>>,
}

impl FallbackRun {
    /// The mathematical value of the run.
    pub closed spec fn view(&self) -> FallbackView {
        FallbackView {
            candidates: auth_views(self.candidates@),
            next: self.next as nat,
            errors: text::views(self.errors@),
        }
    }

    #[verifier::type_invariant]
    spec fn is_sound(self) -> bool {
        &&& self.next < self.candidates@.len()
        &&& self.errors@.len() == self.next
        &&& self.has_default_keys == has_key(auth_views(self.candidates@))
        &&& forall|i: int|
            0 <= i < self.candidates@.len() ==> !((#[trigger] self.candidates@[i])@
                is AutoPublicKey)
    }

    /// Begins with the first of the methods; where there is none, says that
    /// the user has no identity.
    pub fn start(candidates: &Vec<SshAuth>, messages: &AuthFailureMessages) -> (r: Result<
        FallbackRun,
        String,
    >)
        ensures
            ({
                let methods = definite(auth_views(candidates@));
                match r {
                    Ok(run) => methods.len() > 0 && run@ == (FallbackView {
                        candidates: methods,
                        next: 0,
                        errors: Seq::empty(),
                    }),
                    Err(message) => methods.len() == 0 && message@ == messages.no_local_identity@,
                }
            }),
    {
        let ghost all = auth_views(candidates@);
        let mut methods: Vec<SshAuth> = Vec::new();
        let mut keys: bool = false;
        let mut i: usize = 0;
        assert(all.take(0) =~= Seq::empty());
        assert(auth_views(methods@) =~= Seq::empty());
        while i < candidates.len()
            invariant
                i <= candidates@.len(),
                all == auth_views(candidates@),
                auth_views(methods@) == definite(all.take(i as int)),
                keys == has_key(auth_views(methods@)),
                forall|j: int|
                    0 <= j < methods@.len() ==> !((#[trigger] methods@[j])@ is AutoPublicKey),
            decreases candidates@.len() - i,
        {
            let ghost before = auth_views(methods@);
            assert(all.take(i as int + 1).drop_last() =~= all.take(i as int));
            assert(all.take(i as int + 1).last() == candidates@[i as int]@);
            if !matches!(candidates[i], SshAuth::AutoPublicKey) {
                let is_key = matches!(candidates[i], SshAuth::PrivateKey { .. });
                methods.push(candidates[i].copy());
                let ghost after = auth_views(methods@);
                assert(after =~= before.push(candidates@[i as int]@));
                assert(has_key(after) == (keys || is_key)) by {
                    assert(after[after.len() - 1] == candidates@[i as int]@);
                    if keys {
                        let j = choose|j: int| 0 <= j < before.len() && #[trigger] before[j] is PrivateKey;
                        assert(after[j] is PrivateKey);
                    }
                    if has_key(after) {
                        let j = choose|j: int| 0 <= j < after.len() && #[trigger] after[j] is PrivateKey;
                        if j < before.len() {
                            assert(before[j] is PrivateKey);
                        }
                    }
                }
                keys = keys || is_key;
            }
            i = i + 1;
        }
        assert(all.take(all.len() as int) =~= all);
        if methods.len() == 0 {
            return Err(messages.no_local_identity.clone());
        }
        let run = FallbackRun {
            candidates: methods,
            next: 0,
            errors: Vec::new(),
            has_default_keys: keys,
        };
        assert(run@.errors =~= Seq::empty());
        Ok(run)
    }

    /// The method to be tried now.
    pub fn current(&self) -> (r: &SshAuth)
        ensures
            self@.next < self@.candidates.len(),
            r@ == self@.candidates[self@.next as int],
            !(r@ is AutoPublicKey),
    {
        proof {
            use_type_invariant(self);
        }
        &self.candidates[self.next]
    }

    /// Which server the methods are tried with, and whether somebody answers
    /// its questions: it is the target, and nobody does.
    pub fn login(&self) -> (r: FallbackLogin)
        ensures
            r.target == KeyboardInteractiveTarget::TargetServer,
            !r.answers_questions,
    {
        FallbackLogin { target: KeyboardInteractiveTarget::TargetServer, answers_questions: false }
    }

    /// Takes over that the method failed: goes on with the next, or where it
    /// was the last, says so.
    pub fn failed(self, error: String, messages: &AuthFailureMessages) -> (r: Result<
        FallbackRun,
        String,
    >)
        ensures
            ({
                let errors = self@.errors.push(error@);
                match r {
                    Ok(run) => self@.next + 1 < self@.candidates.len() && run@ == (FallbackView {
                        candidates: self@.candidates,
                        next: self@.next + 1,
                        errors,
                    }),
                    Err(message) => self@.next + 1 == self@.candidates.len() && message@
                        == failure_text(*messages, has_key(self@.candidates), errors),
                }
            }),
    {
        proof {
            use_type_invariant(&self);
        }
        let ghost before = self@;
        let FallbackRun { candidates, next, errors, has_default_keys } = self;
        let mut errors = errors;
        let ghost old_errors = errors@;
        errors.push(error);
        assert(text::views(errors@) =~= text::views(old_errors).push(error@));
        if candidates.len() - next > 1 {
            Ok(FallbackRun { candidates, next: next + 1, errors, has_default_keys })
        } else {
            Err(build_auto_publickey_failure_message(messages, has_default_keys, &errors))
        }
    }
}

// ---------------------------------------------------------------------------
// The agent
// ---------------------------------------------------------------------------

/// A message with what lies behind it.
pub open spec fn explained(message: Seq<char>, error: Seq<char>) -> Seq<char> {
    message + ": "@ + error
}

/// A message with what lies behind it.
pub fn explain(message: &str, error: &str) -> (r: String)
    ensures
        r@ == explained(message@, error@),
{
    let mut s = message.to_owned();
    s.append(": ");
    s.append(error);
    s
}

/// What came of one identity of the agent.
#[derive(Debug)]
pub enum AgentTry {
    Accepted,
    Refused,
    Broken(String),
}

/// The identities of an agent that are still to be tried.
#[derive(Debug)]
pub struct AgentRun {
    pub left: usize,
    pub last_error: Option<String>,
}

/// What is done next with an agent.
#[derive(Debug)]
pub enum AgentStep {
    Next(AgentRun),
    Done,
    Fail(String),
}

/// Begins with the identities of an agent, where it could be reached and has
/// some.
pub fn start_agent(identities: Result<usize, String>, messages: &AuthFailureMessages) -> (r: Result<
    AgentRun,
    String,
>)
    ensures
        match identities {
            Err(error) => r matches Err(m) && m@ == explained(
                messages.agent_connect_failed@,
                error@,
            ),
            Ok(n) => if n == 0 {
                r matches Err(m) && m@ == messages.agent_no_identities@
            } else {
                r matches Ok(run) && run.left == n && run.last_error is None
            },
        },
{
    match identities {
        Err(error) => Err(explain(messages.agent_connect_failed.as_str(), error.as_str())),
        Ok(n) => if n == 0 {
            Err(messages.agent_no_identities.clone())
        } else {
            Ok(AgentRun { left: n, last_error: None })
        },
    }
}

/// What is said when no identity of the agent helped: with the last error,
/// where there was one.
pub open spec fn agent_failure(last_error: Option<Seq<char>>, messages: AuthFailureMessages) -> Seq<
    char,
> {
    match last_error {
        Some(e) => explained(messages.agent_auth_failed@, e),
        None => messages.agent_auth_failed@,
    }
}

impl AgentRun {
    /// Takes over what came of the identity that was tried.
    pub fn tried(self, outcome: AgentTry, messages: &AuthFailureMessages) -> (r: AgentStep)
        requires
            self.left > 0,
        ensures
            ({
                let last_error = match outcome {
                    AgentTry::Broken(e) => Some(e@),
                    _ => text::opt_view(self.last_error),
                };
                if outcome is Accepted {
                    r is Done
                } else if self.left > 1 {
                    r matches AgentStep::Next(run) && run.left == self.left - 1 && text::opt_view(
                        run.last_error,
                    ) == last_error
                } else {
                    r matches AgentStep::Fail(m) && m@ == agent_failure(last_error, *messages)
                }
            }),
    {
        let last_error = match outcome {
            AgentTry::Accepted => return AgentStep::Done,
            AgentTry::Refused => self.last_error,
            AgentTry::Broken(e) => Some(e),
        };
        if self.left > 1 {
            return AgentStep::Next(AgentRun { left: self.left - 1, last_error });
        }
        match last_error {
            Some(e) => AgentStep::Fail(explain(messages.agent_auth_failed.as_str(), e.as_str())),
            None => AgentStep::Fail(messages.agent_auth_failed.clone()),
        }
    }
}

// ---------------------------------------------------------------------------
// Laws
// ---------------------------------------------------------------------------

/// The methods that are tried are those that were given, without those that
/// leave it open, in the same order.
pub proof fn law_candidates_keep_order(v: Seq<AuthView>)
    ensures
        definite(v).len() <= v.len(),
        forall|i: int| 0 <= i < definite(v).len() ==> !(#[trigger] definite(v)[i] is AutoPublicKey),
        forall|a: AuthView|
            #![trigger definite(v).contains(a)]
            definite(v).contains(a) <==> v.contains(a) && !(a is AutoPublicKey),
        (forall|i: int| 0 <= i < v.len() ==> !(#[trigger] v[i] is AutoPublicKey)) ==> definite(v)
            == v,
    decreases v.len(),
{
    if v.len() > 0 {
        let rest = v.drop_last();
        law_candidates_keep_order(rest);
        assert(v =~= rest.push(v.last()));
        broadcast use vstd::seq_lib::lemma_seq_contains_after_push;

        assert forall|a: AuthView|
            #![trigger definite(v).contains(a)]
            definite(v).contains(a) <==> v.contains(a) && !(a is AutoPublicKey) by {
            assert(v.contains(a) <==> rest.contains(a) || a == v.last());
        }
        assert(v.last() == v[v.len() - 1]);
        if forall|i: int| 0 <= i < v.len() ==> !(#[trigger] v[i] is AutoPublicKey) {
            assert forall|i: int| 0 <= i < rest.len() implies !(#[trigger] rest[i]
                is AutoPublicKey) by {
                assert(rest[i] == v[i]);
            }
            assert(definite(v) =~= v);
        }
    } else {
        assert(definite(v) =~= v);
    }
}

/// Where it is left open how a user is made known, there is always something
/// to try, the agent comes first, and every key of the user is tried.
pub proof fn law_auto_methods(keys: Seq<Seq<char>>, key: Seq<char>)
    ensures
        definite(auto_methods(keys)) == auto_methods(keys),
        auto_methods(keys)[0] is Agent,
        keys.contains(key) ==> auto_methods(keys).contains(bare_key(key)),
{
    let methods = auto_methods(keys);
    assert forall|i: int| 0 <= i < methods.len() implies !(#[trigger] methods[i] is AutoPublicKey) by {}
    law_candidates_keep_order(methods);
    if keys.contains(key) {
        let i = choose|i: int| 0 <= i < keys.len() && keys[i] == key;
        assert(methods[i + 1] == bare_key(key));
    }
}

/// `path` ends with the directory for keys and the file, parted.
pub open spec fn ends_as_key(file: Seq<char>, path: Seq<char>) -> bool {
    places::ends_with(path, ".ssh/"@ + file) || places::ends_with(path, ".ssh\\"@ + file)
}

/// The keys that are found are those of the four files in the directory for
/// keys below home where there is a file, in the order they are tried in; all
/// paths end with that directory and the file. The directory and the files are
/// parted by a slash or a backslash, or not at all where the directory before
/// ends with what parts a path. Of a home that Windows takes literally, no
/// more than the ends of the paths is known. Without a home there are none.
pub proof fn law_default_keys(home: Option<Seq<char>>, places: Seq<(Seq<char>, bool)>)
    requires
        are_key_places(home, Seq::new(places.len(), |i: int| places[i].0)),
    ensures
        home is None ==> paths_present(places) == Seq::<Seq<char>>::empty(),
        home is Some ==> {
            &&& places.len() == 4
            &&& ends_as_key("id_ed25519"@, places[0].0)
            &&& ends_as_key("id_rsa"@, places[1].0)
            &&& ends_as_key("id_ecdsa"@, places[2].0)
            &&& ends_as_key("id_dsa"@, places[3].0)
            &&& paths_present(places) == kept(places[0]) + kept(places[1]) + kept(places[2])
                + kept(places[3])
        },
        home matches Some(h) ==> !places::is_verbatim(h) ==> exists|dir: Seq<char>|
            {
                &&& #[trigger] places::is_joined(h, ".ssh"@, dir)
                &&& places::is_joined(dir, "id_ed25519"@, places[0].0)
                &&& places::is_joined(dir, "id_rsa"@, places[1].0)
                &&& places::is_joined(dir, "id_ecdsa"@, places[2].0)
                &&& places::is_joined(dir, "id_dsa"@, places[3].0)
            },
{
    let found = Seq::new(places.len(), |i: int| places[i].0);
    if home is None {
        assert(found.len() == 0);
    } else {
        let h = home->0;
        let dir = choose|dir: Seq<char>|
            places::is_path_in(h, ".ssh"@, dir) && #[trigger] are_keys_in(dir, found);
        assert(found.len() == 4);
        assert(places::is_path_in(dir, default_key_files()[0], found[0]));
        assert(places::is_path_in(dir, default_key_files()[1], found[1]));
        assert(places::is_path_in(dir, default_key_files()[2], found[2]));
        assert(places::is_path_in(dir, default_key_files()[3], found[3]));
        lemma_key_ends(h, dir, "id_ed25519"@, found[0]);
        lemma_key_ends(h, dir, "id_rsa"@, found[1]);
        lemma_key_ends(h, dir, "id_ecdsa"@, found[2]);
        lemma_key_ends(h, dir, "id_dsa"@, found[3]);
        reveal_with_fuel(paths_present, 5);
        assert(paths_present(places) =~= kept(places[0]) + kept(places[1]) + kept(places[2]) + kept(
            places[3],
        ));
        if !places::is_verbatim(h) {
            assert(places::is_joined(h, ".ssh"@, dir));
            assert(!places::is_verbatim(dir)) by {
                reveal_strlit(".ssh");
            }
        }
    }
}

/// `path` is that of `file` in the directory for keys `dir` below `home`.
proof fn lemma_key_ends(home: Seq<char>, dir: Seq<char>, file: Seq<char>, path: Seq<char>)
    requires
        places::is_path_in(home, ".ssh"@, dir),
        places::is_path_in(dir, file, path),
    ensures
        ends_as_key(file, path),
{
    let parent = ".ssh"@;
    lemma_curve_names_are_plain();
    assert(parent.push('/') =~= ".ssh/"@) by {
        reveal_strlit(".ssh");
        reveal_strlit(".ssh/");
    }
    assert(parent.push('\\') =~= ".ssh\\"@) by {
        reveal_strlit(".ssh");
        reveal_strlit(".ssh\\");
    }
    if places::is_verbatim(home) {
        let above = places::last_name(home);
        if places::ends_with(dir, above.push('/') + parent) {
            places::lemma_ends_with_part(dir, above, '/', parent);
        } else {
            places::lemma_ends_with_part(dir, above, '\\', parent);
        }
    } else {
        assert(!places::is_verbatim(dir)) by {
            reveal_strlit(".ssh");
        }
        assert(dir.skip(dir.len() - parent.len()) =~= parent);
    }
    places::lemma_ends_in(parent, dir, file, path);
}

/// A refused user is told what failed, what every method said, and what to do
/// next: each of these stands in the message.
pub proof fn law_failure_text_is_complete(
    messages: AuthFailureMessages,
    has_default_keys: bool,
    errors: Seq<Seq<char>>,
    i: int,
)
    requires
        0 <= i < errors.len(),
    ensures
        ({
            let t = failure_text(messages, has_default_keys, errors);
            &&& text::occurs(t, messages.auto_publickey_failed@)
            &&& text::occurs(t, messages.auto_publickey_next_step@)
            &&& !has_default_keys ==> text::occurs(t, messages.no_local_identity@)
            &&& text::occurs(t, errors[i])
        }),
{
    let parts = failure_parts(messages, has_default_keys, errors);
    text::lemma_part_occurs(parts, ": "@, 0);
    text::lemma_part_occurs(parts, ": "@, parts.len() - 1);
    if !has_default_keys {
        assert(parts[1] == messages.no_local_identity@);
        text::lemma_part_occurs(parts, ": "@, 1);
    }
    let k = parts.len() - 2;
    assert(parts[k] == text::joined(errors, "; "@));
    text::lemma_part_occurs(parts, ": "@, k);
    text::lemma_part_occurs(errors, "; "@, i);
    text::lemma_occurs_trans(
        text::joined(parts, ": "@),
        text::joined(errors, "; "@),
        errors[i],
    );
}

} // verus!

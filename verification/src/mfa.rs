//! Questions of an SSH server that the user has to answer in the terminal.
//!
//! Questions for a password are answered with the password that is known; the
//! others are put to the user.
use vstd::prelude::*;

use crate::ssh_auth;
use crate::ssh_auth::{KeyboardInteractivePrompt, KeyboardInteractiveRequest,
    KeyboardInteractiveTarget};
use crate::terminal_types::TerminalEvent;
use crate::text;

verus! {

/// A question to the user.
#[derive(Clone, Debug, PartialEq, Eq)]
pub struct TerminalMfaPrompt {
    pub prompt: String,
    pub echo: bool,
}

/// The questions to the user.
#[derive(Clone, Debug, PartialEq, Eq)]
pub struct TerminalMfaRequest {
    pub name: String,
    pub instructions: String,
    pub prompts: Vec<TerminalMfaPrompt>,
}

/// The mathematical value of a [`TerminalMfaRequest`].
pub ghost struct MfaView {
    pub name: Seq<char>,
    pub instructions: Seq<char>,
    pub prompts: Seq<(Seq<char>, bool)>,
}

/// Why the questions cannot be answered.
#[derive(Clone, Copy, Debug, PartialEq, Eq, Structural)]
pub enum MfaError {
    NoPassword,
    MissingResponse,
    EmptyResponse,
    ResponseCount,
    Cancelled,
}

impl MfaError {
    /// The text of the error.
    pub fn text(&self) -> (r: &'static str)
        ensures
            r@ == mfa_error_text(*self),
    {
        match self {
            MfaError::NoPassword => "SSH password prompt has no configured password",
            MfaError::MissingResponse => "SSH MFA response is missing",
            MfaError::EmptyResponse => "SSH MFA response is empty",
            MfaError::ResponseCount => "SSH MFA response count does not match prompts",
            MfaError::Cancelled => "SSH MFA response was cancelled",
        }
    }
}

/// The text of an error.
pub open spec fn mfa_error_text(e: MfaError) -> Seq<char> {
    match e {
        MfaError::NoPassword => "SSH password prompt has no configured password"@,
        MfaError::MissingResponse => "SSH MFA response is missing"@,
        MfaError::EmptyResponse => "SSH MFA response is empty"@,
        MfaError::ResponseCount => "SSH MFA response count does not match prompts"@,
        MfaError::Cancelled => "SSH MFA response was cancelled"@,
    }
}

/// The mathematical values of a list of questions.
pub open spec fn mfa_prompt_views(v: Seq<TerminalMfaPrompt>) -> Seq<(Seq<char>, bool)> {
    Seq::new(v.len(), |i: int| (v[i].prompt@, v[i].echo))
}

impl TerminalMfaRequest {
    /// The mathematical value of the request.
    pub open spec fn view(&self) -> MfaView {
        MfaView {
            name: self.name@,
            instructions: self.instructions@,
            prompts: mfa_prompt_views(self.prompts@),
        }
    }

    /// A request with the same value.
    pub fn copy(&self) -> (r: TerminalMfaRequest)
        ensures
            r@ == self@,
    {
        let ghost ps = mfa_prompt_views(self.prompts@);
        let mut prompts: Vec<TerminalMfaPrompt> = Vec::new();
        let mut i: usize = 0;
        assert(mfa_prompt_views(prompts@) =~= ps.take(0));
        while i < self.prompts.len()
            invariant
                i <= self.prompts@.len(),
                ps == mfa_prompt_views(self.prompts@),
                mfa_prompt_views(prompts@) == ps.take(i as int),
            decreases self.prompts@.len() - i,
        {
            let ghost before = prompts@;
            prompts.push(
                TerminalMfaPrompt {
                    prompt: self.prompts[i].prompt.clone(),
                    echo: self.prompts[i].echo,
                },
            );
            assert(mfa_prompt_views(prompts@) =~= mfa_prompt_views(before).push(ps[i as int]));
            assert(ps.take(i as int + 1) =~= ps.take(i as int).push(ps[i as int]));
            i = i + 1;
        }
        assert(ps.take(ps.len() as int) =~= ps);
        TerminalMfaRequest {
            name: self.name.clone(),
            instructions: self.instructions.clone(),
            prompts,
        }
    }
}

// ---------------------------------------------------------------------------
// Questions for a password
// ---------------------------------------------------------------------------

/// The text without colons at its end.
pub open spec fn without_colons(s: Seq<char>) -> Seq<char>
    decreases s.len(),
{
    if s.len() > 0 && s.last() == ':' {
        without_colons(s.drop_last())
    } else {
        s
    }
}

/// The text ends with `suffix`.
pub open spec fn ends_with(s: Seq<char>, suffix: Seq<char>) -> bool {
    suffix.len() <= s.len() && s.subrange(s.len() - suffix.len(), s.len() as int) == suffix
}

/// The question is for a password.
pub open spec fn asks_password(prompt: Seq<char>) -> bool {
    ends_with(text::ascii_lowered(without_colons(text::trimmed(prompt))), "password"@)
}

proof fn lemma_without_colons(s: Seq<char>, n: int)
    requires
        0 <= n <= s.len(),
        n == 0 || s[n - 1] != ':',
        forall|j: int| n <= j < s.len() ==> s[j] == ':',
    ensures
        without_colons(s) == s.take(n),
    decreases s.len(),
{
    if n == s.len() {
        assert(s.take(n) =~= s);
        if s.len() > 0 {
            assert(s.last() == s[n - 1]);
        }
    } else {
        assert(s.last() == ':');
        lemma_without_colons(s.drop_last(), n);
        assert(s.drop_last().take(n) =~= s.take(n));
    }
}

/// Whether the question is for a password.
pub fn is_ssh_password_prompt(prompt: &str) -> (r: bool)
    ensures
        r == asks_password(prompt@),
{
    let trimmed = text::trim(prompt);
    let chars = text::to_chars(trimmed.as_str());
    let mut n: usize = chars.len();
    while n > 0 && chars[n - 1] == ':'
        invariant
            n <= chars@.len(),
            forall|j: int| n <= j < chars@.len() ==> chars@[j] == ':',
        decreases n,
    {
        n = n - 1;
    }
    proof {
        lemma_without_colons(chars@, n as int);
        assert(chars@.subrange(0, n as int) =~= chars@.take(n as int));
    }
    let bare = text::from_range(&chars, 0, n);
    let low = text::to_chars(text::to_ascii_lowercase(bare.as_str()).as_str());
    let wanted = text::to_chars("password");
    if low.len() < wanted.len() {
        return false;
    }
    let at: usize = low.len() - wanted.len();
    text::chars_occur_at(&low, &wanted, at)
}

/// The questions that are put to the user.
pub open spec fn open_questions(prompts: Seq<(Seq<char>, bool)>) -> Seq<(Seq<char>, bool)>
    decreases prompts.len(),
{
    if prompts.len() == 0 {
        Seq::empty()
    } else {
        let rest = open_questions(prompts.drop_last());
        if asks_password(prompts.last().0) {
            rest
        } else {
            rest.push(prompts.last())
        }
    }
}

/// The questions that are put to the user.
fn collect_questions(prompts: &Vec<KeyboardInteractivePrompt>) -> (r: Vec<TerminalMfaPrompt>)
    ensures
        mfa_prompt_views(r@) == open_questions(ssh_auth::prompt_views(prompts@)),
{
    let ghost ps = ssh_auth::prompt_views(prompts@);
    let mut out: Vec<TerminalMfaPrompt> = Vec::new();
    let mut i: usize = 0;
    assert(ps.take(0) =~= Seq::empty());
    assert(mfa_prompt_views(out@) =~= Seq::empty());
    while i < prompts.len()
        invariant
            i <= prompts@.len(),
            ps == ssh_auth::prompt_views(prompts@),
            mfa_prompt_views(out@) == open_questions(ps.take(i as int)),
        decreases prompts@.len() - i,
    {
        let ghost before = out@;
        assert(ps.take(i as int + 1).drop_last() =~= ps.take(i as int));
        assert(ps.take(i as int + 1).last() == (prompts@[i as int].prompt@, prompts@[i as int].echo));
        if !is_ssh_password_prompt(prompts[i].prompt.as_str()) {
            out.push(
                TerminalMfaPrompt { prompt: prompts[i].prompt.clone(), echo: prompts[i].echo },
            );
            assert(mfa_prompt_views(out@) =~= mfa_prompt_views(before).push(
                (prompts@[i as int].prompt@, prompts@[i as int].echo),
            ));
        }
        i = i + 1;
    }
    assert(ps.take(ps.len() as int) =~= ps);
    out
}

// ---------------------------------------------------------------------------
// Answers
// ---------------------------------------------------------------------------

/// The answers so far, and how many of the responses of the user they took.
pub ghost struct Answers {
    pub answers: Seq<Seq<char>>,
    pub used: nat,
}

/// The answers to the questions, one after the other. The first question that
/// cannot be answered decides why.
pub open spec fn answered(
    prompts: Seq<(Seq<char>, bool)>,
    responses: Seq<Seq<char>>,
    password: Option<Seq<char>>,
) -> Result<Answers, MfaError>
    decreases prompts.len(),
{
    if prompts.len() == 0 {
        Ok(Answers { answers: Seq::empty(), used: 0 })
    } else {
        match answered(prompts.drop_last(), responses, password) {
            Err(e) => Err(e),
            Ok(a) => if asks_password(prompts.last().0) {
                match password {
                    None => Err(MfaError::NoPassword),
                    Some(p) => Ok(Answers { answers: a.answers.push(p), ..a }),
                }
            } else if a.used >= responses.len() {
                Err(MfaError::MissingResponse)
            } else if text::trimmed(responses[a.used as int]).len() == 0 {
                Err(MfaError::EmptyResponse)
            } else {
                Ok(
                    Answers {
                        answers: a.answers.push(responses[a.used as int]),
                        used: a.used + 1,
                    },
                )
            },
        }
    }
}

/// The answers to all questions; no response of the user may be left over.
pub open spec fn all_answered(
    prompts: Seq<(Seq<char>, bool)>,
    responses: Seq<Seq<char>>,
    password: Option<Seq<char>>,
) -> Result<Seq<Seq<char>>, MfaError> {
    match answered(prompts, responses, password) {
        Err(e) => Err(e),
        Ok(a) => if a.used == responses.len() {
            Ok(a.answers)
        } else {
            Err(MfaError::ResponseCount)
        },
    }
}

/// The password for the server that asks.
pub open spec fn password_for(
    target: KeyboardInteractiveTarget,
    jump_password: Option<Seq<char>>,
    target_password: Option<Seq<char>>,
) -> Option<Seq<char>> {
    match target {
        KeyboardInteractiveTarget::JumpServer => jump_password,
        KeyboardInteractiveTarget::TargetServer => target_password,
    }
}

proof fn lemma_answered_fails(
    prompts: Seq<(Seq<char>, bool)>,
    responses: Seq<Seq<char>>,
    password: Option<Seq<char>>,
    n: int,
)
    requires
        0 <= n <= prompts.len(),
        answered(prompts.take(n), responses, password) is Err,
    ensures
        answered(prompts, responses, password) == answered(prompts.take(n), responses, password),
    decreases prompts.len() - n,
{
    if n == prompts.len() {
        assert(prompts.take(n) =~= prompts);
    } else {
        assert(prompts.take(n + 1).drop_last() =~= prompts.take(n));
        lemma_answered_fails(prompts, responses, password, n + 1);
    }
}

/// The answers to the questions of a server: the password of that server for
/// each question for one, and the responses of the user for the others, in
/// their order.
pub fn keyboard_interactive_answers_for_terminal(
    request: &KeyboardInteractiveRequest,
    responses: &Vec<String>,
    jump_password: &Option<String>,
    target_password: &Option<String>,
) -> (r: Result<Vec<String>, MfaError>)
    ensures
        ({
            let want = all_answered(
                request@.prompts,
                text::views(responses@),
                password_for(
                    request.target,
                    text::opt_view(*jump_password),
                    text::opt_view(*target_password),
                ),
            );
            match r {
                Ok(v) => want == Ok::<Seq<Seq<char>>, MfaError>(text::views(v@)),
                Err(e) => want == Err::<Seq<Seq<char>>, MfaError>(e),
            }
        }),
{
    let ghost ps = request@.prompts;
    let ghost rs = text::views(responses@);
    let password = match request.target {
        KeyboardInteractiveTarget::JumpServer => text::copy_opt(jump_password),
        KeyboardInteractiveTarget::TargetServer => text::copy_opt(target_password),
    };
    let ghost pw = text::opt_view(password);
    let mut used: usize = 0;
    let mut answers: Vec<String> = Vec::new();
    let mut i: usize = 0;
    assert(ps.take(0) =~= Seq::empty());
    assert(text::views(answers@) =~= Seq::empty());
    while i < request.prompts.len()
        invariant
            i <= request.prompts@.len(),
            ps == request@.prompts,
            rs == text::views(responses@),
            pw == text::opt_view(password),
            pw == password_for(
                request.target,
                text::opt_view(*jump_password),
                text::opt_view(*target_password),
            ),
            used <= i,
            answered(ps.take(i as int), rs, pw) == Ok::<Answers, MfaError>(
                Answers { answers: text::views(answers@), used: used as nat },
            ),
        decreases request.prompts@.len() - i,
    {
        let ghost before = text::views(answers@);
        assert(ps.take(i as int + 1).drop_last() =~= ps.take(i as int));
        assert(ps.take(i as int + 1).last().0 == request.prompts@[i as int].prompt@);
        if is_ssh_password_prompt(request.prompts[i].prompt.as_str()) {
            match &password {
                Some(p) => {
                    answers.push(p.clone());
                    assert(text::views(answers@) =~= before.push(p@));
                },
                None => {
                    proof {
                        lemma_answered_fails(ps, rs, pw, i as int + 1);
                    }
                    return Err(MfaError::NoPassword);
                },
            }
        } else {
            if used >= responses.len() {
                proof {
                    lemma_answered_fails(ps, rs, pw, i as int + 1);
                }
                return Err(MfaError::MissingResponse);
            }
            assert(rs[used as int] == responses@[used as int]@);
            if text::trim(responses[used].as_str()).as_str().is_empty() {
                proof {
                    lemma_answered_fails(ps, rs, pw, i as int + 1);
                }
                return Err(MfaError::EmptyResponse);
            }
            answers.push(responses[used].clone());
            assert(text::views(answers@) =~= before.push(rs[used as int]));
            used = used + 1;
        }
        i = i + 1;
    }
    assert(ps.take(ps.len() as int) =~= ps);
    if used == responses.len() {
        Ok(answers)
    } else {
        Err(MfaError::ResponseCount)
    }
}

// ---------------------------------------------------------------------------
// The questions that wait for the user
// ---------------------------------------------------------------------------

/// Puts the questions of SSH servers to the user.
#[derive(Debug)]
pub struct TerminalMfaResponder {
    pub pending: Option<TerminalMfaRequest>,
    pub jump_password: Option<String>,
    pub target_password: Option<String>,
}

/// The mathematical value of a [`TerminalMfaResponder`].
pub ghost struct ResponderView {
    pub pending: Option<MfaView>,
    pub jump_password: Option<Seq<char>>,
    pub target_password: Option<Seq<char>>,
}

/// What comes of the questions of a server.
#[derive(Debug)]
pub enum MfaStep {
    Answered(Result<Vec<String>, MfaError>),
    Waiting,
}

impl TerminalMfaResponder {
    /// The mathematical value of the responder.
    pub open spec fn view(&self) -> ResponderView {
        ResponderView {
            pending: match self.pending {
                Some(r) => Some(r@),
                None => None,
            },
            jump_password: text::opt_view(self.jump_password),
            target_password: text::opt_view(self.target_password),
        }
    }

    /// A responder that knows the passwords; nothing waits.
    pub fn new(jump_password: Option<String>, target_password: Option<String>) -> (r:
        TerminalMfaResponder)
        ensures
            r@ == (ResponderView {
                pending: None,
                jump_password: text::opt_view(jump_password),
                target_password: text::opt_view(target_password),
            }),
    {
        TerminalMfaResponder { pending: None, jump_password, target_password }
    }

    /// The questions that wait for the user.
    pub fn pending_request(&self) -> (r: Option<TerminalMfaRequest>)
        ensures
            match r {
                Some(request) => self@.pending == Some(request@),
                None => self@.pending is None,
            },
    {
        match &self.pending {
            Some(request) => Some(request.copy()),
            None => None,
        }
    }

    /// Takes over the responses of the user: where questions wait, they wait
    /// no longer, the responses are handed on, and the change is told.
    pub fn submit(&mut self, responses: Vec<String>) -> (r: (
        Option<Vec<String>>,
        Option<TerminalEvent>,
    ))
        ensures
            final(self)@ == (ResponderView { pending: None, ..old(self)@ }),
            r == (if old(self)@.pending is Some {
                (Some(responses), Some(TerminalEvent::SshMfaChanged))
            } else {
                (None, None)
            }),
    {
        match self.pending.take() {
            Some(_) => (Some(responses), Some(TerminalEvent::SshMfaChanged)),
            None => (None, None),
        }
    }

    /// Gives the questions up that wait; says whether there were any, and
    /// where there were, tells the change.
    pub fn cancel(&mut self) -> (r: (bool, Option<TerminalEvent>))
        ensures
            final(self)@ == (ResponderView { pending: None, ..old(self)@ }),
            r == (if old(self)@.pending is Some {
                (true, Some(TerminalEvent::SshMfaChanged))
            } else {
                (false, None)
            }),
    {
        match self.pending.take() {
            Some(_) => (true, Some(TerminalEvent::SshMfaChanged)),
            None => (false, None),
        }
    }

    /// Takes over the questions of a server: they are answered at once where
    /// none is for the user. Otherwise they wait for the user, and the change
    /// is told.
    pub fn respond(&mut self, request: &KeyboardInteractiveRequest) -> (r: (
        MfaStep,
        Option<TerminalEvent>,
    ))
        ensures
            ({
                let questions = open_questions(request@.prompts);
                let password = password_for(
                    request.target,
                    old(self)@.jump_password,
                    old(self)@.target_password,
                );
                if questions.len() == 0 {
                    &&& final(self)@ == old(self)@
                    &&& r.1 is None
                    &&& match all_answered(request@.prompts, Seq::empty(), password) {
                        Ok(v) => r.0 matches MfaStep::Answered(Ok(a)) && text::views(a@) == v,
                        Err(e) => r.0 matches MfaStep::Answered(Err(f)) && f == e,
                    }
                } else {
                    &&& r == (MfaStep::Waiting, Some(TerminalEvent::SshMfaChanged))
                    &&& final(self)@ == (ResponderView {
                        pending: Some(
                            MfaView {
                                name: request@.name,
                                instructions: request@.instructions,
                                prompts: questions,
                            },
                        ),
                        ..old(self)@
                    })
                }
            }),
    {
        let prompts = collect_questions(&request.prompts);
        assert(mfa_prompt_views(prompts@).len() == prompts@.len());
        if prompts.len() == 0 {
            let none: Vec<String> = Vec::new();
            assert(text::views(none@) =~= Seq::empty());
            let answers = keyboard_interactive_answers_for_terminal(
                request,
                &none,
                &self.jump_password,
                &self.target_password,
            );
            return (MfaStep::Answered(answers), None);
        }
        self.pending = Some(
            TerminalMfaRequest {
                name: request.name.clone(),
                instructions: request.instructions.clone(),
                prompts,
            },
        );
        (MfaStep::Waiting, Some(TerminalEvent::SshMfaChanged))
    }

    /// The answers once the user responded, or did not.
    pub fn answers(&self, request: &KeyboardInteractiveRequest, responses: &Option<Vec<String>>) -> (r:
        Result<Vec<String>, MfaError>)
        ensures
            ({
                let password = password_for(
                    request.target,
                    self@.jump_password,
                    self@.target_password,
                );
                match *responses {
                    None => r matches Err(e) && e == MfaError::Cancelled,
                    Some(v) => match all_answered(
                        request@.prompts,
                        text::views(v@),
                        password,
                    ) {
                        Ok(want) => r matches Ok(a) && text::views(a@) == want,
                        Err(e) => r matches Err(f) && f == e,
                    },
                }
            }),
    {
        match responses {
            None => Err(MfaError::Cancelled),
            Some(v) => keyboard_interactive_answers_for_terminal(
                request,
                v,
                &self.jump_password,
                &self.target_password,
            ),
        }
    }
}

// ---------------------------------------------------------------------------
// Laws
// ---------------------------------------------------------------------------

/// Every question gets one answer: a question for a password the password, and
/// every other a response of the user that is not blank. The responses are
/// used in their order, as many as there are questions for the user.
pub proof fn law_every_question_is_answered(
    prompts: Seq<(Seq<char>, bool)>,
    responses: Seq<Seq<char>>,
    password: Option<Seq<char>>,
)
    ensures
        answered(prompts, responses, password) matches Ok(a) ==> {
            &&& a.answers.len() == prompts.len()
            &&& a.used == open_questions(prompts).len()
            &&& a.used <= responses.len()
            &&& forall|i: int|
                0 <= i < prompts.len() && asks_password(#[trigger] prompts[i].0) ==> password
                    == Some(a.answers[i])
            &&& forall|i: int|
                0 <= i < prompts.len() && !asks_password(#[trigger] prompts[i].0)
                    ==> text::trimmed(a.answers[i]).len() > 0 && responses.contains(a.answers[i])
        },
    decreases prompts.len(),
{
    if prompts.len() > 0 {
        let rest = prompts.drop_last();
        law_every_question_is_answered(rest, responses, password);
        if answered(prompts, responses, password) is Ok {
            let a = answered(prompts, responses, password)->Ok_0;
            let b = answered(rest, responses, password)->Ok_0;
            assert forall|i: int|
                0 <= i < prompts.len() && asks_password(#[trigger] prompts[i].0) implies password
                == Some(a.answers[i]) by {
                if i < rest.len() {
                    assert(rest[i].0 == prompts[i].0);
                    assert(a.answers[i] == b.answers[i]);
                }
            }
            assert forall|i: int|
                0 <= i < prompts.len() && !asks_password(#[trigger] prompts[i].0) implies text::trimmed(
                a.answers[i],
            ).len() > 0 && responses.contains(a.answers[i]) by {
                if i < rest.len() {
                    assert(rest[i].0 == prompts[i].0);
                    assert(a.answers[i] == b.answers[i]);
                } else {
                    assert(a.answers[i] == responses[b.used as int]);
                }
            }
        }
    }
}

/// The answers count just where the user gave one response for each of their
/// questions.
pub proof fn law_responses_match_questions(
    prompts: Seq<(Seq<char>, bool)>,
    responses: Seq<Seq<char>>,
    password: Option<Seq<char>>,
)
    ensures
        all_answered(prompts, responses, password) matches Ok(v) ==> v.len() == prompts.len()
            && responses.len() == open_questions(prompts).len(),
{
    law_every_question_is_answered(prompts, responses, password);
}

/// The password for one server never answers a question of the other.
pub proof fn law_password_stays_with_server(
    prompts: Seq<(Seq<char>, bool)>,
    responses: Seq<Seq<char>>,
    own: Option<Seq<char>>,
    other: Option<Seq<char>>,
    another: Option<Seq<char>>,
)
    ensures
        all_answered(
            prompts,
            responses,
            password_for(KeyboardInteractiveTarget::JumpServer, own, other),
        ) == all_answered(
            prompts,
            responses,
            password_for(KeyboardInteractiveTarget::JumpServer, own, another),
        ),
        all_answered(
            prompts,
            responses,
            password_for(KeyboardInteractiveTarget::TargetServer, other, own),
        ) == all_answered(
            prompts,
            responses,
            password_for(KeyboardInteractiveTarget::TargetServer, another, own),
        ),
{
}

} // verus!

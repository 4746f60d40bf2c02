//! Vault authentication as a state machine.
//!
//! The driver owns the outside world: it prompts for a masked credential,
//! spawns the backend's login command and reports what happened. Every
//! decision — which inputs count, what a backend outcome means, when a
//! session token is accepted — is taken here, one verified step at a time.
//! The machine has no failure state: authentication retries until a usable
//! token arrives.

use vstd::prelude::*;

use crate::text::{has_prefix, is_blank, spec_trim, trim};

verus! {

/// Where authentication stands.
pub enum AuthState {
    /// Waiting for the operator to type a credential.
    AwaitPassword,
    /// A credential was submitted; waiting for the backend's outcome.
    AwaitBackend,
    /// A non-empty session token was obtained.
    Authenticated(String),
}

/// What the driver observed.
pub enum AuthEvent {
    /// The prompt returned this text (empty when reading failed).
    PasswordRead(String),
    /// The login command could not be started.
    SpawnFailed,
    /// The login command finished with this status and output.
    LoginFinished { success: bool, stdout: String, stderr: String },
}

/// What the driver is asked to do next.
pub enum AuthAction {
    /// Prompt for a masked credential.
    PromptPassword,
    /// Submit this credential to the backend.
    SubmitLogin(String),
    /// Authentication is done; use this session token.
    UseToken(String),
}

pub enum AuthStateModel {
    AwaitPassword,
    AwaitBackend,
    Authenticated(Seq<char>),
}

pub enum AuthEventModel {
    PasswordRead(Seq<char>),
    SpawnFailed,
    LoginFinished { success: bool, stdout: Seq<char>, stderr: Seq<char> },
}

pub enum AuthActionModel {
    PromptPassword,
    SubmitLogin(Seq<char>),
    UseToken(Seq<char>),
}

pub open spec fn auth_state_model(s: AuthState) -> AuthStateModel {
    match s {
        AuthState::AwaitPassword => AuthStateModel::AwaitPassword,
        AuthState::AwaitBackend => AuthStateModel::AwaitBackend,
        AuthState::Authenticated(t) => AuthStateModel::Authenticated(t@),
    }
}

pub open spec fn auth_event_model(e: AuthEvent) -> AuthEventModel {
    match e {
        AuthEvent::PasswordRead(p) => AuthEventModel::PasswordRead(p@),
        AuthEvent::SpawnFailed => AuthEventModel::SpawnFailed,
        AuthEvent::LoginFinished { success, stdout, stderr } => AuthEventModel::LoginFinished {
            success,
            stdout: stdout@,
            stderr: stderr@,
        },
    }
}

pub open spec fn auth_action_model(a: AuthAction) -> AuthActionModel {
    match a {
        AuthAction::PromptPassword => AuthActionModel::PromptPassword,
        AuthAction::SubmitLogin(p) => AuthActionModel::SubmitLogin(p@),
        AuthAction::UseToken(t) => AuthActionModel::UseToken(t@),
    }
}

/// The backend's text when a login races an existing session; such an
/// outcome counts as success.
pub open spec fn already_logged_in_prefix() -> Seq<char> {
    "You are already logged in as"@
}

/// The whole decision rule. Blank credentials restart the prompt without a
/// backend attempt; a failed spawn or a rejected credential restarts it; a
/// backend outcome that succeeded, or that reports an already-open session,
/// authenticates exactly when the trimmed standard output is a non-empty
/// token.
pub open spec fn spec_auth_step(s: AuthStateModel, e: AuthEventModel) -> (AuthStateModel,
    AuthActionModel) {
    match s {
        AuthStateModel::Authenticated(t) => (
            AuthStateModel::Authenticated(t),
            AuthActionModel::UseToken(t),
        ),
        AuthStateModel::AwaitPassword => match e {
            AuthEventModel::PasswordRead(p) => if spec_trim(p).len() == 0 {
                (AuthStateModel::AwaitPassword, AuthActionModel::PromptPassword)
            } else {
                (AuthStateModel::AwaitBackend, AuthActionModel::SubmitLogin(p))
            },
            _ => (AuthStateModel::AwaitPassword, AuthActionModel::PromptPassword),
        },
        AuthStateModel::AwaitBackend => match e {
            AuthEventModel::LoginFinished { success, stdout, stderr } => {
                let token = spec_trim(stdout);
                if !success && !already_logged_in_prefix().is_prefix_of(stderr) {
                    (AuthStateModel::AwaitPassword, AuthActionModel::PromptPassword)
                } else if token.len() == 0 {
                    (AuthStateModel::AwaitPassword, AuthActionModel::PromptPassword)
                } else {
                    (AuthStateModel::Authenticated(token), AuthActionModel::UseToken(token))
                }
            },
            _ => (AuthStateModel::AwaitPassword, AuthActionModel::PromptPassword),
        },
    }
}

/// One verified step of the authentication machine.
pub fn auth_step(state: AuthState, event: AuthEvent) -> (r: (AuthState, AuthAction))
    ensures
        (auth_state_model(r.0), auth_action_model(r.1)) == spec_auth_step(
            auth_state_model(state),
            auth_event_model(event),
        ),
{
    match state {
        AuthState::Authenticated(t) => {
            let t2 = t.clone();
            (AuthState::Authenticated(t), AuthAction::UseToken(t2))
        },
        AuthState::AwaitPassword => match event {
            AuthEvent::PasswordRead(p) => {
                if is_blank(p.as_str()) {
                    (AuthState::AwaitPassword, AuthAction::PromptPassword)
                } else {
                    (AuthState::AwaitBackend, AuthAction::SubmitLogin(p))
                }
            },
            _ => (AuthState::AwaitPassword, AuthAction::PromptPassword),
        },
        AuthState::AwaitBackend => match event {
            AuthEvent::LoginFinished { success, stdout, stderr } => {
                let already = has_prefix(stderr.as_str(), "You are already logged in as");
                if !success && !already {
                    return (AuthState::AwaitPassword, AuthAction::PromptPassword);
                }
                let token = trim(stdout.as_str());
                if token.as_str().is_empty() {
                    (AuthState::AwaitPassword, AuthAction::PromptPassword)
                } else {
                    let t2 = token.clone();
                    (AuthState::Authenticated(token), AuthAction::UseToken(t2))
                }
            },
            _ => (AuthState::AwaitPassword, AuthAction::PromptPassword),
        },
    }
}

/// The machine driven over a whole sequence of events.
pub open spec fn run_auth(s: AuthStateModel, events: Seq<AuthEventModel>) -> AuthStateModel
    decreases events.len(),
{
    if events.len() == 0 {
        s
    } else {
        run_auth(spec_auth_step(s, events[0]).0, events.drop_first())
    }
}

/// A backend outcome that rejected the submitted credential.
pub open spec fn is_credential_failure(e: AuthEventModel) -> bool {
    e matches AuthEventModel::LoginFinished { success, stdout, stderr } && !success
        && !already_logged_in_prefix().is_prefix_of(stderr)
}

/// A backend outcome the machine accepts: a success (or an already-open
/// session) whose trimmed standard output is non-empty.
pub open spec fn is_accepted_login(e: AuthEventModel) -> bool {
    e matches AuthEventModel::LoginFinished { success, stdout, stderr } && (success
        || already_logged_in_prefix().is_prefix_of(stderr)) && spec_trim(stdout).len() > 0
}

/// Running over concatenated events runs the pieces in order.
pub proof fn lemma_run_auth_append(s: AuthStateModel, a: Seq<AuthEventModel>, b: Seq<
    AuthEventModel,
>)
    ensures
        run_auth(s, a + b) == run_auth(run_auth(s, a), b),
    decreases a.len(),
{
    if a.len() == 0 {
        assert(a + b =~= b);
    } else {
        let s1 = spec_auth_step(s, a[0]).0;
        assert((a + b)[0] == a[0]);
        assert((a + b).drop_first() =~= a.drop_first() + b);
        lemma_run_auth_append(s1, a.drop_first(), b);
    }
}

/// The machine never authenticates on its own: without an accepted backend
/// outcome among the events, no run starting outside the authenticated
/// state ends in it. This is the "never gives up, never invents a session"
/// half of the retry contract.
pub proof fn lemma_no_session_without_accepted_login(
    s: AuthStateModel,
    events: Seq<AuthEventModel>,
)
    requires
        !(s is Authenticated),
        forall|k: int| 0 <= k < events.len() ==> !is_accepted_login(#[trigger] events[k]),
    ensures
        !(run_auth(s, events) is Authenticated),
    decreases events.len(),
{
    if events.len() > 0 {
        let s1 = spec_auth_step(s, events[0]).0;
        assert(!is_accepted_login(events[0]));
        assert(!(s1 is Authenticated));
        assert(forall|k: int|
            0 <= k < events.drop_first().len() ==> !is_accepted_login(
                #[trigger] events.drop_first()[k],
            ));
        lemma_no_session_without_accepted_login(s1, events.drop_first());
    }
}

/// One full attempt that the backend rejects leaves the machine prompting
/// again.
pub proof fn lemma_failed_attempt(p: Seq<char>, f: AuthEventModel)
    requires
        spec_trim(p).len() > 0,
        is_credential_failure(f),
    ensures
        run_auth(
            AuthStateModel::AwaitPassword,
            seq![AuthEventModel::PasswordRead(p), f],
        ) == AuthStateModel::AwaitPassword,
{
    let events = seq![AuthEventModel::PasswordRead(p), f];
    assert(events[0] == AuthEventModel::PasswordRead(p));
    let s1 = spec_auth_step(AuthStateModel::AwaitPassword, events[0]).0;
    assert(s1 == AuthStateModel::AwaitBackend);
    let rest = events.drop_first();
    assert(rest =~= seq![f]);
    assert(rest[0] == f);
    let s2 = spec_auth_step(s1, f).0;
    assert(s2 == AuthStateModel::AwaitPassword);
    assert(run_auth(AuthStateModel::AwaitPassword, events) == run_auth(s1, rest));
    assert(rest.drop_first() =~= Seq::<AuthEventModel>::empty());
    assert(run_auth(s1, rest) == run_auth(s2, rest.drop_first()));
    assert(run_auth(s2, rest.drop_first()) == s2);
}

/// One full attempt that the backend accepts authenticates with the trimmed
/// token of that outcome.
pub proof fn lemma_accepted_attempt(p: Seq<char>, ok: AuthEventModel)
    requires
        spec_trim(p).len() > 0,
        is_accepted_login(ok),
    ensures
        run_auth(
            AuthStateModel::AwaitPassword,
            seq![AuthEventModel::PasswordRead(p), ok],
        ) == AuthStateModel::Authenticated(spec_trim(ok->LoginFinished_stdout)),
{
    let events = seq![AuthEventModel::PasswordRead(p), ok];
    assert(events[0] == AuthEventModel::PasswordRead(p));
    let s1 = spec_auth_step(AuthStateModel::AwaitPassword, events[0]).0;
    assert(s1 == AuthStateModel::AwaitBackend);
    let rest = events.drop_first();
    assert(rest =~= seq![ok]);
    assert(rest[0] == ok);
    let s2 = spec_auth_step(s1, ok).0;
    assert(s2 == AuthStateModel::Authenticated(spec_trim(ok->LoginFinished_stdout)));
    assert(run_auth(AuthStateModel::AwaitPassword, events) == run_auth(s1, rest));
    assert(rest.drop_first() =~= Seq::<AuthEventModel>::empty());
    assert(run_auth(s1, rest) == run_auth(s2, rest.drop_first()));
    assert(run_auth(s2, rest.drop_first()) == s2);
}

/// Three rejected credentials followed by one accepted outcome authenticate
/// with the session obtained on the fourth attempt — and with none earlier:
/// no prefix of the run that stops before the accepted outcome is
/// authenticated.
pub proof fn lemma_fourth_attempt_authenticates(
    p1: Seq<char>,
    p2: Seq<char>,
    p3: Seq<char>,
    p4: Seq<char>,
    f1: AuthEventModel,
    f2: AuthEventModel,
    f3: AuthEventModel,
    ok: AuthEventModel,
)
    requires
        spec_trim(p1).len() > 0,
        spec_trim(p2).len() > 0,
        spec_trim(p3).len() > 0,
        spec_trim(p4).len() > 0,
        is_credential_failure(f1),
        is_credential_failure(f2),
        is_credential_failure(f3),
        is_accepted_login(ok),
    ensures
        ({
            let a1 = seq![AuthEventModel::PasswordRead(p1), f1];
            let a2 = seq![AuthEventModel::PasswordRead(p2), f2];
            let a3 = seq![AuthEventModel::PasswordRead(p3), f3];
            let a4 = seq![AuthEventModel::PasswordRead(p4), ok];
            let s0 = AuthStateModel::AwaitPassword;
            &&& run_auth(s0, a1) == AuthStateModel::AwaitPassword
            &&& run_auth(s0, a1 + a2) == AuthStateModel::AwaitPassword
            &&& run_auth(s0, a1 + a2 + a3) == AuthStateModel::AwaitPassword
            &&& run_auth(s0, a1 + a2 + a3 + a4) == AuthStateModel::Authenticated(
                spec_trim(ok->LoginFinished_stdout),
            )
        }),
{
    let a1 = seq![AuthEventModel::PasswordRead(p1), f1];
    let a2 = seq![AuthEventModel::PasswordRead(p2), f2];
    let a3 = seq![AuthEventModel::PasswordRead(p3), f3];
    let a4 = seq![AuthEventModel::PasswordRead(p4), ok];
    let s0 = AuthStateModel::AwaitPassword;
    lemma_failed_attempt(p1, f1);
    lemma_failed_attempt(p2, f2);
    lemma_failed_attempt(p3, f3);
    lemma_accepted_attempt(p4, ok);
    lemma_run_auth_append(s0, a1, a2);
    lemma_run_auth_append(s0, a1 + a2, a3);
    lemma_run_auth_append(s0, a1 + a2 + a3, a4);
}

} // verus!

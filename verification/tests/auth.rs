use punlock::auth::{auth_step, AuthAction, AuthEvent, AuthState};

fn failure(stderr: &str) -> AuthEvent {
    AuthEvent::LoginFinished {
        success: false,
        stdout: String::new(),
        stderr: stderr.to_string(),
    }
}

fn success(stdout: &str) -> AuthEvent {
    AuthEvent::LoginFinished {
        success: true,
        stdout: stdout.to_string(),
        stderr: String::new(),
    }
}

#[test]
fn three_failures_then_success_authenticates_on_fourth_attempt() {
    let mut state = AuthState::AwaitPassword;
    for _attempt in 0..3 {
        let (s1, a1) = auth_step(state, AuthEvent::PasswordRead("guess".to_string()));
        assert!(matches!(a1, AuthAction::SubmitLogin(_)));
        let (s2, a2) = auth_step(s1, failure("Username or password is incorrect."));
        assert!(matches!(s2, AuthState::AwaitPassword));
        assert!(matches!(a2, AuthAction::PromptPassword));
        state = s2;
    }
    let (s, _) = auth_step(state, AuthEvent::PasswordRead("correct horse".to_string()));
    let (s, a) = auth_step(s, success("  tok-4th\n"));
    match (&s, &a) {
        (AuthState::Authenticated(t), AuthAction::UseToken(u)) => {
            assert_eq!(t, "tok-4th");
            assert_eq!(u, "tok-4th");
        },
        _ => panic!("expected the fourth attempt to authenticate"),
    }
}

#[test]
fn blank_password_restarts_prompt_without_backend_attempt() {
    let (s, a) = auth_step(AuthState::AwaitPassword, AuthEvent::PasswordRead("   ".to_string()));
    assert!(matches!(s, AuthState::AwaitPassword));
    assert!(matches!(a, AuthAction::PromptPassword));
}

#[test]
fn already_logged_in_counts_as_success() {
    let (s, _) = auth_step(AuthState::AwaitPassword, AuthEvent::PasswordRead("pw".to_string()));
    let event = AuthEvent::LoginFinished {
        success: false,
        stdout: "tok-racing".to_string(),
        stderr: "You are already logged in as someone@example.com.".to_string(),
    };
    let (s, a) = auth_step(s, event);
    assert!(matches!(s, AuthState::Authenticated(_)));
    match a {
        AuthAction::UseToken(t) => assert_eq!(t, "tok-racing"),
        _ => panic!("expected a token"),
    }
}

#[test]
fn empty_token_retries() {
    let (s, _) = auth_step(AuthState::AwaitPassword, AuthEvent::PasswordRead("pw".to_string()));
    let (s, a) = auth_step(s, success("   \n"));
    assert!(matches!(s, AuthState::AwaitPassword));
    assert!(matches!(a, AuthAction::PromptPassword));
}

#[test]
fn spawn_failure_retries() {
    let (s, _) = auth_step(AuthState::AwaitPassword, AuthEvent::PasswordRead("pw".to_string()));
    let (s, a) = auth_step(s, AuthEvent::SpawnFailed);
    assert!(matches!(s, AuthState::AwaitPassword));
    assert!(matches!(a, AuthAction::PromptPassword));
}

#[test]
fn authenticated_state_keeps_its_token() {
    let (s, _) = auth_step(AuthState::AwaitPassword, AuthEvent::PasswordRead("pw".to_string()));
    let (s, _) = auth_step(s, success("tok"));
    let (s, a) = auth_step(s, AuthEvent::SpawnFailed);
    assert!(matches!(s, AuthState::Authenticated(_)));
    match a {
        AuthAction::UseToken(t) => assert_eq!(t, "tok"),
        _ => panic!("expected the kept token"),
    }
}

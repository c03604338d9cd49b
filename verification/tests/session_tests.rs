use rssh::session::{Cli, Commands, Executor, LoginStage, Negotiator};

fn target() -> Cli {
    Cli {
        host: "203.0.113.7".to_string(),
        user: "deploy".to_string(),
        password: "not-the-right-one".to_string(),
        port: 22,
        command: Commands::Exec { cmd: "echo hello".to_string() },
    }
}

#[test]
fn full_login_sequence_establishes() {
    let mut n = Negotiator::new();
    assert_eq!(n.stage, LoginStage::Start);
    n.advance(true); // address resolved
    n.advance(true); // socket connected
    n.advance(true); // session object created
    n.advance(true); // handshake done
    n.advance(true); // password call returned without error
    n.advance(true); // session reports itself authenticated
    assert_eq!(n.stage, LoginStage::Established);
    assert!(n.is_established());
}

#[test]
fn wrong_password_yields_code_1_and_no_cached_session() {
    let mut e = Executor::new(target());
    assert!(e.needs_login());
    let mut n = Negotiator::new();
    n.advance(true); // address resolved
    n.advance(true); // socket connected
    n.advance(true); // session object created
    n.advance(true); // handshake done
    n.advance(false); // password rejected
    assert_eq!(n.stage, LoginStage::Failed);
    assert!(!n.is_established());
    assert_eq!(n.error_code(), 1);
    // The login never completed, so nothing may be cached and a later use
    // would have to log in again.
    assert!(!e.session_cached);
    assert!(e.needs_login());
}

#[test]
fn auth_call_success_is_not_enough_without_confirmation() {
    // The password call can return without error while the protocol stops
    // short of completing; only the session's own "authenticated" answer
    // finishes the login.
    let mut n = Negotiator::new();
    n.advance(true);
    n.advance(true);
    n.advance(true);
    n.advance(true);
    n.advance(true); // password call returned without error
    assert_eq!(n.stage, LoginStage::AuthCalled);
    assert!(!n.is_established());
    n.advance(false); // session does not report itself authenticated
    assert_eq!(n.stage, LoginStage::Failed);
    assert_eq!(n.error_code(), 1);
}

#[test]
fn failure_at_each_early_step_is_terminal() {
    for failing_step in 0..4 {
        let mut n = Negotiator::new();
        for _ in 0..failing_step {
            n.advance(true);
        }
        n.advance(false);
        assert_eq!(n.stage, LoginStage::Failed);
        assert_eq!(n.error_code(), 1);
        assert!(!n.is_established());
    }
}

#[test]
fn established_session_is_cached_and_reused() {
    let mut e = Executor::new(target());
    assert!(e.needs_login());
    e.negotiator.advance(true);
    e.negotiator.advance(true);
    e.negotiator.advance(true);
    e.negotiator.advance(true);
    e.negotiator.advance(true);
    e.negotiator.advance(true);
    assert_eq!(e.negotiator.stage, LoginStage::Established);
    e.mark_established();
    assert!(!e.needs_login());
}

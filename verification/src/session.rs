//! Session lifecycle: the connection target, the password-login sequence,
//! and the one cached session per invocation.
//!
//! The sockets and the protocol handshake live outside this crate; what is
//! verified here is the order of the steps, that an established session can
//! only come out of a confirmed authentication check, and that every
//! failure carries the one login error code.

use vstd::prelude::*;

verus! {

/// Everything one invocation needs to reach its host.
pub struct Cli {
    pub host: String,
    pub user: String,
    pub password: String,
    pub port: u16,
    pub command: Commands,
}

/// The one subcommand an invocation runs.
pub enum Commands {
    Exec { cmd: String },
    Upload { local: String, remote: String },
    Download { remote: String, local: String },
}

/// Where the login sequence stands. The steps run in this order and a
/// failure at any of them is terminal.
#[derive(Debug, PartialEq, Eq, Structural, Clone, Copy)]
pub enum LoginStage {
    /// Nothing done yet; the address is to be resolved.
    Start,
    /// Address resolved; the socket is to be connected.
    Resolved,
    /// Socket connected; the session object is to be created.
    Connected,
    /// Session object ready; the handshake is to run.
    SessionReady,
    /// Handshake done; the password call is to run.
    HandshakeDone,
    /// Password call returned without error; the session must still report
    /// itself authenticated, as the protocol may stop short of completing.
    AuthCalled,
    /// Fully authenticated.
    Established,
    /// A step failed; the sequence is over.
    Failed,
}

/// The next stage after one step's outcome: success moves one stage
/// forward, failure is terminal.
pub open spec fn login_next(stage: LoginStage, ok: bool) -> LoginStage {
    if !ok {
        LoginStage::Failed
    } else {
        match stage {
            LoginStage::Start => LoginStage::Resolved,
            LoginStage::Resolved => LoginStage::Connected,
            LoginStage::Connected => LoginStage::SessionReady,
            LoginStage::SessionReady => LoginStage::HandshakeDone,
            LoginStage::HandshakeDone => LoginStage::AuthCalled,
            LoginStage::AuthCalled => LoginStage::Established,
            LoginStage::Established => LoginStage::Established,
            LoginStage::Failed => LoginStage::Failed,
        }
    }
}

/// An established stage only ever comes from a confirmed authentication
/// check: no failed step, and no earlier step, can produce it. A session
/// is therefore fully authenticated or does not exist.
pub proof fn lemma_established_only_by_confirmed_auth(stage: LoginStage, ok: bool)
    ensures
        login_next(stage, ok) is Established ==> ok && (stage is AuthCalled
            || stage is Established),
{
}

/// The login sequence, driven from outside with each step's outcome.
pub struct Negotiator {
    pub stage: LoginStage,
}

impl Negotiator {
    pub fn new() -> (n: Negotiator)
        ensures
            n.stage is Start,
    {
        Negotiator { stage: LoginStage::Start }
    }

    /// Record one step's outcome. For the final step, `ok` is whether the
    /// session reports itself authenticated — a password call that merely
    /// returned without error is not enough.
    pub fn advance(&mut self, ok: bool)
        requires
            !(old(self).stage is Established),
            !(old(self).stage is Failed),
        ensures
            final(self).stage == login_next(old(self).stage, ok),
            !ok ==> final(self).stage is Failed,
    {
        if !ok {
            self.stage = LoginStage::Failed;
        } else {
            self.stage = match self.stage {
                LoginStage::Start => LoginStage::Resolved,
                LoginStage::Resolved => LoginStage::Connected,
                LoginStage::Connected => LoginStage::SessionReady,
                LoginStage::SessionReady => LoginStage::HandshakeDone,
                LoginStage::HandshakeDone => LoginStage::AuthCalled,
                LoginStage::AuthCalled => LoginStage::Established,
                LoginStage::Established => LoginStage::Established,
                LoginStage::Failed => LoginStage::Failed,
            };
        }
    }

    pub fn is_established(&self) -> (b: bool)
        ensures
            b == (self.stage is Established),
    {
        match self.stage {
            LoginStage::Established => true,
            _ => false,
        }
    }

    /// Every login failure terminates the invocation with this one code.
    pub fn error_code(&self) -> (c: i32)
        requires
            self.stage is Failed,
        ensures
            c == 1,
    {
        1
    }
}

/// One invocation's context: its target and at most one session, lazily
/// established on first use and kept for the rest of the process.
pub struct Executor {
    pub cli: Cli,
    pub negotiator: Negotiator,
    /// Whether the caller holds an established session for this context.
    pub session_cached: bool,
}

impl Executor {
    pub fn new(cli: Cli) -> (e: Executor)
        ensures
            e.cli == cli,
            !e.session_cached,
            e.negotiator.stage is Start,
    {
        Executor { cli, negotiator: Negotiator::new(), session_cached: false }
    }

    /// Whether a login must run: at most one network round-trip happens per
    /// invocation, so a cached session is reused.
    pub fn needs_login(&self) -> (b: bool)
        ensures
            b == !self.session_cached,
    {
        !self.session_cached
    }

    /// Record that the caller now holds the established session, which only
    /// a completed login sequence can provide.
    pub fn mark_established(&mut self)
        requires
            old(self).negotiator.stage is Established,
        ensures
            final(self).session_cached,
            final(self).cli == old(self).cli,
            final(self).negotiator == old(self).negotiator,
    {
        self.session_cached = true;
    }
}

} // verus!

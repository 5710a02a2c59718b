//! Session establishment: connect, handshake, authenticate with the
//! private-key identity, then explicitly verify that the session reports
//! itself authenticated.
//!
//! The transport performs each step and reports what happened as a
//! [`SessionEvent`]; the machine here decides, step by step, whether the
//! session is established or with which failure it is refused.  In
//! particular, an authentication exchange that raised no fault still does
//! not establish the session until the explicit authenticated-check
//! reports true.
//!
//! The transport is never asked to verify the server's identity: whatever
//! host key the server presents during the handshake is accepted.  That is
//! an inherited simplification of this design, recorded here rather than
//! silently repaired; a host-key policy would add its own step between the
//! handshake and authentication.

use vstd::prelude::*;

use crate::errors::ClientError;

verus! {

/// What the transport reports while a session is being established,
/// in the order the steps are attempted.
#[derive(Clone, Copy, Debug, PartialEq, Eq, Structural)]
pub enum SessionEvent {
    /// The network connection to the host is open.
    Connected,
    /// The host could not be reached.
    ConnectFailed,
    /// The cryptographic handshake completed.
    HandshakeDone,
    /// The cryptographic handshake failed.
    HandshakeFailed,
    /// The private-key material was loaded and parsed.
    KeyLoaded,
    /// The private-key material could not be read.
    KeyLoadFailed,
    /// The authentication exchange completed without a fault.
    AuthAccepted,
    /// The server rejected the authentication attempt.
    AuthRejected,
    /// The explicit check whether the session is authenticated.
    AuthChecked(bool),
}

/// How far establishment has come.
#[derive(Clone, Copy, Debug, PartialEq, Eq, Structural)]
pub enum SessionStage {
    /// Waiting for the network connection.
    Connecting,
    /// Waiting for the cryptographic handshake.
    Handshaking,
    /// Waiting for the private key to be loaded.
    LoadingKey,
    /// Waiting for the authentication exchange.
    Authenticating,
    /// Waiting for the explicit authenticated-check.
    VerifyingAuth,
    /// The session is authenticated and usable.
    Established,
    /// Establishment failed; see the recorded error.
    Failed,
}

/// The machine's state: the stage reached, and, once failed, the failure.
#[derive(Clone, Copy, Debug, PartialEq, Eq, Structural)]
pub struct SessionState {
    pub stage: SessionStage,
    pub err: ClientError,
}

/// The state in which establishment begins.
pub open spec fn session_init() -> SessionState {
    SessionState { stage: SessionStage::Connecting, err: ClientError::Connection }
}

/// The failure charged to a stage the transport abandoned: the step that
/// was underway is the step that failed.
pub open spec fn stage_failure(stage: SessionStage) -> ClientError {
    match stage {
        SessionStage::Connecting => ClientError::Connection,
        SessionStage::Handshaking => ClientError::Handshake,
        SessionStage::LoadingKey => ClientError::KeyDecode,
        SessionStage::Authenticating => ClientError::AuthRejected,
        SessionStage::VerifyingAuth => ClientError::NotAuthenticated,
        SessionStage::Established => ClientError::Connection,
        SessionStage::Failed => ClientError::Connection,
    }
}

/// One step of establishment.  Each stage accepts exactly the report of
/// its own step; an out-of-order report counts as a failure of the stage
/// that was underway.  `Established` and `Failed` absorb further events.
pub open spec fn session_step(s: SessionState, e: SessionEvent) -> SessionState {
    match s.stage {
        SessionStage::Connecting => match e {
            SessionEvent::Connected => SessionState { stage: SessionStage::Handshaking, ..s },
            _ => SessionState { stage: SessionStage::Failed, err: ClientError::Connection },
        },
        SessionStage::Handshaking => match e {
            SessionEvent::HandshakeDone => SessionState { stage: SessionStage::LoadingKey, ..s },
            _ => SessionState { stage: SessionStage::Failed, err: ClientError::Handshake },
        },
        SessionStage::LoadingKey => match e {
            SessionEvent::KeyLoaded => SessionState { stage: SessionStage::Authenticating, ..s },
            _ => SessionState { stage: SessionStage::Failed, err: ClientError::KeyDecode },
        },
        SessionStage::Authenticating => match e {
            SessionEvent::AuthAccepted => SessionState { stage: SessionStage::VerifyingAuth, ..s },
            _ => SessionState { stage: SessionStage::Failed, err: ClientError::AuthRejected },
        },
        SessionStage::VerifyingAuth => match e {
            SessionEvent::AuthChecked(true) => SessionState {
                stage: SessionStage::Established,
                ..s
            },
            _ => SessionState { stage: SessionStage::Failed, err: ClientError::NotAuthenticated },
        },
        SessionStage::Established => s,
        SessionStage::Failed => s,
    }
}

/// The state after feeding the machine every event in turn, starting from `s`.
pub open spec fn session_fold_from(s: SessionState, events: Seq<SessionEvent>) -> SessionState
    decreases events.len(),
{
    if events.len() == 0 {
        s
    } else {
        session_fold_from(session_step(s, events.first()), events.drop_first())
    }
}

/// What a transcript of transport reports establishes: a session, or the
/// failure of the step that went wrong — the step underway, if the
/// transport stopped reporting.
pub open spec fn session_outcome(events: Seq<SessionEvent>) -> Result<(), ClientError> {
    let s = session_fold_from(session_init(), events);
    match s.stage {
        SessionStage::Established => Ok(()),
        SessionStage::Failed => Err(s.err),
        _ => Err(stage_failure(s.stage)),
    }
}

/// One step of establishment, executed.
pub fn session_step_exec(s: SessionState, e: &SessionEvent) -> (r: SessionState)
    ensures
        r == session_step(s, *e),
{
    match s.stage {
        SessionStage::Connecting => match e {
            SessionEvent::Connected => SessionState { stage: SessionStage::Handshaking, ..s },
            _ => SessionState { stage: SessionStage::Failed, err: ClientError::Connection },
        },
        SessionStage::Handshaking => match e {
            SessionEvent::HandshakeDone => SessionState { stage: SessionStage::LoadingKey, ..s },
            _ => SessionState { stage: SessionStage::Failed, err: ClientError::Handshake },
        },
        SessionStage::LoadingKey => match e {
            SessionEvent::KeyLoaded => SessionState { stage: SessionStage::Authenticating, ..s },
            _ => SessionState { stage: SessionStage::Failed, err: ClientError::KeyDecode },
        },
        SessionStage::Authenticating => match e {
            SessionEvent::AuthAccepted => SessionState { stage: SessionStage::VerifyingAuth, ..s },
            _ => SessionState { stage: SessionStage::Failed, err: ClientError::AuthRejected },
        },
        SessionStage::VerifyingAuth => match e {
            SessionEvent::AuthChecked(true) => SessionState {
                stage: SessionStage::Established,
                ..s
            },
            _ => SessionState { stage: SessionStage::Failed, err: ClientError::NotAuthenticated },
        },
        SessionStage::Established => s,
        SessionStage::Failed => s,
    }
}

/// Run establishment over a whole transcript of transport reports.
#[verifier::loop_isolation(false)]
pub fn establish(events: &Vec<SessionEvent>) -> (r: Result<(), ClientError>)
    ensures
        r == session_outcome(events@),
{
    proof {
        assert(events@.skip(0) =~= events@);
    }
    let mut state = SessionState { stage: SessionStage::Connecting, err: ClientError::Connection };
    let n = events.len();
    let mut i: usize = 0;
    while i < n
        invariant
            0 <= i <= n,
            session_fold_from(state, events@.skip(i as int)) == session_fold_from(
                session_init(),
                events@,
            ),
        decreases n - i,
    {
        proof {
            assert(events@.skip(i as int).first() == events@[i as int]);
            assert(events@.skip(i as int).drop_first() =~= events@.skip(i as int + 1));
        }
        state = session_step_exec(state, &events[i]);
        i += 1;
    }
    proof {
        assert(events@.skip(n as int) =~= Seq::<SessionEvent>::empty());
    }
    match state.stage {
        SessionStage::Established => Ok(()),
        SessionStage::Failed => Err(state.err),
        SessionStage::Connecting => Err(ClientError::Connection),
        SessionStage::Handshaking => Err(ClientError::Handshake),
        SessionStage::LoadingKey => Err(ClientError::KeyDecode),
        SessionStage::Authenticating => Err(ClientError::AuthRejected),
        SessionStage::VerifyingAuth => Err(ClientError::NotAuthenticated),
    }
}

/// `Failed` absorbs: once establishment has failed, no later report
/// changes the outcome.
pub proof fn lemma_session_failed_absorbs(s: SessionState, events: Seq<SessionEvent>)
    requires
        s.stage is Failed,
    ensures
        session_fold_from(s, events) == s,
    decreases events.len(),
{
    if events.len() > 0 {
        lemma_session_failed_absorbs(session_step(s, events.first()), events.drop_first());
    }
}

/// A session is established only by an explicit authenticated-check that
/// reported true: every transcript whose outcome is a session contains the
/// event `AuthChecked(true)`.
pub proof fn lemma_established_needs_positive_check(s: SessionState, events: Seq<SessionEvent>)
    requires
        session_fold_from(s, events).stage is Established,
        !(s.stage is Established),
    ensures
        exists|i: int|
            0 <= i < events.len() && #[trigger] events[i] == SessionEvent::AuthChecked(true),
    decreases events.len(),
{
    if events.len() == 0 {
    } else {
        let s1 = session_step(s, events.first());
        if s1.stage is Failed {
            lemma_session_failed_absorbs(s1, events.drop_first());
        } else if s1.stage is Established {
            assert(events[0] == SessionEvent::AuthChecked(true));
        } else {
            lemma_established_needs_positive_check(s1, events.drop_first());
            let j = choose|j: int|
                0 <= j < events.drop_first().len() && #[trigger] events.drop_first()[j]
                    == SessionEvent::AuthChecked(true);
            assert(events[j + 1] == SessionEvent::AuthChecked(true));
        }
    }
}

/// A session whose transcript establishes it was explicitly checked:
/// the outcome is never a session without `AuthChecked(true)` among the
/// transport's reports.
pub proof fn lemma_session_ok_requires_auth_check(events: Seq<SessionEvent>)
    requires
        session_outcome(events) is Ok,
    ensures
        exists|i: int|
            0 <= i < events.len() && #[trigger] events[i] == SessionEvent::AuthChecked(true),
{
    lemma_established_needs_positive_check(session_init(), events);
}

/// If the authentication exchange reported success but the explicit check
/// then reports false, establishment fails as not-authenticated — whatever
/// the transport reports afterwards.
pub proof fn lemma_negative_check_fails(s: SessionState, events: Seq<SessionEvent>)
    requires
        s.stage is VerifyingAuth,
        events.len() > 0,
        events.first() == SessionEvent::AuthChecked(false),
    ensures
        session_fold_from(s, events).stage is Failed,
        session_fold_from(s, events).err == ClientError::NotAuthenticated,
{
    let s1 = session_step(s, events.first());
    lemma_session_failed_absorbs(s1, events.drop_first());
}

} // verus!

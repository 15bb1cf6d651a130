//! The SMTP delivery session as a state machine. The library decides every
//! transition; a driver performs the returned action (open, send a command,
//! run a handshake), feeds the resulting event back in, and repeats until
//! the session is closed. The stages run strictly in order:
//! connect, greeting, TLS handshake when configured directly, EHLO, the
//! in-protocol TLS upgrade with a second EHLO when configured so,
//! authentication, MAIL FROM, RCPT TO, DATA, QUIT, closed. Any failure
//! after the connection stands leads through QUIT before the error is
//! surfaced; no partial send is ever reported as success.

use vstd::prelude::*;
use crate::config::Security;

verus! {

/// Why a delivery failed.
#[derive(Clone, Copy, PartialEq, Eq, Structural, Debug)]
pub enum DeliveryError {
    /// The connection could not be opened, broke, or an event arrived that
    /// the current stage cannot accept.
    Transport,
    /// A TLS handshake failed.
    Tls,
    /// The server answered a stage with an unexpected reply code.
    Protocol {
        /// The reply code the server answered with.
        code: u16,
    },
}

/// The stage a delivery session is in.
#[derive(Clone, Copy, PartialEq, Eq, Structural, Debug)]
pub enum SessionState {
    /// Waiting for the connection to open.
    Connecting,
    /// Waiting for the server greeting.
    Greeting,
    /// Waiting for the direct TLS handshake to finish.
    TlsHandshake,
    /// Waiting for the reply to the first EHLO.
    Ehlo,
    /// Waiting for the reply to the TLS upgrade command.
    StartTlsCmd,
    /// Waiting for the upgrade handshake to finish.
    StartTlsHandshake,
    /// Waiting for the reply to the EHLO repeated after the upgrade.
    EhloAgain,
    /// Waiting for the reply to the authentication exchange.
    Authenticating,
    /// Waiting for the reply to MAIL FROM.
    MailFrom,
    /// Waiting for the reply to RCPT TO.
    RcptTo,
    /// Waiting for the reply to the DATA command.
    DataCmd,
    /// Waiting for the reply that acknowledges the transmitted body.
    DataBody,
    /// QUIT was sent; the session closes after the next event.
    Quitting {
        /// The failure to surface once closed, if the session failed.
        failure: Option<DeliveryError>,
    },
    /// The session is over.
    Closed {
        /// `None` on a completed transaction, the failure otherwise.
        failure: Option<DeliveryError>,
    },
}

/// What the driver observed since the last step.
#[derive(Clone, Copy, PartialEq, Eq, Structural, Debug)]
pub enum SmtpEvent {
    /// The connection opened.
    Connected,
    /// The connection could not be opened.
    ConnectFailed,
    /// A TLS handshake finished.
    TlsDone,
    /// A TLS handshake failed.
    TlsFailed,
    /// The server sent a reply with this code.
    Reply(u16),
    /// The connection broke.
    TransportFailed,
}

/// What the driver must do next.
#[derive(Clone, Copy, PartialEq, Eq, Structural, Debug)]
pub enum SmtpAction {
    /// Open the connection to the configured endpoint.
    Open,
    /// Wait for the server's next reply.
    Await,
    /// Run a TLS handshake over the connection.
    RunTlsHandshake,
    /// Send EHLO.
    SendEhlo,
    /// Send the TLS upgrade command.
    SendStartTls,
    /// Send the authentication exchange.
    SendAuth,
    /// Send MAIL FROM.
    SendMailFrom,
    /// Send RCPT TO.
    SendRcptTo,
    /// Send the DATA command.
    SendDataCmd,
    /// Send the mail body, terminated as the protocol asks.
    SendBody,
    /// Send QUIT.
    SendQuit,
    /// Close the connection; the session is over.
    Close,
}

/// The reply code each waiting stage accepts.
pub open spec fn spec_expected_code(s: SessionState) -> u16 {
    match s {
        SessionState::Greeting => 220,
        SessionState::Ehlo => 250,
        SessionState::StartTlsCmd => 220,
        SessionState::EhloAgain => 250,
        SessionState::Authenticating => 235,
        SessionState::MailFrom => 250,
        SessionState::RcptTo => 250,
        SessionState::DataCmd => 354,
        SessionState::DataBody => 250,
        _ => 0,
    }
}

/// The stage that follows an accepted reply, with the action that enters it.
pub open spec fn spec_advance(security: Security, s: SessionState) -> (SessionState, SmtpAction) {
    match s {
        SessionState::Greeting => if security is DirectTls {
            (SessionState::TlsHandshake, SmtpAction::RunTlsHandshake)
        } else {
            (SessionState::Ehlo, SmtpAction::SendEhlo)
        },
        SessionState::Ehlo => if security is StartTls {
            (SessionState::StartTlsCmd, SmtpAction::SendStartTls)
        } else {
            (SessionState::Authenticating, SmtpAction::SendAuth)
        },
        SessionState::StartTlsCmd => (
            SessionState::StartTlsHandshake,
            SmtpAction::RunTlsHandshake,
        ),
        SessionState::EhloAgain => (SessionState::Authenticating, SmtpAction::SendAuth),
        SessionState::Authenticating => (SessionState::MailFrom, SmtpAction::SendMailFrom),
        SessionState::MailFrom => (SessionState::RcptTo, SmtpAction::SendRcptTo),
        SessionState::RcptTo => (SessionState::DataCmd, SmtpAction::SendDataCmd),
        SessionState::DataCmd => (SessionState::DataBody, SmtpAction::SendBody),
        SessionState::DataBody => (
            SessionState::Quitting { failure: None },
            SmtpAction::SendQuit,
        ),
        _ => (SessionState::Closed { failure: Some(DeliveryError::Transport) }, SmtpAction::Close),
    }
}

/// The full transition table: next stage and next action for a stage and an
/// observed event. A rejected reply leads to QUIT with the protocol error
/// held back until the session closes; a broken transport or failed
/// handshake closes at once, since nothing can be sent on it any more.
pub open spec fn spec_step(security: Security, s: SessionState, e: SmtpEvent) -> (
    SessionState,
    SmtpAction,
) {
    match s {
        SessionState::Connecting => match e {
            SmtpEvent::Connected => (SessionState::Greeting, SmtpAction::Await),
            _ => (
                SessionState::Closed { failure: Some(DeliveryError::Transport) },
                SmtpAction::Close,
            ),
        },
        SessionState::TlsHandshake | SessionState::StartTlsHandshake => match e {
            SmtpEvent::TlsDone => if s is TlsHandshake {
                (SessionState::Ehlo, SmtpAction::SendEhlo)
            } else {
                (SessionState::EhloAgain, SmtpAction::SendEhlo)
            },
            SmtpEvent::TlsFailed => (
                SessionState::Closed { failure: Some(DeliveryError::Tls) },
                SmtpAction::Close,
            ),
            _ => (
                SessionState::Closed { failure: Some(DeliveryError::Transport) },
                SmtpAction::Close,
            ),
        },
        SessionState::Quitting { failure } => (
            SessionState::Closed { failure },
            SmtpAction::Close,
        ),
        SessionState::Closed { failure } => (SessionState::Closed { failure }, SmtpAction::Close),
        _ => match e {
            SmtpEvent::Reply(code) => if code == spec_expected_code(s) {
                spec_advance(security, s)
            } else {
                (
                    SessionState::Quitting { failure: Some(DeliveryError::Protocol { code }) },
                    SmtpAction::SendQuit,
                )
            },
            _ => (
                SessionState::Closed { failure: Some(DeliveryError::Transport) },
                SmtpAction::Close,
            ),
        },
    }
}

/// The stage a fresh session starts in; the driver's first action is `Open`.
pub fn initial_state() -> (r: SessionState)
    ensures
        r == SessionState::Connecting,
{
    SessionState::Connecting
}

/// Performs one transition of the session state machine.
pub fn step(security: Security, s: SessionState, e: SmtpEvent) -> (r: (SessionState, SmtpAction))
    ensures
        r == spec_step(security, s, e),
{
    match s {
        SessionState::Connecting => match e {
            SmtpEvent::Connected => (SessionState::Greeting, SmtpAction::Await),
            _ => (
                SessionState::Closed { failure: Some(DeliveryError::Transport) },
                SmtpAction::Close,
            ),
        },
        SessionState::TlsHandshake | SessionState::StartTlsHandshake => match e {
            SmtpEvent::TlsDone => if matches!(s, SessionState::TlsHandshake) {
                (SessionState::Ehlo, SmtpAction::SendEhlo)
            } else {
                (SessionState::EhloAgain, SmtpAction::SendEhlo)
            },
            SmtpEvent::TlsFailed => (
                SessionState::Closed { failure: Some(DeliveryError::Tls) },
                SmtpAction::Close,
            ),
            _ => (
                SessionState::Closed { failure: Some(DeliveryError::Transport) },
                SmtpAction::Close,
            ),
        },
        SessionState::Quitting { failure } => (
            SessionState::Closed { failure },
            SmtpAction::Close,
        ),
        SessionState::Closed { failure } => (SessionState::Closed { failure }, SmtpAction::Close),
        _ => match e {
            SmtpEvent::Reply(code) => {
                let expected: u16 = match s {
                    SessionState::Greeting => 220,
                    SessionState::Ehlo => 250,
                    SessionState::StartTlsCmd => 220,
                    SessionState::EhloAgain => 250,
                    SessionState::Authenticating => 235,
                    SessionState::MailFrom => 250,
                    SessionState::RcptTo => 250,
                    SessionState::DataCmd => 354,
                    _ => 250,
                };
                if code == expected {
                    match s {
                        SessionState::Greeting => if matches!(security, Security::DirectTls) {
                            (SessionState::TlsHandshake, SmtpAction::RunTlsHandshake)
                        } else {
                            (SessionState::Ehlo, SmtpAction::SendEhlo)
                        },
                        SessionState::Ehlo => if matches!(security, Security::StartTls) {
                            (SessionState::StartTlsCmd, SmtpAction::SendStartTls)
                        } else {
                            (SessionState::Authenticating, SmtpAction::SendAuth)
                        },
                        SessionState::StartTlsCmd => (
                            SessionState::StartTlsHandshake,
                            SmtpAction::RunTlsHandshake,
                        ),
                        SessionState::EhloAgain => (
                            SessionState::Authenticating,
                            SmtpAction::SendAuth,
                        ),
                        SessionState::Authenticating => (
                            SessionState::MailFrom,
                            SmtpAction::SendMailFrom,
                        ),
                        SessionState::MailFrom => (SessionState::RcptTo, SmtpAction::SendRcptTo),
                        SessionState::RcptTo => (SessionState::DataCmd, SmtpAction::SendDataCmd),
                        SessionState::DataCmd => (SessionState::DataBody, SmtpAction::SendBody),
                        _ => (
                            SessionState::Quitting { failure: None },
                            SmtpAction::SendQuit,
                        ),
                    }
                } else {
                    (
                        SessionState::Quitting {
                            failure: Some(DeliveryError::Protocol { code }),
                        },
                        SmtpAction::SendQuit,
                    )
                }
            },
            _ => (
                SessionState::Closed { failure: Some(DeliveryError::Transport) },
                SmtpAction::Close,
            ),
        },
    }
}

/// The state a session reaches after the given events, starting at `Connecting`.
pub open spec fn spec_drive(security: Security, events: Seq<SmtpEvent>) -> SessionState
    decreases events.len(),
{
    if events.len() == 0 {
        SessionState::Connecting
    } else {
        spec_step(security, spec_drive(security, events.drop_last()), events.last()).0
    }
}

/// Runs a whole session over a recorded list of events. Drivers that talk
/// to a live server use `step` instead, one event at a time.
pub fn drive(security: Security, events: &Vec<SmtpEvent>) -> (r: SessionState)
    ensures
        r == spec_drive(security, events@),
{
    let mut s = initial_state();
    let mut i: usize = 0;
    while i < events.len()
        invariant
            0 <= i <= events@.len(),
            s == spec_drive(security, events@.take(i as int)),
        decreases events@.len() - i,
    {
        let (next, _action) = step(security, s, events[i]);
        proof {
            assert(events@.take(i + 1 as int).drop_last() =~= events@.take(i as int));
            assert(events@.take(i + 1 as int).last() == events@[i as int]);
        }
        s = next;
        i = i + 1;
    }
    assert(events@.take(events@.len() as int) =~= events@);
    s
}

/// The delivery outcome a closed session surfaces, `None` while the session
/// is still running.
pub open spec fn spec_outcome(s: SessionState) -> Option<Result<(), DeliveryError>> {
    match s {
        SessionState::Closed { failure: None } => Some(Ok(())),
        SessionState::Closed { failure: Some(e) } => Some(Err(e)),
        _ => None,
    }
}

/// Reads the delivery result out of a session state.
pub fn outcome(s: SessionState) -> (r: Option<Result<(), DeliveryError>>)
    ensures
        r == spec_outcome(s),
{
    match s {
        SessionState::Closed { failure: None } => Some(Ok(())),
        SessionState::Closed { failure: Some(e) } => Some(Err(e)),
        _ => None,
    }
}

/// A session that fails authentication never proceeds to MAIL FROM: the
/// rejected reply moves it straight to QUIT, carrying the protocol error.
pub proof fn lemma_auth_failure_quits(security: Security, code: u16)
    requires
        code != 235,
    ensures
        spec_step(security, SessionState::Authenticating, SmtpEvent::Reply(code)) == (
            SessionState::Quitting { failure: Some(DeliveryError::Protocol { code }) },
            SmtpAction::SendQuit,
        ),
{
}

/// MAIL FROM is reachable in one step only from a successfully answered
/// authentication stage: whatever stage and event produced it, they were
/// the authentication stage and an accepting reply.
pub proof fn lemma_mail_from_only_after_auth(security: Security, s: SessionState, e: SmtpEvent)
    requires
        spec_step(security, s, e).0 is MailFrom,
    ensures
        s is Authenticating,
        e == SmtpEvent::Reply(235u16),
{
}

/// A session is only ever reported delivered when the body was acknowledged
/// and the session closed cleanly: a closed state without failure can arise
/// in one step only from QUIT after success or from an already closed clean
/// session.
pub proof fn lemma_success_needs_clean_quit(security: Security, s: SessionState, e: SmtpEvent)
    requires
        spec_step(security, s, e).0 == (SessionState::Closed { failure: None }),
    ensures
        s == (SessionState::Quitting { failure: None }) || s == (
            SessionState::Closed { failure: None }
        ),
{
}

} // verus!

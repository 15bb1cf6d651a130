//! Tests of the connection configuration builder and the SMTP delivery
//! session state machine.

use mail_pipeline::config::{ConfigError, ConnectionConfig, Plain, Security};
use mail_pipeline::smtp::{
    DeliveryError, SessionState, SmtpAction, SmtpEvent, drive, initial_state, outcome, step,
};
use mail_pipeline::wire::{classify_reply_line, frame_data_body, ReplyLine};

fn b(s: &str) -> Vec<u8> {
    s.as_bytes().to_vec()
}

fn creds() -> Plain {
    Plain::from_username(b("user"), b("secret")).unwrap()
}

#[test]
fn build_without_security_mode_fails() {
    let r = ConnectionConfig::builder_with_port(b("smtp.example.com"), 587)
        .unwrap()
        .auth(creds())
        .build();
    assert!(matches!(r, Err(ConfigError::MissingSecurity)));
}

#[test]
fn build_without_auth_fails() {
    let r = ConnectionConfig::builder_with_port(b("smtp.example.com"), 587)
        .unwrap()
        .use_start_tls()
        .build();
    assert!(matches!(r, Err(ConfigError::MissingAuth)));
}

#[test]
fn last_security_mode_wins() {
    let cfg = ConnectionConfig::builder_with_port(b("smtp.example.com"), 465)
        .unwrap()
        .use_direct_tls()
        .use_start_tls()
        .auth(creds())
        .build()
        .unwrap();
    assert_eq!(cfg.security, Security::StartTls);
    let cfg = ConnectionConfig::builder_with_port(b("smtp.example.com"), 465)
        .unwrap()
        .use_start_tls()
        .use_direct_tls()
        .auth(creds())
        .build()
        .unwrap();
    assert_eq!(cfg.security, Security::DirectTls);
}

#[test]
fn malformed_host_is_refused() {
    assert!(matches!(
        ConnectionConfig::builder_with_port(b(""), 25),
        Err(ConfigError::MalformedHost)
    ));
    assert!(matches!(
        ConnectionConfig::builder_with_port(b("bad host"), 25),
        Err(ConfigError::MalformedHost)
    ));
}

#[test]
fn credentials_with_nul_are_refused() {
    let r = Plain::from_username(vec![b'a', 0, b'b'], b("pw"));
    assert!(matches!(r, Err(ConfigError::InvalidCredentials)));
}

#[test]
fn successful_start_tls_session() {
    let events = vec![
        SmtpEvent::Connected,
        SmtpEvent::Reply(220),
        SmtpEvent::Reply(250),
        SmtpEvent::Reply(220),
        SmtpEvent::TlsDone,
        SmtpEvent::Reply(250),
        SmtpEvent::Reply(235),
        SmtpEvent::Reply(250),
        SmtpEvent::Reply(250),
        SmtpEvent::Reply(354),
        SmtpEvent::Reply(250),
        SmtpEvent::Reply(221),
    ];
    let end = drive(Security::StartTls, &events);
    assert_eq!(outcome(end), Some(Ok(())));
}

#[test]
fn successful_direct_tls_session() {
    let events = vec![
        SmtpEvent::Connected,
        SmtpEvent::Reply(220),
        SmtpEvent::TlsDone,
        SmtpEvent::Reply(250),
        SmtpEvent::Reply(235),
        SmtpEvent::Reply(250),
        SmtpEvent::Reply(250),
        SmtpEvent::Reply(354),
        SmtpEvent::Reply(250),
        SmtpEvent::Reply(221),
    ];
    let end = drive(Security::DirectTls, &events);
    assert_eq!(outcome(end), Some(Ok(())));
}

#[test]
fn auth_failure_goes_to_quit_not_mail_from() {
    let (next, action) = step(
        Security::StartTls,
        SessionState::Authenticating,
        SmtpEvent::Reply(535),
    );
    assert_eq!(
        next,
        SessionState::Quitting { failure: Some(DeliveryError::Protocol { code: 535 }) }
    );
    assert_eq!(action, SmtpAction::SendQuit);
    let (closed, action) = step(Security::StartTls, next, SmtpEvent::Reply(221));
    assert_eq!(
        closed,
        SessionState::Closed { failure: Some(DeliveryError::Protocol { code: 535 }) }
    );
    assert_eq!(action, SmtpAction::Close);
}

#[test]
fn failed_auth_session_never_reaches_mail_from() {
    // Up to the authentication reply the two sessions are identical.
    let prefix = [
        SmtpEvent::Connected,
        SmtpEvent::Reply(220),
        SmtpEvent::TlsDone,
        SmtpEvent::Reply(250),
    ];
    let mut accepted: Vec<SmtpEvent> = prefix.to_vec();
    accepted.push(SmtpEvent::Reply(235));
    assert_eq!(drive(Security::DirectTls, &accepted), SessionState::MailFrom);

    let mut rejected: Vec<SmtpEvent> = prefix.to_vec();
    rejected.push(SmtpEvent::Reply(535));
    assert_eq!(
        drive(Security::DirectTls, &rejected),
        SessionState::Quitting { failure: Some(DeliveryError::Protocol { code: 535 }) }
    );
    rejected.push(SmtpEvent::Reply(221));
    assert_eq!(
        outcome(drive(Security::DirectTls, &rejected)),
        Some(Err(DeliveryError::Protocol { code: 535 }))
    );
}

#[test]
fn unreachable_host_surfaces_transport_error() {
    let events = vec![SmtpEvent::ConnectFailed];
    let end = drive(Security::StartTls, &events);
    assert_eq!(outcome(end), Some(Err(DeliveryError::Transport)));
}

#[test]
fn tls_failure_surfaces_tls_error() {
    let events = vec![SmtpEvent::Connected, SmtpEvent::Reply(220), SmtpEvent::TlsFailed];
    let end = drive(Security::DirectTls, &events);
    assert_eq!(outcome(end), Some(Err(DeliveryError::Tls)));
}

#[test]
fn rejected_recipient_quits_with_protocol_error() {
    let events = vec![
        SmtpEvent::Connected,
        SmtpEvent::Reply(220),
        SmtpEvent::TlsDone,
        SmtpEvent::Reply(250),
        SmtpEvent::Reply(235),
        SmtpEvent::Reply(250),
        SmtpEvent::Reply(550),
        SmtpEvent::Reply(221),
    ];
    let end = drive(Security::DirectTls, &events);
    assert_eq!(outcome(end), Some(Err(DeliveryError::Protocol { code: 550 })));
}

#[test]
fn session_starts_at_connecting() {
    assert_eq!(initial_state(), SessionState::Connecting);
    let (next, action) = step(Security::StartTls, initial_state(), SmtpEvent::Connected);
    assert_eq!(next, SessionState::Greeting);
    assert_eq!(action, SmtpAction::Await);
}

#[test]
fn broken_transport_mid_session_closes() {
    let events = vec![
        SmtpEvent::Connected,
        SmtpEvent::Reply(220),
        SmtpEvent::Reply(250),
        SmtpEvent::TransportFailed,
    ];
    let end = drive(Security::StartTls, &events);
    assert_eq!(outcome(end), Some(Err(DeliveryError::Transport)));
}

#[test]
fn base64_known_vectors() {
    assert_eq!(mail_pipeline::wire::base64_bytes(b""), b"");
    assert_eq!(mail_pipeline::wire::base64_bytes(b"f"), b"Zg==");
    assert_eq!(mail_pipeline::wire::base64_bytes(b"fo"), b"Zm8=");
    assert_eq!(mail_pipeline::wire::base64_bytes(b"foo"), b"Zm9v");
    assert_eq!(mail_pipeline::wire::base64_bytes(b"foob"), b"Zm9vYg==");
    assert_eq!(mail_pipeline::wire::base64_bytes(b"fooba"), b"Zm9vYmE=");
    assert_eq!(mail_pipeline::wire::base64_bytes(b"foobar"), b"Zm9vYmFy");
}

#[test]
fn auth_plain_command_frames_credentials() {
    let creds = Plain::from_username(b("user"), b("pass")).unwrap();
    let cmd = mail_pipeline::wire::auth_plain_command(&creds);
    // base64 of "\0user\0pass"
    assert_eq!(cmd, b"AUTH PLAIN AHVzZXIAcGFzcw==\r\n");
}

#[test]
fn reply_lines_are_classified() {
    assert_eq!(classify_reply_line(b"250 OK\r\n"), ReplyLine::Final(250));
    assert_eq!(classify_reply_line(b"250-STARTTLS\r\n"), ReplyLine::Continuation(250));
    assert_eq!(classify_reply_line(b"221\r\n"), ReplyLine::Final(221));
    assert_eq!(classify_reply_line(b"221"), ReplyLine::Final(221));
    assert_eq!(classify_reply_line(b"hello\r\n"), ReplyLine::Malformed);
    assert_eq!(classify_reply_line(b"25"), ReplyLine::Malformed);
    assert_eq!(classify_reply_line(b"250?\r\n"), ReplyLine::Malformed);
}

#[test]
fn data_body_is_dot_stuffed_and_terminated() {
    assert_eq!(frame_data_body(b"hello"), b"hello\r\n.\r\n");
    assert_eq!(
        frame_data_body(b".start\r\nmid .dot\r\n.again"),
        b"..start\r\nmid .dot\r\n..again\r\n.\r\n"
    );
    assert_eq!(frame_data_body(b""), b"\r\n.\r\n");
    assert_eq!(frame_data_body(b"."), b"..\r\n.\r\n");
}

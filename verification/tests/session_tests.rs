use remote_runner::commands::CommandData;
use remote_runner::commands::CommandMap;
use remote_runner::client::Client;
use remote_runner::config::Config;
use remote_runner::errors::ClientError;
use remote_runner::session::establish;
use remote_runner::session::SessionEvent;

fn happy_transcript() -> Vec<SessionEvent> {
    vec![
        SessionEvent::Connected,
        SessionEvent::HandshakeDone,
        SessionEvent::KeyLoaded,
        SessionEvent::AuthAccepted,
        SessionEvent::AuthChecked(true),
    ]
}

fn sample_config() -> Config {
    let mut commands = CommandMap::new();
    commands.insert(
        "status".to_string(),
        CommandData {
            command: "uptime".to_string(),
            expected: None,
        },
    );
    Config {
        username: "pi".to_string(),
        key: "/home/pi/.ssh/id_rsa".to_string(),
        host: "example.net".to_string(),
        link: "http://example.net/".to_string(),
        commands,
    }
}

#[test]
fn a_full_transcript_establishes_the_session() {
    assert_eq!(establish(&happy_transcript()), Ok(()));
}

#[test]
fn a_failed_connection_is_a_connection_error() {
    let events = vec![SessionEvent::ConnectFailed];
    assert_eq!(establish(&events), Err(ClientError::Connection));
}

#[test]
fn a_failed_handshake_is_a_handshake_error() {
    let events = vec![SessionEvent::Connected, SessionEvent::HandshakeFailed];
    assert_eq!(establish(&events), Err(ClientError::Handshake));
}

#[test]
fn an_unreadable_key_is_a_key_decode_error() {
    let events = vec![
        SessionEvent::Connected,
        SessionEvent::HandshakeDone,
        SessionEvent::KeyLoadFailed,
    ];
    assert_eq!(establish(&events), Err(ClientError::KeyDecode));
}

#[test]
fn a_rejected_key_is_an_auth_rejection() {
    let events = vec![
        SessionEvent::Connected,
        SessionEvent::HandshakeDone,
        SessionEvent::KeyLoaded,
        SessionEvent::AuthRejected,
    ];
    assert_eq!(establish(&events), Err(ClientError::AuthRejected));
}

#[test]
fn a_silent_auth_failure_is_not_authenticated() {
    let mut events = happy_transcript();
    events.pop();
    events.push(SessionEvent::AuthChecked(false));
    assert_eq!(establish(&events), Err(ClientError::NotAuthenticated));
}

#[test]
fn an_abandoned_transcript_charges_the_step_underway() {
    let events = vec![SessionEvent::Connected];
    assert_eq!(establish(&events), Err(ClientError::Handshake));
}

#[test]
fn an_out_of_order_report_fails_the_step_underway() {
    let events = vec![SessionEvent::Connected, SessionEvent::AuthAccepted];
    assert_eq!(establish(&events), Err(ClientError::Handshake));
}

#[test]
fn an_empty_transcript_is_a_connection_error() {
    let events: Vec<SessionEvent> = Vec::new();
    assert_eq!(establish(&events), Err(ClientError::Connection));
}

#[test]
fn client_new_accepts_an_authenticated_session() {
    let client = Client::new(sample_config(), &happy_transcript());
    assert!(client.is_ok());
}

#[test]
fn client_new_refuses_an_unauthenticated_session() {
    let mut events = happy_transcript();
    events.pop();
    events.push(SessionEvent::AuthChecked(false));
    let err = Client::new(sample_config(), &events).unwrap_err();
    assert_eq!(err, ClientError::NotAuthenticated);
}

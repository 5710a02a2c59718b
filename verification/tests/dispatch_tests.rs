use remote_runner::channel::ChannelEvent;
use remote_runner::client::Client;
use remote_runner::commands::CommandData;
use remote_runner::commands::CommandMap;
use remote_runner::config::Config;
use remote_runner::errors::ClientError;
use remote_runner::errors::TopLevelError;
use remote_runner::runner::check_commands;
use remote_runner::runner::dispatch_commands;
use remote_runner::runner::plan_commands;
use remote_runner::runner::Opener;
use remote_runner::runner::Runner;
use remote_runner::runner::RunnerHandle;
use remote_runner::session::SessionEvent;

fn sample_config() -> Config {
    let mut commands = CommandMap::new();
    commands.insert(
        "status".to_string(),
        CommandData {
            command: "uptime".to_string(),
            expected: None,
        },
    );
    Config {
        username: "pi".to_string(),
        key: "/home/pi/.ssh/id_rsa".to_string(),
        host: "example.net".to_string(),
        link: "http://example.net/".to_string(),
        commands,
    }
}

fn sample_client() -> Client {
    let events = vec![
        SessionEvent::Connected,
        SessionEvent::HandshakeDone,
        SessionEvent::KeyLoaded,
        SessionEvent::AuthAccepted,
        SessionEvent::AuthChecked(true),
    ];
    Client::new(sample_config(), &events).unwrap()
}

fn sample_runners() -> Vec<RunnerHandle> {
    vec![
        RunnerHandle::Remote(sample_client()),
        RunnerHandle::Opener(Opener {
            link: "http://example.net/".to_string(),
        }),
    ]
}

fn invocation(names: &[&str]) -> Vec<String> {
    let mut v = vec!["remote_runner".to_string()];
    for n in names {
        v.push(n.to_string());
    }
    v
}

#[test]
fn a_present_name_is_recognized() {
    let client = sample_client();
    assert!(client.has_command(&"status".to_string()));
}

#[test]
fn an_absent_name_is_not_recognized() {
    let client = sample_client();
    assert!(!client.has_command(&"deploy".to_string()));
}

#[test]
fn the_opener_recognizes_exactly_open() {
    let opener = Opener {
        link: "http://example.net/".to_string(),
    };
    assert!(opener.has_command(&"open".to_string()));
    assert!(!opener.has_command(&"status".to_string()));
}

#[test]
fn command_text_resolves_a_present_name() {
    let client = sample_client();
    assert_eq!(
        client.command_text(&"status".to_string()).unwrap(),
        "uptime"
    );
}

#[test]
fn command_text_fails_on_an_absent_name() {
    let client = sample_client();
    let err = client.command_text(&"deploy".to_string()).unwrap_err();
    assert_eq!(err, ClientError::CommandNotFound);
}

#[test]
fn running_a_present_name_returns_the_channel_result() {
    let client = sample_client();
    let transcript = vec![
        ChannelEvent::Opened,
        ChannelEvent::ExecOk,
        ChannelEvent::Data(b"up 3 days".to_vec()),
        ChannelEvent::Closed,
        ChannelEvent::ExitStatus(0),
    ];
    let result = client.run(&"status".to_string(), &transcript).unwrap();
    assert_eq!(result.output, "up 3 days");
    assert_eq!(result.status, 0);
}

#[test]
fn running_an_absent_name_is_command_not_found() {
    let client = sample_client();
    let no_events: Vec<ChannelEvent> = Vec::new();
    let err = client.run(&"deploy".to_string(), &no_events).unwrap_err();
    assert_eq!(err, ClientError::CommandNotFound);
}

#[test]
fn running_an_absent_name_never_reports_a_transport_failure() {
    let client = sample_client();
    let broken_transport = vec![ChannelEvent::OpenFailed];
    let err = client
        .run(&"deploy".to_string(), &broken_transport)
        .unwrap_err();
    assert_eq!(err, ClientError::CommandNotFound);
}

#[test]
fn a_recognized_batch_passes_the_check() {
    let runners = sample_runners();
    let commands = invocation(&["status", "open"]);
    assert!(check_commands(&commands, &runners).is_ok());
}

#[test]
fn an_unsupported_name_fails_the_whole_batch() {
    let runners = sample_runners();
    let commands = invocation(&["status", "deploy", "open"]);
    let err = check_commands(&commands, &runners).unwrap_err();
    match err {
        TopLevelError::UnsupportedCommands(names) => {
            assert_eq!(names, vec!["deploy".to_string()]);
        }
        other => panic!("expected unsupported commands, got {:?}", other),
    }
}

#[test]
fn the_plan_pairs_each_name_with_its_runner() {
    let runners = sample_runners();
    let commands = invocation(&["status", "open"]);
    let plan = plan_commands(&commands, &runners);
    assert_eq!(plan.len(), 2);
    assert_eq!(plan[0].runner, 0);
    assert_eq!(plan[0].name, "status");
    assert_eq!(plan[1].runner, 1);
    assert_eq!(plan[1].name, "open");
}

#[test]
fn dispatch_yields_a_plan_for_a_recognized_batch() {
    let runners = sample_runners();
    let commands = invocation(&["open", "status"]);
    let plan = dispatch_commands(&commands, &runners).unwrap();
    assert_eq!(plan.len(), 2);
    assert_eq!(plan[0].runner, 1);
    assert_eq!(plan[0].name, "open");
    assert_eq!(plan[1].runner, 0);
    assert_eq!(plan[1].name, "status");
}

#[test]
fn dispatch_yields_no_plan_when_any_name_is_unsupported() {
    let runners = sample_runners();
    let commands = invocation(&["deploy", "status"]);
    let err = dispatch_commands(&commands, &runners).unwrap_err();
    match err {
        TopLevelError::UnsupportedCommands(names) => {
            assert_eq!(names, vec!["deploy".to_string()]);
        }
        other => panic!("expected unsupported commands, got {:?}", other),
    }
}

#[test]
fn a_name_two_runners_recognize_is_routed_to_the_first() {
    let mut commands = CommandMap::new();
    commands.insert(
        "status".to_string(),
        CommandData {
            command: "uptime".to_string(),
            expected: None,
        },
    );
    commands.insert(
        "open".to_string(),
        CommandData {
            command: "xdg-open http://example.net/".to_string(),
            expected: None,
        },
    );
    let config = Config {
        username: "pi".to_string(),
        key: "/home/pi/.ssh/id_rsa".to_string(),
        host: "example.net".to_string(),
        link: "http://example.net/".to_string(),
        commands,
    };
    let events = vec![
        SessionEvent::Connected,
        SessionEvent::HandshakeDone,
        SessionEvent::KeyLoaded,
        SessionEvent::AuthAccepted,
        SessionEvent::AuthChecked(true),
    ];
    let client = Client::new(config, &events).unwrap();
    let opener = Opener {
        link: "http://example.net/".to_string(),
    };
    // Both runners recognize "open": the remote catalog defines it, and the
    // opener answers to it by name.  The plan must hold exactly one step,
    // on the first registered runner.
    let runners = vec![RunnerHandle::Remote(client), RunnerHandle::Opener(opener)];
    let commands = invocation(&["open"]);
    let plan = dispatch_commands(&commands, &runners).unwrap();
    assert_eq!(plan.len(), 1);
    assert_eq!(plan[0].runner, 0);
    assert_eq!(plan[0].name, "open");
}

#[test]
fn a_batch_of_only_the_program_name_is_empty_and_passes() {
    let runners = sample_runners();
    let commands = invocation(&[]);
    assert!(check_commands(&commands, &runners).is_ok());
    assert_eq!(plan_commands(&commands, &runners).len(), 0);
}

use remote_runner::config::concat_with_dot;
use remote_runner::config::maybe_concat_with_dot;
use remote_runner::config::read_commands;
use remote_runner::config::read_string;
use remote_runner::config::read_string_p;
use remote_runner::config::Config;
use remote_runner::config::ConfigEntry;
use remote_runner::config::ConfigKey;
use remote_runner::config::ConfigValue;
use remote_runner::errors::ConfigError;

fn text(s: &str) -> ConfigValue {
    ConfigValue::Text(s.to_string())
}

fn entry(key: &str, value: ConfigValue) -> ConfigEntry {
    ConfigEntry {
        key: ConfigKey::Text(key.to_string()),
        value,
    }
}

fn mapping(entries: Vec<ConfigEntry>) -> ConfigValue {
    ConfigValue::Mapping(entries)
}

fn command_entry(name: &str, command: &str, expected: Option<&str>) -> ConfigEntry {
    let mut fields = vec![entry("command", text(command))];
    if let Some(e) = expected {
        fields.push(entry("expected", text(e)));
    }
    entry(name, mapping(fields))
}

fn full_document() -> ConfigValue {
    mapping(vec![
        entry("username", text("pi")),
        entry("host", text("example.net")),
        entry("key", text("/home/pi/.ssh/id_rsa")),
        entry("link", text("http://example.net/")),
        entry(
            "commands",
            mapping(vec![command_entry("status", "uptime", None)]),
        ),
    ])
}

#[test]
fn concat_with_dot_joins_with_a_dot() {
    assert_eq!(concat_with_dot("commands", "status"), "commands.status");
}

#[test]
fn maybe_concat_without_prefix_is_the_field() {
    assert_eq!(maybe_concat_with_dot(&None, "username"), "username");
}

#[test]
fn maybe_concat_with_prefix_is_dotted() {
    let prefix = Some("commands.status".to_string());
    assert_eq!(
        maybe_concat_with_dot(&prefix, "command"),
        "commands.status.command"
    );
}

#[test]
fn read_string_finds_a_text_field() {
    let doc = mapping(vec![entry("username", text("pi"))]);
    assert_eq!(read_string(&doc, "username").unwrap(), "pi");
}

#[test]
fn read_string_names_the_missing_field() {
    let doc = mapping(vec![entry("username", text("pi"))]);
    let err = read_string(&doc, "host").unwrap_err();
    assert!(matches!(err, ConfigError::Missing(m) if m == "host"));
}

#[test]
fn read_string_rejects_a_non_text_value() {
    let doc = mapping(vec![entry("port", ConfigValue::Other)]);
    let err = read_string(&doc, "port").unwrap_err();
    assert!(matches!(err, ConfigError::Missing(m) if m == "port"));
}

#[test]
fn read_string_p_names_the_dotted_path() {
    let doc = mapping(vec![]);
    let prefix = Some("commands.status".to_string());
    let err = read_string_p(&doc, "command", &prefix).unwrap_err();
    assert!(matches!(err, ConfigError::Missing(m) if m == "commands.status.command"));
}

#[test]
fn read_commands_builds_the_catalog() {
    let node = mapping(vec![
        command_entry("status", "uptime", Some("up")),
        command_entry("deploy", "make deploy", None),
    ]);
    let map = read_commands(&node).unwrap();
    assert!(map.contains_key(&"status".to_string()));
    assert!(map.contains_key(&"deploy".to_string()));
    assert!(!map.contains_key(&"open".to_string()));
    let status = map.get(&"status".to_string()).unwrap();
    assert_eq!(status.command, "uptime");
    assert_eq!(status.expected.as_deref(), Some("up"));
    let deploy = map.get(&"deploy".to_string()).unwrap();
    assert_eq!(deploy.command, "make deploy");
    assert!(deploy.expected.is_none());
}

#[test]
fn read_commands_takes_the_later_duplicate() {
    let node = mapping(vec![
        command_entry("status", "uptime", None),
        command_entry("status", "w", None),
    ]);
    let map = read_commands(&node).unwrap();
    assert_eq!(map.get(&"status".to_string()).unwrap().command, "w");
}

#[test]
fn read_commands_rejects_a_non_mapping() {
    let err = read_commands(&text("uptime")).unwrap_err();
    assert!(matches!(err, ConfigError::YamlContents(m) if m == "Invalid commands map"));
}

#[test]
fn read_commands_rejects_a_non_text_key() {
    let node = ConfigValue::Mapping(vec![ConfigEntry {
        key: ConfigKey::Other,
        value: mapping(vec![entry("command", text("uptime"))]),
    }]);
    let err = read_commands(&node).unwrap_err();
    assert!(matches!(err, ConfigError::YamlContents(m) if m == "Command keys must be strings"));
}

#[test]
fn read_commands_names_the_missing_command_field() {
    let node = mapping(vec![entry(
        "status",
        mapping(vec![entry("expected", text("up"))]),
    )]);
    let err = read_commands(&node).unwrap_err();
    assert!(matches!(err, ConfigError::Missing(m) if m == "commands.status.command"));
}

#[test]
fn from_document_reads_everything() {
    let config = Config::from_document(&full_document()).unwrap();
    assert_eq!(config.username, "pi");
    assert_eq!(config.host, "example.net");
    assert_eq!(config.key, "/home/pi/.ssh/id_rsa");
    assert_eq!(config.link, "http://example.net/");
    let status = config.commands.get(&"status".to_string()).unwrap();
    assert_eq!(status.command, "uptime");
    assert!(status.expected.is_none());
}

#[test]
fn from_document_reports_the_first_missing_field() {
    let doc = mapping(vec![entry("host", text("example.net"))]);
    let err = Config::from_document(&doc).unwrap_err();
    assert!(matches!(err, ConfigError::Missing(m) if m == "username"));
}

#[test]
fn from_document_requires_the_link() {
    let doc = mapping(vec![
        entry("username", text("pi")),
        entry("host", text("example.net")),
        entry("key", text("/home/pi/.ssh/id_rsa")),
    ]);
    let err = Config::from_document(&doc).unwrap_err();
    assert!(matches!(err, ConfigError::Missing(m) if m == "link"));
}

#[test]
fn from_document_requires_a_commands_mapping() {
    let doc = mapping(vec![
        entry("username", text("pi")),
        entry("host", text("example.net")),
        entry("key", text("/home/pi/.ssh/id_rsa")),
        entry("link", text("http://example.net/")),
    ]);
    let err = Config::from_document(&doc).unwrap_err();
    assert!(matches!(err, ConfigError::YamlContents(m) if m == "Invalid commands map"));
}

//! The configuration document and the rules for reading it.
//!
//! The document itself is parsed outside this crate; it arrives here as a
//! [`ConfigValue`] tree holding exactly what the reading rules consult:
//! text values and mappings with (usually) textual keys.  Everything decided
//! about the tree — which fields are required, how a missing field is named,
//! how the command catalog is assembled — is verified here.

use vstd::prelude::*;
use vstd::string::StringExecFns;

use crate::commands::CommandData;
use crate::commands::CommandMap;
use crate::errors::ConfigError;

verus! {

/// A configuration document node.
#[derive(Debug)]
pub enum ConfigValue {
    /// A textual scalar.
    Text(String),
    /// A mapping, in document order.
    Mapping(Vec<ConfigEntry>),
    /// Any node the reading rules do not consult: numbers, lists, nulls,
    /// or a lookup that found nothing.
    Other,
}

/// One entry of a mapping node.
#[derive(Debug)]
pub struct ConfigEntry {
    pub key: ConfigKey,
    pub value: ConfigValue,
}

/// A mapping key: textual, or of some other shape the rules reject.
#[derive(Debug)]
pub enum ConfigKey {
    Text(String),
    Other,
}

/// `a`, a dot, then `b`.
pub open spec fn dotted(a: Seq<char>, b: Seq<char>) -> Seq<char> {
    a + "."@ + b
}

/// The characters of an optional prefix.
pub open spec fn opt_view(p: Option<String>) -> Option<Seq<char>> {
    match p {
        Some(s) => Some(s@),
        None => None,
    }
}

/// The dotted path of field `b` under an optional prefix.
pub open spec fn dotted_name(prefix: Option<Seq<char>>, b: Seq<char>) -> Seq<char> {
    match prefix {
        None => b,
        Some(a) => dotted(a, b),
    }
}

/// The value of the first entry whose key is the text `name`.
pub open spec fn entry_at(entries: Seq<ConfigEntry>, name: Seq<char>) -> Option<ConfigValue>
    decreases entries.len(),
{
    if entries.len() == 0 {
        None
    } else if entries.first().key matches ConfigKey::Text(s) && s@ == name {
        Some(entries.first().value)
    } else {
        entry_at(entries.drop_first(), name)
    }
}

/// Looking `name` up in a node: only a mapping yields anything.
pub open spec fn value_at(v: ConfigValue, name: Seq<char>) -> Option<ConfigValue> {
    match v {
        ConfigValue::Mapping(entries) => entry_at(entries@, name),
        _ => None,
    }
}

/// The text found under `name`, when the node is a mapping, the key is
/// present, and its value is textual.
pub open spec fn str_at(v: ConfigValue, name: Seq<char>) -> Option<Seq<char>> {
    match value_at(v, name) {
        Some(ConfigValue::Text(s)) => Some(s@),
        _ => None,
    }
}

impl ConfigValue {
    /// The value stored under a textual key, if this node is a mapping
    /// that has one.
    #[verifier::loop_isolation(false)]
    pub fn get<'a>(&'a self, name: &str) -> (r: Option<&'a ConfigValue>)
        ensures
            r matches Some(v) ==> value_at(*self, name@) == Some(*v),
            r is None ==> value_at(*self, name@) is None,
    {
        let wanted: String = name.to_owned();
        match self {
            ConfigValue::Mapping(entries) => {
                proof {
                    assert(entries@.skip(0) =~= entries@);
                }
                let n = entries.len();
                let mut i: usize = 0;
                while i < n
                    invariant
                        n == entries.len(),
                        0 <= i <= n,
                        wanted@ == name@,
                        entry_at(entries@.skip(i as int), name@) == entry_at(entries@, name@),
                    decreases n - i,
                {
                    proof {
                        assert(entries@.skip(i as int).first() == entries@[i as int]);
                        assert(entries@.skip(i as int).drop_first() =~= entries@.skip(
                            i as int + 1,
                        ));
                    }
                    match &entries[i].key {
                        ConfigKey::Text(s) => {
                            if *s == wanted {
                                return Some(&entries[i].value);
                            }
                        },
                        ConfigKey::Other => {},
                    }
                    i += 1;
                }
                proof {
                    assert(entries@.skip(n as int) =~= Seq::<ConfigEntry>::empty());
                }
                None
            },
            _ => None,
        }
    }
}

/// `b` when there is no prefix, else the prefix, a dot, and `b`.
pub fn maybe_concat_with_dot(a: &Option<String>, b: &str) -> (r: String)
    ensures
        r@ == dotted_name(opt_view(*a), b@),
{
    match a {
        None => b.to_owned(),
        Some(a) => concat_with_dot(a.as_str(), b),
    }
}

/// `a`, a dot, then `b`.
pub fn concat_with_dot(a: &str, b: &str) -> (r: String)
    ensures
        r@ == dotted(a@, b@),
{
    let mut name = a.to_owned();
    name.append(".");
    name.append(b);
    name
}

/// Read the required text field `key` of a mapping node, reporting a
/// missing field by its dotted path under `prefix`.
pub fn read_string_p(yaml: &ConfigValue, key: &str, prefix: &Option<String>) -> (r: Result<
    String,
    ConfigError,
>)
    ensures
        r matches Ok(s) ==> str_at(*yaml, key@) == Some(s@),
        str_at(*yaml, key@) is Some ==> r is Ok,
        r is Err ==> str_at(*yaml, key@) is None,
        r matches Err(e) ==> (e matches ConfigError::Missing(m)
            && m@ == dotted_name(opt_view(*prefix), key@)),
{
    match yaml.get(key) {
        Some(ConfigValue::Text(s)) => Ok(s.clone()),
        _ => Err(ConfigError::Missing(maybe_concat_with_dot(prefix, key))),
    }
}

/// Read the required top-level text field `key`.
pub fn read_string(yaml: &ConfigValue, key: &str) -> (r: Result<String, ConfigError>)
    ensures
        r matches Ok(s) ==> str_at(*yaml, key@) == Some(s@),
        str_at(*yaml, key@) is Some ==> r is Ok,
        r is Err ==> str_at(*yaml, key@) is None,
        r matches Err(e) ==> (e matches ConfigError::Missing(m) && m@ == key@),
{
    read_string_p(yaml, key, &None)
}

/// What is wrong with the entries of a `commands` mapping, if anything:
/// the first entry with a non-textual key, or else the first entry whose
/// value lacks a `command` field (named by its dotted path).
pub enum CommandsIssue {
    BadKey,
    MissingField(Seq<char>),
}

/// The first issue among the entries, in document order.
pub open spec fn entries_issue(entries: Seq<ConfigEntry>) -> Option<CommandsIssue>
    decreases entries.len(),
{
    if entries.len() == 0 {
        None
    } else {
        match entries.first().key {
            ConfigKey::Other => Some(CommandsIssue::BadKey),
            ConfigKey::Text(k) => if str_at(entries.first().value, "command"@) is None {
                Some(
                    CommandsIssue::MissingField(dotted(dotted("commands"@, k@), "command"@)),
                )
            } else {
                entries_issue(entries.drop_first())
            },
        }
    }
}

/// The catalog the entries describe, accumulated in document order over
/// `acc`; an entry that would raise an issue contributes nothing.
pub open spec fn entries_fold(
    entries: Seq<ConfigEntry>,
    acc: Map<Seq<char>, (Seq<char>, Option<Seq<char>>)>,
) -> Map<Seq<char>, (Seq<char>, Option<Seq<char>>)>
    decreases entries.len(),
{
    if entries.len() == 0 {
        acc
    } else {
        match entries.first().key {
            ConfigKey::Other => entries_fold(entries.drop_first(), acc),
            ConfigKey::Text(k) => match str_at(entries.first().value, "command"@) {
                Some(c) => entries_fold(
                    entries.drop_first(),
                    acc.insert(k@, (c, str_at(entries.first().value, "expected"@))),
                ),
                None => entries_fold(entries.drop_first(), acc),
            },
        }
    }
}

/// Assemble the command catalog from the `commands` node: each entry pairs
/// a textual key with a mapping holding a required `command` text and an
/// optional `expected` text.
#[verifier::loop_isolation(false)]
pub fn read_commands(yaml: &ConfigValue) -> (r: Result<CommandMap, ConfigError>)
    ensures
        (match yaml {
            ConfigValue::Mapping(entries) => {
                &&& entries_issue(entries@) == Some(CommandsIssue::BadKey) ==> (
                r matches Err(ConfigError::YamlContents(m)) && m@
                    == "Command keys must be strings"@)
                &&& entries_issue(entries@) matches Some(CommandsIssue::MissingField(p)) ==> (
                r matches Err(ConfigError::Missing(m)) && m@ == p)
                &&& entries_issue(entries@) is None ==> (r matches Ok(map) && map@
                    == entries_fold(
                    entries@,
                    Map::<Seq<char>, (Seq<char>, Option<Seq<char>>)>::empty(),
                ))
            },
            _ => r matches Err(ConfigError::YamlContents(m)) && m@ == "Invalid commands map"@,
        }),
{
    match yaml {
        ConfigValue::Mapping(entries) => {
            let ghost all = entries@;
            let mut map = CommandMap::new();
            proof {
                assert(all.skip(0) =~= all);
            }
            let n = entries.len();
            let mut i: usize = 0;
            while i < n
                invariant
                    n == entries.len(),
                    all == entries@,
                    0 <= i <= n,
                    entries_issue(all.skip(i as int)) == entries_issue(all),
                    entries_fold(all.skip(i as int), map@) == entries_fold(
                        all,
                        Map::<Seq<char>, (Seq<char>, Option<Seq<char>>)>::empty(),
                    ),
                decreases n - i,
            {
                proof {
                    assert(all.skip(i as int).first() == all[i as int]);
                    assert(all.skip(i as int).drop_first() =~= all.skip(i as int + 1));
                }
                match &entries[i].key {
                    ConfigKey::Other => {
                        proof {
                            assert(entries_issue(all.skip(i as int)) == Some(
                                CommandsIssue::BadKey,
                            ));
                        }
                        return Err(
                            ConfigError::YamlContents("Command keys must be strings".to_owned()),
                        );
                    },
                    ConfigKey::Text(key) => {
                        let prefix = Some(concat_with_dot("commands", key.as_str()));
                        let command = match read_string_p(&entries[i].value, "command", &prefix) {
                            Ok(c) => c,
                            Err(e) => {
                                proof {
                                    assert(entries_issue(all.skip(i as int)) == Some(
                                        CommandsIssue::MissingField(
                                            dotted(dotted("commands"@, key@), "command"@),
                                        ),
                                    ));
                                }
                                return Err(e);
                            },
                        };
                        let expected = match read_string_p(&entries[i].value, "expected", &prefix) {
                            Ok(s) => Some(s),
                            Err(_) => None,
                        };
                        map.insert(key.clone(), CommandData { command, expected });
                    },
                }
                i += 1;
            }
            proof {
                assert(all.skip(n as int) =~= Seq::<ConfigEntry>::empty());
            }
            Ok(map)
        },
        _ => Err(ConfigError::YamlContents("Invalid commands map".to_owned())),
    }
}

/// The `commands` node of a document, an absent one reading as a node of
/// no useful shape.
pub open spec fn commands_node(doc: ConfigValue) -> ConfigValue {
    match value_at(doc, "commands"@) {
        Some(v) => v,
        None => ConfigValue::Other,
    }
}

/// The loaded configuration: the identity used to reach the remote host,
/// the link the local opener serves, and the command catalog.
#[derive(Debug)]
pub struct Config {
    pub username: String,
    pub key: String,
    pub host: String,
    pub link: String,
    pub commands: CommandMap,
}

impl Config {
    /// Read a whole configuration out of a document: the four required
    /// text fields, then the command catalog.
    pub fn from_document(doc: &ConfigValue) -> (r: Result<Config, ConfigError>)
        ensures
            r matches Ok(c) ==> (str_at(*doc, "username"@) == Some(c.username@) && str_at(
                *doc,
                "host"@,
            ) == Some(c.host@) && str_at(*doc, "key"@) == Some(c.key@) && str_at(*doc, "link"@)
                == Some(c.link@)),
            r matches Ok(c) ==> (commands_node(*doc) matches ConfigValue::Mapping(entries)
                && entries_issue(entries@) is None && c.commands@ == entries_fold(
                entries@,
                Map::<Seq<char>, (Seq<char>, Option<Seq<char>>)>::empty(),
            )),
            str_at(*doc, "username"@) is None ==> (r matches Err(ConfigError::Missing(m)) && m@
                == "username"@),
            str_at(*doc, "username"@) is Some && str_at(*doc, "host"@) is None ==> (r matches Err(
                ConfigError::Missing(m),
            ) && m@ == "host"@),
            str_at(*doc, "username"@) is Some && str_at(*doc, "host"@) is Some && str_at(
                *doc,
                "key"@,
            ) is None ==> (r matches Err(ConfigError::Missing(m)) && m@ == "key"@),
            str_at(*doc, "username"@) is Some && str_at(*doc, "host"@) is Some && str_at(
                *doc,
                "key"@,
            ) is Some && str_at(*doc, "link"@) is None ==> (r matches Err(ConfigError::Missing(m))
                && m@ == "link"@),
            str_at(*doc, "username"@) is Some && str_at(*doc, "host"@) is Some && str_at(
                *doc,
                "key"@,
            ) is Some && str_at(*doc, "link"@) is Some ==> (match commands_node(*doc) {
                ConfigValue::Mapping(entries) => {
                    &&& (entries_issue(entries@) is None <==> r is Ok)
                    &&& entries_issue(entries@) == Some(CommandsIssue::BadKey) ==> (
                    r matches Err(ConfigError::YamlContents(m)) && m@
                        == "Command keys must be strings"@)
                    &&& entries_issue(entries@) matches Some(CommandsIssue::MissingField(p))
                        ==> (r matches Err(ConfigError::Missing(m)) && m@ == p)
                },
                _ => r matches Err(ConfigError::YamlContents(m)) && m@ == "Invalid commands map"@,
            }),
    {
        let username = match read_string(doc, "username") {
            Ok(s) => s,
            Err(e) => {
                return Err(e);
            },
        };
        let host = match read_string(doc, "host") {
            Ok(s) => s,
            Err(e) => {
                return Err(e);
            },
        };
        let key = match read_string(doc, "key") {
            Ok(s) => s,
            Err(e) => {
                return Err(e);
            },
        };
        let link = match read_string(doc, "link") {
            Ok(s) => s,
            Err(e) => {
                return Err(e);
            },
        };
        let fallback = ConfigValue::Other;
        let commands_value = match doc.get("commands") {
            Some(v) => v,
            None => &fallback,
        };
        let commands = match read_commands(commands_value) {
            Ok(m) => m,
            Err(e) => {
                return Err(e);
            },
        };
        Ok(Config { username, key, host, link, commands })
    }
}

} // verus!

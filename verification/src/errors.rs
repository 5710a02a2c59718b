//! The error taxonomy: every failure is reported as its most specific kind,
//! and no kind is ever conflated with another.

use vstd::prelude::*;

verus! {

/// Failures raised while reading the configuration document.
#[derive(Debug)]
pub enum ConfigError {
    /// A required field is absent; the payload is the dotted path of the field.
    Missing(String),
    /// The document does not have the expected shape; the payload describes how.
    YamlContents(String),
}

/// Failures of session establishment and remote command execution.
#[derive(Clone, Copy, Debug, PartialEq, Eq, Structural)]
pub enum ClientError {
    /// The remote host could not be reached at the network layer.
    Connection,
    /// The transport-level cryptographic handshake failed.
    Handshake,
    /// The private-key material is unreadable or malformed.
    KeyDecode,
    /// The server rejected the offered key during the authentication exchange.
    AuthRejected,
    /// The handshake completed but the session never reached an
    /// authenticated state.
    NotAuthenticated,
    /// A requested name has no descriptor in the catalog.
    CommandNotFound,
    /// Opening or operating the per-command execution channel failed.
    Channel,
    /// The remote output bytes are not valid text.
    Decode,
}

/// Failures surfaced by the top-level dispatch of a batch of command names.
#[derive(Debug)]
pub enum TopLevelError {
    ConfigError(ConfigError),
    ClientError(ClientError),
    OpenError,
    /// The names in the batch that no registered runner recognizes.
    UnsupportedCommands(Vec<String>),
}

impl From<ConfigError> for TopLevelError {
    fn from(error: ConfigError) -> (r: TopLevelError) {
        TopLevelError::ConfigError(error)
    }
}

impl vstd::std_specs::convert::FromSpecImpl<ConfigError> for TopLevelError {
    open spec fn obeys_from_spec() -> bool {
        true
    }

    open spec fn from_spec(error: ConfigError) -> TopLevelError {
        TopLevelError::ConfigError(error)
    }
}

impl From<ClientError> for TopLevelError {
    fn from(error: ClientError) -> (r: TopLevelError) {
        TopLevelError::ClientError(error)
    }
}

impl vstd::std_specs::convert::FromSpecImpl<ClientError> for TopLevelError {
    open spec fn obeys_from_spec() -> bool {
        true
    }

    open spec fn from_spec(error: ClientError) -> TopLevelError {
        TopLevelError::ClientError(error)
    }
}

} // verus!

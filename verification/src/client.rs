//! The remote execution client: a command catalog behind an established,
//! authenticated session.
//!
//! Whether the client recognizes a name is a pure lookup against the
//! catalog, independent of any session state.  Running a name it does not
//! recognize fails as command-not-found — never with a transport failure,
//! whatever the transport reported.

use vstd::prelude::*;

use crate::channel::channel_outcome;
use crate::channel::run_events;
use crate::channel::ChannelEvent;
use crate::channel::ExecutionResult;
use crate::config::Config;
use crate::errors::ClientError;
use crate::runner::Runner;
use crate::session::establish;
use crate::session::session_outcome;
use crate::session::SessionEvent;

verus! {

/// A remote execution client.  Constructing one establishes the session;
/// a client in hand stands for a session that reported itself
/// authenticated.
#[derive(Debug)]
pub struct Client {
    config: Config,
}

impl Client {
    /// The catalog the client resolves names against.
    pub closed spec fn catalog(&self) -> Map<Seq<char>, (Seq<char>, Option<Seq<char>>)> {
        self.config.commands@
    }

    /// Establish the session the transport reported and, if it reached the
    /// authenticated state, wrap the configuration into a client.
    pub fn new(config: Config, transport: &Vec<SessionEvent>) -> (r: Result<Client, ClientError>)
        ensures
            session_outcome(transport@) is Ok ==> (r matches Ok(c) && c.catalog()
                == config.commands@),
            session_outcome(transport@) matches Err(e) ==> (r matches Err(e2) && e2 == e),
    {
        match establish(transport) {
            Ok(()) => Ok(Client { config }),
            Err(e) => Err(e),
        }
    }

    /// The remote shell text a name resolves to, for the transport to
    /// request on a fresh channel; command-not-found for an absent name.
    pub fn command_text(&self, cmd: &String) -> (r: Result<String, ClientError>)
        ensures
            self.catalog().dom().contains(cmd@) ==> (r matches Ok(s) && s@
                == self.catalog().index(cmd@).0),
            !self.catalog().dom().contains(cmd@) ==> (r matches Err(e) && e
                == ClientError::CommandNotFound),
    {
        match self.config.commands.get(cmd) {
            Some(data) => Ok(data.command.clone()),
            None => Err(ClientError::CommandNotFound),
        }
    }

    /// Run one catalog command over the channel whose reports the
    /// transport collected.  An absent name fails as command-not-found
    /// whatever the transport reported; a present name yields exactly what
    /// the channel transcript yields.
    pub fn run(&self, cmd: &String, transport: &Vec<ChannelEvent>) -> (r: Result<
        ExecutionResult,
        ClientError,
    >)
        ensures
            !self.catalog().dom().contains(cmd@) ==> (r matches Err(e) && e
                == ClientError::CommandNotFound),
            self.catalog().dom().contains(cmd@) ==> (channel_outcome(transport@) matches Ok(p)
                ==> (r matches Ok(res) && res.output@ == p.0 && res.status as int == p.1)),
            self.catalog().dom().contains(cmd@) ==> (channel_outcome(transport@) matches Err(e)
                ==> (r matches Err(e2) && e2 == e)),
    {
        match self.config.commands.get(cmd) {
            Some(_) => run_events(transport),
            None => Err(ClientError::CommandNotFound),
        }
    }
}

impl Runner for Client {
    /// The names the client recognizes: exactly the catalog's, whatever
    /// state the session is in.
    open spec fn supports(&self, name: Seq<char>) -> bool {
        self.catalog().dom().contains(name)
    }

    /// A pure lookup against the catalog, callable any number of times.
    fn has_command(&self, cmd: &String) -> (r: bool) {
        self.config.commands.contains_key(cmd)
    }
}

} // verus!

//! The actions a client performs, and the commands each one sends.
use crate::client::config::ActionView;
use crate::client::watch_action::WatchCommandData;
use crate::common::communication::{status_view, CommunicationError, StatusView};
use crate::common::server_command::{strings_view, CommandView, ServerCommand};
use crate::server::client_state::name_view;
use vstd::prelude::*;

verus! {

/// What a client was asked to do.
#[derive(PartialEq, Eq, Debug, Clone)]
pub enum Action {
    ReadMessages(bool),
    WatchCommand(WatchCommandData),
    RefreshClientByName(String),
    RefreshAllClients,
    ListClients,
    Abort,
    Help,
    Version,
}

impl Action {
    /// Whether the client connects again after the server went away: only a
    /// watcher does.
    pub fn should_reconnect(&self) -> (r: bool)
        ensures
            r == (*self is WatchCommand),
    {
        matches!(self, Action::WatchCommand(_))
    }
}

/// The request an action sends once connected; a watch sends statuses later,
/// help and version send nothing.
pub open spec fn action_request(a: ActionView) -> Option<CommandView> {
    match a {
        ActionView::ReadMessages(b) => Some(CommandView::GetStatuses(b)),
        ActionView::RefreshClientByName(n) => Some(CommandView::RefreshClientByName(n)),
        ActionView::RefreshAllClients => Some(CommandView::RefreshAllClients),
        ActionView::ListClients => Some(CommandView::ListClients),
        ActionView::Abort => Some(CommandView::Abort),
        _ => None,
    }
}

/// Everything a client sends right after connecting: its name, if it has
/// one, then the action's request.
pub open spec fn initial_commands(a: ActionView, name: Option<Seq<char>>) -> Seq<CommandView> {
    let named = match name {
        Some(n) => seq![CommandView::SetName(n)],
        None => Seq::empty(),
    };
    match action_request(a) {
        Some(c) => named.push(c),
        None => named,
    }
}

pub open spec fn commands_view(v: Seq<ServerCommand>) -> Seq<CommandView> {
    v.map_values(|c: ServerCommand| c@)
}

/// The command a watcher sends for a status.
pub open spec fn status_command(status: StatusView) -> CommandView {
    match status {
        Ok(()) => CommandView::SetStatusOk,
        Err(m) => CommandView::SetStatusError(m),
    }
}

/// Whether a client that has failed `attempts_made` connection attempts in a
/// row gives up; a limit of 0 means it never does.
pub open spec fn attempts_exhausted(attempts_made: u32, max_attempts: u32) -> bool {
    max_attempts > 0 && attempts_made >= max_attempts
}

/// A client with no limit on connection attempts never gives up: after any
/// number of failed attempts it waits and tries again.
pub proof fn lemma_unlimited_attempts_never_exhausted(attempts_made: u32)
    ensures
        !attempts_exhausted(attempts_made, 0),
{
}

/// Whether a client gives up connecting after `attempts_made` failed attempts
/// in a row.
pub fn connection_attempts_exhausted(attempts_made: u32, max_attempts: u32) -> (r: bool)
    ensures
        r == attempts_exhausted(attempts_made, max_attempts),
{
    max_attempts > 0 && attempts_made >= max_attempts
}

impl Action {
    /// The commands to send right after connecting, in order.
    pub fn initial_commands(&self, client_name: &Option<String>) -> (r: Vec<ServerCommand>)
        ensures
            commands_view(r@) == initial_commands(self@, name_view(*client_name)),
    {
        let mut r: Vec<ServerCommand> = Vec::new();
        match client_name {
            Some(name) => r.push(ServerCommand::SetName(name.clone())),
            None => {},
        }
        let ghost named = commands_view(r@);
        let request = match self {
            Action::ReadMessages(include_names) => Some(ServerCommand::GetStatuses(*include_names)),
            Action::RefreshClientByName(name) => Some(ServerCommand::RefreshClientByName(name.clone())),
            Action::RefreshAllClients => Some(ServerCommand::RefreshAllClients),
            Action::ListClients => Some(ServerCommand::ListClients),
            Action::Abort => Some(ServerCommand::Abort),
            _ => None,
        };
        match request {
            Some(c) => {
                proof {
                    r@.lemma_push_map_commute(|c: ServerCommand| c@, c);
                }
                r.push(c);
            },
            None => {},
        }
        assert(commands_view(r@) =~= initial_commands(self@, name_view(*client_name)));
        r
    }

    /// What a querier prints from the server's answer: the statuses for a
    /// read, the names for a list. Any other answer is a protocol error.
    pub fn response_lines(&self, response: ServerCommand) -> (r: Result<Vec<String>, CommunicationError>)
        ensures
            match (self@, response@) {
                (ActionView::ReadMessages(_), CommandView::Statuses(v)) => r matches Ok(lines)
                    && strings_view(lines@) == v,
                (ActionView::ListClients, CommandView::Clients(v)) => r matches Ok(lines)
                    && strings_view(lines@) == v,
                _ => r == Err::<Vec<String>, _>(CommunicationError::UnexpectedCommand),
            },
    {
        match (self, response) {
            (Action::ReadMessages(_), ServerCommand::Statuses(v)) => Ok(v),
            (Action::ListClients, ServerCommand::Clients(v)) => Ok(v),
            _ => Err(CommunicationError::UnexpectedCommand),
        }
    }

    /// The command a watcher sends for the status it found.
    pub fn status_command(status: Result<(), String>) -> (r: ServerCommand)
        ensures
            r@ == status_command(status_view(status)),
    {
        match status {
            Ok(()) => ServerCommand::SetStatusOk,
            Err(m) => ServerCommand::SetStatusError(m),
        }
    }

    /// A watcher only ever receives `Refresh`; anything else is a protocol error.
    pub fn check_watch_command(command: &ServerCommand) -> (r: Result<(), CommunicationError>)
        ensures
            (command@ is Refresh) ==> r is Ok,
            !(command@ is Refresh) ==> r == Err::<(), _>(CommunicationError::UnexpectedCommand),
    {
        match command {
            ServerCommand::Refresh => Ok(()),
            _ => Err(CommunicationError::UnexpectedCommand),
        }
    }
}

} // verus!

//! What the server keeps for one connected client, and how each command from
//! that client changes it.
use crate::common::communication::{status_view, CommunicationError, StatusView};
use crate::common::server_command::{CommandView, ServerCommand};
use std::collections::VecDeque;
use vstd::prelude::*;
use vstd::string::*;

verus! {

/// How many commands may wait to be written to one client.
pub const OUTBOUND_QUEUE_CAPACITY: usize = 2;

/// The per-connection state.
pub struct ClientState {
    log_every_status: bool,
    name: Option<String>,
    status: Result<(), String>,
    messages_to_send_queue: VecDeque<ServerCommand>,
}

/// The per-connection state as a mathematical value.
pub struct ClientStateView {
    pub log_every_status: bool,
    pub name: Option<Seq<char>>,
    pub status: StatusView,
    pub outbound: Seq<CommandView>,
}

/// What the connection handler has to do after a command from its client.
#[derive(Debug, PartialEq, Eq, Clone)]
pub enum ProcessCommandResult {
    /// Nothing beyond what the state already recorded.
    NoAction,
    /// Collect the error statuses of the other clients and send them back.
    GetStatuses(bool),
    /// Ask the client with this name to refresh.
    RefreshClientByName(String),
    /// Ask every other client to refresh.
    RefreshAllClients,
    /// Collect the names of all clients and send them back.
    ListClients,
    /// End the whole server.
    ShutdownServer,
}

pub open spec fn name_view(name: Option<String>) -> Option<Seq<char>> {
    match name {
        Some(n) => Some(n@),
        None => None,
    }
}

/// The name under which a client appears in logs and lists.
pub open spec fn name_for_logging(name: Option<Seq<char>>) -> Seq<char> {
    match name {
        Some(n) => n,
        None => "<Unknown>"@,
    }
}

impl View for ClientState {
    type V = ClientStateView;

    closed spec fn view(&self) -> ClientStateView {
        ClientStateView {
            log_every_status: self.log_every_status,
            name: name_view(self.name),
            status: status_view(self.status),
            outbound: self.messages_to_send_queue@.map_values(|c: ServerCommand| c@),
        }
    }
}

/// The state after a command from the client.
pub open spec fn after_command(s: ClientStateView, c: CommandView) -> ClientStateView {
    match c {
        CommandView::SetStatusOk => ClientStateView { status: Ok(()), ..s },
        CommandView::SetStatusError(m) => ClientStateView { status: Err(m), ..s },
        CommandView::SetName(n) => ClientStateView { name: Some(n), ..s },
        _ => s,
    }
}

/// The line the server logs on a command, if any. A status is logged when it
/// differs from the previous one, or always when every status is logged.
pub open spec fn log_for_command(s: ClientStateView, c: CommandView) -> Option<Seq<char>> {
    match c {
        CommandView::Abort => Some("Received abort command"@),
        CommandView::SetStatusOk => if s.log_every_status || s.status is Err {
            Some("Client "@ + name_for_logging(s.name) + " is ok"@)
        } else {
            None
        },
        CommandView::SetStatusError(m) => if s.log_every_status || s.status != Err::<(), Seq<char>>(m) {
            Some("Client "@ + name_for_logging(s.name) + " has error: "@ + m)
        } else {
            None
        },
        CommandView::SetName(n) => Some("Name set to "@ + n),
        _ => None,
    }
}

/// Whether the server never expects this command from a client.
pub open spec fn unexpected_from_client(c: CommandView) -> bool {
    c is Statuses || c is Refresh || c is Clients
}

/// Whether `r` is the handler's reaction to `c`.
pub open spec fn is_reaction(r: ProcessCommandResult, c: CommandView) -> bool {
    match c {
        CommandView::Abort => r is ShutdownServer,
        CommandView::GetStatuses(b) => r == ProcessCommandResult::GetStatuses(b),
        CommandView::RefreshClientByName(n) => match r {
            ProcessCommandResult::RefreshClientByName(m) => m@ == n,
            _ => false,
        },
        CommandView::RefreshAllClients => r is RefreshAllClients,
        CommandView::ListClients => r is ListClients,
        _ => r is NoAction,
    }
}

fn append_name_for_logging(m: &mut String, name: &Option<String>)
    ensures
        final(m)@ == old(m)@ + name_for_logging(name_view(*name)),
{
    match name {
        Some(n) => m.append(n.as_str()),
        None => m.append("<Unknown>"),
    }
}

impl ClientState {
    /// At most `OUTBOUND_QUEUE_CAPACITY` commands wait to be written.
    pub open spec fn wf(&self) -> bool {
        self@.outbound.len() <= OUTBOUND_QUEUE_CAPACITY
    }

    /// A client that has just connected: no name, status `Ok`, nothing to send.
    pub fn new(log_every_status: bool) -> (r: Self)
        ensures
            r@.log_every_status == log_every_status,
            r@.name is None,
            r@.status is Ok,
            r@.outbound.len() == 0,
            r.wf(),
    {
        ClientState {
            log_every_status,
            name: None,
            status: Ok(()),
            messages_to_send_queue: VecDeque::new(),
        }
    }

    pub fn get_status(&self) -> (r: &Result<(), String>)
        ensures
            status_view(*r) == self@.status,
    {
        &self.status
    }

    pub fn get_name(&self) -> (r: &Option<String>)
        ensures
            name_view(*r) == self@.name,
    {
        &self.name
    }

    /// The name, or `<Unknown>` when the client has not set one.
    pub fn get_name_for_logging(&self) -> (r: String)
        ensures
            r@ == name_for_logging(self@.name),
    {
        let mut r = String::new();
        append_name_for_logging(&mut r, &self.name);
        r
    }

    /// Whether the outbound queue is full.
    pub fn is_send_queue_full(&self) -> (r: bool)
        ensures
            r == (self@.outbound.len() >= OUTBOUND_QUEUE_CAPACITY),
    {
        self.messages_to_send_queue.len() >= OUTBOUND_QUEUE_CAPACITY
    }

    /// Queues a command for the client. A full queue takes nothing and hands
    /// the command back: the handler first writes out what waits.
    pub fn push_command_to_send(&mut self, command: ServerCommand) -> (r: Result<(), ServerCommand>)
        ensures
            old(self)@.outbound.len() < OUTBOUND_QUEUE_CAPACITY ==> r is Ok && final(self)@
                == (ClientStateView { outbound: old(self)@.outbound.push(command@), ..old(self)@ }),
            old(self)@.outbound.len() >= OUTBOUND_QUEUE_CAPACITY ==> r == Err::<(), _>(command)
                && final(self)@ == old(self)@,
            old(self).wf() ==> final(self).wf(),
    {
        if self.messages_to_send_queue.len() >= OUTBOUND_QUEUE_CAPACITY {
            return Err(command);
        }
        let ghost q = self.messages_to_send_queue@;
        self.messages_to_send_queue.push_back(command);
        proof {
            q.lemma_push_map_commute(|c: ServerCommand| c@, command);
        }
        Ok(())
    }

    /// Takes the oldest command waiting to be written, if any.
    pub fn get_command_to_send(&mut self) -> (r: Option<ServerCommand>)
        ensures
            old(self)@.outbound.len() == 0 ==> r is None && final(self)@ == old(self)@,
            old(self)@.outbound.len() > 0 ==> r is Some && r->0@ == old(self)@.outbound[0]
                && final(self)@ == (ClientStateView {
                outbound: old(self)@.outbound.drop_first(),
                ..old(self)@
            }),
    {
        let ghost q = self.messages_to_send_queue@;
        let r = self.messages_to_send_queue.pop_front();
        proof {
            if q.len() > 0 {
                assert(self.messages_to_send_queue@.map_values(|c: ServerCommand| c@) =~= q.map_values(
                    |c: ServerCommand| c@,
                ).drop_first());
            }
        }
        r
    }

    /// Applies a command from the client. Gives what the handler has to do
    /// next and the line to log, if any. A command that only the server sends
    /// is a protocol error.
    pub fn process_command(&mut self, command: ServerCommand) -> (r: Result<
        (ProcessCommandResult, Option<String>),
        CommunicationError,
    >)
        ensures
            unexpected_from_client(command@) ==> r == Err::<(ProcessCommandResult, Option<String>), _>(
                CommunicationError::UnexpectedCommand,
            ) && final(self)@ == old(self)@,
            !unexpected_from_client(command@) ==> (r matches Ok((res, log)) && is_reaction(
                res,
                command@,
            ) && name_view(log) == log_for_command(old(self)@, command@) && final(self)@
                == after_command(old(self)@, command@)),
    {
        match command {
            ServerCommand::Abort => Ok(
                (ProcessCommandResult::ShutdownServer, Some("Received abort command".to_owned())),
            ),
            ServerCommand::SetStatusOk => {
                let log = if self.log_every_status || self.status.is_err() {
                    let mut m = "Client ".to_owned();
                    append_name_for_logging(&mut m, &self.name);
                    m.append(" is ok");
                    Some(m)
                } else {
                    None
                };
                self.status = Ok(());
                Ok((ProcessCommandResult::NoAction, log))
            },
            ServerCommand::SetStatusError(new_err) => {
                let is_new_error = match &self.status {
                    Ok(_) => true,
                    Err(old_err) => !old_err.eq(&new_err),
                };
                let log = if self.log_every_status || is_new_error {
                    let mut m = "Client ".to_owned();
                    append_name_for_logging(&mut m, &self.name);
                    m.append(" has error: ");
                    m.append(new_err.as_str());
                    Some(m)
                } else {
                    None
                };
                self.status = Err(new_err);
                Ok((ProcessCommandResult::NoAction, log))
            },
            ServerCommand::GetStatuses(include_names) => Ok(
                (ProcessCommandResult::GetStatuses(include_names), None),
            ),
            ServerCommand::RefreshClientByName(name) => Ok(
                (ProcessCommandResult::RefreshClientByName(name), None),
            ),
            ServerCommand::RefreshAllClients => Ok((ProcessCommandResult::RefreshAllClients, None)),
            ServerCommand::ListClients => Ok((ProcessCommandResult::ListClients, None)),
            ServerCommand::SetName(name) => {
                let mut m = "Name set to ".to_owned();
                m.append(name.as_str());
                self.name = Some(name);
                Ok((ProcessCommandResult::NoAction, Some(m)))
            },
            ServerCommand::Statuses(_) => Err(CommunicationError::UnexpectedCommand),
            ServerCommand::Refresh => Err(CommunicationError::UnexpectedCommand),
            ServerCommand::Clients(_) => Err(CommunicationError::UnexpectedCommand),
        }
    }
}

/// The state after the same command arrived `n` times in a row.
pub open spec fn after_repeated(s: ClientStateView, c: CommandView, n: nat) -> ClientStateView
    decreases n,
{
    if n == 0 {
        s
    } else {
        after_command(after_repeated(s, c, (n - 1) as nat), c)
    }
}

/// How many lines the server logs while the same command arrives `n` times in a row.
pub open spec fn lines_logged(s: ClientStateView, c: CommandView, n: nat) -> nat
    decreases n,
{
    if n == 0 {
        0
    } else {
        lines_logged(s, c, (n - 1) as nat) + if log_for_command(
            after_repeated(s, c, (n - 1) as nat),
            c,
        ) is Some {
            1nat
        } else {
            0nat
        }
    }
}

proof fn lemma_after_repeated_status(s: ClientStateView, c: CommandView, n: nat)
    requires
        c is SetStatusOk || c is SetStatusError,
    ensures
        after_repeated(s, c, n).log_every_status == s.log_every_status,
        n > 0 ==> after_repeated(s, c, n).status == after_command(s, c).status,
    decreases n,
{
    if n > 0 {
        lemma_after_repeated_status(s, c, (n - 1) as nat);
    }
}

/// A run of identical status commands from one client: when only changes are
/// logged, the whole run logs at most one line; when every status is logged,
/// it logs one line per command.
pub proof fn lemma_repeated_status_logging(s: ClientStateView, c: CommandView, n: nat)
    requires
        c is SetStatusOk || c is SetStatusError,
    ensures
        !s.log_every_status ==> lines_logged(s, c, n) <= 1,
        s.log_every_status ==> lines_logged(s, c, n) == n,
    decreases n,
{
    if n > 0 {
        lemma_repeated_status_logging(s, c, (n - 1) as nat);
        lemma_after_repeated_status(s, c, (n - 1) as nat);
        if n > 1 && !s.log_every_status {
            assert(log_for_command(after_repeated(s, c, (n - 1) as nat), c) is None);
            lemma_repeated_status_logging_first(s, c, (n - 1) as nat);
        }
    }
}

proof fn lemma_repeated_status_logging_first(s: ClientStateView, c: CommandView, n: nat)
    requires
        c is SetStatusOk || c is SetStatusError,
        !s.log_every_status,
        n >= 1,
    ensures
        lines_logged(s, c, n) <= 1,
    decreases n,
{
    if n > 1 {
        lemma_after_repeated_status(s, c, (n - 1) as nat);
        lemma_repeated_status_logging_first(s, c, (n - 1) as nat);
        assert(lines_logged(s, c, (n - 1) as nat) <= 1);
        assert(log_for_command(after_repeated(s, c, (n - 1) as nat), c) is None);
    } else {
        assert(lines_logged(s, c, 0) == 0);
    }
}

} // verus!

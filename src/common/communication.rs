//! Failures of a connection, as the handlers and the client see them.
use crate::common::server_command::{parse, CommandView, ServerCommand, ServerCommandError, ServerCommandParse};
use vstd::prelude::*;

verus! {

/// A status as a mathematical value: `Ok`, or an error message.
pub type StatusView = Result<(), Seq<char>>;

pub open spec fn status_view(r: Result<(), String>) -> StatusView {
    match r {
        Ok(()) => Ok(()),
        Err(m) => Err(m@),
    }
}

/// Why talking to the other end of a connection stopped.
#[derive(Debug, PartialEq, Eq, Clone)]
pub enum CommunicationError {
    /// The transport failed; the text says how.
    IoError(String),
    /// The bytes received are not a command.
    CommandParseError(ServerCommandError),
    /// A command arrived that this end never expects.
    UnexpectedCommand,
    /// The other end went away.
    SocketDisconnected,
}

impl CommunicationError {
    /// The error for bytes that are not a command.
    pub fn from_parse_error(err: ServerCommandError) -> (r: CommunicationError)
        ensures
            r == CommunicationError::CommandParseError(err),
    {
        CommunicationError::CommandParseError(err)
    }

    /// Whether the error only means that the other end went away: a watcher
    /// reconnects, a server handler ends quietly. Every other error is fatal.
    pub fn is_recoverable(&self) -> (r: bool)
        ensures
            r == (*self is SocketDisconnected),
    {
        matches!(self, CommunicationError::SocketDisconnected)
    }
}

/// Tries to take a command from the bytes received so far. `Ok(None)` means
/// the buffer holds only the start of a command: read more and try again.
pub fn decode_received(buffer: &[u8]) -> (r: Result<Option<ServerCommandParse>, CommunicationError>)
    ensures
        match r {
            Ok(Some(p)) => parse(buffer@) == Ok::<_, ServerCommandError>(
                (p.command@, p.bytes_used as int),
            ),
            Ok(None) => parse(buffer@) == Err::<(CommandView, int), _>(
                ServerCommandError::TooFewBytes,
            ),
            Err(e) => exists|pe: ServerCommandError|
                pe != ServerCommandError::TooFewBytes && parse(buffer@) == Err::<(CommandView, int), _>(pe)
                    && e == CommunicationError::CommandParseError(pe),
        },
{
    match ServerCommand::from_bytes(buffer) {
        Ok(p) => Ok(Some(p)),
        Err(ServerCommandError::TooFewBytes) => Ok(None),
        Err(e) => Err(CommunicationError::from_parse_error(e)),
    }
}

} // verus!

//! Items shared by the client and the server.
pub mod server_command;
pub mod text;
pub mod arg_parsing;
pub mod communication;
pub mod constants;
pub mod help_format;

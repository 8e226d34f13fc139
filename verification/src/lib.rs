//! Core logic of a small UDP peer network: the command vocabulary that peers
//! exchange, the user records that a server keeps, the tables that map user
//! ids to users, the decisions a server and a client take on each event, and
//! the text formats (console lines, timeout targets, decimal numbers) that the
//! programs read.
pub mod error;
pub mod text;
pub mod numeral;
pub mod command;
pub mod user;
pub mod header;
pub mod table;
pub mod server;
pub mod client;
pub mod endpoint;
pub mod console;
pub mod socket;

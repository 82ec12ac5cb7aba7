//! The core of a supervisor that runs a game server's launcher script and
//! puts its console on the web.
//!
//! The library holds what the supervisor decides and computes, and leaves
//! to its caller what touches the outside: the process, the sockets, the
//! threads and the files.
//!
//! - [`server`] parses the bytes of a connection into a request and writes
//!   the text of a response.
//! - [`control`] is the state machine of the control loop: from the mode,
//!   the sessions and a request to a reply, a command for the process and
//!   the next mode.
//! - [`reply`] turns a reply into a response, rendering pages from the
//!   caller's templates.
//! - [`session`] holds the tokens of the users who are logged in.
//! - [`io_handler`] keeps the most recent lines of the process's output.
//! - [`command_watcher`] decides what is written to the process's input.
//! - [`config`] holds the settings and checks a login against them.
//! - [`text`] and [`fields`] are what the others are built from: text
//!   algorithms over characters, and maps from names to values.

pub mod command_watcher;
pub mod config;
pub mod control;
pub mod fields;
pub mod io_handler;
pub mod reply;
pub mod server;
pub mod session;
pub mod text;

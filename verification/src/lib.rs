//! Control channel of a remote pointer daemon: the command language, the
//! per-client session state machine and the service lifecycle decisions.

pub mod command;
pub mod frame;
pub mod grammar;
pub mod language;
pub mod parser;
pub mod service;
pub mod session;
pub mod socket;

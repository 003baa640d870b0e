//! Finding the processes that listen on TCP ports, and deciding how to stop them.

pub mod args;
pub mod foreign;
pub mod kill;
pub mod lookup;
pub mod lsof;
pub mod netstat;
pub mod processes;
pub mod report;
pub mod text;

//! Decisions of a small local listener that hands received URLs to the
//! desktop's URL opener: reading the port setting, planning what to run for
//! a request, and settling what to answer once the opener has been tried.
//!
//! Nothing here touches the network or starts a process. The caller listens,
//! decodes, runs the planned command, and reports back how that went.

pub mod config;
pub mod opener;
pub mod port;

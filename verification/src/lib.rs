//! The decision core of a dual-stack echo host.
//!
//! The host looks up its own addresses, scans a port range for a port that is
//! free on IPv4 and IPv6 at once, binds one listener per family on that port
//! and echoes every byte it receives on an accepted connection.
//!
//! This crate holds everything such a host decides, as functions on plain
//! values with proved contracts. It opens no socket and spawns no task: the
//! program around it performs each bind, accept, read, write and lookup and
//! hands the outcome back.

pub mod acceptor;
pub mod address;
pub mod echo;
pub mod listener;
pub mod resolver;
pub mod scanner;

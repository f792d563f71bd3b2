//! Decision logic of a host-level process supervisor and port registry.
//!
//! A daemon built on this crate starts long-lived programs for the users of
//! a host, keeps them alive, stops them in stages, and hands out TCP ports
//! with durable ownership. The crate holds everything that such a daemon and
//! its client decide, and proves it:
//!
//! - [`frame`] lays frames out on the wire and refuses those that are too
//!   large;
//! - [`protocol`] names the requests and the responses;
//! - [`server`] says what each request does to the tables and what is
//!   answered, and who may stop a process or see its logs;
//! - [`state`] is the process table, with ids that are never used twice;
//! - [`process`] plans the start of a child and steps through its staged
//!   termination;
//! - [`ports`] is the port registry;
//! - [`client`], [`display`] and [`logs`] are the client's reading of a
//!   response and its way of showing it;
//! - [`time`] and [`text`] are the instants and the numerals underneath.
//!
//! Sockets, child processes, files and timers belong to the program built
//! around the crate: it performs what a step asks for and reports back what
//! happened.

pub mod client;
pub mod display;
pub mod frame;
pub mod logs;
pub mod ports;
pub mod process;
pub mod protocol;
pub mod server;
pub mod state;
pub mod text;
pub mod time;

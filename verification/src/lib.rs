//! Verified core of the nexa desktop proxy client: error codes, status payloads, IPv4 and
//! packet encoding, DNS hijacking, TUN block selection, IPC authentication and the decisions
//! behind service management and privilege elevation.
//!
//! Everything that talks to the operating system lives in the binary under `app/`; the
//! functions here take what it observed as plain values and say what to do next.
use vstd::prelude::*;

pub mod codes;
pub mod error;
pub mod text;
pub mod num;
pub mod ipv4;
pub mod packet;
pub mod tun;
pub mod status;
pub mod manager;
pub mod ipc;
pub mod runner;
pub mod host;
pub mod ipc_token;
pub mod elevate;
pub mod platform;
pub mod dns;
pub mod routing;
pub mod dns_config;
pub mod cli;
pub mod scm;
pub mod tun_run;
pub mod commands;

verus! {

} // verus!

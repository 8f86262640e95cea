//! The orchestration core of a multi-host monitoring and remote-command agent.
//!
//! - `data`, `error`: module specifications, data points, command results, hosts, errors.
//! - `host_manager`: the per-host state store: a ring of recent values per monitor, the
//!   latest result per command, platform info, and the status derived from critical monitors.
//! - `connection_manager`: the connector table (one connector per host and specification) and
//!   the serving of one request: command short-circuiting, downloads, uploads.
//! - `modules`: the contracts of monitoring and command modules, and how their message and
//!   response forms combine.
//! - `monitor_manager`, `command_handler`: the dispatchers: invocation ids, extension chains,
//!   completion of requests into state updates, and the integrated file and terminal flows.
//! - `configuration`: preferences, hosts and groups, and the merging of groups into hosts.
//! - `command_modules`, `docker_commands`, `monitoring_modules`: concrete modules.
//!
//! Threads, channels, files and processes stay outside: the library is driven by step
//! functions that take what the outside world returned.

use vstd::prelude::*;

pub mod command_handler;
pub mod command_modules;
pub mod compose_monitor;
pub mod configuration;
pub mod connection_manager;
pub mod data;
pub mod docker_commands;
pub mod error;
pub mod host_manager;
pub mod modules;
pub mod monitor_manager;
pub mod monitoring_modules;
pub mod nixos_generations;

verus! {

} // verus!

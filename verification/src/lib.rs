//! VoltGuard: power-management logic for Linux hosts, with its contracts proved by Verus.
//!
//! The crate holds the decisions of the daemon and its command-line client: the
//! component table and power profile of the power manager, the driver registry,
//! bounded power histories, the optimisation and policy rules, the IPC protocol
//! handshake and request routing, and the parsers for the kernel's text files.
//! I/O, async plumbing and floating-point arithmetic live around it.

pub mod api;
pub mod text;
pub mod hal;
pub mod table;
pub mod manager;
pub mod engine;
pub mod policy;
pub mod ipc;
pub mod config;

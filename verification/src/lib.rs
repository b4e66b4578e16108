//! Windows network stack tuning.
//!
//! The decisions of the program: what is read, archived, written and shown. A
//! tweak is a run that names one action on the machine at a time and goes on
//! with what came back, so nothing here touches Windows itself.

use vstd::prelude::*;

pub mod text;
pub mod order;
pub mod utf16;
pub mod paint;

pub mod ops;
pub mod config;
pub mod recovery;
pub mod registry;
pub mod revert;

pub mod interfaces;
pub mod netsh;
pub mod tcp;
pub mod system;
pub mod mtu;
pub mod power;
pub mod probe;
pub mod dns;

pub mod connections;
pub mod traffic;
pub mod wlan;
pub mod restore;
pub mod log;
pub mod win;
pub mod report;

pub mod cli;
pub mod app;
pub mod screen;

pub mod laws;

verus! {

/// The version of the program.
pub const VERSION: &'static str = "0.3.0";

} // verus!

//! What the program does, told by what goes in and what comes out.
//!
//! The modules say how each result is put together. The laws here say what it
//! must be good for: which values stand in the registry after a run, which
//! commands a job gives, what an exit code means. They name the values and the
//! texts themselves and speak of whole runs, not of the steps that make them.

pub mod tweaks;
pub mod links;
pub mod resolvers;
pub mod commands;
pub mod menu;
pub mod readings;
pub mod texts;
pub mod files;
pub mod display;
pub mod reverts;
pub mod journal;
pub mod failures;

//! Verified core of a multi-host terminal dashboard: configuration handling,
//! collector output parsing, disk-row cleanup and layout arithmetic.
pub mod text;
pub mod model;
pub mod collectors;
pub mod aliases;
pub mod config;
pub mod disks;
pub mod cli;
pub mod paths;
pub mod setup;
pub mod tui;
pub mod theme;
pub mod edits;
pub mod sshconfig;
pub mod naming;
pub mod manager;
pub mod keys;
pub mod health;
pub mod layout;
pub mod cardtext;
pub mod graph;
pub mod history;
pub mod listing;
pub mod fixtures;
pub mod hostview;
pub mod commands;
pub mod snapshot;

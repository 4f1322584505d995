//! Systemd units and their management.

pub mod journal_reader;
pub mod manager;
pub mod service;
pub mod systemd1_api;
pub mod systemdunit;

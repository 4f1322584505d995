//! Core logic of the Stackable agent: the systemd units that run the
//! containers of a pod, the packages and repositories they come from, the
//! command line configuration and the decisions of the pod state machine.

pub mod agent;
pub mod config;
pub mod fsext;
pub mod provider;
pub mod text;

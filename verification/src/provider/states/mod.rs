//! The states of the pod state machine.

pub mod pod;

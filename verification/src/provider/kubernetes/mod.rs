//! Kubernetes resources as the agent reads them.

pub mod accessor;
pub mod pod;

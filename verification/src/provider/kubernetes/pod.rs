//! The parts of a pod object that the agent reads.
use vstd::prelude::*;

verus! {

/// An environment variable of a container.
#[derive(Debug)]
pub struct EnvVar {
    pub name: String,
    pub value: Option<String>,
}

/// A volume mounted into a container.
#[derive(Debug)]
pub struct VolumeMount {
    pub name: String,
    pub mount_path: String,
}

/// A volume of a pod; config map volumes name their config map.
#[derive(Debug)]
pub struct Volume {
    pub name: String,
    pub config_map: Option<ConfigMapVolumeSource>,
}

/// The config map behind a volume.
#[derive(Debug)]
pub struct ConfigMapVolumeSource {
    pub name: Option<String>,
}

/// A container of a pod.
#[derive(Debug)]
pub struct Container {
    pub name: String,
    /// The image reference, e.g. `kafka:2.7`.
    pub image: Option<String>,
    pub command: Option<Vec<String>>,
    pub args: Option<Vec<String>>,
    pub env: Option<Vec<EnvVar>>,
    pub volume_mounts: Option<Vec<VolumeMount>>,
    /// `securityContext.windowsOptions.runAsUserName`
    pub run_as_user_name: Option<String>,
}

/// A pod as the agent reads it.
#[derive(Debug)]
pub struct Pod {
    pub name: String,
    pub namespace: String,
    /// `metadata.uid`
    pub uid: Option<String>,
    /// `spec.restartPolicy`
    pub restart_policy: Option<String>,
    /// `spec.securityContext.windowsOptions.runAsUserName`
    pub run_as_user_name: Option<String>,
    pub containers: Vec<Container>,
    pub volumes: Option<Vec<Volume>>,
    /// `metadata.deletionTimestamp` is set.
    pub terminating: bool,
    /// `status.phase`
    pub phase: Option<String>,
}

} // verus!

//! The provider: everything the agent does with the pods assigned to its
//! node.

pub mod cleanup;
pub mod error;
pub mod handles;
pub mod kubernetes;
pub mod repository;
pub mod states;
pub mod systemdmanager;

use vstd::prelude::*;
use crate::fsext::{join_path, path_join};
use crate::provider::error::{is_validation_error, validation_error, StackableError};
use crate::provider::kubernetes::pod::Pod;
use crate::provider::repository::package::{oci_reference, ImageReference, Package};
use crate::provider::states::pod::PodState;
use crate::config::AgentConfig;
use crate::text::{concat2, concat3, copy_str, opt_view, seq_starts_with};

verus! {

/// The directories the provider was configured with.
#[derive(Debug)]
pub struct StackableProvider {
    pub parcel_directory: String,
    pub config_directory: String,
    pub log_directory: String,
    pub pod_cidr: String,
}

/// The beginning of the message why no package could be derived from a
/// pod.
pub open spec fn package_error_prefix(pod: Pod) -> Seq<char> {
    "Unable to get package reference from pod ["@ + pod.name@ + "]: "@
}

/// `namespace-name`: the name of the service of a pod.
pub open spec fn service_name(pod: Pod) -> Seq<char> {
    pod.namespace@ + "-"@ + pod.name@
}

impl StackableProvider {
    /// The package that the only container of the pod names by its image:
    /// the repository of the image reference is the product and its tag
    /// the version.
    pub fn get_package(pod: &Pod) -> (r: Result<Package, StackableError>)
        ensures
            pod.containers@.len() != 1 ==> (r matches Err(e) && is_validation_error(
                e,
                "Only one container is supported in the PodSpec."@,
            )),
            pod.containers@.len() == 1 ==> match opt_view(pod.containers@[0].image) {
                None => r matches Err(e) && is_validation_error(
                    e,
                    package_error_prefix(*pod) + "Image is required."@,
                ),
                Some(image) => match oci_reference(image) {
                    None => r matches Err(e) && e is PodValidationError && seq_starts_with(
                        e->PodValidationError_msg@,
                        package_error_prefix(*pod),
                    ),
                    Some(parts) => match parts.2 {
                        None => r matches Err(e) && is_validation_error(
                            e,
                            package_error_prefix(*pod) + "Tag is required."@,
                        ),
                        Some(tag) => r matches Ok(p) && p.product@ == parts.1 && p.version@
                            == tag,
                    },
                },
            },
    {
        if pod.containers.len() != 1 {
            return Err(
                validation_error(
                    String::from_str("Only one container is supported in the PodSpec."),
                ),
            );
        }
        let prefix = concat3(
            "Unable to get package reference from pod [",
            pod.name.as_str(),
            "]: ",
        );
        let failure = match &pod.containers[0].image {
            None => String::from_str("Image is required."),
            Some(image) => match ImageReference::parse(image.as_str()) {
                Err(m) => m,
                Ok(reference) => match Package::try_from(reference) {
                    Ok(package) => return Ok(package),
                    Err(m) => m,
                },
            },
        };
        let msg = concat2(prefix.as_str(), failure.as_str());
        assert(seq_starts_with(msg@, prefix@)) by {
            assert(msg@.subrange(0, prefix@.len() as int) =~= prefix@);
        }
        Err(validation_error(msg))
    }

    /// The state of a new pod: the service is named `namespace-name`, the
    /// uid of the pod is required, packages are downloaded into
    /// `_download` in the parcel directory.
    pub fn initialize_pod_state(&self, pod: &Pod) -> (r: Result<PodState, StackableError>)
        ensures
            pod.uid is None ==> (r matches Err(e) && e is MissingObjectKey
                && e->MissingObjectKey_key@ == ".metadata.uid"@),
            r matches Ok(s) ==> {
                &&& pod.uid matches Some(uid) && s.service_uid@ == uid@
                &&& s.service_name@ == service_name(*pod)
                &&& s.parcel_directory@ == self.parcel_directory@
                &&& s.download_directory@ == path_join(self.parcel_directory@, "_download"@)
                &&& s.config_directory@ == self.config_directory@
                &&& s.log_directory@ == self.log_directory@
            },
            pod.uid is Some ==> (r is Ok <==> StackableProvider::package_ok(*pod)),
            pod.uid is Some && !StackableProvider::package_ok(*pod) ==> (r matches Err(e) && e is PodValidationError),
            r matches Ok(s) ==> StackableProvider::package_of(*pod) == Some(
                (s.package.product@, s.package.version@),
            ),
            r matches Ok(s) ==> self.state_fits(*pod, s),
    {
        let service_name = concat3(pod.namespace.as_str(), "-", pod.name.as_str());
        let service_uid = match &pod.uid {
            Some(uid) => uid.clone(),
            None => {
                return Err(
                    StackableError::MissingObjectKey { key: String::from_str(".metadata.uid") },
                );
            },
        };
        let package = match StackableProvider::get_package(pod) {
            Ok(p) => p,
            Err(e) => return Err(e),
        };
        Ok(
            PodState {
                parcel_directory: self.parcel_directory.clone(),
                download_directory: join_path(self.parcel_directory.as_str(), "_download"),
                config_directory: self.config_directory.clone(),
                log_directory: self.log_directory.clone(),
                service_name,
                service_uid,
                package,
            },
        )
    }

    /// A package can be derived from the pod.
    pub open spec fn package_ok(pod: Pod) -> bool {
        StackableProvider::package_of(pod) is Some
    }

    /// The product and version that the pod names, where it names one.
    pub open spec fn package_of(pod: Pod) -> Option<(Seq<char>, Seq<char>)> {
        if pod.containers@.len() != 1 {
            None
        } else {
            match opt_view(pod.containers@[0].image) {
                None => None,
                Some(image) => match oci_reference(image) {
                    None => None,
                    Some(parts) => match parts.2 {
                        None => None,
                        Some(tag) => Some((parts.1, tag)),
                    },
                },
            }
        }
    }
    /// `s` is the state that the provider gives the pod: see
    /// [`StackableProvider::initialize_pod_state`].
    pub open spec fn state_fits(&self, pod: Pod, s: PodState) -> bool {
        &&& pod.uid matches Some(uid) && s.service_uid@ == uid@
        &&& s.service_name@ == service_name(pod)
        &&& s.parcel_directory@ == self.parcel_directory@
        &&& s.download_directory@ == path_join(self.parcel_directory@, "_download"@)
        &&& s.config_directory@ == self.config_directory@
        &&& s.log_directory@ == self.log_directory@
        &&& StackableProvider::package_of(pod) == Some((s.package.product@, s.package.version@))
    }
}

/// The custom resource definitions that the agent needs.
pub const CRDS: [&'static str; 1] = ["repositories.stable.stackable.de"];

/// The architecture that the node reports.
pub const ARCH: &'static str = "stackable-linux";

/// The result of looking up a custom resource definition.
#[derive(Debug)]
pub enum CrdLookup {
    Found,
    NotFound,
    /// The API server could not be asked.
    Failed { msg: String },
}

/// The custom resource definitions found missing so far.
#[derive(Debug)]
pub struct CrdCheck {
    pub missing: Vec<String>,
}

impl CrdCheck {
    /// None missing yet.
    pub fn new() -> (r: CrdCheck)
        ensures
            r.missing@.len() == 0,
    {
        CrdCheck { missing: Vec::new() }
    }

    /// Records the lookup of the definition `name`: one that was not found
    /// is missing; a failure to ask the API server is returned and ends
    /// the lookup.
    pub fn record(&mut self, name: &str, lookup: CrdLookup) -> (r: Option<StackableError>)
        ensures
            match lookup {
                CrdLookup::Found => r is None && final(self).missing@ == old(self).missing@,
                CrdLookup::NotFound => r is None && views_of(final(self).missing@) == views_of(old(self).missing@).push(name@),
                CrdLookup::Failed { msg } => (r matches Some(StackableError::RuntimeError { msg: m }) && m@ == msg@)
                    && final(self).missing@ == old(self).missing@,
            },
    {
        match lookup {
            CrdLookup::Found => None,
            CrdLookup::NotFound => {
                let ghost before = self.missing@;
                self.missing.push(copy_str(name));
                assert(views_of(self.missing@) =~= views_of(before).push(name@));
                None
            },
            CrdLookup::Failed { msg } => Some(StackableError::RuntimeError { msg }),
        }
    }

    /// The provider can run where no definition is missing; otherwise the
    /// error names the missing ones.
    pub fn finish(self) -> (r: Result<(), StackableError>)
        ensures
            self.missing@.len() == 0 ==> r is Ok,
            self.missing@.len() > 0 ==> (r matches Err(StackableError::CrdMissing { missing_crds })
                && missing_crds@ == self.missing@),
    {
        if self.missing.len() == 0 {
            Ok(())
        } else {
            Err(StackableError::CrdMissing { missing_crds: self.missing })
        }
    }
}

/// The views of a list of strings.
pub open spec fn views_of(v: Seq<String>) -> Seq<Seq<char>> {
    v.map_values(|s: String| s@)
}

/// What the node reports about itself.
#[derive(Debug)]
pub struct NodeSettings {
    pub architecture: String,
    pub pod_cidr: String,
    /// Taints as effect, key and value.
    pub taints: Vec<(String, String, String)>,
}

impl StackableProvider {
    /// The provider for the directories and the pod address range of the
    /// configuration.
    pub fn new(agent_config: &AgentConfig) -> (r: StackableProvider)
        ensures
            r.parcel_directory@ == agent_config.parcel_directory@,
            r.config_directory@ == agent_config.config_directory@,
            r.log_directory@ == agent_config.log_directory@,
            r.pod_cidr@ == agent_config.pod_cidr@,
    {
        StackableProvider {
            parcel_directory: agent_config.parcel_directory.clone(),
            config_directory: agent_config.config_directory.clone(),
            log_directory: agent_config.log_directory.clone(),
            pod_cidr: agent_config.pod_cidr.clone(),
        }
    }

    /// The node runs the architecture of the agent, with the pod address
    /// range of the provider, and only takes pods that tolerate that
    /// architecture.
    pub fn node(&self) -> (r: NodeSettings)
        ensures
            r.architecture@ == ARCH@,
            r.pod_cidr@ == self.pod_cidr@,
            r.taints@.len() == 2,
            r.taints@[0].0@ == "NoSchedule"@,
            r.taints@[1].0@ == "NoExecute"@,
            forall|i: int| 0 <= i < 2 ==> #[trigger] r.taints@[i].1@ == "kubernetes.io/arch"@ && r.taints@[i].2@ == ARCH@,
    {
        let mut taints = Vec::new();
        taints.push((copy_str("NoSchedule"), copy_str("kubernetes.io/arch"), copy_str(ARCH)));
        taints.push((copy_str("NoExecute"), copy_str("kubernetes.io/arch"), copy_str(ARCH)));
        NodeSettings { architecture: copy_str(ARCH), pod_cidr: self.pod_cidr.clone(), taints }
    }
}

/// The home directory of the user with `dirs::home_dir`, as a string;
/// `None` where there is none or it is not valid UTF-8.
///
/// The home directory comes from the environment of the process, so
/// nothing is promised of the result.
#[verifier::external_body]
fn home_directory() -> (r: Option<String>) {
    dirs::home_dir().and_then(|p| p.to_str().map(String::from))
}

/// The kubeconfig file to look for: the one named by the `KUBECONFIG`
/// variable where it is set, otherwise `.kube/config` in the home
/// directory, where there is one.
pub open spec fn kubeconfig_candidate(env_var: Option<Seq<char>>, home: Option<Seq<char>>) -> Option<Seq<char>> {
    match env_var {
        Some(p) => Some(p),
        None => match home {
            Some(h) => Some(path_join(path_join(h, ".kube"@), "config"@)),
            None => None,
        },
    }
}

/// The kubeconfig file to look for, see [`kubeconfig_candidate`], from the
/// value of the `KUBECONFIG` variable and the home directory.
pub fn kubeconfig_path(kubeconfig_env: Option<String>, home: Option<String>) -> (r: Option<String>)
    ensures
        opt_view(r) == kubeconfig_candidate(opt_view(kubeconfig_env), opt_view(home)),
{
    match kubeconfig_env {
        Some(e) => Some(e),
        None => match home {
            Some(h) => {
                let kube = join_path(h.as_str(), ".kube");
                Some(join_path(kube.as_str(), "config"))
            },
            None => None,
        },
    }
}

/// The kubeconfig file to look for, given the value of the `KUBECONFIG`
/// variable: that file where the variable is set, otherwise
/// `.kube/config` in the home directory of the user, which is only looked
/// up then. Whether the file exists is not checked here.
pub fn find_kubeconfig(kubeconfig_env: Option<String>) -> (r: Option<String>)
    ensures
        kubeconfig_env matches Some(e) ==> (r matches Some(p) && p@ == e@),
        kubeconfig_env is None ==> (r is None || exists|h: Seq<char>| #[trigger] kubeconfig_candidate(None, Some(h)) == opt_view(r)),
{
    match kubeconfig_env {
        Some(e) => Some(e),
        None => {
            let home = home_directory();
            let r = kubeconfig_path(None, home);
            proof {
                if r is Some {
                    let h = opt_view(home).unwrap();
                    assert(kubeconfig_candidate(None, Some(h)) == opt_view(r));
                }
            }
            r
        },
    }
}

} // verus!

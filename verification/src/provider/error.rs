//! Errors of the provider.
use vstd::prelude::*;
use crate::provider::repository::package::Package;

verus! {

/// What went wrong in the provider.
#[derive(Debug)]
pub enum StackableError {
    /// A URL could not be parsed or resolved.
    UrlParseError { msg: String },
    /// A repository object holds no valid repository definition.
    RepositoryConversionError,
    /// The pod object holds content that the agent cannot run.
    PodValidationError { msg: String },
    /// A template could not be rendered.
    TemplateRenderError { msg: String },
    /// A template could not be compiled.
    TemplateError { msg: String },
    /// Required custom resource definitions are not registered.
    CrdMissing { missing_crds: Vec<String> },
    /// No repository provides the package.
    PackageNotFound { package: Package },
    /// Some other error at runtime.
    RuntimeError { msg: String },
    /// A config file could not be written.
    ConfigFileWriteError { target_file: String, config_map: String },
    /// Config maps named in the pod do not exist.
    MissingConfigMapsError { missing_config_maps: Vec<String> },
    /// A Kubernetes object lacks a key.
    MissingObjectKey { key: String },
}

/// `e` is a pod validation error with the message `m`.
pub open spec fn is_validation_error(e: StackableError, m: Seq<char>) -> bool {
    &&& e is PodValidationError
    &&& e->PodValidationError_msg@ == m
}

/// `e` is the failure of a template: it could not be compiled or
/// rendered.
pub open spec fn is_template_failure(e: StackableError) -> bool {
    e is TemplateRenderError || e is TemplateError
}

/// A pod validation error with the given message.
pub fn validation_error(msg: String) -> (e: StackableError)
    ensures
        is_validation_error(e, msg@),
{
    StackableError::PodValidationError { msg }
}

} // verus!

//! Errors of the compose library.
use vstd::prelude::*;

verus! {

/// Errors raised while interpreting a compose project.
#[derive(Debug)]
pub enum ComposeError {
    /// A port specification could not be parsed.
    InvalidPort(String),
    /// A `depends_on` entry names a service that does not exist.
    ServiceNotFound(String),
    /// The `depends_on` graph has a cycle.
    CircularDependency(String),
    /// A service has neither `image:` nor `build:`.
    NoImageOrBuild(String),
    /// An `extends:` directive could not be resolved.
    Extends(String),
    /// A dependency's container did not report healthy in time.
    HealthCheckTimeout(String),
    /// A `${NAME:?msg}` or `${NAME?msg}` names a variable that is missing.
    RequiredVarNotSet { var: String, msg: String },
}

/// Result alias used throughout the compose library.
pub type Result<T> = core::result::Result<T, ComposeError>;

} // verus!

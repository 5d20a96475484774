//! Errors of container operations.

use vstd::prelude::*;

use crate::external::io_error_text;
use crate::text::{concat2, is_prefix};

verus! {

/// Container operation errors.
#[derive(Debug)]
pub enum ContainerError {
    NotFound(String),
    AlreadyExists(String),
    OperationFailed(String),
}

/// The displayed form of a container error.
pub open spec fn container_error_text(e: ContainerError) -> Seq<char> {
    match e {
        ContainerError::NotFound(s) => "Container not found: "@ + s@,
        ContainerError::AlreadyExists(s) => "Container already exists: "@ + s@,
        ContainerError::OperationFailed(s) => "Operation failed: "@ + s@,
    }
}

impl ContainerError {
    /// The displayed form of the error.
    pub fn to_string(&self) -> (r: String)
        ensures
            r@ == container_error_text(*self),
    {
        match self {
            ContainerError::NotFound(s) => concat2("Container not found: ", s.as_str()),
            ContainerError::AlreadyExists(s) => concat2("Container already exists: ", s.as_str()),
            ContainerError::OperationFailed(s) => concat2("Operation failed: ", s.as_str()),
        }
    }
}

/// Errors of the container library.
#[derive(Debug)]
pub enum VesselError {
    Container(ContainerError),
    ImagePullFailed(String),
    Runtime(String),
    Network(String),
    Io(std::io::Error),
}

impl VesselError {
    /// The displayed form of the error. The text of an I/O error is whatever
    /// the platform renders for it, after the `IO error: ` prefix.
    pub fn to_string(&self) -> (r: String)
        ensures
            match self {
                VesselError::Container(e) => r@ == "Container error: "@ + container_error_text(*e),
                VesselError::ImagePullFailed(_) => r@ == "Image error: failed to pull image"@,
                VesselError::Runtime(s) => r@ == "Runtime error: "@ + s@,
                VesselError::Network(s) => r@ == "Network error: "@ + s@,
                VesselError::Io(_) => is_prefix("IO error: "@, r@),
            },
    {
        match self {
            VesselError::Container(e) => {
                let inner = e.to_string();
                concat2("Container error: ", inner.as_str())
            },
            VesselError::ImagePullFailed(_) => String::from_str("Image error: failed to pull image"),
            VesselError::Runtime(s) => concat2("Runtime error: ", s.as_str()),
            VesselError::Network(s) => concat2("Network error: ", s.as_str()),
            VesselError::Io(e) => {
                let inner = io_error_text(e);
                let r = concat2("IO error: ", inner.as_str());
                assert(r@.subrange(0, "IO error: "@.len() as int) =~= "IO error: "@);
                r
            },
        }
    }

    /// The displayed form of the underlying error, for the variants that wrap
    /// one (`Container` and `Io`); `None` for the others.
    pub fn source(&self) -> (r: Option<String>)
        ensures
            match self {
                VesselError::Container(e) => r matches Some(t) && t@ == container_error_text(*e),
                VesselError::Io(_) => r is Some,
                _ => r is None,
            },
    {
        match self {
            VesselError::Container(e) => Some(e.to_string()),
            VesselError::Io(e) => Some(io_error_text(e)),
            _ => None,
        }
    }
}

impl From<ContainerError> for VesselError {
    fn from(e: ContainerError) -> (r: VesselError) {
        VesselError::Container(e)
    }
}

impl vstd::std_specs::convert::FromSpecImpl<ContainerError> for VesselError {
    open spec fn obeys_from_spec() -> bool {
        true
    }

    open spec fn from_spec(e: ContainerError) -> VesselError {
        VesselError::Container(e)
    }
}

impl From<std::io::Error> for VesselError {
    fn from(e: std::io::Error) -> (r: VesselError) {
        VesselError::Io(e)
    }
}

impl vstd::std_specs::convert::FromSpecImpl<std::io::Error> for VesselError {
    open spec fn obeys_from_spec() -> bool {
        true
    }

    open spec fn from_spec(e: std::io::Error) -> VesselError {
        VesselError::Io(e)
    }
}

} // verus!

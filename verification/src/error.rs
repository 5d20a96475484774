//! Plugin error types.

use vstd::prelude::*;

use crate::external::{io_error_text, json_error_text};
use crate::text::{concat2, concat3, is_prefix};

verus! {

/// Errors that can occur in plugin operations.
#[derive(Debug)]
pub enum PluginError {
    /// Plugin initialization failed.
    Initialization(String),
    /// A plugin was not found in the registry.
    NotFound(String),
    /// A plugin with the same name is already registered.
    AlreadyRegistered(String),
    /// An entity already exists.
    AlreadyExists(String),
    /// An operation failed.
    Operation(String),
    /// A configuration is invalid.
    Config(String),
    /// An I/O error.
    Io(std::io::Error),
    /// A JSON (de)serialization error.
    Serialization(serde_json::Error),
    /// Plugin execution failed.
    Execution(String),
    /// A value failed validation.
    Validation(String),
}

/// Result type alias for plugin operations.
pub type PluginResult<T> = Result<T, PluginError>;

/// The displayed form of an error that carries a message: a fixed phrase
/// per variant around the message. `None` for the variants that wrap an
/// outside error (`Io`, `Serialization`).
pub open spec fn plugin_error_text(e: PluginError) -> Option<Seq<char>> {
    match e {
        PluginError::Initialization(s) => Some("Plugin initialization failed: "@ + s@),
        PluginError::NotFound(s) => Some("Plugin `"@ + s@ + "` not found in registry"@),
        PluginError::AlreadyRegistered(s) => Some("Plugin `"@ + s@ + "` already registered"@),
        PluginError::AlreadyExists(s) => Some("Entity already exists: "@ + s@),
        PluginError::Operation(s) => Some("Operation failed: "@ + s@),
        PluginError::Config(s) => Some("Configuration error: "@ + s@),
        PluginError::Execution(s) => Some("Plugin execution error: "@ + s@),
        PluginError::Validation(s) => Some("Validation error: "@ + s@),
        PluginError::Io(_) => None,
        PluginError::Serialization(_) => None,
    }
}

impl PluginError {
    /// The displayed form of the error. A wrapped outside error is shown
    /// after `IO error: ` or `Serialization error: `, in its own `Display`
    /// form.
    pub fn to_string(&self) -> (r: String)
        ensures
            plugin_error_text(*self) matches Some(t) ==> r@ == t,
            self is Io ==> is_prefix("IO error: "@, r@),
            self is Serialization ==> is_prefix("Serialization error: "@, r@),
    {
        match self {
            PluginError::Initialization(s) => concat2("Plugin initialization failed: ", s.as_str()),
            PluginError::NotFound(s) => concat3("Plugin `", s.as_str(), "` not found in registry"),
            PluginError::AlreadyRegistered(s) => concat3(
                "Plugin `",
                s.as_str(),
                "` already registered",
            ),
            PluginError::AlreadyExists(s) => concat2("Entity already exists: ", s.as_str()),
            PluginError::Operation(s) => concat2("Operation failed: ", s.as_str()),
            PluginError::Config(s) => concat2("Configuration error: ", s.as_str()),
            PluginError::Execution(s) => concat2("Plugin execution error: ", s.as_str()),
            PluginError::Validation(s) => concat2("Validation error: ", s.as_str()),
            PluginError::Io(e) => {
                let inner = io_error_text(e);
                let r = concat2("IO error: ", inner.as_str());
                proof {
                    reveal_strlit("IO error: ");
                    assert(r@.subrange(0, 10) =~= "IO error: "@);
                }
                r
            },
            PluginError::Serialization(e) => {
                let inner = json_error_text(e);
                let r = concat2("Serialization error: ", inner.as_str());
                proof {
                    reveal_strlit("Serialization error: ");
                    assert(r@.subrange(0, 21) =~= "Serialization error: "@);
                }
                r
            },
        }
    }

    /// The displayed form of the underlying error, for the variants that wrap
    /// one (`Io` and `Serialization`); `None` for the others.
    pub fn source(&self) -> (r: Option<String>)
        ensures
            r is Some <==> (self is Io || self is Serialization),
    {
        match self {
            PluginError::Io(e) => Some(io_error_text(e)),
            PluginError::Serialization(e) => Some(json_error_text(e)),
            _ => None,
        }
    }
}

impl From<std::io::Error> for PluginError {
    fn from(e: std::io::Error) -> (r: PluginError) {
        PluginError::Io(e)
    }
}

impl vstd::std_specs::convert::FromSpecImpl<std::io::Error> for PluginError {
    open spec fn obeys_from_spec() -> bool {
        true
    }

    open spec fn from_spec(e: std::io::Error) -> PluginError {
        PluginError::Io(e)
    }
}

impl From<serde_json::Error> for PluginError {
    fn from(e: serde_json::Error) -> (r: PluginError) {
        PluginError::Serialization(e)
    }
}

impl vstd::std_specs::convert::FromSpecImpl<serde_json::Error> for PluginError {
    open spec fn obeys_from_spec() -> bool {
        true
    }

    open spec fn from_spec(e: serde_json::Error) -> PluginError {
        PluginError::Serialization(e)
    }
}

} // verus!

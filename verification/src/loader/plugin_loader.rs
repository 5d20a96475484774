//! The plugin-loader port: its errors, and how a loaded plugin is named.

use vstd::prelude::*;

use crate::text::concat2;

verus! {

/// Errors of loading and calling plugins.
#[derive(Debug)]
pub enum PluginError {
    NotFound,
    Load(String),
    Call(String),
}

/// The displayed form of a loader error.
pub open spec fn loader_error_text(e: PluginError) -> Seq<char> {
    match e {
        PluginError::NotFound => "not found"@,
        PluginError::Load(s) => "load: "@ + s@,
        PluginError::Call(s) => "call: "@ + s@,
    }
}

impl PluginError {
    /// The displayed form of the error.
    pub fn to_string(&self) -> (r: String)
        ensures
            r@ == loader_error_text(*self),
    {
        match self {
            PluginError::NotFound => String::from_str("not found"),
            PluginError::Load(s) => concat2("load: ", s.as_str()),
            PluginError::Call(s) => concat2("call: ", s.as_str()),
        }
    }
}

/// The stem that `Path::file_stem` finds in a path: its final component
/// without the extension, if there is a final component.
pub uninterp spec fn path_file_stem(path: Seq<char>) -> Option<Seq<char>>;

/// `Path::file_stem` of the path `path`, as text.
#[verifier::external_body]
fn file_stem_text(path: &str) -> (r: Option<String>)
    ensures
        match r {
            Some(s) => path_file_stem(path@) == Some(s@),
            None => path_file_stem(path@) is None,
        },
{
    std::path::Path::new(path).file_stem().and_then(|s| s.to_str()).map(|s| s.to_string())
}

/// The name a loaded plugin gets: the file stem of its path, or `?` when the
/// path has none.
pub open spec fn plugin_name_for(path: Seq<char>) -> Seq<char> {
    match path_file_stem(path) {
        Some(s) => s,
        None => "?"@,
    }
}

/// The name for a plugin loaded from `path`.
pub fn plugin_name(path: &str) -> (r: String)
    ensures
        r@ == plugin_name_for(path@),
{
    match file_stem_text(path) {
        Some(s) => s,
        None => String::from_str("?"),
    }
}

/// `Path::exists` of the path `path`: whether something is on disk there.
/// What is on disk is outside the program, so nothing is stated of the answer.
#[verifier::external_body]
fn path_exists(path: &str) -> (r: bool) {
    std::path::Path::new(path).exists()
}

/// `present` is an answer that the on-disk existence check for `path` gave.
/// What is on disk is not stated, so this ties a result to the answer the
/// check actually gave, whichever it was.
pub closed spec fn disk_answered(path: &str, present: bool) -> bool {
    call_ensures(path_exists, (path,), present)
}

/// The name under which the plugin at `path` is loaded, given whether
/// anything is at that path: nothing there is `NotFound`, otherwise the
/// plugin is named after the path's file stem.
pub fn loaded_name(path: &str, present: bool) -> (r: Result<String, PluginError>)
    ensures
        present ==> (r matches Ok(s) && s@ == plugin_name_for(path@)),
        !present ==> (r matches Err(PluginError::NotFound)),
{
    if present {
        Ok(plugin_name(path))
    } else {
        Err(PluginError::NotFound)
    }
}

/// Looks `path` up on disk and names the plugin found there: `NotFound` when
/// nothing is at that path, otherwise the path's file stem.
pub fn load_name(path: &str) -> (r: Result<String, PluginError>)
    ensures
        (r matches Ok(s) && s@ == plugin_name_for(path@)) || (r matches Err(PluginError::NotFound)),
        exists|present: bool|
            #[trigger] disk_answered(path, present) && (present ==> (r matches Ok(s) && s@
                == plugin_name_for(path@))) && (!present ==> (r matches Err(
                PluginError::NotFound,
            ))),
{
    let present = path_exists(path);
    assert(disk_answered(path, present));
    loaded_name(path, present)
}

} // verus!

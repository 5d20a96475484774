//! The loader adapter for native dynamic libraries.

use vstd::prelude::*;

use crate::loader::plugin_loader::{disk_answered, load_name, plugin_name_for, PluginError};

verus! {

/// Loader for native dynamic libraries.
pub struct NativeLoader;

/// A plugin loaded by [`NativeLoader`].
pub struct NativePlugin {
    pub name: String,
}

impl NativePlugin {
    /// The plugin name.
    pub fn name(&self) -> (r: &str)
        ensures
            r@ == self.name@,
    {
        self.name.as_str()
    }

    /// Calls an exported function; every call answers with no bytes.
    pub fn call(&self, fn_name: &str, args: &[u8]) -> (r: Result<Vec<u8>, PluginError>)
        ensures
            r matches Ok(v) && v@.len() == 0,
    {
        Ok(Vec::new())
    }
}

impl NativeLoader {
    /// The backend name.
    pub fn backend(&self) -> (r: &str)
        ensures
            r@ == "native"@,
    {
        "native"
    }

    /// Loads the plugin at `path`, naming it after the path's file stem;
    /// `NotFound` when nothing is at that path.
    pub fn load(&self, path: &str) -> (r: Result<NativePlugin, PluginError>)
        ensures
            (r matches Ok(p) && p.name@ == plugin_name_for(path@)) || (r matches Err(
                PluginError::NotFound,
            )),
            exists|present: bool|
                #[trigger] disk_answered(path, present) && (present ==> (r matches Ok(p) && p.name@
                    == plugin_name_for(path@))) && (!present ==> (r matches Err(
                    PluginError::NotFound,
                ))),
    {
        match load_name(path) {
            Ok(name) => Ok(NativePlugin { name }),
            Err(e) => Err(e),
        }
    }

    /// Unloads a plugin by name; this always succeeds.
    pub fn unload(&self, name: &str) -> (r: Result<(), PluginError>)
        ensures
            r is Ok,
    {
        Ok(())
    }

    /// The names of the loaded plugins; the loader keeps none.
    pub fn list(&self) -> (r: Vec<String>)
        ensures
            r@.len() == 0,
    {
        Vec::new()
    }
}

} // verus!

use pheno_plugins::loader::native::NativeLoader;
use pheno_plugins::loader::plugin_loader::{load_name, loaded_name, plugin_name, PluginError};
use pheno_plugins::loader::wasm::WasmLoader;

#[test]
fn wasm_backend() {
    assert_eq!(WasmLoader.backend(), "wasm");
}

#[test]
fn native_backend() {
    assert_eq!(NativeLoader.backend(), "native");
}

#[test]
fn wasm_load_nonexistent_returns_err() {
    assert!(WasmLoader.load("/nope.wasm").is_err());
}

#[test]
fn native_load_nonexistent_returns_err() {
    assert!(NativeLoader.load("/nope.so").is_err());
}

#[test]
fn loader_missing_path_is_not_found() {
    assert!(matches!(NativeLoader.load("/nope.so"), Err(PluginError::NotFound)));
    assert!(matches!(load_name("/definitely/not/here.wasm"), Err(PluginError::NotFound)));
    assert!(matches!(loaded_name("/nope.so", false), Err(PluginError::NotFound)));
}

#[test]
fn loader_names_plugins_after_file_stem() {
    assert_eq!(loaded_name("/nope.wasm", true).unwrap(), "nope");
    assert_eq!(loaded_name("/usr/lib/libfoo.so", true).unwrap(), "libfoo");
    assert_eq!(plugin_name("/"), "?");
    assert_eq!(plugin_name("a/.."), "?");
    assert_eq!(plugin_name(".hidden"), ".hidden");
    assert_eq!(plugin_name("archive.tar.gz"), "archive.tar");
}

#[test]
fn loader_loads_an_existing_path() {
    let p = NativeLoader.load("/").unwrap();
    assert_eq!(p.name(), "?");
    let q = WasmLoader.load("/tmp").unwrap();
    assert_eq!(q.name(), "tmp");
}

#[test]
fn loader_calls_unload_and_list() {
    let p = NativeLoader.load("/").unwrap();
    assert_eq!(p.call("f", &[1, 2]).unwrap(), Vec::<u8>::new());
    assert!(NativeLoader.unload("x").is_ok());
    assert!(WasmLoader.list().is_empty());
    assert!(NativeLoader.list().is_empty());
}

#[test]
fn loader_error_texts() {
    assert_eq!(PluginError::NotFound.to_string(), "not found");
    assert_eq!(PluginError::Load("bad".to_string()).to_string(), "load: bad");
    assert_eq!(PluginError::Call("boom".to_string()).to_string(), "call: boom");
}

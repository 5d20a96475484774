//! The plugin-loader port and its native and WebAssembly adapters.

pub mod native;
pub mod plugin_loader;
pub mod wasm;

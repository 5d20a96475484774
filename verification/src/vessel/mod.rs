//! Container utilities: images, containers, compose files, runtimes and the
//! client that drives them.

pub mod container;
pub mod image;
pub mod error;
pub mod runtime;
pub mod compose;
pub mod client;

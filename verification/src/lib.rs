//! Installs configuration artifacts of an assistant tool from a source bundle
//! into the tool's configuration home: what differs between the two trees,
//! how a settings document is merged, which invocations of the tool install
//! and remove servers and plugins, and the state of the interactive
//! application that drives it all.
//!
//! The library decides and computes; it reads no file and runs no process.

pub mod app;
pub mod component;
pub mod hooks;
pub mod input;
pub mod installer;
pub mod json;
pub mod mcp;
pub mod platform;
pub mod plugin;
pub mod scanner;
pub mod settings;
pub mod text;
pub mod yaml;

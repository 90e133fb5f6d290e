//! A verified core for a script-extensible, agent-driven command shell.
//!
//! The crate models the pieces of the shell whose behaviour is worth pinning
//! down precisely: the JSON values exchanged with the embedded scripting
//! engine and the remote model, the shared tool registry, the configuration
//! loaded from a user script, the module resolver and source lowering for
//! that script, the native operation bridge, and the tool-calling turn that
//! drives the conversation with the model.

pub mod agent;
pub mod bridge;
pub mod config;
pub mod isolate;
pub mod json;
pub mod loader;
pub mod registry;
pub mod roundtrip;
pub mod text;

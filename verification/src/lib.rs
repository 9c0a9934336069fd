//! Provisioning support for a small fixed set of host services.
//!
//! The crate holds the logic of a service provisioning run: translating a
//! shell-style settings file into service-manager environment directives,
//! rendering per-service override configuration files, and the state machine
//! that sequences build, install, configuration, reload and activation steps.
//! A thin driver performs the external side effects (subprocesses and file
//! writes) that the state machine asks for.

pub mod conf;
pub mod endpoints;
pub mod hex;
pub mod orchestrator;
pub mod settings;
pub mod transcode;
pub mod uuid;

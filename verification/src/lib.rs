//! Decision core of a control plane for lightweight virtual machines.
//!
//! The crate holds the rules: what a registry document means, how a backend
//! changes its records and undoes a change that could not be saved, when a
//! supervised process counts as started, how a selector is resolved and how a
//! client reaches the service. It performs no input or output; callers probe
//! the host, hand over what they saw and carry out what the crate asks for.

pub mod hypervisor;
pub mod text;
pub mod scan;
pub mod store;
pub mod atomic;
pub mod registry;
pub mod vm;
pub mod linux;
pub mod windows;
pub mod supervisor;
pub mod macos;
pub mod service;
pub mod platform;
pub mod client;
pub mod dirs;
pub mod image;
pub mod report;
pub mod vz;
pub mod logging;
pub mod containers;
pub mod search;

pub use platform::{create_hypervisor, platform_info};

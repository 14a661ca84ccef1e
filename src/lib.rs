//! Capability bridge and interactive session logic for running scaffold
//! scripts: path confinement, value resolution, and the suspend/resume
//! session protocol.

pub mod paths;
pub mod text;
pub mod store;
pub mod values;
pub mod context;
pub mod session;
pub mod capabilities;
pub mod discovery;
pub mod materialize;
pub mod cli;
pub mod filters;
pub mod listing;

//! Bootstrapping of a Cargo workspace: discovering member packages under a
//! root directory and merging them into the root manifest.

pub mod bootstrap;
pub mod discovery;
pub mod document;
pub mod init;
pub mod manifest;
pub mod order;
pub mod resolver;

pub use init::{Init, Outcome};
pub use manifest::{Error, Manifest, Merged};
pub use resolver::Resolver;

//! What host and peers agree on: configuration, identities, manifests, messages and session states.
pub mod config;
pub mod identity;
pub mod manifest;
pub mod messages;
pub mod session;

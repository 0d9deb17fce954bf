//! Media sources and their analysis before a session.
pub mod analyzer;
pub mod chunk_map;
pub mod keyframes;
pub mod media_hash;
pub mod optical;
pub mod probe;
pub mod source;

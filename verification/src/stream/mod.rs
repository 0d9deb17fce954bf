//! Wire framing, integrity of chunks, and the encode step.
pub mod encode;
pub mod framing;

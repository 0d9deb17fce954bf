//! The core of `watch-party`, a peer-to-peer watch party for physical media.
//!
//! A host loads a disc, analyzes it, and streams it in chunks to a closed group of peers. This
//! library holds everything that is decided or computed on the way; processes, sockets and the
//! terminal are the program's.
pub mod disc;
pub mod number;
pub mod player;
pub mod protocol;
pub mod rounding;
pub mod stream;
pub mod text;
pub mod tui;

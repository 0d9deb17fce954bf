//! The stages that host and peer go through.
use vstd::prelude::*;

verus! {

/// Host side:
/// Analyzing → Announcing → AwaitingAcks → Challenging → Assigning → Ready → Streaming → Ended.
#[derive(Debug, Clone, Copy, PartialEq, Eq, Structural)]
pub enum HostSessionState {
    /// Probing the source and building the manifest.
    Analyzing,
    /// Manifest built; invited peers may connect.
    Announcing,
    /// Manifest sent to all connected peers; acknowledgements are outstanding.
    AwaitingAcks,
    /// All acknowledgements received; the capability challenge is running.
    Challenging,
    /// Responses received or deadline elapsed; roles are being assigned.
    Assigning,
    /// Roles sent to all peers; the stream is ready to begin.
    Ready,
    /// Chunks are flowing and sync beacons are sent.
    Streaming,
    /// Stream ended or aborted.
    Ended,
}

/// Peer side:
/// AwaitingManifest → AssessingCapabilities → AwaitingRole → AwaitingStream → Buffering →
/// Playing ↔ Paused → Ended.
#[derive(Debug, Clone, Copy, PartialEq, Eq, Structural)]
pub enum PeerSessionState {
    /// Waiting for the session manifest.
    AwaitingManifest,
    /// Manifest verified and acknowledged; local capabilities are being assessed.
    AssessingCapabilities,
    /// Capability response sent; waiting for a role.
    AwaitingRole,
    /// Role assigned; waiting for the stream to be ready.
    AwaitingStream,
    /// Filling the buffer before playback.
    Buffering,
    /// Playing.
    Playing,
    /// Paused by the host.
    Paused,
    /// Stream ended or connection lost.
    Ended,
}

} // verus!

//! The messages of the protocol.
//!
//! On the wire a message is a frame: its length, a tag that names its kind, and its content.
use vstd::prelude::*;

use crate::protocol::manifest::SessionManifest;

verus! {

/// A message between host and peer.
#[derive(Debug, Clone)]
pub enum WireMessage {
    // Pregame
    Manifest(SessionManifest),
    ManifestAck(ManifestAck),
    CapabilityChallenge(CapabilityChallenge),
    CapabilityResponse(CapabilityResponse),
    SessionRoles(SessionRoles),
    StreamReady(StreamReady),
    // Stream
    Chunk(StreamChunk),
    SyncBeacon(SyncBeacon),
    PeerStatus(PeerStatus),
    // Control
    Pause(SessionControl),
    Resume(SessionControl),
    Seek(SeekControl),
    End(SessionControl),
}

/// The kinds of messages.
#[derive(Debug, Clone, Copy, PartialEq, Eq, Structural)]
pub enum MessageKind {
    Manifest,
    ManifestAck,
    CapabilityChallenge,
    CapabilityResponse,
    SessionRoles,
    StreamReady,
    Chunk,
    SyncBeacon,
    PeerStatus,
    Pause,
    Resume,
    Seek,
    End,
}

impl WireMessage {
    /// The kind of a message.
    pub open spec fn spec_kind(&self) -> MessageKind {
        match *self {
            WireMessage::Manifest(_) => MessageKind::Manifest,
            WireMessage::ManifestAck(_) => MessageKind::ManifestAck,
            WireMessage::CapabilityChallenge(_) => MessageKind::CapabilityChallenge,
            WireMessage::CapabilityResponse(_) => MessageKind::CapabilityResponse,
            WireMessage::SessionRoles(_) => MessageKind::SessionRoles,
            WireMessage::StreamReady(_) => MessageKind::StreamReady,
            WireMessage::Chunk(_) => MessageKind::Chunk,
            WireMessage::SyncBeacon(_) => MessageKind::SyncBeacon,
            WireMessage::PeerStatus(_) => MessageKind::PeerStatus,
            WireMessage::Pause(_) => MessageKind::Pause,
            WireMessage::Resume(_) => MessageKind::Resume,
            WireMessage::Seek(_) => MessageKind::Seek,
            WireMessage::End(_) => MessageKind::End,
        }
    }

    /// The kind of this message.
    pub fn kind(&self) -> (r: MessageKind)
        ensures
            r == self.spec_kind(),
    {
        match self {
            WireMessage::Manifest(_) => MessageKind::Manifest,
            WireMessage::ManifestAck(_) => MessageKind::ManifestAck,
            WireMessage::CapabilityChallenge(_) => MessageKind::CapabilityChallenge,
            WireMessage::CapabilityResponse(_) => MessageKind::CapabilityResponse,
            WireMessage::SessionRoles(_) => MessageKind::SessionRoles,
            WireMessage::StreamReady(_) => MessageKind::StreamReady,
            WireMessage::Chunk(_) => MessageKind::Chunk,
            WireMessage::SyncBeacon(_) => MessageKind::SyncBeacon,
            WireMessage::PeerStatus(_) => MessageKind::PeerStatus,
            WireMessage::Pause(_) => MessageKind::Pause,
            WireMessage::Resume(_) => MessageKind::Resume,
            WireMessage::Seek(_) => MessageKind::Seek,
            WireMessage::End(_) => MessageKind::End,
        }
    }
}

// ── Pregame ───────────────────────────────────────────────────────────────────

/// A peer's confirmation that it received the manifest.
#[derive(Debug, Clone)]
pub struct ManifestAck {
    pub session_id: [u8; 32],
    pub peer_fingerprint: String,
    /// blake3 of the received manifest bytes.
    pub manifest_hash: [u8; 32],
    pub timestamp_utc: u64,
}

/// The host asks its peers what they can do.
#[derive(Debug, Clone, Copy)]
pub struct CapabilityChallenge {
    pub session_id: [u8; 32],
    /// The disc to look for locally.
    pub media_hash: [u8; 32],
    /// How long the peer has to respond.
    pub response_deadline_ms: u32,
}

/// What a peer says it can do.
#[derive(Debug, Clone)]
pub struct CapabilityResponse {
    pub session_id: [u8; 32],
    pub peer_fingerprint: String,
    /// The peer has a drive with media loaded.
    pub has_local_disc: bool,
    /// The hash of that media matched the challenge.
    pub local_disc_verified: bool,
    /// Available bandwidth in kilobits per second.
    pub estimated_bandwidth_kbps: Option<u32>,
    /// Preferred buffer depth in chunks.
    pub preferred_buffer_chunks: Option<u16>,
    pub can_seek: bool,
    pub player_type: PlayerType,
    pub timestamp_utc: u64,
}

/// The player that a peer uses.
#[derive(Debug, Clone, Copy, PartialEq, Eq, Structural)]
pub enum PlayerType {
    Mpv,
    /// Any other player.
    External,
    Unknown,
}

/// The role that the host assigns to one peer.
#[derive(Debug, Clone)]
pub struct SessionRoles {
    pub session_id: [u8; 32],
    pub peer_fingerprint: String,
    pub role: PeerRole,
}

/// How a peer takes part.
#[derive(Debug, Clone, Copy, PartialEq, Eq, Structural)]
pub enum PeerRole {
    /// Receives the stream chunks of the host.
    StreamReceiver,
    /// Reads its own verified disc and receives sync beacons only.
    LocalDiscSync,
}

/// The last pregame message: when playback starts.
#[derive(Debug, Clone, Copy)]
pub struct StreamReady {
    pub session_id: [u8; 32],
    pub stream_start_utc: u64,
}

// ── Stream ────────────────────────────────────────────────────────────────────

/// One encoded chunk of the stream.
#[derive(Debug, Clone)]
pub struct StreamChunk {
    pub session_id: [u8; 32],
    /// Zero-based position of the chunk; gaps are dropped chunks.
    pub sequence: u64,
    /// The chapter that the chunk belongs to, for display.
    pub chapter_index: u16,
    /// Where the chunk starts, in microseconds.
    pub pts_us: i64,
    /// Whether the chunk starts on a keyframe.
    pub keyframe: bool,
    /// Encoded video and audio.
    pub payload: Vec<u8>,
    /// Authentication code over sequence and payload.
    pub hmac: [u8; 32],
}

/// The host's position, broadcast at intervals.
#[derive(Debug, Clone, Copy)]
pub struct SyncBeacon {
    pub session_id: [u8; 32],
    /// Position in microseconds.
    pub host_pts_us: i64,
    pub host_chunk_seq: u64,
    pub playing: bool,
    pub timestamp_utc: u64,
}

/// A peer's answer to a sync beacon.
#[derive(Debug, Clone)]
pub struct PeerStatus {
    pub session_id: [u8; 32],
    pub peer_fingerprint: String,
    /// Position in microseconds.
    pub current_pts_us: i64,
    /// How many chunks the peer holds ahead.
    pub buffer_depth_chunks: u16,
    pub state: PeerPlaybackState,
}

/// What a peer's player does.
#[derive(Debug, Clone)]
pub enum PeerPlaybackState {
    Playing,
    Buffering,
    Paused,
    Error(String),
}

// ── Control ───────────────────────────────────────────────────────────────────

/// Pause, resume or end.
#[derive(Debug, Clone, Copy)]
pub struct SessionControl {
    pub session_id: [u8; 32],
    pub timestamp_utc: u64,
}

/// The host seeks; only in sessions with a chunk map.
#[derive(Debug, Clone, Copy)]
pub struct SeekControl {
    pub session_id: [u8; 32],
    /// The chunk to continue from.
    pub target_sequence: u64,
    /// Where it starts, in microseconds.
    pub target_pts_us: i64,
    pub timestamp_utc: u64,
}

} // verus!

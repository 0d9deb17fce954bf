//! Host configuration, as `watch-party.toml` holds it.
use vstd::prelude::*;

verus! {

/// Full host configuration.
#[derive(Debug, Clone)]
pub struct HostConfig {
    pub stream: StreamConfig,
    pub buffer: BufferConfig,
    pub pregame: PregameConfig,
    pub sync: SyncConfig,
    pub media: MediaConfig,
}

/// How the timeline is cut into chunks.
#[derive(Debug, Clone, Copy)]
pub struct StreamConfig {
    /// Target chunk duration in milliseconds. Default: 2000.
    pub chunk_duration_ms: u32,
    /// Maximum distance in milliseconds to snap a boundary to the nearest keyframe. Default: 500.
    pub max_snap_delta_ms: u32,
    /// Whether to snap chunk boundaries to keyframes. Default: true.
    pub keyframe_snap: bool,
}

/// How many chunks a peer holds.
#[derive(Debug, Clone, Copy)]
pub struct BufferConfig {
    /// Minimum number of chunks a peer should buffer before playing. Default: 5.
    pub min_buffer_chunks: u16,
    /// Maximum number of chunks a peer will buffer ahead. Default: 30.
    pub max_buffer_chunks: u16,
}

/// Deadlines of the pregame phase.
#[derive(Debug, Clone, Copy)]
pub struct PregameConfig {
    /// How long to wait for a manifest acknowledgement from each peer. Default: 10000.
    pub manifest_ack_deadline_ms: u32,
    /// How long peers have to respond to the capability challenge. Default: 15000.
    pub capability_response_deadline_ms: u32,
    /// How long to wait for invited peers to connect before pregame starts. Default: 30000.
    pub peer_join_window_ms: u32,
}

/// How peers are kept in step.
#[derive(Debug, Clone, Copy)]
pub struct SyncConfig {
    /// How often the host sends a sync beacon. Default: 5000.
    pub sync_beacon_interval_ms: u32,
    /// Maximum drift before corrective action is taken. Default: 3000.
    pub max_drift_ms: u32,
}

/// How a disc is identified and what happens when its duration is unknown.
#[derive(Debug, Clone, Copy)]
pub struct MediaConfig {
    /// Number of bytes of the re-muxed source that make up its identity. Default: 10485760.
    pub media_hash_bytes: u64,
    /// Fall back to a live manifest when the duration is unknown. Default: true.
    pub allow_live_fallback: bool,
}

impl Default for HostConfig {
    fn default() -> (r: Self)
        ensures
            r == (HostConfig {
                stream: StreamConfig {
                    chunk_duration_ms: 2000,
                    max_snap_delta_ms: 500,
                    keyframe_snap: true,
                },
                buffer: BufferConfig { min_buffer_chunks: 5, max_buffer_chunks: 30 },
                pregame: PregameConfig {
                    manifest_ack_deadline_ms: 10_000,
                    capability_response_deadline_ms: 15_000,
                    peer_join_window_ms: 30_000,
                },
                sync: SyncConfig { sync_beacon_interval_ms: 5_000, max_drift_ms: 3_000 },
                media: MediaConfig { media_hash_bytes: 10_485_760, allow_live_fallback: true },
            }),
    {
        HostConfig {
            stream: StreamConfig {
                chunk_duration_ms: 2000,
                max_snap_delta_ms: 500,
                keyframe_snap: true,
            },
            buffer: BufferConfig { min_buffer_chunks: 5, max_buffer_chunks: 30 },
            pregame: PregameConfig {
                manifest_ack_deadline_ms: 10_000,
                capability_response_deadline_ms: 15_000,
                peer_join_window_ms: 30_000,
            },
            sync: SyncConfig { sync_beacon_interval_ms: 5_000, max_drift_ms: 3_000 },
            media: MediaConfig { media_hash_bytes: 10_485_760, allow_live_fallback: true },
        }
    }
}

} // verus!

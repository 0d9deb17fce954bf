//! Session manifests: what the host announces before any stream data flows.
use vstd::prelude::*;

verus! {

/// A session manifest.
///
/// `Vod` follows from a full analysis: known duration, chunk map, seeking. `Live` is the degraded
/// form for a source of unknown duration: no seeking and no chunk map.
#[derive(Debug, Clone)]
pub enum SessionManifest {
    Vod(VodManifest),
    Live(LiveManifest),
}

impl SessionManifest {
    /// The session that the manifest announces.
    pub fn session_id(&self) -> (r: &[u8; 32])
        ensures
            *r == (match *self {
                SessionManifest::Vod(m) => m.session_id,
                SessionManifest::Live(m) => m.session_id,
            }),
    {
        match self {
            SessionManifest::Vod(m) => &m.session_id,
            SessionManifest::Live(m) => &m.session_id,
        }
    }

    /// The fingerprint of the host's key.
    pub fn host_fingerprint(&self) -> (r: &str)
        ensures
            r@ == (match *self {
                SessionManifest::Vod(m) => m.host_fingerprint@,
                SessionManifest::Live(m) => m.host_fingerprint@,
            }),
    {
        match self {
            SessionManifest::Vod(m) => m.host_fingerprint.as_str(),
            SessionManifest::Live(m) => m.host_fingerprint.as_str(),
        }
    }

    /// Target duration of a chunk in milliseconds.
    pub fn chunk_duration_ms(&self) -> (r: u32)
        ensures
            r == (match *self {
                SessionManifest::Vod(m) => m.chunk_duration_ms,
                SessionManifest::Live(m) => m.chunk_duration_ms,
            }),
    {
        match self {
            SessionManifest::Vod(m) => m.chunk_duration_ms,
            SessionManifest::Live(m) => m.chunk_duration_ms,
        }
    }

    /// When playback starts.
    pub fn stream_start_utc(&self) -> (r: u64)
        ensures
            r == (match *self {
                SessionManifest::Vod(m) => m.stream_start_utc,
                SessionManifest::Live(m) => m.stream_start_utc,
            }),
    {
        match self {
            SessionManifest::Vod(m) => m.stream_start_utc,
            SessionManifest::Live(m) => m.stream_start_utc,
        }
    }

    /// How many chunks a peer holds before it plays.
    pub fn min_buffer_chunks(&self) -> (r: u16)
        ensures
            r == (match *self {
                SessionManifest::Vod(m) => m.min_buffer_chunks,
                SessionManifest::Live(m) => m.min_buffer_chunks,
            }),
    {
        match self {
            SessionManifest::Vod(m) => m.min_buffer_chunks,
            SessionManifest::Live(m) => m.min_buffer_chunks,
        }
    }
}

/// The manifest of a fully analyzed source.
#[derive(Debug)]
pub struct VodManifest {
    pub session_id: [u8; 32],
    pub host_fingerprint: String,
    /// blake3 hash of the first bytes of the re-muxed source; all zero where there is none.
    pub media_hash: [u8; 32],
    /// Total duration in microseconds.
    pub duration_us: i64,
    pub chunk_duration_ms: u32,
    pub total_chunks: u64,
    /// One entry per chunk, in order.
    pub chunk_map: Vec<ChunkBoundary>,
    pub video_codec: String,
    pub resolution: (u16, u16),
    pub framerate: FrameRate,
    pub avg_bitrate_kbps: u32,
    pub peak_bitrate_kbps: u32,
    pub audio_tracks: Vec<AudioTrack>,
    pub stream_start_utc: u64,
    pub sync_beacon_interval_ms: u32,
    pub min_buffer_chunks: u16,
    pub max_buffer_chunks: u16,
    /// Whether boundaries were to be snapped to keyframes.
    pub keyframe_snap: bool,
    /// The largest distance that a boundary was allowed to move.
    pub max_snap_delta_ms: u32,
    /// Whether the chunk map holds byte offsets and lengths.
    pub byte_map_available: bool,
}

/// The manifest of a source of unknown duration.
#[derive(Debug)]
pub struct LiveManifest {
    pub session_id: [u8; 32],
    pub host_fingerprint: String,
    /// blake3 hash of the first bytes of the re-muxed source, where it could be had.
    pub media_hash: Option<[u8; 32]>,
    pub chunk_duration_ms: u32,
    pub video_codec: String,
    pub resolution: Option<(u16, u16)>,
    pub framerate: Option<FrameRate>,
    pub estimated_bitrate_kbps: Option<u32>,
    pub audio_tracks: Vec<AudioTrack>,
    pub stream_start_utc: u64,
    pub sync_beacon_interval_ms: u32,
    pub min_buffer_chunks: u16,
}

/// One chunk of the timeline.
///
/// Boundaries follow from time; chapter marks are annotations for display.
#[derive(Debug, Clone)]
pub struct ChunkBoundary {
    /// Zero-based position of the chunk.
    pub sequence: u64,
    /// Where the chunk starts, in microseconds.
    pub pts_us: i64,
    /// How long the chunk is, in microseconds.
    pub duration_us: u64,
    /// Byte offset into the source, where it is known.
    pub byte_offset: Option<u64>,
    /// Length in bytes on the source, where it is known.
    pub byte_length: Option<u64>,
    /// Whether the start was moved to a keyframe.
    pub keyframe_snapped: bool,
    /// How far the start was moved, in milliseconds; negative is earlier.
    pub snap_delta_ms: i32,
    /// Whether a chapter starts within this chunk.
    pub is_chapter_start: bool,
    /// The chapter that starts at this chunk.
    pub chapter_index: Option<u16>,
    /// The title of that chapter.
    pub chapter_title: Option<String>,
}

/// One audio track of the source.
#[derive(Debug, Clone)]
pub struct AudioTrack {
    pub index: u16,
    pub codec: String,
    pub language: Option<String>,
    pub channels: u8,
}

/// Frames per second, as the quotient of two decimals held in millionths.
#[derive(Debug, Clone, Copy)]
pub struct FrameRate {
    pub num: i64,
    pub den: i64,
}

impl Clone for VodManifest {
    fn clone(&self) -> (r: Self)
        ensures
            r.chunk_map@ == self.chunk_map@,
            r.audio_tracks@ == self.audio_tracks@,
            r == (VodManifest {
                chunk_map: r.chunk_map,
                audio_tracks: r.audio_tracks,
                ..*self
            }),
    {
        VodManifest {
            session_id: self.session_id,
            host_fingerprint: self.host_fingerprint.clone(),
            media_hash: self.media_hash,
            duration_us: self.duration_us,
            chunk_duration_ms: self.chunk_duration_ms,
            total_chunks: self.total_chunks,
            chunk_map: copy_chunk_map(&self.chunk_map),
            video_codec: self.video_codec.clone(),
            resolution: self.resolution,
            framerate: self.framerate,
            avg_bitrate_kbps: self.avg_bitrate_kbps,
            peak_bitrate_kbps: self.peak_bitrate_kbps,
            audio_tracks: copy_tracks(&self.audio_tracks),
            stream_start_utc: self.stream_start_utc,
            sync_beacon_interval_ms: self.sync_beacon_interval_ms,
            min_buffer_chunks: self.min_buffer_chunks,
            max_buffer_chunks: self.max_buffer_chunks,
            keyframe_snap: self.keyframe_snap,
            max_snap_delta_ms: self.max_snap_delta_ms,
            byte_map_available: self.byte_map_available,
        }
    }
}

impl Clone for LiveManifest {
    fn clone(&self) -> (r: Self)
        ensures
            r.audio_tracks@ == self.audio_tracks@,
            r == (LiveManifest { audio_tracks: r.audio_tracks, ..*self }),
    {
        LiveManifest {
            session_id: self.session_id,
            host_fingerprint: self.host_fingerprint.clone(),
            media_hash: self.media_hash,
            chunk_duration_ms: self.chunk_duration_ms,
            video_codec: self.video_codec.clone(),
            resolution: self.resolution,
            framerate: self.framerate,
            estimated_bitrate_kbps: self.estimated_bitrate_kbps,
            audio_tracks: copy_tracks(&self.audio_tracks),
            stream_start_utc: self.stream_start_utc,
            sync_beacon_interval_ms: self.sync_beacon_interval_ms,
            min_buffer_chunks: self.min_buffer_chunks,
        }
    }
}

/// A copy of an optional text.
pub fn copy_text(text: &Option<String>) -> (r: Option<String>)
    ensures
        r == *text,
{
    match text {
        Some(t) => Some(t.clone()),
        None => None,
    }
}

/// A copy of a chunk map.
pub fn copy_chunk_map(map: &Vec<ChunkBoundary>) -> (r: Vec<ChunkBoundary>)
    ensures
        r@ == map@,
{
    let mut out: Vec<ChunkBoundary> = Vec::new();
    let mut i: usize = 0;
    while i < map.len()
        invariant
            i <= map.len(),
            out@ == map@.take(i as int),
        decreases map.len() - i,
    {
        let b = &map[i];
        out.push(
            ChunkBoundary {
                sequence: b.sequence,
                pts_us: b.pts_us,
                duration_us: b.duration_us,
                byte_offset: b.byte_offset,
                byte_length: b.byte_length,
                keyframe_snapped: b.keyframe_snapped,
                snap_delta_ms: b.snap_delta_ms,
                is_chapter_start: b.is_chapter_start,
                chapter_index: b.chapter_index,
                chapter_title: copy_text(&b.chapter_title),
            },
        );
        assert(out@ =~= map@.take(i + 1));
        i = i + 1;
    }
    assert(map@.take(map@.len() as int) =~= map@);
    out
}

/// A copy of a list of audio tracks.
pub fn copy_tracks(tracks: &Vec<AudioTrack>) -> (r: Vec<AudioTrack>)
    ensures
        r@ == tracks@,
{
    let mut out: Vec<AudioTrack> = Vec::new();
    let mut i: usize = 0;
    while i < tracks.len()
        invariant
            i <= tracks.len(),
            out@ == tracks@.take(i as int),
        decreases tracks.len() - i,
    {
        let t = &tracks[i];
        out.push(
            AudioTrack {
                index: t.index,
                codec: t.codec.clone(),
                language: copy_text(&t.language),
                channels: t.channels,
            },
        );
        assert(out@ =~= tracks@.take(i + 1));
        i = i + 1;
    }
    assert(tracks@.take(tracks@.len() as int) =~= tracks@);
    out
}

} // verus!

//! From the findings of probe, hash and scan to a session manifest.
//!
//! The steps of an analysis run outside; what comes next and what the manifest says is decided
//! here. `plan_analysis` says which steps a source calls for once it is probed, and `analyze` makes
//! the manifest of what they found.
use vstd::prelude::*;

use crate::disc::chunk_map::{
    boundary_at, build_chunk_map, chunk_count, is_chunk_map, law_chunk_map_is_determined,
};
use crate::disc::probe::ProbeResult;
use crate::disc::source::SourceCapabilities;
use crate::protocol::config::HostConfig;
use crate::protocol::manifest::{
    copy_tracks, ChunkBoundary, LiveManifest, SessionManifest, VodManifest,
};

verus! {

/// Why there is no manifest.
#[derive(Debug, Clone, Copy, PartialEq, Eq, Structural)]
pub enum ManifestError {
    /// The duration is unknown and the configuration does not allow a live session.
    UnknownDuration,
}

impl ManifestError {
    /// The message for a person.
    pub fn message(&self) -> (r: &'static str)
        ensures
            r@ == "media duration unknown and allow_live_fallback = false"@,
    {
        "media duration unknown and allow_live_fallback = false"
    }
}

/// What is known when a manifest is made, apart from its chunk map.
pub struct Findings {
    pub probe: ProbeResult,
    /// The duration that counts, in microseconds.
    pub duration_us: Option<i64>,
    pub media_hash: Option<[u8; 32]>,
    pub session_id: [u8; 32],
    pub stream_start_utc: u64,
}

/// `n`, or 0 where there is none.
pub open spec fn or_zero(n: Option<u32>) -> u32 {
    match n {
        Some(k) => k,
        None => 0,
    }
}

/// `m` is the VOD manifest of a source of the given duration.
pub open spec fn is_vod(
    m: VodManifest,
    f: Findings,
    duration_us: i64,
    keyframes: Seq<i64>,
    config: HostConfig,
) -> bool {
    &&& m.session_id == f.session_id
    &&& m.host_fingerprint@ == Seq::<char>::empty()
    &&& m.media_hash@ == (match f.media_hash {
        Some(h) => h@,
        None => Seq::new(32, |i: int| 0u8),
    })
    &&& m.duration_us == duration_us
    &&& m.chunk_duration_ms == config.stream.chunk_duration_ms
    &&& m.total_chunks == m.chunk_map@.len()
    &&& is_chunk_map(m.chunk_map@, duration_us as int, keyframes, config.stream)
    &&& m.video_codec == f.probe.video.codec
    &&& m.resolution == (f.probe.video.width, f.probe.video.height)
    &&& m.framerate == f.probe.video.framerate
    &&& m.avg_bitrate_kbps == or_zero(f.probe.avg_bitrate_kbps)
    &&& m.peak_bitrate_kbps == or_zero(f.probe.video.avg_bitrate_kbps)
    &&& m.audio_tracks@ == f.probe.audio_tracks@
    &&& m.stream_start_utc == f.stream_start_utc
    &&& m.sync_beacon_interval_ms == config.sync.sync_beacon_interval_ms
    &&& m.min_buffer_chunks == config.buffer.min_buffer_chunks
    &&& m.max_buffer_chunks == config.buffer.max_buffer_chunks
    &&& m.keyframe_snap == config.stream.keyframe_snap
    &&& m.max_snap_delta_ms == config.stream.max_snap_delta_ms
    &&& !m.byte_map_available
}

/// `m` is the live manifest of a source.
pub open spec fn is_live(m: LiveManifest, f: Findings, config: HostConfig) -> bool {
    &&& m.session_id == f.session_id
    &&& m.host_fingerprint@ == Seq::<char>::empty()
    &&& m.media_hash == f.media_hash
    &&& m.chunk_duration_ms == config.stream.chunk_duration_ms
    &&& m.video_codec == f.probe.video.codec
    &&& m.resolution == Some((f.probe.video.width, f.probe.video.height))
    &&& m.framerate == Some(f.probe.video.framerate)
    &&& m.estimated_bitrate_kbps == f.probe.avg_bitrate_kbps
    &&& m.audio_tracks@ == f.probe.audio_tracks@
    &&& m.stream_start_utc == f.stream_start_utc
    &&& m.sync_beacon_interval_ms == config.sync.sync_beacon_interval_ms
    &&& m.min_buffer_chunks == config.buffer.min_buffer_chunks
}

/// What becomes of the findings: a VOD manifest where the duration is known, else a live one where
/// the configuration allows it, else an error.
pub open spec fn concludes(
    r: Result<SessionManifest, ManifestError>,
    f: Findings,
    keyframes: Seq<i64>,
    config: HostConfig,
) -> bool {
    match f.duration_us {
        Some(duration_us) => r matches Ok(SessionManifest::Vod(m)) && is_vod(
            m,
            f,
            duration_us,
            keyframes,
            config,
        ),
        None => if config.media.allow_live_fallback {
            r matches Ok(SessionManifest::Live(m)) && is_live(m, f, config)
        } else {
            r == Err::<SessionManifest, ManifestError>(ManifestError::UnknownDuration)
        },
    }
}

/// The manifest for a duration that is known or not.
fn conclude(
    probe: &ProbeResult,
    duration_us: Option<i64>,
    keyframes: &Vec<i64>,
    media_hash: Option<[u8; 32]>,
    config: &HostConfig,
    session_id: [u8; 32],
    stream_start_utc: u64,
) -> (r: Result<SessionManifest, ManifestError>)
    requires
        duration_us matches Some(us) ==> us > 0 ==> config.stream.chunk_duration_ms > 0,
    ensures
        concludes(
            r,
            (Findings { probe: *probe, duration_us, media_hash, session_id, stream_start_utc }),
            keyframes@,
            *config,
        ),
{
    if let Some(duration_us) = duration_us {
        let chunk_map = build_chunk_map(duration_us, keyframes, &config.stream);
        let total_chunks = chunk_map.len() as u64;
        let identity: [u8; 32] = match media_hash {
            Some(h) => h,
            None => [0u8; 32],
        };
        assert(media_hash is None ==> identity@ =~= Seq::new(32, |i: int| 0u8));
        Ok(
            SessionManifest::Vod(
                VodManifest {
                    session_id,
                    host_fingerprint: String::new(),
                    media_hash: identity,
                    duration_us,
                    chunk_duration_ms: config.stream.chunk_duration_ms,
                    total_chunks,
                    chunk_map,
                    video_codec: probe.video.codec.clone(),
                    resolution: (probe.video.width, probe.video.height),
                    framerate: probe.video.framerate,
                    avg_bitrate_kbps: match probe.avg_bitrate_kbps {
                        Some(k) => k,
                        None => 0,
                    },
                    peak_bitrate_kbps: match probe.video.avg_bitrate_kbps {
                        Some(k) => k,
                        None => 0,
                    },
                    audio_tracks: copy_tracks(&probe.audio_tracks),
                    stream_start_utc,
                    sync_beacon_interval_ms: config.sync.sync_beacon_interval_ms,
                    min_buffer_chunks: config.buffer.min_buffer_chunks,
                    max_buffer_chunks: config.buffer.max_buffer_chunks,
                    keyframe_snap: config.stream.keyframe_snap,
                    max_snap_delta_ms: config.stream.max_snap_delta_ms,
                    byte_map_available: false,
                },
            ),
        )
    } else if config.media.allow_live_fallback {
        Ok(
            SessionManifest::Live(
                LiveManifest {
                    session_id,
                    host_fingerprint: String::new(),
                    media_hash,
                    chunk_duration_ms: config.stream.chunk_duration_ms,
                    video_codec: probe.video.codec.clone(),
                    resolution: Some((probe.video.width, probe.video.height)),
                    framerate: Some(probe.video.framerate),
                    estimated_bitrate_kbps: probe.avg_bitrate_kbps,
                    audio_tracks: copy_tracks(&probe.audio_tracks),
                    stream_start_utc,
                    sync_beacon_interval_ms: config.sync.sync_beacon_interval_ms,
                    min_buffer_chunks: config.buffer.min_buffer_chunks,
                },
            ),
        )
    } else {
        Err(ManifestError::UnknownDuration)
    }
}

/// The manifest that follows from probe data and keyframes. Without a hash the disc has no
/// identity. The session fills in the host's fingerprint.
pub fn assemble_manifest(
    probe: &ProbeResult,
    keyframes: &Vec<i64>,
    media_hash: Option<[u8; 32]>,
    config: &HostConfig,
    session_id: [u8; 32],
    stream_start_utc: u64,
) -> (r: Result<SessionManifest, ManifestError>)
    requires
        probe.duration_us matches Some(us) ==> us > 0 ==> config.stream.chunk_duration_ms > 0,
    ensures
        concludes(
            r,
            (Findings {
                probe: *probe,
                duration_us: probe.duration_us,
                media_hash,
                session_id,
                stream_start_utc,
            }),
            keyframes@,
            *config,
        ),
{
    conclude(
        probe,
        probe.duration_us,
        keyframes,
        media_hash,
        config,
        session_id,
        stream_start_utc,
    )
}

/// The duration that counts: that of the probe, for a source that declares to have a known one.
pub open spec fn resolved_duration(caps: SourceCapabilities, probe: ProbeResult) -> Option<i64> {
    if caps.has_known_duration {
        probe.duration_us
    } else {
        None
    }
}

/// The steps that an analysis takes after the probe.
#[derive(Debug, Clone, Copy, PartialEq, Eq, Structural)]
pub struct AnalysisPlan {
    /// Hash this many bytes of the source.
    pub hash_bytes: Option<u64>,
    /// Scan for keyframes on a timeline of this duration.
    pub scan_duration_us: Option<i64>,
}

/// The steps that a source calls for once it is probed.
///
/// `reports_wanted` says whether anyone takes the progress of a scan; without, keyframes are not
/// scanned at all.
pub fn plan_analysis(
    caps: SourceCapabilities,
    config: &HostConfig,
    probe: &ProbeResult,
    reports_wanted: bool,
) -> (r: AnalysisPlan)
    ensures
        r.hash_bytes == (if caps.has_stable_identity {
            Some(config.media.media_hash_bytes)
        } else {
            None
        }),
        r.scan_duration_us == (if reports_wanted && caps.supports_keyframe_scan
            && config.stream.keyframe_snap {
            resolved_duration(caps, *probe)
        } else {
            None
        }),
{
    AnalysisPlan {
        hash_bytes: if caps.has_stable_identity {
            Some(config.media.media_hash_bytes)
        } else {
            None
        },
        scan_duration_us: if reports_wanted && caps.supports_keyframe_scan
            && config.stream.keyframe_snap && caps.has_known_duration {
            probe.duration_us
        } else {
            None
        },
    }
}

/// The manifest of an analyzed source.
///
/// `media_hash` is `None` where the hash was not planned or failed, `keyframes` where the scan was
/// not planned or failed; the analysis goes on without them.
pub fn analyze(
    caps: SourceCapabilities,
    probe: &ProbeResult,
    media_hash: Option<[u8; 32]>,
    keyframes: Option<Vec<i64>>,
    config: &HostConfig,
    session_id: [u8; 32],
    stream_start_utc: u64,
) -> (r: Result<SessionManifest, ManifestError>)
    requires
        resolved_duration(caps, *probe) matches Some(us) ==> us > 0
            ==> config.stream.chunk_duration_ms > 0,
    ensures
        concludes(
            r,
            (Findings {
                probe: *probe,
                duration_us: resolved_duration(caps, *probe),
                media_hash,
                session_id,
                stream_start_utc,
            }),
            match keyframes {
                Some(k) => k@,
                None => Seq::empty(),
            },
            *config,
        ),
{
    let duration_us = if caps.has_known_duration {
        probe.duration_us
    } else {
        None
    };
    let found: Vec<i64> = match keyframes {
        Some(k) => k,
        None => Vec::new(),
    };
    conclude(probe, duration_us, &found, media_hash, config, session_id, stream_start_utc)
}

// ── Laws ──────────────────────────────────────────────────────────────────────

/// A source that declares no known duration never gets a VOD manifest, whatever the probe found.
pub proof fn law_undeclared_duration_is_never_vod(
    r: Result<SessionManifest, ManifestError>,
    caps: SourceCapabilities,
    f: Findings,
    keyframes: Seq<i64>,
    config: HostConfig,
)
    requires
        !caps.has_known_duration,
        f.duration_us == resolved_duration(caps, f.probe),
        concludes(r, f, keyframes, config),
    ensures
        !(r matches Ok(SessionManifest::Vod(_))),
        config.media.allow_live_fallback ==> r matches Ok(SessionManifest::Live(_)),
{
}

/// An analysis fails in one case only: no duration counts, and a live session is not allowed.
pub proof fn law_analysis_fails_only_without_duration(
    r: Result<SessionManifest, ManifestError>,
    f: Findings,
    keyframes: Seq<i64>,
    config: HostConfig,
)
    requires
        concludes(r, f, keyframes, config),
    ensures
        r is Err <==> f.duration_us is None && !config.media.allow_live_fallback,
{
}

/// A VOD manifest agrees with its own chunk map: one entry per chunk and in order, as many as the
/// duration takes, and byte positions exactly where it says that it has them.
pub proof fn law_manifest_agrees_with_map(
    m: VodManifest,
    f: Findings,
    duration_us: i64,
    keyframes: Seq<i64>,
    config: HostConfig,
    i: int,
)
    requires
        is_vod(m, f, duration_us, keyframes, config),
        0 <= i < m.chunk_map@.len(),
    ensures
        m.total_chunks == m.chunk_map@.len(),
        m.total_chunks == chunk_count(m.duration_us as int, m.chunk_duration_ms * 1000),
        m.chunk_map@[i].sequence == i,
        m.byte_map_available == (m.chunk_map@[i].byte_offset is Some),
        m.byte_map_available == (m.chunk_map@[i].byte_length is Some),
        m.chunk_map@[i].keyframe_snapped ==> m.keyframe_snap,
{
    assert(boundary_at(m.chunk_map@[i], i, keyframes, config.stream));
}

/// A source whose duration counts gets a VOD manifest with the chunk map that `build_chunk_map` gives
/// for it, field for field, and without any byte positions.
pub proof fn law_manifest_holds_the_chunk_map(
    r: Result<SessionManifest, ManifestError>,
    f: Findings,
    duration_us: i64,
    keyframes: Seq<i64>,
    config: HostConfig,
    map: Seq<ChunkBoundary>,
)
    requires
        f.duration_us == Some(duration_us),
        concludes(r, f, keyframes, config),
        is_chunk_map(map, duration_us as int, keyframes, config.stream),
    ensures
        r matches Ok(SessionManifest::Vod(m)) && {
            &&& m.duration_us == duration_us
            &&& m.chunk_map@ == map
            &&& m.total_chunks == map.len()
            &&& !m.byte_map_available
            &&& forall|i: int|
                0 <= i < map.len() ==> (#[trigger] m.chunk_map@[i]).byte_offset is None
                    && m.chunk_map@[i].byte_length is None
        },
{
    let m = r->Ok_0->Vod_0;
    law_chunk_map_is_determined(
        m.chunk_map@,
        map,
        duration_us as int,
        keyframes,
        keyframes,
        config.stream,
    );
    assert forall|i: int| 0 <= i < map.len() implies (
    #[trigger] m.chunk_map@[i]).byte_offset is None && m.chunk_map@[i].byte_length is None by {
        assert(boundary_at(m.chunk_map@[i], i, keyframes, config.stream));
    }
}

/// Two VOD manifests are equal field for field.
pub open spec fn same_vod(a: VodManifest, b: VodManifest) -> bool {
    &&& a.session_id == b.session_id
    &&& a.host_fingerprint@ == b.host_fingerprint@
    &&& a.media_hash@ == b.media_hash@
    &&& a.duration_us == b.duration_us
    &&& a.chunk_duration_ms == b.chunk_duration_ms
    &&& a.total_chunks == b.total_chunks
    &&& a.chunk_map@ == b.chunk_map@
    &&& a.video_codec@ == b.video_codec@
    &&& a.resolution == b.resolution
    &&& a.framerate == b.framerate
    &&& a.avg_bitrate_kbps == b.avg_bitrate_kbps
    &&& a.peak_bitrate_kbps == b.peak_bitrate_kbps
    &&& a.audio_tracks@ == b.audio_tracks@
    &&& a.stream_start_utc == b.stream_start_utc
    &&& a.sync_beacon_interval_ms == b.sync_beacon_interval_ms
    &&& a.min_buffer_chunks == b.min_buffer_chunks
    &&& a.max_buffer_chunks == b.max_buffer_chunks
    &&& a.keyframe_snap == b.keyframe_snap
    &&& a.max_snap_delta_ms == b.max_snap_delta_ms
    &&& a.byte_map_available == b.byte_map_available
}

/// Two live manifests are equal field for field.
pub open spec fn same_live(a: LiveManifest, b: LiveManifest) -> bool {
    &&& a.session_id == b.session_id
    &&& a.host_fingerprint@ == b.host_fingerprint@
    &&& a.media_hash == b.media_hash
    &&& a.chunk_duration_ms == b.chunk_duration_ms
    &&& a.video_codec@ == b.video_codec@
    &&& a.resolution == b.resolution
    &&& a.framerate == b.framerate
    &&& a.estimated_bitrate_kbps == b.estimated_bitrate_kbps
    &&& a.audio_tracks@ == b.audio_tracks@
    &&& a.stream_start_utc == b.stream_start_utc
    &&& a.sync_beacon_interval_ms == b.sync_beacon_interval_ms
    &&& a.min_buffer_chunks == b.min_buffer_chunks
}

/// Two outcomes are equal: both the same error, or manifests that are equal field for field.
pub open spec fn same_outcome(
    a: Result<SessionManifest, ManifestError>,
    b: Result<SessionManifest, ManifestError>,
) -> bool {
    match (a, b) {
        (Ok(SessionManifest::Vod(a)), Ok(SessionManifest::Vod(b))) => same_vod(a, b),
        (Ok(SessionManifest::Live(a)), Ok(SessionManifest::Live(b))) => same_live(a, b),
        (Err(a), Err(b)) => a == b,
        _ => false,
    }
}

/// The outcome is a function of the findings, the keyframes and the configuration. Keyframes have no
/// influence on a live manifest, nor with snapping off.
pub proof fn law_outcome_is_determined(
    a: Result<SessionManifest, ManifestError>,
    b: Result<SessionManifest, ManifestError>,
    f: Findings,
    keyframes_a: Seq<i64>,
    keyframes_b: Seq<i64>,
    config: HostConfig,
)
    requires
        concludes(a, f, keyframes_a, config),
        concludes(b, f, keyframes_b, config),
        keyframes_a == keyframes_b || f.duration_us is None || !config.stream.keyframe_snap,
    ensures
        same_outcome(a, b),
{
    if let Some(duration_us) = f.duration_us {
        law_chunk_map_is_determined(
            a->Ok_0->Vod_0.chunk_map@,
            b->Ok_0->Vod_0.chunk_map@,
            duration_us as int,
            keyframes_a,
            keyframes_b,
            config.stream,
        );
    }
}

/// A VOD manifest says what was found and configured: each field is the finding or the setting that
/// it is named after, and a bitrate that is not known counts as zero.
pub proof fn law_vod_manifest_says_what_was_found(
    r: Result<SessionManifest, ManifestError>,
    f: Findings,
    keyframes: Seq<i64>,
    config: HostConfig,
)
    requires
        concludes(r, f, keyframes, config),
        f.duration_us is Some,
    ensures
        r matches Ok(SessionManifest::Vod(m)) && {
            &&& m.session_id == f.session_id
            &&& m.host_fingerprint@.len() == 0
            &&& f.media_hash matches Some(h) ==> m.media_hash@ == h@
            &&& f.media_hash is None ==> forall|i: int|
                0 <= i < 32 ==> #[trigger] m.media_hash@[i] == 0
            &&& Some(m.duration_us) == f.duration_us
            &&& m.video_codec@ == f.probe.video.codec@
            &&& m.resolution.0 == f.probe.video.width
            &&& m.resolution.1 == f.probe.video.height
            &&& m.framerate == f.probe.video.framerate
            &&& f.probe.avg_bitrate_kbps matches Some(k) ==> m.avg_bitrate_kbps == k
            &&& f.probe.avg_bitrate_kbps is None ==> m.avg_bitrate_kbps == 0
            &&& f.probe.video.avg_bitrate_kbps matches Some(k) ==> m.peak_bitrate_kbps == k
            &&& f.probe.video.avg_bitrate_kbps is None ==> m.peak_bitrate_kbps == 0
            &&& m.audio_tracks@ == f.probe.audio_tracks@
            &&& m.stream_start_utc == f.stream_start_utc
            &&& m.chunk_duration_ms == config.stream.chunk_duration_ms
            &&& m.sync_beacon_interval_ms == config.sync.sync_beacon_interval_ms
            &&& m.min_buffer_chunks == config.buffer.min_buffer_chunks
            &&& m.max_buffer_chunks == config.buffer.max_buffer_chunks
            &&& m.keyframe_snap == config.stream.keyframe_snap
            &&& m.max_snap_delta_ms == config.stream.max_snap_delta_ms
            &&& m.total_chunks == m.chunk_map@.len()
            &&& is_chunk_map(m.chunk_map@, m.duration_us as int, keyframes, config.stream)
            &&& !m.byte_map_available
        },
{
}

/// A live manifest says what was found and configured, and nothing is made up for what is not known.
pub proof fn law_live_manifest_says_what_was_found(
    r: Result<SessionManifest, ManifestError>,
    f: Findings,
    keyframes: Seq<i64>,
    config: HostConfig,
)
    requires
        concludes(r, f, keyframes, config),
        f.duration_us is None,
    ensures
        config.media.allow_live_fallback <==> r is Ok,
        config.media.allow_live_fallback ==> (r matches Ok(SessionManifest::Live(m)) && {
            &&& m.session_id == f.session_id
            &&& m.host_fingerprint@.len() == 0
            &&& m.media_hash == f.media_hash
            &&& m.chunk_duration_ms == config.stream.chunk_duration_ms
            &&& m.video_codec@ == f.probe.video.codec@
            &&& m.resolution == Some((f.probe.video.width, f.probe.video.height))
            &&& m.framerate == Some(f.probe.video.framerate)
            &&& m.estimated_bitrate_kbps == f.probe.avg_bitrate_kbps
            &&& m.audio_tracks@ == f.probe.audio_tracks@
            &&& m.stream_start_utc == f.stream_start_utc
            &&& m.sync_beacon_interval_ms == config.sync.sync_beacon_interval_ms
            &&& m.min_buffer_chunks == config.buffer.min_buffer_chunks
        }),
{
}

/// The duration that the probe found counts exactly for a source that declares to have a known one.
pub proof fn law_declared_duration_counts(caps: SourceCapabilities, probe: ProbeResult)
    ensures
        caps.has_known_duration ==> resolved_duration(caps, probe) == probe.duration_us,
        !caps.has_known_duration ==> resolved_duration(caps, probe) is None,
{
}

} // verus!

use watch_party::disc::analyzer::{
    analyze, assemble_manifest, plan_analysis, AnalysisPlan, ManifestError,
};
use watch_party::disc::chunk_map::build_chunk_map;
use watch_party::disc::keyframes::{
    parse_packet_line, scan_args, scan_fraction, Fraction, KeyframeScan, ScanProgress,
};
use watch_party::disc::media_hash::{hash_args, hex_prefix, MediaHasher, READ_BYTES};
use watch_party::disc::optical::{DiscPath, OpticalDisc};
use watch_party::disc::probe::{
    parse_output, parse_rate, probe_args, FfprobeFormat, FfprobeOutput, FfprobeStream, FfprobeTags,
    ProbeError, ProbeResult, VideoStreamInfo,
};
use watch_party::disc::source::{MediaSource, SourceCapabilities};
use watch_party::protocol::config::HostConfig;
use watch_party::protocol::manifest::{AudioTrack, FrameRate, SessionManifest};

fn some(s: &str) -> Option<String> {
    Some(s.to_string())
}

fn stream(kind: &str) -> FfprobeStream {
    FfprobeStream {
        codec_type: some(kind),
        codec_name: None,
        width: None,
        height: None,
        r_frame_rate: None,
        avg_frame_rate: None,
        bit_rate: None,
        channels: None,
        tags: None,
    }
}

fn video() -> FfprobeStream {
    FfprobeStream {
        codec_name: some("h264"),
        width: Some(1920),
        height: Some(1080),
        avg_frame_rate: some("24000/1001"),
        r_frame_rate: some("30/1"),
        bit_rate: some("4500999"),
        ..stream("video")
    }
}

fn format(duration: &str) -> FfprobeFormat {
    FfprobeFormat {
        duration: some(duration),
        bit_rate: some("5000000"),
        format_name: some("matroska,webm"),
    }
}

fn probe(duration_us: Option<i64>) -> ProbeResult {
    ProbeResult {
        video: VideoStreamInfo {
            codec: "h264".to_string(),
            width: 1920,
            height: 1080,
            framerate: FrameRate { num: 25_000_000, den: 1_000_000 },
            avg_bitrate_kbps: Some(4500),
        },
        audio_tracks: vec![AudioTrack {
            index: 0,
            codec: "ac3".to_string(),
            language: some("eng"),
            channels: 6,
        }],
        duration_us,
        format_name: "dvd".to_string(),
        avg_bitrate_kbps: None,
    }
}

fn disc() -> SourceCapabilities {
    OpticalDisc::new(DiscPath { text: some("/dev/sr0") }).capabilities()
}

// ── Sources ───────────────────────────────────────────────────────────────────

#[test]
fn disc_shows_label_or_path() {
    let disc = OpticalDisc::new(DiscPath { text: some("/dev/sr0") });
    assert_eq!(disc.display_name(), "/dev/sr0");
    assert_eq!(disc.input_spec(), "/dev/sr0");
    assert!(disc.input_flags().is_empty());
    let disc = disc.with_label("BLADE_RUNNER_2049".to_string());
    assert_eq!(disc.display_name(), "BLADE_RUNNER_2049");
    assert_eq!(disc.input_spec(), "/dev/sr0");
    let odd = OpticalDisc::new(DiscPath { text: None });
    assert_eq!((odd.display_name(), odd.input_spec()), ("optical disc", ""));
}

#[test]
fn disc_offers_everything() {
    let caps = disc();
    assert!(caps.has_stable_identity && caps.has_known_duration);
    assert!(caps.supports_keyframe_scan && caps.supports_seeking);
}

// ── Probe ─────────────────────────────────────────────────────────────────────

#[test]
fn probe_arguments() {
    let args = probe_args(&["-f", "v4l2"], "in");
    let expected =
        ["-v", "quiet", "-print_format", "json", "-show_streams", "-show_format", "-f", "v4l2", "in"];
    assert_eq!(args, expected);
}

#[test]
fn report_is_read() {
    let first = FfprobeStream {
        codec_name: some("ac3"),
        channels: Some(6),
        tags: Some(FfprobeTags { language: some("eng") }),
        ..stream("audio")
    };
    let raw = FfprobeOutput {
        streams: vec![first, video(), stream("subtitle"), stream("audio")],
        format: format("7265.500000"),
    };
    let probe = parse_output(&raw).unwrap();
    assert_eq!(probe.video.codec, "h264");
    assert_eq!((probe.video.width, probe.video.height), (1920, 1080));
    let rate = probe.video.framerate;
    assert_eq!((rate.num, rate.den), (24_000_000_000, 1_001_000_000));
    assert_eq!(probe.video.avg_bitrate_kbps, Some(4500));
    assert_eq!(probe.duration_us, Some(7_265_500_000));
    assert_eq!(probe.avg_bitrate_kbps, Some(5000));
    assert_eq!(probe.format_name, "matroska,webm");
    assert_eq!(probe.audio_tracks.len(), 2);
    assert_eq!(probe.audio_tracks[0].codec, "ac3");
    assert_eq!(probe.audio_tracks[0].language.as_deref(), Some("eng"));
    assert_eq!(probe.audio_tracks[0].channels, 6);
    assert_eq!(probe.audio_tracks[1].index, 1);
    assert_eq!(probe.audio_tracks[1].codec, "unknown");
    assert_eq!(probe.audio_tracks[1].language, None);
    assert_eq!(probe.audio_tracks[1].channels, 2);
}

#[test]
fn report_without_optional_fields() {
    let bare = FfprobeStream {
        avg_frame_rate: None,
        r_frame_rate: None,
        bit_rate: some("N/A"),
        ..video()
    };
    let raw = FfprobeOutput {
        streams: vec![bare],
        format: FfprobeFormat { duration: some("N/A"), bit_rate: None, format_name: None },
    };
    let probe = parse_output(&raw).unwrap();
    assert_eq!(probe.video.framerate.num, 0);
    assert_eq!(probe.video.avg_bitrate_kbps, None);
    assert_eq!(probe.duration_us, None);
    assert_eq!(probe.avg_bitrate_kbps, None);
    assert_eq!(probe.format_name, "unknown");
}

#[test]
fn durations_have_to_be_positive() {
    for text in ["0", "0.000000", "-3.5", "nan"] {
        let raw = FfprobeOutput { streams: vec![video()], format: format(text) };
        assert_eq!(parse_output(&raw).unwrap().duration_us, None);
    }
}

#[test]
fn shortest_durations_are_known() {
    for text in ["1e-7", "0.0000001", "+4.9e-7"] {
        let raw = FfprobeOutput { streams: vec![video()], format: format(text) };
        assert_eq!(parse_output(&raw).unwrap().duration_us, Some(1));
    }
    for text in ["-1e-7", "0e7", "0.000e-9"] {
        let raw = FfprobeOutput { streams: vec![video()], format: format(text) };
        assert_eq!(parse_output(&raw).unwrap().duration_us, None);
    }
}

#[test]
fn second_rate_is_the_fallback() {
    let raw = FfprobeOutput {
        streams: vec![FfprobeStream { avg_frame_rate: None, ..video() }],
        format: format("1"),
    };
    let rate = parse_output(&raw).unwrap().video.framerate;
    assert_eq!((rate.num, rate.den), (30_000_000, 1_000_000));
}

#[test]
fn reports_that_are_of_no_use() {
    let error = |streams: Vec<FfprobeStream>| {
        parse_output(&FfprobeOutput { streams, format: format("1") }).unwrap_err()
    };
    assert_eq!(error(vec![stream("audio")]), ProbeError::NoVideoStream);
    assert_eq!(error(vec![FfprobeStream { codec_name: None, ..video() }]), ProbeError::NoCodecName);
    assert_eq!(error(vec![FfprobeStream { width: None, ..video() }]), ProbeError::NoWidth);
    assert_eq!(error(vec![FfprobeStream { height: None, ..video() }]), ProbeError::NoHeight);
    assert_eq!(ProbeError::NoVideoStream.message(), "no video stream found in media");
    assert_eq!(ProbeError::NoCodecName.message(), "video stream has no codec_name");
    assert_eq!(ProbeError::NoWidth.message(), "video stream has no width");
    assert_eq!(ProbeError::NoHeight.message(), "video stream has no height");
}

#[test]
fn rates() {
    let parts = |s: &str| {
        let rate = parse_rate(s);
        (rate.num, rate.den)
    };
    assert_eq!(parts("24000/1001"), (24_000_000_000, 1_001_000_000));
    assert_eq!(parts("30/1"), (30_000_000, 1_000_000));
    assert_eq!(parts("0/0").0, 0);
    assert_eq!(parts("25"), (25_000_000, 1_000_000));
    assert_eq!(parts("x/2"), (0, 2_000_000));
    assert_eq!(parts("50/x"), (50_000_000, 1_000_000));
    assert_eq!(parts("1/2/3"), (1_000_000, 1_000_000));
}

// ── Keyframes ─────────────────────────────────────────────────────────────────

#[test]
fn scan_arguments() {
    let expected = [
        "-v", "quiet", "-select_streams", "v:0", "-show_entries", "packet=pts_time,flags", "-of",
        "csv=p=0", "disc.iso",
    ];
    assert_eq!(scan_args(&[], "disc.iso"), expected);
}

#[test]
fn packet_lines() {
    assert_eq!(parse_packet_line("0.000000,K__"), Some(0));
    assert_eq!(parse_packet_line("2.300001,K_"), Some(2_300_001));
    assert_eq!(parse_packet_line("0.041708,___"), None);
    assert_eq!(parse_packet_line("N/A,K__"), None);
    assert_eq!(parse_packet_line("1.5"), None);
    assert_eq!(parse_packet_line(""), None);
    assert_eq!(parse_packet_line("1.5,"), None);
    assert_eq!(parse_packet_line("-0.5,K,extra"), Some(-500_000));
}

#[test]
fn scan_reports_and_collects() {
    let mut scan = KeyframeScan::new(1_000_000_000);
    for i in 1..=499 {
        assert_eq!(scan.feed(&format!("{i}.000000,K__")), None);
        assert_eq!(scan.feed(&format!("{i}.500000,___")), None);
    }
    let report = scan.feed("500.000000,K__");
    let fraction = Fraction { part: 500_000_000, whole: 1_000_000_000 };
    assert_eq!(report, Some(ScanProgress { keyframes_found: 500, fraction }));
    assert_eq!(scan.feed("not a line"), None);
    let (keyframes, last) = scan.finish();
    assert_eq!(keyframes.len(), 500);
    assert_eq!(keyframes[1], 2_000_000);
    assert_eq!(last.keyframes_found, 500);
    assert_eq!(last.fraction, Fraction { part: 1, whole: 1 });
}

#[test]
fn no_progress_without_duration() {
    let mut scan = KeyframeScan::new(0);
    let mut reports = vec![];
    for i in 1..=1_100 {
        reports.extend(scan.feed(&format!("{i}.000000,K__")));
    }
    reports.push(scan.finish().1);
    let found: Vec<usize> = reports.iter().map(|r| r.keyframes_found).collect();
    assert_eq!(found, [500, 1_000, 1_100]);
    assert!(reports.iter().all(|r| r.fraction == Fraction { part: 0, whole: 1 }));
}

#[test]
fn scan_cut_short_is_a_prefix() {
    let lines = ["0.0,K__", "1.0,___", "2.0,K__", "3.0,K__"];
    let mut whole = KeyframeScan::new(0);
    let mut cut = KeyframeScan::new(0);
    for (i, line) in lines.iter().enumerate() {
        whole.feed(line);
        if i < 3 {
            cut.feed(line);
        }
    }
    assert_eq!(whole.finish().0, vec![0, 2_000_000, 3_000_000]);
    assert_eq!(cut.finish().0, vec![0, 2_000_000]);
}

#[test]
fn fractions_stay_within_the_whole() {
    assert_eq!(scan_fraction(5, 10), Fraction { part: 5, whole: 10 });
    assert_eq!(scan_fraction(15, 10), Fraction { part: 1, whole: 1 });
    assert_eq!(scan_fraction(-5, 10), Fraction { part: 0, whole: 1 });
    assert_eq!(scan_fraction(5, 0), Fraction { part: 0, whole: 1 });
}

// ── Identity ──────────────────────────────────────────────────────────────────

#[test]
fn hash_arguments() {
    let expected = ["-x", "-i", "in", "-c", "copy", "-map", "0", "-f", "matroska", "pipe:1"];
    assert_eq!(hash_args(&["-x"], "in"), expected);
}

#[test]
fn hash_has_the_known_value() {
    let mut hasher = MediaHasher::new(3);
    hasher.feed(b"ab");
    hasher.feed(b"cdef");
    let hex: String = hasher.finish().iter().map(|b| format!("{b:02x}")).collect();
    assert_eq!(hex, "6437b3ac38465133ffb63b75273a8db548c558465d79db03fd359c6cd5bd9d85");
}

#[test]
fn hash_does_not_depend_on_the_parts() {
    let stream: Vec<u8> = (0..200_000u32).map(|i| (i % 251) as u8).collect();
    let mut hasher = MediaHasher::new(150_000);
    for part in stream.chunks(7_001) {
        hasher.feed(part);
    }
    assert_eq!(hasher.wanted(), 0);
    assert_eq!(hasher.finish(), *blake3::hash(&stream[..150_000]).as_bytes());
}

#[test]
fn short_stream_is_hashed_as_it_is() {
    let mut hasher = MediaHasher::new(1_000_000);
    hasher.feed(b"short");
    assert_eq!(hasher.finish(), *blake3::hash(b"short").as_bytes());
}

#[test]
fn reads_are_bounded() {
    let mut hasher = MediaHasher::new(READ_BYTES as u64 + 10);
    assert_eq!(hasher.wanted(), READ_BYTES);
    hasher.feed(&vec![0; READ_BYTES]);
    assert_eq!(hasher.wanted(), 10);
}

#[test]
fn prefix_is_four_bytes() {
    let mut hash = [0u8; 32];
    hash[..5].copy_from_slice(&[0x00, 0x0f, 0xa0, 0xff, 0x11]);
    assert_eq!(hex_prefix(&hash), "000fa0ff");
}

// ── Manifests ─────────────────────────────────────────────────────────────────

#[test]
fn known_duration_gives_a_vod_manifest() {
    let config = HostConfig::default();
    let keyframes = vec![0, 2_300_000];
    let r = assemble_manifest(&probe(Some(5_000_000)), &keyframes, None, &config, [1; 32], 99);
    let SessionManifest::Vod(m) = r.unwrap() else { panic!("expected a VOD manifest") };
    assert_eq!(m.session_id, [1; 32]);
    assert_eq!(m.host_fingerprint, "");
    assert_eq!(m.media_hash, [0; 32]);
    assert_eq!(m.duration_us, 5_000_000);
    assert_eq!(m.chunk_duration_ms, 2000);
    assert_eq!(m.total_chunks, 3);
    assert_eq!(m.chunk_map.len(), 3);
    assert_eq!(m.chunk_map[1].pts_us, 2_300_000);
    assert_eq!(m.video_codec, "h264");
    assert_eq!(m.resolution, (1920, 1080));
    assert_eq!((m.avg_bitrate_kbps, m.peak_bitrate_kbps), (0, 4500));
    assert_eq!(m.audio_tracks.len(), 1);
    assert_eq!(m.stream_start_utc, 99);
    assert_eq!(m.sync_beacon_interval_ms, 5000);
    assert_eq!((m.min_buffer_chunks, m.max_buffer_chunks), (5, 30));
    assert!(m.keyframe_snap && m.max_snap_delta_ms == 500);
    assert!(!m.byte_map_available);
}

#[test]
fn manifest_holds_the_chunk_map() {
    let config = HostConfig::default();
    for keyframes in [vec![], vec![0, 2_300_000, 3_900_000], vec![6_100_000, 300_000, 2_200_000]] {
        let map = build_chunk_map(7_500_000, &keyframes, &config.stream);
        let made = || {
            let r = assemble_manifest(&probe(Some(7_500_000)), &keyframes, None, &config, [1; 32], 2);
            let SessionManifest::Vod(m) = r.unwrap() else { panic!("expected a VOD manifest") };
            m
        };
        assert_eq!(format!("{:?}", made().chunk_map), format!("{map:?}"));
        assert_eq!(format!("{:?}", made()), format!("{:?}", made()));
    }
}

#[test]
fn keyframes_do_not_matter_without_snapping() {
    let mut config = HostConfig::default();
    config.stream.keyframe_snap = false;
    for duration in [Some(7_500_000), None] {
        let made = |keyframes: Vec<i64>| {
            let r = assemble_manifest(&probe(duration), &keyframes, None, &config, [1; 32], 2);
            format!("{:?}", r.unwrap())
        };
        assert_eq!(made(vec![]), made(vec![2_100_000]));
    }
}

#[test]
fn hash_goes_into_the_manifest() {
    let config = HostConfig::default();
    let r = assemble_manifest(&probe(Some(1)), &vec![], Some([7; 32]), &config, [0; 32], 0);
    let SessionManifest::Vod(m) = r.unwrap() else { panic!("expected a VOD manifest") };
    assert_eq!(m.media_hash, [7; 32]);
}

#[test]
fn unknown_duration_gives_a_live_manifest() {
    let config = HostConfig::default();
    let r = assemble_manifest(&probe(None), &vec![], Some([7; 32]), &config, [2; 32], 5);
    let manifest = r.unwrap();
    assert_eq!(manifest.session_id(), &[2; 32]);
    assert_eq!(manifest.host_fingerprint(), "");
    assert_eq!(manifest.chunk_duration_ms(), 2000);
    assert_eq!(manifest.stream_start_utc(), 5);
    assert_eq!(manifest.min_buffer_chunks(), 5);
    let SessionManifest::Live(m) = manifest else { panic!("expected a live manifest") };
    assert_eq!(m.media_hash, Some([7; 32]));
    assert_eq!(m.resolution, Some((1920, 1080)));
    assert_eq!(m.framerate.unwrap().num, 25_000_000);
    assert_eq!(m.estimated_bitrate_kbps, None);
}

#[test]
fn unknown_duration_may_be_an_error() {
    let mut config = HostConfig::default();
    config.media.allow_live_fallback = false;
    let error = assemble_manifest(&probe(None), &vec![], None, &config, [0; 32], 0).unwrap_err();
    assert_eq!(error, ManifestError::UnknownDuration);
    assert_eq!(error.message(), "media duration unknown and allow_live_fallback = false");
}

#[test]
fn plans_follow_capabilities() {
    let config = HostConfig::default();
    let plan = plan_analysis(disc(), &config, &probe(Some(9)), true);
    let full = AnalysisPlan { hash_bytes: Some(10_485_760), scan_duration_us: Some(9) };
    assert_eq!(plan, full);
    let plan = plan_analysis(disc(), &config, &probe(Some(9)), false);
    assert_eq!(plan, AnalysisPlan { scan_duration_us: None, ..full });
    let live = SourceCapabilities {
        has_stable_identity: false,
        has_known_duration: false,
        supports_keyframe_scan: false,
        supports_seeking: false,
    };
    let plan = plan_analysis(live, &config, &probe(Some(9)), true);
    assert_eq!(plan, AnalysisPlan { hash_bytes: None, scan_duration_us: None });
    let mut plain = config.clone();
    plain.stream.keyframe_snap = false;
    let plan = plan_analysis(disc(), &plain, &probe(Some(9)), true);
    assert_eq!(plan, AnalysisPlan { scan_duration_us: None, ..full });
}

#[test]
fn undeclared_duration_is_never_vod() {
    let config = HostConfig::default();
    let caps = SourceCapabilities { has_known_duration: false, ..disc() };
    let r = analyze(caps, &probe(Some(5_000_000)), None, None, &config, [0; 32], 0);
    assert!(matches!(r, Ok(SessionManifest::Live(_))));
}

#[test]
fn analysis_goes_on_without_keyframes() {
    let config = HostConfig::default();
    let r = analyze(disc(), &probe(Some(5_000_000)), Some([3; 32]), None, &config, [0; 32], 0);
    let SessionManifest::Vod(m) = r.unwrap() else { panic!("expected a VOD manifest") };
    assert!(m.chunk_map.iter().all(|c| !c.keyframe_snapped));
    assert_eq!(m.media_hash, [3; 32]);
    let keyframes = Some(vec![2_100_000]);
    let r = analyze(disc(), &probe(Some(5_000_000)), None, keyframes, &config, [0; 32], 0);
    let SessionManifest::Vod(m) = r.unwrap() else { panic!("expected a VOD manifest") };
    assert!(m.chunk_map[1].keyframe_snapped);
}

#[test]
fn default_configuration() {
    let c = HostConfig::default();
    assert_eq!((c.stream.chunk_duration_ms, c.stream.max_snap_delta_ms), (2000, 500));
    assert!(c.stream.keyframe_snap && c.media.allow_live_fallback);
    assert_eq!((c.buffer.min_buffer_chunks, c.buffer.max_buffer_chunks), (5, 30));
    assert_eq!(c.pregame.manifest_ack_deadline_ms, 10_000);
    assert_eq!(c.pregame.capability_response_deadline_ms, 15_000);
    assert_eq!(c.pregame.peer_join_window_ms, 30_000);
    assert_eq!((c.sync.sync_beacon_interval_ms, c.sync.max_drift_ms), (5_000, 3_000));
    assert_eq!(c.media.media_hash_bytes, 10_485_760);
}

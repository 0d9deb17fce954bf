use watch_party::disc::keyframes::{Fraction, ScanProgress};
use watch_party::disc::optical::DiscPath;
use watch_party::disc::probe::{ProbeResult, VideoStreamInfo};
use watch_party::protocol::config::HostConfig;
use watch_party::protocol::manifest::{AudioTrack, FrameRate, SessionManifest};
use watch_party::tui::render::{
    analyzing_title, build_media_lines, error_lines, fmt_audio_tracks, fmt_count, fmt_duration,
    fmt_elapsed, fmt_gauge, fmt_kbps, fmt_rate, header_line, help_line, idle_lines, percent,
    probing_lines, ready_title, spinner, summary_line, Span, Tone,
};
use watch_party::tui::{
    finish_analysis, probe_failed, scan_wanted, App, AppUpdate, KeyAction, KeyCode, KeyEvent, Stage,
    StageEvent, TuiState,
};

fn path(s: &str) -> Option<DiscPath> {
    Some(DiscPath { text: Some(s.to_string()) })
}

fn app() -> App {
    App::new(path("/dev/sr0"), HostConfig::default())
}

fn key(c: char) -> KeyEvent {
    KeyEvent { code: KeyCode::Char(c), control: false }
}

fn probe(duration_us: Option<i64>) -> ProbeResult {
    ProbeResult {
        video: VideoStreamInfo {
            codec: "mpeg2video".to_string(),
            width: 720,
            height: 576,
            framerate: FrameRate { num: 24_000_000_000, den: 1_001_000_000 },
            avg_bitrate_kbps: None,
        },
        audio_tracks: vec![track("ac3", Some("eng"), 6), track("dts", None, 2)],
        duration_us,
        format_name: "dvd".to_string(),
        avg_bitrate_kbps: Some(5_450),
    }
}

fn track(codec: &str, language: Option<&str>, channels: u8) -> AudioTrack {
    AudioTrack {
        index: 0,
        codec: codec.to_string(),
        language: language.map(|s| s.to_string()),
        channels,
    }
}

fn manifest(duration_us: Option<i64>, keyframes: Vec<i64>) -> SessionManifest {
    match finish_analysis(probe(duration_us), &keyframes, &HostConfig::default()) {
        AppUpdate::ManifestReady(manifest, _) => manifest,
        _ => panic!("expected a manifest"),
    }
}

fn plain(line: &[Span]) -> String {
    line.iter().map(|span| span.text.as_str()).collect()
}

fn plain_lines(lines: &[Vec<Span>]) -> Vec<String> {
    lines.iter().map(|line| plain(line)).collect()
}

// ── Numbers ───────────────────────────────────────────────────────────────────

#[test]
fn durations() {
    assert_eq!(fmt_duration(0), "0m 00s");
    assert_eq!(fmt_duration(-5_000_000), "0m 00s");
    assert_eq!(fmt_duration(59_999_999), "0m 59s");
    assert_eq!(fmt_duration(3_599_000_000), "59m 59s");
    assert_eq!(fmt_duration(3_600_000_000), "1h 00m 00s");
    assert_eq!(fmt_duration(7_265_000_000), "2h 01m 05s");
    assert_eq!(fmt_duration(360_000_000_000), "100h 00m 00s");
}

#[test]
fn bitrates() {
    assert_eq!(fmt_kbps(0), "0 kbps");
    assert_eq!(fmt_kbps(999), "999 kbps");
    assert_eq!(fmt_kbps(1_000), "1.0 Mbps");
    assert_eq!(fmt_kbps(1_250), "1.2 Mbps");
    assert_eq!(fmt_kbps(1_450), "1.5 Mbps");
    assert_eq!(fmt_kbps(1_550), "1.5 Mbps");
    assert_eq!(fmt_kbps(40_000), "40.0 Mbps");
}

#[test]
fn bitrates_are_those_of_single_precision() {
    let samples = (1_000..30_000).chain((0..400).map(|i| 1_000 + i * 10_737_417));
    for kbps in samples.chain([u32::MAX, 16_777_217, 16_777_219, 33_554_435]) {
        assert_eq!(fmt_kbps(kbps), format!("{:.1} Mbps", kbps as f32 / 1000.0));
    }
}

#[test]
fn rates_are_those_of_single_precision() {
    let rate = |num: i64, den: i64| FrameRate { num: num * 1_000_000, den: den * 1_000_000 };
    assert_eq!(fmt_rate(rate(24_000, 1_001)), "23.976");
    assert_eq!(fmt_rate(rate(30_000, 1_001)), "29.970");
    assert_eq!(fmt_rate(rate(25, 1)), "25.000");
    assert_eq!(fmt_rate(rate(0, 1)), "0.000");
    assert_eq!(fmt_rate(rate(1, 0)), "0.000");
    let numbers = [1, 2, 3, 7, 16, 1_001, 12_345, 90_000, 16_777_217, 1_234_567_891, -5];
    for num in numbers {
        for den in numbers {
            let expected = format!("{:.3}", num as f32 / den as f32);
            assert_eq!(fmt_rate(rate(num, den)), expected, "{num}/{den}");
        }
    }
    let decimals = [(23_976_000, 1_000_000), (1, 1), (500_000, 7), (i64::MAX, 1), (1, i64::MAX)];
    for (num, den) in decimals {
        let expected = (num as f64 / 1e6) as f32 / (den as f64 / 1e6) as f32;
        assert_eq!(fmt_rate(FrameRate { num, den }), format!("{expected:.3}"), "{num}/{den}");
    }
}

#[test]
fn counts_are_grouped() {
    assert_eq!(fmt_count(0), "0");
    assert_eq!(fmt_count(999), "999");
    assert_eq!(fmt_count(1_000), "1,000");
    assert_eq!(fmt_count(1_234_567), "1,234,567");
    assert_eq!(fmt_count(u64::MAX), "18,446,744,073,709,551,615");
    assert_eq!(fmt_count(u64::MAX).replace(',', ""), u64::MAX.to_string());
}

#[test]
fn tracks() {
    assert_eq!(fmt_audio_tracks(&vec![]), "none");
    assert_eq!(fmt_audio_tracks(&vec![track("ac3", Some("eng"), 6)]), "ac3 6ch (eng)");
    let three = vec![track("a", None, 1), track("b", Some("de"), 2), track("c", None, 8)];
    assert_eq!(fmt_audio_tracks(&three), "a 1ch (?)  ·  b 2ch (de)  ·  c 8ch (?)");
}

#[test]
fn progress() {
    assert_eq!(percent(Fraction { part: 0, whole: 1 }), 0);
    assert_eq!(percent(Fraction { part: 1, whole: 3 }), 33);
    assert_eq!(percent(Fraction { part: 1, whole: 1 }), 100);
    assert_eq!(percent(Fraction { part: u64::MAX - 1, whole: u64::MAX }), 100);
    assert_eq!(fmt_gauge(Fraction { part: 1, whole: 2 }, 1_500), " 50%   1,500 keyframes");
    assert_eq!(fmt_gauge(Fraction { part: 1, whole: 1 }, 1_234_567), "100%  1,234,567 keyframes");
    assert_eq!(fmt_gauge(Fraction { part: 0, whole: 1 }, 0), "  0%       0 keyframes");
}

#[test]
fn progress_is_that_of_floating_point() {
    assert_eq!(percent(Fraction { part: 2_899_999_999, whole: 10_000_000_000 }), 29);
    assert_eq!(percent(Fraction { part: 53, whole: 100 }), 52);
    let shown = |part: u64, whole: u64| {
        let fraction = ((part as f64 / 1e6) / (whole as f64 / 1e6)) as f32;
        (fraction * 100.0) as u16
    };
    for whole in [1, 3, 7, 100, 1_001, 7_265_500_001, 10_000_000_000, u64::MAX / 101] {
        for step in 0..=300u64 {
            let part = (whole as u128 * step as u128 / 300) as u64;
            for part in [part, part.saturating_sub(1)] {
                assert_eq!(percent(Fraction { part, whole }), shown(part, whole), "{part}/{whole}");
            }
        }
        assert_eq!(percent(Fraction { part: whole, whole }), 100);
    }
    assert_eq!(percent(Fraction { part: 1, whole: u64::MAX }), 0);
}

#[test]
fn elapsed_time() {
    assert_eq!(fmt_elapsed(1_000, 1_999), "  Elapsed: 0:00");
    assert_eq!(fmt_elapsed(1_000, 66_000), "  Elapsed: 1:05");
    assert_eq!(fmt_elapsed(0, 7_200_000), "  Elapsed: 120:00");
    assert_eq!(fmt_elapsed(5_000, 0), "  Elapsed: 0:00");
}

// ── Lines ─────────────────────────────────────────────────────────────────────

#[test]
fn header_and_titles() {
    assert_eq!(plain(&header_line()), " watch-party ─── HOST ");
    assert_eq!(header_line()[0].tone, Tone::Title);
    assert_eq!(analyzing_title("x.iso"), " Analyzing: x.iso ");
    assert_eq!(ready_title("x.iso"), " Ready: x.iso ");
}

#[test]
fn idle_screen() {
    let lines = idle_lines(&None);
    let expected = [
        "",
        "  No disc path provided.",
        "",
        "  Run with a path:  watch-party D:\\   or   watch-party /dev/sr0",
        "                    watch-party /path/to/movie.iso",
    ];
    assert_eq!(plain_lines(&lines), expected);
    assert_eq!(lines[3][1].tone, Tone::Accent);
    let lines = idle_lines(&path("/dev/sr0"));
    let expected = ["", "  Source:  /dev/sr0", "", "  Press a to begin analysis."];
    assert_eq!(plain_lines(&lines), expected);
    assert_eq!(lines[3][1].tone, Tone::Key);
    let lines = idle_lines(&Some(DiscPath { text: None }));
    assert_eq!(plain(&lines[1]), "  Source:  ");
}

#[test]
fn spinner_turns() {
    assert_eq!((spinner(0), spinner(2), spinner(3)), ('⠋', '⠋', '⠙'));
    assert_eq!((spinner(29), spinner(30)), ('⠏', '⠋'));
    assert_eq!(plain_lines(&probing_lines(3)), ["", "  ⠙ Probing media with ffprobe…"]);
}

#[test]
fn scan_summary() {
    assert_eq!(
        plain(&summary_line(&probe(Some(7_265_000_000)))),
        "  mpeg2video  720×576  23.976fps  Duration: 2h 01m 05s"
    );
    let line = summary_line(&probe(None));
    assert_eq!(plain(&line), "  mpeg2video  720×576  23.976fps  Duration: unknown");
    assert_eq!(line[6].tone, Tone::Dim);
}

#[test]
fn manifest_screen() {
    let vod = manifest(Some(5_000_000), vec![0, 2_300_000]);
    let expected = [
        "  Video:    mpeg2video  720×576  23.976 fps",
        "  Duration: 0m 05s    Bitrate: 5.4 Mbps",
        "  Audio:    ac3 6ch (eng)  ·  dts 2ch (?)",
        "  Chunks:   3  ×  2000ms target    66% keyframe-snapped",
        "  Format:   dvd",
    ];
    let lines = plain_lines(&build_media_lines(&vod, &probe(None)));
    assert_eq!(lines, expected);
    let live = manifest(None, vec![]);
    assert_eq!(
        plain_lines(&build_media_lines(&live, &probe(None))),
        ["  Live stream (unknown duration)"]
    );
}

#[test]
fn manifest_without_snapping() {
    let SessionManifest::Vod(mut vod) = manifest(Some(5_000_000), vec![]) else {
        panic!("expected a VOD manifest")
    };
    let shown = |vod| plain(&build_media_lines(&SessionManifest::Vod(vod), &probe(None))[3]);
    assert_eq!(shown(vod.clone()), "  Chunks:   3  ×  2000ms target    0% keyframe-snapped");
    vod.keyframe_snap = false;
    assert_eq!(shown(vod), "  Chunks:   3  ×  2000ms target    time-derived boundaries");
}

#[test]
fn error_screen() {
    let lines = error_lines("Probe failed: x");
    assert_eq!(plain_lines(&lines), ["", "  Probe failed: x"]);
    assert_eq!(lines[1][0].tone, Tone::Error);
}

#[test]
fn help_shows_what_keys_do() {
    let mut app = app();
    assert_eq!(plain(&help_line(&app)), "q quit    a analyze");
    app.source_path = None;
    assert_eq!(plain(&help_line(&app)), "q quit");
    app.apply_update(AppUpdate::Probing, 0);
    assert_eq!(plain(&help_line(&app)), "q quit");
    app.apply_update(AppUpdate::ProbeComplete(probe(None)), 0);
    assert_eq!(plain(&help_line(&app)), "q quit    s skip keyframe scan");
    app.apply_update(AppUpdate::Error("x".to_string()), 0);
    assert_eq!(plain(&help_line(&app)), "q quit    a re-analyze");
}

// ── State ─────────────────────────────────────────────────────────────────────

#[test]
fn analysis_reaches_the_manifest() {
    let mut app = app();
    app.apply_update(AppUpdate::Probing, 10);
    assert!(matches!(&app.state, TuiState::Probing { source_name } if source_name == "/dev/sr0"));
    app.apply_update(AppUpdate::ProbeComplete(probe(Some(9_000_000))), 20);
    app.apply_update(AppUpdate::ScanStarted, 30);
    assert!(app.scan_cancel);
    let fraction = Fraction { part: 1, whole: 4 };
    app.apply_update(AppUpdate::ScanProgress(ScanProgress { keyframes_found: 500, fraction }), 40);
    match &app.state {
        TuiState::ScanningKeyframes { source_name, keyframes_found, fraction: shown, started_at_ms, .. } => {
            assert_eq!(source_name, "/dev/sr0");
            assert_eq!((*keyframes_found, *shown, *started_at_ms), (500, fraction, 20));
        }
        _ => panic!("expected a scan"),
    }
    let done = manifest(Some(9_000_000), vec![]);
    app.apply_update(AppUpdate::ManifestReady(done, probe(Some(9_000_000))), 50);
    assert!(!app.scan_cancel);
    match &app.state {
        TuiState::ManifestReady { source_name, manifest, probe } => {
            assert_eq!(source_name, "/dev/sr0");
            assert!(matches!(manifest, SessionManifest::Vod(_)));
            assert_eq!(probe.duration_us, Some(9_000_000));
        }
        _ => panic!("expected a manifest"),
    }
}

#[test]
fn reports_out_of_place_are_ignored() {
    let mut app = app();
    app.apply_update(AppUpdate::ProbeComplete(probe(None)), 0);
    let fraction = Fraction { part: 1, whole: 4 };
    app.apply_update(AppUpdate::ScanProgress(ScanProgress { keyframes_found: 1, fraction }), 0);
    assert!(matches!(app.state, TuiState::Idle));
}

#[test]
fn errors_end_the_analysis() {
    let mut app = app();
    app.apply_update(AppUpdate::Probing, 0);
    app.apply_update(AppUpdate::ScanStarted, 0);
    app.apply_update(AppUpdate::Error("Probe failed: x".to_string()), 0);
    assert!(matches!(&app.state, TuiState::Error { message } if message == "Probe failed: x"));
    assert!(!app.scan_cancel);
}

#[test]
fn names_of_sources() {
    for (source, name) in [(None, "disc"), (Some(DiscPath { text: None }), "disc")] {
        let mut app = App::new(source, HostConfig::default());
        app.apply_update(AppUpdate::Probing, 0);
        assert!(matches!(&app.state, TuiState::Probing { source_name } if source_name == name));
    }
}

#[test]
fn quit_keys() {
    let quits = |event: KeyEvent| {
        let mut app = app();
        assert_eq!(app.handle_key(event), KeyAction::Nothing);
        app.should_quit
    };
    assert!(quits(key('q')));
    assert!(quits(KeyEvent { code: KeyCode::Char('q'), control: true }));
    assert!(quits(KeyEvent { code: KeyCode::Esc, control: false }));
    assert!(quits(KeyEvent { code: KeyCode::Char('c'), control: true }));
    assert!(!quits(key('c')));
    assert!(!quits(key('x')));
    assert!(!quits(KeyEvent { code: KeyCode::Other, control: true }));
}

#[test]
fn analysis_starts_where_none_runs() {
    let mut app = app();
    assert!(app.start_analysis());
    assert_eq!(app.handle_key(key('a')), KeyAction::StartAnalysis);
    app.apply_update(AppUpdate::Probing, 0);
    assert_eq!(app.handle_key(key('a')), KeyAction::Nothing);
    app.apply_update(AppUpdate::ProbeComplete(probe(None)), 0);
    assert_eq!(app.handle_key(key('a')), KeyAction::Nothing);
    app.apply_update(AppUpdate::ManifestReady(manifest(None, vec![]), probe(None)), 0);
    assert_eq!(app.handle_key(key('a')), KeyAction::StartAnalysis);
    app.apply_update(AppUpdate::Error("x".to_string()), 0);
    assert_eq!(app.handle_key(key('a')), KeyAction::StartAnalysis);
    app.source_path = None;
    assert!(!app.start_analysis());
    assert_eq!(app.handle_key(key('a')), KeyAction::Nothing);
}

#[test]
fn scan_is_cancelled_once() {
    let mut app = app();
    app.apply_update(AppUpdate::Probing, 0);
    app.apply_update(AppUpdate::ScanStarted, 0);
    assert_eq!(app.handle_key(key('s')), KeyAction::Nothing);
    app.apply_update(AppUpdate::ProbeComplete(probe(None)), 0);
    assert_eq!(app.handle_key(key('s')), KeyAction::CancelScan);
    assert_eq!(app.handle_key(key('s')), KeyAction::Nothing);
    assert!(!app.skip_keyframe_scan());
}

#[test]
fn ticks_wrap() {
    let mut app = app();
    app.next_tick();
    assert_eq!(app.tick, 1);
    app.tick = usize::MAX;
    app.next_tick();
    assert_eq!(app.tick, 0);
}

// ── The analysis ──────────────────────────────────────────────────────────────

#[test]
fn scans_are_wanted_with_duration_and_snapping() {
    let mut config = HostConfig::default();
    assert_eq!(scan_wanted(&config, &probe(Some(7))), Some(7));
    assert_eq!(scan_wanted(&config, &probe(None)), None);
    config.stream.keyframe_snap = false;
    assert_eq!(scan_wanted(&config, &probe(Some(7))), None);
}

#[test]
fn last_report_of_an_analysis() {
    let mut config = HostConfig::default();
    match finish_analysis(probe(Some(4_000_000)), &vec![2_100_000], &config) {
        AppUpdate::ManifestReady(SessionManifest::Vod(m), probed) => {
            assert_eq!((m.session_id, m.media_hash, m.stream_start_utc), ([0; 32], [0; 32], 0));
            assert_eq!(m.chunk_map[1].pts_us, 2_100_000);
            assert_eq!(probed.duration_us, Some(4_000_000));
        }
        _ => panic!("expected a VOD manifest"),
    }
    config.media.allow_live_fallback = false;
    match finish_analysis(probe(None), &vec![], &config) {
        AppUpdate::Error(message) => assert_eq!(
            message,
            "Manifest error: media duration unknown and allow_live_fallback = false"
        ),
        _ => panic!("expected an error"),
    }
}

#[test]
fn failed_probe_is_reported() {
    match probe_failed("ffprobe exited with exit status: 1") {
        AppUpdate::Error(message) => {
            assert_eq!(message, "Probe failed: ffprobe exited with exit status: 1")
        }
        _ => panic!("expected an error"),
    }
}

fn begun(config: &HostConfig) -> Stage {
    let (stage, report) = Stage::New.advance(StageEvent::Go, config);
    assert!(matches!(report, Some(AppUpdate::Probing)));
    assert!(matches!(stage, Stage::Probing));
    stage
}

#[test]
fn analysis_with_a_scan() {
    let config = HostConfig::default();
    let event = StageEvent::Probed(probe(Some(5_000_000)));
    let (stage, report) = begun(&config).advance(event, &config);
    match report {
        Some(AppUpdate::ProbeComplete(p)) => {
            assert_eq!(format!("{p:?}"), format!("{:?}", probe(Some(5_000_000))));
        }
        _ => panic!("expected the probe"),
    }
    let (stage, report) = stage.advance(StageEvent::Go, &config);
    assert!(matches!(report, Some(AppUpdate::ScanStarted)));
    assert!(matches!(stage, Stage::Scanning { duration_us: 5_000_000, .. }));
    let (stage, report) = stage.advance(StageEvent::Scanned(vec![2_100_000]), &config);
    match report {
        Some(AppUpdate::ManifestReady(SessionManifest::Vod(m), _)) => {
            assert_eq!(m.chunk_map[1].pts_us, 2_100_000);
        }
        _ => panic!("expected a VOD manifest"),
    }
    assert!(matches!(stage, Stage::Finished));
    let (stage, report) = stage.advance(StageEvent::Go, &config);
    assert!(matches!(stage, Stage::Finished) && report.is_none());
}

#[test]
fn analysis_without_a_scan() {
    let config = HostConfig::default();
    let (stage, _) = begun(&config).advance(StageEvent::Probed(probe(None)), &config);
    let (stage, report) = stage.advance(StageEvent::Go, &config);
    assert!(matches!(report, Some(AppUpdate::ManifestReady(SessionManifest::Live(_), _))));
    assert!(matches!(stage, Stage::Finished));
}

#[test]
fn analysis_that_fails() {
    let mut config = HostConfig::default();
    let event = StageEvent::ProbeFailed("no such disc".to_string());
    let (stage, report) = begun(&config).advance(event, &config);
    assert!(matches!(report, Some(AppUpdate::Error(m)) if m == "Probe failed: no such disc"));
    assert!(matches!(stage, Stage::Finished));
    config.media.allow_live_fallback = false;
    let (stage, _) = begun(&config).advance(StageEvent::Probed(probe(None)), &config);
    let (stage, report) = stage.advance(StageEvent::Go, &config);
    assert!(matches!(report, Some(AppUpdate::Error(m)) if m.starts_with("Manifest error: ")));
    assert!(matches!(stage, Stage::Finished));
}

#[test]
fn analysis_ignores_what_it_does_not_wait_for() {
    let config = HostConfig::default();
    let (stage, report) = Stage::New.advance(StageEvent::Scanned(vec![]), &config);
    assert!(matches!(stage, Stage::New) && report.is_none());
    let (stage, report) = begun(&config).advance(StageEvent::Go, &config);
    assert!(matches!(stage, Stage::Probing) && report.is_none());
}

//! The host's screen: application state, what updates and keys do to it, and what it shows.
//!
//! An analysis runs in the background and reports here. The functions of this module say what
//! state follows from each report and each key; the program owns the terminal and the tasks.
pub mod render;

use vstd::prelude::*;

use crate::disc::analyzer::{assemble_manifest, concludes, Findings};
use crate::disc::chunk_map::is_chunk_map;
use crate::disc::keyframes::{Fraction, ScanProgress};
use crate::disc::optical::DiscPath;
use crate::disc::probe::{copy_probe, same_probe, ProbeResult};
use crate::protocol::config::HostConfig;
use crate::protocol::manifest::SessionManifest;

verus! {

// ── State ─────────────────────────────────────────────────────────────────────

/// What the screen shows.
pub enum TuiState {
    /// Nothing is analyzed yet.
    Idle,
    /// `ffprobe` runs on the source.
    Probing { source_name: String },
    /// The keyframe scan runs; it may be skipped.
    ScanningKeyframes {
        source_name: String,
        probe: ProbeResult,
        keyframes_found: usize,
        fraction: Fraction,
        /// When the scan began, in milliseconds of a clock that never goes back.
        started_at_ms: u64,
    },
    /// The manifest is ready to be presented to peers.
    ManifestReady { source_name: String, manifest: SessionManifest, probe: ProbeResult },
    /// The analysis failed.
    Error { message: String },
}

/// A report of the analysis.
pub enum AppUpdate {
    /// `ffprobe` is about to run.
    Probing,
    /// `ffprobe` has finished.
    ProbeComplete(ProbeResult),
    /// The keyframe scan runs and can be cancelled.
    ScanStarted,
    /// The keyframe scan has come further.
    ScanProgress(ScanProgress),
    /// The manifest is made.
    ManifestReady(SessionManifest, ProbeResult),
    /// The analysis failed.
    Error(String),
}

/// The application.
pub struct App {
    pub state: TuiState,
    /// The source named on the command line.
    pub source_path: Option<DiscPath>,
    pub config: HostConfig,
    /// Whether a keyframe scan runs that can be cancelled.
    pub scan_cancel: bool,
    pub should_quit: bool,
    /// Counts the frames drawn; drives the spinner.
    pub tick: usize,
}

// ── Keys ──────────────────────────────────────────────────────────────────────

/// A key, as far as the application tells keys apart.
#[derive(Debug, Clone, Copy, PartialEq, Eq, Structural)]
pub enum KeyCode {
    Char(char),
    Esc,
    Other,
}

/// A key press.
#[derive(Debug, Clone, Copy, PartialEq, Eq, Structural)]
pub struct KeyEvent {
    pub code: KeyCode,
    /// Whether the control key was held.
    pub control: bool,
}

/// What a key asks the program to do.
#[derive(Debug, Clone, Copy, PartialEq, Eq, Structural)]
pub enum KeyAction {
    Nothing,
    /// Start an analysis of the source.
    StartAnalysis,
    /// Tell the running keyframe scan to stop.
    CancelScan,
}

/// A key ends the program: `q`, Escape, or `c` with the control key.
pub open spec fn is_quit(key: KeyEvent) -> bool {
    key.code == KeyCode::Char('q') || key.code == KeyCode::Esc || (key.code == KeyCode::Char('c')
        && key.control)
}

/// A state in which an analysis may be started: none runs.
pub open spec fn may_analyze(state: TuiState) -> bool {
    state is Idle || state is ManifestReady || state is Error
}

/// What a key asks for: `a` starts an analysis where a source is named and none runs, `s` cancels
/// the keyframe scan that is shown.
pub open spec fn action_of(app: App, key: KeyEvent) -> KeyAction {
    if key.code == KeyCode::Char('a') && may_analyze(app.state) && app.source_path is Some {
        KeyAction::StartAnalysis
    } else if key.code == KeyCode::Char('s') && app.state is ScanningKeyframes && app.scan_cancel {
        KeyAction::CancelScan
    } else {
        KeyAction::Nothing
    }
}

// ── Updates ───────────────────────────────────────────────────────────────────

/// The name shown for a source: its path, or `disc` where that is no text.
pub open spec fn display_name(source_path: Option<DiscPath>) -> Seq<char> {
    match source_path {
        Some(path) => path.text_or("disc"@),
        None => "disc"@,
    }
}

/// `after` is the state that follows from a report that arrives at `now_ms`.
pub open spec fn follows(before: App, update: AppUpdate, now_ms: u64, after: TuiState) -> bool {
    match update {
        AppUpdate::Probing => after matches TuiState::Probing { source_name } && source_name@
            == display_name(before.source_path),
        AppUpdate::ProbeComplete(probe) => match before.state {
            TuiState::Probing { source_name } => after == (TuiState::ScanningKeyframes {
                source_name,
                probe,
                keyframes_found: 0,
                fraction: Fraction { part: 0, whole: 1 },
                started_at_ms: now_ms,
            }),
            state => after == state,
        },
        AppUpdate::ScanStarted => after == before.state,
        AppUpdate::ScanProgress(progress) => match before.state {
            TuiState::ScanningKeyframes { source_name, probe, started_at_ms, .. } => after == (
            TuiState::ScanningKeyframes {
                source_name,
                probe,
                keyframes_found: progress.keyframes_found,
                fraction: progress.fraction,
                started_at_ms,
            }),
            state => after == state,
        },
        AppUpdate::ManifestReady(manifest, probe) => {
            &&& after matches TuiState::ManifestReady {
                source_name,
                manifest: shown,
                probe: probed,
            }
            &&& source_name@ == display_name(before.source_path)
            &&& shown == manifest
            &&& probed == probe
        },
        AppUpdate::Error(message) => after == (TuiState::Error { message }),
    }
}

/// Whether a scan can be cancelled after a report: from its start until the analysis ends.
pub open spec fn cancellable(before: App, update: AppUpdate) -> bool {
    match update {
        AppUpdate::ScanStarted => true,
        AppUpdate::ManifestReady(_, _) => false,
        AppUpdate::Error(_) => false,
        _ => before.scan_cancel,
    }
}

impl TuiState {
    /// The progress shown is a part of a whole.
    pub open spec fn wf(self) -> bool {
        self matches TuiState::ScanningKeyframes { fraction, .. } ==> fraction.wf()
    }
}

impl AppUpdate {
    /// The progress reported is a part of a whole.
    pub open spec fn wf(self) -> bool {
        self matches AppUpdate::ScanProgress(progress) ==> progress.fraction.wf()
    }
}

impl App {
    /// An application that has done nothing yet.
    pub fn new(source_path: Option<DiscPath>, config: HostConfig) -> (r: App)
        ensures
            r == (App {
                state: TuiState::Idle,
                source_path,
                config,
                scan_cancel: false,
                should_quit: false,
                tick: 0,
            }),
            r.state.wf(),
    {
        App {
            state: TuiState::Idle,
            source_path,
            config,
            scan_cancel: false,
            should_quit: false,
            tick: 0,
        }
    }

    /// Whether an analysis is to be started: one needs a source.
    pub fn start_analysis(&self) -> (r: bool)
        ensures
            r == (self.source_path is Some),
    {
        self.source_path.is_some()
    }

    fn source_display_name(&self) -> (r: String)
        ensures
            r@ == display_name(self.source_path),
    {
        match &self.source_path {
            Some(path) => path.to_str_or("disc").to_owned(),
            None => "disc".to_owned(),
        }
    }

    /// Takes a report of the analysis.
    pub fn apply_update(&mut self, update: AppUpdate, now_ms: u64)
        ensures
            follows(*old(self), update, now_ms, final(self).state),
            *final(self) == (App {
                state: final(self).state,
                scan_cancel: cancellable(*old(self), update),
                ..*old(self)
            }),
            old(self).state.wf() && update.wf() ==> final(self).state.wf(),
    {
        match update {
            AppUpdate::Probing => {
                let source_name = self.source_display_name();
                self.state = TuiState::Probing { source_name };
            },
            AppUpdate::ProbeComplete(probe) => {
                if let TuiState::Probing { source_name } = &self.state {
                    let source_name = source_name.clone();
                    self.state = TuiState::ScanningKeyframes {
                        source_name,
                        probe,
                        keyframes_found: 0,
                        fraction: Fraction { part: 0, whole: 1 },
                        started_at_ms: now_ms,
                    };
                }
            },
            AppUpdate::ScanStarted => {
                self.scan_cancel = true;
            },
            AppUpdate::ScanProgress(progress) => {
                if let TuiState::ScanningKeyframes { keyframes_found, fraction, .. } =
                    &mut self.state {
                    *keyframes_found = progress.keyframes_found;
                    *fraction = progress.fraction;
                }
            },
            AppUpdate::ManifestReady(manifest, probe) => {
                let source_name = self.source_display_name();
                self.state = TuiState::ManifestReady { source_name, manifest, probe };
                self.scan_cancel = false;
            },
            AppUpdate::Error(message) => {
                self.state = TuiState::Error { message };
                self.scan_cancel = false;
            },
        }
    }

    /// Whether the running keyframe scan is to be told to stop. It is told once.
    pub fn skip_keyframe_scan(&mut self) -> (r: bool)
        ensures
            r == old(self).scan_cancel,
            *final(self) == (App { scan_cancel: false, ..*old(self) }),
    {
        let cancel = self.scan_cancel;
        self.scan_cancel = false;
        cancel
    }

    /// Takes a key press.
    pub fn handle_key(&mut self, key: KeyEvent) -> (r: KeyAction)
        ensures
            r == action_of(*old(self), key),
            *final(self) == (App {
                should_quit: old(self).should_quit || is_quit(key),
                scan_cancel: old(self).scan_cancel && r != KeyAction::CancelScan,
                ..*old(self)
            }),
    {
        match key.code {
            KeyCode::Char('q') | KeyCode::Esc => {
                self.should_quit = true;
            },
            KeyCode::Char('c') => {
                if key.control {
                    self.should_quit = true;
                }
            },
            KeyCode::Char('a') => {
                let idle = match &self.state {
                    TuiState::Idle => true,
                    TuiState::ManifestReady { .. } => true,
                    TuiState::Error { .. } => true,
                    _ => false,
                };
                if idle && self.start_analysis() {
                    return KeyAction::StartAnalysis;
                }
            },
            KeyCode::Char('s') => {
                let scanning = match &self.state {
                    TuiState::ScanningKeyframes { .. } => true,
                    _ => false,
                };
                if scanning && self.skip_keyframe_scan() {
                    return KeyAction::CancelScan;
                }
            },
            _ => {},
        }
        KeyAction::Nothing
    }

    /// One more frame is drawn.
    pub fn next_tick(&mut self)
        ensures
            *final(self) == (App {
                tick: if old(self).tick == usize::MAX {
                    0
                } else {
                    (old(self).tick + 1) as usize
                },
                ..*old(self)
            }),
    {
        self.tick = self.tick.wrapping_add(1);
    }
}

// ── The analysis ──────────────────────────────────────────────────────────────

/// The report of a probe that failed.
pub fn probe_failed(reason: &str) -> (r: AppUpdate)
    ensures
        r matches AppUpdate::Error(message) && message@ == "Probe failed: "@ + reason@,
{
    let mut message = "Probe failed: ".to_owned();
    message.append(reason);
    AppUpdate::Error(message)
}

/// The duration of the timeline to scan for keyframes; nothing where the configuration does not
/// call for it or the duration is unknown.
pub fn scan_wanted(config: &HostConfig, probe: &ProbeResult) -> (r: Option<i64>)
    ensures
        r == (if config.stream.keyframe_snap {
            probe.duration_us
        } else {
            None
        }),
{
    if config.stream.keyframe_snap {
        probe.duration_us
    } else {
        None
    }
}

/// `r` is the last report of an analysis: the manifest, which has neither a session nor a start time
/// yet, or why there is none.
pub open spec fn concluding(
    r: AppUpdate,
    probe: ProbeResult,
    keyframes: Seq<i64>,
    config: HostConfig,
) -> bool {
    if probe.duration_us is None && !config.media.allow_live_fallback {
        r matches AppUpdate::Error(message) && message@ == "Manifest error: "@
            + "media duration unknown and allow_live_fallback = false"@
    } else {
        &&& r matches AppUpdate::ManifestReady(manifest, probed)
        &&& probed == probe
        &&& exists|session_id: [u8; 32]|
            #![trigger session_id@]
            {
                &&& session_id@ == Seq::new(32, |i: int| 0u8)
                &&& concludes(
                    Ok(manifest),
                    (Findings {
                        probe,
                        duration_us: probe.duration_us,
                        media_hash: None,
                        session_id,
                        stream_start_utc: 0,
                    }),
                    keyframes,
                    config,
                )
            }
    }
}

/// Media of the probed duration can be cut into chunks.
pub open spec fn can_cut(probe: ProbeResult, config: HostConfig) -> bool {
    probe.duration_us matches Some(us) ==> us > 0 ==> config.stream.chunk_duration_ms > 0
}

/// The last report of an analysis. A scan that was not wanted or failed gives no keyframes.
pub fn finish_analysis(probe: ProbeResult, keyframes: &Vec<i64>, config: &HostConfig) -> (r:
    AppUpdate)
    requires
        can_cut(probe, *config),
    ensures
        concluding(r, probe, keyframes@, *config),
{
    let session_id = [0u8; 32];
    assert(session_id@ =~= Seq::new(32, |i: int| 0u8));
    match assemble_manifest(&probe, keyframes, None, config, session_id, 0) {
        Ok(manifest) => AppUpdate::ManifestReady(manifest, probe),
        Err(error) => {
            let mut message = "Manifest error: ".to_owned();
            message.append(error.message());
            AppUpdate::Error(message)
        },
    }
}

/// How far an analysis has come, and what it waits for.
pub enum Stage {
    /// Nothing was done.
    New,
    /// `ffprobe` is to be run.
    Probing,
    /// The probe is reported; what comes next is to be asked for.
    Probed { probe: ProbeResult },
    /// The keyframe scan is to be run on a timeline of this duration.
    Scanning { probe: ProbeResult, duration_us: i64 },
    /// The last report was made.
    Finished,
}

/// What happened outside.
pub enum StageEvent {
    /// Nothing; the analysis goes on.
    Go,
    /// `ffprobe` failed, for this reason.
    ProbeFailed(String),
    /// `ffprobe` has reported.
    Probed(ProbeResult),
    /// The scan is over. It gives no keyframes where it failed.
    Scanned(Vec<i64>),
}

/// What a stage and an event lead to: the next stage, and the report that is made on the way. An
/// event that the stage does not wait for leads nowhere.
pub open spec fn advances(
    stage: Stage,
    event: StageEvent,
    config: HostConfig,
    next: Stage,
    report: Option<AppUpdate>,
) -> bool {
    match (stage, event) {
        (Stage::New, StageEvent::Go) => {
            &&& next is Probing
            &&& report matches Some(AppUpdate::Probing)
        },
        (Stage::Probing, StageEvent::ProbeFailed(reason)) => {
            &&& next is Finished
            &&& report matches Some(AppUpdate::Error(message)) && message@ == "Probe failed: "@
                + reason@
        },
        (Stage::Probing, StageEvent::Probed(probe)) => {
            &&& next == (Stage::Probed { probe })
            &&& report matches Some(AppUpdate::ProbeComplete(shown)) && same_probe(shown, probe)
        },
        (Stage::Probed { probe }, StageEvent::Go) => if config.stream.keyframe_snap
            && probe.duration_us is Some {
            &&& next == (Stage::Scanning { probe, duration_us: probe.duration_us->0 })
            &&& report matches Some(AppUpdate::ScanStarted)
        } else {
            &&& next is Finished
            &&& report matches Some(last) && concluding(last, probe, Seq::empty(), config)
        },
        (Stage::Scanning { probe, .. }, StageEvent::Scanned(keyframes)) => {
            &&& next is Finished
            &&& report matches Some(last) && concluding(last, probe, keyframes@, config)
        },
        _ => next == stage && report is None,
    }
}

impl Stage {
    /// The media probed can be cut into chunks.
    pub open spec fn wf(self, config: HostConfig) -> bool {
        match self {
            Stage::Probed { probe } => can_cut(probe, config),
            Stage::Scanning { probe, .. } => can_cut(probe, config),
            _ => true,
        }
    }

    /// Goes on after an event: the next stage, and the report to make.
    pub fn advance(self, event: StageEvent, config: &HostConfig) -> (r: (Stage, Option<AppUpdate>))
        requires
            self.wf(*config),
        ensures
            advances(self, event, *config, r.0, r.1),
            (event matches StageEvent::Probed(probe) ==> can_cut(probe, *config)) ==> r.0.wf(
                *config,
            ),
    {
        match (self, event) {
            (Stage::New, StageEvent::Go) => (Stage::Probing, Some(AppUpdate::Probing)),
            (Stage::Probing, StageEvent::ProbeFailed(reason)) => (
                Stage::Finished,
                Some(probe_failed(reason.as_str())),
            ),
            (Stage::Probing, StageEvent::Probed(probe)) => {
                let shown = copy_probe(&probe);
                (Stage::Probed { probe }, Some(AppUpdate::ProbeComplete(shown)))
            },
            (Stage::Probed { probe }, StageEvent::Go) => match scan_wanted(config, &probe) {
                Some(duration_us) => (
                    Stage::Scanning { probe, duration_us },
                    Some(AppUpdate::ScanStarted),
                ),
                None => {
                    let none: Vec<i64> = Vec::new();
                    assert(none@ =~= Seq::<i64>::empty());
                    (Stage::Finished, Some(finish_analysis(probe, &none, config)))
                },
            },
            (Stage::Scanning { probe, .. }, StageEvent::Scanned(keyframes)) => (
                Stage::Finished,
                Some(finish_analysis(probe, &keyframes, config)),
            ),
            (stage, _) => (stage, None),
        }
    }
}

// ── Laws ──────────────────────────────────────────────────────────────────────

/// No key starts an analysis while one is shown to run.
pub proof fn law_one_analysis_at_a_time(app: App, key: KeyEvent)
    requires
        app.state is Probing || app.state is ScanningKeyframes,
    ensures
        action_of(app, key) != KeyAction::StartAnalysis,
{
}

/// A scan is told to stop once: after that no key does it again before another scan reports its
/// start.
pub proof fn law_scan_is_told_once(
    before: App,
    key: KeyEvent,
    between: App,
    update: AppUpdate,
    after: App,
    again: KeyEvent,
)
    requires
        action_of(before, key) == KeyAction::CancelScan,
        between == (App {
            should_quit: before.should_quit || is_quit(key),
            scan_cancel: before.scan_cancel && action_of(before, key) != KeyAction::CancelScan,
            ..before
        }),
        !(update is ScanStarted),
        after.scan_cancel == cancellable(between, update),
    ensures
        action_of(between, again) != KeyAction::CancelScan,
        action_of(after, again) != KeyAction::CancelScan,
{
}

/// How many reports a stage is away from the start, at most.
pub open spec fn progress_of(stage: Stage) -> nat {
    match stage {
        Stage::New => 0,
        Stage::Probing => 1,
        Stage::Probed { .. } => 2,
        Stage::Scanning { .. } => 3,
        Stage::Finished => 4,
    }
}

/// An analysis always moves forward: whenever it reports, it comes further, and it makes no report
/// once it is finished. It finishes exactly with the report that ends it, a manifest or an error.
pub proof fn law_analysis_moves_forward(
    stage: Stage,
    event: StageEvent,
    config: HostConfig,
    next: Stage,
    report: Option<AppUpdate>,
)
    requires
        advances(stage, event, config, next, report),
    ensures
        report is Some ==> progress_of(stage) < progress_of(next),
        report is None ==> next == stage,
        stage is Finished ==> report is None,
        next is Finished && !(stage is Finished) <==> (report matches Some(last) && (
        last is ManifestReady || last is Error)),
{
}

/// A scan starts exactly where the configuration calls for it and the duration is known, and only
/// after the probe was reported.
pub proof fn law_scan_starts_when_wanted(
    stage: Stage,
    event: StageEvent,
    config: HostConfig,
    next: Stage,
    report: Option<AppUpdate>,
)
    requires
        advances(stage, event, config, next, report),
    ensures
        (report matches Some(AppUpdate::ScanStarted)) <==> (event is Go && config.stream.keyframe_snap
            && (stage matches Stage::Probed { probe } && probe.duration_us is Some)),
{
}

/// The reports of an analysis that succeeds lead from any state to the manifest, whatever progress
/// was reported on the way, and leave nothing to cancel.
pub proof fn law_analysis_reaches_manifest(
    first: App,
    probed: App,
    scanning: App,
    progressed: App,
    done: App,
    probe: ProbeResult,
    progress: ScanProgress,
    manifest: SessionManifest,
    now_ms: u64,
)
    requires
        follows(first, AppUpdate::Probing, now_ms, probed.state),
        follows(probed, AppUpdate::ProbeComplete(probe), now_ms, scanning.state),
        follows(scanning, AppUpdate::ScanProgress(progress), now_ms, progressed.state),
        follows(progressed, AppUpdate::ManifestReady(manifest, probe), now_ms, done.state),
        done.scan_cancel == cancellable(
            progressed,
            AppUpdate::ManifestReady(manifest, probe),
        ),
    ensures
        scanning.state is ScanningKeyframes,
        progressed.state matches TuiState::ScanningKeyframes {
            probe: shown,
            keyframes_found,
            fraction,
            ..
        } && shown == probe && keyframes_found == progress.keyframes_found && fraction
            == progress.fraction,
        done.state matches TuiState::ManifestReady { manifest: shown, .. } && shown == manifest,
        !done.scan_cancel,
{
}

/// What a report says is what is shown: an error in its own words, progress as it was told and nothing
/// else changed by it, a manifest as it was made, and the source by its path. A report that does not
/// fit the state changes nothing that is shown.
pub proof fn law_reports_are_shown_as_they_are(
    before: App,
    message: String,
    progress: ScanProgress,
    probe: ProbeResult,
    manifest: SessionManifest,
    now_ms: u64,
    after: TuiState,
)
    ensures
        follows(before, AppUpdate::Error(message), now_ms, after) ==> (after matches TuiState::Error {
            message: shown,
        } && shown == message),
        follows(before, AppUpdate::ScanStarted, now_ms, after) ==> after == before.state,
        follows(before, AppUpdate::ScanProgress(progress), now_ms, after) ==> match before.state {
            TuiState::ScanningKeyframes { source_name, probe: probed, started_at_ms, .. } => after
                matches TuiState::ScanningKeyframes {
                source_name: name,
                probe: shown,
                keyframes_found,
                fraction,
                started_at_ms: started,
            } && name == source_name && shown == probed && started == started_at_ms
                && keyframes_found == progress.keyframes_found && fraction == progress.fraction,
            state => after == state,
        },
        follows(before, AppUpdate::ProbeComplete(probe), now_ms, after) ==> match before.state {
            TuiState::Probing { source_name } => after matches TuiState::ScanningKeyframes {
                source_name: name,
                probe: shown,
                keyframes_found,
                fraction,
                started_at_ms,
            } && name == source_name && shown == probe && keyframes_found == 0 && fraction.part == 0
                && fraction.whole > 0 && started_at_ms == now_ms,
            state => after == state,
        },
        follows(before, AppUpdate::Probing, now_ms, after) ==> (after matches TuiState::Probing {
            source_name,
        } && match before.source_path {
            Some(path) => match path.text {
                Some(text) => source_name@ == text@,
                None => source_name@ == "disc"@,
            },
            None => source_name@ == "disc"@,
        }),
        follows(before, AppUpdate::ManifestReady(manifest, probe), now_ms, after) ==> (after matches
            TuiState::ManifestReady { source_name, manifest: shown, probe: probed } && shown == manifest
            && probed == probe && match before.source_path {
            Some(path) => match path.text {
                Some(text) => source_name@ == text@,
                None => source_name@ == "disc"@,
            },
            None => source_name@ == "disc"@,
        }),
{
}

/// A scan can be cancelled from the report of its start until the manifest or an error is there, and
/// no other report changes that.
pub proof fn law_scan_can_be_cancelled_while_it_runs(before: App, update: AppUpdate)
    ensures
        update is ScanStarted ==> cancellable(before, update),
        update is ManifestReady || update is Error ==> !cancellable(before, update),
        update is Probing || update is ProbeComplete || update is ScanProgress ==> cancellable(
            before,
            update,
        ) == before.scan_cancel,
{
}

/// Each key does one thing: `a` starts an analysis where a source is named and the screen waits, `s`
/// cancels the scan that is shown, `q`, Escape and Control with `c` end the program in every state,
/// and no other key does anything.
pub proof fn law_keys_do_one_thing(app: App, key: KeyEvent)
    ensures
        action_of(app, key) == KeyAction::StartAnalysis <==> key.code == KeyCode::Char('a')
            && app.source_path is Some && !(app.state is Probing)
            && !(app.state is ScanningKeyframes),
        action_of(app, key) == KeyAction::CancelScan <==> key.code == KeyCode::Char('s')
            && app.state is ScanningKeyframes && app.scan_cancel,
        is_quit(key) <==> key.code == KeyCode::Char('q') || key.code == KeyCode::Esc || (key.code
            == KeyCode::Char('c') && key.control),
{
}

/// An analysis ends with the manifest of what was probed and found, made without a hash for a session
/// that is not chosen yet, or with the reason why there is none.
pub proof fn law_analysis_ends_with_the_manifest(
    stage: Stage,
    event: StageEvent,
    config: HostConfig,
    next: Stage,
    report: Option<AppUpdate>,
)
    requires
        advances(stage, event, config, next, report),
        report matches Some(AppUpdate::ManifestReady(_, _)),
    ensures
        ({
            let manifest = report->0->ManifestReady_0;
            let probed = report->0->ManifestReady_1;
            &&& stage matches Stage::Probed { probe } ==> probed == probe
            &&& stage matches Stage::Scanning { probe, .. } ==> probed == probe
            &&& stage is Probed || stage is Scanning
            &&& probed.duration_us is Some <==> manifest is Vod
            &&& manifest matches SessionManifest::Vod(m) ==> {
                &&& Some(m.duration_us) == probed.duration_us
                &&& m.video_codec@ == probed.video.codec@
                &&& m.stream_start_utc == 0
                &&& forall|i: int| 0 <= i < 32 ==> #[trigger] m.session_id@[i] == 0
                &&& forall|i: int| 0 <= i < 32 ==> #[trigger] m.media_hash@[i] == 0
                &&& event matches StageEvent::Scanned(keyframes) ==> is_chunk_map(
                    m.chunk_map@,
                    m.duration_us as int,
                    keyframes@,
                    config.stream,
                )
            }
            &&& manifest matches SessionManifest::Live(m) ==> m.media_hash is None
                && m.stream_start_utc == 0
        }),
{
    let manifest = report->0->ManifestReady_0;
    let probe = report->0->ManifestReady_1;
    let keyframes = match event {
        StageEvent::Scanned(keyframes) => keyframes@,
        _ => Seq::empty(),
    };
    assert(concluding(report->0, probe, keyframes, config));
}

/// The probe is reported as it was made, and a failure in its own words.
pub proof fn law_probe_is_reported_as_it_is(
    probe: ProbeResult,
    reason: String,
    config: HostConfig,
    next: Stage,
    report: Option<AppUpdate>,
)
    ensures
        advances(Stage::Probing, StageEvent::Probed(probe), config, next, report) ==> {
            &&& next matches Stage::Probed { probe: kept } && kept == probe
            &&& report matches Some(AppUpdate::ProbeComplete(shown)) && {
                &&& shown.video == probe.video
                &&& shown.audio_tracks@ == probe.audio_tracks@
                &&& shown.duration_us == probe.duration_us
                &&& shown.format_name == probe.format_name
                &&& shown.avg_bitrate_kbps == probe.avg_bitrate_kbps
            }
        },
        advances(Stage::Probing, StageEvent::ProbeFailed(reason), config, next, report) ==> (report
            matches Some(AppUpdate::Error(message)) && message@ == "Probe failed: "@ + reason@
            && next is Finished),
{
}

} // verus!

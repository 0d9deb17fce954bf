//! The view window: an `mpv` process that plays what the session delivers.
//!
//! A chunk reaches `mpv` only if it is authentic. `MpvPlayer` keeps the book of what was fed and
//! refused and of the playback state, and says what is written to `mpv`; the program owns the
//! process and carries its pipes.
pub mod ipc;

use vstd::prelude::*;

use crate::player::ipc::{
    command, property, seek_args, speed_value, volume_value, Json, MpvIpc,
};
use crate::protocol::messages::StreamChunk;
use crate::stream::framing::{authentic, verify_hmac};
use crate::text::{decimal, decimal_text, push_text, texts};

verus! {

/// What the player does, as tracked by its owner.
#[derive(Debug, Clone, Copy, PartialEq, Eq, Structural)]
pub enum PlaybackState {
    /// `mpv` runs but has received no chunk yet.
    Buffering,
    /// `mpv` plays.
    Playing,
    /// Playback is paused.
    Paused,
    /// `mpv` exited or was stopped.
    Stopped,
}

impl PlaybackState {
    /// The symbol shown for a state.
    pub fn icon(&self) -> (r: &'static str)
        ensures
            r@ == (match *self {
                PlaybackState::Buffering => "⏳"@,
                PlaybackState::Playing => "▶"@,
                PlaybackState::Paused => "⏸"@,
                PlaybackState::Stopped => "■"@,
            }),
    {
        match self {
            PlaybackState::Buffering => "⏳",
            PlaybackState::Playing => "▶",
            PlaybackState::Paused => "⏸",
            PlaybackState::Stopped => "■",
        }
    }
}

// ── Starting ──────────────────────────────────────────────────────────────────

/// The arguments of `mpv`: a window of its own from the start, MPEG-TS on standard input, and a
/// control socket at `ipc_path`.
pub fn mpv_args(ipc_path: &str) -> (r: Vec<String>)
    ensures
        texts(r@) == seq![
            "--no-terminal"@,
            "--force-window=yes"@,
            "--demuxer-lavf-format=mpegts"@,
            "--audio-display=no"@,
            "--title=Watch Party"@,
            "--demuxer-readahead-secs=10"@,
            "--input-ipc-server="@ + ipc_path@,
            "-"@,
        ],
{
    let mut args: Vec<String> = Vec::new();
    push_text(&mut args, "--no-terminal");
    push_text(&mut args, "--force-window=yes");
    push_text(&mut args, "--demuxer-lavf-format=mpegts");
    push_text(&mut args, "--audio-display=no");
    push_text(&mut args, "--title=Watch Party");
    push_text(&mut args, "--demuxer-readahead-secs=10");
    let mut server = "--input-ipc-server=".to_owned();
    server.append(ipc_path);
    push_text(&mut args, server.as_str());
    push_text(&mut args, "-");
    assert(texts(args@) =~= seq![
        "--no-terminal"@,
        "--force-window=yes"@,
        "--demuxer-lavf-format=mpegts"@,
        "--audio-display=no"@,
        "--title=Watch Party"@,
        "--demuxer-readahead-secs=10"@,
        "--input-ipc-server="@ + ipc_path@,
        "-"@,
    ]);
    args
}

// ── The player ────────────────────────────────────────────────────────────────

/// A chunk that was dropped because its authentication code is wrong.
#[derive(Debug, Clone, Copy, PartialEq, Eq, Structural)]
pub struct RejectedChunk {
    /// The sequence number of the chunk.
    pub sequence: u64,
    /// How many chunks were dropped so far, this one included.
    pub total_rejected: u64,
}

impl RejectedChunk {
    /// The message for a person.
    pub fn message(&self) -> (r: String)
        ensures
            r@ == "HMAC verification failed — dropping chunk seq="@ + decimal(
                self.sequence as nat,
            ) + " (total rejected: "@ + decimal(self.total_rejected as nat) + ")"@,
    {
        let mut out = "HMAC verification failed — dropping chunk seq=".to_owned();
        out.append(decimal_text(self.sequence).as_str());
        out.append(" (total rejected: ");
        out.append(decimal_text(self.total_rejected).as_str());
        out.append(")");
        out
    }
}

/// What asking the system for the state of the process gave.
#[derive(Debug, Clone, Copy, PartialEq, Eq, Structural)]
pub enum ProcessStatus {
    /// The process has exited.
    Exited,
    /// The process has not exited.
    Running,
    /// The system did not answer.
    Unknown,
}

/// The state of a running `mpv` as its owner tracks it.
pub struct MpvPlayer {
    /// The control connection.
    pub ipc: MpvIpc,
    /// What the player does.
    pub state: PlaybackState,
    /// The session whose chunks are played.
    pub session_id: [u8; 32],
    /// How many chunks were written to `mpv`.
    pub chunks_fed: u64,
    /// How many chunks were dropped because their authentication code is wrong.
    pub chunks_rejected: u64,
}

impl MpvPlayer {
    /// While the player buffers, nothing was fed to it.
    pub open spec fn wf(self) -> bool {
        self.state == PlaybackState::Buffering ==> self.chunks_fed == 0
    }

    /// The player of a session, right after `mpv` was started and its socket reached.
    pub fn new(session_id: &[u8; 32]) -> (r: MpvPlayer)
        ensures
            r == (MpvPlayer {
                ipc: MpvIpc { next_id: 1 },
                state: PlaybackState::Buffering,
                session_id: *session_id,
                chunks_fed: 0,
                chunks_rejected: 0,
            }),
            r.wf(),
    {
        MpvPlayer {
            ipc: MpvIpc::new(),
            state: PlaybackState::Buffering,
            session_id: *session_id,
            chunks_fed: 0,
            chunks_rejected: 0,
        }
    }

    /// Whether the payload of a chunk goes to `mpv`. One that is not authentic is counted and
    /// dropped; for one that is, nothing changes until it was written (see `chunk_written`).
    pub fn play_chunk(&mut self, chunk: &StreamChunk) -> (r: Result<(), RejectedChunk>)
        requires
            !authentic(*chunk, old(self).session_id@) ==> old(self).chunks_rejected < u64::MAX,
        ensures
            authentic(*chunk, old(self).session_id@) ==> {
                &&& r == Ok::<(), RejectedChunk>(())
                &&& *final(self) == *old(self)
            },
            !authentic(*chunk, old(self).session_id@) ==> {
                &&& r == Err::<(), RejectedChunk>(
                    RejectedChunk {
                        sequence: chunk.sequence,
                        total_rejected: (old(self).chunks_rejected + 1) as u64,
                    },
                )
                &&& *final(self) == (MpvPlayer {
                    chunks_rejected: (old(self).chunks_rejected + 1) as u64,
                    ..*old(self)
                })
            },
            old(self).wf() ==> final(self).wf(),
    {
        if verify_hmac(chunk, &self.session_id) {
            Ok(())
        } else {
            self.chunks_rejected = self.chunks_rejected + 1;
            Err(
                RejectedChunk {
                    sequence: chunk.sequence,
                    total_rejected: self.chunks_rejected,
                },
            )
        }
    }

    /// A chunk was written to `mpv` as a whole. The first one ends buffering.
    pub fn chunk_written(&mut self)
        requires
            old(self).chunks_fed < u64::MAX,
        ensures
            *final(self) == (MpvPlayer {
                chunks_fed: (old(self).chunks_fed + 1) as u64,
                state: if old(self).state == PlaybackState::Buffering {
                    PlaybackState::Playing
                } else {
                    old(self).state
                },
                ..*old(self)
            }),
            old(self).wf() ==> final(self).wf(),
    {
        self.chunks_fed = self.chunks_fed + 1;
        if self.state == PlaybackState::Buffering {
            self.state = PlaybackState::Playing;
        }
    }

    /// The line that pauses playback; nothing unless it is playing. Once the line was written,
    /// `paused` takes note.
    pub fn pause(&self) -> (r: Option<String>)
        ensures
            match r {
                Some(line) => self.state == PlaybackState::Playing && line@ == property(
                    "pause"@,
                    (false, "true"@),
                ),
                None => self.state != PlaybackState::Playing,
            },
    {
        if self.state == PlaybackState::Playing {
            Some(self.ipc.pause())
        } else {
            None
        }
    }

    /// The line of `pause` was written.
    pub fn paused(&mut self)
        ensures
            *final(self) == (MpvPlayer { state: PlaybackState::Paused, ..*old(self) }),
            old(self).wf() ==> final(self).wf(),
    {
        self.state = PlaybackState::Paused;
    }

    /// The line that resumes playback; nothing unless it is paused. Once the line was written,
    /// `resumed` takes note.
    pub fn resume(&self) -> (r: Option<String>)
        ensures
            match r {
                Some(line) => self.state == PlaybackState::Paused && line@ == property(
                    "pause"@,
                    (false, "false"@),
                ),
                None => self.state != PlaybackState::Paused,
            },
    {
        if self.state == PlaybackState::Paused {
            Some(self.ipc.resume())
        } else {
            None
        }
    }

    /// The line of `resume` was written.
    pub fn resumed(&mut self)
        ensures
            *final(self) == (MpvPlayer { state: PlaybackState::Playing, ..*old(self) }),
            old(self).wf() ==> final(self).wf(),
    {
        self.state = PlaybackState::Playing;
    }

    /// The line that seeks to an absolute position, in microseconds. It makes sense in a session
    /// with a known timeline only.
    pub fn seek(&self, pts_us: i64) -> (r: String)
        ensures
            r@ == command(seek_args(pts_us as int)),
    {
        self.ipc.seek_absolute(pts_us)
    }

    /// The line that sets the playback speed, in millionths of normal speed: a small drift is
    /// corrected by playing a little faster or slower, without a seek.
    pub fn nudge_speed(&self, millionths: i64) -> (r: String)
        ensures
            r@ == property("speed"@, speed_value(millionths as int)),
    {
        self.ipc.set_speed(millionths)
    }

    /// The line that sets the volume, in percent.
    pub fn set_volume(&self, pct: u32) -> (r: String)
        ensures
            r@ == property("volume"@, volume_value(pct as nat)),
    {
        self.ipc.set_volume(pct)
    }

    /// The number and the line of a query for the playback position.
    pub fn ask_playback_time(&mut self) -> (r: (u32, String))
        requires
            old(self).ipc.next_id < u32::MAX,
        ensures
            r.0 == old(self).ipc.next_id,
            r.1@ == ipc::request(
                seq![(true, "get_property"@), (true, "playback-time"@)],
                r.0 as nat,
            ),
            *final(self) == (MpvPlayer {
                ipc: MpvIpc { next_id: (old(self).ipc.next_id + 1) as u32 },
                ..*old(self)
            }),
            old(self).wf() ==> final(self).wf(),
    {
        self.ipc.get_property("playback-time")
    }

    /// The playback position in microseconds. `value` is what the query came to; without a position,
    /// as while `mpv` buffers, it is zero.
    pub fn playback_time(&self, value: &Result<Json, String>) -> (r: i64)
        ensures
            r as int == ipc::position_in(*value),
    {
        self.ipc.playback_time(value)
    }

    /// Asked at every tick: `true` if the `mpv` process has exited, which ends playback. Where the
    /// system does not answer, it counts as exited.
    pub fn is_running(&self, status: ProcessStatus) -> (r: bool)
        ensures
            r == (status != ProcessStatus::Running),
    {
        match status {
            ProcessStatus::Running => false,
            ProcessStatus::Exited => true,
            ProcessStatus::Unknown => true,
        }
    }

    /// Takes note of an exit: `true` if `mpv` has exited, which stops the player.
    pub fn check_exit(&mut self, status: ProcessStatus) -> (r: bool)
        ensures
            r == (status != ProcessStatus::Running),
            *final(self) == (if r {
                MpvPlayer { state: PlaybackState::Stopped, ..*old(self) }
            } else {
                *old(self)
            }),
            old(self).wf() ==> final(self).wf(),
    {
        if self.is_running(status) {
            self.state = PlaybackState::Stopped;
            true
        } else {
            false
        }
    }

    /// Stops the player; the result is the line that makes `mpv` quit, the first of the steps that
    /// `after_stop_step` goes through.
    pub fn stop(&mut self) -> (r: String)
        ensures
            r@ == command(seq![(true, "quit"@)]),
            *final(self) == (MpvPlayer { state: PlaybackState::Stopped, ..*old(self) }),
            old(self).wf() ==> final(self).wf(),
    {
        let line = self.ipc.quit();
        self.state = PlaybackState::Stopped;
        line
    }
}

// ── Stopping ──────────────────────────────────────────────────────────────────

/// Milliseconds that a stopped `mpv` has to exit by itself.
pub const STOP_TIMEOUT_MS: u64 = 2000;

/// A step on the way to an `mpv` that has exited.
#[derive(Debug, Clone, Copy, PartialEq, Eq, Structural)]
pub enum StopStep {
    /// Write the line that makes `mpv` quit. It may fail, if `mpv` is already exiting.
    Quit,
    /// Close the input of `mpv`, which tells its demuxer that the stream has ended.
    CloseInput,
    /// Wait for the exit, up to this many milliseconds.
    Wait { ms: u64 },
    /// Kill the process.
    Kill,
    /// Nothing is left to do.
    Done,
}

/// The step after `step`. `exited` says whether the exit was seen while waiting; only a process that
/// did not exit is killed.
pub fn after_stop_step(step: StopStep, exited: bool) -> (r: StopStep)
    ensures
        r == (match step {
            StopStep::Quit => StopStep::CloseInput,
            StopStep::CloseInput => StopStep::Wait { ms: STOP_TIMEOUT_MS },
            StopStep::Wait { .. } => if exited {
                StopStep::Done
            } else {
                StopStep::Kill
            },
            StopStep::Kill => StopStep::Done,
            StopStep::Done => StopStep::Done,
        }),
{
    match step {
        StopStep::Quit => StopStep::CloseInput,
        StopStep::CloseInput => StopStep::Wait { ms: STOP_TIMEOUT_MS },
        StopStep::Wait { .. } => if exited {
            StopStep::Done
        } else {
            StopStep::Kill
        },
        StopStep::Kill => StopStep::Done,
        StopStep::Done => StopStep::Done,
    }
}

} // verus!

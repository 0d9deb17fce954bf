use watch_party::player::ipc::{
    connect_step, find_member, ipc_path, ipc_pipe_path, match_reply, read_reply, ConnectStep, Json,
    Member, MpvIpc, PropertyQuery, Reply, CONNECT_TIMEOUT_MS,
};
use watch_party::player::{
    after_stop_step, mpv_args, MpvPlayer, PlaybackState, ProcessStatus, StopStep, STOP_TIMEOUT_MS,
};

fn text(s: &str) -> Json {
    Json::Text(s.to_string())
}

fn raw(s: &str) -> Json {
    Json::Raw(s.to_string())
}

fn members(list: Vec<(&str, Json)>) -> Option<Vec<Member>> {
    Some(list.into_iter().map(|(key, value)| Member { key: key.to_string(), value }).collect())
}

/// The reply in words.
fn shown(reply: Reply) -> String {
    match reply {
        Reply::Skip => "skip".to_string(),
        Reply::Data(Json::Text(s)) => format!("text {s}"),
        Reply::Data(Json::Raw(s)) => format!("raw {s}"),
        Reply::Data(Json::Null) => "null".to_string(),
        Reply::Refused(s) => format!("refused {s}"),
        Reply::MissingError => "missing".to_string(),
    }
}

// ── Paths and arguments ───────────────────────────────────────────────────────

#[test]
fn socket_paths() {
    assert_eq!(ipc_path(4711), "/tmp/watch-party-4711.sock");
    assert_eq!(ipc_pipe_path(4711), r"\\.\pipe\watch-party-4711");
}

#[test]
fn mpv_arguments() {
    let expected = [
        "--no-terminal",
        "--force-window=yes",
        "--demuxer-lavf-format=mpegts",
        "--audio-display=no",
        "--title=Watch Party",
        "--demuxer-readahead-secs=10",
        "--input-ipc-server=/tmp/s.sock",
        "-",
    ];
    assert_eq!(mpv_args("/tmp/s.sock"), expected);
}

// ── Commands ──────────────────────────────────────────────────────────────────

#[test]
fn commands_are_json_lines() {
    let ipc = MpvIpc::new();
    assert_eq!(ipc.pause(), "{\"command\":[\"set_property\",\"pause\",true]}\n");
    assert_eq!(ipc.resume(), "{\"command\":[\"set_property\",\"pause\",false]}\n");
    assert_eq!(ipc.seek_absolute(12_500_000), "{\"command\":[\"seek\",12.5,\"absolute\"]}\n");
    assert_eq!(ipc.set_speed(1_020_000), "{\"command\":[\"set_property\",\"speed\",1.02]}\n");
    assert_eq!(ipc.set_volume(80), "{\"command\":[\"set_property\",\"volume\",80]}\n");
    assert_eq!(ipc.quit(), "{\"command\":[\"quit\"]}\n");
}

#[test]
fn strings_are_escaped() {
    let line = MpvIpc::new().send_command(&vec![text("show-text"), text("a \"b\"\n"), raw("[1, 2]")]);
    assert_eq!(line, "{\"command\":[\"show-text\",\"a \\\"b\\\"\\n\",[1,2]]}\n");
}

#[test]
fn what_is_no_json_counts_as_null() {
    let line = MpvIpc::new().set_property("x", raw("no json"));
    assert_eq!(line, "{\"command\":[\"set_property\",\"x\",null]}\n");
}

#[test]
fn queries_are_numbered_in_order() {
    let mut ipc = MpvIpc::new();
    let (id, line) = ipc.get_property("playback-time");
    assert_eq!(id, 1);
    assert_eq!(line, "{\"command\":[\"get_property\",\"playback-time\"],\"request_id\":1}\n");
    assert_eq!(ipc.get_property("volume").0, 2);
    assert_eq!(ipc.next_id, 3);
}

// ── Replies ───────────────────────────────────────────────────────────────────

#[test]
fn replies_are_told_apart() {
    let read = |line: &str| shown(read_reply(line, 3));
    assert_eq!(read("{\"data\":12.5,\"error\":\"success\",\"request_id\":3}\n"), "raw 12.5");
    assert_eq!(read("{\"data\":\"a\\nb\",\"error\":\"success\",\"request_id\":3}"), "text a\nb");
    assert_eq!(read("{\"data\":null,\"error\":\"success\",\"request_id\":3}"), "raw null");
    assert_eq!(read("{\"error\":\"success\",\"request_id\":3}"), "null");
    assert_eq!(
        read("{\"error\":\"property unavailable\",\"request_id\":3}"),
        "refused property unavailable"
    );
    assert_eq!(read("{\"request_id\":3}"), "missing");
    assert_eq!(read("{\"error\":7,\"request_id\":3}"), "missing");
}

#[test]
fn other_lines_are_skipped() {
    let read = |line: &str| shown(read_reply(line, 3));
    assert_eq!(read("not json"), "skip");
    assert_eq!(read(""), "skip");
    assert_eq!(read("[1,2]"), "skip");
    assert_eq!(read("{\"event\":\"pause\"}"), "skip");
    assert_eq!(read("{\"event\":\"x\",\"error\":\"success\",\"request_id\":3}"), "skip");
    assert_eq!(read("{\"data\":1,\"error\":\"success\",\"request_id\":4}"), "skip");
    assert_eq!(read("{\"data\":1,\"error\":\"success\",\"request_id\":\"3\"}"), "skip");
    assert_eq!(read("{\"data\":1,\"error\":\"success\",\"request_id\":3.0}"), "skip");
    assert_eq!(read("{\"data\":1,\"error\":\"success\"}"), "skip");
}

#[test]
fn white_space_around_a_line_does_not_matter() {
    let line = "  \t{\"data\":true,\"error\":\"success\",\"request_id\":3}\r\n";
    assert_eq!(shown(read_reply(line, 3)), "raw true");
    let line = "\u{a0}\u{b}{\"data\":true,\"error\":\"success\",\"request_id\":3}\u{3000}";
    assert_eq!(shown(read_reply(line, 3)), "raw true");
}

#[test]
fn first_reply_counts() {
    let mut query = PropertyQuery::new(3, "volume");
    assert!(!query.feed("{\"event\":\"pause\"}\n"));
    assert!(!query.feed("garbage\n"));
    assert!(!query.feed("{\"data\":1,\"error\":\"success\",\"request_id\":2}\n"));
    assert!(query.feed("{\"data\":80,\"error\":\"success\",\"request_id\":3}\n"));
    assert!(query.feed("{\"data\":90,\"error\":\"success\",\"request_id\":3}\n"));
    assert!(matches!(query.finish(), Ok(Json::Raw(s)) if s == "80"));
}

#[test]
fn queries_that_fail() {
    let failure = |query: PropertyQuery| match query.finish() {
        Ok(_) => panic!("expected a failure"),
        Err(text) => text,
    };
    let mut refused = PropertyQuery::new(3, "volume");
    assert!(refused.feed("{\"error\":\"property unavailable\",\"request_id\":3}"));
    assert_eq!(failure(refused), "mpv get_property(volume) error: property unavailable");
    let mut odd = PropertyQuery::new(3, "volume");
    assert!(odd.feed("{\"request_id\":3}"));
    assert_eq!(failure(odd), "mpv response missing error field");
    let mut closed = PropertyQuery::new(3, "volume");
    assert!(!closed.feed("{\"event\":\"shutdown\"}"));
    assert_eq!(
        failure(closed),
        "mpv IPC connection closed while waiting for response to get_property(volume)"
    );
}

#[test]
fn members_are_matched() {
    let list = members(vec![
        ("request_id", raw("9")),
        ("error", text("success")),
        ("data", text("h264")),
    ]);
    assert_eq!(shown(match_reply(&list, 9)), "text h264");
    assert_eq!(shown(match_reply(&list, 8)), "skip");
    assert_eq!(shown(match_reply(&None, 9)), "skip");
    let list = list.unwrap();
    assert!(matches!(find_member(&list, "data"), Some(Json::Text(s)) if s == "h264"));
    assert!(find_member(&list, "event").is_none());
}

#[test]
fn failures_read_as_they_should() {
    let refused = Reply::Refused("property unavailable".to_string());
    assert_eq!(
        refused.failure("playback-time").unwrap(),
        "mpv get_property(playback-time) error: property unavailable"
    );
    assert_eq!(
        Reply::MissingError.failure("x").unwrap(),
        "mpv response missing error field"
    );
    assert_eq!(Reply::Data(raw("1")).failure("x"), None);
    assert_eq!(Reply::Skip.failure("x"), None);
}

#[test]
fn playback_time_defaults_to_zero() {
    let player = MpvPlayer::new(&[0; 32]);
    assert_eq!(player.playback_time(&Ok(raw("61.041708"))), 61_041_708);
    assert_eq!(player.playback_time(&Ok(raw("61"))), 61_000_000);
    assert_eq!(player.playback_time(&Ok(raw("null"))), 0);
    assert_eq!(player.playback_time(&Ok(Json::Null)), 0);
    assert_eq!(player.playback_time(&Ok(text("61"))), 0);
    assert_eq!(player.playback_time(&Err("unavailable".to_string())), 0);
}

#[test]
fn connecting_goes_on_until_the_time_is_up() {
    assert_eq!(connect_step(0, CONNECT_TIMEOUT_MS), ConnectStep::Try { then_wait_ms: 100 });
    assert_eq!(connect_step(3_999, 4_000), ConnectStep::Try { then_wait_ms: 100 });
    assert_eq!(connect_step(4_000, 4_000), ConnectStep::GiveUp);
    assert_eq!(connect_step(0, 0), ConnectStep::GiveUp);
}

// ── State ─────────────────────────────────────────────────────────────────────

#[test]
fn first_chunk_ends_buffering() {
    let mut player = MpvPlayer::new(&[0; 32]);
    assert_eq!(player.state, PlaybackState::Buffering);
    player.chunk_written();
    assert_eq!((player.state, player.chunks_fed), (PlaybackState::Playing, 1));
    player.paused();
    player.chunk_written();
    assert_eq!((player.state, player.chunks_fed), (PlaybackState::Paused, 2));
}

#[test]
fn pause_and_resume_depend_on_the_state() {
    let mut player = MpvPlayer::new(&[0; 32]);
    assert!(player.pause().is_none() && player.resume().is_none());
    player.chunk_written();
    assert!(player.resume().is_none());
    assert_eq!(player.pause().unwrap(), player.ipc.pause());
    player.paused();
    assert!(player.pause().is_none());
    assert_eq!(player.resume().unwrap(), player.ipc.resume());
    player.resumed();
    assert_eq!(player.state, PlaybackState::Playing);
}

#[test]
fn controls_are_handed_on() {
    let mut player = MpvPlayer::new(&[0; 32]);
    assert_eq!(player.seek(-1_500_000), "{\"command\":[\"seek\",-1.5,\"absolute\"]}\n");
    assert_eq!(
        player.nudge_speed(990_000),
        "{\"command\":[\"set_property\",\"speed\",0.99]}\n"
    );
    assert_eq!(player.set_volume(0), "{\"command\":[\"set_property\",\"volume\",0]}\n");
    let (id, line) = player.ask_playback_time();
    assert_eq!(id, 1);
    assert!(line.contains("\"playback-time\""));
    assert_eq!(player.ipc.next_id, 2);
}

#[test]
fn exits_stop_the_player() {
    let mut player = MpvPlayer::new(&[0; 32]);
    assert!(!player.is_running(ProcessStatus::Running));
    assert!(player.is_running(ProcessStatus::Exited));
    assert!(player.is_running(ProcessStatus::Unknown));
    assert!(!player.check_exit(ProcessStatus::Running));
    assert_eq!(player.state, PlaybackState::Buffering);
    assert!(player.check_exit(ProcessStatus::Unknown));
    assert_eq!(player.state, PlaybackState::Stopped);
}

#[test]
fn stopping_asks_mpv_to_quit() {
    let mut player = MpvPlayer::new(&[0; 32]);
    assert_eq!(player.stop(), "{\"command\":[\"quit\"]}\n");
    assert_eq!(player.state, PlaybackState::Stopped);
    assert_eq!(STOP_TIMEOUT_MS, 2000);
}

#[test]
fn stopping_kills_only_what_does_not_exit() {
    let steps = |exited: bool| {
        let mut step = StopStep::Quit;
        let mut all = vec![step];
        while step != StopStep::Done {
            step = after_stop_step(step, exited);
            all.push(step);
        }
        all
    };
    let wait = StopStep::Wait { ms: 2000 };
    assert_eq!(steps(true), [StopStep::Quit, StopStep::CloseInput, wait, StopStep::Done]);
    assert_eq!(
        steps(false),
        [StopStep::Quit, StopStep::CloseInput, wait, StopStep::Kill, StopStep::Done]
    );
    assert_eq!(after_stop_step(StopStep::Done, false), StopStep::Done);
}

#[test]
fn icons() {
    assert_eq!(PlaybackState::Buffering.icon(), "⏳");
    assert_eq!(PlaybackState::Playing.icon(), "▶");
    assert_eq!(PlaybackState::Paused.icon(), "⏸");
    assert_eq!(PlaybackState::Stopped.icon(), "■");
}

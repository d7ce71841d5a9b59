use gbandit::pipeline_watch::{
    after_drop, data_kind, default_log_level, dump_failed_stage, finish_terminal, follow_failed,
    handle_delta, handle_snapshot, handle_sse_event, is_terminal_status, pipeline_stages,
    replayed_log, stream_query, DataKind, EventOutcome, LogLine, PipelineChildStatus,
    PipelineRun, PipelineStageKey, PipelineStreamDelta, Reconnect, SseData, StageLogBuffer,
    StageLogClock, StreamEvent, MAX_RECONNECTS,
};
use gbandit::printer::{Notice, Printer};
use gbandit::sse::{feed, read_frame, take_events};

const QUIET: Printer = Printer { verbose: false, timestamps: false, json: false };
const VERBOSE: Printer = Printer { verbose: true, timestamps: false, json: false };

fn shown(printer: &Printer, list: &[Notice]) -> Vec<String> {
    list.iter().map(|n| printer.render(n).text).collect()
}

fn delta(stage: &str, kind: &str, level: &str, detail: Option<&str>) -> PipelineStreamDelta {
    PipelineStreamDelta {
        created_at: None,
        event: StreamEvent {
            stage: stage.to_string(),
            kind: kind.to_string(),
            level: level.to_string(),
            detail: detail.map(str::to_string),
        },
    }
}

fn at(created_at: &str, mut d: PipelineStreamDelta) -> PipelineStreamDelta {
    d.created_at = Some(created_at.to_string());
    d
}

fn child(status: Option<&str>, log: &str) -> PipelineChildStatus {
    PipelineChildStatus { status: status.map(str::to_string), log_output: log.to_string() }
}

fn run_of(stages: Vec<PipelineStageKey>, status: &str) -> PipelineRun {
    PipelineRun {
        stages,
        status: status.to_string(),
        error_summary: None,
        frontend_build: child(None, ""),
        frontend_publish: child(None, ""),
        backend_migrate: child(None, ""),
        backend_build: child(None, ""),
        backend_deploy: child(None, ""),
    }
}

fn take(printer: &Printer, d: PipelineStreamDelta) -> (Vec<String>, Option<Result<(), String>>) {
    let mut buffers = StageLogBuffer::new();
    let mut clock = StageLogClock::new();
    let r = handle_delta(printer, &mut buffers, &mut clock, &d);
    (shown(printer, &r.shown), r.end)
}

#[test]
fn stages_have_names_and_parts() {
    let mut run = run_of(
        vec![PipelineStageKey::BackendDeploy, PipelineStageKey::FrontendBuild],
        "running",
    );
    run.backend_deploy = child(Some("failed"), "x");
    let stages = pipeline_stages(&run);
    assert_eq!(stages.len(), 2);
    assert_eq!(stages[0].0, "backend_deploy");
    assert_eq!(stages[0].1.log_output, "x");
    assert_eq!(stages[1].0, "frontend_build");
    assert_eq!(PipelineStageKey::FrontendPublish.as_str(), "frontend_publish");
    assert_eq!(PipelineStageKey::BackendMigrate.as_str(), "backend_migrate");
    assert_eq!(PipelineStageKey::BackendBuild.as_str(), "backend_build");
    assert_eq!(default_log_level(), "debug");
}

#[test]
fn headlines_are_shown_and_details_kept() {
    assert_eq!(take(&QUIET, delta("build", "log", "info", Some("a\nb"))).0, vec!["a", "b"]);
    assert_eq!(take(&VERBOSE, delta("build", "log", "info", Some("a"))).0, vec!["[build] a"]);
    assert!(take(&QUIET, delta("build", "log", "debug", Some("a"))).0.is_empty());
    assert_eq!(take(&VERBOSE, delta("build", "log", "debug", Some("a"))).0, vec!["[build] a"]);
    assert!(take(&QUIET, delta("build", "log", "info", None)).0.is_empty());
}

#[test]
fn a_failed_stage_shows_what_was_kept() {
    let mut buffers = StageLogBuffer::new();
    let mut clock = StageLogClock::new();
    for text in ["one\ntwo", "three"] {
        let r = handle_delta(
            &QUIET,
            &mut buffers,
            &mut clock,
            &delta("build", "log", "debug", Some(text)),
        );
        assert!(r.shown.is_empty() && r.end.is_none());
    }
    let r = handle_delta(
        &QUIET,
        &mut buffers,
        &mut clock,
        &delta("build", "failed", "debug", Some("exit 1")),
    );
    assert_eq!(
        shown(&QUIET, &r.shown),
        vec![
            "[build] failed: exit 1",
            "--- build log ---",
            "one",
            "two",
            "three",
            "--- end build log ---"
        ]
    );
    assert!(r.end.is_none());
    // Nothing is left for a second failure.
    let again = dump_failed_stage(&QUIET, &mut buffers, "build");
    assert_eq!(shown(&QUIET, &again), vec!["--- build log ---", "--- end build log ---"]);
    assert!(dump_failed_stage(&VERBOSE, &mut buffers, "build").is_empty());
}

#[test]
fn markers_stay_on_standard_output() {
    let json = Printer { verbose: false, timestamps: false, json: true };
    let mut buffers = StageLogBuffer::new();
    buffers.put("build", vec![LogLine { created_at: None, text: "x".to_string() }]);
    let list = dump_failed_stage(&json, &mut buffers, "build");
    let where_to: Vec<bool> = list.iter().map(|n| json.render(n).to_stderr).collect();
    assert_eq!(where_to, vec![false, true, false]);
}

#[test]
fn changes_of_status_are_for_verbose_output() {
    assert!(take(&QUIET, delta("build", "started", "debug", None)).0.is_empty());
    assert_eq!(take(&VERBOSE, delta("build", "started", "debug", None)).0, vec!["[build] started"]);
    assert_eq!(
        take(&VERBOSE, delta("build", "succeeded", "debug", Some("done"))).0,
        vec!["[build] succeeded: done"]
    );
    assert_eq!(
        take(&VERBOSE, delta("build", "skipped", "debug", Some(""))).0,
        vec!["[build] skipped"]
    );
    assert!(take(&VERBOSE, delta("pipeline", "started", "debug", None)).0.is_empty());
    assert_eq!(
        take(&QUIET, delta("build", "cancelled", "debug", None)).0,
        vec!["[build] cancelled: "]
    );
    assert!(take(&VERBOSE, delta("build", "other", "debug", Some("x"))).0.is_empty());
}

#[test]
fn the_pipeline_ends_the_deploy() {
    let (lines, end) = take(&QUIET, delta("pipeline", "succeeded", "debug", None));
    assert_eq!(lines, vec!["Deploy succeeded."]);
    assert_eq!(end, Some(Ok(())));
    let (lines, end) = take(&QUIET, delta("pipeline", "failed", "debug", Some("why")));
    assert!(lines.is_empty());
    assert_eq!(end, Some(Err("why".to_string())));
    let (_, end) = take(&QUIET, delta("pipeline", "failed", "debug", None));
    assert_eq!(end, Some(Err("deploy failed".to_string())));
    let (lines, end) = take(&QUIET, delta("pipeline", "cancelled", "debug", Some("stop")));
    assert_eq!(lines, vec!["[pipeline] cancelled: stop"]);
    assert_eq!(end, Some(Err("deploy cancelled: stop".to_string())));
    let (_, end) = take(&QUIET, delta("pipeline", "cancelled", "debug", None));
    assert_eq!(end, Some(Err("deploy cancelled: cancelled".to_string())));
    assert_eq!(take(&QUIET, delta("pipeline", "skipped", "debug", None)).1, None);
}

#[test]
fn a_snapshot_catches_up() {
    let mut run = run_of(
        vec![PipelineStageKey::FrontendBuild, PipelineStageKey::BackendBuild],
        "running",
    );
    run.frontend_build = child(Some("succeeded"), "f");
    run.backend_build = child(Some("failed"), "b1\nb2");
    let mut buffers = StageLogBuffer::new();
    let r = handle_snapshot(&QUIET, &mut buffers, &run);
    assert_eq!(
        shown(&QUIET, &r.shown),
        vec!["--- backend_build log ---", "b1", "b2", "--- end backend_build log ---"]
    );
    assert!(r.end.is_none());
    assert!(buffers.get("backend_build").is_none());
    assert_eq!(buffers.get("frontend_build").unwrap()[0].text, "f");

    let r = handle_snapshot(&VERBOSE, &mut StageLogBuffer::new(), &run);
    assert_eq!(
        shown(&VERBOSE, &r.shown),
        vec![
            "[frontend_build] f",
            "[backend_build] b1",
            "[backend_build] b2",
            "--- backend_build log ---",
            "b1",
            "b2",
            "--- end backend_build log ---",
            "[pipeline] status: running"
        ]
    );
}

#[test]
fn a_snapshot_may_be_the_end() {
    let mut run = run_of(vec![], "failed");
    let r = handle_snapshot(&QUIET, &mut StageLogBuffer::new(), &run);
    assert_eq!(r.end, Some(Err("deploy failed".to_string())));
    run.error_summary = Some("sum".to_string());
    let r = handle_snapshot(&QUIET, &mut StageLogBuffer::new(), &run);
    assert_eq!(r.end, Some(Err("sum".to_string())));
    let done = run_of(vec![], "succeeded");
    let r = handle_snapshot(&QUIET, &mut StageLogBuffer::new(), &done);
    assert_eq!(shown(&QUIET, &r.shown), vec!["Deploy succeeded."]);
    assert_eq!(r.end, Some(Ok(())));
    for status in ["succeeded", "failed", "skipped", "cancelled"] {
        assert!(is_terminal_status(status));
    }
    assert!(!is_terminal_status("running"));
    let EventOutcome { end, .. } = finish_terminal("skipped", None);
    assert_eq!(end, Some(Err("deploy skipped".to_string())));
}

#[test]
fn lines_are_not_shown_twice() {
    let mut clock = StageLogClock::new();
    let early = "2024-05-06T07:08:09.1Z";
    let late = "2024-05-06T07:08:09.2Z";
    assert!(!replayed_log(&mut clock, "a", Some(late)));
    assert!(replayed_log(&mut clock, "a", Some(late)));
    assert!(replayed_log(&mut clock, "a", Some(early)));
    assert!(replayed_log(&mut clock, "a", Some("2024-05-06T09:08:09.2+02:00")));
    assert!(!replayed_log(&mut clock, "b", Some(early)));
    assert!(!replayed_log(&mut clock, "a", None));
    assert!(!replayed_log(&mut clock, "a", Some("soon")));
    assert!(!replayed_log(&mut clock, "a", Some("2024-05-06T07:08:09.3Z")));

    let mut buffers = StageLogBuffer::new();
    let mut clock = StageLogClock::new();
    let line = || at(late, delta("a", "log", "info", Some("x")));
    let first = handle_delta(&QUIET, &mut buffers, &mut clock, &line());
    assert_eq!(first.shown.len(), 1);
    let second = handle_delta(&QUIET, &mut buffers, &mut clock, &line());
    assert!(second.shown.is_empty());
}

#[test]
fn events_are_decoded_by_their_type() {
    assert_eq!(data_kind("snapshot"), DataKind::Snapshot);
    assert_eq!(data_kind(""), DataKind::Delta);
    assert_eq!(data_kind("pipeline_event"), DataKind::Delta);
    assert_eq!(data_kind("heartbeat"), DataKind::Other);
    let mut buffers = StageLogBuffer::new();
    let mut clock = StageLogClock::new();
    let r = handle_sse_event(&QUIET, &mut buffers, &mut clock, &SseData::Unread);
    assert!(r.shown.is_empty() && r.end.is_none());
    let done = SseData::Delta(delta("pipeline", "succeeded", "debug", None));
    let r = handle_sse_event(&QUIET, &mut buffers, &mut clock, &done);
    assert_eq!(r.end, Some(Ok(())));
    let snap = SseData::Snapshot(run_of(vec![], "cancelled"));
    let r = handle_sse_event(&QUIET, &mut buffers, &mut clock, &snap);
    assert_eq!(r.end, Some(Err("deploy cancelled".to_string())));
}

#[test]
fn frames_are_read_field_by_field() {
    let frame = read_frame("id: 7\nevent: snapshot \n: comment\ndata: {\ndata:x\ndata:  y\nfoo: 1", None);
    assert_eq!(frame.event, "snapshot");
    assert_eq!(frame.data, "{\nx\n y");
    assert_eq!(frame.last_event_id, Some(7));
    let frame = read_frame("id: x\r\ndata: a\r\n", Some(3));
    assert_eq!(frame.event, "");
    assert_eq!(frame.data, "a");
    assert_eq!(frame.last_event_id, Some(3));
    assert_eq!(read_frame("id: +9", None).last_event_id, Some(9));
    assert_eq!(read_frame("id: -9\nid: 10", None).last_event_id, Some(10));
    assert_eq!(read_frame("id: 9223372036854775808", Some(1)).last_event_id, Some(1));
    assert_eq!(read_frame("", None).data, "");
}

#[test]
fn the_stream_is_cut_at_blank_lines() {
    let mut buf = String::new();
    assert_eq!(take_events(&mut buf, "a\nb\n\nc\n"), vec!["a\nb"]);
    assert_eq!(buf, "c\n");
    assert_eq!(take_events(&mut buf, "\n\n\nd"), vec!["c", ""]);
    assert_eq!(buf, "d");
    assert!(take_events(&mut buf, "").is_empty());
}

#[test]
fn the_pieces_of_the_stream_do_not_matter() {
    let text = "id: 1\ndata: a\n\n\n\ndata: bé\n\nrest";
    let mut whole = String::new();
    let at_once = feed(&mut whole, text.as_bytes());
    for cut in 0..=text.len() {
        if !text.is_char_boundary(cut) {
            continue;
        }
        let mut buf = String::new();
        let mut events = feed(&mut buf, &text.as_bytes()[..cut]);
        events.extend(feed(&mut buf, &text.as_bytes()[cut..]));
        assert_eq!(events, at_once);
        assert_eq!(buf, whole);
    }
    let mut buf = String::new();
    assert_eq!(feed(&mut buf, &[b'a', 0xc3, b'\n', b'\n']), vec!["a\u{fffd}"]);
}

#[test]
fn a_dropped_stream_is_taken_up_again() {
    match after_drop(&VERBOSE, None, None, 0) {
        Reconnect::Retry { failures, delay_ms, shown: list } => {
            assert_eq!((failures, delay_ms), (1, 500));
            assert_eq!(
                shown(&VERBOSE, &list),
                vec!["[pipeline] event stream dropped; reconnecting (1/10) from sequence start"]
            );
        }
        other => panic!("{other:?}"),
    }
    match after_drop(&QUIET, Some(5), Some(5), 8) {
        Reconnect::Retry { failures, delay_ms, shown: list } => {
            assert_eq!((failures, delay_ms), (9, 3000));
            assert!(list.is_empty());
        }
        other => panic!("{other:?}"),
    }
    // Progress starts the count afresh.
    assert!(matches!(
        after_drop(&QUIET, Some(5), Some(6), MAX_RECONNECTS),
        Reconnect::Retry { failures: 1, delay_ms: 500, .. }
    ));
    match after_drop(&QUIET, Some(5), Some(5), MAX_RECONNECTS) {
        Reconnect::GiveUp(m) => assert_eq!(
            m,
            "lost connection to the deploy event stream after 10 reconnect attempts — the deploy may still be running on the platform. Check the project dashboard or `gbandit logs backend` to see how it ended."
        ),
        other => panic!("{other:?}"),
    }
}

#[test]
fn the_stream_resumes_where_it_was() {
    assert!(stream_query(None).is_empty());
    assert_eq!(stream_query(Some(12)), vec![("since".to_string(), "12".to_string())]);
    assert_eq!(follow_failed("gone"), "failed to follow deploy progress: gone");
}

use gbandit::pipeline_watch::{
    undecoded, DataKind, PipelineStreamDelta, Reconnect, SseData, StreamEvent, MAX_RECONNECTS,
};
use gbandit::printer::Printer;
use gbandit::watch::PipelineWatch;

const QUIET: Printer = Printer { verbose: false, timestamps: false, json: false };

fn line(created_at: Option<&str>, level: &str, text: &str) -> SseData {
    SseData::Delta(PipelineStreamDelta {
        created_at: created_at.map(str::to_string),
        event: StreamEvent {
            stage: "build".to_string(),
            kind: "log".to_string(),
            level: level.to_string(),
            detail: Some(text.to_string()),
        },
    })
}

#[test]
fn a_connection_starts_where_the_last_one_came_to() {
    let mut watch = PipelineWatch::new();
    assert_eq!(watch.connect(), None);
    let events = watch.receive(b"id: 4\nevent: snapshot\ndata: {}\n\nid: 5\nda");
    assert_eq!(events, vec!["id: 4\nevent: snapshot\ndata: {}"]);
    let (kind, data) = watch.read(&events[0]);
    assert_eq!((kind, data.as_str()), (DataKind::Snapshot, "{}"));
    // The unfinished event is not counted, and is not carried over.
    assert_eq!(watch.connect(), Some(4));
    assert_eq!(watch.receive(b"ta: x\n\n"), vec!["ta: x"]);
}

#[test]
fn sequence_numbers_count_even_where_data_does_not() {
    let mut watch = PipelineWatch::new();
    watch.connect();
    let (kind, data) = watch.read("id: 9\ndata: not json");
    assert_eq!((kind, data.as_str()), (DataKind::Delta, "not json"));
    let outcome = watch.take_in(&QUIET, &SseData::Unread);
    assert!(outcome.shown.is_empty() && outcome.end.is_none());
    assert_eq!(watch.connect(), Some(9));
}

#[test]
fn only_an_undecoded_snapshot_is_an_error() {
    assert_eq!(undecoded(DataKind::Snapshot).unwrap_err(), "failed to decode snapshot");
    assert!(matches!(undecoded(DataKind::Delta), Ok(SseData::Unread)));
    assert!(matches!(undecoded(DataKind::Other), Ok(SseData::Unread)));

    let mut watch = PipelineWatch::new();
    watch.connect();
    assert_eq!(
        watch.take_event(&QUIET, DataKind::Snapshot, None).unwrap_err(),
        "failed to decode snapshot"
    );
    for kind in [DataKind::Delta, DataKind::Other] {
        let outcome = watch.take_event(&QUIET, kind, None).unwrap();
        assert!(outcome.shown.is_empty() && outcome.end.is_none());
    }
    let shown = watch.take_event(&QUIET, DataKind::Delta, Some(line(None, "info", "a"))).unwrap();
    assert_eq!(shown.shown.len(), 1);
}

#[test]
fn replayed_lines_are_not_shown_after_a_reconnect() {
    let mut watch = PipelineWatch::new();
    watch.connect();
    let at = Some("2024-05-06T07:08:09Z");
    assert_eq!(watch.take_in(&QUIET, &line(at, "info", "a")).shown.len(), 1);
    assert!(matches!(watch.dropped(&QUIET), Reconnect::Retry { failures: 1, delay_ms: 500, .. }));
    watch.connect();
    assert!(watch.take_in(&QUIET, &line(at, "info", "a")).shown.is_empty());
    assert_eq!(
        watch.take_in(&QUIET, &line(Some("2024-05-06T07:08:10Z"), "info", "b")).shown.len(),
        1
    );
}

#[test]
fn only_a_stall_is_given_up_on() {
    let mut watch = PipelineWatch::new();
    for _ in 0..MAX_RECONNECTS {
        watch.connect();
        assert!(matches!(watch.dropped(&QUIET), Reconnect::Retry { .. }));
    }
    watch.connect();
    watch.read("id: 1\ndata:");
    assert!(matches!(watch.dropped(&QUIET), Reconnect::Retry { failures: 1, .. }));
    for _ in 1..MAX_RECONNECTS {
        watch.connect();
        assert!(matches!(watch.dropped(&QUIET), Reconnect::Retry { .. }));
    }
    watch.connect();
    assert!(matches!(watch.dropped(&QUIET), Reconnect::GiveUp(_)));
}

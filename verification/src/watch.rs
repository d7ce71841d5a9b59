//! Following one deploy across the connections that its event stream takes.

use vstd::prelude::*;
use vstd::string::*;

use crate::lines::{join, lines};
use crate::outside::{utf8_lossy, Instant};
use crate::pipeline_watch::{
    after_drop, buffered, caught_up, data_kind, delta_clock, delta_end, delta_logs, delta_shown,
    drops_in_a_row, end_text, event_data, handle_sse_event, kind_of_data, lost_stream_text, reconnect_delay,
    reconnect_text, snapshot_end, snapshot_shown, DataKind, EventOutcome, LogView, Reconnect,
    undecoded, SseData, StageLogBuffer, StageLogClock, MAX_RECONNECTS,
};
use crate::printer::{debug_shown, notices, NoticeView, Printer};
use crate::sse::{complete_events, data_lines, event_id, event_type, feed, pending, read_frame};
use crate::text::texts;

verus! {

/// What is known of a deploy that is followed.
pub struct PipelineWatch {
    buffers: StageLogBuffer,
    log_clock: StageLogClock,
    last_event_id: Option<i64>,
    resume_from: Option<i64>,
    failures: u32,
    text: String,
}

/// A [`PipelineWatch`], as characters and numbers.
pub struct WatchView {
    /// The buffered lines of each stage.
    pub logs: Map<Seq<char>, Seq<LogView>>,
    /// The newest log time seen of each stage.
    pub clock: Map<Seq<char>, Instant>,
    /// The sequence number of the newest event.
    pub last_event_id: Option<i64>,
    /// Where the connection started.
    pub resume_from: Option<i64>,
    /// The drops in a row.
    pub failures: int,
    /// What the connection brought behind its last complete event.
    pub text: Seq<char>,
}

/// What an event shows.
pub open spec fn event_shown(w: WatchView, p: Printer, data: SseData) -> Seq<NoticeView> {
    match data {
        SseData::Snapshot(run) => snapshot_shown(p, run, w.logs),
        SseData::Delta(delta) => delta_shown(p, delta, w.clock, w.logs),
        SseData::Unread => Seq::empty(),
    }
}

/// How the deploy ended, where an event says so.
pub open spec fn event_end(data: SseData) -> Option<Result<(), Seq<char>>> {
    match data {
        SseData::Snapshot(run) => snapshot_end(run),
        SseData::Delta(delta) => delta_end(delta),
        SseData::Unread => None,
    }
}

/// What is known after an event.
pub open spec fn after_event(w: WatchView, data: SseData) -> WatchView {
    match data {
        SseData::Snapshot(run) => WatchView { logs: caught_up(run, run.stages@, w.logs), ..w },
        SseData::Delta(delta) => WatchView {
            logs: delta_logs(delta, w.clock, w.logs),
            clock: delta_clock(delta, w.clock),
            ..w
        },
        SseData::Unread => w,
    }
}

/// What is known once more of the stream has come.
pub open spec fn received(w: WatchView, more: Seq<char>) -> WatchView {
    WatchView { text: pending(w.text + more), ..w }
}

/// What is known once the lines of an event were read.
pub open spec fn noted(w: WatchView, lines: Seq<Seq<char>>) -> WatchView {
    WatchView { last_event_id: event_id(lines, w.last_event_id), ..w }
}

/// What is known when a connection begins.
pub open spec fn connected(w: WatchView) -> WatchView {
    WatchView { resume_from: w.last_event_id, text: Seq::empty(), ..w }
}

/// Whether a connection that drops is the last.
pub open spec fn gives_up(w: WatchView) -> bool {
    drops(w) > MAX_RECONNECTS
}

/// The drops in a row once the connection drops.
pub open spec fn drops(w: WatchView) -> int {
    drops_in_a_row(w.last_event_id != w.resume_from, w.failures)
}

impl View for PipelineWatch {
    type V = WatchView;

    closed spec fn view(&self) -> WatchView {
        WatchView {
            logs: buffered(self.buffers@),
            clock: self.log_clock@,
            last_event_id: self.last_event_id,
            resume_from: self.resume_from,
            failures: self.failures as int,
            text: self.text@,
        }
    }
}

impl PipelineWatch {
    /// The tables have one row per stage, and the drops in a row are within their limit.
    pub closed spec fn wf(&self) -> bool {
        self.buffers.wf() && self.log_clock.wf() && self.failures <= MAX_RECONNECTS
    }

    /// A deploy of which nothing is known.
    pub fn new() -> (r: Self)
        ensures
            r.wf(),
            r@.logs == Map::<Seq<char>, Seq<LogView>>::empty(),
            r@.clock == Map::<Seq<char>, Instant>::empty(),
            r@.last_event_id is None,
            r@.resume_from is None,
            r@.failures == 0,
            r@.text.len() == 0,
    {
        let r = PipelineWatch {
            buffers: StageLogBuffer::new(),
            log_clock: StageLogClock::new(),
            last_event_id: None,
            resume_from: None,
            failures: 0,
            text: String::new(),
        };
        proof {
            assert(r@.logs =~= Map::<Seq<char>, Seq<LogView>>::empty());
        }
        r
    }

    /// Begins a connection, and says where the stream is to be taken up. What the last
    /// connection left of an unfinished event is dropped: the stream brings it again.
    pub fn connect(&mut self) -> (r: Option<i64>)
        requires
            old(self).wf(),
        ensures
            final(self).wf(),
            r == old(self)@.last_event_id,
            final(self)@ == (WatchView {
                resume_from: old(self)@.last_event_id,
                text: Seq::empty(),
                ..old(self)@
            }),
            final(self)@ == connected(old(self)@),
    {
        self.resume_from = self.last_event_id;
        self.text = String::new();
        self.last_event_id
    }

    /// Takes a chunk of the stream, and gives the events that it completes.
    pub fn receive(&mut self, chunk: &[u8]) -> (r: Vec<String>)
        requires
            old(self).wf(),
        ensures
            final(self).wf(),
            texts(r@) == complete_events(old(self)@.text + utf8_lossy(chunk@)),
            final(self)@ == received(old(self)@, utf8_lossy(chunk@)),
            final(self)@ == (WatchView {
                text: pending(old(self)@.text + utf8_lossy(chunk@)),
                ..old(self)@
            }),
    {
        feed(&mut self.text, chunk)
    }

    /// Reads an event: what its data is to be decoded as, and the data. Its sequence number
    /// is noted even where the data cannot be decoded.
    pub fn read(&mut self, raw: &str) -> (r: (DataKind, String))
        requires
            old(self).wf(),
        ensures
            final(self).wf(),
            r.0 == kind_of_data(event_type(lines(raw@))),
            r.1@ == join(data_lines(lines(raw@)), "\n"@),
            final(self)@ == noted(old(self)@, lines(raw@)),
            final(self)@ == (WatchView {
                last_event_id: event_id(lines(raw@), old(self)@.last_event_id),
                ..old(self)@
            }),
    {
        let frame = read_frame(raw, self.last_event_id);
        self.last_event_id = frame.last_event_id;
        (data_kind(frame.event.as_str()), frame.data)
    }

    /// Takes in the decoded data of an event.
    pub fn take_in(&mut self, printer: &Printer, data: &SseData) -> (r: EventOutcome)
        requires
            old(self).wf(),
        ensures
            final(self).wf(),
            notices(r.shown@) == event_shown(old(self)@, *printer, *data),
            end_text(r.end) == event_end(*data),
            final(self)@ == after_event(old(self)@, *data),
    {
        let r = handle_sse_event(printer, &mut self.buffers, &mut self.log_clock, data);
        proof {
            if *data is Unread {
                assert(notices(r.shown@) =~= Seq::<NoticeView>::empty());
            }
        }
        r
    }

    /// Takes in an event whose data was decoded, or could not be. A snapshot that could not
    /// be decoded is an error.
    pub fn take_event(
        &mut self,
        printer: &Printer,
        kind: DataKind,
        decoded: Option<SseData>,
    ) -> (r: Result<EventOutcome, String>)
        requires
            old(self).wf(),
        ensures
            final(self).wf(),
            match event_data(kind, decoded) {
                Ok(data) => {
                    &&& r matches Ok(outcome)
                    &&& notices(outcome.shown@) == event_shown(old(self)@, *printer, data)
                    &&& end_text(outcome.end) == event_end(data)
                    &&& final(self)@ == after_event(old(self)@, data)
                },
                Err(text) => r matches Err(t) && t@ == text && final(self)@ == old(self)@,
            },
    {
        let data = match decoded {
            Some(data) => data,
            None => match undecoded(kind) {
                Ok(data) => data,
                Err(text) => {
                    return Err(text);
                },
            },
        };
        Ok(self.take_in(printer, &data))
    }

    /// Decides on a connection that dropped. Only a run of drops without any progress is
    /// given up on.
    pub fn dropped(&mut self, printer: &Printer) -> (r: Reconnect)
        requires
            old(self).wf(),
        ensures
            final(self).wf(),
            match r {
                Reconnect::GiveUp(m) => drops(old(self)@) > MAX_RECONNECTS && m@
                    == lost_stream_text() && final(self)@ == old(self)@,
                Reconnect::Retry { failures, delay_ms, shown } => {
                    let now = drops(old(self)@);
                    &&& now <= MAX_RECONNECTS
                    &&& failures == now
                    &&& delay_ms == reconnect_delay(now)
                    &&& notices(shown@) == debug_shown(
                        *printer,
                        "pipeline"@,
                        None,
                        reconnect_text(now, old(self)@.resume_from),
                    )
                    &&& final(self)@ == (WatchView { failures: now, ..old(self)@ })
                },
            },
            r is GiveUp <==> gives_up(old(self)@),
    {
        let r = after_drop(printer, self.resume_from, self.last_event_id, self.failures);
        match &r {
            Reconnect::GiveUp(_) => {},
            Reconnect::Retry { failures, .. } => {
                self.failures = *failures;
            },
        }
        r
    }
}

/// Nothing that an event holds moves the place where the stream is taken up again, the count
/// of drops, or the text that is still to be read.
pub proof fn law_events_keep_the_place(w: WatchView, data: SseData)
    ensures
        after_event(w, data).last_event_id == w.last_event_id,
        after_event(w, data).resume_from == w.resume_from,
        after_event(w, data).failures == w.failures,
        after_event(w, data).text == w.text,
{
}

/// Data that is passed over changes nothing and shows nothing; a snapshot and a change are
/// shown, and end the deploy, as such.
pub proof fn law_unread_data_changes_nothing(w: WatchView, p: Printer, data: SseData)
    requires
        data is Unread,
    ensures
        after_event(w, data) == w,
        event_shown(w, p, data).len() == 0,
        event_end(data) is None,
{
}

/// A connection that brought a new event has made progress, and its drop starts the count
/// afresh; one that brought none adds to it.
pub proof fn law_new_events_are_progress(w: WatchView)
    ensures
        w.last_event_id != w.resume_from ==> drops(w) == 1,
        w.last_event_id == w.resume_from ==> drops(w) == w.failures + 1,
{
}

/// A connection takes the stream up behind the last event that was read, and forgets what was
/// read of the next one; nothing else changes, and it has made no progress yet.
pub proof fn law_connections_go_on_behind_the_last_event(w: WatchView)
    ensures
        connected(w).resume_from == w.last_event_id,
        connected(w).last_event_id == w.last_event_id,
        connected(w).text.len() == 0,
        connected(w).logs == w.logs,
        connected(w).clock == w.clock,
        connected(w).failures == w.failures,
        drops(connected(w)) == w.failures + 1,
        connected(connected(w)) == connected(w),
{
}

/// A deploy is given up only after ten connections in a row without an event, and a connection
/// that brought one is never the last.
pub proof fn law_ten_drops_in_a_row_are_too_many(w: WatchView)
    ensures
        gives_up(w) <==> w.last_event_id == w.resume_from && w.failures >= 10,
{
}

/// What comes of the stream is kept as far as it completes no event, and reading an event
/// notes its number, whatever it holds; neither changes anything else.
pub proof fn law_reading_keeps_the_rest(w: WatchView, more: Seq<char>, lines: Seq<Seq<char>>)
    ensures
        ({
            let r = received(w, more);
            &&& r.text == pending(w.text + more)
            &&& r.last_event_id == w.last_event_id
            &&& r.resume_from == w.resume_from
            &&& r.failures == w.failures
            &&& r.logs == w.logs
            &&& r.clock == w.clock
        }),
        ({
            let n = noted(w, lines);
            &&& n.last_event_id == event_id(lines, w.last_event_id)
            &&& n.text == w.text
            &&& n.resume_from == w.resume_from
            &&& n.failures == w.failures
            &&& n.logs == w.logs
            &&& n.clock == w.clock
        }),
{
}

} // verus!

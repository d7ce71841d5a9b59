//! Following a deploy: what each event of the stream shows, when the deploy has ended, and
//! when a dropped connection is taken up again.

use vstd::prelude::*;
use vstd::string::*;

use crate::numbers::{decimal, decimal_text, signed_decimal, signed_text};
use crate::outside::{not_after, parse_rfc3339, rfc3339_instant, Instant};
use crate::printer::{
    debug_shown, event_lines, info_shown, notices, status_shown, Notice, NoticeView, Printer,
};
use crate::stage_table::StageTable;
use crate::text::{
    contains, copied, ends_with, law_texts_contain_their_parts, opt_str, opt_text, same, starts_with,
};

verus! {

/// A stage of a pipeline.
#[derive(Clone, Copy, Debug, PartialEq, Eq, Hash, Structural)]
pub enum PipelineStageKey {
    FrontendBuild,
    FrontendPublish,
    BackendMigrate,
    BackendBuild,
    BackendDeploy,
}

/// The name of a stage.
pub open spec fn stage_name(key: PipelineStageKey) -> Seq<char> {
    match key {
        PipelineStageKey::FrontendBuild => "frontend_build"@,
        PipelineStageKey::FrontendPublish => "frontend_publish"@,
        PipelineStageKey::BackendMigrate => "backend_migrate"@,
        PipelineStageKey::BackendBuild => "backend_build"@,
        PipelineStageKey::BackendDeploy => "backend_deploy"@,
    }
}

impl PipelineStageKey {
    /// The name of the stage.
    pub fn as_str(self) -> (r: &'static str)
        ensures
            r@ == stage_name(self),
    {
        match self {
            PipelineStageKey::FrontendBuild => "frontend_build",
            PipelineStageKey::FrontendPublish => "frontend_publish",
            PipelineStageKey::BackendMigrate => "backend_migrate",
            PipelineStageKey::BackendBuild => "backend_build",
            PipelineStageKey::BackendDeploy => "backend_deploy",
        }
    }
}

/// How far a stage has come.
#[derive(Debug)]
pub struct PipelineChildStatus {
    /// `None` while the stage has not reported.
    pub status: Option<String>,
    pub log_output: String,
}

/// A pipeline as a whole.
#[derive(Debug)]
pub struct PipelineRun {
    /// The planned stages in execution order.
    pub stages: Vec<PipelineStageKey>,
    pub status: String,
    pub error_summary: Option<String>,
    pub frontend_build: PipelineChildStatus,
    pub frontend_publish: PipelineChildStatus,
    pub backend_migrate: PipelineChildStatus,
    pub backend_build: PipelineChildStatus,
    pub backend_deploy: PipelineChildStatus,
}

/// The part of `run` that a stage has.
pub open spec fn child_of(run: PipelineRun, key: PipelineStageKey) -> PipelineChildStatus {
    match key {
        PipelineStageKey::FrontendBuild => run.frontend_build,
        PipelineStageKey::FrontendPublish => run.frontend_publish,
        PipelineStageKey::BackendMigrate => run.backend_migrate,
        PipelineStageKey::BackendBuild => run.backend_build,
        PipelineStageKey::BackendDeploy => run.backend_deploy,
    }
}

/// The planned stages of a pipeline in execution order, by name.
pub fn pipeline_stages(pipeline: &PipelineRun) -> (r: Vec<(&'static str, &PipelineChildStatus)>)
    ensures
        r@.len() == pipeline.stages@.len(),
        forall|i: int|
            0 <= i < r@.len() ==> (#[trigger] r@[i]).0@ == stage_name(pipeline.stages@[i])
                && *r@[i].1 == child_of(*pipeline, pipeline.stages@[i]),
{
    let mut out: Vec<(&'static str, &PipelineChildStatus)> = Vec::new();
    let mut i: usize = 0;
    while i < pipeline.stages.len()
        invariant
            i <= pipeline.stages@.len(),
            out@.len() == i,
            forall|j: int|
                0 <= j < i ==> (#[trigger] out@[j]).0@ == stage_name(pipeline.stages@[j])
                    && *out@[j].1 == child_of(*pipeline, pipeline.stages@[j]),
        decreases pipeline.stages@.len() - i,
    {
        let key = pipeline.stages[i];
        let child = match key {
            PipelineStageKey::FrontendBuild => &pipeline.frontend_build,
            PipelineStageKey::FrontendPublish => &pipeline.frontend_publish,
            PipelineStageKey::BackendMigrate => &pipeline.backend_migrate,
            PipelineStageKey::BackendBuild => &pipeline.backend_build,
            PipelineStageKey::BackendDeploy => &pipeline.backend_deploy,
        };
        out.push((key.as_str(), child));
        i = i + 1;
    }
    out
}

/// A change that the stream reports.
#[derive(Debug)]
pub struct PipelineStreamDelta {
    pub created_at: Option<String>,
    pub event: StreamEvent,
}

/// The event of a change.
#[derive(Debug)]
pub struct StreamEvent {
    pub stage: String,
    pub kind: String,
    /// `info` for a headline that is always shown, `debug` for what only verbose output
    /// shows.
    pub level: String,
    pub detail: Option<String>,
}

/// The level of an event that names none.
pub fn default_log_level() -> (r: String)
    ensures
        r@ == "debug"@,
{
    "debug".to_string()
}

/// A line of a stage's log that was not shown, with the time of its event.
#[derive(Debug)]
pub struct LogLine {
    pub created_at: Option<String>,
    pub text: String,
}

/// A [`LogLine`], as characters.
pub struct LogView {
    pub created_at: Option<Seq<char>>,
    pub text: Seq<char>,
}

impl View for LogLine {
    type V = LogView;

    open spec fn view(&self) -> LogView {
        LogView { created_at: opt_text(self.created_at), text: self.text@ }
    }
}

/// A list of log lines, as characters.
pub open spec fn log_views(list: Seq<LogLine>) -> Seq<LogView> {
    list.map_values(|l: LogLine| l@)
}

/// The buffered debug lines of each stage, kept for the case that the stage fails.
pub type StageLogBuffer = StageTable<Vec<LogLine>>;

/// The newest log time seen of each stage. A resumed stream replays lines, and anything at
/// or before this time was shown.
pub type StageLogClock = StageTable<Instant>;

/// The buffered lines of each stage, as characters.
pub open spec fn buffered(m: Map<Seq<char>, Vec<LogLine>>) -> Map<Seq<char>, Seq<LogView>> {
    m.map_values(|v: Vec<LogLine>| log_views(v@))
}

/// The lines that `stage` has in a buffer.
pub open spec fn lines_in(logs: Map<Seq<char>, Seq<LogView>>, stage: Seq<char>) -> Seq<LogView> {
    if logs.contains_key(stage) {
        logs[stage]
    } else {
        Seq::empty()
    }
}

// ---------------------------------------------------------------------------
// The log of a stage that failed
// ---------------------------------------------------------------------------

/// The lines of some log entries, as events of `stage`.
pub open spec fn entry_lines(stage: Seq<char>, entries: Seq<LogView>) -> Seq<NoticeView>
    decreases entries.len(),
{
    if entries.len() == 0 {
        Seq::empty()
    } else {
        entry_lines(stage, entries.drop_last()) + event_lines(
            stage,
            entries.last().created_at,
            entries.last().text,
            false,
        )
    }
}

/// What is shown of the log of a stage that failed. Verbose output has shown the lines as
/// they came, so that nothing is added to it where there are none.
pub open spec fn dump_shown(p: Printer, stage: Seq<char>, entries: Seq<LogView>) -> Seq<NoticeView> {
    if entries.len() == 0 && p.verbose {
        Seq::empty()
    } else {
        seq![NoticeView::Plain("--- "@ + stage + " log ---"@)] + entry_lines(stage, entries)
            + seq![NoticeView::Plain("--- end "@ + stage + " log ---"@)]
    }
}

/// Appends notices to a list of them.
fn extend(out: &mut Vec<Notice>, more: Vec<Notice>)
    ensures
        notices(final(out)@) == notices(old(out)@) + notices(more@),
{
    let mut more = more;
    let ghost given = more@;
    let ghost before = out@;
    out.append(&mut more);
    proof {
        assert(notices(out@) =~= notices(before) + notices(given));
    }
}

/// Appends one notice to a list of them.
fn add_one(out: &mut Vec<Notice>, notice: Notice)
    ensures
        notices(final(out)@) == notices(old(out)@).push(notice@),
{
    let ghost before = out@;
    out.push(notice);
    proof {
        assert(notices(out@) =~= notices(before).push(notice@));
    }
}

/// Takes the buffered log of a stage that failed, and shows it between markers so that the
/// failure stands out.
pub fn dump_failed_stage(printer: &Printer, buffers: &mut StageLogBuffer, stage: &str) -> (r: Vec<
    Notice,
>)
    requires
        old(buffers).wf(),
    ensures
        final(buffers).wf(),
        buffered(final(buffers)@) == buffered(old(buffers)@).remove(stage@),
        notices(r@) == dump_shown(*printer, stage@, lines_in(buffered(old(buffers)@), stage@)),
{
    let ghost logs = buffered(buffers@);
    let entries = match buffers.take(stage) {
        Some(entries) => entries,
        None => Vec::new(),
    };
    let ghost wanted = lines_in(logs, stage@);
    proof {
        assert(buffered(buffers@) =~= logs.remove(stage@));
        assert(log_views(entries@) =~= wanted);
    }
    let mut out: Vec<Notice> = Vec::new();
    proof {
        assert(notices(out@) =~= Seq::<NoticeView>::empty());
    }
    if entries.len() == 0 && printer.verbose {
        return out;
    }
    let head = "--- ".to_string().concat(stage).concat(" log ---");
    add_one(&mut out, Notice::Plain(head));
    let mut i: usize = 0;
    proof {
        assert(wanted.take(0) =~= Seq::<LogView>::empty());
        assert(notices(out@) =~= seq![NoticeView::Plain(head@)] + entry_lines(
            stage@,
            wanted.take(0),
        ));
    }
    let plain = Printer { verbose: false, timestamps: printer.timestamps, json: printer.json };
    while i < entries.len()
        invariant
            i <= entries@.len(),
            log_views(entries@) == wanted,
            !plain.verbose,
            notices(out@) == seq![NoticeView::Plain(head@)] + entry_lines(
                stage@,
                wanted.take(i as int),
            ),
        decreases entries@.len() - i,
    {
        let at = match &entries[i].created_at {
            Some(raw) => Some(raw.as_str()),
            None => None,
        };
        let more = plain.info(stage, at, entries[i].text.as_str());
        let ghost before = notices(out@);
        let ghost added = notices(more@);
        extend(&mut out, more);
        proof {
            let next = wanted.take(i + 1);
            assert(next.drop_last() =~= wanted.take(i as int));
            assert(log_views(entries@)[i as int] == entries@[i as int]@);
            assert(next.last() == entries@[i as int]@);
            assert(notices(out@) =~= seq![NoticeView::Plain(head@)] + entry_lines(stage@, next));
        }
        i = i + 1;
    }
    let tail = "--- end ".to_string().concat(stage).concat(" log ---");
    add_one(&mut out, Notice::Plain(tail));
    proof {
        assert(wanted.take(i as int) =~= wanted);
        assert(notices(out@) =~= dump_shown(*printer, stage@, wanted));
    }
    out
}

// ---------------------------------------------------------------------------
// Replayed log lines
// ---------------------------------------------------------------------------

/// The time of an event, where it carries one that can be read.
pub open spec fn event_instant(created_at: Option<Seq<char>>) -> Option<Instant> {
    match created_at {
        Some(raw) => rfc3339_instant(raw),
        None => None,
    }
}

/// Whether a log line of `stage` was shown before: it is at or before the newest one.
pub open spec fn replayed(
    clock: Map<Seq<char>, Instant>,
    stage: Seq<char>,
    created_at: Option<Seq<char>>,
) -> bool {
    match event_instant(created_at) {
        Some(t) => clock.contains_key(stage) && not_after(t, clock[stage]),
        None => false,
    }
}

/// The newest log times after a log line of `stage`.
pub open spec fn advanced(
    clock: Map<Seq<char>, Instant>,
    stage: Seq<char>,
    created_at: Option<Seq<char>>,
) -> Map<Seq<char>, Instant> {
    match event_instant(created_at) {
        Some(t) => if replayed(clock, stage, created_at) {
            clock
        } else {
            clock.insert(stage, t)
        },
        None => clock,
    }
}

/// Whether a log line is a replay of one that was shown. Moves the stage's clock on where
/// it is not.
pub fn replayed_log(log_clock: &mut StageLogClock, stage: &str, created_at: Option<&str>) -> (r: bool)
    requires
        old(log_clock).wf(),
    ensures
        final(log_clock).wf(),
        r == replayed(old(log_clock)@, stage@, opt_str(created_at)),
        final(log_clock)@ == advanced(old(log_clock)@, stage@, opt_str(created_at)),
{
    let parsed = match created_at {
        Some(raw) => parse_rfc3339(raw),
        None => None,
    };
    let t = match parsed {
        Some(t) => t,
        None => {
            return false;
        },
    };
    let seen = match log_clock.get(stage) {
        Some(newest) => t.seconds < newest.seconds || (t.seconds == newest.seconds && t.nanos
            <= newest.nanos),
        None => false,
    };
    if !seen {
        log_clock.put(stage, t);
    }
    seen
}

/// A line that was shown once is not shown again: with its clock moved on, the same line
/// is a replay, and so is every older line of its stage.
pub proof fn law_no_line_twice(
    clock: Map<Seq<char>, Instant>,
    stage: Seq<char>,
    shown: Option<Seq<char>>,
    later: Option<Seq<char>>,
)
    requires
        event_instant(shown) is Some,
        event_instant(later) is Some,
        not_after(event_instant(later)->0, event_instant(shown)->0),
    ensures
        replayed(advanced(clock, stage, shown), stage, later),
        advanced(advanced(clock, stage, shown), stage, later) == advanced(clock, stage, shown),
{
}

/// A stage's clock never runs backwards, and no line moves the clock of another stage.
pub proof fn law_clock_runs_forward(
    clock: Map<Seq<char>, Instant>,
    stage: Seq<char>,
    created_at: Option<Seq<char>>,
    other: Seq<char>,
)
    requires
        clock.contains_key(other),
    ensures
        advanced(clock, stage, created_at).contains_key(other),
        not_after(clock[other], advanced(clock, stage, created_at)[other]),
        other != stage ==> advanced(clock, stage, created_at)[other] == clock[other],
{
}

// ---------------------------------------------------------------------------
// The end of a deploy
// ---------------------------------------------------------------------------

/// Whether a pipeline with this status has ended.
pub open spec fn terminal(status: Seq<char>) -> bool {
    status == "succeeded"@ || status == "failed"@ || status == "skipped"@ || status == "cancelled"@
}

/// Whether a pipeline with this status has ended.
pub fn is_terminal_status(status: &str) -> (r: bool)
    ensures
        r == terminal(status@),
{
    same(status, "succeeded") || same(status, "failed") || same(status, "skipped") || same(
        status,
        "cancelled",
    )
}

/// How a deploy ended: well, or with a message.
pub open spec fn end_text(r: Option<Result<(), String>>) -> Option<Result<(), Seq<char>>> {
    match r {
        Some(Ok(())) => Some(Ok(())),
        Some(Err(m)) => Some(Err(m@)),
        None => None,
    }
}

/// How a pipeline that ended with `status` ended.
pub open spec fn terminal_end(status: Seq<char>, error_summary: Option<Seq<char>>) -> Result<
    (),
    Seq<char>,
> {
    if status == "succeeded"@ {
        Ok(())
    } else {
        match error_summary {
            Some(summary) => Err(summary),
            None => Err("deploy "@ + status),
        }
    }
}

/// What is shown at the end of a pipeline.
pub open spec fn terminal_shown(status: Seq<char>) -> Seq<NoticeView> {
    if status == "succeeded"@ {
        seq![NoticeView::Progress("Deploy succeeded."@)]
    } else {
        Seq::empty()
    }
}

/// What an event of the stream comes to.
#[derive(Debug)]
pub struct EventOutcome {
    /// What to show, in order.
    pub shown: Vec<Notice>,
    /// How the deploy ended, where it has.
    pub end: Option<Result<(), String>>,
}

/// Ends a deploy whose pipeline has a terminal status.
pub fn finish_terminal(status: &str, error_summary: Option<String>) -> (r: EventOutcome)
    ensures
        notices(r.shown@) == terminal_shown(status@),
        end_text(r.end) == Some(terminal_end(status@, opt_text(error_summary))),
{
    let mut shown: Vec<Notice> = Vec::new();
    proof {
        assert(notices(shown@) =~= Seq::<NoticeView>::empty());
    }
    if same(status, "succeeded") {
        add_one(&mut shown, Notice::Progress("Deploy succeeded.".to_string()));
        proof {
            assert(notices(shown@) =~= terminal_shown(status@));
        }
        EventOutcome { shown, end: Some(Ok(())) }
    } else {
        let message = match error_summary {
            Some(summary) => summary,
            None => "deploy ".to_string().concat(status),
        };
        EventOutcome { shown, end: Some(Err(message)) }
    }
}

// ---------------------------------------------------------------------------
// Snapshots
// ---------------------------------------------------------------------------

/// The buffers after catching up with the stages `keys` of a snapshot: a stage's log takes
/// the place of what was buffered, and a stage that failed has been shown.
pub open spec fn caught_up(
    run: PipelineRun,
    keys: Seq<PipelineStageKey>,
    logs: Map<Seq<char>, Seq<LogView>>,
) -> Map<Seq<char>, Seq<LogView>>
    decreases keys.len(),
{
    if keys.len() == 0 {
        logs
    } else {
        let stage = stage_name(keys.last());
        let child = child_of(run, keys.last());
        let filled = refilled(child, stage, caught_up(run, keys.drop_last(), logs));
        if opt_text(child.status) == Some("failed"@) {
            filled.remove(stage)
        } else {
            filled
        }
    }
}

/// The buffers with the log of one stage of a snapshot.
pub open spec fn refilled(
    child: PipelineChildStatus,
    stage: Seq<char>,
    logs: Map<Seq<char>, Seq<LogView>>,
) -> Map<Seq<char>, Seq<LogView>> {
    if child.log_output@.len() > 0 {
        logs.insert(stage, seq![LogView { created_at: None, text: child.log_output@ }])
    } else {
        logs
    }
}

/// What catching up with one stage of a snapshot shows.
pub open spec fn stage_caught_up_shown(
    p: Printer,
    child: PipelineChildStatus,
    stage: Seq<char>,
    logs: Map<Seq<char>, Seq<LogView>>,
) -> Seq<NoticeView> {
    let log = if child.log_output@.len() > 0 {
        debug_shown(p, stage, None, child.log_output@)
    } else {
        Seq::empty()
    };
    let dump = if opt_text(child.status) == Some("failed"@) {
        dump_shown(p, stage, lines_in(refilled(child, stage, logs), stage))
    } else {
        Seq::empty()
    };
    log + dump
}

/// What catching up with the stages `keys` of a snapshot shows.
pub open spec fn caught_up_shown(
    p: Printer,
    run: PipelineRun,
    keys: Seq<PipelineStageKey>,
    logs: Map<Seq<char>, Seq<LogView>>,
) -> Seq<NoticeView>
    decreases keys.len(),
{
    if keys.len() == 0 {
        Seq::empty()
    } else {
        caught_up_shown(p, run, keys.drop_last(), logs) + stage_caught_up_shown(
            p,
            child_of(run, keys.last()),
            stage_name(keys.last()),
            caught_up(run, keys.drop_last(), logs),
        )
    }
}

/// What a snapshot shows.
pub open spec fn snapshot_shown(
    p: Printer,
    run: PipelineRun,
    logs: Map<Seq<char>, Seq<LogView>>,
) -> Seq<NoticeView> {
    let end = if terminal(run.status@) {
        terminal_shown(run.status@)
    } else {
        Seq::empty()
    };
    caught_up_shown(p, run, run.stages@, logs) + status_shown(
        p,
        "pipeline"@,
        None,
        "status"@,
        Some(run.status@),
    ) + end
}

/// Whether a snapshot ends the deploy, and how.
pub open spec fn snapshot_end(run: PipelineRun) -> Option<Result<(), Seq<char>>> {
    if terminal(run.status@) {
        Some(terminal_end(run.status@, opt_text(run.error_summary)))
    } else {
        None
    }
}

/// Catches up with one stage of a snapshot.
fn catch_up_stage(
    printer: &Printer,
    buffers: &mut StageLogBuffer,
    stage: &str,
    child: &PipelineChildStatus,
) -> (r: Vec<Notice>)
    requires
        old(buffers).wf(),
    ensures
        final(buffers).wf(),
        notices(r@) == stage_caught_up_shown(*printer, *child, stage@, buffered(old(buffers)@)),
        buffered(final(buffers)@) == if opt_text(child.status) == Some("failed"@) {
            refilled(*child, stage@, buffered(old(buffers)@)).remove(stage@)
        } else {
            refilled(*child, stage@, buffered(old(buffers)@))
        },
{
    let ghost logs = buffered(buffers@);
    let mut out: Vec<Notice> = Vec::new();
    proof {
        assert(notices(out@) =~= Seq::<NoticeView>::empty());
    }
    if !child.log_output.as_str().is_empty() {
        let mut list: Vec<LogLine> = Vec::new();
        list.push(LogLine { created_at: None, text: child.log_output.clone() });
        let ghost table = buffers@;
        buffers.put(stage, list);
        proof {
            assert(log_views(list@) =~= seq![
                LogView { created_at: None, text: child.log_output@ },
            ]);
            assert(buffered(table.insert(stage@, list)) =~= logs.insert(
                stage@,
                log_views(list@),
            ));
        }
        out = printer.debug(stage, None, child.log_output.as_str());
    }
    proof {
        assert(buffered(buffers@) == refilled(*child, stage@, logs));
    }
    let failed = match &child.status {
        Some(status) => same(status.as_str(), "failed"),
        None => false,
    };
    let ghost log_part = notices(out@);
    if failed {
        let dump = dump_failed_stage(printer, buffers, stage);
        extend(&mut out, dump);
    } else {
        proof {
            assert(log_part + Seq::<NoticeView>::empty() =~= log_part);
        }
    }
    out
}

/// Takes in a snapshot of the pipeline, which opens every connection: the buffers catch up
/// with the logs it carries, and stages that failed meanwhile are shown, since no event
/// will come for them.
pub fn handle_snapshot(printer: &Printer, buffers: &mut StageLogBuffer, run: &PipelineRun) -> (r:
    EventOutcome)
    requires
        old(buffers).wf(),
    ensures
        final(buffers).wf(),
        buffered(final(buffers)@) == caught_up(*run, run.stages@, buffered(old(buffers)@)),
        notices(r.shown@) == snapshot_shown(*printer, *run, buffered(old(buffers)@)),
        end_text(r.end) == snapshot_end(*run),
{
    let ghost logs = buffered(buffers@);
    let stages = pipeline_stages(run);
    let mut shown: Vec<Notice> = Vec::new();
    let mut i: usize = 0;
    proof {
        assert(run.stages@.take(0) =~= Seq::<PipelineStageKey>::empty());
        assert(notices(shown@) =~= Seq::<NoticeView>::empty());
    }
    while i < stages.len()
        invariant
            i <= stages@.len(),
            stages@.len() == run.stages@.len(),
            forall|j: int|
                0 <= j < stages@.len() ==> (#[trigger] stages@[j]).0@ == stage_name(run.stages@[j])
                    && *stages@[j].1 == child_of(*run, run.stages@[j]),
            buffers.wf(),
            buffered(buffers@) == caught_up(*run, run.stages@.take(i as int), logs),
            notices(shown@) == caught_up_shown(*printer, *run, run.stages@.take(i as int), logs),
        decreases stages@.len() - i,
    {
        let more = catch_up_stage(printer, buffers, stages[i].0, stages[i].1);
        extend(&mut shown, more);
        proof {
            let next = run.stages@.take(i + 1);
            assert(next.drop_last() =~= run.stages@.take(i as int));
            assert(next.last() == run.stages@[i as int]);
        }
        i = i + 1;
    }
    proof {
        assert(run.stages@.take(i as int) =~= run.stages@);
    }
    let status = printer.status("pipeline", None, "status", Some(run.status.as_str()));
    extend(&mut shown, status);
    if is_terminal_status(run.status.as_str()) {
        let last = finish_terminal(run.status.as_str(), copied(&run.error_summary));
        extend(&mut shown, last.shown);
        EventOutcome { shown, end: last.end }
    } else {
        proof {
            assert(notices(shown@) + Seq::<NoticeView>::empty() =~= notices(shown@));
        }
        EventOutcome { shown, end: None }
    }
}

// ---------------------------------------------------------------------------
// Changes
// ---------------------------------------------------------------------------

/// The text of an optional detail.
pub open spec fn detail_or(detail: Option<Seq<char>>, default: Seq<char>) -> Seq<char> {
    match detail {
        Some(text) => text,
        None => default,
    }
}

/// Whether a change is a log line that is taken in.
pub open spec fn fresh_log(delta: PipelineStreamDelta, clock: Map<Seq<char>, Instant>) -> bool {
    delta.event.kind@ == "log"@ && !replayed(clock, delta.event.stage@, opt_text(delta.created_at))
}

/// The buffers after a change.
pub open spec fn delta_logs(
    delta: PipelineStreamDelta,
    clock: Map<Seq<char>, Instant>,
    logs: Map<Seq<char>, Seq<LogView>>,
) -> Map<Seq<char>, Seq<LogView>> {
    let stage = delta.event.stage@;
    let at = opt_text(delta.created_at);
    let kind = delta.event.kind@;
    if fresh_log(delta, clock) && delta.event.level@ != "info"@ {
        let line = LogView { created_at: at, text: detail_or(opt_text(delta.event.detail), ""@) };
        logs.insert(stage, lines_in(logs, stage).push(line))
    } else if kind == "failed"@ && stage != "pipeline"@ {
        logs.remove(stage)
    } else {
        logs
    }
}

/// The newest log times after a change.
pub open spec fn delta_clock(delta: PipelineStreamDelta, clock: Map<Seq<char>, Instant>) -> Map<
    Seq<char>,
    Instant,
> {
    if delta.event.kind@ == "log"@ {
        advanced(clock, delta.event.stage@, opt_text(delta.created_at))
    } else {
        clock
    }
}

/// What a change shows, but for the end of the deploy.
pub open spec fn change_shown(
    p: Printer,
    delta: PipelineStreamDelta,
    clock: Map<Seq<char>, Instant>,
    logs: Map<Seq<char>, Seq<LogView>>,
) -> Seq<NoticeView> {
    let stage = delta.event.stage@;
    let at = opt_text(delta.created_at);
    let kind = delta.event.kind@;
    let detail = opt_text(delta.event.detail);
    let text = detail_or(detail, ""@);
    if kind == "log"@ {
        if replayed(clock, stage, at) {
            Seq::empty()
        } else if delta.event.level@ == "info"@ {
            info_shown(p, stage, at, text)
        } else {
            debug_shown(p, stage, at, text)
        }
    } else if kind == "started"@ || kind == "succeeded"@ {
        if stage != "pipeline"@ {
            status_shown(p, stage, at, kind, detail)
        } else {
            Seq::empty()
        }
    } else if kind == "skipped"@ {
        status_shown(p, stage, at, kind, detail)
    } else if kind == "failed"@ {
        if stage != "pipeline"@ {
            seq![always_shown(stage, at, "failed: "@ + text)] + dump_shown(
                p,
                stage,
                lines_in(logs, stage),
            )
        } else {
            Seq::empty()
        }
    } else if kind == "cancelled"@ {
        seq![always_shown(stage, at, "cancelled: "@ + text)]
    } else {
        Seq::empty()
    }
}

/// A labelled line that is shown whatever the output mode.
pub open spec fn always_shown(stage: Seq<char>, created_at: Option<Seq<char>>, line: Seq<char>) -> NoticeView {
    NoticeView::Event { stage, created_at, line, with_label: true }
}

/// Whether a change ends the deploy, and how: only a change of the pipeline itself does.
pub open spec fn delta_end(delta: PipelineStreamDelta) -> Option<Result<(), Seq<char>>> {
    let kind = delta.event.kind@;
    let detail = opt_text(delta.event.detail);
    if delta.event.stage@ != "pipeline"@ {
        None
    } else if kind == "succeeded"@ {
        Some(Ok(()))
    } else if kind == "failed"@ {
        Some(Err(detail_or(detail, "deploy failed"@)))
    } else if kind == "cancelled"@ {
        Some(Err("deploy cancelled: "@ + detail_or(detail, "cancelled"@)))
    } else {
        None
    }
}

/// What a change shows.
pub open spec fn delta_shown(
    p: Printer,
    delta: PipelineStreamDelta,
    clock: Map<Seq<char>, Instant>,
    logs: Map<Seq<char>, Seq<LogView>>,
) -> Seq<NoticeView> {
    let end = if delta_end(delta) == Some(Ok::<(), Seq<char>>(())) {
        seq![NoticeView::Progress("Deploy succeeded."@)]
    } else {
        Seq::empty()
    };
    change_shown(p, delta, clock, logs) + end
}

/// Appends a line to a stage's buffer.
fn buffer_line(buffers: &mut StageLogBuffer, stage: &str, line: LogLine)
    requires
        old(buffers).wf(),
    ensures
        final(buffers).wf(),
        buffered(final(buffers)@) == buffered(old(buffers)@).insert(
            stage@,
            lines_in(buffered(old(buffers)@), stage@).push(line@),
        ),
{
    let ghost table = buffers@;
    let mut list = match buffers.take(stage) {
        Some(list) => list,
        None => Vec::new(),
    };
    let ghost had = list@;
    list.push(line);
    buffers.put(stage, list);
    proof {
        assert(log_views(had) =~= lines_in(buffered(table), stage@));
        assert(log_views(list@) =~= log_views(had).push(line@));
        assert(buffered(buffers@) =~= buffered(table).insert(stage@, log_views(list@)));
    }
}

/// What a log line shows, and whether it was shown before.
fn handle_log(
    printer: &Printer,
    buffers: &mut StageLogBuffer,
    log_clock: &mut StageLogClock,
    delta: &PipelineStreamDelta,
) -> (r: Vec<Notice>)
    requires
        old(buffers).wf(),
        old(log_clock).wf(),
        delta.event.kind@ == "log"@,
    ensures
        final(buffers).wf(),
        final(log_clock).wf(),
        buffered(final(buffers)@) == delta_logs(*delta, old(log_clock)@, buffered(old(buffers)@)),
        final(log_clock)@ == delta_clock(*delta, old(log_clock)@),
        notices(r@) == change_shown(*printer, *delta, old(log_clock)@, buffered(old(buffers)@)),
{
    proof {
        reveal_strlit("log");
        reveal_strlit("failed");
    }
    let stage = delta.event.stage.as_str();
    let at = match &delta.created_at {
        Some(raw) => Some(raw.as_str()),
        None => None,
    };
    if replayed_log(log_clock, stage, at) {
        let none: Vec<Notice> = Vec::new();
        proof {
            assert(notices(none@) =~= Seq::<NoticeView>::empty());
            assert("log"@.len() != "failed"@.len());
        }
        return none;
    }
    let text = match &delta.event.detail {
        Some(text) => text.clone(),
        None => "".to_string(),
    };
    if same(delta.event.level.as_str(), "info") {
        proof {
            assert("log"@.len() != "failed"@.len());
        }
        printer.info(stage, at, text.as_str())
    } else {
        let line = LogLine { created_at: copied(&delta.created_at), text: text.clone() };
        buffer_line(buffers, stage, line);
        printer.debug(stage, at, text.as_str())
    }
}

/// A labelled line that is shown whatever the output mode.
fn always(delta: &PipelineStreamDelta, word: &str) -> (r: Notice)
    ensures
        r@ == always_shown(
            delta.event.stage@,
            opt_text(delta.created_at),
            word@ + detail_or(opt_text(delta.event.detail), ""@),
        ),
{
    let mut line = word.to_string();
    match &delta.event.detail {
        Some(text) => line.append(text.as_str()),
        None => line.append(""),
    }
    Notice::Event {
        stage: delta.event.stage.clone(),
        created_at: copied(&delta.created_at),
        line,
        with_label: true,
    }
}

/// Whether a change ends the deploy, and how.
fn end_of(delta: &PipelineStreamDelta) -> (r: Option<Result<(), String>>)
    ensures
        end_text(r) == delta_end(*delta),
{
    let kind = delta.event.kind.as_str();
    if !same(delta.event.stage.as_str(), "pipeline") {
        None
    } else if same(kind, "succeeded") {
        Some(Ok(()))
    } else if same(kind, "failed") {
        let summary = match &delta.event.detail {
            Some(text) => text.clone(),
            None => "deploy failed".to_string(),
        };
        Some(Err(summary))
    } else if same(kind, "cancelled") {
        let mut summary = "deploy cancelled: ".to_string();
        match &delta.event.detail {
            Some(text) => summary.append(text.as_str()),
            None => summary.append("cancelled"),
        }
        Some(Err(summary))
    } else {
        None
    }
}

/// Takes in a change that the stream reports.
pub fn handle_delta(
    printer: &Printer,
    buffers: &mut StageLogBuffer,
    log_clock: &mut StageLogClock,
    delta: &PipelineStreamDelta,
) -> (r: EventOutcome)
    requires
        old(buffers).wf(),
        old(log_clock).wf(),
    ensures
        final(buffers).wf(),
        final(log_clock).wf(),
        buffered(final(buffers)@) == delta_logs(*delta, old(log_clock)@, buffered(old(buffers)@)),
        final(log_clock)@ == delta_clock(*delta, old(log_clock)@),
        notices(r.shown@) == delta_shown(
            *printer,
            *delta,
            old(log_clock)@,
            buffered(old(buffers)@),
        ),
        end_text(r.end) == delta_end(*delta),
{
    let ghost logs = buffered(buffers@);
    let ghost clock = log_clock@;
    let stage = delta.event.stage.as_str();
    let kind = delta.event.kind.as_str();
    let at = match &delta.created_at {
        Some(raw) => Some(raw.as_str()),
        None => None,
    };
    let detail = match &delta.event.detail {
        Some(text) => Some(text.as_str()),
        None => None,
    };
    let mut shown: Vec<Notice> = Vec::new();
    proof {
        assert(notices(shown@) =~= Seq::<NoticeView>::empty());
    }
    if same(kind, "log") {
        shown = handle_log(printer, buffers, log_clock, delta);
    } else if same(kind, "started") || same(kind, "succeeded") {
        if !same(stage, "pipeline") {
            shown = printer.status(stage, at, kind, detail);
        }
        proof {
            reveal_strlit("started");
            reveal_strlit("succeeded");
            reveal_strlit("failed");
            assert("started"@.len() != "failed"@.len());
            assert("succeeded"@.len() != "failed"@.len());
        }
    } else if same(kind, "skipped") {
        shown = printer.status(stage, at, "skipped", detail);
        proof {
            reveal_strlit("skipped");
            reveal_strlit("failed");
            assert("skipped"@.len() != "failed"@.len());
        }
    } else if same(kind, "failed") {
        if !same(stage, "pipeline") {
            add_one(&mut shown, always(delta, "failed: "));
            let dump = dump_failed_stage(printer, buffers, stage);
            extend(&mut shown, dump);
            proof {
                assert(notices(shown@) =~= change_shown(*printer, *delta, clock, logs));
            }
        }
    } else if same(kind, "cancelled") {
        add_one(&mut shown, always(delta, "cancelled: "));
        proof {
            assert(notices(shown@) =~= change_shown(*printer, *delta, clock, logs));
            reveal_strlit("cancelled");
            reveal_strlit("failed");
            assert("cancelled"@.len() != "failed"@.len());
        }
    }
    let ghost before_end = notices(shown@);
    let end = end_of(delta);
    match end {
        Some(Ok(())) => {
            add_one(&mut shown, Notice::Progress("Deploy succeeded.".to_string()));
        },
        _ => {},
    }
    proof {
        assert(before_end == change_shown(*printer, *delta, clock, logs));
        assert(notices(shown@) =~= delta_shown(*printer, *delta, clock, logs));
    }
    EventOutcome { shown, end }
}

// ---------------------------------------------------------------------------
// Events
// ---------------------------------------------------------------------------

/// What the data of an event is to be decoded as.
#[derive(Clone, Copy, Debug, PartialEq, Eq, Structural)]
pub enum DataKind {
    Snapshot,
    Delta,
    /// Events of other types are passed over.
    Other,
}

/// What the data of an event of this type is to be decoded as.
pub open spec fn kind_of_data(event: Seq<char>) -> DataKind {
    if event == "snapshot"@ {
        DataKind::Snapshot
    } else if event == ""@ || event == "pipeline_event"@ {
        DataKind::Delta
    } else {
        DataKind::Other
    }
}

/// What the data of an event of this type is to be decoded as.
pub fn data_kind(event: &str) -> (r: DataKind)
    ensures
        r == kind_of_data(event@),
{
    if same(event, "snapshot") {
        DataKind::Snapshot
    } else if same(event, "") || same(event, "pipeline_event") {
        DataKind::Delta
    } else {
        DataKind::Other
    }
}

/// The decoded data of an event.
#[derive(Debug)]
pub enum SseData {
    Snapshot(PipelineRun),
    Delta(PipelineStreamDelta),
    /// An event of another type, or a change that could not be decoded.
    Unread,
}

/// What comes of data that could not be decoded: a snapshot is missed, anything else is
/// passed over.
pub open spec fn undecoded_data(kind: DataKind) -> Result<SseData, Seq<char>> {
    if kind == DataKind::Snapshot {
        Err("failed to decode snapshot"@)
    } else {
        Ok(SseData::Unread)
    }
}

/// What comes of data that could not be decoded.
pub fn undecoded(kind: DataKind) -> (r: Result<SseData, String>)
    ensures
        match kind {
            DataKind::Snapshot => r matches Err(text) && text@ == "failed to decode snapshot"@,
            _ => r == Ok::<SseData, String>(SseData::Unread),
        },
{
    match kind {
        DataKind::Snapshot => Err("failed to decode snapshot".to_string()),
        DataKind::Delta | DataKind::Other => Ok(SseData::Unread),
    }
}

/// What an event holds, where its data was decoded to `decoded` or could not be.
pub open spec fn event_data(kind: DataKind, decoded: Option<SseData>) -> Result<
    SseData,
    Seq<char>,
> {
    match decoded {
        Some(data) => Ok(data),
        None => undecoded_data(kind),
    }
}

/// An event fails exactly where it is a snapshot that cannot be decoded.
pub proof fn law_only_an_undecoded_snapshot_fails(event: Seq<char>, decoded: Option<SseData>)
    ensures
        event_data(kind_of_data(event), decoded) is Err <==> event == "snapshot"@ && decoded is None,
{
}

/// Takes in an event of the stream: `end` is set when the deploy reaches a terminal state.
pub fn handle_sse_event(
    printer: &Printer,
    buffers: &mut StageLogBuffer,
    log_clock: &mut StageLogClock,
    data: &SseData,
) -> (r: EventOutcome)
    requires
        old(buffers).wf(),
        old(log_clock).wf(),
    ensures
        final(buffers).wf(),
        final(log_clock).wf(),
        match *data {
            SseData::Snapshot(run) => {
                &&& buffered(final(buffers)@) == caught_up(
                    run,
                    run.stages@,
                    buffered(old(buffers)@),
                )
                &&& final(log_clock)@ == old(log_clock)@
                &&& notices(r.shown@) == snapshot_shown(*printer, run, buffered(old(buffers)@))
                &&& end_text(r.end) == snapshot_end(run)
            },
            SseData::Delta(delta) => {
                &&& buffered(final(buffers)@) == delta_logs(
                    delta,
                    old(log_clock)@,
                    buffered(old(buffers)@),
                )
                &&& final(log_clock)@ == delta_clock(delta, old(log_clock)@)
                &&& notices(r.shown@) == delta_shown(
                    *printer,
                    delta,
                    old(log_clock)@,
                    buffered(old(buffers)@),
                )
                &&& end_text(r.end) == delta_end(delta)
            },
            SseData::Unread => {
                &&& final(buffers)@ == old(buffers)@
                &&& final(log_clock)@ == old(log_clock)@
                &&& r.shown@.len() == 0
                &&& r.end is None
            },
        },
{
    match data {
        SseData::Snapshot(run) => handle_snapshot(printer, buffers, run),
        SseData::Delta(delta) => handle_delta(printer, buffers, log_clock, delta),
        SseData::Unread => EventOutcome { shown: Vec::new(), end: None },
    }
}

/// A stage that failed shows every line that was buffered for it, and leaves none behind.
#[verifier::spinoff_prover]
pub proof fn law_failure_shows_the_buffer(
    p: Printer,
    delta: PipelineStreamDelta,
    clock: Map<Seq<char>, Instant>,
    logs: Map<Seq<char>, Seq<LogView>>,
)
    requires
        delta.event.kind@ == "failed"@,
        delta.event.stage@ != "pipeline"@,
        lines_in(logs, delta.event.stage@).len() > 0,
    ensures
        !delta_logs(delta, clock, logs).contains_key(delta.event.stage@),
        delta_shown(p, delta, clock, logs) == seq![
            always_shown(
                delta.event.stage@,
                opt_text(delta.created_at),
                "failed: "@ + detail_or(opt_text(delta.event.detail), ""@),
            ),
            NoticeView::Plain("--- "@ + delta.event.stage@ + " log ---"@),
        ] + entry_lines(delta.event.stage@, lines_in(logs, delta.event.stage@)) + seq![
            NoticeView::Plain("--- end "@ + delta.event.stage@ + " log ---"@),
        ],
{
    reveal_strlit("failed");
    reveal_strlit("log");
    reveal_strlit("started");
    reveal_strlit("succeeded");
    reveal_strlit("skipped");
    assert("failed"@.len() == 6);
    assert("log"@.len() == 3);
    assert("started"@.len() == 7);
    assert("succeeded"@.len() == 9);
    assert("skipped"@.len() == 7);
    assert(delta_shown(p, delta, clock, logs) =~= seq![
        always_shown(
            delta.event.stage@,
            opt_text(delta.created_at),
            "failed: "@ + detail_or(opt_text(delta.event.detail), ""@),
        ),
        NoticeView::Plain("--- "@ + delta.event.stage@ + " log ---"@),
    ] + entry_lines(delta.event.stage@, lines_in(logs, delta.event.stage@)) + seq![
        NoticeView::Plain("--- end "@ + delta.event.stage@ + " log ---"@),
    ]);
}

/// A log line that was shown before changes nothing and shows nothing.
pub proof fn law_replay_is_silent(
    p: Printer,
    delta: PipelineStreamDelta,
    clock: Map<Seq<char>, Instant>,
    logs: Map<Seq<char>, Seq<LogView>>,
)
    requires
        delta.event.kind@ == "log"@,
        replayed(clock, delta.event.stage@, opt_text(delta.created_at)),
    ensures
        delta_logs(delta, clock, logs) == logs,
        delta_clock(delta, clock) == clock,
        delta_shown(p, delta, clock, logs) == Seq::<NoticeView>::empty(),
        delta_end(delta) is None,
{
    reveal_strlit("log");
    reveal_strlit("failed");
    reveal_strlit("succeeded");
    reveal_strlit("cancelled");
    assert("log"@.len() == 3);
    assert("failed"@.len() == 6);
    assert("succeeded"@.len() == 9);
    assert("cancelled"@.len() == 9);
    assert(delta_shown(p, delta, clock, logs) =~= Seq::<NoticeView>::empty());
}

// ---------------------------------------------------------------------------
// Reconnecting
// ---------------------------------------------------------------------------

/// What to say of a stream that was answered with an error. Unlike a connection that drops,
/// it is not taken up again.
pub fn follow_failed(error: &str) -> (r: String)
    ensures
        r@ == "failed to follow deploy progress: "@ + error@,
{
    "failed to follow deploy progress: ".to_string().concat(error)
}

/// The parameters of the request for the stream: where to take it up again.
pub fn stream_query(since: Option<i64>) -> (r: Vec<(String, String)>)
    ensures
        match since {
            Some(seq) => r@.len() == 1 && r@[0].0@ == "since"@ && r@[0].1@ == signed_decimal(
                seq as int,
            ),
            None => r@.len() == 0,
        },
{
    let mut r: Vec<(String, String)> = Vec::new();
    match since {
        Some(seq) => {
            r.push(("since".to_string(), signed_text(seq)));
        },
        None => {},
    }
    r
}

/// How many drops in a row without any progress are taken up again.
pub const MAX_RECONNECTS: u32 = 10;

/// What to do about a dropped connection.
#[derive(Debug)]
pub enum Reconnect {
    GiveUp(String),
    Retry { failures: u32, delay_ms: u64, shown: Vec<Notice> },
}

/// The drops in a row after one more. A connection that made progress starts the count
/// afresh.
pub open spec fn drops_in_a_row(progress: bool, before: int) -> int {
    if progress {
        1
    } else {
        before + 1
    }
}

/// Where the stream is taken up again.
pub open spec fn resume_text(resume_from: Option<i64>) -> Seq<char> {
    match resume_from {
        Some(seq) => signed_decimal(seq as int),
        None => "start"@,
    }
}

/// What to say when the stream is lost for good.
pub open spec fn lost_stream_text() -> Seq<char> {
    "lost connection to the deploy event stream after "@ + decimal(MAX_RECONNECTS as int)
        + " reconnect attempts — the deploy may still be running on the platform. Check the project dashboard or `gbandit logs backend` to see how it ended."@
}

/// What verbose output says of a reconnect.
pub open spec fn reconnect_text(failures: int, resume_from: Option<i64>) -> Seq<char> {
    "event stream dropped; reconnecting ("@ + decimal(failures) + "/"@ + decimal(
        MAX_RECONNECTS as int,
    ) + ") from sequence "@ + resume_text(resume_from)
}

/// The pause before reconnecting, in milliseconds: it grows with the drops in a row, up to
/// three seconds.
pub open spec fn reconnect_delay(failures: int) -> int {
    500 * if failures < 6 {
        failures
    } else {
        6
    }
}

/// Decides on a dropped connection that started at `resume_from` and had come to
/// `last_event_id`. `failures` counts the drops in a row before it.
pub fn after_drop(
    printer: &Printer,
    resume_from: Option<i64>,
    last_event_id: Option<i64>,
    failures: u32,
) -> (r: Reconnect)
    requires
        failures <= MAX_RECONNECTS,
    ensures
        ({
            let now = drops_in_a_row(last_event_id != resume_from, failures as int);
            match r {
                Reconnect::GiveUp(m) => now > MAX_RECONNECTS && m@ == lost_stream_text(),
                Reconnect::Retry { failures, delay_ms, shown } => {
                    &&& now <= MAX_RECONNECTS
                    &&& failures == now
                    &&& delay_ms == reconnect_delay(now)
                    &&& notices(shown@) == debug_shown(
                        *printer,
                        "pipeline"@,
                        None,
                        reconnect_text(now, resume_from),
                    )
                },
            }
        }),
{
    let progress = match (last_event_id, resume_from) {
        (Some(a), Some(b)) => a != b,
        (None, None) => false,
        _ => true,
    };
    let now: u32 = if progress {
        1
    } else {
        failures + 1
    };
    if now > MAX_RECONNECTS {
        let mut m = "lost connection to the deploy event stream after ".to_string();
        m.append(decimal_text(MAX_RECONNECTS as u64).as_str());
        m.append(
            " reconnect attempts — the deploy may still be running on the platform. Check the project dashboard or `gbandit logs backend` to see how it ended.",
        );
        return Reconnect::GiveUp(m);
    }
    let mut text = "event stream dropped; reconnecting (".to_string();
    text.append(decimal_text(now as u64).as_str());
    text.append("/");
    text.append(decimal_text(MAX_RECONNECTS as u64).as_str());
    text.append(") from sequence ");
    match resume_from {
        Some(seq) => text.append(signed_text(seq).as_str()),
        None => text.append("start"),
    }
    let steps: u64 = if now < 6 {
        now as u64
    } else {
        6
    };
    Reconnect::Retry {
        failures: now,
        delay_ms: 500 * steps,
        shown: printer.debug("pipeline", None, text.as_str()),
    }
}

/// The drops in a row after a history of drops, each with or without progress.
pub open spec fn failures_after(drops: Seq<bool>) -> int
    decreases drops.len(),
{
    if drops.len() == 0 {
        0
    } else {
        drops_in_a_row(drops.last(), failures_after(drops.drop_last()))
    }
}

/// The watch gives up exactly on a stall: the count passes the limit when, and only when,
/// each of the last `MAX_RECONNECTS` drops came without progress and there was one before
/// them.
pub proof fn law_only_a_stall_gives_up(drops: Seq<bool>)
    ensures
        failures_after(drops) > MAX_RECONNECTS <==> drops.len() > MAX_RECONNECTS && forall|i: int|
            drops.len() - MAX_RECONNECTS <= i < drops.len() ==> !#[trigger] drops[i],
{
    lemma_failures_after(drops, MAX_RECONNECTS as int);
}

proof fn lemma_failures_after(drops: Seq<bool>, n: int)
    requires
        n >= 0,
    ensures
        0 <= failures_after(drops) <= drops.len(),
        drops.len() > 0 ==> failures_after(drops) >= 1,
        failures_after(drops) > n <==> drops.len() > n && forall|i: int|
            drops.len() - n <= i < drops.len() ==> !#[trigger] drops[i],
    decreases drops.len(),
{
    if drops.len() > 0 {
        let before = drops.drop_last();
        let last = drops.len() - 1;
        lemma_failures_after(
            before,
            if n > 0 {
                n - 1
            } else {
                0
            },
        );
        if n > 0 {
            if drops.last() {
                assert(drops[last]);
            } else {
                if failures_after(drops) > n {
                    assert forall|i: int| drops.len() - n <= i < drops.len() implies !#[trigger] drops[i] by {
                        if i < last {
                            assert(!before[i]);
                        }
                    }
                }
                if drops.len() > n && (forall|i: int|
                    drops.len() - n <= i < drops.len() ==> !#[trigger] drops[i]) {
                    assert forall|i: int|
                        before.len() - (n - 1) <= i < before.len() implies !#[trigger] before[i] by {
                        assert(!drops[i]);
                    }
                }
            }
        }
    }
}

// ---------------------------------------------------------------------------
// Laws of stages
// ---------------------------------------------------------------------------

/// Each stage is paired with the part of the run that bears its name, and no other part
/// has any say in it.
pub proof fn law_stages_have_their_own_part(run: PipelineRun)
    ensures
        child_of(run, PipelineStageKey::FrontendBuild) == run.frontend_build,
        child_of(run, PipelineStageKey::FrontendPublish) == run.frontend_publish,
        child_of(run, PipelineStageKey::BackendMigrate) == run.backend_migrate,
        child_of(run, PipelineStageKey::BackendBuild) == run.backend_build,
        child_of(run, PipelineStageKey::BackendDeploy) == run.backend_deploy,
{
}

/// Stages are told apart by their names, and none is called like the pipeline as a whole.
pub proof fn law_stage_names_tell_apart(a: PipelineStageKey, b: PipelineStageKey)
    ensures
        stage_name(a) == stage_name(b) <==> a == b,
        stage_name(a) != "pipeline"@,
        starts_with(stage_name(a), "frontend_"@) <==> a is FrontendBuild || a is FrontendPublish,
        starts_with(stage_name(a), "backend_"@) <==> a is BackendMigrate || a is BackendBuild || a is BackendDeploy,
        ends_with(stage_name(a), "_build"@) <==> a is FrontendBuild || a is BackendBuild,
        ends_with(stage_name(a), "_publish"@) <==> a is FrontendPublish,
        ends_with(stage_name(a), "_migrate"@) <==> a is BackendMigrate,
        ends_with(stage_name(a), "_deploy"@) <==> a is BackendDeploy,
{
    lemma_name_parts(a);
    lemma_name_parts(b);
    reveal_strlit("pipeline");
    assert("pipeline"@.len() == 8);
}

/// The name of a stage, cut where its two words meet.
spec fn name_words(key: PipelineStageKey) -> (Seq<char>, Seq<char>) {
    match key {
        PipelineStageKey::FrontendBuild => ("frontend_"@, "_build"@),
        PipelineStageKey::FrontendPublish => ("frontend_"@, "_publish"@),
        PipelineStageKey::BackendMigrate => ("backend_"@, "_migrate"@),
        PipelineStageKey::BackendBuild => ("backend_"@, "_build"@),
        PipelineStageKey::BackendDeploy => ("backend_"@, "_deploy"@),
    }
}

proof fn lemma_name_parts(key: PipelineStageKey)
    ensures
        stage_name(key).len() > 8,
        starts_with(stage_name(key), "frontend_"@) == (name_words(key).0 == "frontend_"@),
        starts_with(stage_name(key), "backend_"@) == (name_words(key).0 == "backend_"@),
        ends_with(stage_name(key), "_build"@) == (name_words(key).1 == "_build"@),
        ends_with(stage_name(key), "_publish"@) == (name_words(key).1 == "_publish"@),
        ends_with(stage_name(key), "_migrate"@) == (name_words(key).1 == "_migrate"@),
        ends_with(stage_name(key), "_deploy"@) == (name_words(key).1 == "_deploy"@),
        "frontend_"@ != "backend_"@,
        "_build"@ != "_publish"@,
        "_build"@ != "_migrate"@,
        "_build"@ != "_deploy"@,
        "_publish"@ != "_migrate"@,
        "_publish"@ != "_deploy"@,
        "_migrate"@ != "_deploy"@,
{
    reveal_strlit("frontend_build");
    reveal_strlit("frontend_publish");
    reveal_strlit("backend_migrate");
    reveal_strlit("backend_build");
    reveal_strlit("backend_deploy");
    reveal_strlit("frontend_");
    reveal_strlit("backend_");
    reveal_strlit("_build");
    reveal_strlit("_publish");
    reveal_strlit("_migrate");
    reveal_strlit("_deploy");
    let name = stage_name(key);
    assert("frontend_"@.len() == 9 && "backend_"@.len() == 8 && "_build"@.len() == 6);
    assert("_publish"@.len() == 8 && "_migrate"@.len() == 8 && "_deploy"@.len() == 7);
    assert("_publish"@[1] == 'p' && "_migrate"@[1] == 'm');
    assert("frontend_"@[0] == 'f' && "backend_"@[0] == 'b');
    assert("_build"@[5] == 'd' && "_publish"@[7] == 'h' && "_migrate"@[7] == 'e' && "_deploy"@[6]
        == 'y');
    assert(name.subrange(0, 9)[0] == name[0]);
    assert(name.subrange(0, 8)[0] == name[0]);
    let n = name.len() as int;
    assert(name.subrange(n - 6, n)[5] == name.last());
    assert(name.subrange(n - 7, n)[6] == name.last());
    assert(name.subrange(n - 8, n)[7] == name.last());
    match key {
        PipelineStageKey::FrontendBuild => {
            assert(name.subrange(0, 9) =~= "frontend_"@);
            assert(name.subrange(n - 6, n) =~= "_build"@);
        },
        PipelineStageKey::FrontendPublish => {
            assert(name.subrange(0, 9) =~= "frontend_"@);
            assert(name.subrange(n - 8, n) =~= "_publish"@);
        },
        PipelineStageKey::BackendMigrate => {
            assert(name.subrange(0, 8) =~= "backend_"@);
            assert(name.subrange(n - 8, n) =~= "_migrate"@);
        },
        PipelineStageKey::BackendBuild => {
            assert(name.subrange(0, 8) =~= "backend_"@);
            assert(name.subrange(n - 6, n) =~= "_build"@);
        },
        PipelineStageKey::BackendDeploy => {
            assert(name.subrange(0, 8) =~= "backend_"@);
            assert(name.subrange(n - 7, n) =~= "_deploy"@);
        },
    }
}

/// What is shown of a stage that failed: its own log between markers that name it.
pub open spec fn failure_block(stage: Seq<char>, log: Seq<char>) -> Seq<NoticeView> {
    seq![NoticeView::Plain("--- "@ + stage + " log ---"@)] + event_lines(stage, None, log, false)
        + seq![NoticeView::Plain("--- end "@ + stage + " log ---"@)]
}

/// Whether `part` stands somewhere in `all`.
pub open spec fn stands_in(all: Seq<NoticeView>, part: Seq<NoticeView>) -> bool {
    exists|before: Seq<NoticeView>, after: Seq<NoticeView>| all == #[trigger] (before + part + after)
}

proof fn lemma_stands_in_longer(
    head: Seq<NoticeView>,
    all: Seq<NoticeView>,
    tail: Seq<NoticeView>,
    part: Seq<NoticeView>,
)
    requires
        stands_in(all, part),
    ensures
        stands_in(head + all + tail, part),
{
    let (before, after) = choose|before: Seq<NoticeView>, after: Seq<NoticeView>|
        all == #[trigger] (before + part + after);
    assert(head + all + tail =~= (head + before) + part + (after + tail));
}

proof fn lemma_failed_stage_shown(
    p: Printer,
    run: PipelineRun,
    keys: Seq<PipelineStageKey>,
    logs: Map<Seq<char>, Seq<LogView>>,
    k: int,
)
    requires
        0 <= k < keys.len(),
        opt_text(child_of(run, keys[k]).status) == Some("failed"@),
        child_of(run, keys[k]).log_output@.len() > 0,
    ensures
        stands_in(
            caught_up_shown(p, run, keys, logs),
            failure_block(stage_name(keys[k]), child_of(run, keys[k]).log_output@),
        ),
    decreases keys.len(),
{
    let part = failure_block(stage_name(keys[k]), child_of(run, keys[k]).log_output@);
    let before = keys.drop_last();
    let had = caught_up_shown(p, run, before, logs);
    let child = child_of(run, keys.last());
    let stage = stage_name(keys.last());
    let own = stage_caught_up_shown(p, child, stage, caught_up(run, before, logs));
    if k == keys.len() - 1 {
        let text = child.log_output@;
        let entries = seq![LogView { created_at: None, text }];
        assert(entries.drop_last() =~= Seq::<LogView>::empty());
        assert(entry_lines(stage, entries.drop_last()) =~= Seq::<NoticeView>::empty());
        assert(entry_lines(stage, entries) =~= event_lines(stage, None, text, false));
        assert(dump_shown(p, stage, entries) == part);
        assert(had + own =~= (had + debug_shown(p, stage, None, text)) + part + Seq::<
            NoticeView,
        >::empty());
    } else {
        assert(before[k] == keys[k]);
        lemma_failed_stage_shown(p, run, before, logs, k);
        lemma_stands_in_longer(Seq::empty(), had, own, part);
        assert(Seq::<NoticeView>::empty() + had + own =~= had + own);
    }
}

/// A snapshot shows the log of every planned stage that failed: its own log, under its own
/// name, however the other stages came out and whatever is shown beside it.
pub proof fn law_snapshots_show_failed_stages(
    p: Printer,
    run: PipelineRun,
    logs: Map<Seq<char>, Seq<LogView>>,
    key: PipelineStageKey,
    part: PipelineChildStatus,
)
    requires
        run.stages@.contains(key),
        key is FrontendBuild ==> part == run.frontend_build,
        key is FrontendPublish ==> part == run.frontend_publish,
        key is BackendMigrate ==> part == run.backend_migrate,
        key is BackendBuild ==> part == run.backend_build,
        key is BackendDeploy ==> part == run.backend_deploy,
        opt_text(part.status) == Some("failed"@),
        part.log_output@.len() > 0,
    ensures
        stands_in(
            snapshot_shown(p, run, logs),
            failure_block(stage_name(key), part.log_output@),
        ),
{
    let k = choose|k: int| 0 <= k < run.stages@.len() && run.stages@[k] == key;
    assert(child_of(run, key) == part);
    lemma_failed_stage_shown(p, run, run.stages@, logs, k);
    let shown = caught_up_shown(p, run, run.stages@, logs);
    let status = status_shown(p, "pipeline"@, None, "status"@, Some(run.status@));
    let end = if terminal(run.status@) {
        terminal_shown(run.status@)
    } else {
        Seq::empty()
    };
    lemma_stands_in_longer(
        Seq::empty(),
        shown,
        status + end,
        failure_block(stage_name(key), part.log_output@),
    );
    assert(Seq::<NoticeView>::empty() + shown + (status + end) =~= snapshot_shown(p, run, logs));
}

proof fn lemma_no_failure_no_lines(
    p: Printer,
    run: PipelineRun,
    keys: Seq<PipelineStageKey>,
    logs: Map<Seq<char>, Seq<LogView>>,
)
    requires
        !p.verbose,
        forall|k: int|
            0 <= k < keys.len() ==> opt_text(child_of(run, #[trigger] keys[k]).status) != Some(
                "failed"@,
            ),
    ensures
        caught_up_shown(p, run, keys, logs) == Seq::<NoticeView>::empty(),
    decreases keys.len(),
{
    if keys.len() > 0 {
        let before = keys.drop_last();
        assert forall|k: int| 0 <= k < before.len() implies opt_text(
            child_of(run, #[trigger] before[k]).status,
        ) != Some("failed"@) by {
            assert(before[k] == keys[k]);
        }
        lemma_no_failure_no_lines(p, run, before, logs);
        assert(keys[keys.len() - 1] == keys.last());
        assert(caught_up_shown(p, run, keys, logs) =~= Seq::<NoticeView>::empty());
    }
}

/// Without verbose output a snapshot in which no stage failed shows nothing but a success.
pub proof fn law_quiet_snapshots(
    p: Printer,
    run: PipelineRun,
    logs: Map<Seq<char>, Seq<LogView>>,
)
    requires
        !p.verbose,
        opt_text(run.frontend_build.status) != Some("failed"@),
        opt_text(run.frontend_publish.status) != Some("failed"@),
        opt_text(run.backend_migrate.status) != Some("failed"@),
        opt_text(run.backend_build.status) != Some("failed"@),
        opt_text(run.backend_deploy.status) != Some("failed"@),
    ensures
        snapshot_shown(p, run, logs) == if run.status@ == "succeeded"@ {
            seq![NoticeView::Progress("Deploy succeeded."@)]
        } else {
            Seq::<NoticeView>::empty()
        },
{
    assert forall|k: int| 0 <= k < run.stages@.len() implies opt_text(
        child_of(run, #[trigger] run.stages@[k]).status,
    ) != Some("failed"@) by {
        law_stages_have_their_own_part(run);
    }
    lemma_no_failure_no_lines(p, run, run.stages@, logs);
    let none = Seq::<NoticeView>::empty();
    assert(none + none + none =~= none);
    assert(none + none + seq![NoticeView::Progress("Deploy succeeded."@)] =~= seq![
        NoticeView::Progress("Deploy succeeded."@),
    ]);
}

/// The log of a stage is shown entry by entry, in its order, each entry line by line with
/// its own time.
pub proof fn law_logs_are_shown_entry_by_entry(
    stage: Seq<char>,
    above: Seq<LogView>,
    below: Seq<LogView>,
    entry: LogView,
)
    ensures
        entry_lines(stage, above + below) == entry_lines(stage, above) + entry_lines(stage, below),
        entry_lines(stage, seq![entry]) == event_lines(stage, entry.created_at, entry.text, false),
    decreases below.len(),
{
    assert(seq![entry].drop_last() =~= Seq::<LogView>::empty());
    assert(entry_lines(stage, seq![entry].drop_last()) =~= Seq::<NoticeView>::empty());
    assert(entry_lines(stage, seq![entry]) =~= event_lines(
        stage,
        entry.created_at,
        entry.text,
        false,
    ));
    if below.len() == 0 {
        assert(above + below =~= above);
        assert(entry_lines(stage, above) + Seq::<NoticeView>::empty() =~= entry_lines(stage, above));
    } else {
        assert((above + below).drop_last() =~= above + below.drop_last());
        assert((above + below).last() == below.last());
        law_logs_are_shown_entry_by_entry(stage, above, below.drop_last(), entry);
        assert(entry_lines(stage, above + below) =~= entry_lines(stage, above) + entry_lines(
            stage,
            below,
        ));
    }
}

// ---------------------------------------------------------------------------
// Laws of the end of a deploy
// ---------------------------------------------------------------------------

/// A snapshot ends the deploy exactly where its status is one of the four last ones, and it
/// ends well only where the deploy succeeded; else the message is the run's own, or names
/// the status.
pub proof fn law_snapshots_end_the_deploy(run: PipelineRun)
    ensures
        snapshot_end(run) is Some <==> run.status@ == "succeeded"@ || run.status@ == "failed"@
            || run.status@ == "skipped"@ || run.status@ == "cancelled"@,
        snapshot_end(run) == Some(Ok::<(), Seq<char>>(())) <==> run.status@ == "succeeded"@,
        snapshot_end(run) is Some && run.status@ != "succeeded"@ && run.error_summary is Some
            ==> snapshot_end(run) == Some(Err::<(), Seq<char>>(run.error_summary->0@)),
        snapshot_end(run) is Some && run.status@ != "succeeded"@ && run.error_summary is None
            ==> snapshot_end(run) == Some(Err::<(), Seq<char>>("deploy "@ + run.status@)),
{
}

/// Only a change of the pipeline itself ends the deploy: well where it succeeded, with its
/// detail where it failed or was cancelled. No other change ends it.
pub proof fn law_changes_end_the_deploy(delta: PipelineStreamDelta)
    ensures
        delta_end(delta) is Some <==> delta.event.stage@ == "pipeline"@ && (delta.event.kind@
            == "succeeded"@ || delta.event.kind@ == "failed"@ || delta.event.kind@ == "cancelled"@),
        delta_end(delta) == Some(Ok::<(), Seq<char>>(())) <==> delta.event.stage@ == "pipeline"@
            && delta.event.kind@ == "succeeded"@,
        delta.event.stage@ == "pipeline"@ && delta.event.kind@ == "failed"@ && delta.event.detail is Some
            ==> delta_end(delta) == Some(Err::<(), Seq<char>>(delta.event.detail->0@)),
        delta.event.stage@ == "pipeline"@ && delta.event.kind@ == "failed"@ && delta.event.detail is None
            ==> delta_end(delta) == Some(Err::<(), Seq<char>>("deploy failed"@)),
        delta.event.stage@ == "pipeline"@ && delta.event.kind@ == "cancelled"@ && delta.event.detail is Some
            ==> delta_end(delta) == Some(Err::<(), Seq<char>>("deploy cancelled: "@ + delta.event.detail->0@)),
        delta.event.stage@ == "pipeline"@ && delta.event.kind@ == "cancelled"@ && delta.event.detail is None
            ==> delta_end(delta) == Some(Err::<(), Seq<char>>("deploy cancelled: "@ + "cancelled"@)),
{
    reveal_strlit("succeeded");
    reveal_strlit("failed");
    reveal_strlit("cancelled");
    assert("failed"@.len() == 6 && "succeeded"@.len() == 9 && "cancelled"@.len() == 9);
    assert("succeeded"@[0] == 's' && "cancelled"@[0] == 'c');
}

/// The deploy's success is said exactly once, when it ends well.
pub proof fn law_success_is_said_when_it_is_so(
    p: Printer,
    delta: PipelineStreamDelta,
    clock: Map<Seq<char>, Instant>,
    logs: Map<Seq<char>, Seq<LogView>>,
)
    ensures
        delta.event.stage@ == "pipeline"@ && delta.event.kind@ == "succeeded"@ ==> delta_shown(
            p,
            delta,
            clock,
            logs,
        ) == seq![NoticeView::Progress("Deploy succeeded."@)],
        !(delta.event.stage@ == "pipeline"@ && delta.event.kind@ == "succeeded"@) ==> forall|i: int|
            0 <= i < delta_shown(p, delta, clock, logs).len() ==> !(#[trigger] delta_shown(
                p,
                delta,
                clock,
                logs,
            )[i] is Progress),
{
    law_changes_end_the_deploy(delta);
    reveal_strlit("succeeded");
    reveal_strlit("log");
    assert("succeeded"@.len() == 9 && "log"@.len() == 3);
    if delta.event.stage@ == "pipeline"@ && delta.event.kind@ == "succeeded"@ {
        assert(delta_shown(p, delta, clock, logs) =~= seq![
            NoticeView::Progress("Deploy succeeded."@),
        ]);
    } else {
        let shown = change_shown(p, delta, clock, logs);
        assert(delta_shown(p, delta, clock, logs) =~= shown);
        lemma_entry_lines_are_events(delta.event.stage@, lines_in(logs, delta.event.stage@));
    }
}

proof fn lemma_entry_lines_are_events(stage: Seq<char>, entries: Seq<LogView>)
    ensures
        forall|i: int|
            0 <= i < entry_lines(stage, entries).len() ==> #[trigger] entry_lines(
                stage,
                entries,
            )[i] is Event,
    decreases entries.len(),
{
    if entries.len() > 0 {
        lemma_entry_lines_are_events(stage, entries.drop_last());
    }
}

// ---------------------------------------------------------------------------
// Laws of changes
// ---------------------------------------------------------------------------

/// A log line that is not a headline is kept behind the lines that its stage has, for the
/// case that the stage fails; a headline is shown and not kept.
pub proof fn law_lines_are_kept_in_order(
    delta: PipelineStreamDelta,
    clock: Map<Seq<char>, Instant>,
    logs: Map<Seq<char>, Seq<LogView>>,
)
    requires
        delta.event.kind@ == "log"@,
        !replayed(clock, delta.event.stage@, opt_text(delta.created_at)),
    ensures
        delta.event.level@ != "info"@ ==> lines_in(
            delta_logs(delta, clock, logs),
            delta.event.stage@,
        ) == lines_in(logs, delta.event.stage@).push(
            LogView {
                created_at: opt_text(delta.created_at),
                text: match delta.event.detail {
                    Some(text) => text@,
                    None => ""@,
                },
            },
        ),
        delta.event.level@ == "info"@ ==> delta_logs(delta, clock, logs) == logs,
{
    reveal_strlit("log");
    reveal_strlit("failed");
    assert("log"@.len() == 3 && "failed"@.len() == 6);
}

/// A change of one stage leaves the lines and the clock of every other stage alone.
pub proof fn law_stages_do_not_mix(
    delta: PipelineStreamDelta,
    clock: Map<Seq<char>, Instant>,
    logs: Map<Seq<char>, Seq<LogView>>,
    other: Seq<char>,
)
    requires
        other != delta.event.stage@,
    ensures
        lines_in(delta_logs(delta, clock, logs), other) == lines_in(logs, other),
        delta_clock(delta, clock).contains_key(other) <==> clock.contains_key(other),
        clock.contains_key(other) ==> delta_clock(delta, clock)[other] == clock[other],
{
}

/// A change that is neither a log line nor a failure keeps all lines, and only log lines move
/// a clock.
pub proof fn law_other_changes_keep_everything(
    delta: PipelineStreamDelta,
    clock: Map<Seq<char>, Instant>,
    logs: Map<Seq<char>, Seq<LogView>>,
)
    requires
        delta.event.kind@ != "log"@,
    ensures
        delta_clock(delta, clock) == clock,
        delta.event.kind@ != "failed"@ || delta.event.stage@ == "pipeline"@ ==> delta_logs(
            delta,
            clock,
            logs,
        ) == logs,
{
}

/// A fresh headline is shown whatever the output mode; another line only in verbose output;
/// and both line by line, under the stage and the time of the event.
pub proof fn law_headlines_are_always_shown(
    p: Printer,
    delta: PipelineStreamDelta,
    clock: Map<Seq<char>, Instant>,
    logs: Map<Seq<char>, Seq<LogView>>,
)
    requires
        delta.event.kind@ == "log"@,
        !replayed(clock, delta.event.stage@, opt_text(delta.created_at)),
        delta.event.detail is Some,
    ensures
        delta_end(delta) is None,
        delta.event.level@ == "info"@ || p.verbose ==> delta_shown(p, delta, clock, logs)
            == event_lines(
            delta.event.stage@,
            opt_text(delta.created_at),
            delta.event.detail->0@,
            p.verbose,
        ),
        delta.event.level@ != "info"@ && !p.verbose ==> delta_shown(p, delta, clock, logs)
            == Seq::<NoticeView>::empty(),
{
    law_changes_end_the_deploy(delta);
    reveal_strlit("log");
    reveal_strlit("succeeded");
    reveal_strlit("failed");
    reveal_strlit("cancelled");
    assert("log"@.len() == 3 && "succeeded"@.len() == 9 && "failed"@.len() == 6);
    assert("cancelled"@.len() == 9);
    let shown = change_shown(p, delta, clock, logs);
    assert(shown + Seq::<NoticeView>::empty() =~= shown);
}

/// The first line of a stage is no replay, nor is a line behind the newest one, nor one
/// without a time.
pub proof fn law_new_lines_are_no_replay(
    clock: Map<Seq<char>, Instant>,
    stage: Seq<char>,
    created_at: Option<Seq<char>>,
)
    ensures
        !clock.contains_key(stage) ==> !replayed(clock, stage, created_at),
        event_instant(created_at) is None ==> !replayed(clock, stage, created_at) && advanced(
            clock,
            stage,
            created_at,
        ) == clock,
        created_at is None ==> event_instant(created_at) is None,
        created_at is Some ==> event_instant(created_at) == rfc3339_instant(created_at->0),
        event_instant(created_at) is Some && clock.contains_key(stage) && (
        event_instant(created_at)->0.seconds > clock[stage].seconds || (
        event_instant(created_at)->0.seconds == clock[stage].seconds && event_instant(
            created_at,
        )->0.nanos > clock[stage].nanos)) ==> !replayed(clock, stage, created_at) && advanced(
            clock,
            stage,
            created_at,
        )[stage] == event_instant(created_at)->0,
{
}

/// Events of the stream are told apart by their type: a snapshot is one that says so, a
/// change is one that says so or says nothing, and any other is passed over.
pub proof fn law_events_are_told_apart(event: Seq<char>)
    ensures
        kind_of_data(event) is Snapshot <==> event == "snapshot"@,
        kind_of_data(event) is Delta <==> event.len() == 0 || event == "pipeline_event"@,
{
    reveal_strlit("");
    reveal_strlit("snapshot");
    reveal_strlit("pipeline_event");
    assert("snapshot"@.len() == 8 && "pipeline_event"@.len() == 14);
    assert(event.len() == 0 ==> event =~= ""@);
}

/// The pause before a reconnect grows by half a second with each drop in a row until it is
/// three seconds, and stays there.
pub proof fn law_pauses_grow_to_three_seconds(failures: int)
    requires
        failures >= 1,
    ensures
        500 <= reconnect_delay(failures) <= 3000,
        reconnect_delay(1) == 500,
        reconnect_delay(failures) < 3000 ==> reconnect_delay(failures + 1) == reconnect_delay(
            failures,
        ) + 500,
        reconnect_delay(failures) == 3000 ==> reconnect_delay(failures + 1) == 3000,
{
}

/// A connection that made progress starts the count of drops afresh; one that made none
/// adds to it.
pub proof fn law_progress_starts_the_count_afresh(drops: Seq<bool>)
    ensures
        failures_after(drops.push(true)) == 1,
        failures_after(drops.push(false)) == failures_after(drops) + 1,
        failures_after(Seq::empty()) == 0,
{
    assert(drops.push(true).drop_last() =~= drops);
    assert(drops.push(false).drop_last() =~= drops);
}

proof fn lemma_seven_parts(
    a: Seq<char>,
    b: Seq<char>,
    c: Seq<char>,
    d: Seq<char>,
    e: Seq<char>,
    f: Seq<char>,
)
    ensures
        contains(a + b + c + d + e + f, b + c + d),
        ends_with(a + b + c + d + e + f, f),
{
    assert(a + (b + c + d) + (e + f) =~= a + b + c + d + e + f);
    law_texts_contain_their_parts(a, b + c + d, e + f);
    law_texts_contain_their_parts(a + b + c + d + e, f, Seq::empty());
}

/// What is said of a new attempt to connect tells which one it is, of how many, and behind
/// which event the stream is taken up.
pub proof fn law_attempts_are_counted(failures: int, seq: i64)
    ensures
        contains(reconnect_text(failures, Some(seq)), decimal(failures) + "/"@ + decimal(10)),
        ends_with(reconnect_text(failures, Some(seq)), signed_decimal(seq as int)),
        ends_with(reconnect_text(failures, None), "start"@),
        contains(reconnect_text(failures, None), decimal(failures) + "/"@ + decimal(10)),
        contains(lost_stream_text(), decimal(10)),
{
    lemma_seven_parts(
        "event stream dropped; reconnecting ("@,
        decimal(failures),
        "/"@,
        decimal(10),
        ") from sequence "@,
        signed_decimal(seq as int),
    );
    lemma_seven_parts(
        "event stream dropped; reconnecting ("@,
        decimal(failures),
        "/"@,
        decimal(10),
        ") from sequence "@,
        "start"@,
    );
    law_texts_contain_their_parts(
        "lost connection to the deploy event stream after "@,
        decimal(10),
        " reconnect attempts — the deploy may still be running on the platform. Check the project dashboard or `gbandit logs backend` to see how it ended."@,
    );
}

/// A snapshot takes the place of what was kept of a stage where it has a log of it, and leaves
/// it where it has none; a failed stage is done with, and no stage touches another's lines.
pub proof fn law_snapshots_take_the_place_of_lines(
    run: PipelineRun,
    keys: Seq<PipelineStageKey>,
    key: PipelineStageKey,
    logs: Map<Seq<char>, Seq<LogView>>,
    other: Seq<char>,
)
    requires
        other != stage_name(key),
    ensures
        ({
            let child = child_of(run, key);
            let stage = stage_name(key);
            let before = caught_up(run, keys, logs);
            let after = caught_up(run, keys.push(key), logs);
            let failed = opt_text(child.status) == Some("failed"@);
            &&& failed ==> !after.contains_key(stage)
            &&& (!failed && child.log_output@.len() == 0) ==> after == before
            &&& (!failed && child.log_output@.len() > 0) ==> after.contains_key(stage)
                && after[stage] == seq![LogView { created_at: None, text: child.log_output@ }]
            &&& after.contains_key(other) <==> before.contains_key(other)
            &&& before.contains_key(other) ==> after[other] == before[other]
        }),
        caught_up(run, Seq::empty(), logs) == logs,
{
    assert(keys.push(key).drop_last() =~= keys);
}

/// A stage of a snapshot that has no log and has not failed shows nothing, and one that has
/// not failed shows its log only in verbose output.
pub proof fn law_stages_show_their_log(
    p: Printer,
    child: PipelineChildStatus,
    stage: Seq<char>,
    logs: Map<Seq<char>, Seq<LogView>>,
)
    requires
        opt_text(child.status) != Some("failed"@),
    ensures
        child.log_output@.len() == 0 ==> stage_caught_up_shown(p, child, stage, logs).len() == 0,
        !p.verbose ==> stage_caught_up_shown(p, child, stage, logs).len() == 0,
        child.log_output@.len() > 0 ==> stage_caught_up_shown(p, child, stage, logs) == debug_shown(
            p,
            stage,
            None,
            child.log_output@,
        ),
{
    assert(debug_shown(p, stage, None, child.log_output@) + Seq::<NoticeView>::empty()
        =~= debug_shown(p, stage, None, child.log_output@));
}

} // verus!

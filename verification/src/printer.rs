//! What the command line shows: progress lines, the events of a pipeline, and questions.

use vstd::prelude::*;
use vstd::string::*;

use crate::lines::{law_lines_end_at_line_feeds, lines, lines_of};
use crate::numbers::{
    digits_value, law_two_digits_stand_for_their_number, two_digit_text, two_digits,
};
use crate::outside::{local_now, local_time_of, on_dial, rfc3339_instant, WallClock};
use crate::text::{
    ascii_lower_of, ascii_lowered, law_trimming_keeps_the_middle, lowered, opt_str, opt_text, owned,
    same, texts, trim, trimmed, white,
};

verus! {

/// How output is shown.
#[derive(Clone, Copy, Debug, PartialEq, Eq, Structural)]
pub struct Printer {
    /// Show debug output and status events.
    pub verbose: bool,
    /// Start every line with a time.
    pub timestamps: bool,
    /// Keep standard output for machine-readable lines.
    pub json: bool,
}

/// One thing to show.
#[derive(Debug)]
pub enum Notice {
    /// A progress line of the command line itself.
    Progress(String),
    /// A line of a pipeline stage.
    Event { stage: String, created_at: Option<String>, line: String, with_label: bool },
    /// A line that always goes to standard output, as it stands.
    Plain(String),
}

/// A [`Notice`], as characters.
pub enum NoticeView {
    Progress(Seq<char>),
    Event { stage: Seq<char>, created_at: Option<Seq<char>>, line: Seq<char>, with_label: bool },
    Plain(Seq<char>),
}

impl View for Notice {
    type V = NoticeView;

    open spec fn view(&self) -> NoticeView {
        match self {
            Notice::Progress(text) => NoticeView::Progress(text@),
            Notice::Event { stage, created_at, line, with_label } => NoticeView::Event {
                stage: stage@,
                created_at: opt_text(*created_at),
                line: line@,
                with_label: *with_label,
            },
            Notice::Plain(text) => NoticeView::Plain(text@),
        }
    }
}

/// A list of notices, as characters.
pub open spec fn notices(list: Seq<Notice>) -> Seq<NoticeView> {
    list.map_values(|n: Notice| n@)
}

/// A line of output.
#[derive(Debug)]
pub struct Printed {
    /// Whether the line goes to standard error.
    pub to_stderr: bool,
    pub text: String,
}

/// Whether a notice goes to standard error: in JSON mode everything but plain lines does.
pub open spec fn on_stderr(p: Printer, n: NoticeView) -> bool {
    p.json && !(n is Plain)
}

/// The time of day as `HH:MM:SS.cc`.
pub open spec fn clock_text(c: WallClock) -> Seq<char> {
    two_digits(c.hour as int) + ":"@ + two_digits(c.minute as int) + ":"@ + two_digits(
        c.second + c.millis / 1000,
    ) + "."@ + two_digits(c.millis as int / 10)
}

/// The label in front of a line of `stage`.
pub open spec fn label_text(stage: Seq<char>, with_label: bool) -> Seq<char> {
    if with_label {
        "["@ + stage + "] "@
    } else {
        Seq::empty()
    }
}

/// The lines of `text` as events of `stage`.
pub open spec fn event_lines(
    stage: Seq<char>,
    created_at: Option<Seq<char>>,
    text: Seq<char>,
    with_label: bool,
) -> Seq<NoticeView> {
    lines(text).map_values(
        |line: Seq<char>| NoticeView::Event { stage, created_at, line, with_label },
    )
}

/// What is shown of a log line that is always shown.
pub open spec fn info_shown(
    p: Printer,
    stage: Seq<char>,
    created_at: Option<Seq<char>>,
    text: Seq<char>,
) -> Seq<NoticeView> {
    event_lines(stage, created_at, text, p.verbose)
}

/// What is shown of a log line that only verbose output shows.
pub open spec fn debug_shown(
    p: Printer,
    stage: Seq<char>,
    created_at: Option<Seq<char>>,
    text: Seq<char>,
) -> Seq<NoticeView> {
    if p.verbose {
        event_lines(stage, created_at, text, true)
    } else {
        Seq::empty()
    }
}

/// The line for a change of status.
pub open spec fn status_text(kind: Seq<char>, detail: Option<Seq<char>>) -> Seq<char> {
    match detail {
        Some(d) => if d.len() > 0 {
            kind + ": "@ + d
        } else {
            kind
        },
        None => kind,
    }
}

/// What is shown of a change of status.
pub open spec fn status_shown(
    p: Printer,
    stage: Seq<char>,
    created_at: Option<Seq<char>>,
    kind: Seq<char>,
    detail: Option<Seq<char>>,
) -> Seq<NoticeView> {
    if p.verbose {
        seq![
            NoticeView::Event {
                stage,
                created_at,
                line: status_text(kind, detail),
                with_label: true,
            },
        ]
    } else {
        Seq::empty()
    }
}

/// Whether `text` is the line `body` behind a time of day.
pub open spec fn behind_some_clock(text: Seq<char>, body: Seq<char>) -> bool {
    exists|c: WallClock| on_dial(c) && text == #[trigger] clock_text(c) + " "@ + body
}

/// Whether `text` is the line `body` behind the local time of day of an event.
pub open spec fn behind_event_clock(
    text: Seq<char>,
    created_at: Option<Seq<char>>,
    body: Seq<char>,
) -> bool {
    let at = match created_at {
        Some(raw) => rfc3339_instant(raw),
        None => None,
    };
    match at {
        Some(instant) => exists|c: WallClock|
            on_dial(c) && c.millis == instant.nanos / 1_000_000 && text == #[trigger] clock_text(c)
                + " "@ + body,
        None => behind_some_clock(text, body),
    }
}

/// The time of day as `HH:MM:SS.cc`.
pub fn format_clock(c: WallClock) -> (r: String)
    requires
        on_dial(c),
    ensures
        r@ == clock_text(c),
{
    let mut r = two_digit_text(c.hour);
    r.append(":");
    r.append(two_digit_text(c.minute).as_str());
    r.append(":");
    r.append(two_digit_text(c.second + c.millis / 1000).as_str());
    r.append(".");
    r.append(two_digit_text(c.millis / 10).as_str());
    r
}

/// `HH:MM:SS.cc` from the local wall clock.
pub fn local_timestamp() -> (r: String)
    ensures
        exists|c: WallClock| on_dial(c) && r@ == #[trigger] clock_text(c),
{
    format_clock(local_now())
}

/// An RFC 3339 time as `HH:MM:SS.cc` in local time; `None` where it is none.
pub fn format_event_timestamp(created_at: &str) -> (r: Option<String>)
    ensures
        match rfc3339_instant(created_at@) {
            Some(instant) => r matches Some(text) && exists|c: WallClock|
                on_dial(c) && c.millis == instant.nanos / 1_000_000 && text@ == #[trigger] clock_text(c),
            None => r is None,
        },
{
    match local_time_of(created_at) {
        Some(c) => {
            let text = format_clock(c);
            Some(text)
        },
        None => None,
    }
}

/// The lines of `text` as events of `stage`.
fn lines_as_events(stage: &str, created_at: Option<&str>, text: &str, with_label: bool) -> (r: Vec<
    Notice,
>)
    ensures
        notices(r@) == event_lines(stage@, opt_str(created_at), text@, with_label),
{
    let list = lines_of(text);
    let mut out: Vec<Notice> = Vec::new();
    let ghost all = event_lines(stage@, opt_str(created_at), text@, with_label);
    let mut i: usize = 0;
    while i < list.len()
        invariant
            i <= list@.len(),
            all == event_lines(stage@, opt_str(created_at), text@, with_label),
            texts(list@) == lines(text@),
            all.len() == list@.len(),
            notices(out@) == all.take(i as int),
        decreases list@.len() - i,
    {
        let ghost before = notices(out@);
        let notice = Notice::Event {
            stage: stage.to_string(),
            created_at: owned(created_at),
            line: list[i].clone(),
            with_label,
        };
        out.push(notice);
        proof {
            assert(texts(list@)[i as int] == list@[i as int]@);
            assert(notices(out@) =~= before.push(notice@));
            assert(all.take(i + 1) =~= all.take(i as int).push(all[i as int]));
        }
        i = i + 1;
    }
    proof {
        assert(all.take(i as int) =~= all);
    }
    out
}

impl Printer {
    /// A progress line. It is always shown; its time follows the flag.
    pub fn progress(&self, msg: &str) -> (r: Printed)
        ensures
            r.to_stderr == self.json,
            !self.timestamps ==> r.text@ == msg@,
            self.timestamps ==> behind_some_clock(r.text@, msg@),
    {
        let text = if self.timestamps {
            let mut line = local_timestamp();
            line.append(" ");
            line.append(msg);
            line
        } else {
            msg.to_string()
        };
        Printed { to_stderr: self.json, text }
    }

    /// A log line that is always shown.
    pub fn info(&self, stage: &str, created_at: Option<&str>, text: &str) -> (r: Vec<Notice>)
        ensures
            notices(r@) == info_shown(*self, stage@, opt_str(created_at), text@),
    {
        lines_as_events(stage, created_at, text, self.verbose)
    }

    /// A log line that only verbose output shows.
    pub fn debug(&self, stage: &str, created_at: Option<&str>, text: &str) -> (r: Vec<Notice>)
        ensures
            notices(r@) == debug_shown(*self, stage@, opt_str(created_at), text@),
    {
        if !self.verbose {
            let none: Vec<Notice> = Vec::new();
            proof {
                assert(notices(none@) =~= Seq::<NoticeView>::empty());
            }
            return none;
        }
        lines_as_events(stage, created_at, text, true)
    }

    /// A change of status, which only verbose output shows. A stage that failed is shown
    /// on its own, with its buffered log.
    pub fn status(
        &self,
        stage: &str,
        created_at: Option<&str>,
        kind: &str,
        detail: Option<&str>,
    ) -> (r: Vec<Notice>)
        ensures
            notices(r@) == status_shown(*self, stage@, opt_str(created_at), kind@, opt_str(detail)),
    {
        let mut out: Vec<Notice> = Vec::new();
        if self.verbose {
            let mut line = kind.to_string();
            match detail {
                Some(d) => if !d.is_empty() {
                    line.append(": ");
                    line.append(d);
                },
                None => {},
            }
            let notice = Notice::Event {
                stage: stage.to_string(),
                created_at: owned(created_at),
                line,
                with_label: true,
            };
            out.push(notice);
        }
        proof {
            assert(notices(out@) =~= status_shown(
                *self,
                stage@,
                opt_str(created_at),
                kind@,
                opt_str(detail),
            ));
        }
        out
    }

    /// A line of a pipeline stage.
    pub fn print_event_line(
        &self,
        stage: &str,
        created_at: Option<&str>,
        line: &str,
        with_label: bool,
    ) -> (r: Printed)
        ensures
            r.to_stderr == self.json,
            !self.timestamps ==> r.text@ == label_text(stage@, with_label) + line@,
            self.timestamps ==> behind_event_clock(
                r.text@,
                opt_str(created_at),
                label_text(stage@, with_label) + line@,
            ),
    {
        let mut body = String::new();
        if with_label {
            body.append("[");
            body.append(stage);
            body.append("] ");
        }
        proof {
            assert(body@ =~= label_text(stage@, with_label));
        }
        body.append(line);
        let text = if self.timestamps {
            let own = match created_at {
                Some(raw) => format_event_timestamp(raw),
                None => None,
            };
            let mut text = match own {
                Some(clock) => clock,
                None => local_timestamp(),
            };
            text.append(" ");
            text.append(body.as_str());
            text
        } else {
            body
        };
        Printed { to_stderr: self.json, text }
    }

    /// The line of output for a notice.
    pub fn render(&self, notice: &Notice) -> (r: Printed)
        ensures
            r.to_stderr == on_stderr(*self, notice@),
            match notice@ {
                NoticeView::Progress(msg) => {
                    &&& !self.timestamps ==> r.text@ == msg
                    &&& self.timestamps ==> behind_some_clock(r.text@, msg)
                },
                NoticeView::Event { stage, created_at, line, with_label } => {
                    let body = label_text(stage, with_label) + line;
                    &&& !self.timestamps ==> r.text@ == body
                    &&& self.timestamps ==> behind_event_clock(r.text@, created_at, body)
                },
                NoticeView::Plain(msg) => r.text@ == msg,
            },
    {
        match notice {
            Notice::Progress(msg) => self.progress(msg.as_str()),
            Notice::Event { stage, created_at, line, with_label } => {
                let at = match created_at {
                    Some(raw) => Some(raw.as_str()),
                    None => None,
                };
                self.print_event_line(stage.as_str(), at, line.as_str(), *with_label)
            },
            Notice::Plain(msg) => Printed { to_stderr: false, text: msg.clone() },
        }
    }
}

/// Whether `answer` agrees to a question that offers `[Y/n]`: an empty answer takes the
/// default.
pub open spec fn means_yes(answer: Seq<char>) -> bool {
    let said = ascii_lowered(trim(answer));
    said == ""@ || said == "y"@ || said == "yes"@
}

/// Whether `answer` agrees to a question that offers `[Y/n]`.
pub fn confirm_yes(answer: &str) -> (r: bool)
    ensures
        r == means_yes(answer@),
{
    let said = lowered(trimmed(answer).as_str());
    same(said.as_str(), "") || same(said.as_str(), "y") || same(said.as_str(), "yes")
}

/// Whether a typed answer is the one that was asked for.
pub open spec fn typed_right(answer: Seq<char>, expected: Seq<char>) -> bool {
    trim(answer) == expected
}

/// Holds a typed answer against the one that was asked for; `mismatch` is what to say
/// where it is another.
pub fn confirm_typed(answer: &str, expected: &str, mismatch: &str) -> (r: Result<(), String>)
    ensures
        match r {
            Ok(()) => trim(answer@) == expected@,
            Err(m) => trim(answer@) != expected@ && m@ == mismatch@,
        },
        r is Ok <==> typed_right(answer@, expected@),
{
    if same(trimmed(answer).as_str(), expected) {
        Ok(())
    } else {
        Err(mismatch.to_string())
    }
}

// ---------------------------------------------------------------------------
// Laws
// ---------------------------------------------------------------------------

/// A text is shown line by line, each line under the stage and the time that it came with.
pub proof fn law_events_are_shown_line_by_line(
    stage: Seq<char>,
    created_at: Option<Seq<char>>,
    line: Seq<char>,
    rest: Seq<char>,
    with_label: bool,
)
    requires
        !line.contains('\n'),
        line.len() > 0,
        line.last() != '\r',
    ensures
        event_lines(stage, created_at, line, with_label) == seq![
            NoticeView::Event { stage, created_at, line, with_label },
        ],
        event_lines(stage, created_at, line + seq!['\n'] + rest, with_label) == seq![
            NoticeView::Event { stage, created_at, line, with_label },
        ] + event_lines(stage, created_at, rest, with_label),
{
    law_lines_end_at_line_feeds(line, rest);
    assert(event_lines(stage, created_at, line, with_label) =~= seq![
        NoticeView::Event { stage, created_at, line, with_label },
    ]);
    assert(event_lines(stage, created_at, line + seq!['\n'] + rest, with_label) =~= seq![
        NoticeView::Event { stage, created_at, line, with_label },
    ] + event_lines(stage, created_at, rest, with_label));
}

/// Verbose output shows everything and names the stage; other output shows headlines only,
/// without a name.
pub proof fn law_verbose_output_shows_more(
    p: Printer,
    stage: Seq<char>,
    created_at: Option<Seq<char>>,
    text: Seq<char>,
    kind: Seq<char>,
    detail: Option<Seq<char>>,
)
    ensures
        info_shown(p, stage, created_at, text).len() == lines(text).len(),
        forall|i: int|
            0 <= i < lines(text).len() ==> #[trigger] info_shown(p, stage, created_at, text)[i] == (
            NoticeView::Event { stage, created_at, line: lines(text)[i], with_label: p.verbose }),
        p.verbose ==> debug_shown(p, stage, created_at, text) == info_shown(
            p,
            stage,
            created_at,
            text,
        ),
        !p.verbose ==> debug_shown(p, stage, created_at, text).len() == 0,
        !p.verbose ==> status_shown(p, stage, created_at, kind, detail).len() == 0,
        p.verbose ==> status_shown(p, stage, created_at, kind, detail) == seq![
            NoticeView::Event {
                stage,
                created_at,
                line: if detail is Some && detail->0.len() > 0 {
                    kind + ": "@ + detail->0
                } else {
                    kind
                },
                with_label: true,
            },
        ],
{
}

/// In JSON mode standard output is kept for plain lines; otherwise everything goes there.
pub proof fn law_json_keeps_standard_output(p: Printer, n: NoticeView)
    ensures
        on_stderr(p, n) <==> p.json && (n is Progress || n is Event),
{
}

/// A label names its stage in brackets, and there is none where none is asked for.
pub proof fn law_labels_name_their_stage(stage: Seq<char>)
    ensures
        label_text(stage, true) == "["@ + stage + "] "@,
        label_text(stage, false).len() == 0,
{
}

/// A time of day is shown as hours, minutes, seconds and hundredths, two digits each.
pub proof fn law_times_have_eleven_characters(c: WallClock)
    requires
        on_dial(c),
        c.millis < 1000,
    ensures
        ({
            let text = clock_text(c);
            &&& text.len() == 11
            &&& text[2] == ':' && text[5] == ':' && text[8] == '.'
            &&& digits_value(text.subrange(0, 2)) == c.hour
            &&& digits_value(text.subrange(3, 5)) == c.minute
            &&& digits_value(text.subrange(6, 8)) == c.second
            &&& digits_value(text.subrange(9, 11)) == c.millis / 10
        }),
{
    reveal_strlit(":");
    reveal_strlit(".");
    law_two_digits_stand_for_their_number(c.hour as int);
    law_two_digits_stand_for_their_number(c.minute as int);
    law_two_digits_stand_for_their_number(c.second as int);
    law_two_digits_stand_for_their_number(c.millis as int / 10);
    let text = clock_text(c);
    assert(text.subrange(0, 2) =~= two_digits(c.hour as int));
    assert(text.subrange(3, 5) =~= two_digits(c.minute as int));
    assert(text.subrange(6, 8) =~= two_digits(c.second as int));
    assert(text.subrange(9, 11) =~= two_digits(c.millis as int / 10));
}

/// A yes is `y` or `yes`, in small or capital letters and with white space around it, or no
/// answer at all. Nothing else is one.
pub proof fn law_what_counts_as_yes(before: Seq<char>, answer: Seq<char>, after: Seq<char>)
    requires
        forall|i: int| 0 <= i < before.len() ==> white(#[trigger] before[i]),
        forall|i: int| 0 <= i < after.len() ==> white(#[trigger] after[i]),
        answer.len() > 0 ==> !white(answer[0]) && !white(answer.last()),
    ensures
        means_yes(before + answer + after) <==> answer.len() == 0 || (answer.len() == 1 && (answer[0]
            == 'y' || answer[0] == 'Y')) || (answer.len() == 3 && (answer[0] == 'y' || answer[0]
            == 'Y') && (answer[1] == 'e' || answer[1] == 'E') && (answer[2] == 's' || answer[2]
            == 'S')),
{
    law_trimming_keeps_the_middle(before, answer, after);
    reveal_strlit("");
    reveal_strlit("y");
    reveal_strlit("yes");
    let said = ascii_lowered(answer);
    assert(said.len() == answer.len());
    if answer.len() == 0 {
        assert(said =~= ""@);
    }
    if answer.len() == 1 {
        assert(said[0] == ascii_lower_of(answer[0]));
        if answer[0] == 'y' || answer[0] == 'Y' {
            assert(said =~= "y"@);
        }
    }
    if answer.len() == 3 {
        assert(said[0] == ascii_lower_of(answer[0]));
        assert(said[1] == ascii_lower_of(answer[1]));
        assert(said[2] == ascii_lower_of(answer[2]));
        if said[0] == 'y' && said[1] == 'e' && said[2] == 's' {
            assert(said =~= "yes"@);
        }
        if said == "yes"@ {
            assert(said[0] == 'y' && said[1] == 'e' && said[2] == 's');
        }
    }
    if said == "y"@ {
        assert(said[0] == 'y');
    }
}

/// A typed answer is right exactly where it is what was asked for, letter for letter, with
/// nothing but white space around it.
pub proof fn law_answers_are_held_letter_for_letter(
    before: Seq<char>,
    answer: Seq<char>,
    after: Seq<char>,
    expected: Seq<char>,
)
    requires
        forall|i: int| 0 <= i < before.len() ==> white(#[trigger] before[i]),
        forall|i: int| 0 <= i < after.len() ==> white(#[trigger] after[i]),
        answer.len() > 0 ==> !white(answer[0]) && !white(answer.last()),
    ensures
        typed_right(before + answer + after, expected) <==> answer == expected,
{
    law_trimming_keeps_the_middle(before, answer, after);
}

} // verus!

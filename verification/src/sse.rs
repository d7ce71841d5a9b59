//! The wire format of the deploy event stream: server-sent events.

use vstd::prelude::*;
use vstd::string::*;

use crate::lines::{join, joined, lines, lines_of};
use crate::numbers::{parse_i64, parse_signed};
use crate::outside::{lossy, utf8_lossy};
use crate::text::{
    after_prefix, contains, find, find_in, lemma_find_from, occurs_at, starts_with, texts, trim, trimmed,
};

verus! {

/// One event of the stream, before its data is decoded.
#[derive(Debug)]
pub struct SseFrame {
    pub event: String,
    pub data: String,
    /// The sequence number to resume from: the event's own, or the one before it.
    pub last_event_id: Option<i64>,
}

/// What follows `field` on a line that starts with it.
pub open spec fn field_value(line: Seq<char>, field: Seq<char>) -> Option<Seq<char>> {
    if starts_with(line, field) {
        Some(line.skip(field.len() as int))
    } else {
        None
    }
}

/// The event type: the value of the last `event` line, or nothing.
pub open spec fn event_type(lines: Seq<Seq<char>>) -> Seq<char>
    decreases lines.len(),
{
    if lines.len() == 0 {
        Seq::empty()
    } else {
        match field_value(lines.last(), "event:"@) {
            Some(value) => trim(value),
            None => event_type(lines.drop_last()),
        }
    }
}

/// A data value without the one blank that may stand in front of it.
pub open spec fn data_value(value: Seq<char>) -> Seq<char> {
    if value.len() > 0 && value[0] == ' ' {
        value.skip(1)
    } else {
        value
    }
}

/// The values of the `data` lines, in order.
pub open spec fn data_lines(lines: Seq<Seq<char>>) -> Seq<Seq<char>>
    decreases lines.len(),
{
    if lines.len() == 0 {
        Seq::empty()
    } else {
        match field_value(lines.last(), "data:"@) {
            Some(value) => data_lines(lines.drop_last()).push(data_value(value)),
            None => data_lines(lines.drop_last()),
        }
    }
}

/// The sequence number of the last `id` line that holds one, or `prior`.
pub open spec fn event_id(lines: Seq<Seq<char>>, prior: Option<i64>) -> Option<i64>
    decreases lines.len(),
{
    if lines.len() == 0 {
        prior
    } else {
        let before = event_id(lines.drop_last(), prior);
        match field_value(lines.last(), "id:"@) {
            Some(value) => match parse_i64(trim(value)) {
                Some(seq) => Some(seq),
                None => before,
            },
            None => before,
        }
    }
}

/// Reads one event. `prior` is the sequence number seen before it. Lines of other fields
/// and comments are passed over, and so is a sequence number that is none.
pub fn read_frame(raw: &str, prior: Option<i64>) -> (r: SseFrame)
    ensures
        r.event@ == event_type(lines(raw@)),
        r.data@ == join(data_lines(lines(raw@)), "\n"@),
        r.last_event_id == event_id(lines(raw@), prior),
{
    let list = lines_of(raw);
    let ghost all = lines(raw@);
    let mut event = String::new();
    let mut data: Vec<String> = Vec::new();
    let mut last_event_id = prior;
    let mut i: usize = 0;
    proof {
        assert(all.take(0) =~= Seq::<Seq<char>>::empty());
        assert(texts(data@) =~= Seq::<Seq<char>>::empty());
    }
    while i < list.len()
        invariant
            i <= list@.len(),
            all == lines(raw@),
            texts(list@) == all,
            event@ == event_type(all.take(i as int)),
            texts(data@) == data_lines(all.take(i as int)),
            last_event_id == event_id(all.take(i as int), prior),
        decreases list@.len() - i,
    {
        let line = list[i].as_str();
        let ghost next = all.take(i + 1);
        let ghost values = texts(data@);
        proof {
            assert(next.drop_last() =~= all.take(i as int));
            assert(texts(list@)[i as int] == list@[i as int]@);
            assert(next.last() == line@);
        }
        match after_prefix(line, "event:") {
            Some(value) => {
                event = trimmed(value.as_str());
            },
            None => {},
        }
        match after_prefix(line, "data:") {
            Some(value) => {
                let stripped = after_blank(value);
                data.push(stripped);
                proof {
                    assert(texts(data@) =~= values.push(stripped@));
                }
            },
            None => {},
        }
        match after_prefix(line, "id:") {
            Some(value) => match parse_signed(trimmed(value.as_str()).as_str()) {
                Some(seq) => {
                    last_event_id = Some(seq);
                },
                None => {},
            },
            None => {},
        }
        i = i + 1;
    }
    proof {
        assert(all.take(i as int) =~= all);
    }
    SseFrame { event, data: joined(&data, "\n"), last_event_id }
}

fn after_blank(value: String) -> (r: String)
    ensures
        r@ == data_value(value@),
{
    proof {
        reveal_strlit(" ");
        assert(" "@ =~= seq![' ']);
        if value@.len() > 0 {
            assert(value@.subrange(0, 1) =~= seq![value@[0]]);
            assert(seq![value@[0]][0] == value@[0]);
        }
    }
    match after_prefix(value.as_str(), " ") {
        Some(rest) => rest,
        None => value,
    }
}

// ---------------------------------------------------------------------------
// Cutting the stream into events
// ---------------------------------------------------------------------------

/// What ends an event.
pub open spec fn blank_line() -> Seq<char> {
    "\n\n"@
}

/// The complete events at the start of `s`.
pub open spec fn complete_events(s: Seq<char>) -> Seq<Seq<char>>
    decreases s.len(),
{
    match find(s, blank_line()) {
        Some(i) => if 0 <= i && i + 2 <= s.len() {
            seq![s.take(i)] + complete_events(s.skip(i + 2))
        } else {
            Seq::empty()
        },
        None => Seq::empty(),
    }
}

/// What stands in `s` behind its complete events.
pub open spec fn pending(s: Seq<char>) -> Seq<char>
    decreases s.len(),
{
    match find(s, blank_line()) {
        Some(i) => if 0 <= i && i + 2 <= s.len() {
            pending(s.skip(i + 2))
        } else {
            s
        },
        None => s,
    }
}

/// Appends text to what is pending, and takes the complete events out of it.
pub fn take_events(buf: &mut String, text: &str) -> (r: Vec<String>)
    ensures
        texts(r@) == complete_events(old(buf)@ + text@),
        final(buf)@ == pending(old(buf)@ + text@),
{
    buf.append(text);
    let ghost all = buf@;
    let mut out: Vec<String> = Vec::new();
    let mut rest = buf.clone();
    proof {
        reveal_strlit("\n\n");
        assert(texts(out@) + complete_events(all) =~= complete_events(all));
    }
    loop
        invariant
            blank_line().len() == 2,
            texts(out@) + complete_events(rest@) == complete_events(all),
            pending(rest@) == pending(all),
            all == old(buf)@ + text@,
        ensures
            texts(out@) == complete_events(all),
            rest@ == pending(all),
        decreases rest@.len(),
    {
        proof {
            lemma_find_from(rest@, blank_line(), 0);
        }
        match find_in(rest.as_str(), "\n\n") {
            Some(i) => {
                let ghost before = texts(out@);
                let len = rest.as_str().unicode_len();
                let event = rest.as_str().substring_char(0, i).to_string();
                let tail = rest.as_str().substring_char(i + 2, len).to_string();
                out.push(event);
                proof {
                    assert(event@ =~= rest@.take(i as int));
                    assert(tail@ =~= rest@.skip(i + 2));
                    assert(texts(out@) =~= before.push(event@));
                    assert(texts(out@) + complete_events(tail@) =~= before + (seq![event@]
                        + complete_events(tail@)));
                }
                rest = tail;
            },
            None => {
                proof {
                    assert(texts(out@) + Seq::<Seq<char>>::empty() =~= texts(out@));
                }
                break;
            },
        }
    }
    *buf = rest;
    out
}

/// Appends a chunk of the stream to what is pending, and takes the complete events out.
pub fn feed(buf: &mut String, chunk: &[u8]) -> (r: Vec<String>)
    ensures
        texts(r@) == complete_events(old(buf)@ + utf8_lossy(chunk@)),
        final(buf)@ == pending(old(buf)@ + utf8_lossy(chunk@)),
{
    take_events(buf, lossy(chunk).as_str())
}

/// How the stream is cut into pieces makes no difference: reading `a` and then `b` gives
/// the events of `a` and `b` read at once, and leaves the same text pending.
pub proof fn law_pieces_do_not_matter(a: Seq<char>, b: Seq<char>)
    ensures
        complete_events(a + b) == complete_events(a) + complete_events(pending(a) + b),
        pending(a + b) == pending(pending(a) + b),
    decreases a.len(),
{
    reveal_strlit("\n\n");
    let stop = blank_line();
    lemma_find_from(a, stop, 0);
    match find(a, stop) {
        Some(i) => {
            assert forall|j: int| 0 <= j <= i implies #[trigger] occurs_at(a + b, stop, j)
                == occurs_at(a, stop, j) by {
                assert((a + b).subrange(j, j + 2) =~= a.subrange(j, j + 2));
            }
            lemma_first_found(a + b, stop, i);
            assert((a + b).take(i) =~= a.take(i));
            assert((a + b).skip(i + 2) =~= a.skip(i + 2) + b);
            law_pieces_do_not_matter(a.skip(i + 2), b);
            assert(seq![a.take(i)] + (complete_events(a.skip(i + 2)) + complete_events(
                pending(a.skip(i + 2)) + b,
            )) =~= complete_events(a) + complete_events(pending(a) + b));
        },
        None => {
            assert(Seq::<Seq<char>>::empty() + complete_events(a + b) =~= complete_events(a + b));
        },
    }
}

proof fn lemma_first_found(s: Seq<char>, p: Seq<char>, i: int)
    requires
        0 <= i,
        occurs_at(s, p, i),
        forall|j: int| 0 <= j < i ==> !#[trigger] occurs_at(s, p, j),
    ensures
        find(s, p) == Some(i),
{
    lemma_find_from(s, p, 0);
    match find(s, p) {
        Some(k) => {
            if k < i {
                assert(occurs_at(s, p, k));
            }
        },
        None => {
            assert(!occurs_at(s, p, i));
        },
    }
}

// ---------------------------------------------------------------------------
// Laws of events
// ---------------------------------------------------------------------------

proof fn lemma_field(field: Seq<char>, value: Seq<char>)
    ensures
        field_value(field + value, field) == Some(value),
{
    assert((field + value).subrange(0, field.len() as int) =~= field);
    assert((field + value).skip(field.len() as int) =~= value);
}

/// A line is read as the one field that it begins with.
pub proof fn law_fields_are_told_apart(value: Seq<char>)
    ensures
        field_value("event:"@ + value, "event:"@) == Some(value),
        field_value("data:"@ + value, "data:"@) == Some(value),
        field_value("id:"@ + value, "id:"@) == Some(value),
        field_value("event:"@ + value, "data:"@) is None,
        field_value("event:"@ + value, "id:"@) is None,
        field_value("data:"@ + value, "event:"@) is None,
        field_value("data:"@ + value, "id:"@) is None,
        field_value("id:"@ + value, "event:"@) is None,
        field_value("id:"@ + value, "data:"@) is None,
{
    reveal_strlit("event:");
    reveal_strlit("data:");
    reveal_strlit("id:");
    lemma_field("event:"@, value);
    lemma_field("data:"@, value);
    lemma_field("id:"@, value);
    assert("event:"@[0] == 'e' && "data:"@[0] == 'd' && "id:"@[0] == 'i');
    assert(("event:"@ + value).subrange(0, 5)[0] == 'e');
    assert(("event:"@ + value).subrange(0, 3)[0] == 'e');
    assert(("id:"@ + value)[0] == 'i');
    if ("id:"@ + value).len() >= 6 {
        assert(("id:"@ + value).subrange(0, 6)[0] == 'i');
    }
    if ("id:"@ + value).len() >= 5 {
        assert(("id:"@ + value).subrange(0, 5)[0] == 'i');
    }
    if ("data:"@ + value).len() >= 6 {
        assert(("data:"@ + value).subrange(0, 6)[0] == 'd');
    }
    assert(("data:"@ + value).subrange(0, 3)[0] == 'd');
}

/// The last line of a kind counts for the type and for the sequence number; the data of all
/// lines counts, in their order, each without the one blank in front; any other line counts
/// for nothing.
pub proof fn law_later_lines_count(lines: Seq<Seq<char>>, value: Seq<char>, prior: Option<i64>)
    ensures
        event_type(lines.push("event:"@ + value)) == trim(value),
        event_type(lines.push("data:"@ + value)) == event_type(lines),
        event_type(lines.push("id:"@ + value)) == event_type(lines),
        data_lines(lines.push("data:"@ + value)) == data_lines(lines).push(
            if value.len() > 0 && value[0] == ' ' {
                value.skip(1)
            } else {
                value
            },
        ),
        data_lines(lines.push("event:"@ + value)) == data_lines(lines),
        data_lines(lines.push("id:"@ + value)) == data_lines(lines),
        parse_i64(trim(value)) is Some ==> event_id(lines.push("id:"@ + value), prior) == parse_i64(
            trim(value),
        ),
        parse_i64(trim(value)) is None ==> event_id(lines.push("id:"@ + value), prior) == event_id(
            lines,
            prior,
        ),
        event_id(lines.push("event:"@ + value), prior) == event_id(lines, prior),
        event_id(lines.push("data:"@ + value), prior) == event_id(lines, prior),
        event_type(Seq::empty()).len() == 0,
        data_lines(Seq::empty()).len() == 0,
        event_id(Seq::empty(), prior) == prior,
{
    law_fields_are_told_apart(value);
    assert(lines.push("event:"@ + value).drop_last() =~= lines);
    assert(lines.push("data:"@ + value).drop_last() =~= lines);
    assert(lines.push("id:"@ + value).drop_last() =~= lines);
}

/// An event ends at the first empty line behind it, and what follows is read by itself.
pub proof fn law_events_end_at_empty_lines(event: Seq<char>, rest: Seq<char>)
    requires
        !contains(event + "\n"@, "\n\n"@),
    ensures
        complete_events(event + "\n\n"@ + rest) == seq![event] + complete_events(rest),
        pending(event + "\n\n"@ + rest) == pending(rest),
        complete_events(event).len() == 0,
        pending(event) == event,
{
    reveal_strlit("\n\n");
    reveal_strlit("\n");
    let stop = "\n\n"@;
    let s = event + stop + rest;
    let n = event.len() as int;
    lemma_find_from(s, stop, 0);
    lemma_find_from(event, stop, 0);
    assert(s.subrange(n, n + 2) =~= stop);
    assert(occurs_at(s, stop, n));
    assert forall|i: int| 0 <= i < n implies !#[trigger] occurs_at(s, stop, i) by {
        if occurs_at(s, stop, i) {
            assert((event + "\n"@).subrange(i, i + 2) =~= s.subrange(i, i + 2));
            assert(occurs_at(event + "\n"@, stop, i));
        }
    }
    assert(find(s, stop) == Some(n));
    assert(s.take(n) =~= event);
    assert(s.skip(n + 2) =~= rest);
    if find(event, stop) is Some {
        let i = find(event, stop)->0;
        assert((event + "\n"@).subrange(i, i + 2) =~= event.subrange(i, i + 2));
        assert(occurs_at(event + "\n"@, stop, i));
    }
}

} // verus!

//! Cutting text into parts, joining parts again, and replacing what stands in between.

use vstd::prelude::*;
use vstd::string::*;

use crate::text::{
    chars_of, contains, ends_with, law_texts_contain_their_parts, occurs_at, starts_with, string_of,
    texts,
};

verus! {

/// How many characters stand in `s` before the first `c`: all of them where there is no `c`.
pub open spec fn upto(s: Seq<char>, c: char) -> int
    decreases s.len(),
{
    if s.len() == 0 || s[0] == c {
        0
    } else {
        1 + upto(s.skip(1), c)
    }
}

/// The parts of `s` between the occurrences of `c`.
pub open spec fn split(s: Seq<char>, c: char) -> Seq<Seq<char>>
    decreases s.len(),
{
    let k = upto(s, c);
    if k < 0 || k >= s.len() {
        seq![s]
    } else {
        seq![s.take(k)] + split(s.skip(k + 1), c)
    }
}

/// `s` without one carriage return at its end.
pub open spec fn without_cr(s: Seq<char>) -> Seq<char> {
    if s.len() > 0 && s.last() == '\r' {
        s.drop_last()
    } else {
        s
    }
}

/// The lines of `s`. A line ends at a line feed, or at a carriage return and a line
/// feed; a line ending at the very end of `s` starts no further line.
pub open spec fn lines(s: Seq<char>) -> Seq<Seq<char>>
    decreases s.len(),
{
    let k = upto(s, '\n');
    if s.len() == 0 {
        Seq::empty()
    } else if k < 0 || k >= s.len() {
        seq![s]
    } else {
        seq![without_cr(s.take(k))] + lines(s.skip(k + 1))
    }
}

/// The parts in order, with `sep` between neighbours.
pub open spec fn join(parts: Seq<Seq<char>>, sep: Seq<char>) -> Seq<char>
    decreases parts.len(),
{
    if parts.len() == 0 {
        Seq::empty()
    } else if parts.len() == 1 {
        parts[0]
    } else {
        join(parts.drop_last(), sep) + sep + parts.last()
    }
}

/// `s` with every `from`, taken from the left and without overlap, replaced by `to`.
pub open spec fn replace(s: Seq<char>, from: Seq<char>, to: Seq<char>) -> Seq<char>
    decreases s.len(),
{
    if from.len() == 0 || s.len() == 0 {
        s
    } else if occurs_at(s, from, 0) {
        to + replace(s.skip(from.len() as int), from, to)
    } else {
        seq![s[0]] + replace(s.skip(1), from, to)
    }
}

proof fn lemma_upto(s: Seq<char>, c: char, k: int)
    requires
        0 <= k <= s.len(),
        forall|j: int| 0 <= j < k ==> s[j] != c,
        k < s.len() ==> s[k] == c,
    ensures
        upto(s, c) == k,
    decreases s.len(),
{
    if k > 0 {
        lemma_upto(s.skip(1), c, k - 1);
    }
}

/// The position of the first `c` at or after `from`, or the end.
fn scan(v: &Vec<char>, c: char, from: usize) -> (r: usize)
    requires
        from <= v@.len(),
    ensures
        from <= r <= v@.len(),
        upto(v@.skip(from as int), c) == r - from,
{
    let mut i: usize = from;
    while i < v.len() && v[i] != c
        invariant
            from <= i <= v@.len(),
            forall|j: int| from <= j < i ==> v@[j] != c,
        decreases v@.len() - i,
    {
        i = i + 1;
    }
    proof {
        lemma_upto(v@.skip(from as int), c, i - from);
    }
    i
}

/// The parts of `s` between the occurrences of `c`.
pub fn split_at(s: &str, c: char) -> (r: Vec<String>)
    ensures
        texts(r@) == split(s@, c),
{
    let v = chars_of(s);
    let mut out: Vec<String> = Vec::new();
    let mut from: usize = 0;
    proof {
        assert(v@.skip(0) =~= v@);
        assert(texts(out@) + split(v@.skip(0), c) =~= split(s@, c));
    }
    loop
        invariant
            v@ == s@,
            from <= v@.len(),
            texts(out@) + split(v@.skip(from as int), c) == split(s@, c),
        decreases v@.len() - from,
    {
        let end = scan(&v, c, from);
        let part = string_of(&v, from, end);
        let ghost before = texts(out@);
        let ghost rest = v@.skip(from as int);
        proof {
            assert(part@ =~= rest.take(end - from));
        }
        out.push(part);
        proof {
            assert(texts(out@) =~= before.push(part@));
        }
        if end == v.len() {
            proof {
                assert(part@ =~= rest);
                assert(texts(out@) =~= before + seq![rest]);
            }
            return out;
        }
        proof {
            assert(rest.skip(end - from + 1) =~= v@.skip(end + 1));
            assert(texts(out@) + split(v@.skip(end + 1), c) =~= before + (seq![part@] + split(
                v@.skip(end + 1),
                c,
            )));
        }
        from = end + 1;
    }
}

/// The lines of `s`.
pub fn lines_of(s: &str) -> (r: Vec<String>)
    ensures
        texts(r@) == lines(s@),
{
    let v = chars_of(s);
    let mut out: Vec<String> = Vec::new();
    let mut from: usize = 0;
    proof {
        assert(v@.skip(0) =~= v@);
        assert(texts(out@) + lines(v@.skip(0)) =~= lines(s@));
    }
    while from < v.len()
        invariant
            v@ == s@,
            from <= v@.len(),
            texts(out@) + lines(v@.skip(from as int)) == lines(s@),
        decreases v@.len() - from,
    {
        let end = scan(&v, '\n', from);
        let ghost before = texts(out@);
        let ghost rest = v@.skip(from as int);
        if end == v.len() {
            let line = string_of(&v, from, end);
            out.push(line);
            proof {
                assert(line@ =~= rest);
                assert(texts(out@) =~= before + seq![rest]);
            }
            return out;
        }
        let stop: usize = if from < end && v[end - 1] == '\r' {
            end - 1
        } else {
            end
        };
        let line = string_of(&v, from, stop);
        out.push(line);
        proof {
            assert(v@.subrange(from as int, end as int) =~= rest.take(end - from));
            assert(line@ =~= without_cr(rest.take(end - from)));
            assert(texts(out@) =~= before.push(line@));
            assert(rest.skip(end - from + 1) =~= v@.skip(end + 1));
            assert(texts(out@) + lines(v@.skip(end + 1)) =~= before + (seq![line@] + lines(
                v@.skip(end + 1),
            )));
        }
        from = end + 1;
    }
    proof {
        assert(v@.skip(from as int) =~= Seq::<char>::empty());
        assert(texts(out@) + Seq::<Seq<char>>::empty() =~= texts(out@));
    }
    out
}

/// The parts in order, with `sep` between neighbours.
pub fn joined(parts: &Vec<String>, sep: &str) -> (r: String)
    ensures
        r@ == join(texts(parts@), sep@),
{
    let mut out = String::new();
    let mut i: usize = 0;
    proof {
        assert(texts(parts@).take(0) =~= Seq::<Seq<char>>::empty());
    }
    while i < parts.len()
        invariant
            i <= parts@.len(),
            out@ == join(texts(parts@).take(i as int), sep@),
        decreases parts@.len() - i,
    {
        if i > 0 {
            out.append(sep);
        }
        out.append(parts[i].as_str());
        proof {
            let next = texts(parts@).take(i + 1);
            assert(next.drop_last() =~= texts(parts@).take(i as int));
            assert(next.last() == parts@[i as int]@);
            if i == 0 {
                assert(next[0] == parts@[0]@);
                assert(out@ =~= next[0]);
            }
        }
        i = i + 1;
    }
    proof {
        assert(texts(parts@).take(i as int) =~= texts(parts@));
    }
    out
}

/// `s` with every `from` replaced by `to`.
pub fn replaced(s: &str, from: &str, to: &str) -> (r: String)
    requires
        from@.len() > 0,
    ensures
        r@ == replace(s@, from@, to@),
{
    let v = chars_of(s);
    let p = chars_of(from);
    let mut out = String::new();
    let mut i: usize = 0;
    proof {
        assert(v@.skip(0) =~= v@);
        assert(out@ + replace(v@, from@, to@) =~= replace(v@, from@, to@));
    }
    while i < v.len()
        invariant
            v@ == s@,
            p@ == from@,
            p@.len() > 0,
            i <= v@.len(),
            out@ + replace(v@.skip(i as int), from@, to@) == replace(s@, from@, to@),
        decreases v@.len() - i,
    {
        let ghost rest = v@.skip(i as int);
        let ghost before = out@;
        let mut j: usize = 0;
        while j < p.len() && j < v.len() - i && v[i + j] == p[j]
            invariant
                j <= p@.len(),
                i + j <= v@.len(),
                i <= v.len(),
                forall|k: int| 0 <= k < j ==> v@[i + k] == p@[k],
            decreases p@.len() - j,
        {
            j = j + 1;
        }
        if j == p.len() {
            out.append(to);
            proof {
                assert(rest.subrange(0, p@.len() as int) =~= p@);
                assert(rest.skip(p@.len() as int) =~= v@.skip(i + j));
                assert(out@ + replace(v@.skip(i + j), from@, to@) =~= before + (to@ + replace(
                    v@.skip(i + j),
                    from@,
                    to@,
                )));
            }
            i = i + j;
        } else {
            out.push(v[i]);
            proof {
                if occurs_at(rest, p@, 0) {
                    assert(rest.subrange(0, p@.len() as int)[j as int] == v@[i + j]);
                }
                assert(rest.skip(1) =~= v@.skip(i + 1));
                assert(out@ + replace(v@.skip(i + 1), from@, to@) =~= before + (seq![rest[0]]
                    + replace(v@.skip(i + 1), from@, to@)));
            }
            i = i + 1;
        }
    }
    proof {
        assert(v@.skip(i as int) =~= Seq::<char>::empty());
        assert(out@ + Seq::<char>::empty() =~= out@);
    }
    out
}

/// Joining the parts that splitting gave, with the character they were split at, gives
/// the text back.
pub proof fn law_joining_undoes_splitting(s: Seq<char>, c: char)
    ensures
        join(split(s, c), seq![c]) == s,
    decreases s.len(),
{
    let k = upto(s, c);
    lemma_upto_char(s, c);
    if k < s.len() {
        let rest = s.skip(k + 1);
        law_joining_undoes_splitting(rest, c);
        lemma_join_front(s.take(k), split(rest, c), seq![c]);
        assert(s =~= s.take(k) + seq![c] + rest);
    }
}

/// Where the first `c` of a text stands.
pub proof fn lemma_upto_char(s: Seq<char>, c: char)
    ensures
        0 <= upto(s, c) <= s.len(),
        forall|j: int| 0 <= j < upto(s, c) ==> s[j] != c,
        upto(s, c) < s.len() ==> s[upto(s, c)] == c,
    decreases s.len(),
{
    if s.len() > 0 && s[0] != c {
        lemma_upto_char(s.skip(1), c);
        assert forall|j: int| 0 <= j < upto(s, c) implies s[j] != c by {
            if j > 0 {
                assert(s.skip(1)[j - 1] == s[j]);
            }
        }
    }
}

proof fn lemma_join_front(head: Seq<char>, tail: Seq<Seq<char>>, sep: Seq<char>)
    requires
        tail.len() > 0,
    ensures
        join(seq![head] + tail, sep) == head + sep + join(tail, sep),
    decreases tail.len(),
{
    let all = seq![head] + tail;
    assert(all.drop_last() =~= seq![head] + tail.drop_last());
    assert(all.last() == tail.last());
    assert(join(all, sep) == join(all.drop_last(), sep) + sep + tail.last());
    if tail.len() == 1 {
        assert(all.drop_last() =~= seq![head]);
        assert(join(all.drop_last(), sep) == head);
        assert(join(tail, sep) == tail.last());
    } else {
        lemma_join_front(head, tail.drop_last(), sep);
        assert(head + sep + join(tail.drop_last(), sep) + sep + tail.last() =~= head + sep + (join(
            tail.drop_last(),
            sep,
        ) + sep + tail.last()));
    }
}

/// A text is cut at every mark and nowhere else: no part holds one.
pub proof fn law_parts_hold_no_mark(s: Seq<char>, c: char)
    ensures
        forall|i: int, j: int|
            0 <= i < split(s, c).len() && 0 <= j < split(s, c)[i].len() ==> #[trigger] split(s, c)[i][j]
                != c,
    decreases s.len(),
{
    let k = upto(s, c);
    lemma_upto_char(s, c);
    if k < s.len() {
        let rest = s.skip(k + 1);
        law_parts_hold_no_mark(rest, c);
        assert forall|i: int, j: int|
            0 <= i < split(s, c).len() && 0 <= j < split(s, c)[i].len() implies #[trigger] split(
            s,
            c,
        )[i][j] != c by {
            if i > 0 {
                assert(split(s, c)[i] == split(rest, c)[i - 1]);
            }
        }
    }
}

/// Lines are what line feeds part: the one before the first, without the carriage return
/// that may stand at its end, and then those of the rest.
pub proof fn law_lines_end_at_line_feeds(line: Seq<char>, rest: Seq<char>)
    requires
        !line.contains('\n'),
    ensures
        lines(line + seq!['\n'] + rest) == seq![
            if line.len() > 0 && line.last() == '\r' {
                line.drop_last()
            } else {
                line
            },
        ] + lines(rest),
        lines(line) == if line.len() == 0 {
            Seq::empty()
        } else {
            seq![line]
        },
{
    let s = line + seq!['\n'] + rest;
    assert forall|j: int| 0 <= j < line.len() implies line[j] != '\n' by {
        assert(line.contains(line[j]));
    }
    lemma_upto(s, '\n', line.len() as int);
    lemma_upto(line, '\n', line.len() as int);
    assert(s.take(line.len() as int) =~= line);
    assert(s.skip(line.len() as int + 1) =~= rest);
}

/// Replacing works from the left: what is replaced goes in whole, and what is not is kept.
pub proof fn law_replacing_from_the_left(from: Seq<char>, to: Seq<char>, rest: Seq<char>, c: char)
    requires
        from.len() > 0,
    ensures
        replace(from + rest, from, to) == to + replace(rest, from, to),
        !occurs_at(seq![c] + rest, from, 0) ==> replace(seq![c] + rest, from, to) == seq![c]
            + replace(rest, from, to),
        replace(Seq::empty(), from, to) == Seq::<char>::empty(),
{
    assert((from + rest).subrange(0, from.len() as int) =~= from);
    assert((from + rest).skip(from.len() as int) =~= rest);
    assert((seq![c] + rest).skip(1) =~= rest);
}

/// Joined parts all stand in the text, between their separators.
pub proof fn law_joined_texts_hold_their_parts(parts: Seq<Seq<char>>, sep: Seq<char>, i: int)
    requires
        0 <= i < parts.len(),
    ensures
        contains(join(parts, sep), parts[i]),
        starts_with(join(parts, sep), parts[0]),
        ends_with(join(parts, sep), parts.last()),
    decreases parts.len(),
{
    let all = join(parts, sep);
    if parts.len() == 1 {
        assert(all.subrange(0, all.len() as int) =~= all);
        assert(occurs_at(all, parts[0], 0));
    } else {
        let before = parts.drop_last();
        let head = join(before, sep);
        assert(before[0] == parts[0]);
        law_joined_texts_hold_their_parts(before, sep, 0);
        assert(all.subrange(0, parts[0].len() as int) =~= head.subrange(0, parts[0].len() as int));
        law_texts_contain_their_parts(head + sep, parts.last(), Seq::empty());
        assert(head + sep + parts.last() + Seq::<char>::empty() =~= all);
        if i < parts.len() - 1 {
            assert(before[i] == parts[i]);
            law_joined_texts_hold_their_parts(before, sep, i);
            let k = choose|k: int| #[trigger] occurs_at(head, parts[i], k);
            assert(all.subrange(k, k + parts[i].len()) =~= head.subrange(k, k + parts[i].len()));
            assert(occurs_at(all, parts[i], k));
        }
    }
}

} // verus!

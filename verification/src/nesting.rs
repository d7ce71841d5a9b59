//! How deep the arrays and objects of a JSONC text stand inside each other.

use vstd::prelude::*;

use crate::text::chars_of;

verus! {

/// Where in a JSONC text a character stands.
#[derive(Clone, Copy, Debug, PartialEq, Eq, Structural)]
pub enum Place {
    /// Outside strings and comments.
    Code,
    /// Behind a slash that may begin a comment.
    Slash,
    /// In a string in these quotes.
    Quoted(char),
    /// Behind a backslash in a string in these quotes.
    Escaped(char),
    LineComment,
    BlockComment,
    /// Behind a star in a block comment.
    Star,
}

/// Where the character behind `c` stands.
pub open spec fn next_place(place: Place, c: char) -> Place {
    match place {
        Place::Quoted(quote) => if c == quote {
            Place::Code
        } else if c == '\\' {
            Place::Escaped(quote)
        } else {
            place
        },
        Place::Escaped(quote) => Place::Quoted(quote),
        Place::LineComment => if c == '\n' {
            Place::Code
        } else {
            place
        },
        Place::BlockComment => if c == '*' {
            Place::Star
        } else {
            place
        },
        Place::Star => if c == '/' {
            Place::Code
        } else if c == '*' {
            place
        } else {
            Place::BlockComment
        },
        Place::Code | Place::Slash => if place == Place::Slash && c == '/' {
            Place::LineComment
        } else if place == Place::Slash && c == '*' {
            Place::BlockComment
        } else if c == '/' {
            Place::Slash
        } else if c == '"' || c == '\'' {
            Place::Quoted(c)
        } else {
            Place::Code
        },
    }
}

/// How many arrays and objects are open behind `c`, with `open` of them open before it.
pub open spec fn open_after(place: Place, open: nat, c: char) -> nat {
    if place != Place::Code && place != Place::Slash {
        open
    } else if c == '[' || c == '{' {
        open + 1
    } else if (c == ']' || c == '}') && open > 0 {
        (open - 1) as nat
    } else {
        open
    }
}

/// What has been seen at the end of a text.
pub struct Seen {
    pub place: Place,
    /// The arrays and objects that are open.
    pub open: nat,
    /// The most that were open at any time.
    pub deepest: nat,
}

/// What has been seen at the end of a text.
pub open spec fn seen(text: Seq<char>) -> Seen
    decreases text.len(),
{
    if text.len() == 0 {
        Seen { place: Place::Code, open: 0, deepest: 0 }
    } else {
        let before = seen(text.drop_last());
        let open = open_after(before.place, before.open, text.last());
        Seen {
            place: next_place(before.place, text.last()),
            open,
            deepest: if open > before.deepest {
                open
            } else {
                before.deepest
            },
        }
    }
}

/// How many arrays and objects of a JSONC text stand inside each other at most.
pub open spec fn nesting(text: Seq<char>) -> nat {
    seen(text).deepest
}

fn follow(place: Place, c: char) -> (r: Place)
    ensures
        r == next_place(place, c),
{
    match place {
        Place::Quoted(quote) => {
            if c == quote {
                Place::Code
            } else if c == '\\' {
                Place::Escaped(quote)
            } else {
                place
            }
        },
        Place::Escaped(quote) => Place::Quoted(quote),
        Place::LineComment => {
            if c == '\n' {
                Place::Code
            } else {
                place
            }
        },
        Place::BlockComment => {
            if c == '*' {
                Place::Star
            } else {
                place
            }
        },
        Place::Star => {
            if c == '/' {
                Place::Code
            } else if c == '*' {
                place
            } else {
                Place::BlockComment
            }
        },
        Place::Code | Place::Slash => {
            if place == Place::Slash && c == '/' {
                Place::LineComment
            } else if place == Place::Slash && c == '*' {
                Place::BlockComment
            } else if c == '/' {
                Place::Slash
            } else if c == '"' || c == '\'' {
                Place::Quoted(c)
            } else {
                Place::Code
            }
        },
    }
}

/// How many arrays and objects of a JSONC text stand inside each other at most.
pub fn nesting_of(text: &str) -> (r: usize)
    ensures
        r == nesting(text@),
{
    let v = chars_of(text);
    let mut place = Place::Code;
    let mut open: usize = 0;
    let mut deepest: usize = 0;
    let mut i: usize = 0;
    while i < v.len()
        invariant
            i <= v@.len(),
            open <= i,
            seen(v@.take(i as int)) == (Seen { place, open: open as nat, deepest: deepest as nat }),
        decreases v@.len() - i,
    {
        let c = v[i];
        proof {
            assert(v@.take(i + 1).drop_last() =~= v@.take(i as int));
        }
        if place == Place::Code || place == Place::Slash {
            if c == '[' || c == '{' {
                open = open + 1;
            } else if (c == ']' || c == '}') && open > 0 {
                open = open - 1;
            }
        }
        if open > deepest {
            deepest = open;
        }
        place = follow(place, c);
        i = i + 1;
    }
    proof {
        assert(v@.take(i as int) =~= v@);
    }
    deepest
}

// ---------------------------------------------------------------------------
// Laws
// ---------------------------------------------------------------------------

proof fn lemma_seen_push(text: Seq<char>, c: char)
    ensures
        ({
            let before = seen(text);
            let after = seen(text.push(c));
            &&& after.place == next_place(before.place, c)
            &&& after.open == open_after(before.place, before.open, c)
            &&& after.deepest == if after.open > before.deepest {
                after.open
            } else {
                before.deepest
            }
        }),
{
    assert(text.push(c).drop_last() =~= text);
}

proof fn lemma_open_is_counted(text: Seq<char>)
    ensures
        seen(text).open <= seen(text).deepest,
    decreases text.len(),
{
    if text.len() > 0 {
        lemma_open_is_counted(text.drop_last());
    }
}

/// A bracket or a brace opens one more and its counterpart closes it again; the most that
/// were open are never forgotten.
pub proof fn law_brackets_open_and_close(text: Seq<char>, c: char)
    requires
        seen(text).place is Code,
    ensures
        c == '[' || c == '{' ==> seen(text.push(c)).open == seen(text).open + 1,
        (c == ']' || c == '}') && seen(text).open > 0 ==> seen(text.push(c)).open == seen(text).open
            - 1,
        (c == ']' || c == '}') && seen(text).open == 0 ==> seen(text.push(c)).open == 0,
        c != '[' && c != '{' && c != ']' && c != '}' ==> seen(text.push(c)).open == seen(text).open,
        nesting(text.push(c)) >= nesting(text),
        nesting(text.push(c)) >= seen(text.push(c)).open,
        nesting(text.push(c)) == nesting(text) || nesting(text.push(c)) == seen(text.push(c)).open,
        c == '[' || c == '{' || c == ']' || c == '}' ==> seen(text.push(c)).place is Code,
        nesting(Seq::empty()) == 0,
        seen(Seq::empty()).place is Code,
        seen(Seq::empty()).open == 0,
{
    lemma_seen_push(text, c);
}

proof fn lemma_inside_quotes(text: Seq<char>, quote: char, inner: Seq<char>)
    requires
        seen(text).place == Place::Quoted(quote),
        forall|i: int| 0 <= i < inner.len() ==> #[trigger] inner[i] != quote && inner[i] != '\\',
    ensures
        seen(text + inner) == seen(text),
    decreases inner.len(),
{
    lemma_open_is_counted(text);
    if inner.len() == 0 {
        assert(text + inner =~= text);
    } else {
        let front = inner.drop_last();
        assert forall|i: int| 0 <= i < front.len() implies #[trigger] front[i] != quote && front[i]
            != '\\' by {
            assert(front[i] == inner[i]);
        }
        lemma_inside_quotes(text, quote, front);
        assert(inner[inner.len() - 1] == inner.last());
        assert(text + inner =~= (text + front).push(inner.last()));
        lemma_seen_push(text + front, inner.last());
    }
}

/// What stands in quotes counts for nothing, brackets and marks of comments not excepted.
pub proof fn law_strings_count_for_nothing(text: Seq<char>, quote: char, inner: Seq<char>)
    requires
        seen(text).place is Code,
        quote == '"' || quote == '\'',
        forall|i: int| 0 <= i < inner.len() ==> #[trigger] inner[i] != quote && inner[i] != '\\',
    ensures
        seen(text.push(quote) + inner).place == Place::Quoted(quote),
        seen((text.push(quote) + inner).push(quote)) == seen(text),
{
    lemma_open_is_counted(text);
    lemma_seen_push(text, quote);
    lemma_inside_quotes(text.push(quote), quote, inner);
    lemma_seen_push(text.push(quote) + inner, quote);
}

/// A backslash in quotes takes the character behind it along, a quote too.
pub proof fn law_escapes_stay_in_strings(text: Seq<char>, quote: char, c: char)
    requires
        seen(text).place == Place::Quoted(quote),
        quote == '"' || quote == '\'',
    ensures
        seen(text.push('\\').push(c)) == seen(text),
{
    lemma_open_is_counted(text);
    lemma_seen_push(text, '\\');
    lemma_seen_push(text.push('\\'), c);
}

proof fn lemma_inside_line_comment(text: Seq<char>, inner: Seq<char>)
    requires
        seen(text).place is LineComment,
        !inner.contains('\n'),
    ensures
        seen(text + inner) == seen(text),
    decreases inner.len(),
{
    lemma_open_is_counted(text);
    if inner.len() == 0 {
        assert(text + inner =~= text);
    } else {
        let front = inner.drop_last();
        assert forall|i: int| 0 <= i < front.len() implies #[trigger] front[i] != '\n' by {
            assert(front[i] == inner[i]);
            assert(inner.contains(inner[i]));
        }
        assert(!front.contains('\n'));
        lemma_inside_line_comment(text, front);
        assert(inner.contains(inner[inner.len() - 1]));
        assert(text + inner =~= (text + front).push(inner.last()));
        lemma_seen_push(text + front, inner.last());
    }
}

/// What stands between two slashes and the end of the line counts for nothing.
pub proof fn law_line_comments_count_for_nothing(text: Seq<char>, inner: Seq<char>)
    requires
        seen(text).place is Code,
        !inner.contains('\n'),
    ensures
        seen((text.push('/').push('/') + inner).push('\n')) == seen(text),
{
    lemma_open_is_counted(text);
    lemma_seen_push(text, '/');
    lemma_seen_push(text.push('/'), '/');
    lemma_inside_line_comment(text.push('/').push('/'), inner);
    lemma_seen_push(text.push('/').push('/') + inner, '\n');
}

proof fn lemma_inside_block_comment(text: Seq<char>, inner: Seq<char>)
    requires
        seen(text).place is BlockComment,
        !inner.contains('/'),
    ensures
        seen(text + inner).open == seen(text).open,
        seen(text + inner).deepest == seen(text).deepest,
        seen(text + inner).place is BlockComment || seen(text + inner).place is Star,
    decreases inner.len(),
{
    lemma_open_is_counted(text);
    if inner.len() == 0 {
        assert(text + inner =~= text);
    } else {
        let front = inner.drop_last();
        assert forall|i: int| 0 <= i < front.len() implies #[trigger] front[i] != '/' by {
            assert(front[i] == inner[i]);
            assert(inner.contains(inner[i]));
        }
        assert(!front.contains('/'));
        lemma_inside_block_comment(text, front);
        assert(inner.contains(inner[inner.len() - 1]));
        assert(text + inner =~= (text + front).push(inner.last()));
        lemma_seen_push(text + front, inner.last());
    }
}

/// What stands between `/*` and `*/` counts for nothing, stars and ends of lines not excepted.
pub proof fn law_block_comments_count_for_nothing(text: Seq<char>, inner: Seq<char>)
    requires
        seen(text).place is Code,
        !inner.contains('/'),
    ensures
        seen((text.push('/').push('*') + inner).push('*').push('/')) == seen(text),
{
    lemma_open_is_counted(text);
    lemma_seen_push(text, '/');
    lemma_seen_push(text.push('/'), '*');
    let all = text.push('/').push('*') + inner;
    lemma_inside_block_comment(text.push('/').push('*'), inner);
    lemma_seen_push(all, '*');
    lemma_seen_push(all.push('*'), '/');
}

} // verus!

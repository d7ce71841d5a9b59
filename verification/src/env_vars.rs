//! Environment variables, in the order of their names.

use vstd::prelude::*;
use vstd::string::*;

use crate::text::{chars_of, cut, find, lemma_find_from, occurs_at, split_once, texts};

verus! {

/// Whether name `a` comes before name `b`: by their first characters that differ, and a
/// name before those that go on from it.
pub open spec fn before(a: Seq<char>, b: Seq<char>) -> bool
    decreases a.len(),
{
    if b.len() == 0 {
        false
    } else if a.len() == 0 {
        true
    } else if a[0] != b[0] {
        a[0] < b[0]
    } else {
        before(a.skip(1), b.skip(1))
    }
}

proof fn lemma_before_irreflexive(a: Seq<char>)
    ensures
        !before(a, a),
    decreases a.len(),
{
    if a.len() > 0 {
        lemma_before_irreflexive(a.skip(1));
    }
}

proof fn lemma_before_transitive(a: Seq<char>, b: Seq<char>, c: Seq<char>)
    requires
        before(a, b),
        before(b, c),
    ensures
        before(a, c),
    decreases a.len(),
{
    if a.len() > 0 && a[0] == b[0] && b[0] == c[0] {
        lemma_before_transitive(a.skip(1), b.skip(1), c.skip(1));
    }
}

proof fn lemma_before_total(a: Seq<char>, b: Seq<char>)
    ensures
        a == b || before(a, b) || before(b, a),
    decreases a.len(),
{
    if a.len() == 0 || b.len() == 0 {
        if a.len() == b.len() {
            assert(a =~= b);
        }
    } else if a[0] == b[0] {
        lemma_before_total(a.skip(1), b.skip(1));
        if a.skip(1) == b.skip(1) {
            assert(a =~= seq![a[0]] + a.skip(1));
            assert(b =~= seq![b[0]] + b.skip(1));
        }
    }
}

/// Whether name `a` comes before name `b`.
fn is_before(a: &str, b: &str) -> (r: bool)
    ensures
        r == before(a@, b@),
{
    let x = chars_of(a);
    let y = chars_of(b);
    let mut i: usize = 0;
    proof {
        assert(x@.skip(0) =~= x@);
        assert(y@.skip(0) =~= y@);
    }
    while i < x.len() && i < y.len()
        invariant
            x@ == a@,
            y@ == b@,
            i <= x@.len(),
            i <= y@.len(),
            before(x@, y@) == before(x@.skip(i as int), y@.skip(i as int)),
        decreases x@.len() - i,
    {
        proof {
            assert(x@.skip(i as int).skip(1) =~= x@.skip(i + 1));
            assert(y@.skip(i as int).skip(1) =~= y@.skip(i + 1));
            assert(x@.skip(i as int)[0] == x@[i as int]);
            assert(y@.skip(i as int)[0] == y@[i as int]);
        }
        if x[i] != y[i] {
            return x[i] < y[i];
        }
        i = i + 1;
    }
    i < y.len()
}

/// Variables by name. Each name has one value, and the names stand in order.
#[derive(Debug)]
pub struct EnvVars {
    pairs: Vec<(String, String)>,
}

/// Whether the names stand in order, each once.
pub open spec fn in_order(pairs: Seq<(Seq<char>, Seq<char>)>) -> bool {
    forall|i: int, j: int| 0 <= i < j < pairs.len() ==> before(#[trigger] pairs[i].0, #[trigger] pairs[j].0)
}

/// The values by name; of two with one name, the last.
pub open spec fn by_name(pairs: Seq<(Seq<char>, Seq<char>)>) -> Map<Seq<char>, Seq<char>>
    decreases pairs.len(),
{
    if pairs.len() == 0 {
        Map::empty()
    } else {
        by_name(pairs.drop_last()).insert(pairs.last().0, pairs.last().1)
    }
}

proof fn lemma_by_name_dom(pairs: Seq<(Seq<char>, Seq<char>)>, k: Seq<char>)
    ensures
        by_name(pairs).contains_key(k) == exists|i: int| 0 <= i < pairs.len() && #[trigger] pairs[i].0 == k,
    decreases pairs.len(),
{
    if pairs.len() > 0 {
        let front = pairs.drop_last();
        lemma_by_name_dom(front, k);
        if by_name(pairs).contains_key(k) {
            if pairs.last().0 == k {
                assert(pairs[pairs.len() - 1].0 == k);
            } else {
                let i = choose|i: int| 0 <= i < front.len() && #[trigger] front[i].0 == k;
                assert(pairs[i].0 == k);
            }
        } else {
            assert forall|i: int| 0 <= i < pairs.len() implies #[trigger] pairs[i].0 != k by {
                if i < front.len() {
                    assert(front[i].0 == pairs[i].0);
                }
            }
        }
    }
}

proof fn lemma_by_name_value(pairs: Seq<(Seq<char>, Seq<char>)>, i: int)
    requires
        in_order(pairs),
        0 <= i < pairs.len(),
    ensures
        by_name(pairs).contains_key(pairs[i].0),
        by_name(pairs)[pairs[i].0] == pairs[i].1,
    decreases pairs.len(),
{
    let front = pairs.drop_last();
    if i < front.len() {
        assert(in_order(front)) by {
            assert forall|a: int, b: int| 0 <= a < b < front.len() implies before(
                #[trigger] front[a].0,
                #[trigger] front[b].0,
            ) by {
                assert(before(pairs[a].0, pairs[b].0));
            }
        }
        lemma_by_name_value(front, i);
        assert(before(pairs[i].0, pairs[pairs.len() - 1].0));
        lemma_before_irreflexive(pairs[i].0);
    }
}

/// The pairs of a list of strings, as characters.
pub open spec fn pair_texts(pairs: Seq<(String, String)>) -> Seq<(Seq<char>, Seq<char>)> {
    pairs.map_values(|p: (String, String)| (p.0@, p.1@))
}

/// A list in order is all that its values by name say: the values by name determine the
/// list that is sent and shown.
pub proof fn law_names_fix_the_list(
    a: Seq<(Seq<char>, Seq<char>)>,
    b: Seq<(Seq<char>, Seq<char>)>,
)
    requires
        in_order(a),
        in_order(b),
        by_name(a) == by_name(b),
    ensures
        a == b,
    decreases a.len(),
{
    if a.len() == 0 || b.len() == 0 {
        if a.len() > 0 {
            lemma_by_name_value(a, 0);
        }
        if b.len() > 0 {
            lemma_by_name_value(b, 0);
        }
        assert(a =~= b);
    } else {
        let p = a.last();
        let q = b.last();
        lemma_by_name_value(a, a.len() - 1);
        lemma_by_name_value(b, b.len() - 1);
        lemma_by_name_dom(a, q.0);
        lemma_by_name_dom(b, p.0);
        if p.0 != q.0 {
            let i = choose|i: int| 0 <= i < a.len() && #[trigger] a[i].0 == q.0;
            let j = choose|j: int| 0 <= j < b.len() && #[trigger] b[j].0 == p.0;
            assert(before(a[i].0, a[a.len() - 1].0));
            assert(before(b[j].0, b[b.len() - 1].0));
            lemma_before_transitive(p.0, q.0, p.0);
            lemma_before_irreflexive(p.0);
        }
        let fa = a.drop_last();
        let fb = b.drop_last();
        lemma_front(a);
        lemma_front(b);
        assert(by_name(fa) =~= by_name(a).remove(p.0));
        assert(by_name(fb) =~= by_name(b).remove(q.0));
        law_names_fix_the_list(fa, fb);
        assert(a =~= fa.push(p));
        assert(b =~= fb.push(q));
    }
}

/// Without its last pair, a list in order stays in order, and does not have the last name.
proof fn lemma_front(a: Seq<(Seq<char>, Seq<char>)>)
    requires
        in_order(a),
        a.len() > 0,
    ensures
        in_order(a.drop_last()),
        !by_name(a.drop_last()).contains_key(a.last().0),
{
    let front = a.drop_last();
    assert forall|i: int, j: int| 0 <= i < j < front.len() implies before(
        #[trigger] front[i].0,
        #[trigger] front[j].0,
    ) by {
        assert(before(a[i].0, a[j].0));
    }
    lemma_by_name_dom(front, a.last().0);
    assert forall|i: int| 0 <= i < front.len() implies #[trigger] front[i].0 != a.last().0 by {
        assert(before(a[i].0, a[a.len() - 1].0));
        lemma_before_irreflexive(a.last().0);
    }
}

impl View for EnvVars {
    type V = Seq<(Seq<char>, Seq<char>)>;

    closed spec fn view(&self) -> Seq<(Seq<char>, Seq<char>)> {
        pair_texts(self.pairs@)
    }
}

impl EnvVars {
    /// The names stand in order, each once.
    pub open spec fn wf(&self) -> bool {
        in_order(self@)
    }

    /// No variables.
    pub fn new() -> (r: Self)
        ensures
            r.wf(),
            r@.len() == 0,
            by_name(r@) == Map::<Seq<char>, Seq<char>>::empty(),
    {
        EnvVars { pairs: Vec::new() }
    }

    /// How many variables there are.
    pub fn len(&self) -> (r: usize)
        ensures
            r == self@.len(),
    {
        self.pairs.len()
    }

    /// Variable number `i`, in the order of the names.
    pub fn get(&self, i: usize) -> (r: (&str, &str))
        requires
            i < self@.len(),
        ensures
            (r.0@, r.1@) == self@[i as int],
    {
        let pair = &self.pairs[i];
        (pair.0.as_str(), pair.1.as_str())
    }

    /// Gives a variable a value, in place of one that it had.
    pub fn set(&mut self, name: &str, value: &str)
        requires
            old(self).wf(),
        ensures
            final(self).wf(),
            by_name(final(self)@) == by_name(old(self)@).insert(name@, value@),
    {
        let ghost was = self@;
        let mut i: usize = 0;
        while i < self.pairs.len() && is_before(self.pairs[i].0.as_str(), name)
            invariant
                self@ == was,
                was == pair_texts(self.pairs@),
                i <= was.len(),
                forall|j: int| 0 <= j < i ==> before(#[trigger] was[j].0, name@),
            decreases was.len() - i,
        {
            proof {
                assert(was[i as int].0 == self.pairs@[i as int].0@);
            }
            i = i + 1;
        }
        if i < self.pairs.len() && !is_before(name, self.pairs[i].0.as_str()) {
            proof {
                assert(was[i as int].0 == self.pairs@[i as int].0@);
                lemma_before_total(name@, was[i as int].0);
            }
            self.pairs.set(i, (name.to_string(), value.to_string()));
            proof {
                assert(self@ =~= was.update(i as int, (name@, value@)));
                lemma_replaced(was, i as int, value@);
            }
        } else {
            proof {
                if i < was.len() {
                    assert(was[i as int].0 == self.pairs@[i as int].0@);
                }
            }
            self.pairs.insert(i, (name.to_string(), value.to_string()));
            proof {
                assert(self@ =~= was.insert(i as int, (name@, value@)));
                lemma_inserted(was, i as int, name@, value@);
            }
        }
    }
}

proof fn lemma_replaced(was: Seq<(Seq<char>, Seq<char>)>, i: int, value: Seq<char>)
    requires
        in_order(was),
        0 <= i < was.len(),
    ensures
        in_order(was.update(i, (was[i].0, value))),
        by_name(was.update(i, (was[i].0, value))) == by_name(was).insert(was[i].0, value),
{
    let now = was.update(i, (was[i].0, value));
    assert forall|a: int, b: int| 0 <= a < b < now.len() implies before(
        #[trigger] now[a].0,
        #[trigger] now[b].0,
    ) by {
        assert(before(was[a].0, was[b].0));
    }
    let m = by_name(was).insert(was[i].0, value);
    assert forall|k: Seq<char>| #[trigger] by_name(now).contains_key(k) == m.contains_key(k) by {
        lemma_by_name_dom(now, k);
        lemma_by_name_dom(was, k);
        if by_name(now).contains_key(k) {
            let j = choose|j: int| 0 <= j < now.len() && #[trigger] now[j].0 == k;
            assert(was[j].0 == k);
        }
        if by_name(was).contains_key(k) {
            let j = choose|j: int| 0 <= j < was.len() && #[trigger] was[j].0 == k;
            assert(now[j].0 == k);
        }
        if k == was[i].0 {
            assert(now[i].0 == k);
        }
    }
    assert forall|k: Seq<char>| #[trigger] by_name(now).contains_key(k) implies by_name(now)[k]
        == m[k] by {
        lemma_by_name_dom(now, k);
        let j = choose|j: int| 0 <= j < now.len() && #[trigger] now[j].0 == k;
        lemma_by_name_value(now, j);
        lemma_by_name_value(was, j);
        if j != i && was[j].0 == was[i].0 {
            lemma_before_irreflexive(was[i].0);
            if j < i {
                assert(before(was[j].0, was[i].0));
            } else {
                assert(before(was[i].0, was[j].0));
            }
        }
    }
    assert(by_name(now) =~= m);
}

proof fn lemma_inserted(
    was: Seq<(Seq<char>, Seq<char>)>,
    i: int,
    name: Seq<char>,
    value: Seq<char>,
)
    requires
        in_order(was),
        0 <= i <= was.len(),
        forall|j: int| 0 <= j < i ==> before(#[trigger] was[j].0, name),
        i < was.len() ==> before(name, was[i].0),
    ensures
        in_order(was.insert(i, (name, value))),
        by_name(was.insert(i, (name, value))) == by_name(was).insert(name, value),
{
    let now = was.insert(i, (name, value));
    assert forall|j: int| i <= j < was.len() implies before(name, #[trigger] was[j].0) by {
        if j > i {
            assert(before(was[i].0, was[j].0));
            lemma_before_transitive(name, was[i].0, was[j].0);
        }
    }
    assert forall|a: int, b: int| 0 <= a < b < now.len() implies before(
        #[trigger] now[a].0,
        #[trigger] now[b].0,
    ) by {
        let c = if a < i {
            a
        } else {
            a - 1
        };
        let d = if b < i {
            b
        } else {
            b - 1
        };
        if a == i {
            assert(now[b] == was[d]);
        } else if b == i {
            assert(now[a] == was[c]);
        } else {
            assert(now[a] == was[c]);
            assert(now[b] == was[d]);
            assert(before(was[c].0, was[d].0));
        }
    }
    let m = by_name(was).insert(name, value);
    assert forall|k: Seq<char>| #[trigger] by_name(now).contains_key(k) == m.contains_key(k) by {
        lemma_by_name_dom(now, k);
        lemma_by_name_dom(was, k);
        if by_name(now).contains_key(k) && k != name {
            let j = choose|j: int| 0 <= j < now.len() && #[trigger] now[j].0 == k;
            let c = if j < i {
                j
            } else {
                j - 1
            };
            assert(now[j] == was[c]);
            assert(was[c].0 == k);
        }
        if by_name(was).contains_key(k) {
            let j = choose|j: int| 0 <= j < was.len() && #[trigger] was[j].0 == k;
            let c = if j < i {
                j
            } else {
                j + 1
            };
            assert(now[c] == was[j]);
            assert(now[c].0 == k);
        }
        if k == name {
            assert(now[i].0 == k);
        }
    }
    assert forall|k: Seq<char>| #[trigger] by_name(now).contains_key(k) implies by_name(now)[k]
        == m[k] by {
        lemma_by_name_dom(now, k);
        let j = choose|j: int| 0 <= j < now.len() && #[trigger] now[j].0 == k;
        lemma_by_name_value(now, j);
        if j != i {
            let c = if j < i {
                j
            } else {
                j - 1
            };
            assert(now[j] == was[c]);
            lemma_by_name_value(was, c);
            lemma_before_irreflexive(name);
            assert(was[c].0 != name);
        }
    }
    assert(by_name(now) =~= m);
}

/// Whether an argument assigns a value to a name.
pub open spec fn assigns(pair: Seq<char>) -> bool {
    split_once(pair, "="@) is Some
}

/// What arguments assign, one after the other: of two to one name, the last counts.
pub open spec fn assigned(pairs: Seq<Seq<char>>) -> Map<Seq<char>, Seq<char>>
    decreases pairs.len(),
{
    if pairs.len() == 0 {
        Map::empty()
    } else {
        match split_once(pairs.last(), "="@) {
            Some((name, value)) => assigned(pairs.drop_last()).insert(name, value),
            None => assigned(pairs.drop_last()),
        }
    }
}

/// Whether argument number `i` is the first that assigns nothing.
pub open spec fn first_bad(pairs: Seq<Seq<char>>, i: int) -> bool {
    0 <= i < pairs.len() && !assigns(pairs[i]) && forall|j: int|
        0 <= j < i ==> assigns(#[trigger] pairs[j])
}

/// Reads `NAME=VALUE` arguments. The first that has no `=` is refused.
pub fn parse_pairs(pairs: &Vec<String>) -> (r: Result<EnvVars, String>)
    ensures
        match r {
            Ok(vars) => {
                &&& forall|i: int| 0 <= i < pairs@.len() ==> assigns(#[trigger] texts(pairs@)[i])
                &&& vars.wf()
                &&& by_name(vars@) == assigned(texts(pairs@))
            },
            Err(m) => exists|i: int| #[trigger]
                first_bad(texts(pairs@), i) && m@ == "invalid KEY=VALUE pair: "@ + texts(pairs@)[i],
        },
{
    let mut vars = EnvVars::new();
    let ghost all = texts(pairs@);
    let mut i: usize = 0;
    proof {
        assert(all.take(0) =~= Seq::<Seq<char>>::empty());
    }
    while i < pairs.len()
        invariant
            i <= pairs@.len(),
            all == texts(pairs@),
            vars.wf(),
            by_name(vars@) == assigned(all.take(i as int)),
            forall|j: int| 0 <= j < i ==> assigns(#[trigger] all[j]),
        decreases pairs@.len() - i,
    {
        proof {
            let next = all.take(i + 1);
            assert(next.drop_last() =~= all.take(i as int));
            assert(all[i as int] == pairs@[i as int]@);
        }
        match cut(pairs[i].as_str(), "=") {
            Some((name, value)) => {
                vars.set(name.as_str(), value.as_str());
            },
            None => {
                proof {
                    assert(first_bad(all, i as int));
                }
                return Err(
                    "invalid KEY=VALUE pair: ".to_string().concat(pairs[i].as_str()),
                );
            },
        }
        i = i + 1;
    }
    proof {
        assert(all.take(i as int) =~= all);
    }
    Ok(vars)
}

// ---------------------------------------------------------------------------
// Laws
// ---------------------------------------------------------------------------

/// Names are ordered by the first character in which they differ, and a name comes before
/// those that go on from it.
pub proof fn law_names_are_ordered_like_words(
    start: Seq<char>,
    c: char,
    d: char,
    x: Seq<char>,
    y: Seq<char>,
)
    ensures
        c != d ==> (before(start + seq![c] + x, start + seq![d] + y) <==> c < d),
        before(start, start + seq![c] + x),
        !before(start + x, start),
    decreases start.len(),
{
    let a = start + seq![c] + x;
    let b = start + seq![d] + y;
    if start.len() == 0 {
        assert(a[0] == c && b[0] == d);
    } else {
        assert(a[0] == start[0] && b[0] == start[0]);
        assert(a.skip(1) =~= start.skip(1) + seq![c] + x);
        assert(b.skip(1) =~= start.skip(1) + seq![d] + y);
        assert((start + x)[0] == start[0]);
        assert((start + x).skip(1) =~= start.skip(1) + x);
        law_names_are_ordered_like_words(start.skip(1), c, d, x, y);
    }
}

proof fn lemma_cut_at_equals(name: Seq<char>, value: Seq<char>)
    requires
        !name.contains('='),
    ensures
        split_once(name + "="@ + value, "="@) == Some((name, value)),
{
    reveal_strlit("=");
    let s = name + "="@ + value;
    let n = name.len() as int;
    lemma_find_from(s, "="@, 0);
    assert(s.subrange(n, n + 1) =~= "="@);
    assert(occurs_at(s, "="@, n));
    assert forall|i: int| 0 <= i < n implies !#[trigger] occurs_at(s, "="@, i) by {
        if occurs_at(s, "="@, i) {
            assert(s.subrange(i, i + 1)[0] == name[i]);
            assert(name.contains(name[i]));
        }
    }
    assert(find(s, "="@) == Some(n));
    assert(s.take(n) =~= name);
    assert(s.skip(n + 1) =~= value);
}

/// `NAME=VALUE` assigns all that follows the first equals sign, in place of what was
/// assigned to the name before, and leaves every other name alone.
pub proof fn law_assignments_take_the_last_value(
    pairs: Seq<Seq<char>>,
    name: Seq<char>,
    value: Seq<char>,
    other: Seq<char>,
)
    requires
        !name.contains('='),
        other != name,
    ensures
        assigns(name + "="@ + value),
        assigned(pairs.push(name + "="@ + value)).contains_key(name),
        assigned(pairs.push(name + "="@ + value))[name] == value,
        assigned(pairs.push(name + "="@ + value)).contains_key(other) <==> assigned(
            pairs,
        ).contains_key(other),
        assigned(pairs).contains_key(other) ==> assigned(pairs.push(name + "="@ + value))[other]
            == assigned(pairs)[other],
        assigned(Seq::empty()) == Map::<Seq<char>, Seq<char>>::empty(),
{
    lemma_cut_at_equals(name, value);
    assert(pairs.push(name + "="@ + value).drop_last() =~= pairs);
}

/// An argument without an equals sign assigns nothing, and one with it does.
pub proof fn law_assignments_have_an_equals_sign(pair: Seq<char>)
    ensures
        assigns(pair) <==> pair.contains('='),
{
    reveal_strlit("=");
    lemma_find_from(pair, "="@, 0);
    if pair.contains('=') {
        let i = choose|i: int| 0 <= i < pair.len() && pair[i] == '=';
        assert(pair.subrange(i, i + 1) =~= "="@);
        assert(occurs_at(pair, "="@, i));
    }
    if let Some(i) = find(pair, "="@) {
        assert(pair.subrange(i, i + 1)[0] == '=');
        assert(pair[i] == '=');
    }
}

/// Of arguments that assign nothing, the first is the one that is told, and there is one
/// wherever not all assign.
pub proof fn law_the_first_bad_argument_is_told(pairs: Seq<Seq<char>>, i: int, j: int)
    ensures
        first_bad(pairs, i) && first_bad(pairs, j) ==> i == j,
        first_bad(pairs, i) ==> !pairs[i].contains('='),
        first_bad(pairs, i) && 0 <= j < i ==> pairs[j].contains('='),
        0 <= j < pairs.len() && !pairs[j].contains('=') ==> exists|k: int| #[trigger]
            first_bad(pairs, k),
    decreases j,
{
    if 0 <= i < pairs.len() {
        law_assignments_have_an_equals_sign(pairs[i]);
    }
    if 0 <= j < pairs.len() {
        law_assignments_have_an_equals_sign(pairs[j]);
        if first_bad(pairs, i) && j < i {
            assert(assigns(pairs[j]));
        }
        if !assigns(pairs[j]) {
            if forall|k: int| 0 <= k < j ==> assigns(#[trigger] pairs[k]) {
                assert(first_bad(pairs, j));
            } else {
                let k = choose|k: int| 0 <= k < j && !assigns(#[trigger] pairs[k]);
                law_assignments_have_an_equals_sign(pairs[k]);
                law_the_first_bad_argument_is_told(pairs, k, k);
            }
        }
    }
}

} // verus!

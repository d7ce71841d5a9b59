//! A table with one row per pipeline stage.

use vstd::prelude::*;

use crate::text::same;

verus! {

/// Values by stage name. No stage has two rows.
pub struct StageTable<T> {
    rows: Vec<(String, T)>,
}

/// Whether row `i` is the one of `stage`.
spec fn row_of<T>(rows: Seq<(String, T)>, stage: Seq<char>, i: int) -> bool {
    0 <= i < rows.len() && rows[i].0@ == stage
}

spec fn one_row_each<T>(rows: Seq<(String, T)>) -> bool {
    forall|i: int, j: int|
        0 <= i < rows.len() && 0 <= j < rows.len() && rows[i].0@ == rows[j].0@ ==> i == j
}

spec fn content<T>(rows: Seq<(String, T)>) -> Map<Seq<char>, T> {
    Map::new(
        |k: Seq<char>| exists|i: int| row_of(rows, k, i),
        |k: Seq<char>| rows[choose|i: int| row_of(rows, k, i)].1,
    )
}

impl<T> View for StageTable<T> {
    type V = Map<Seq<char>, T>;

    closed spec fn view(&self) -> Map<Seq<char>, T> {
        content(self.rows@)
    }
}

proof fn lemma_row<T>(rows: Seq<(String, T)>, i: int)
    requires
        one_row_each(rows),
        0 <= i < rows.len(),
    ensures
        content(rows).contains_key(rows[i].0@),
        content(rows)[rows[i].0@] == rows[i].1,
{
    assert(row_of(rows, rows[i].0@, i));
}

impl<T> StageTable<T> {
    /// No stage has two rows.
    pub closed spec fn wf(&self) -> bool {
        one_row_each(self.rows@)
    }

    /// The table without rows.
    pub fn new() -> (r: Self)
        ensures
            r.wf(),
            r@ == Map::<Seq<char>, T>::empty(),
    {
        let r = StageTable { rows: Vec::new() };
        proof {
            assert(content(r.rows@) =~= Map::<Seq<char>, T>::empty());
        }
        r
    }

    /// The position of a stage's row.
    fn position(&self, stage: &str) -> (r: Option<usize>)
        requires
            self.wf(),
        ensures
            match r {
                Some(i) => row_of(self.rows@, stage@, i as int),
                None => forall|i: int| !row_of(self.rows@, stage@, i),
            },
    {
        let mut i: usize = 0;
        while i < self.rows.len()
            invariant
                i <= self.rows@.len(),
                forall|j: int| 0 <= j < i ==> !row_of(self.rows@, stage@, j),
            decreases self.rows@.len() - i,
        {
            if same(self.rows[i].0.as_str(), stage) {
                return Some(i);
            }
            i = i + 1;
        }
        None
    }

    /// The value of a stage.
    pub fn get(&self, stage: &str) -> (r: Option<&T>)
        requires
            self.wf(),
        ensures
            match r {
                Some(value) => self@.contains_key(stage@) && self@[stage@] == *value,
                None => !self@.contains_key(stage@),
            },
    {
        match self.position(stage) {
            Some(i) => {
                proof {
                    lemma_row(self.rows@, i as int);
                }
                Some(&self.rows[i].1)
            },
            None => None,
        }
    }

    /// Takes a stage's value out of the table.
    pub fn take(&mut self, stage: &str) -> (r: Option<T>)
        requires
            old(self).wf(),
        ensures
            final(self).wf(),
            final(self)@ == old(self)@.remove(stage@),
            match r {
                Some(value) => old(self)@.contains_key(stage@) && old(self)@[stage@] == value,
                None => !old(self)@.contains_key(stage@),
            },
    {
        let ghost before = self.rows@;
        match self.position(stage) {
            Some(i) => {
                let row = self.rows.remove(i);
                proof {
                    lemma_row(before, i as int);
                    let after = self.rows@;
                    assert forall|a: int, b: int|
                        0 <= a < after.len() && 0 <= b < after.len() && after[a].0@
                            == after[b].0@ implies a == b by {
                        let c = if a < i {
                            a
                        } else {
                            a + 1
                        };
                        let d = if b < i {
                            b
                        } else {
                            b + 1
                        };
                        assert(before[c].0@ == before[d].0@);
                    }
                    let m = content(before).remove(stage@);
                    assert forall|k: Seq<char>| #[trigger]
                        content(after).contains_key(k) == m.contains_key(k) by {
                        if content(after).contains_key(k) {
                            let j = choose|j: int| row_of(after, k, j);
                            let c = if j < i {
                                j
                            } else {
                                j + 1
                            };
                            assert(row_of(before, k, c));
                        }
                        if m.contains_key(k) {
                            let j = choose|j: int| row_of(before, k, j);
                            assert(j != i);
                            let c = if j < i {
                                j
                            } else {
                                j - 1
                            };
                            assert(row_of(after, k, c));
                        }
                    }
                    assert forall|k: Seq<char>| #[trigger]
                        content(after).contains_key(k) implies content(after)[k] == m[k] by {
                        let j = choose|j: int| row_of(after, k, j);
                        lemma_row(after, j);
                        let c = if j < i {
                            j
                        } else {
                            j + 1
                        };
                        lemma_row(before, c);
                    }
                    assert(content(after) =~= m);
                }
                Some(row.1)
            },
            None => {
                proof {
                    assert(content(before).remove(stage@) =~= content(before));
                }
                None
            },
        }
    }

    /// Gives a stage a value, in place of one that it had.
    pub fn put(&mut self, stage: &str, value: T)
        requires
            old(self).wf(),
        ensures
            final(self).wf(),
            final(self)@ == old(self)@.insert(stage@, value),
    {
        let _ = self.take(stage);
        let ghost before = self.rows@;
        let name = stage.to_string();
        self.rows.push((name, value));
        proof {
            let after = self.rows@;
            let last = before.len() as int;
            assert(!content(before).contains_key(stage@));
            assert forall|a: int, b: int|
                0 <= a < after.len() && 0 <= b < after.len() && after[a].0@
                    == after[b].0@ implies a == b by {
                if a == last && b < last {
                    assert(row_of(before, stage@, b));
                }
                if b == last && a < last {
                    assert(row_of(before, stage@, a));
                }
            }
            let m = content(before).insert(stage@, value);
            assert forall|k: Seq<char>| #[trigger]
                content(after).contains_key(k) == m.contains_key(k) by {
                if content(after).contains_key(k) {
                    let j = choose|j: int| row_of(after, k, j);
                    if j < last {
                        assert(row_of(before, k, j));
                    }
                }
                if m.contains_key(k) {
                    if k == stage@ {
                        assert(row_of(after, k, last));
                    } else {
                        let j = choose|j: int| row_of(before, k, j);
                        assert(row_of(after, k, j));
                    }
                }
            }
            assert forall|k: Seq<char>| #[trigger]
                content(after).contains_key(k) implies content(after)[k] == m[k] by {
                let j = choose|j: int| row_of(after, k, j);
                lemma_row(after, j);
                if j < last {
                    lemma_row(before, j);
                }
            }
            assert(content(after) =~= m);
        }
    }
}

} // verus!

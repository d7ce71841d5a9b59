//! The result of a query as a table of text.

use vstd::prelude::*;
use vstd::string::*;
use vstd::utf8::*;

use crate::lines::{join, joined, law_joined_texts_hold_their_parts};
use crate::numbers::{
    decimal, decimal_text, law_padding_only_adds_blanks, pad, padded, run, run_text,
};
use crate::text::{contains, occurs_at, starts_with, texts};

verus! {

/// A value of a row. Numbers and nested values are given as their JSON text.
#[derive(Debug)]
pub enum Cell {
    Null,
    Text(String),
    Number(String),
    Bool(bool),
    Nested(String),
}

/// How a value is shown.
pub open spec fn cell_text(cell: Cell) -> Seq<char> {
    match cell {
        Cell::Null => "NULL"@,
        Cell::Text(s) => s@,
        Cell::Number(n) => n@,
        Cell::Bool(b) => if b {
            "true"@
        } else {
            "false"@
        },
        Cell::Nested(json) => json@,
    }
}

/// How a value is shown.
pub fn format_value(cell: &Cell) -> (r: String)
    ensures
        r@ == cell_text(*cell),
{
    match cell {
        Cell::Null => "NULL".to_string(),
        Cell::Text(s) => s.clone(),
        Cell::Number(n) => n.clone(),
        Cell::Bool(b) => if *b {
            "true".to_string()
        } else {
            "false".to_string()
        },
        Cell::Nested(json) => json.clone(),
    }
}

/// The result of a query: the names of its columns, and its rows.
#[derive(Debug)]
pub struct QueryResponse {
    pub columns: Vec<String>,
    pub rows: Vec<Vec<Cell>>,
}

/// A query's result, as a table.
pub struct QueryTable<'a> {
    pub result: &'a QueryResponse,
}

/// How many bytes a text takes.
pub open spec fn bytes(s: Seq<char>) -> int {
    encode_utf8(s).len() as int
}

/// The larger of two numbers.
pub open spec fn max(a: int, b: int) -> int {
    if a < b {
        b
    } else {
        a
    }
}

/// The bytes of the widest value of column `i`, and at least `least`.
pub open spec fn widest(rows: Seq<Vec<Cell>>, i: int, least: int) -> int
    decreases rows.len(),
{
    if rows.len() == 0 {
        least
    } else {
        let before = widest(rows.drop_last(), i, least);
        let row = rows.last()@;
        if 0 <= i < row.len() {
            max(before, bytes(cell_text(row[i])))
        } else {
            before
        }
    }
}

/// The width of column `i`: that of its name or of its widest value. A value without a
/// column has none.
pub open spec fn column_width(result: QueryResponse, i: int) -> int {
    if 0 <= i < result.columns@.len() {
        widest(result.rows@, i, bytes(result.columns@[i]@))
    } else {
        0
    }
}

/// The names of the columns, padded.
pub open spec fn header_cells(result: QueryResponse) -> Seq<Seq<char>> {
    Seq::new(
        result.columns@.len(),
        |i: int| pad(result.columns@[i]@, column_width(result, i)),
    )
}

/// The rules below the names.
pub open spec fn rule_cells(result: QueryResponse) -> Seq<Seq<char>> {
    Seq::new(result.columns@.len(), |i: int| run('-', column_width(result, i)))
}

/// The values of a row, padded.
pub open spec fn row_cells(result: QueryResponse, row: Seq<Cell>) -> Seq<Seq<char>> {
    Seq::new(row.len(), |i: int| pad(cell_text(row[i]), column_width(result, i)))
}

/// A line of cells.
pub open spec fn cell_line(cells: Seq<Seq<char>>) -> Seq<char> {
    " "@ + join(cells, " | "@) + " "@
}

/// The lines of the rows.
pub open spec fn row_lines(result: QueryResponse) -> Seq<Seq<char>> {
    result.rows@.map_values(|row: Vec<Cell>| cell_line(row_cells(result, row@)))
}

/// The lines of the table.
pub open spec fn table_lines(result: QueryResponse) -> Seq<Seq<char>> {
    if result.columns@.len() == 0 {
        seq!["Query executed successfully. No rows returned."@]
    } else {
        seq![
            cell_line(header_cells(result)),
            "-"@ + join(rule_cells(result), "-+-"@) + "-"@,
        ] + row_lines(result) + seq!["("@ + decimal(result.rows@.len() as int) + " rows)"@]
    }
}

fn byte_len(s: &str) -> (r: usize)
    ensures
        r == bytes(s@),
{
    s.as_bytes().len()
}

fn width_of(result: &QueryResponse, i: usize) -> (r: usize)
    ensures
        r == column_width(*result, i as int),
{
    if i >= result.columns.len() {
        return 0;
    }
    let mut width: usize = byte_len(result.columns[i].as_str());
    let ghost least = width as int;
    let mut k: usize = 0;
    proof {
        assert(result.rows@.take(0) =~= Seq::<Vec<Cell>>::empty());
    }
    while k < result.rows.len()
        invariant
            k <= result.rows@.len(),
            width == widest(result.rows@.take(k as int), i as int, least),
        decreases result.rows@.len() - k,
    {
        proof {
            let next = result.rows@.take(k + 1);
            assert(next.drop_last() =~= result.rows@.take(k as int));
            assert(next.last() == result.rows@[k as int]);
        }
        let row = &result.rows[k];
        if i < row.len() {
            let w = byte_len(format_value(&row[i]).as_str());
            if width < w {
                width = w;
            }
        }
        k = k + 1;
    }
    proof {
        assert(result.rows@.take(k as int) =~= result.rows@);
    }
    width
}

fn push_text(list: &mut Vec<String>, s: String)
    ensures
        texts(final(list)@) == texts(old(list)@).push(s@),
{
    let ghost before = list@;
    list.push(s);
    proof {
        assert(texts(list@) =~= texts(before).push(s@));
    }
}

fn line_of(cells: &Vec<String>) -> (r: String)
    ensures
        r@ == cell_line(texts(cells@)),
{
    " ".to_string().concat(joined(cells, " | ").as_str()).concat(" ")
}

fn header_line(result: &QueryResponse) -> (r: String)
    ensures
        r@ == cell_line(header_cells(*result)),
{
    let mut cells: Vec<String> = Vec::new();
    let mut i: usize = 0;
    while i < result.columns.len()
        invariant
            i <= result.columns@.len(),
            texts(cells@) =~= header_cells(*result).take(i as int),
        decreases result.columns@.len() - i,
    {
        push_text(&mut cells, padded(result.columns[i].as_str(), width_of(result, i)));
        i = i + 1;
    }
    proof {
        assert(header_cells(*result).take(i as int) =~= header_cells(*result));
    }
    line_of(&cells)
}

fn rule_line(result: &QueryResponse) -> (r: String)
    ensures
        r@ == "-"@ + join(rule_cells(*result), "-+-"@) + "-"@,
{
    let mut cells: Vec<String> = Vec::new();
    let mut i: usize = 0;
    while i < result.columns.len()
        invariant
            i <= result.columns@.len(),
            texts(cells@) =~= rule_cells(*result).take(i as int),
        decreases result.columns@.len() - i,
    {
        push_text(&mut cells, run_text('-', width_of(result, i)));
        i = i + 1;
    }
    proof {
        assert(rule_cells(*result).take(i as int) =~= rule_cells(*result));
    }
    "-".to_string().concat(joined(&cells, "-+-").as_str()).concat("-")
}

fn row_line(result: &QueryResponse, row: &Vec<Cell>) -> (r: String)
    ensures
        r@ == cell_line(row_cells(*result, row@)),
{
    let mut cells: Vec<String> = Vec::new();
    let mut i: usize = 0;
    while i < row.len()
        invariant
            i <= row@.len(),
            texts(cells@) =~= row_cells(*result, row@).take(i as int),
        decreases row@.len() - i,
    {
        push_text(&mut cells, padded(format_value(&row[i]).as_str(), width_of(result, i)));
        i = i + 1;
    }
    proof {
        assert(row_cells(*result, row@).take(i as int) =~= row_cells(*result, row@));
    }
    line_of(&cells)
}

impl<'a> QueryTable<'a> {
    /// The table of a query's result.
    pub fn new(result: &'a QueryResponse) -> (r: Self)
        ensures
            r.result == result,
    {
        QueryTable { result }
    }

    /// The lines of the table.
    pub fn print(&self) -> (r: Vec<String>)
        ensures
            texts(r@) == table_lines(*self.result),
    {
        let result = self.result;
        let mut out: Vec<String> = Vec::new();
        proof {
            assert(texts(out@) =~= Seq::<Seq<char>>::empty());
        }
        if result.columns.len() == 0 {
            push_text(&mut out, "Query executed successfully. No rows returned.".to_string());
            proof {
                assert(texts(out@) =~= table_lines(*result));
            }
            return out;
        }
        push_text(&mut out, header_line(result));
        push_text(&mut out, rule_line(result));
        let ghost top = texts(out@);
        let mut k: usize = 0;
        proof {
            assert(top + row_lines(*result).take(0) =~= top);
        }
        while k < result.rows.len()
            invariant
                k <= result.rows@.len(),
                texts(out@) =~= top + row_lines(*result).take(k as int),
            decreases result.rows@.len() - k,
        {
            push_text(&mut out, row_line(result, &result.rows[k]));
            proof {
                assert(row_lines(*result).take(k + 1) =~= row_lines(*result).take(k as int).push(
                    row_lines(*result)[k as int],
                ));
            }
            k = k + 1;
        }
        let count = decimal_text(result.rows.len() as u64);
        push_text(&mut out, "(".to_string().concat(count.as_str()).concat(" rows)"));
        proof {
            assert(row_lines(*result).take(k as int) =~= row_lines(*result));
            assert(texts(out@) =~= table_lines(*result));
        }
        out
    }
}

proof fn lemma_widest(rows: Seq<Vec<Cell>>, i: int, least: int, k: int)
    requires
        0 <= k < rows.len(),
        0 <= i < rows[k]@.len(),
    ensures
        bytes(cell_text(rows[k]@[i])) <= widest(rows, i, least),
    decreases rows.len(),
{
    if k < rows.len() - 1 {
        lemma_widest(rows.drop_last(), i, least, k);
    }
}

proof fn lemma_widest_least(rows: Seq<Vec<Cell>>, i: int, least: int)
    ensures
        least <= widest(rows, i, least),
    decreases rows.len(),
{
    if rows.len() > 0 {
        lemma_widest_least(rows.drop_last(), i, least);
    }
}

proof fn lemma_chars_within_bytes(s: Seq<char>)
    ensures
        s.len() <= bytes(s),
    decreases s.len(),
{
    if s.len() > 0 {
        lemma_chars_within_bytes(s.drop_first());
        assert(encode_utf8(s).len() >= 1 + encode_utf8(s.drop_first()).len());
    }
}

/// The columns line up: the name of a column and each of its values take the same number of
/// characters.
pub proof fn law_columns_line_up(result: QueryResponse, k: int, i: int)
    requires
        0 <= k < result.rows@.len(),
        0 <= i < result.columns@.len(),
        i < result.rows@[k]@.len(),
    ensures
        header_cells(result)[i].len() == column_width(result, i),
        rule_cells(result)[i].len() == column_width(result, i),
        row_cells(result, result.rows@[k]@)[i].len() == column_width(result, i),
{
    let name = result.columns@[i]@;
    lemma_widest_least(result.rows@, i, bytes(name));
    lemma_widest(result.rows@, i, bytes(name), k);
    lemma_chars_within_bytes(name);
    lemma_chars_within_bytes(cell_text(result.rows@[k]@[i]));
}

/// A value is shown as its text, and never as nothing at all: what is missing is `NULL`.
pub proof fn law_values_are_shown_as_they_are(s: String, b: bool)
    ensures
        cell_text(Cell::Text(s)) == s@,
        cell_text(Cell::Number(s)) == s@,
        cell_text(Cell::Nested(s)) == s@,
        cell_text(Cell::Null) == "NULL"@,
        cell_text(Cell::Bool(true)) == "true"@,
        cell_text(Cell::Bool(false)) == "false"@,
{
}

/// A table has the names of the columns at its top, below a rule every row in its place, and
/// at its end how many rows there are.
pub proof fn law_tables_show_every_row(result: QueryResponse, k: int)
    requires
        result.columns@.len() > 0,
        0 <= k < result.rows@.len(),
    ensures
        table_lines(result).len() == result.rows@.len() + 3,
        table_lines(result)[0] == cell_line(header_cells(result)),
        table_lines(result)[k + 2] == cell_line(row_cells(result, result.rows@[k]@)),
        table_lines(result).last() == "("@ + decimal(result.rows@.len() as int) + " rows)"@,
{
}

/// Without columns there is nothing but a word that the query was executed.
pub proof fn law_no_columns_no_table(result: QueryResponse)
    requires
        result.columns@.len() == 0,
    ensures
        table_lines(result) == seq!["Query executed successfully. No rows returned."@],
{
}

/// Each name stands at the start of its cell and each value at the start of its own, and
/// nothing but blanks behind it.
pub proof fn law_cells_hold_their_values(result: QueryResponse, row: Seq<Cell>, i: int)
    ensures
        0 <= i < result.columns@.len() ==> starts_with(header_cells(result)[i], result.columns@[i]@),
        0 <= i < row.len() ==> starts_with(row_cells(result, row)[i], cell_text(row[i])),
        row_cells(result, row).len() == row.len(),
        header_cells(result).len() == result.columns@.len(),
        0 <= i < row.len() ==> forall|j: int|
            cell_text(row[i]).len() <= j < row_cells(result, row)[i].len() ==> #[trigger] row_cells(
                result,
                row,
            )[i][j] == ' ',
{
    if 0 <= i < result.columns@.len() {
        law_padding_only_adds_blanks(result.columns@[i]@, column_width(result, i));
        let cell = header_cells(result)[i];
        let name = result.columns@[i]@;
        assert(cell.subrange(0, name.len() as int) =~= cell.take(name.len() as int));
    }
    if 0 <= i < row.len() {
        law_padding_only_adds_blanks(cell_text(row[i]), column_width(result, i));
        let cell = row_cells(result, row)[i];
        let value = cell_text(row[i]);
        assert(cell.subrange(0, value.len() as int) =~= cell.take(value.len() as int));
    }
}

/// A line of cells holds each of them, with bars in between.
pub proof fn law_lines_hold_their_cells(cells: Seq<Seq<char>>, i: int)
    requires
        0 <= i < cells.len(),
    ensures
        contains(cell_line(cells), cells[i]),
        cell_line(cells) == " "@ + join(cells, " | "@) + " "@,
{
    law_joined_texts_hold_their_parts(cells, " | "@, i);
    let body = join(cells, " | "@);
    let k = choose|k: int| #[trigger] occurs_at(body, cells[i], k);
    let line = cell_line(cells);
    let j = k + " "@.len();
    assert(line.subrange(j, j + cells[i].len()) =~= body.subrange(k, k + cells[i].len()));
    assert(occurs_at(line, cells[i], j));
}

proof fn lemma_width_is_taken(rows: Seq<Vec<Cell>>, i: int, least: int)
    ensures
        widest(rows, i, least) == least || exists|k: int|
            0 <= k < rows.len() && 0 <= i < rows[k]@.len() && widest(rows, i, least) == bytes(
                cell_text(#[trigger] rows[k]@[i]),
            ),
    decreases rows.len(),
{
    if rows.len() > 0 {
        let before = rows.drop_last();
        lemma_width_is_taken(before, i, least);
        let last = rows.len() - 1;
        if widest(rows, i, least) == widest(before, i, least) {
            if widest(before, i, least) != least {
                let k = choose|k: int|
                    0 <= k < before.len() && 0 <= i < before[k]@.len() && widest(before, i, least)
                        == bytes(cell_text(#[trigger] before[k]@[i]));
                assert(before[k]@[i] == rows[k]@[i]);
            }
        } else {
            assert(widest(rows, i, least) == bytes(cell_text(rows[last]@[i])));
        }
    }
}

/// A column is as wide as its name or as one of its values, whichever is wider: no wider
/// than it must be.
pub proof fn law_columns_are_no_wider_than_needed(result: QueryResponse, i: int)
    requires
        0 <= i < result.columns@.len(),
    ensures
        column_width(result, i) == bytes(result.columns@[i]@) || exists|k: int|
            0 <= k < result.rows@.len() && 0 <= i < result.rows@[k]@.len() && column_width(result, i)
                == bytes(cell_text(#[trigger] result.rows@[k]@[i])),
        column_width(result, i) >= bytes(result.columns@[i]@),
{
    lemma_width_is_taken(result.rows@, i, bytes(result.columns@[i]@));
    lemma_widest_least(result.rows@, i, bytes(result.columns@[i]@));
}

} // verus!

//! CSV export of a form's responses.

use vstd::prelude::*;

use crate::json::{Json, Value};
use crate::models::form::{FormSchema, Question};
use crate::numerals::i32_text;
use crate::text::{cat3, chars_of, has_char, join, owned, push_text};
use crate::time::Timestamp;

verus! {

// ---------------------------------------------------------------------------
// Cells and rows
// ---------------------------------------------------------------------------

/// Whether a cell has to be quoted.
pub open spec fn needs_quotes(s: Seq<char>) -> bool {
    s.contains(',') || s.contains('"') || s.contains('\n') || s.contains('\r')
}

/// A character as it stands in a quoted cell.
pub open spec fn csv_char(c: char) -> Seq<char> {
    if c == '"' {
        "\"\""@
    } else {
        seq![c]
    }
}

/// A text with its quotes doubled.
pub open spec fn doubled(s: Seq<char>) -> Seq<char> {
    crate::text::spelled(s, |c: char| csv_char(c))
}

/// A cell as it stands in a row.
pub open spec fn csv_cell(s: Seq<char>) -> Seq<char> {
    if needs_quotes(s) {
        "\""@ + doubled(s) + "\""@
    } else {
        s
    }
}

/// The cells as they stand in a row.
pub open spec fn csv_cells(cells: Seq<Seq<char>>) -> Seq<Seq<char>> {
    cells.map_values(|c: Seq<char>| csv_cell(c))
}

/// A row with the cells.
pub open spec fn csv_line(cells: Seq<Seq<char>>) -> Seq<char> {
    crate::text::joined(csv_cells(cells), ","@) + "\n"@
}

fn double_quotes(s: &str) -> (r: String)
    ensures
        r@ == doubled(s@),
{
    let v = chars_of(s);
    let ghost f = |c: char| csv_char(c);
    let mut out: String = String::new();
    for i in 0..v.len()
        invariant
            v@ == s@,
            f == |c: char| csv_char(c),
            out@ == crate::text::spelled(s@.take(i as int), f),
    {
        let c = v[i];
        let ghost before = out@;
        if c == '"' {
            out.append("\"\"");
        } else {
            out.push(c);
        }
        proof {
            assert(s@.take(i + 1).drop_last() =~= s@.take(i as int));
            assert(out@ =~= before + csv_char(c));
        }
    }
    assert(s@.take(s@.len() as int) =~= s@);
    out
}

/// A cell as it stands in a row.
pub fn csv_escape(s: &str) -> (r: String)
    ensures
        r@ == csv_cell(s@),
{
    if has_char(s, ',') || has_char(s, '"') || has_char(s, '\n') || has_char(s, '\r') {
        cat3("\"", double_quotes(s).as_str(), "\"")
    } else {
        owned(s)
    }
}

/// A row with the cells.
pub fn csv_row(cells: &Vec<String>) -> (r: String)
    ensures
        r@ == csv_line(crate::text::texts(cells@)),
{
    let ghost all = crate::text::texts(cells@);
    let mut parts: Vec<String> = Vec::new();
    assert(crate::text::texts(parts@) =~= csv_cells(all.take(0)));
    for i in 0..cells.len()
        invariant
            all == crate::text::texts(cells@),
            crate::text::texts(parts@) == csv_cells(all.take(i as int)),
    {
        assert(all[i as int] == cells@[i as int]@);
        push_text(&mut parts, csv_escape(cells[i].as_str()));
        assert(csv_cells(all.take(i + 1)) =~= csv_cells(all.take(i as int)).push(
            csv_cell(all[i as int]),
        ));
    }
    assert(all.take(all.len() as int) =~= all);
    let mut line: String = join(&parts, ",");
    line.append("\n");
    line
}

// ---------------------------------------------------------------------------
// Responses
// ---------------------------------------------------------------------------

/// An answer in a cell.
pub open spec fn answer_cell(v: Option<Json>) -> Seq<char> {
    match v {
        None => Seq::empty(),
        Some(Json::Null) => Seq::empty(),
        Some(Json::Text(s)) => s,
        Some(Json::Number(n)) => n.text(),
        Some(Json::Bool(b)) => if b {
            "true"@
        } else {
            "false"@
        },
        Some(Json::List(a)) => crate::text::joined(crate::json::texts_among(a), "; "@),
        Some(Json::Record(o)) => crate::json::json_text(Json::Record(o)),
    }
}

/// An answer in a cell.
pub fn answer_to_csv(v: Option<&Value>) -> (r: String)
    ensures
        r@ == answer_cell(
            match v {
                Some(x) => Some(x@),
                None => None,
            },
        ),
{
    match v {
        None => String::new(),
        Some(x) => match x {
            Value::Null => String::new(),
            Value::String(s) => owned(s.as_str()),
            Value::Number(n) => n.to_text(),
            Value::Bool(b) => if *b {
                owned("true")
            } else {
                owned("false")
            },
            Value::Array(_) => join(&x.strings(), "; "),
            Value::Object(_) => x.to_text(),
        },
    }
}

/// A stored response, as the responses of a form are listed.
#[derive(Debug)]
pub struct ResponseRow {
    pub id: String,
    pub discord_id: String,
    pub answers: Value,
    pub total_score: Option<i32>,
    pub submitted_at: Timestamp,
    pub last_edited_at: Timestamp,
}

impl ResponseRow {
    /// Whether the times of the response are proper instants.
    pub open spec fn wf(self) -> bool {
        self.submitted_at.wf() && self.last_edited_at.wf()
    }
}

/// The titles of the questions.
pub open spec fn titles(asked: Seq<Question>) -> Seq<Seq<char>> {
    asked.map_values(|q: Question| q.title@)
}

/// The answers to the questions, as cells.
pub open spec fn answer_cells(asked: Seq<Question>, answers: Json) -> Seq<Seq<char>> {
    asked.map_values(|q: Question| answer_cell(answers.field(q.id@)))
}

/// The cells of the first row.
pub open spec fn header_cells(schema: FormSchema, is_quiz: bool) -> Seq<Seq<char>> {
    let fixed = seq!["discord_id"@].push("submitted_at"@).push("last_edited_at"@);
    (if is_quiz {
        fixed.push("total_score"@)
    } else {
        fixed
    }) + titles(schema.asked())
}

/// The cells of the row for a response.
pub open spec fn response_cells(schema: FormSchema, is_quiz: bool, row: ResponseRow) -> Seq<
    Seq<char>,
> {
    let fixed = seq![row.discord_id@].push(row.submitted_at.text()).push(
        row.last_edited_at.text(),
    );
    (if is_quiz {
        fixed.push(
            match row.total_score {
                Some(score) => crate::numerals::int_text(score as int),
                None => Seq::empty(),
            },
        )
    } else {
        fixed
    }) + answer_cells(schema.asked(), row.answers@)
}

/// The file with the responses: a row of titles, and a row for each response.
pub open spec fn csv_file(schema: FormSchema, is_quiz: bool, rows: Seq<ResponseRow>) -> Seq<char>
    decreases rows.len(),
{
    if rows.len() == 0 {
        csv_line(header_cells(schema, is_quiz))
    } else {
        csv_file(schema, is_quiz, rows.drop_last()) + csv_line(
            response_cells(schema, is_quiz, rows.last()),
        )
    }
}

fn header_row(schema: &FormSchema, is_quiz: bool) -> (r: Vec<String>)
    ensures
        crate::text::texts(r@) == header_cells(*schema, is_quiz),
{
    let mut cells: Vec<String> = Vec::new();
    assert(crate::text::texts(cells@) =~= Seq::empty());
    push_text(&mut cells, owned("discord_id"));
    push_text(&mut cells, owned("submitted_at"));
    push_text(&mut cells, owned("last_edited_at"));
    if is_quiz {
        push_text(&mut cells, owned("total_score"));
    }
    let ghost fixed = crate::text::texts(cells@);
    let asked = schema.iter_questions();
    let ghost all = schema.asked();
    assert(fixed + titles(all.take(0)) =~= fixed);
    for i in 0..asked.len()
        invariant
            asked@.map_values(|q: &Question| *q) == all,
            crate::text::texts(cells@) == fixed + titles(all.take(i as int)),
    {
        assert(all[i as int] == *asked@[i as int]);
        push_text(&mut cells, owned(asked[i].title.as_str()));
        assert(fixed + titles(all.take(i + 1)) =~= (fixed + titles(all.take(i as int))).push(
            all[i as int].title@,
        ));
    }
    assert(all.take(all.len() as int) =~= all);
    cells
}

fn response_row(schema: &FormSchema, is_quiz: bool, row: &ResponseRow) -> (r: Vec<String>)
    requires
        row.wf(),
    ensures
        crate::text::texts(r@) == response_cells(*schema, is_quiz, *row),
{
    let mut cells: Vec<String> = Vec::new();
    assert(crate::text::texts(cells@) =~= Seq::empty());
    push_text(&mut cells, owned(row.discord_id.as_str()));
    push_text(&mut cells, row.submitted_at.to_rfc3339());
    push_text(&mut cells, row.last_edited_at.to_rfc3339());
    if is_quiz {
        push_text(
            &mut cells,
            match row.total_score {
                Some(score) => i32_text(score),
                None => String::new(),
            },
        );
    }
    let ghost fixed = crate::text::texts(cells@);
    let asked = schema.iter_questions();
    let ghost all = schema.asked();
    assert(fixed + answer_cells(all.take(0), row.answers@) =~= fixed);
    for i in 0..asked.len()
        invariant
            asked@.map_values(|q: &Question| *q) == all,
            crate::text::texts(cells@) == fixed + answer_cells(all.take(i as int), row.answers@),
    {
        assert(all[i as int] == *asked@[i as int]);
        push_text(&mut cells, answer_to_csv(row.answers.get(asked[i].id.as_str())));
        assert(fixed + answer_cells(all.take(i + 1), row.answers@) =~= (fixed + answer_cells(
            all.take(i as int),
            row.answers@,
        )).push(answer_cell(row.answers@.field(all[i as int].id@))));
    }
    assert(all.take(all.len() as int) =~= all);
    cells
}

/// The file with the responses.
pub fn responses_csv(schema: &FormSchema, is_quiz: bool, rows: &Vec<ResponseRow>) -> (r: String)
    requires
        forall|i: int| 0 <= i < rows.len() ==> (#[trigger] rows[i]).wf(),
    ensures
        r@ == csv_file(*schema, is_quiz, rows@),
{
    let mut out: String = csv_row(&header_row(schema, is_quiz));
    for i in 0..rows.len()
        invariant
            forall|j: int| 0 <= j < rows.len() ==> (#[trigger] rows[j]).wf(),
            out@ == csv_file(*schema, is_quiz, rows@.take(i as int)),
    {
        let line = csv_row(&response_row(schema, is_quiz, &rows[i]));
        out.append(line.as_str());
        assert(rows@.take(i + 1).drop_last() =~= rows@.take(i as int));
    }
    assert(rows@.take(rows@.len() as int) =~= rows@);
    out
}

/// The `Content-Disposition` that the file is sent with.
pub fn csv_disposition(slug: &str) -> (r: String)
    ensures
        r@ == "attachment; filename=\"form-"@ + slug@ + "-responses.csv\""@,
{
    cat3("attachment; filename=\"form-", slug, "-responses.csv\"")
}

// ---------------------------------------------------------------------------
// Reading back
// ---------------------------------------------------------------------------

/// The number of quotes in a text.
pub open spec fn quotes(s: Seq<char>) -> nat
    decreases s.len(),
{
    if s.len() == 0 {
        0
    } else if s.last() == '"' {
        quotes(s.drop_last()) + 1
    } else {
        quotes(s.drop_last())
    }
}

/// The list with a text added to its last item.
pub open spec fn extended(parts: Seq<Seq<char>>, more: Seq<char>) -> Seq<Seq<char>> {
    parts.drop_last().push(parts.last() + more)
}

/// A row without its line end, cut at the commas outside quotes.
pub open spec fn cut_cells(s: Seq<char>) -> Seq<Seq<char>>
    decreases s.len(),
{
    if s.len() == 0 {
        seq![Seq::empty()]
    } else {
        let before = cut_cells(s.drop_last());
        if s.last() == ',' && quotes(s.drop_last()) % 2 == 0 {
            before.push(Seq::empty())
        } else {
            extended(before, seq![s.last()])
        }
    }
}

/// A text with its doubled quotes undone.
pub open spec fn undoubled(s: Seq<char>) -> Seq<char>
    decreases s.len(),
{
    if s.len() == 0 {
        Seq::empty()
    } else if s.last() == '"' && s.len() >= 2 {
        undoubled(s.take(s.len() - 2)).push('"')
    } else {
        undoubled(s.drop_last()).push(s.last())
    }
}

/// What a cell holds.
pub open spec fn cell_value(cell: Seq<char>) -> Seq<char> {
    if cell.len() >= 2 && cell[0] == '"' {
        undoubled(cell.subrange(1, cell.len() - 1))
    } else {
        cell
    }
}

/// What the cells of a row hold.
pub open spec fn row_values(line: Seq<char>) -> Seq<Seq<char>> {
    cut_cells(line.drop_last()).map_values(|c: Seq<char>| cell_value(c))
}

proof fn lemma_undoubled(s: Seq<char>)
    ensures
        undoubled(doubled(s)) == s,
    decreases s.len(),
{
    reveal_strlit("\"\"");
    if s.len() > 0 {
        lemma_undoubled(s.drop_last());
        let before = doubled(s.drop_last());
        assert(doubled(s) == before + csv_char(s.last()));
        if s.last() == '"' {
            assert(doubled(s).take(doubled(s).len() - 2) =~= before);
            assert(doubled(s).last() == '"');
        } else {
            assert(doubled(s).drop_last() =~= before);
            assert(doubled(s).last() == s.last());
        }
        assert(undoubled(doubled(s)) =~= s);
    }
}

proof fn lemma_cell_value(s: Seq<char>)
    ensures
        cell_value(csv_cell(s)) == s,
{
    reveal_strlit("\"");
    if needs_quotes(s) {
        let cell = csv_cell(s);
        assert(cell.subrange(1, cell.len() - 1) =~= doubled(s));
        lemma_undoubled(s);
    } else if s.len() >= 2 {
        assert(s.contains(s[0]));
    }
}

proof fn lemma_cut_is_some(s: Seq<char>)
    ensures
        cut_cells(s).len() > 0,
    decreases s.len(),
{
    if s.len() > 0 {
        lemma_cut_is_some(s.drop_last());
    }
}

proof fn lemma_extend_twice(parts: Seq<Seq<char>>, a: Seq<char>, b: Seq<char>)
    requires
        parts.len() > 0,
    ensures
        extended(extended(parts, a), b) == extended(parts, a + b),
{
    assert(extended(extended(parts, a), b) =~= extended(parts, a + b)) by {
        assert(parts.last() + a + b =~= parts.last() + (a + b));
    }
}

proof fn lemma_cut_one(s: Seq<char>, c: char)
    ensures
        cut_cells(s.push(c)) == (if c == ',' && quotes(s) % 2 == 0 {
            cut_cells(s).push(Seq::empty())
        } else {
            extended(cut_cells(s), seq![c])
        }),
        quotes(s.push(c)) == quotes(s) + if c == '"' {
            1int
        } else {
            0int
        },
{
    assert(s.push(c).drop_last() =~= s);
}

/// A text without quotes and commas only adds to the last cell.
proof fn lemma_cut_plain(s: Seq<char>, t: Seq<char>)
    requires
        !t.contains(','),
        !t.contains('"'),
    ensures
        cut_cells(s + t) == extended(cut_cells(s), t),
        quotes(s + t) == quotes(s),
    decreases t.len(),
{
    lemma_cut_is_some(s);
    if t.len() == 0 {
        assert(s + t =~= s);
        assert(extended(cut_cells(s), t) =~= cut_cells(s)) by {
            assert(cut_cells(s).last() + t =~= cut_cells(s).last());
        }
    } else {
        let u = t.drop_last();
        assert(!u.contains(',') && !u.contains('"')) by {
            assert forall|i: int| 0 <= i < u.len() implies u[i] != ',' && u[i] != '"' by {
                assert(t.contains(t[i]));
            }
        }
        assert(t.contains(t.last()));
        lemma_cut_plain(s, u);
        assert(s + t =~= (s + u).push(t.last()));
        lemma_cut_one(s + u, t.last());
        lemma_extend_twice(cut_cells(s), u, seq![t.last()]);
        assert(u + seq![t.last()] =~= t);
    }
}

/// Inside quotes, a text with its quotes doubled only adds to the last cell.
proof fn lemma_cut_doubled(s: Seq<char>, t: Seq<char>)
    requires
        quotes(s) % 2 == 1,
    ensures
        cut_cells(s + doubled(t)) == extended(cut_cells(s), doubled(t)),
        quotes(s + doubled(t)) % 2 == 1,
    decreases t.len(),
{
    reveal_strlit("\"\"");
    lemma_cut_is_some(s);
    if t.len() == 0 {
        assert(s + doubled(t) =~= s);
        assert(extended(cut_cells(s), doubled(t)) =~= cut_cells(s)) by {
            assert(cut_cells(s).last() + doubled(t) =~= cut_cells(s).last());
        }
    } else {
        let u = doubled(t.drop_last());
        lemma_cut_doubled(s, t.drop_last());
        assert(doubled(t) == u + csv_char(t.last()));
        if t.last() == '"' {
            assert(s + doubled(t) =~= (s + u).push('"').push('"'));
            lemma_cut_one(s + u, '"');
            lemma_cut_one((s + u).push('"'), '"');
            lemma_extend_twice(cut_cells(s + u), seq!['"'], seq!['"']);
            lemma_extend_twice(cut_cells(s), u, seq!['"'] + seq!['"']);
            assert(u + (seq!['"'] + seq!['"']) =~= doubled(t));
        } else {
            assert(s + doubled(t) =~= (s + u).push(t.last()));
            lemma_cut_one(s + u, t.last());
            lemma_extend_twice(cut_cells(s), u, seq![t.last()]);
            assert(u + seq![t.last()] =~= doubled(t));
        }
    }
}

/// Outside quotes, a cell only adds to the last cell.
proof fn lemma_cut_cell(s: Seq<char>, t: Seq<char>)
    requires
        quotes(s) % 2 == 0,
    ensures
        cut_cells(s + csv_cell(t)) == extended(cut_cells(s), csv_cell(t)),
        quotes(s + csv_cell(t)) % 2 == 0,
{
    reveal_strlit("\"");
    lemma_cut_is_some(s);
    if needs_quotes(t) {
        let opened = s.push('"');
        lemma_cut_one(s, '"');
        lemma_cut_doubled(opened, t);
        let filled = opened + doubled(t);
        lemma_cut_one(filled, '"');
        assert(s + csv_cell(t) =~= filled.push('"'));
        lemma_extend_twice(cut_cells(s), seq!['"'], doubled(t));
        lemma_extend_twice(cut_cells(s), seq!['"'] + doubled(t), seq!['"']);
        assert(seq!['"'] + doubled(t) + seq!['"'] =~= csv_cell(t));
    } else {
        lemma_cut_plain(s, t);
    }
}

proof fn lemma_cut_row(cells: Seq<Seq<char>>)
    requires
        cells.len() > 0,
    ensures
        cut_cells(crate::text::joined(csv_cells(cells), ","@)) == csv_cells(cells),
        quotes(crate::text::joined(csv_cells(cells), ","@)) % 2 == 0,
    decreases cells.len(),
{
    reveal_strlit(",");
    let parts = csv_cells(cells);
    if cells.len() == 1 {
        lemma_cut_cell(Seq::empty(), cells[0]);
        assert(Seq::empty() + csv_cell(cells[0]) =~= csv_cell(cells[0]));
        assert(extended(seq![Seq::empty()], csv_cell(cells[0])) =~= parts) by {
            assert(Seq::<char>::empty() + csv_cell(cells[0]) =~= csv_cell(cells[0]));
        }
    } else {
        let first = cells.drop_last();
        lemma_cut_row(first);
        assert(csv_cells(first) =~= parts.drop_last());
        let s = crate::text::joined(csv_cells(first), ","@);
        lemma_cut_one(s, ',');
        lemma_cut_cell(s.push(','), cells.last());
        assert(crate::text::joined(parts, ","@) =~= s.push(',') + csv_cell(cells.last()));
        assert(extended(parts.drop_last().push(Seq::empty()), csv_cell(cells.last())) =~= parts) by {
            assert(Seq::<char>::empty() + csv_cell(cells.last()) =~= csv_cell(cells.last()));
        }
    }
}

/// A row reads back as its cells, whatever they hold.
pub proof fn law_csv_rows_read_back(cells: Seq<Seq<char>>)
    requires
        cells.len() > 0,
    ensures
        row_values(csv_line(cells)) == cells,
{
    reveal_strlit("\n");
    let line = csv_line(cells);
    assert(line.drop_last() =~= crate::text::joined(csv_cells(cells), ","@));
    lemma_cut_row(cells);
    assert forall|i: int| 0 <= i < cells.len() implies #[trigger] row_values(line)[i] == cells[i] by {
        lemma_cell_value(cells[i]);
    }
    assert(row_values(line) =~= cells);
}

/// Every row of the file has as many cells as the row of titles.
pub proof fn law_csv_rows_are_even(schema: FormSchema, is_quiz: bool, row: ResponseRow)
    ensures
        response_cells(schema, is_quiz, row).len() == header_cells(schema, is_quiz).len(),
        header_cells(schema, is_quiz).len() >= 3,
{
}

} // verus!

//! What exports are for: every response is a row, every question a column.

use vstd::prelude::*;

use crate::json::Json;
use crate::models::form::FormSchema;
use crate::routes::csv;
use crate::routes::csv::ResponseRow;

verus! {

/// A column for the member, the two times, for a quiz the score, and for each question
/// that the form asks; and every row has the response's own in them.
pub proof fn law_columns_hold_what_they_are_titled(
    schema: FormSchema,
    is_quiz: bool,
    row: ResponseRow,
    i: int,
)
    requires
        0 <= i < schema.asked().len(),
    ensures
        ({
            let titles = csv::header_cells(schema, is_quiz);
            let cells = csv::response_cells(schema, is_quiz, row);
            let fixed: int = if is_quiz {
                4
            } else {
                3
            };
            let q = schema.asked()[i];
            &&& titles.len() == fixed + schema.asked().len()
            &&& cells.len() == fixed + schema.asked().len()
            &&& titles[0] == "discord_id"@ && cells[0] == row.discord_id@
            &&& titles[1] == "submitted_at"@ && cells[1] == row.submitted_at.text()
            &&& titles[2] == "last_edited_at"@ && cells[2] == row.last_edited_at.text()
            &&& is_quiz ==> titles[3] == "total_score"@
            &&& is_quiz && row.total_score is Some ==> cells[3] == crate::numerals::int_text(
                row.total_score->0 as int,
            )
            &&& is_quiz && row.total_score is None ==> cells[3].len() == 0
            &&& titles[fixed + i] == q.title@
            &&& cells[fixed + i] == csv::answer_cell(row.answers@.field(q.id@))
        }),
{
}

/// A text stands in its cell as it is, a list of texts with semicolons between them, a
/// number by its numeral, and no answer leaves the cell empty.
pub proof fn law_answers_stand_in_their_cells(s: Seq<char>, items: Seq<Json>, n: crate::json::Numeral)
    ensures
        csv::answer_cell(None).len() == 0,
        csv::answer_cell(Some(Json::Null)).len() == 0,
        csv::answer_cell(Some(Json::Text(s))) == s,
        csv::answer_cell(Some(Json::Number(n))) == n.text(),
        csv::answer_cell(Some(Json::Bool(true))) == "true"@,
        csv::answer_cell(Some(Json::Bool(false))) == "false"@,
        csv::answer_cell(Some(Json::List(Seq::empty()))).len() == 0,
        csv::answer_cell(Some(Json::List(seq![Json::Text(s)]))) == s,
        (items.len() > 0 && forall|i: int| 0 <= i < items.len() ==> (#[trigger] items[i]) is Text)
            ==> csv::answer_cell(Some(Json::List(items.push(Json::Text(s))))) == csv::answer_cell(
            Some(Json::List(items)),
        ) + "; "@ + s,
{
    reveal_with_fuel(crate::json::texts_among, 2);
    reveal_with_fuel(crate::text::joined, 2);
    let one = seq![Json::Text(s)];
    assert(one.drop_last() =~= Seq::empty());
    assert(crate::json::texts_among(one) =~= seq![s]);
    if items.len() > 0 && forall|i: int| 0 <= i < items.len() ==> (#[trigger] items[i]) is Text {
        let more = items.push(Json::Text(s));
        assert(more.drop_last() =~= items);
        let texts = crate::json::texts_among(items);
        lemma_some_text(items);
        assert(crate::json::texts_among(more) == texts.push(s));
        assert(texts.push(s).drop_last() =~= texts);
    }
}

proof fn lemma_some_text(items: Seq<Json>)
    requires
        items.len() > 0,
        items[items.len() - 1] is Text,
    ensures
        crate::json::texts_among(items).len() > 0,
{
}

/// A cell needs quotes just where it holds a comma, a quote or a line end; any other
/// stands in its row as it is.
pub proof fn law_plain_cells_are_not_quoted(s: Seq<char>)
    ensures
        csv::csv_cell(s) == s <==> !(s.contains(',') || s.contains('"') || s.contains('\n')
            || s.contains('\r')),
{
    if s.contains(',') || s.contains('"') || s.contains('\n') || s.contains('\r') {
        reveal_strlit("\"");
        lemma_doubled_is_longer(s);
        assert(csv::csv_cell(s).len() > s.len());
    }
}

proof fn lemma_doubled_is_longer(s: Seq<char>)
    ensures
        csv::doubled(s).len() >= s.len(),
    decreases s.len(),
{
    reveal_strlit("\"\"");
    if s.len() > 0 {
        lemma_doubled_is_longer(s.drop_last());
    }
}

/// A file has a row of titles and then one row for each response, in their order.
pub proof fn law_each_response_is_a_row(
    schema: FormSchema,
    is_quiz: bool,
    rows: Seq<ResponseRow>,
    row: ResponseRow,
)
    ensures
        csv::csv_file(schema, is_quiz, Seq::empty()) == csv::csv_line(
            csv::header_cells(schema, is_quiz),
        ),
        csv::csv_file(schema, is_quiz, rows.push(row)) == csv::csv_file(schema, is_quiz, rows)
            + csv::csv_line(csv::response_cells(schema, is_quiz, row)),
{
    assert(rows.push(row).drop_last() =~= rows);
}

} // verus!

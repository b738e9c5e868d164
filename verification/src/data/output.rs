//! Writing a selected row, column or cell in an output encoding.

use vstd::prelude::*;
use vstd::string::*;

use super::text::{decimal, decimal_string, join, join_cells};
use super::{OutputFormat, Table, TableView};

verus! {

/// A value of a structured record: text, or a position in the table.
#[derive(Debug, Clone, PartialEq, Eq)]
pub enum JsonValue {
    Text(String),
    Number(usize),
}

/// The mathematical value of a [`JsonValue`].
pub enum JsonValueView {
    Text(Seq<char>),
    Number(nat),
}

impl View for JsonValue {
    type V = JsonValueView;

    open spec fn view(&self) -> JsonValueView {
        match self {
            JsonValue::Text(s) => JsonValueView::Text(s@),
            JsonValue::Number(n) => JsonValueView::Number(*n as nat),
        }
    }
}

impl DeepView for JsonValue {
    type V = JsonValueView;

    open spec fn deep_view(&self) -> JsonValueView {
        self@
    }
}

/// A character that forces a delimited field into quotes.
pub open spec fn csv_special(c: char) -> bool {
    c == ',' || c == '"' || c == '\r' || c == '\n'
}

/// Whether a delimited field must be quoted.
pub open spec fn csv_needs_quotes(cell: Seq<char>) -> bool {
    exists|i: int| 0 <= i < cell.len() && csv_special(#[trigger] cell[i])
}

/// Whether a cell holds a comma or a line break.
pub open spec fn csv_holds_comma_or_break(cell: Seq<char>) -> bool {
    exists|i: int| 0 <= i < cell.len() && (#[trigger] cell[i] == ',' || cell[i] == '\n')
}

/// `cell` with every quote character written twice.
pub open spec fn csv_escape(cell: Seq<char>) -> Seq<char>
    decreases cell.len(),
{
    if cell.len() == 0 {
        Seq::empty()
    } else if cell.last() == '"' {
        csv_escape(cell.drop_last()).push('"').push('"')
    } else {
        csv_escape(cell.drop_last()).push(cell.last())
    }
}

/// One field of a delimited record: the cell itself, or, where it holds a
/// comma, a quote or a line break, the cell between quotes with its own
/// quotes doubled.
pub open spec fn csv_field(cell: Seq<char>) -> Seq<char> {
    if csv_needs_quotes(cell) {
        seq!['"'] + csv_escape(cell) + seq!['"']
    } else {
        cell
    }
}

/// The fields of a delimited record, one for each cell.
pub open spec fn csv_fields(cells: Seq<Seq<char>>) -> Seq<Seq<char>> {
    Seq::new(cells.len(), |j: int| csv_field(cells[j]))
}

/// One delimited record without its line terminator: the fields joined by
/// commas.  A record that would be empty is written as a pair of quotes.
pub open spec fn csv_record(fields: Seq<Seq<char>>) -> Seq<char> {
    let body = join(csv_fields(fields), seq![',']);
    if body.len() == 0 {
        seq!['"', '"']
    } else {
        body
    }
}

/// `text` with every pair of quote characters read as one.
pub open spec fn csv_unescape(text: Seq<char>) -> Seq<char>
    decreases text.len(),
{
    if text.len() == 0 {
        Seq::empty()
    } else if text.len() >= 2 && text[text.len() - 1] == '"' && text[text.len() - 2] == '"' {
        csv_unescape(text.subrange(0, text.len() - 2)).push('"')
    } else {
        csv_unescape(text.drop_last()).push(text.last())
    }
}

/// The cell that a field of a delimited record stands for: what is between
/// the quotes of a quoted field with its doubled quotes undone, and all of
/// an unquoted field.
pub open spec fn csv_decode_field(field: Seq<char>) -> Seq<char> {
    if field.len() >= 2 && field.first() == '"' && field.last() == '"' {
        csv_unescape(field.subrange(1, field.len() - 1))
    } else {
        field
    }
}

/// What `serde_json::to_string` writes for an array of strings.
pub uninterp spec fn json_array_text(items: Seq<Seq<char>>) -> Seq<char>;

/// What `serde_json::to_string` writes for an object that was filled with
/// `entries` in order.
pub uninterp spec fn json_object_text(entries: Seq<(Seq<char>, JsonValueView)>) -> Seq<char>;

/// Writes `fields` as one record, line terminator included.
///
/// Trusted: calls `csv::Writer::write_record` on a writer in its default
/// configuration over a byte vector.  That writer separates fields by a
/// comma, quotes a field exactly when it holds a comma, a quote, a carriage
/// return or a line feed, doubles quotes inside a quoted field, writes a
/// pair of quotes where nothing else was written for the record, and ends
/// the record with one line feed.
#[verifier::external_body]
fn csv_write_record(fields: &Vec<String>) -> (line: String)
    ensures
        line@ == csv_record(fields.deep_view()).push('\n'),
{
    let mut writer = csv::WriterBuilder::new().has_headers(false).from_writer(Vec::new());
    writer.write_record(fields).unwrap();
    String::from_utf8(writer.into_inner().unwrap()).unwrap()
}

/// Writes `items` as a structured array of strings.
///
/// Trusted: calls `serde_json::to_string` on a vector of string values; the
/// contract only gives the text its name.
#[verifier::external_body]
fn json_write_array(items: &Vec<String>) -> (out: String)
    ensures
        out@ == json_array_text(items.deep_view()),
{
    let values: Vec<serde_json::Value> =
        items.iter().map(|item| serde_json::Value::String(item.clone())).collect();
    serde_json::to_string(&values).unwrap()
}

/// Writes `entries` as a structured object.
///
/// Trusted: inserts the entries in order into a `serde_json::Map` and calls
/// `serde_json::to_string` on it; the contract only gives the text its name.
#[verifier::external_body]
fn json_write_object(entries: &Vec<(String, JsonValue)>) -> (out: String)
    ensures
        out@ == json_object_text(entries.deep_view()),
{
    let mut object = serde_json::Map::new();
    for (key, value) in entries {
        let value = match value {
            JsonValue::Text(text) => serde_json::Value::String(text.clone()),
            JsonValue::Number(n) => serde_json::Value::Number(serde_json::Number::from(*n)),
        };
        object.insert(key.clone(), value);
    }
    serde_json::to_string(&object).unwrap()
}

/// One record of delimited text for `fields`, without a line terminator.
pub fn csv_encode_row(fields: &Vec<String>) -> (out: String)
    ensures
        out@ == csv_record(fields.deep_view()),
{
    let line = csv_write_record(fields);
    let n = line.as_str().unicode_len();
    line.as_str().substring_char(0, n - 1).to_owned()
}

/// The cell at position `i` of `row`, or the empty string where the row is
/// too short.
pub open spec fn cell_or_empty(row: Seq<Seq<char>>, i: int) -> Seq<char> {
    if 0 <= i < row.len() {
        row[i]
    } else {
        Seq::empty()
    }
}

/// How column `col` is called in output: by its header where the table has
/// one for it, else by its index in decimal.
pub open spec fn column_label(headers: Option<Seq<Seq<char>>>, col: nat) -> Seq<char> {
    match headers {
        Some(h) if col < h.len() => h[col as int],
        _ => decimal(col),
    }
}

/// The entries of the structured record of `row` under `headers`: one per
/// header, in header order, each with the cell at the header's position.
pub open spec fn row_entries(headers: Seq<Seq<char>>, row: Seq<Seq<char>>) -> Seq<
    (Seq<char>, JsonValueView),
> {
    Seq::new(headers.len(), |i: int| (headers[i], JsonValueView::Text(cell_or_empty(row, i))))
}

/// The entries of the structured record that names a column.
pub open spec fn column_entries(label: Seq<char>) -> Seq<(Seq<char>, JsonValueView)> {
    seq![("column"@, JsonValueView::Text(label))]
}

/// The entries of the structured record of one cell.
pub open spec fn cell_entries(value: Seq<char>, row: nat, label: Seq<char>) -> Seq<
    (Seq<char>, JsonValueView),
> {
    seq![
        ("value"@, JsonValueView::Text(value)),
        ("row"@, JsonValueView::Number(row)),
        ("column"@, JsonValueView::Text(label)),
    ]
}

/// The text of row `row` of `table` in `format`.
pub open spec fn row_text(table: TableView, format: OutputFormat, row: int) -> Seq<char>
    recommends
        0 <= row < table.rows.len(),
{
    let cells = table.rows[row];
    match format {
        OutputFormat::Plain => join(cells, seq![',']),
        OutputFormat::Csv => csv_record(cells),
        OutputFormat::Json => match table.headers {
            Some(h) => json_object_text(row_entries(h, cells)),
            None => json_array_text(cells),
        },
    }
}

/// The text of column `col` of `table` in `format`.
pub open spec fn column_text(table: TableView, format: OutputFormat, col: nat) -> Seq<char> {
    let label = column_label(table.headers, col);
    match format {
        OutputFormat::Plain => label,
        OutputFormat::Csv => label,
        OutputFormat::Json => json_object_text(column_entries(label)),
    }
}

/// The text of the cell in row `row` and column `col` of `table` in `format`.
pub open spec fn cell_text(table: TableView, format: OutputFormat, row: int, col: nat) -> Seq<
    char,
>
    recommends
        0 <= row < table.rows.len(),
{
    let value = cell_or_empty(table.rows[row], col as int);
    match format {
        OutputFormat::Plain => value,
        OutputFormat::Csv => csv_record(seq![value]),
        OutputFormat::Json => json_object_text(
            cell_entries(value, row as nat, column_label(table.headers, col)),
        ),
    }
}

/// The cell at `col_idx` of `row`, or the empty string where the row is too
/// short.
fn cell_at(row: &Vec<String>, col_idx: usize) -> (out: String)
    ensures
        out@ == cell_or_empty(row.deep_view(), col_idx as int),
{
    if col_idx < row.len() {
        row[col_idx].clone()
    } else {
        String::new()
    }
}

/// The label of column `col_idx`.
fn label_of(headers: &Option<Vec<String>>, col_idx: usize) -> (out: String)
    ensures
        out@ == column_label(headers.deep_view(), col_idx as nat),
{
    match headers {
        Some(h) => {
            if col_idx < h.len() {
                h[col_idx].clone()
            } else {
                decimal_string(col_idx)
            }
        },
        None => decimal_string(col_idx),
    }
}

/// Writes row `row_idx` of `table` in `format`.
///
/// Plain text joins the cells by commas as they are.  Delimited text is
/// one record with the cells quoted where they must be.  Structured text is
/// an object with one entry per header, in header order, where the table has
/// headers, and an array of the cells where it has none.
pub fn format_row(table: &Table, format: OutputFormat, row_idx: usize) -> (out: String)
    requires
        row_idx < table.rows.len(),
    ensures
        out@ == row_text(table@, format, row_idx as int),
{
    let row = &table.rows[row_idx];
    match format {
        OutputFormat::Plain => {
            proof {
                reveal_strlit(",");
                assert(","@ == seq![',']);
            }
            join_cells(row, ",")
        },
        OutputFormat::Csv => csv_encode_row(row),
        OutputFormat::Json => match &table.headers {
            Some(headers) => {
                let mut entries: Vec<(String, JsonValue)> = Vec::new();
                let mut i: usize = 0;
                while i < headers.len()
                    invariant
                        i <= headers.len(),
                        entries.deep_view() == row_entries(
                            headers.deep_view(),
                            row.deep_view(),
                        ).take(i as int),
                    decreases headers.len() - i,
                {
                    entries.push((headers[i].clone(), JsonValue::Text(cell_at(row, i))));
                    proof {
                        let all = row_entries(headers.deep_view(), row.deep_view());
                        assert(entries.deep_view() == all.take(i as int).push(all[i as int]));
                    }
                    i += 1;
                }
                proof {
                    let all = row_entries(headers.deep_view(), row.deep_view());
                    assert(all.take(i as int) == all);
                }
                json_write_object(&entries)
            },
            None => json_write_array(row),
        },
    }
}

/// Writes column `col_idx` of `table` in `format`: its label, as it is in
/// plain and in delimited text, and as the `column` entry of an object in
/// structured text.
pub fn format_column(table: &Table, format: OutputFormat, col_idx: usize) -> (out: String)
    ensures
        out@ == column_text(table@, format, col_idx as nat),
{
    let label = label_of(&table.headers, col_idx);
    match format {
        OutputFormat::Plain => label,
        OutputFormat::Csv => label,
        OutputFormat::Json => {
            let mut entries: Vec<(String, JsonValue)> = Vec::new();
            entries.push(("column".to_owned(), JsonValue::Text(label)));
            assert(entries.deep_view() == column_entries(label@));
            json_write_object(&entries)
        },
    }
}

/// Writes the cell in row `row_idx` and column `col_idx` of `table` in
/// `format`.  A cell that the row does not have is written as the empty
/// string.
pub fn format_cell(table: &Table, format: OutputFormat, row_idx: usize, col_idx: usize) -> (out:
    String)
    requires
        row_idx < table.rows.len(),
    ensures
        out@ == cell_text(table@, format, row_idx as int, col_idx as nat),
{
    let value = cell_at(&table.rows[row_idx], col_idx);
    match format {
        OutputFormat::Plain => value,
        OutputFormat::Csv => {
            let mut fields: Vec<String> = Vec::new();
            fields.push(value);
            csv_encode_row(&fields)
        },
        OutputFormat::Json => {
            let label = label_of(&table.headers, col_idx);
            let mut entries: Vec<(String, JsonValue)> = Vec::new();
            entries.push(("value".to_owned(), JsonValue::Text(value)));
            entries.push(("row".to_owned(), JsonValue::Number(row_idx)));
            entries.push(("column".to_owned(), JsonValue::Text(label)));
            assert(entries.deep_view() == cell_entries(value@, row_idx as nat, label@));
            json_write_object(&entries)
        },
    }
}

/// Undoing the doubled quotes of an escaped cell gives the cell back.
pub proof fn lemma_csv_unescape_escape(cell: Seq<char>)
    ensures
        csv_unescape(csv_escape(cell)) == cell,
    decreases cell.len(),
{
    if cell.len() > 0 {
        let front = cell.drop_last();
        let escaped = csv_escape(cell);
        lemma_csv_unescape_escape(front);
        if cell.last() == '"' {
            assert(escaped.subrange(0, escaped.len() - 2) == csv_escape(front));
        } else {
            assert(escaped.drop_last() == csv_escape(front));
        }
    }
}

/// A cell without quote characters is escaped as itself.
pub proof fn lemma_csv_escape_without_quotes(cell: Seq<char>)
    requires
        forall|i: int| 0 <= i < cell.len() ==> cell[i] != '"',
    ensures
        csv_escape(cell) == cell,
    decreases cell.len(),
{
    if cell.len() > 0 {
        lemma_csv_escape_without_quotes(cell.drop_last());
    }
}

/// A cell that holds a comma or a line break is written between quotes with
/// its own quotes doubled, so as it is where it holds no quote; and every
/// cell, quoted or not, is read back from its field as it was.
pub proof fn lemma_csv_field_round_trip(cell: Seq<char>)
    ensures
        csv_holds_comma_or_break(cell) ==> csv_field(cell) == seq!['"'] + csv_escape(cell)
            + seq!['"'],
        csv_holds_comma_or_break(cell) && (forall|i: int| 0 <= i < cell.len() ==> cell[i] != '"')
            ==> csv_field(cell) == seq!['"'] + cell + seq!['"'],
        csv_decode_field(csv_field(cell)) == cell,
{
    if csv_holds_comma_or_break(cell) {
        let i = choose|i: int| 0 <= i < cell.len() && (cell[i] == ',' || cell[i] == '\n');
        assert(csv_special(cell[i]));
        if forall|i: int| 0 <= i < cell.len() ==> cell[i] != '"' {
            lemma_csv_escape_without_quotes(cell);
        }
    }
    if csv_needs_quotes(cell) {
        let field = csv_field(cell);
        lemma_csv_unescape_escape(cell);
        assert(field.subrange(1, field.len() - 1) == csv_escape(cell));
    } else if cell.len() >= 2 {
        assert(!csv_special(cell[0]));
    }
}

/// A delimited record is its fields joined by commas, and every field is
/// read back as the cell it was written for.
pub proof fn lemma_csv_record_round_trip(row: Seq<Seq<char>>)
    ensures
        join(csv_fields(row), seq![',']).len() > 0 ==> csv_record(row) == join(
            csv_fields(row),
            seq![','],
        ),
        csv_fields(row).len() == row.len(),
        forall|j: int|
            0 <= j < row.len() ==> csv_decode_field(#[trigger] csv_fields(row)[j]) == row[j],
{
    assert forall|j: int| 0 <= j < row.len() implies csv_decode_field(
        #[trigger] csv_fields(row)[j],
    ) == row[j] by {
        lemma_csv_field_round_trip(row[j]);
    }
}

} // verus!

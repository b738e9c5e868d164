//! Reading a table from delimited or structured text.

use serde_json::Value;
use vstd::prelude::*;
use vstd::string::*;

use super::output::{
    csv_decode_field, csv_escape, csv_fields, csv_holds_comma_or_break, csv_record,
    lemma_csv_field_round_trip, row_text,
};
use super::{InputFormat, OutputFormat, Table, TableView};

verus! {

/// Why a text is no table.
#[derive(Debug, Clone, Copy, PartialEq, Eq, Structural)]
pub enum ParseError {
    /// The delimited text ends inside a quoted field.
    UnterminatedQuote,
    /// The reader of the encoding gave up on the input: it is no text of
    /// that encoding at all.
    Malformed,
    /// The structured text is something else than an array.
    NotAnArray,
    /// An element of the array is neither an object nor an array, or the
    /// array holds objects and arrays side by side.
    InconsistentShape,
}

/// The outcome of a reading with the table as its mathematical value.
pub open spec fn outcome(result: Result<Table, ParseError>) -> Result<TableView, ParseError> {
    match result {
        Ok(table) => Ok(table@),
        Err(error) => Err(error),
    }
}

/// `csv::Error`, the error of the reader of delimited text.  Nothing is
/// known of a value but that it is one.
#[verifier::external_type_specification]
#[verifier::external_body]
pub struct ExCsvError(csv::Error);

/// `serde_json::Error`, the error of the reader of structured text.  Nothing
/// is known of a value but that it is one.
#[verifier::external_type_specification]
#[verifier::external_body]
pub struct ExJsonError(serde_json::Error);

/// Where a reader of delimited text stands after a character.
#[derive(Debug, Clone, Copy, PartialEq, Eq, Structural)]
pub enum QuoteState {
    /// At the start of a field.
    FieldStart,
    /// Inside a field that did not start with a quote.
    Unquoted,
    /// Inside a quoted field.
    Quoted,
    /// Inside a quoted field, just after a quote: the field has ended, unless
    /// a second quote follows.
    QuoteSeen,
}

/// The place after `c` was read in `state`.  A quote opens a quoted field
/// only at the start of a field; inside one, two quotes in a row stand for a
/// quote and a single one ends the quoting.  Commas and line breaks end a
/// field unless it is quoted.
pub open spec fn quote_step(state: QuoteState, c: char) -> QuoteState {
    match state {
        QuoteState::Quoted => if c == '"' {
            QuoteState::QuoteSeen
        } else {
            QuoteState::Quoted
        },
        _ => if c == '"' && state != QuoteState::Unquoted {
            QuoteState::Quoted
        } else if c == ',' || c == '\n' || c == '\r' {
            QuoteState::FieldStart
        } else {
            QuoteState::Unquoted
        },
    }
}

/// The place after all of `text` was read.
pub open spec fn quote_state(text: Seq<char>) -> QuoteState
    decreases text.len(),
{
    if text.len() == 0 {
        QuoteState::FieldStart
    } else {
        quote_step(quote_state(text.drop_last()), text.last())
    }
}

/// `text` without the byte order mark that it may start with.
pub open spec fn without_mark(text: Seq<char>) -> Seq<char> {
    if text.len() > 0 && text[0] == '\u{feff}' {
        text.skip(1)
    } else {
        text
    }
}

/// Whether `text` ends inside a quoted field.
pub open spec fn unterminated_quote(text: Seq<char>) -> bool {
    quote_state(without_mark(text)) == QuoteState::Quoted
}

/// Whether `input` ends inside a quoted field.
pub fn has_unterminated_quote(input: &str) -> (open: bool)
    ensures
        open == unterminated_quote(input@),
{
    let mut state = QuoteState::FieldStart;
    let mut first = true;
    for c in it: input.chars()
        invariant
            it.seq() == input@,
            first == (it.index() == 0),
            state == quote_state(without_mark(input@.take(it.index() as int))),
    {
        proof {
            let before = input@.take(it.index() as int);
            let now = input@.take(it.index() + 1);
            assert(now.drop_last() == before);
            if it.index() > 0 {
                assert(without_mark(now).drop_last() == without_mark(before));
            }
        }
        if first && c == '\u{feff}' {
            state = QuoteState::FieldStart;
        } else {
            state = match state {
                QuoteState::Quoted => if c == '"' {
                    QuoteState::QuoteSeen
                } else {
                    QuoteState::Quoted
                },
                QuoteState::Unquoted => if c == ',' || c == '\n' || c == '\r' {
                    QuoteState::FieldStart
                } else {
                    QuoteState::Unquoted
                },
                _ => if c == '"' {
                    QuoteState::Quoted
                } else if c == ',' || c == '\n' || c == '\r' {
                    QuoteState::FieldStart
                } else {
                    QuoteState::Unquoted
                },
            };
        }
        first = false;
    }
    proof {
        assert(input@.take(input@.len() as int) == input@);
    }
    state == QuoteState::Quoted
}

/// The records that `csv::Reader` reads from a text, each as its fields, or
/// `None` where it fails.  The reader takes every record as data and lets
/// records differ in length.
pub uninterp spec fn csv_records(input: Seq<char>) -> Option<Seq<Seq<Seq<char>>>>;

/// Reads all records of `input`.
///
/// Trusted: builds a `csv::Reader` over the bytes of `input` with
/// `has_headers(false)` and `flexible(true)` and collects what its
/// `records()` yields, each field as a string; the first error ends the
/// reading.  The contract only gives the outcome its name.
#[verifier::external_body]
fn csv_read_records(input: &str) -> (result: Result<Vec<Vec<String>>, csv::Error>)
    ensures
        csv_records(input@) == match result {
            Ok(records) => Some(records.deep_view()),
            Err(_) => None,
        },
{
    let mut reader =
        csv::ReaderBuilder::new().has_headers(false).flexible(true).from_reader(input.as_bytes());
    reader.records().map(|record| Ok(record?.iter().map(String::from).collect())).collect()
}

/// The table that `records` make up.  Where a header is expected, the first
/// record gives the headers and the others are the rows; a first record
/// without fields gives no headers.  Where none is expected, every record is
/// a row.
pub open spec fn table_of_records(records: Seq<Seq<Seq<char>>>, has_header: bool) -> TableView {
    if has_header && records.len() > 0 {
        TableView {
            headers: if records[0].len() == 0 {
                None
            } else {
                Some(records[0])
            },
            rows: records.skip(1),
        }
    } else {
        TableView { headers: None, rows: records }
    }
}

/// What reading `input` as delimited text gives.
pub open spec fn parse_csv_spec(input: Seq<char>, has_header: bool) -> Result<
    TableView,
    ParseError,
> {
    if input.len() == 0 {
        Ok(TableView { headers: None, rows: Seq::empty() })
    } else if unterminated_quote(input) {
        Err(ParseError::UnterminatedQuote)
    } else {
        match csv_records(input) {
            Some(records) => Ok(table_of_records(records, has_header)),
            None => Err(ParseError::Malformed),
        }
    }
}

/// The table without headers and rows.
fn empty_table() -> (table: Table)
    ensures
        table@ == (TableView { headers: None, rows: Seq::empty() }),
{
    let table = Table { headers: None, rows: Vec::new() };
    assert(table@.rows =~= Seq::empty());
    table
}

/// Makes a table of the records of a delimited text.
pub fn table_from_records(records: Vec<Vec<String>>, has_header: bool) -> (table: Table)
    ensures
        table@ == table_of_records(records.deep_view(), has_header),
{
    let mut records = records;
    if has_header && records.len() > 0 {
        let ghost all = records.deep_view();
        let first = records.remove(0);
        assert(records.deep_view() == all.skip(1));
        let headers = if first.len() == 0 {
            None
        } else {
            Some(first)
        };
        Table { headers, rows: records }
    } else {
        Table { headers: None, rows: records }
    }
}

/// Reads delimited text: fields separated by commas, records by line
/// breaks, with quotes around fields that hold either.
///
/// The empty text is the table without headers and rows.  A text that ends
/// inside a quoted field is refused.
pub fn parse_csv(input: &str, has_header: bool) -> (result: Result<Table, ParseError>)
    ensures
        outcome(result) == parse_csv_spec(input@, has_header),
{
    if input.is_empty() {
        return Ok(empty_table());
    }
    if has_unterminated_quote(input) {
        return Err(ParseError::UnterminatedQuote);
    }
    match csv_read_records(input) {
        Ok(records) => Ok(table_from_records(records, has_header)),
        Err(_) => Err(ParseError::Malformed),
    }
}

/// A value inside an element of a structured array, as far as a table
/// tells values apart.
#[derive(Debug, Clone, PartialEq, Eq)]
pub enum JsonCell {
    /// The null value.
    Null,
    /// A string, with what it holds.
    Text(String),
    /// Any other value: a number, a truth value, an array or an object, with
    /// the text that stands for it.
    Other(String),
}

/// An element of a structured array.
#[derive(Debug, Clone, PartialEq, Eq)]
pub enum JsonElement {
    /// An object, with its members in the order in which it holds them.
    Object(Vec<(String, JsonCell)>),
    /// An array, with its elements.
    Array(Vec<JsonCell>),
    /// Anything else.
    Scalar,
}

/// A structured text.
#[derive(Debug, Clone, PartialEq, Eq)]
pub enum JsonDocument {
    /// An array, with its elements.
    Array(Vec<JsonElement>),
    /// Anything else.
    Scalar,
}

/// The mathematical value of a [`JsonCell`].
pub enum JsonCellView {
    Null,
    Text(Seq<char>),
    Other(Seq<char>),
}

/// The mathematical value of a [`JsonElement`].
pub enum JsonElementView {
    Object(Seq<(Seq<char>, JsonCellView)>),
    Array(Seq<JsonCellView>),
    Scalar,
}

/// The mathematical value of a [`JsonDocument`].
pub enum JsonDocumentView {
    Array(Seq<JsonElementView>),
    Scalar,
}

impl DeepView for JsonCell {
    type V = JsonCellView;

    open spec fn deep_view(&self) -> JsonCellView {
        match self {
            JsonCell::Null => JsonCellView::Null,
            JsonCell::Text(text) => JsonCellView::Text(text@),
            JsonCell::Other(text) => JsonCellView::Other(text@),
        }
    }
}

impl View for JsonCell {
    type V = JsonCellView;

    open spec fn view(&self) -> JsonCellView {
        self.deep_view()
    }
}

impl DeepView for JsonElement {
    type V = JsonElementView;

    open spec fn deep_view(&self) -> JsonElementView {
        match self {
            JsonElement::Object(members) => JsonElementView::Object(members.deep_view()),
            JsonElement::Array(cells) => JsonElementView::Array(cells.deep_view()),
            JsonElement::Scalar => JsonElementView::Scalar,
        }
    }
}

impl View for JsonElement {
    type V = JsonElementView;

    open spec fn view(&self) -> JsonElementView {
        self.deep_view()
    }
}

impl DeepView for JsonDocument {
    type V = JsonDocumentView;

    open spec fn deep_view(&self) -> JsonDocumentView {
        match self {
            JsonDocument::Array(items) => JsonDocumentView::Array(items.deep_view()),
            JsonDocument::Scalar => JsonDocumentView::Scalar,
        }
    }
}

impl View for JsonDocument {
    type V = JsonDocumentView;

    open spec fn view(&self) -> JsonDocumentView {
        self.deep_view()
    }
}

/// The document that `serde_json::from_str` reads from a text, or `None`
/// where it fails.  A value that is neither null nor a string stands in the
/// document with the text that `serde_json::Value::to_string` gives it.
pub uninterp spec fn json_document(input: Seq<char>) -> Option<JsonDocumentView>;

/// Reads `input` as structured text.
///
/// Trusted: calls `serde_json::from_str` for a `serde_json::Value` and
/// copies the value into a [`JsonDocument`] variant by variant, the members
/// of an object in the order of its map; a value that is neither null nor a
/// string is copied as the text of `serde_json::Value::to_string`.  The
/// contract only gives the outcome its name.
#[verifier::external_body]
fn json_read(input: &str) -> (result: Result<JsonDocument, serde_json::Error>)
    ensures
        json_document(input@) == match result {
            Ok(document) => Some(document@),
            Err(_) => None,
        },
{
    let cell = |value: &Value| match value {
        Value::Null => JsonCell::Null,
        Value::String(text) => JsonCell::Text(text.clone()),
        other => JsonCell::Other(other.to_string()),
    };
    Ok(match serde_json::from_str(input)? {
        Value::Array(items) => JsonDocument::Array(items.iter().map(|item| match item {
            Value::Object(map) => JsonElement::Object(map.iter().map(|(k, v)| (k.clone(), cell(v))).collect()),
            Value::Array(cells) => JsonElement::Array(cells.iter().map(cell).collect()),
            _ => JsonElement::Scalar,
        }).collect()),
        _ => JsonDocument::Scalar,
    })
}

/// The text of a cell: a string as it is, null as the empty string, any
/// other value as the text that stands for it.
pub open spec fn cell_string(cell: JsonCellView) -> Seq<char> {
    match cell {
        JsonCellView::Null => Seq::empty(),
        JsonCellView::Text(text) => text,
        JsonCellView::Other(text) => text,
    }
}

/// The members of an object; none for any other element.
pub open spec fn members_of(element: JsonElementView) -> Seq<(Seq<char>, JsonCellView)> {
    match element {
        JsonElementView::Object(members) => members,
        _ => Seq::empty(),
    }
}

/// The elements of an array; none for any other element.
pub open spec fn cells_of(element: JsonElementView) -> Seq<JsonCellView> {
    match element {
        JsonElementView::Array(cells) => cells,
        _ => Seq::empty(),
    }
}

/// The keys of `members`, in their order.
pub open spec fn keys_of(members: Seq<(Seq<char>, JsonCellView)>) -> Seq<Seq<char>> {
    Seq::new(members.len(), |i: int| members[i].0)
}

/// All keys of the objects among `items`, as a scan from left to right
/// meets them.
pub open spec fn key_stream(items: Seq<JsonElementView>) -> Seq<Seq<char>>
    decreases items.len(),
{
    if items.len() == 0 {
        Seq::empty()
    } else {
        key_stream(items.drop_last()) + keys_of(members_of(items.last()))
    }
}

/// `keys` without repetitions: of each key the first occurrence stays.
pub open spec fn distinct(keys: Seq<Seq<char>>) -> Seq<Seq<char>>
    decreases keys.len(),
{
    if keys.len() == 0 {
        Seq::empty()
    } else if distinct(keys.drop_last()).contains(keys.last()) {
        distinct(keys.drop_last())
    } else {
        distinct(keys.drop_last()).push(keys.last())
    }
}

/// The value of the first member of `members` under `key`.
pub open spec fn lookup(members: Seq<(Seq<char>, JsonCellView)>, key: Seq<char>) -> Option<
    JsonCellView,
>
    decreases members.len(),
{
    if members.len() == 0 {
        None
    } else if members[0].0 == key {
        Some(members[0].1)
    } else {
        lookup(members.drop_first(), key)
    }
}

/// The row of an object under `headers`: for each header the text of the
/// member under that key, or the empty string where there is none.
pub open spec fn row_of_object(
    members: Seq<(Seq<char>, JsonCellView)>,
    headers: Seq<Seq<char>>,
) -> Seq<Seq<char>> {
    Seq::new(
        headers.len(),
        |j: int|
            match lookup(members, headers[j]) {
                Some(cell) => cell_string(cell),
                None => Seq::empty(),
            },
    )
}

/// The row of an array: the text of each element.
pub open spec fn row_of_array(cells: Seq<JsonCellView>) -> Seq<Seq<char>> {
    Seq::new(cells.len(), |j: int| cell_string(cells[j]))
}

/// Whether every element is an object.
pub open spec fn all_objects(items: Seq<JsonElementView>) -> bool {
    forall|i: int| 0 <= i < items.len() ==> #[trigger] items[i] is Object
}

/// Whether every element is an array.
pub open spec fn all_arrays(items: Seq<JsonElementView>) -> bool {
    forall|i: int| 0 <= i < items.len() ==> #[trigger] items[i] is Array
}

/// The table of an array of objects: the headers are the keys of all
/// objects in the order of their first appearance, and each object gives
/// the row of its values under them.
pub open spec fn table_of_objects(items: Seq<JsonElementView>) -> TableView {
    let headers = distinct(key_stream(items));
    TableView {
        headers: Some(headers),
        rows: Seq::new(items.len(), |i: int| row_of_object(members_of(items[i]), headers)),
    }
}

/// The table of an array of arrays: no headers, and each array gives the row
/// of its elements.
pub open spec fn table_of_arrays(items: Seq<JsonElementView>) -> TableView {
    TableView {
        headers: None,
        rows: Seq::new(items.len(), |i: int| row_of_array(cells_of(items[i]))),
    }
}

/// The table of a structured document, or why it has none.
pub open spec fn table_of_json(document: JsonDocumentView) -> Result<TableView, ParseError> {
    match document {
        JsonDocumentView::Scalar => Err(ParseError::NotAnArray),
        JsonDocumentView::Array(items) => {
            if items.len() == 0 {
                Ok(TableView { headers: None, rows: Seq::empty() })
            } else if all_objects(items) {
                Ok(table_of_objects(items))
            } else if all_arrays(items) {
                Ok(table_of_arrays(items))
            } else {
                Err(ParseError::InconsistentShape)
            }
        },
    }
}

/// What reading `input` as structured text gives.
pub open spec fn parse_json_spec(input: Seq<char>) -> Result<TableView, ParseError> {
    match json_document(input) {
        Some(document) => table_of_json(document),
        None => Err(ParseError::Malformed),
    }
}

/// What reading `input` in `format` gives.
pub open spec fn parse_spec(input: Seq<char>, format: InputFormat, has_header: bool) -> Result<
    TableView,
    ParseError,
> {
    match format {
        InputFormat::Csv => parse_csv_spec(input, has_header),
        InputFormat::Json => parse_json_spec(input),
    }
}

/// The text of a cell: a string as it is, null as the empty string, any
/// other value as the text that stands for it.
pub fn stringify_json_value(value: &JsonCell) -> (text: String)
    ensures
        text@ == cell_string(value@),
{
    match value {
        JsonCell::Text(text) => text.clone(),
        JsonCell::Null => String::new(),
        JsonCell::Other(text) => text.clone(),
    }
}

/// Whether `key` is among `keys`.
fn has_key(keys: &Vec<String>, key: &String) -> (found: bool)
    ensures
        found == keys.deep_view().contains(key@),
{
    let mut i: usize = 0;
    while i < keys.len()
        invariant
            i <= keys.len(),
            forall|k: int| 0 <= k < i ==> keys.deep_view()[k] != key@,
        decreases keys.len() - i,
    {
        if keys[i] == *key {
            assert(keys.deep_view()[i as int] == key@);
            return true;
        }
        i += 1;
    }
    false
}

/// The value of the first member of `members` under `key`.
fn find_member<'a>(members: &'a Vec<(String, JsonCell)>, key: &String) -> (found: Option<
    &'a JsonCell,
>)
    ensures
        found.deep_view() == lookup(members.deep_view(), key@),
{
    let mut i: usize = 0;
    assert(members.deep_view().skip(0) == members.deep_view());
    while i < members.len()
        invariant
            i <= members.len(),
            lookup(members.deep_view(), key@) == lookup(members.deep_view().skip(i as int), key@),
        decreases members.len() - i,
    {
        if members[i].0 == *key {
            return Some(&members[i].1);
        }
        proof {
            let rest = members.deep_view().skip(i as int);
            assert(rest.drop_first() == members.deep_view().skip(i + 1));
        }
        i += 1;
    }
    None
}

/// The row of an object under `headers`.
fn object_row(members: &Vec<(String, JsonCell)>, headers: &Vec<String>) -> (row: Vec<String>)
    ensures
        row.deep_view() == row_of_object(members.deep_view(), headers.deep_view()),
{
    let mut row: Vec<String> = Vec::new();
    let mut j: usize = 0;
    while j < headers.len()
        invariant
            j <= headers.len(),
            row.deep_view() == row_of_object(members.deep_view(), headers.deep_view()).take(
                j as int,
            ),
        decreases headers.len() - j,
    {
        let text = match find_member(members, &headers[j]) {
            Some(value) => stringify_json_value(value),
            None => String::new(),
        };
        row.push(text);
        proof {
            let all = row_of_object(members.deep_view(), headers.deep_view());
            assert(row.deep_view() == all.take(j as int).push(all[j as int]));
        }
        j += 1;
    }
    row
}

/// The row of an array.
fn array_row(cells: &Vec<JsonCell>) -> (row: Vec<String>)
    ensures
        row.deep_view() == row_of_array(cells.deep_view()),
{
    let mut row: Vec<String> = Vec::new();
    let mut j: usize = 0;
    while j < cells.len()
        invariant
            j <= cells.len(),
            row.deep_view() == row_of_array(cells.deep_view()).take(j as int),
        decreases cells.len() - j,
    {
        row.push(stringify_json_value(&cells[j]));
        proof {
            let all = row_of_array(cells.deep_view());
            assert(row.deep_view() == all.take(j as int).push(all[j as int]));
        }
        j += 1;
    }
    row
}

/// Makes a table of an array of objects.  The headers are the keys of all
/// objects in the order of their first appearance; each object gives one
/// row, with the empty string where it lacks a key.  An element that is no
/// object makes the array inconsistent.
pub fn parse_json_objects(items: &Vec<JsonElement>) -> (result: Result<Table, ParseError>)
    ensures
        outcome(result) == if all_objects(items.deep_view()) {
            Ok::<TableView, ParseError>(table_of_objects(items.deep_view()))
        } else {
            Err(ParseError::InconsistentShape)
        },
{
    // Collect all keys in the order of their first appearance.
    let mut headers: Vec<String> = Vec::new();
    let mut i: usize = 0;
    while i < items.len()
        invariant
            i <= items.len(),
            all_objects(items.deep_view().take(i as int)),
            headers.deep_view() == distinct(key_stream(items.deep_view().take(i as int))),
        decreases items.len() - i,
    {
        match &items[i] {
            JsonElement::Object(members) => {
                let ghost before = key_stream(items.deep_view().take(i as int));
                let mut j: usize = 0;
                while j < members.len()
                    invariant
                        j <= members.len(),
                        headers.deep_view() == distinct(
                            before + keys_of(members.deep_view()).take(j as int),
                        ),
                    decreases members.len() - j,
                {
                    proof {
                        let keys = keys_of(members.deep_view());
                        let now = before + keys.take(j + 1);
                        assert(now.drop_last() == before + keys.take(j as int));
                    }
                    if !has_key(&headers, &members[j].0) {
                        headers.push(members[j].0.clone());
                    }
                    j += 1;
                }
                proof {
                    let keys = keys_of(members.deep_view());
                    let next = items.deep_view().take(i + 1);
                    assert(keys.take(j as int) == keys);
                    assert(next.drop_last() == items.deep_view().take(i as int));
                }
            },
            _ => {
                assert(!(items.deep_view()[i as int] is Object));
                return Err(ParseError::InconsistentShape);
            },
        }
        i += 1;
    }
    assert(items.deep_view().take(i as int) == items.deep_view());

    let mut rows: Vec<Vec<String>> = Vec::new();
    let mut i: usize = 0;
    while i < items.len()
        invariant
            i <= items.len(),
            all_objects(items.deep_view()),
            rows.deep_view() == table_of_objects(items.deep_view()).rows.take(i as int),
            headers.deep_view() == distinct(key_stream(items.deep_view())),
        decreases items.len() - i,
    {
        let ghost all = table_of_objects(items.deep_view()).rows;
        assert(items.deep_view()[i as int] is Object);
        if let JsonElement::Object(members) = &items[i] {
            rows.push(object_row(members, &headers));
        }
        assert(rows.deep_view() == all.take(i as int).push(all[i as int]));
        i += 1;
    }
    proof {
        let all = table_of_objects(items.deep_view()).rows;
        assert(all.take(i as int) == all);
    }
    Ok(Table { headers: Some(headers), rows })
}

/// Makes a table of an array of arrays: no headers, and each array gives
/// one row.  An element that is no array makes the array inconsistent.
pub fn parse_json_arrays(items: &Vec<JsonElement>) -> (result: Result<Table, ParseError>)
    ensures
        outcome(result) == if all_arrays(items.deep_view()) {
            Ok::<TableView, ParseError>(table_of_arrays(items.deep_view()))
        } else {
            Err(ParseError::InconsistentShape)
        },
{
    let mut rows: Vec<Vec<String>> = Vec::new();
    let mut i: usize = 0;
    while i < items.len()
        invariant
            i <= items.len(),
            all_arrays(items.deep_view().take(i as int)),
            rows.deep_view() == table_of_arrays(items.deep_view()).rows.take(i as int),
        decreases items.len() - i,
    {
        let ghost all = table_of_arrays(items.deep_view()).rows;
        match &items[i] {
            JsonElement::Array(inner) => {
                rows.push(array_row(inner));
                proof {
                    assert(rows.deep_view() == all.take(i as int).push(all[i as int]));
                    let next = items.deep_view().take(i + 1);
                    assert forall|k: int| 0 <= k < next.len() implies #[trigger] next[k] is Array by {
                        if k < i {
                            assert(next[k] == items.deep_view().take(i as int)[k]);
                        }
                    }
                }
            },
            _ => {
                assert(!(items.deep_view()[i as int] is Array));
                return Err(ParseError::InconsistentShape);
            },
        }
        i += 1;
    }
    proof {
        let all = table_of_arrays(items.deep_view()).rows;
        assert(all.take(i as int) == all);
        assert(items.deep_view().take(i as int) == items.deep_view());
    }
    Ok(Table { headers: None, rows })
}

/// Makes a table of a structured document.  The document must be an array.
/// The empty array is the table without headers and rows.  The first
/// element says whether the array is one of objects or one of arrays, and
/// all others must be as the first.
pub fn table_from_json(document: &JsonDocument) -> (result: Result<Table, ParseError>)
    ensures
        outcome(result) == table_of_json(document@),
{
    match document {
        JsonDocument::Array(items) => {
            if items.len() == 0 {
                return Ok(empty_table());
            }
            assert(items.deep_view()[0] == items[0]@);
            match &items[0] {
                JsonElement::Object(_) => parse_json_objects(items),
                JsonElement::Array(_) => parse_json_arrays(items),
                JsonElement::Scalar => Err(ParseError::InconsistentShape),
            }
        },
        JsonDocument::Scalar => Err(ParseError::NotAnArray),
    }
}

/// Reads structured text: an array of objects or an array of arrays.
pub fn parse_json(input: &str) -> (result: Result<Table, ParseError>)
    ensures
        outcome(result) == parse_json_spec(input@),
{
    match json_read(input) {
        Ok(document) => table_from_json(&document),
        Err(_) => Err(ParseError::Malformed),
    }
}

/// Reads `input` in `format` into a table.  `has_header` says whether the
/// first record of a delimited text names the columns; structured text
/// names them itself.
pub fn parse_string(input: &str, format: InputFormat, has_header: bool) -> (result: Result<
    Table,
    ParseError,
>)
    ensures
        outcome(result) == parse_spec(input@, format, has_header),
{
    match format {
        InputFormat::Csv => parse_csv(input, has_header),
        InputFormat::Json => parse_json(input),
    }
}

/// Whether `key` stands at position `at` of `keys` and nowhere before.
pub open spec fn first_at(keys: Seq<Seq<char>>, key: Seq<char>, at: int) -> bool {
    &&& 0 <= at < keys.len()
    &&& keys[at] == key
    &&& forall|before: int| 0 <= before < at ==> keys[before] != key
}

/// Whether `earlier` first appears in `keys` before `later` first does.
pub open spec fn appears_before(keys: Seq<Seq<char>>, earlier: Seq<char>, later: Seq<char>) -> bool {
    exists|p: int, q: int|
        p < q && #[trigger] first_at(keys, earlier, p) && #[trigger] first_at(keys, later, q)
}

/// What is left of a sequence of keys without its repetitions holds no key
/// twice, holds exactly the keys of the sequence, and holds them in the
/// order in which they first appear in it.
pub proof fn lemma_distinct_keeps_first_appearances(keys: Seq<Seq<char>>)
    ensures
        distinct(keys).no_duplicates(),
        forall|key: Seq<char>| distinct(keys).contains(key) <==> keys.contains(key),
        forall|a: int, b: int|
            0 <= a < b < distinct(keys).len() ==> appears_before(
                keys,
                #[trigger] distinct(keys)[a],
                #[trigger] distinct(keys)[b],
            ),
    decreases keys.len(),
{
    if keys.len() > 0 {
        let front = keys.drop_last();
        let kept = distinct(front);
        let now = distinct(keys);
        let last = keys.last();
        lemma_distinct_keeps_first_appearances(front);
        assert forall|key: Seq<char>| now.contains(key) <==> keys.contains(key) by {
            if keys.contains(key) {
                let i = choose|i: int| 0 <= i < keys.len() && keys[i] == key;
                if i < front.len() {
                    assert(front[i] == key);
                    assert(front.contains(key));
                    assert(kept.contains(key));
                    let j = choose|j: int| 0 <= j < kept.len() && kept[j] == key;
                    assert(now[j] == key);
                } else if !kept.contains(last) {
                    assert(now[now.len() - 1] == key);
                }
            }
            if now.contains(key) {
                let j = choose|j: int| 0 <= j < now.len() && now[j] == key;
                if j < kept.len() {
                    assert(kept[j] == key);
                    assert(kept.contains(key));
                    assert(front.contains(key));
                    let i = choose|i: int| 0 <= i < front.len() && front[i] == key;
                    assert(keys[i] == key);
                } else {
                    assert(keys[keys.len() - 1] == key);
                }
            }
        }
        assert forall|a: int, b: int| 0 <= a < b < now.len() implies appears_before(
            keys,
            #[trigger] now[a],
            #[trigger] now[b],
        ) by {
            if b < kept.len() {
                assert(now[a] == kept[a] && now[b] == kept[b]);
                assert(appears_before(front, kept[a], kept[b]));
                let (p, q) = choose|p: int, q: int|
                    p < q && first_at(front, kept[a], p) && first_at(front, kept[b], q);
                lemma_first_at_extends(keys, kept[a], p);
                lemma_first_at_extends(keys, kept[b], q);
            } else {
                assert(now == kept.push(last));
                assert(now[a] == kept[a]);
                assert(kept.contains(kept[a]));
                assert(front.contains(kept[a]));
                let p = lemma_first_occurrence(front, kept[a]);
                lemma_first_at_extends(keys, kept[a], p);
                let q = keys.len() - 1;
                assert forall|before: int| 0 <= before < q implies keys[before] != last by {
                    if keys[before] == last {
                        assert(front[before] == last);
                        assert(front.contains(last));
                    }
                }
                assert(first_at(keys, now[b], q));
            }
        }
    }
}

/// The first position of a key in a sequence stays its first position when
/// the sequence grows at its end.
proof fn lemma_first_at_extends(keys: Seq<Seq<char>>, key: Seq<char>, at: int)
    requires
        keys.len() > 0,
        first_at(keys.drop_last(), key, at),
    ensures
        first_at(keys, key, at),
{
    let front = keys.drop_last();
    assert(keys[at] == front[at]);
    assert forall|before: int| 0 <= before < at implies keys[before] != key by {
        assert(keys[before] == front[before]);
    }
}

/// A key that a sequence holds has a first position in it.
pub proof fn lemma_first_occurrence(keys: Seq<Seq<char>>, key: Seq<char>) -> (at: int)
    requires
        keys.contains(key),
    ensures
        first_at(keys, key, at),
    decreases keys.len(),
{
    let front = keys.drop_last();
    if front.contains(key) {
        let at = lemma_first_occurrence(front, key);
        lemma_first_at_extends(keys, key, at);
        at
    } else {
        let at = keys.len() - 1;
        let i = choose|i: int| 0 <= i < keys.len() && keys[i] == key;
        if i < at {
            assert(front[i] == key);
        }
        assert forall|before: int| 0 <= before < at implies keys[before] != key by {
            if keys[before] == key {
                assert(front[before] == key);
            }
        }
        at
    }
}

/// The headers of a table made of an array of objects are the keys of the
/// objects, each once, in the order in which a scan of the array from left
/// to right first meets them.
pub proof fn lemma_headers_in_order_of_first_appearance(items: Seq<JsonElementView>)
    requires
        all_objects(items),
    ensures
        table_of_objects(items).headers == Some(distinct(key_stream(items))),
        distinct(key_stream(items)).no_duplicates(),
        forall|key: Seq<char>|
            distinct(key_stream(items)).contains(key) <==> key_stream(items).contains(key),
        forall|a: int, b: int|
            0 <= a < b < distinct(key_stream(items)).len() ==> appears_before(
                key_stream(items),
                #[trigger] distinct(key_stream(items))[a],
                #[trigger] distinct(key_stream(items))[b],
            ),
{
    lemma_distinct_keeps_first_appearances(key_stream(items));
}

/// A structured text that holds an array of objects is read as the table
/// whose headers are the keys of the objects, each once, in the order in
/// which a scan of the array from left to right first meets them.
pub proof fn lemma_json_headers_follow_the_scan(input: Seq<char>, items: Seq<JsonElementView>)
    requires
        json_document(input) == Some(JsonDocumentView::Array(items)),
        items.len() > 0,
        all_objects(items),
    ensures
        parse_json_spec(input) == Ok::<TableView, ParseError>(table_of_objects(items)),
        table_of_objects(items).headers == Some(distinct(key_stream(items))),
        distinct(key_stream(items)).no_duplicates(),
        forall|key: Seq<char>|
            distinct(key_stream(items)).contains(key) <==> key_stream(items).contains(key),
        forall|a: int, b: int|
            0 <= a < b < distinct(key_stream(items)).len() ==> appears_before(
                key_stream(items),
                #[trigger] distinct(key_stream(items))[a],
                #[trigger] distinct(key_stream(items))[b],
            ),
{
    lemma_headers_in_order_of_first_appearance(items);
}

/// Every row of a table read from delimited text is written back as one
/// record, in which each cell that holds a comma or a line break stands
/// between quotes with its own quotes doubled, and from which each cell is
/// read back as it was.
pub proof fn lemma_csv_rows_are_written_back(input: Seq<char>, has_header: bool, row: int)
    requires
        parse_csv_spec(input, has_header) is Ok,
        0 <= row < parse_csv_spec(input, has_header)->Ok_0.rows.len(),
    ensures
        ({
            let table = parse_csv_spec(input, has_header)->Ok_0;
            let cells = table.rows[row];
            &&& row_text(table, OutputFormat::Csv, row) == csv_record(cells)
            &&& csv_fields(cells).len() == cells.len()
            &&& forall|j: int|
                0 <= j < cells.len() ==> csv_decode_field(#[trigger] csv_fields(cells)[j])
                    == cells[j]
            &&& forall|j: int|
                0 <= j < cells.len() && csv_holds_comma_or_break(cells[j])
                    ==> #[trigger] csv_fields(cells)[j] == seq!['"'] + csv_escape(cells[j])
                    + seq!['"']
        }),
{
    let cells = parse_csv_spec(input, has_header)->Ok_0.rows[row];
    assert forall|j: int| 0 <= j < cells.len() implies csv_decode_field(
        #[trigger] csv_fields(cells)[j],
    ) == cells[j] && (csv_holds_comma_or_break(cells[j]) ==> csv_fields(cells)[j] == seq!['"']
        + csv_escape(cells[j]) + seq!['"']) by {
        lemma_csv_field_round_trip(cells[j]);
    }
}

} // verus!

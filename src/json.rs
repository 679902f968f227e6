use vstd::prelude::*;
use crate::error::NibbleError;
use crate::table::{row_view, table_view};

verus! {

#[verifier::external_type_specification]
#[verifier::external_body]
pub struct ExJsonValue(serde_json::Value);

/// A JSON value in the place of a table cell.
#[derive(Debug, Clone)]
pub enum JsonCell {
    Null,
    Bool(bool),
    /// A number, as JSON writes it.
    Number(String),
    Text(String),
    /// An array or an object, in compact JSON.
    Nested(String),
}

/// An element of the top-level array, with its cells read.
#[derive(Debug, Clone)]
pub enum JsonRow {
    Array(Vec<JsonCell>),
    Object(Vec<(String, JsonCell)>),
    Other,
}

/// What a JSON text holds, as far as a table is read from it.
#[derive(Debug, Clone)]
pub enum JsonDoc {
    /// The text is not JSON; the parser's description of why.
    Invalid(String),
    /// The top-level value is not an array.
    NotArray,
    /// The elements of the top-level array.
    Array(Vec<JsonRow>),
}

/// What the JSON parser makes of a text.
pub uninterp spec fn json_doc_of(content: Seq<char>) -> JsonDoc;

/// Relies on `serde_json::from_str` into `serde_json::Value`, whose result
/// depends on the text alone, and on the `Display` of `serde_json::Error`;
/// the elements go through `json_row`.
#[verifier::external_body]
fn read_json(content: &str) -> (r: JsonDoc)
    ensures
        r == json_doc_of(content@),
{
    match serde_json::from_str::<serde_json::Value>(content) {
        Err(e) => JsonDoc::Invalid(e.to_string()),
        Ok(serde_json::Value::Array(items)) => JsonDoc::Array(items.iter().map(json_row).collect()),
        Ok(_) => JsonDoc::NotArray,
    }
}

/// Relies on the variants of `serde_json::Value`: an array's items, or an
/// object's fields in the order its map yields them (sorted by key), each
/// through `json_cell`.
#[verifier::external_body]
fn json_row(v: &serde_json::Value) -> (r: JsonRow) {
    match v {
        serde_json::Value::Array(a) => JsonRow::Array(a.iter().map(json_cell).collect()),
        serde_json::Value::Object(m) => JsonRow::Object(
            m.iter().map(|(k, x)| (k.clone(), json_cell(x))).collect(),
        ),
        _ => JsonRow::Other,
    }
}

/// Relies on the variants of `serde_json::Value`, with the `Display` of
/// `serde_json::Number` and of `serde_json::Value` for numbers and nested
/// values.
#[verifier::external_body]
fn json_cell(v: &serde_json::Value) -> (r: JsonCell) {
    match v {
        serde_json::Value::Null => JsonCell::Null,
        serde_json::Value::Bool(b) => JsonCell::Bool(*b),
        serde_json::Value::Number(n) => JsonCell::Number(n.to_string()),
        serde_json::Value::String(s) => JsonCell::Text(s.clone()),
        other => JsonCell::Nested(other.to_string()),
    }
}

/// The text that a cell shows: a string without its quotes, anything else as
/// JSON writes it.
pub open spec fn cell_text_of(c: JsonCell) -> Seq<char> {
    match c {
        JsonCell::Null => "null"@,
        JsonCell::Bool(b) => if b {
            "true"@
        } else {
            "false"@
        },
        JsonCell::Number(n) => n@,
        JsonCell::Text(s) => s@,
        JsonCell::Nested(t) => t@,
    }
}

pub open spec fn texts_of(cs: Seq<JsonCell>) -> Seq<Seq<char>> {
    cs.map_values(|c: JsonCell| cell_text_of(c))
}

/// The rows of the elements that are arrays.
pub open spec fn array_rows(rows: Seq<JsonRow>) -> Seq<Seq<Seq<char>>>
    decreases rows.len(),
{
    if rows.len() == 0 {
        Seq::empty()
    } else {
        let before = array_rows(rows.drop_last());
        match rows.last() {
            JsonRow::Array(cs) => before.push(texts_of(cs@)),
            _ => before,
        }
    }
}

/// The text of the first field named `key`, or the empty text.
pub open spec fn field_text(fs: Seq<(String, JsonCell)>, key: Seq<char>) -> Seq<char>
    decreases fs.len(),
{
    if fs.len() == 0 {
        Seq::empty()
    } else if fs[0].0@ == key {
        cell_text_of(fs[0].1)
    } else {
        field_text(fs.drop_first(), key)
    }
}

pub open spec fn keys_of(fs: Seq<(String, JsonCell)>) -> Seq<Seq<char>> {
    fs.map_values(|f: (String, JsonCell)| f.0@)
}

pub open spec fn object_row(fs: Seq<(String, JsonCell)>, keys: Seq<Seq<char>>) -> Seq<Seq<char>> {
    keys.map_values(|k: Seq<char>| field_text(fs, k))
}

/// The rows of the elements that are objects, with one cell per key.
pub open spec fn object_rows(rows: Seq<JsonRow>, keys: Seq<Seq<char>>) -> Seq<Seq<Seq<char>>>
    decreases rows.len(),
{
    if rows.len() == 0 {
        Seq::empty()
    } else {
        let before = object_rows(rows.drop_last(), keys);
        match rows.last() {
            JsonRow::Object(fs) => before.push(object_row(fs@, keys)),
            _ => before,
        }
    }
}

/// The table of a top-level array: its array elements as rows where the
/// first element is an array; the keys of the first object, then a row per
/// object, where the first element is an object.
pub open spec fn json_table(rows: Seq<JsonRow>) -> Option<Seq<Seq<Seq<char>>>> {
    if rows.len() == 0 {
        None
    } else {
        match rows[0] {
            JsonRow::Array(_) => Some(array_rows(rows)),
            JsonRow::Object(fs) => Some(seq![keys_of(fs@)] + object_rows(rows, keys_of(fs@))),
            JsonRow::Other => None,
        }
    }
}

/// The text that a cell shows.
pub fn cell_text(c: &JsonCell) -> (r: String)
    ensures
        r@ == cell_text_of(*c),
{
    match c {
        JsonCell::Null => String::from_str("null"),
        JsonCell::Bool(b) => if *b {
            String::from_str("true")
        } else {
            String::from_str("false")
        },
        JsonCell::Number(n) => n.clone(),
        JsonCell::Text(s) => s.clone(),
        JsonCell::Nested(t) => t.clone(),
    }
}

fn texts(cs: &Vec<JsonCell>) -> (r: Vec<String>)
    ensures
        row_view(r@) == texts_of(cs@),
{
    let mut out: Vec<String> = Vec::new();
    let mut i: usize = 0;
    while i < cs.len()
        invariant
            i <= cs@.len(),
            row_view(out@) =~= texts_of(cs@.subrange(0, i as int)),
        decreases cs@.len() - i,
    {
        let t = cell_text(&cs[i]);
        out.push(t);
        assert(texts_of(cs@.subrange(0, i + 1)) =~= texts_of(cs@.subrange(0, i as int)).push(
            cell_text_of(cs@[i as int]),
        ));
        i = i + 1;
    }
    assert(cs@.subrange(0, cs@.len() as int) =~= cs@);
    out
}

fn field_lookup(fs: &Vec<(String, JsonCell)>, key: &String) -> (r: String)
    ensures
        r@ == field_text(fs@, key@),
{
    let mut j: usize = 0;
    assert(fs@.subrange(0, fs@.len() as int) =~= fs@);
    while j < fs.len()
        invariant
            j <= fs@.len(),
            field_text(fs@, key@) == field_text(fs@.subrange(j as int, fs@.len() as int), key@),
        decreases fs@.len() - j,
    {
        let ghost rest = fs@.subrange(j as int, fs@.len() as int);
        assert(rest.drop_first() =~= fs@.subrange(j + 1, fs@.len() as int));
        if fs[j].0.eq(key) {
            return cell_text(&fs[j].1);
        }
        j = j + 1;
    }
    String::new()
}

fn keys(fs: &Vec<(String, JsonCell)>) -> (r: Vec<String>)
    ensures
        row_view(r@) == keys_of(fs@),
{
    let mut out: Vec<String> = Vec::new();
    let mut i: usize = 0;
    while i < fs.len()
        invariant
            i <= fs@.len(),
            row_view(out@) =~= keys_of(fs@.subrange(0, i as int)),
        decreases fs@.len() - i,
    {
        out.push(fs[i].0.clone());
        assert(keys_of(fs@.subrange(0, i + 1)) =~= keys_of(fs@.subrange(0, i as int)).push(
            fs@[i as int].0@,
        ));
        i = i + 1;
    }
    assert(fs@.subrange(0, fs@.len() as int) =~= fs@);
    out
}

fn object_cells(fs: &Vec<(String, JsonCell)>, ks: &Vec<String>) -> (r: Vec<String>)
    ensures
        row_view(r@) == object_row(fs@, ks@.map_values(|c: String| c@)),
{
    let ghost kv = ks@.map_values(|c: String| c@);
    let mut out: Vec<String> = Vec::new();
    let mut i: usize = 0;
    while i < ks.len()
        invariant
            i <= ks@.len(),
            kv == ks@.map_values(|c: String| c@),
            row_view(out@) =~= object_row(fs@, kv.subrange(0, i as int)),
        decreases ks@.len() - i,
    {
        let t = field_lookup(fs, &ks[i]);
        out.push(t);
        assert(object_row(fs@, kv.subrange(0, i + 1)) =~= object_row(
            fs@,
            kv.subrange(0, i as int),
        ).push(field_text(fs@, kv[i as int])));
        i = i + 1;
    }
    assert(kv.subrange(0, ks@.len() as int) =~= kv);
    out
}

/// What the elements of a top-level array give: their table, or the error
/// for no elements or for a first element that is neither array nor object.
pub open spec fn json_rows_outcome(rows: Seq<JsonRow>, r: Result<Vec<Vec<String>>, NibbleError>) -> bool {
    &&& rows.len() == 0 ==> (r matches Err(NibbleError::ConfigError(m)) && m@
        == "JSON array is empty"@)
    &&& rows.len() > 0 && rows[0] is Other ==> (r matches Err(NibbleError::ConfigError(m)) && m@
        == "JSON must be array of arrays or array of objects"@)
    &&& json_table(rows) matches Some(t) ==> (r matches Ok(x) && table_view(x@) == t)
}

/// What a JSON document gives: the parser's error, the error for a
/// top-level value that is not an array, or what its elements give.
pub open spec fn json_doc_outcome(doc: JsonDoc, r: Result<Vec<Vec<String>>, NibbleError>) -> bool {
    match doc {
        JsonDoc::Invalid(e) => r matches Err(NibbleError::ConfigError(m)) && m@ == "Invalid JSON: "@
            + e@,
        JsonDoc::NotArray => r matches Err(NibbleError::ConfigError(m)) && m@
            == "JSON root must be an array"@,
        JsonDoc::Array(rows) => json_rows_outcome(rows@, r),
    }
}

/// The table of the elements of a top-level array.
pub fn table_from_json_rows(rows: &Vec<JsonRow>) -> (r: Result<Vec<Vec<String>>, NibbleError>)
    ensures
        json_rows_outcome(rows@, r),
{
    if rows.len() == 0 {
        return Err(NibbleError::ConfigError(String::from_str("JSON array is empty")));
    }
    match &rows[0] {
        JsonRow::Array(_) => {
            let mut out: Vec<Vec<String>> = Vec::new();
            let mut i: usize = 0;
            while i < rows.len()
                invariant
                    i <= rows@.len(),
                    table_view(out@) == array_rows(rows@.subrange(0, i as int)),
                decreases rows@.len() - i,
            {
                assert(rows@.subrange(0, i + 1).drop_last() =~= rows@.subrange(0, i as int));
                if let JsonRow::Array(cs) = &rows[i] {
                    let row = texts(cs);
                    let ghost before = out@;
                    out.push(row);
                    assert(table_view(out@) =~= table_view(before).push(row_view(row@)));
                }
                i = i + 1;
            }
            assert(rows@.subrange(0, rows@.len() as int) =~= rows@);
            Ok(out)
        },
        JsonRow::Object(fs) => {
            let ks = keys(fs);
            let ghost kv = keys_of(fs@);
            let mut out: Vec<Vec<String>> = Vec::new();
            out.push(ks.clone());
            assert(table_view(out@) =~= seq![kv] + object_rows(rows@.subrange(0, 0), kv));
            let mut i: usize = 0;
            while i < rows.len()
                invariant
                    i <= rows@.len(),
                    kv == row_view(ks@),
                    table_view(out@) == seq![kv] + object_rows(rows@.subrange(0, i as int), kv),
                decreases rows@.len() - i,
            {
                assert(rows@.subrange(0, i + 1).drop_last() =~= rows@.subrange(0, i as int));
                if let JsonRow::Object(fs2) = &rows[i] {
                    let row = object_cells(fs2, &ks);
                    let ghost before = out@;
                    out.push(row);
                    assert(table_view(out@) =~= table_view(before).push(row_view(row@)));
                }
                i = i + 1;
            }
            assert(rows@.subrange(0, rows@.len() as int) =~= rows@);
            Ok(out)
        },
        JsonRow::Other => Err(
            NibbleError::ConfigError(
                String::from_str("JSON must be array of arrays or array of objects"),
            ),
        ),
    }
}

/// The table of a parsed JSON document.
pub fn table_from_json_doc(doc: &JsonDoc) -> (r: Result<Vec<Vec<String>>, NibbleError>)
    ensures
        json_doc_outcome(*doc, r),
{
    match doc {
        JsonDoc::Invalid(e) => {
            let m = String::from_str("Invalid JSON: ").concat(e.as_str());
            Err(NibbleError::ConfigError(m))
        },
        JsonDoc::NotArray => Err(
            NibbleError::ConfigError(String::from_str("JSON root must be an array")),
        ),
        JsonDoc::Array(rows) => table_from_json_rows(rows),
    }
}

/// Reads a JSON document that holds an array of arrays or an array of
/// objects.
pub fn parse_json(content: &str) -> (r: Result<Vec<Vec<String>>, NibbleError>)
    ensures
        json_doc_outcome(json_doc_of(content@), r),
{
    let doc = read_json(content);
    table_from_json_doc(&doc)
}

} // verus!

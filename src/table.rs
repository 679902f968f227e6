use vstd::prelude::*;
use crate::error::NibbleError;
use crate::style::StyleConfig;
use crate::json::{array_rows, json_doc_of, json_doc_outcome, parse_json, JsonDoc, JsonRow};
use crate::text::{
    chars_of, decimal, decimal_string, ends_with, ends_with_text, parse_u16_range, pieces,
    ranges_within, split_on, split_range, string_of_range, trim, trim_range, u16_of,
};

verus! {

/// The options of the table widget.
#[derive(Debug, Clone)]
pub struct TableArgs {
    pub data: Option<String>,
    pub file: Option<String>,
    pub headers: Option<String>,
    pub title: String,
    pub height: u16,
    pub widths: Option<String>,
    pub row_separator: String,
    pub col_separator: String,
    pub highlight_header: bool,
    pub style: StyleConfig,
}

/// The texts of a table, row by row.
pub open spec fn table_view(t: Seq<Vec<String>>) -> Seq<Seq<Seq<char>>> {
    t.map_values(|row: Vec<String>| row_view(row@))
}

pub open spec fn row_view(row: Seq<String>) -> Seq<Seq<char>> {
    row.map_values(|c: String| c@)
}

/// A row's cells: the pieces between column separators, trimmed.
pub open spec fn cells_of(line: Seq<char>, col: Seq<char>) -> Seq<Seq<char>> {
    trimmed(split_on(line, col))
}

/// Each text trimmed.
pub open spec fn trimmed(s: Seq<Seq<char>>) -> Seq<Seq<char>> {
    s.map_values(|c: Seq<char>| trim(c))
}

/// A line that holds more than white space.
pub open spec fn blank(line: Seq<char>) -> bool {
    trim(line).len() == 0
}

/// The rows of the lines that are not blank.
pub open spec fn rows_of(lines: Seq<Seq<char>>, col: Seq<char>) -> Seq<Seq<Seq<char>>>
    decreases lines.len(),
{
    if lines.len() == 0 {
        Seq::empty()
    } else {
        let before = rows_of(lines.drop_last(), col);
        if blank(lines.last()) {
            before
        } else {
            before.push(cells_of(lines.last(), col))
        }
    }
}

/// The table that a text holds with the given row and column separators.
pub open spec fn delimited_rows(data: Seq<char>, row: Seq<char>, col: Seq<char>) -> Seq<
    Seq<Seq<char>>,
> {
    rows_of(split_on(data, row), col)
}

/// The trimmed cells of `v[lo..hi]`.
fn cells_in(v: &Vec<char>, lo: usize, hi: usize, col: &Vec<char>) -> (r: Vec<String>)
    requires
        lo <= hi <= v@.len(),
    ensures
        row_view(r@) == cells_of(v@.subrange(lo as int, hi as int), col@),
{
    let rs = split_range(v, lo, hi, col);
    let ghost ps = split_on(v@.subrange(lo as int, hi as int), col@);
    let mut out: Vec<String> = Vec::new();
    assert(row_view(out@) =~= trimmed(ps.subrange(0, 0)));
    let mut k: usize = 0;
    while k < rs.len()
        invariant
            lo <= hi <= v@.len(),
            ranges_within(rs@, lo as int, hi as int),
            pieces(v@, rs@) == ps,
            k <= rs@.len(),
            row_view(out@) == trimmed(ps.subrange(0, k as int)),
        decreases rs@.len() - k,
    {
        let (a, b) = rs[k];
        assert(lo <= rs@[k as int].0 <= rs@[k as int].1 <= hi);
        let (x, y) = trim_range(v, a, b);
        let cell = string_of_range(v, x, y);
        assert(ps[k as int] == v@.subrange(a as int, b as int));
        let ghost before = out@;
        out.push(cell);
        assert(row_view(out@) =~= row_view(before).push(cell@));
        assert(ps.subrange(0, k + 1) =~= ps.subrange(0, k as int).push(ps[k as int]));
        assert(trimmed(ps.subrange(0, k + 1)) =~= trimmed(ps.subrange(0, k as int)).push(
            trim(ps[k as int]),
        ));
        k = k + 1;
    }
    assert(ps.subrange(0, rs@.len() as int) =~= ps);
    out
}

/// The rows of a text, split into lines by `row_sep` and into cells by
/// `col_sep`; blank lines give no row.
pub fn parse_rows(data: &str, row_sep: &str, col_sep: &str) -> (r: Vec<Vec<String>>)
    ensures
        table_view(r@) == delimited_rows(data@, row_sep@, col_sep@),
{
    let v = chars_of(data);
    let rp = chars_of(row_sep);
    let cp = chars_of(col_sep);
    let n = v.len();
    let lines = split_range(&v, 0, n, &rp);
    assert(v@.subrange(0, n as int) =~= v@);
    let ghost ls = split_on(v@, rp@);
    let mut rows: Vec<Vec<String>> = Vec::new();
    let mut k: usize = 0;
    while k < lines.len()
        invariant
            n == v@.len(),
            ranges_within(lines@, 0, n as int),
            pieces(v@, lines@) == ls,
            k <= lines@.len(),
            table_view(rows@) == rows_of(ls.subrange(0, k as int), cp@),
        decreases lines@.len() - k,
    {
        let (a, b) = lines[k];
        assert(0 <= lines@[k as int].0 <= lines@[k as int].1 <= n);
        assert(ls[k as int] == v@.subrange(a as int, b as int));
        assert(ls.subrange(0, k + 1).drop_last() =~= ls.subrange(0, k as int));
        let (x, y) = trim_range(&v, a, b);
        if x < y {
            let row = cells_in(&v, a, b, &cp);
            let ghost before = rows@;
            rows.push(row);
            assert(table_view(rows@) =~= table_view(before).push(row_view(row@)));
        }
        k = k + 1;
    }
    assert(ls.subrange(0, lines@.len() as int) =~= ls);
    rows
}

/// Reads a table given inline: rows split by `row_sep`, cells by `col_sep`.
pub fn parse_inline_data(data: &str, row_sep: &str, col_sep: &str) -> (r: Result<
    Vec<Vec<String>>,
    NibbleError,
>)
    ensures
        delimited_rows(data@, row_sep@, col_sep@).len() > 0 ==> (r matches Ok(t) && table_view(
            t@,
        ) == delimited_rows(data@, row_sep@, col_sep@)),
        delimited_rows(data@, row_sep@, col_sep@).len() == 0 ==> (r matches Err(
            NibbleError::ConfigError(m),
        ) && m@ == "Inline data is empty"@),
{
    let rows = parse_rows(data, row_sep, col_sep);
    if rows.len() == 0 {
        return Err(NibbleError::ConfigError(String::from_str("Inline data is empty")));
    }
    Ok(rows)
}

/// Reads comma-separated lines; blank lines give no row.
pub fn parse_csv(content: &str) -> (r: Result<Vec<Vec<String>>, NibbleError>)
    ensures
        delimited_rows(content@, "\n"@, ","@).len() > 0 ==> (r matches Ok(t) && table_view(t@)
            == delimited_rows(content@, "\n"@, ","@)),
        delimited_rows(content@, "\n"@, ","@).len() == 0 ==> (r matches Err(
            NibbleError::ConfigError(m),
        ) && m@ == "CSV file is empty"@),
{
    let rows = parse_rows(content, "\n", ",");
    if rows.len() == 0 {
        return Err(NibbleError::ConfigError(String::from_str("CSV file is empty")));
    }
    Ok(rows)
}

/// Each piece of a width list names a `u16` once trimmed.
pub open spec fn widths_ok(ps: Seq<Seq<char>>) -> bool {
    forall|i: int| 0 <= i < ps.len() ==> (#[trigger] u16_of(trim(ps[i]))) is Some
}

pub open spec fn width_values(ps: Seq<Seq<char>>) -> Seq<u16> {
    ps.map_values(|p: Seq<char>| u16_of(trim(p))->Some_0)
}

/// `i` is the first piece of a width list that names no `u16`.
pub open spec fn first_bad_width(ps: Seq<Seq<char>>, i: int) -> bool {
    &&& 0 <= i < ps.len()
    &&& u16_of(trim(ps[i])) is None
    &&& forall|j: int| 0 <= j < i ==> (#[trigger] u16_of(trim(ps[j]))) is Some
}

pub open spec fn sum_widths(ws: Seq<u16>) -> int
    decreases ws.len(),
{
    if ws.len() == 0 {
        0
    } else {
        sum_widths(ws.drop_last()) + ws.last()
    }
}

pub open spec fn count_mismatch_msg(found: nat, cols: nat) -> Seq<char> {
    "Number of widths ("@ + decimal(found) + ") doesn't match number of columns ("@ + decimal(
        cols,
    ) + ")"@
}

pub open spec fn width_sum_msg(sum: nat) -> Seq<char> {
    "Column widths sum to "@ + decimal(sum) + "%, must be 100% or less"@
}

/// Reads each comma-separated piece as a `u16`; the first piece that is none
/// is the error.
fn read_widths(width_str: &str) -> (r: Result<Vec<u16>, NibbleError>)
    ensures
        ({
            let ps = split_on(width_str@, ","@);
            &&& !widths_ok(ps) ==> (r matches Err(NibbleError::ConfigError(m)) && exists|i: int|
                #[trigger] first_bad_width(ps, i) && m@ == "Invalid width value: "@ + ps[i])
            &&& widths_ok(ps) ==> (r matches Ok(w) && w@ == width_values(ps))
        }),
{
    let v = chars_of(width_str);
    let comma = vec![','];
    assert(comma@ =~= ","@) by {
        reveal_strlit(",");
    }
    let n = v.len();
    let rs = split_range(&v, 0, n, &comma);
    assert(v@.subrange(0, n as int) =~= v@);
    let ghost ps = split_on(width_str@, ","@);
    let mut ws: Vec<u16> = Vec::new();
    let mut k: usize = 0;
    while k < rs.len()
        invariant
            n == v@.len(),
            v@ == width_str@,
            ps == split_on(width_str@, ","@),
            ranges_within(rs@, 0, n as int),
            pieces(v@, rs@) == ps,
            k <= rs@.len(),
            forall|j: int| 0 <= j < k ==> (#[trigger] u16_of(trim(ps[j]))) is Some,
            ws@ == width_values(ps.subrange(0, k as int)),
        decreases rs@.len() - k,
    {
        let (a, b) = rs[k];
        assert(0 <= rs@[k as int].0 <= rs@[k as int].1 <= n);
        assert(ps[k as int] == v@.subrange(a as int, b as int));
        let (x, y) = trim_range(&v, a, b);
        match parse_u16_range(&v, x, y) {
            None => {
                assert(first_bad_width(ps, k as int));
                let w = string_of_range(&v, a, b);
                let m = String::from_str("Invalid width value: ").concat(w.as_str());
                assert(m@ == "Invalid width value: "@ + ps[k as int]);
                assert(!widths_ok(ps));
                return Err(NibbleError::ConfigError(m));
            },
            Some(w) => {
                ws.push(w);
                assert(width_values(ps.subrange(0, k + 1)) =~= width_values(
                    ps.subrange(0, k as int),
                ).push(w));
            },
        }
        k = k + 1;
    }
    assert(ps.subrange(0, rs@.len() as int) =~= ps);
    Ok(ws)
}

/// The sum of the widths.
fn total_width(ws: &Vec<u16>) -> (r: u128)
    ensures
        r == sum_widths(ws@),
{
    let mut sum: u128 = 0;
    let mut i: usize = 0;
    while i < ws.len()
        invariant
            i <= ws@.len(),
            sum == sum_widths(ws@.subrange(0, i as int)),
            sum <= 65535 * i,
        decreases ws@.len() - i,
    {
        assert(ws@.subrange(0, i + 1).drop_last() =~= ws@.subrange(0, i as int));
        sum = sum + ws[i] as u128;
        i = i + 1;
    }
    assert(ws@.subrange(0, ws@.len() as int) =~= ws@);
    sum
}

/// What reading a width list gives: the widths, or the first of its errors.
pub open spec fn widths_outcome(
    width_str: Seq<char>,
    num_cols: nat,
    r: Result<Vec<u16>, NibbleError>,
) -> bool {
    let ps = split_on(width_str, ","@);
    &&& !widths_ok(ps) ==> (r matches Err(NibbleError::ConfigError(m)) && exists|i: int|
        #[trigger] first_bad_width(ps, i) && m@ == "Invalid width value: "@ + ps[i])
    &&& widths_ok(ps) && ps.len() != num_cols ==> (r matches Err(NibbleError::ConfigError(m))
        && m@ == count_mismatch_msg(ps.len(), num_cols))
    &&& widths_ok(ps) && ps.len() == num_cols && sum_widths(width_values(ps)) > 100 ==> (
    r matches Err(NibbleError::ConfigError(m)) && m@ == width_sum_msg(
        sum_widths(width_values(ps)) as nat,
    ))
    &&& widths_ok(ps) && ps.len() == num_cols && sum_widths(width_values(ps)) <= 100 ==> (
    r matches Ok(w) && w@ == width_values(ps))
}

/// Reads comma-separated column widths in percent: one per column, summing
/// to at most 100.
pub fn parse_widths(width_str: &str, num_cols: usize) -> (r: Result<Vec<u16>, NibbleError>)
    ensures
        widths_outcome(width_str@, num_cols as nat, r),
{
    let ws = match read_widths(width_str) {
        Ok(ws) => ws,
        Err(e) => {
            return Err(e);
        },
    };
    if ws.len() != num_cols {
        let m = String::from_str("Number of widths (").concat(
            decimal_string(ws.len() as u128).as_str(),
        ).concat(") doesn't match number of columns (").concat(
            decimal_string(num_cols as u128).as_str(),
        ).concat(")");
        return Err(NibbleError::ConfigError(m));
    }
    let sum = total_width(&ws);
    if sum > 100 {
        let m = String::from_str("Column widths sum to ").concat(decimal_string(sum).as_str()).concat(
            "%, must be 100% or less",
        );
        return Err(NibbleError::ConfigError(m));
    }
    Ok(ws)
}

/// What reading delimited text gives: its rows, or the error named
/// `empty_msg` where no line holds more than white space.
pub open spec fn delimited_outcome(
    data: Seq<char>,
    row: Seq<char>,
    col: Seq<char>,
    empty_msg: Seq<char>,
    r: Result<Vec<Vec<String>>, NibbleError>,
) -> bool {
    &&& delimited_rows(data, row, col).len() > 0 ==> (r matches Ok(t) && table_view(t@)
        == delimited_rows(data, row, col))
    &&& delimited_rows(data, row, col).len() == 0 ==> (r matches Err(NibbleError::ConfigError(m))
        && m@ == empty_msg)
}

/// What reading a file's content gives, by the file's name: JSON for a name
/// ending in `.json`, comma-separated lines otherwise.
pub open spec fn file_outcome(
    path: Seq<char>,
    content: Seq<char>,
    r: Result<Vec<Vec<String>>, NibbleError>,
) -> bool {
    if ends_with(path, ".json"@) {
        json_doc_outcome(json_doc_of(content), r)
    } else {
        delimited_outcome(content, "\n"@, ","@, "CSV file is empty"@, r)
    }
}

/// Reads the content of the file at `path`: JSON where the name ends in
/// `.json`, comma-separated lines otherwise.
pub fn parse_file_content(path: &str, content: &str) -> (r: Result<Vec<Vec<String>>, NibbleError>)
    ensures
        file_outcome(path@, content@, r),
{
    if ends_with_text(path, ".json") {
        parse_json(content)
    } else {
        parse_csv(content)
    }
}

/// What reading a table's data gives: the file's, where one is named; else
/// the inline data's; else an error.
pub open spec fn table_data_outcome(
    args: &TableArgs,
    file_content: Seq<char>,
    r: Result<Vec<Vec<String>>, NibbleError>,
) -> bool {
    &&& args.file matches Some(p) ==> file_outcome(p@, file_content, r)
    &&& args.file is None && args.data is Some ==> delimited_outcome(
        args.data->Some_0@,
        args.row_separator@,
        args.col_separator@,
        "Inline data is empty"@,
        r,
    )
    &&& args.file is None && args.data is None ==> (r matches Err(NibbleError::ConfigError(m))
        && m@ == "No data source provided"@)
}

/// Reads the table from the file where one is named (its content given as
/// `file_content`), else from the inline data.
pub fn parse_table_data(args: &TableArgs, file_content: &str) -> (r: Result<
    Vec<Vec<String>>,
    NibbleError,
>)
    ensures
        table_data_outcome(args, file_content@, r),
{
    if let Some(path) = &args.file {
        parse_file_content(path.as_str(), file_content)
    } else if let Some(data) = &args.data {
        parse_inline_data(data.as_str(), args.row_separator.as_str(), args.col_separator.as_str())
    } else {
        Err(NibbleError::ConfigError(String::from_str("No data source provided")))
    }
}

impl TableArgs {
    /// Checks the options before anything is read: a height of at least one
    /// line, and a data source.
    pub fn validate(&self) -> (r: Result<(), NibbleError>)
        ensures
            self.height == 0 ==> (r matches Err(NibbleError::InvalidDimensions(m)) && m@
                == "Height must be greater than 0"@),
            self.height > 0 && self.data is None && self.file is None ==> (r matches Err(
                NibbleError::ConfigError(m),
            ) && m@ == "Either --data or --file must be provided"@),
            self.height > 0 && (self.data is Some || self.file is Some) ==> r is Ok,
    {
        if self.height == 0 {
            return Err(
                NibbleError::InvalidDimensions(String::from_str("Height must be greater than 0")),
            );
        }
        if self.data.is_none() && self.file.is_none() {
            return Err(
                NibbleError::ConfigError(
                    String::from_str("Either --data or --file must be provided"),
                ),
            );
        }
        Ok(())
    }
}

proof fn lemma_array_rows_nonempty(rows: Seq<JsonRow>)
    requires
        rows.len() > 0,
        rows[0] is Array,
    ensures
        array_rows(rows).len() > 0,
    decreases rows.len(),
{
    if rows.len() > 1 {
        assert(rows.drop_last()[0] == rows[0]);
        lemma_array_rows_nonempty(rows.drop_last());
    }
}

/// A table read from any source has a row.
pub proof fn lemma_table_data_nonempty(
    args: &TableArgs,
    file_content: Seq<char>,
    r: Result<Vec<Vec<String>>, NibbleError>,
)
    requires
        table_data_outcome(args, file_content, r),
        r is Ok,
    ensures
        r->Ok_0@.len() > 0,
{
    let t = r->Ok_0;
    assert(table_view(t@).len() == t@.len());
    if args.file is Some && ends_with(args.file->Some_0@, ".json"@) {
        let doc = json_doc_of(file_content);
        if let JsonDoc::Array(rows) = doc {
            if rows@.len() > 0 && rows@[0] is Array {
                lemma_array_rows_nonempty(rows@);
            }
        }
    }
}

/// Reads the table as `parse_table_data` does, and refuses one without rows.
pub fn load_table(args: &TableArgs, file_content: &str) -> (r: Result<
    Vec<Vec<String>>,
    NibbleError,
>)
    ensures
        table_data_outcome(args, file_content@, r),
        r matches Ok(t) ==> t@.len() > 0,
{
    let res = parse_table_data(args, file_content);
    proof {
        if res is Ok {
            lemma_table_data_nonempty(args, file_content@, res);
        }
    }
    match res {
        Ok(t) => {
            if t.len() == 0 {
                Err(NibbleError::ConfigError(String::from_str("Table data is empty")))
            } else {
                Ok(t)
            }
        },
        Err(e) => Err(e),
    }
}

/// The length of the longest row.
pub open spec fn max_row_len(t: Seq<Vec<String>>) -> nat
    decreases t.len(),
{
    if t.len() == 0 {
        0
    } else {
        let before = max_row_len(t.drop_last());
        if t.last()@.len() > before {
            t.last()@.len()
        } else {
            before
        }
    }
}

/// The number of columns: the length of the longest row.
pub fn column_count(data: &Vec<Vec<String>>) -> (r: usize)
    ensures
        r == max_row_len(data@),
{
    let mut m: usize = 0;
    let mut i: usize = 0;
    while i < data.len()
        invariant
            i <= data@.len(),
            m == max_row_len(data@.subrange(0, i as int)),
        decreases data@.len() - i,
    {
        assert(data@.subrange(0, i + 1).drop_last() =~= data@.subrange(0, i as int));
        if data[i].len() > m {
            m = data[i].len();
        }
        i = i + 1;
    }
    assert(data@.subrange(0, data@.len() as int) =~= data@);
    m
}

/// An equal share of the width for each column, at least one percent.
pub open spec fn equal_share(num_cols: nat) -> u16 {
    if num_cols == 0 || 100nat / num_cols < 1 {
        1
    } else {
        (100nat / num_cols) as u16
    }
}

/// Equal column widths in percent.
pub fn equal_widths(num_cols: usize) -> (r: Vec<u16>)
    ensures
        r@ == Seq::new(num_cols as nat, |i: int| equal_share(num_cols as nat)),
{
    let share: u16 = if num_cols == 0 || 100 / num_cols < 1 {
        1
    } else {
        (100 / num_cols) as u16
    };
    let mut out: Vec<u16> = Vec::new();
    let mut i: usize = 0;
    while i < num_cols
        invariant
            i <= num_cols,
            share == equal_share(num_cols as nat),
            out@ =~= Seq::new(i as nat, |k: int| equal_share(num_cols as nat)),
        decreases num_cols - i,
    {
        out.push(share);
        i = i + 1;
    }
    out
}

/// The widths of the columns: those given, checked against the number of
/// columns, else equal shares.
pub fn column_widths(widths: &Option<String>, num_cols: usize) -> (r: Result<
    Vec<u16>,
    NibbleError,
>)
    ensures
        widths is None ==> (r matches Ok(w) && w@ == Seq::new(
            num_cols as nat,
            |i: int| equal_share(num_cols as nat),
        )),
        widths matches Some(w) ==> widths_outcome(w@, num_cols as nat, r),
{
    match widths {
        Some(w) => parse_widths(w.as_str(), num_cols),
        None => Ok(equal_widths(num_cols)),
    }
}

/// Column names given as comma-separated text, trimmed.
pub fn parse_header_names(h: &str) -> (r: Vec<String>)
    ensures
        row_view(r@) == cells_of(h@, ","@),
{
    let v = chars_of(h);
    let comma = vec![','];
    assert(comma@ =~= ","@) by {
        reveal_strlit(",");
    }
    let n = v.len();
    assert(v@.subrange(0, n as int) =~= v@);
    cells_in(&v, 0, n, &comma)
}

/// The header and the body of a table: the given column names and every row;
/// else the first row and the rest, where there are two rows or more; else no
/// header.
pub fn split_header(data: Vec<Vec<String>>, headers: &Option<String>) -> (r: (
    Vec<String>,
    Vec<Vec<String>>,
))
    ensures
        headers matches Some(h) ==> (row_view(r.0@) == cells_of(h@, ","@) && r.1@ == data@),
        headers is None && data@.len() > 1 ==> (r.0 == data@[0] && r.1@ == data@.drop_first()),
        headers is None && data@.len() <= 1 ==> (r.0@.len() == 0 && r.1@ == data@),
{
    if let Some(h) = headers {
        (parse_header_names(h.as_str()), data)
    } else if data.len() > 1 {
        let mut rest = data;
        let first = rest.remove(0);
        assert(rest@ =~= data@.drop_first());
        (first, rest)
    } else {
        (Vec::new(), data)
    }
}

} // verus!

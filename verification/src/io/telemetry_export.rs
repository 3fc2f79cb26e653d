//! The per-country telemetry CSV files: their names, and reading one
//! column of a file back.
use vstd::prelude::*;
use crate::text::{push_char, all_ascii, str_eq, parse_u32, parsed_u32};

verus! {

/// Whether `c` is alphanumeric in Unicode's sense (the `Alphabetic` or
/// `Numeric` property), as `char::is_alphanumeric` decides it.
pub uninterp spec fn unicode_alphanumeric(c: char) -> bool;

/// Whether `c` is an ASCII letter or digit.
pub open spec fn ascii_alphanumeric(c: char) -> bool {
    ('a' <= c && c <= 'z') || ('A' <= c && c <= 'Z') || ('0' <= c && c <= '9')
}

/// `char::is_alphanumeric`: Unicode's alphanumeric property, which on
/// ASCII characters holds exactly of letters and digits.
#[verifier::external_body]
fn is_alphanumeric(c: char) -> (r: bool)
    ensures
        r == unicode_alphanumeric(c),
        (c as u32) < 128 ==> r == ascii_alphanumeric(c),
{
    c.is_alphanumeric()
}

/// The file-name character for `c`, given whether `c` is alphanumeric:
/// alphanumerics, `-` and `_` are kept, anything else becomes `_`.
pub open spec fn safe_char(c: char, alphanumeric: bool) -> char {
    if alphanumeric || c == '-' || c == '_' {
        c
    } else {
        '_'
    }
}

/// `name` with every character that is not alphanumeric, `-` or `_`
/// replaced by `_`.
pub open spec fn sanitized(name: Seq<char>) -> Seq<char> {
    name.map_values(|c: char| safe_char(c, unicode_alphanumeric(c)))
}

/// The file-name character for `c`, given whether `c` is alphanumeric.
pub fn sanitize_char(c: char, alphanumeric: bool) -> (r: char)
    ensures
        r == safe_char(c, alphanumeric),
{
    if alphanumeric || c == '-' || c == '_' {
        c
    } else {
        '_'
    }
}

/// Sanitizes a country name for use as a file name: every character that
/// is not alphanumeric, `-` or `_` becomes `_`.
pub fn sanitize_filename(name: &str) -> (r: String)
    ensures
        r@ == sanitized(name@),
        all_ascii(name@) ==> r@ == name@.map_values(|c: char| safe_char(c, ascii_alphanumeric(c))),
        forall|i: int|
            0 <= i < name@.len() && (#[trigger] name@[i] as u32) < 128 ==> r@[i] == safe_char(
                name@[i],
                ascii_alphanumeric(name@[i]),
            ),
{
    let n = name.unicode_len();
    let mut out = String::new();
    let mut k: usize = 0;
    while k < n
        invariant
            k <= n,
            n == name@.len(),
            out@ == name@.take(k as int).map_values(|c: char| safe_char(c, unicode_alphanumeric(c))),
            all_ascii(name@) ==> out@ == name@.take(k as int).map_values(|c: char| safe_char(c, ascii_alphanumeric(c))),
            forall|i: int|
                0 <= i < k && (#[trigger] name@[i] as u32) < 128 ==> out@[i] == safe_char(
                    name@[i],
                    ascii_alphanumeric(name@[i]),
                ),
        decreases n - k,
    {
        let c = name.get_char(k);
        push_char(&mut out, sanitize_char(c, is_alphanumeric(c)));
        proof {
            if all_ascii(name@) {
                assert((name@[k as int] as u32) < 128);
                assert(out@ =~= name@.take(k as int + 1).map_values(|c: char| safe_char(c, ascii_alphanumeric(c))));
            }
        }
        k = k + 1;
        assert(out@ =~= name@.take(k as int).map_values(|c: char| safe_char(c, unicode_alphanumeric(c))));
    }
    assert(name@.take(n as int) =~= name@);
    out
}

/// The telemetry file name of a country: its sanitized name followed by
/// `_macro.csv`.
pub fn telemetry_file_name(country_name: &str) -> (r: String)
    ensures
        r@ == sanitized(country_name@) + "_macro.csv"@,
{
    let mut name = sanitize_filename(country_name);
    name.append("_macro.csv");
    name
}

/// The text of a list of strings.
pub open spec fn strings_view(v: Seq<String>) -> Seq<Seq<char>> {
    v.map_values(|s: String| s@)
}

/// The text of the records of a CSV file, each read or not.
pub open spec fn records_view(v: Seq<Option<Vec<String>>>) -> Seq<Option<Seq<Seq<char>>>> {
    v.map_values(|o: Option<Vec<String>>| match o {
        Some(fields) => Some(strings_view(fields@)),
        None => None,
    })
}

/// What the `csv` crate reads from the bytes of a CSV file with a header
/// row: `None` when the header row cannot be read, otherwise its fields
/// and, for each record after it, its fields or `None` when the record
/// cannot be read.
pub uninterp spec fn csv_table(bytes: Seq<u8>) -> Option<(Seq<Seq<char>>, Seq<Option<Seq<Seq<char>>>>)>;

/// `csv::Reader::from_reader` with `Reader::headers` and
/// `Reader::records`: the header row and the records of the CSV bytes, as
/// the `csv` crate reads them (see `csv_table`).
#[verifier::external_body]
fn read_csv(bytes: &[u8]) -> (r: Option<(Vec<String>, Vec<Option<Vec<String>>>)>)
    ensures
        r is None <==> csv_table(bytes@) is None,
        r matches Some(t) ==> csv_table(bytes@) == Some((strings_view(t.0@), records_view(t.1@))),
{
    let mut reader = csv::Reader::from_reader(bytes);
    let headers: Vec<String> = match reader.headers() {
        Ok(h) => h.iter().map(|f| f.to_string()).collect(),
        Err(_) => return None,
    };
    let records = reader.records().map(|rec| rec.ok().map(|rec| rec.iter().map(|f| f.to_string()).collect())).collect();
    Some((headers, records))
}

/// The position of the first of `headers` equal to `name`, at or after `k`.
pub open spec fn header_position(headers: Seq<Seq<char>>, name: Seq<char>, k: int) -> Option<int>
    decreases headers.len() - k,
{
    if k < 0 || k >= headers.len() {
        None
    } else if headers[k] == name {
        Some(k)
    } else {
        header_position(headers, name, k + 1)
    }
}

/// The field of a record at position `i`, if the record has one.
pub open spec fn field_at(fields: Seq<Seq<char>>, i: int) -> Option<Seq<char>> {
    if 0 <= i < fields.len() { Some(fields[i]) } else { None }
}

/// The turn of a record: its turn field read as a `u32`, or 0 when the
/// field is missing or is not one.
pub open spec fn record_turn(fields: Seq<Seq<char>>, turn_index: int) -> u32 {
    match field_at(fields, turn_index) {
        Some(t) => match parsed_u32(t) {
            Some(v) => v,
            None => 0,
        },
        None => 0,
    }
}

/// For each record that could be read, in order, its turn and its field
/// at `column_index`.
pub open spec fn column_rows(records: Seq<Option<Seq<Seq<char>>>>, column_index: int, turn_index: int) -> Seq<(u32, Option<Seq<char>>)>
    decreases records.len(),
{
    if records.len() == 0 {
        Seq::empty()
    } else {
        let rest = column_rows(records.drop_last(), column_index, turn_index);
        match records.last() {
            Some(fields) => rest.push((record_turn(fields, turn_index), field_at(fields, column_index))),
            None => rest,
        }
    }
}

/// The `(turn, value)` history of `column` in a telemetry table: empty
/// without a header row, or when the header names neither `column` nor
/// `"Turn"`; otherwise the rows of the records that could be read, with
/// the turn and the column found by the first header of each name.
pub open spec fn column_of(table: Option<(Seq<Seq<char>>, Seq<Option<Seq<Seq<char>>>>)>, column: Seq<char>) -> Seq<(u32, Option<Seq<char>>)> {
    match table {
        None => Seq::empty(),
        Some((headers, records)) => match (header_position(headers, column, 0), header_position(headers, "Turn"@, 0)) {
            (Some(c), Some(t)) => column_rows(records, c, t),
            _ => Seq::empty(),
        },
    }
}

/// The text of a history of `(turn, value)` rows.
pub open spec fn rows_view(rows: Seq<(u32, Option<String>)>) -> Seq<(u32, Option<Seq<char>>)> {
    rows.map_values(|p: (u32, Option<String>)| (p.0, match p.1 {
        Some(s) => Some(s@),
        None => None,
    }))
}

fn find_header(headers: &[String], name: &str) -> (r: Option<usize>)
    ensures
        r matches Some(i) ==> header_position(strings_view(headers@), name@, 0) == Some(i as int) && i < headers@.len(),
        r is None ==> header_position(strings_view(headers@), name@, 0) is None,
{
    let ghost h = strings_view(headers@);
    let mut i: usize = 0;
    while i < headers.len()
        invariant
            i <= headers@.len(),
            h == strings_view(headers@),
            header_position(h, name@, 0) == header_position(h, name@, i as int),
        decreases headers@.len() - i,
    {
        if str_eq(headers[i].as_str(), name) {
            return Some(i);
        }
        i = i + 1;
    }
    None
}

/// The `(turn, value)` history of `column` from a table already read (see
/// `column_of`).
pub fn column_from_table(headers: &[String], records: &[Option<Vec<String>>], column: &str) -> (r: Vec<(u32, Option<String>)>)
    ensures
        rows_view(r@) == column_of(Some((strings_view(headers@), records_view(records@))), column@),
{
    let col = find_header(headers, column);
    let turn = find_header(headers, "Turn");
    let mut rows: Vec<(u32, Option<String>)> = Vec::new();
    match (col, turn) {
        (Some(c), Some(t)) => {
            let ghost recs = records_view(records@);
            let mut i: usize = 0;
            while i < records.len()
                invariant
                    i <= records@.len(),
                    recs == records_view(records@),
                    rows_view(rows@) == column_rows(recs.take(i as int), c as int, t as int),
                decreases records@.len() - i,
            {
                proof {
                    assert(recs.take(i as int + 1).drop_last() =~= recs.take(i as int));
                    assert(recs.take(i as int + 1).last() == recs[i as int]);
                }
                match &records[i] {
                    Some(fields) => {
                        let turn_value: u32 = if t < fields.len() {
                            match parse_u32(fields[t].as_str()) {
                                Some(v) => v,
                                None => 0,
                            }
                        } else {
                            0
                        };
                        let value: Option<String> = if c < fields.len() { Some(fields[c].clone()) } else { None };
                        let ghost before = rows@;
                        rows.push((turn_value, value));
                        proof {
                            let fv = strings_view(fields@);
                            assert(recs[i as int] == Some(fv));
                            assert(record_turn(fv, t as int) == turn_value);
                            assert(field_at(fv, c as int) == match value { Some(s) => Some(s@), None => None::<Seq<char>> });
                            assert(rows_view(rows@) =~= rows_view(before).push((turn_value, field_at(fv, c as int))));
                        }
                    },
                    None => {},
                }
                i = i + 1;
            }
            assert(recs.take(i as int) =~= recs);
        },
        _ => {},
    }
    rows
}

/// The `(turn, value)` history of `column` in the bytes of a telemetry
/// CSV file (see `column_of`). The values are returned as text.
pub fn telemetry_column(bytes: &[u8], column: &str) -> (r: Vec<(u32, Option<String>)>)
    ensures
        rows_view(r@) == column_of(csv_table(bytes@), column@),
{
    match read_csv(bytes) {
        None => Vec::new(),
        Some((headers, records)) => column_from_table(headers.as_slice(), records.as_slice(), column),
    }
}

} // verus!

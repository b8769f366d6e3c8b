//! The stored form of the timetable: semicolon-delimited text, one record per
//! row, written and read by the `csv` crate.
//!
//! The crate's writer and reader are trusted. What they produce is named by
//! `record_bytes` and `csv_rows`; of a record that needs no quotes the bytes
//! are stated, and so are the words of the writer's one error. The functions
//! here are proved against that. Both work on bytes in memory; reading and
//! writing the file is left to the caller.

use crate::error::TimetableError;
use crate::grid::GridView;
use crate::time::decimal_text;
use vstd::prelude::*;
use vstd::utf8::{encode_utf8, is_ascii_chars, is_ascii_chars_encode_utf8};

verus! {

/// The `csv` crate's reader, here always over a slice of bytes.
#[verifier::external_type_specification]
#[verifier::external_body]
#[verifier::reject_recursive_types(R)]
pub struct ExReader<R>(csv::Reader<R>);

/// A `csv::Writer` that collects its output in memory. It delimits fields
/// with a semicolon, writes no header of its own, and refuses a record whose
/// number of fields differs from that of the first one.
#[verifier::external_body]
pub struct RecordWriter {
    inner: csv::Writer<Vec<u8>>,
}

/// One row as the reader yields it: the fields of a record, or the words of
/// the reader's error where it reports one for the record.
pub type RowView = Result<Seq<Seq<char>>, Seq<char>>;

/// The bytes that `csv::Writer::write_record` writes for a record with
/// these fields, when fields are delimited by a semicolon: the fields,
/// quoted where needed, the delimiters between them and the terminator.
pub uninterp spec fn record_bytes(fields: Seq<Seq<char>>) -> Seq<u8>;

/// The bytes of the records written to a writer so far.
pub uninterp spec fn written(writer: RecordWriter) -> Seq<u8>;

/// The number of fields of the first record written to a writer, to which
/// it holds every later record.
pub uninterp spec fn first_width(writer: RecordWriter) -> Option<nat>;

/// What `csv::Reader::records` yields, record by record, for semicolon-
/// delimited `data` without a header row, each error as its displayed text.
pub uninterp spec fn csv_rows(data: Seq<u8>) -> Seq<RowView>;

/// What a reader has yet to yield.
pub uninterp spec fn pending(reader: csv::Reader<&[u8]>) -> Seq<RowView>;

/// Whether a character can stand in a field without quotes: it is not the
/// delimiter, the quote, a carriage return or a line feed.
pub open spec fn is_plain_char(c: char) -> bool {
    c != ';' && c != '"' && c != '\r' && c != '\n'
}

/// Whether a field is written without quotes.
pub open spec fn is_plain_field(field: Seq<char>) -> bool {
    forall|i: int| 0 <= i < field.len() ==> is_plain_char(#[trigger] field[i])
}

/// Whether a record is written as its fields and nothing more: no field
/// needs quotes, and the record is more than one empty field.
pub open spec fn is_plain_record(fields: Seq<Seq<char>>) -> bool {
    &&& fields.len() >= 2 || (fields.len() == 1 && fields[0].len() > 0)
    &&& forall|k: int| 0 <= k < fields.len() ==> is_plain_field(#[trigger] fields[k])
}

/// The first `n` fields in UTF-8, with a semicolon between neighbours.
pub open spec fn joined_fields(fields: Seq<Seq<char>>, n: int) -> Seq<u8>
    decreases n,
{
    if n <= 0 {
        Seq::empty()
    } else if n == 1 {
        encode_utf8(fields[0])
    } else {
        joined_fields(fields, n - 1) + seq![0x3Bu8] + encode_utf8(fields[n - 1])
    }
}

/// The line of a plain record: its fields joined by semicolons, then a line
/// feed.
pub open spec fn plain_line(fields: Seq<Seq<char>>) -> Seq<u8> {
    joined_fields(fields, fields.len() as int) + seq![0x0Au8]
}

/// The words of the writer's error for a record of `found` fields after a
/// first record of `expected` fields.
pub open spec fn unequal_lengths_text(expected: nat, found: nat) -> Seq<char> {
    "CSV error: found record with "@ + decimal_text(found as int)
        + " fields, but the previous record has "@ + decimal_text(expected as int) + " fields"@
}

/// The stored text of a grid: the bytes of its rows' records, in order.
pub open spec fn csv_text(grid: GridView) -> Seq<u8>
    decreases grid.len(),
{
    if grid.len() == 0 {
        Seq::empty()
    } else {
        csv_text(grid.drop_last()) + record_bytes(grid.last())
    }
}

/// Whether every row of a grid is a plain record.
pub open spec fn is_plain_grid(grid: GridView) -> bool {
    forall|r: int| 0 <= r < grid.len() ==> is_plain_record(#[trigger] grid[r])
}

/// The text of a plain grid: the lines of its rows, in order.
pub open spec fn plain_text(grid: GridView) -> Seq<u8>
    decreases grid.len(),
{
    if grid.len() == 0 {
        Seq::empty()
    } else {
        plain_text(grid.drop_last()) + plain_line(grid.last())
    }
}

/// The bytes of a text whose characters are all ASCII: one byte for each.
pub open spec fn ascii_bytes(text: Seq<char>) -> Seq<u8> {
    Seq::new(text.len(), |i: int| text[i] as u8)
}

/// The first `n` fields as text, with a semicolon between neighbours.
pub open spec fn joined_text(fields: Seq<Seq<char>>, n: int) -> Seq<char>
    decreases n,
{
    if n <= 0 {
        Seq::empty()
    } else if n == 1 {
        fields[0]
    } else {
        joined_text(fields, n - 1) + seq![';'] + fields[n - 1]
    }
}

/// The line of a record as text: its fields joined by semicolons, then a
/// line feed.
pub open spec fn line_text(fields: Seq<Seq<char>>) -> Seq<char> {
    joined_text(fields, fields.len() as int) + seq!['\n']
}

/// A grid as text: the lines of its rows, in order.
pub open spec fn grid_text(grid: GridView) -> Seq<char>
    decreases grid.len(),
{
    if grid.len() == 0 {
        Seq::empty()
    } else {
        grid_text(grid.drop_last()) + line_text(grid.last())
    }
}

/// Whether every cell of a grid holds ASCII characters only.
pub open spec fn is_ascii_grid(grid: GridView) -> bool {
    forall|r: int, k: int|
        0 <= r < grid.len() && 0 <= k < grid[r].len() ==> is_ascii_chars(#[trigger] grid[r][k])
}

/// The fields of an ASCII record, joined in UTF-8, are the bytes of the
/// fields joined as text.
proof fn lemma_ascii_joined(fields: Seq<Seq<char>>, n: int)
    requires
        0 <= n <= fields.len(),
        forall|k: int| 0 <= k < fields.len() ==> is_ascii_chars(#[trigger] fields[k]),
    ensures
        joined_fields(fields, n) == ascii_bytes(joined_text(fields, n)),
    decreases n,
{
    if n >= 1 {
        let last = fields[n - 1];
        is_ascii_chars_encode_utf8(last);
        assert(encode_utf8(last) =~= ascii_bytes(last));
        if n >= 2 {
            lemma_ascii_joined(fields, n - 1);
            assert(ascii_bytes(joined_text(fields, n - 1) + seq![';'] + last) =~= ascii_bytes(
                joined_text(fields, n - 1),
            ) + seq![0x3Bu8] + ascii_bytes(last));
        }
    } else {
        assert(joined_fields(fields, n) =~= ascii_bytes(joined_text(fields, n)));
    }
}

/// The lines of an ASCII grid are the bytes of the grid as text: its cells
/// joined by semicolons, one line per row.
pub proof fn lemma_ascii_text(grid: GridView)
    requires
        is_ascii_grid(grid),
    ensures
        plain_text(grid) == ascii_bytes(grid_text(grid)),
    decreases grid.len(),
{
    if grid.len() > 0 {
        let rest = grid.drop_last();
        let row = grid.last();
        assert(is_ascii_grid(rest)) by {
            assert forall|r: int, k: int| 0 <= r < rest.len() && 0 <= k < rest[r].len() implies is_ascii_chars(
                #[trigger] rest[r][k],
            ) by {
                assert(rest[r] == grid[r]);
            }
        }
        lemma_ascii_text(rest);
        assert forall|k: int| 0 <= k < row.len() implies is_ascii_chars(#[trigger] row[k]) by {
            assert(row == grid[grid.len() - 1]);
        }
        lemma_ascii_joined(row, row.len() as int);
        assert(plain_line(row) =~= ascii_bytes(line_text(row)));
        assert(ascii_bytes(grid_text(rest) + line_text(row)) =~= ascii_bytes(grid_text(rest))
            + ascii_bytes(line_text(row)));
    } else {
        assert(plain_text(grid) =~= ascii_bytes(grid_text(grid)));
    }
}

/// Whether every row has as many cells as the first.
pub open spec fn is_rectangular(grid: GridView) -> bool {
    forall|r: int| 0 <= r < grid.len() ==> (#[trigger] grid[r]).len() == grid[0].len()
}

/// Whether `r` is the first row with another number of cells than row 0.
pub open spec fn is_first_odd_row(grid: GridView, r: int) -> bool {
    &&& 0 < r < grid.len()
    &&& grid[r].len() != grid[0].len()
    &&& forall|k: int| 0 <= k < r ==> (#[trigger] grid[k]).len() == grid[0].len()
}

/// Whether all rows that were read have the same number of fields.
pub open spec fn equal_widths(rows: Seq<RowView>) -> bool {
    forall|i: int, j: int|
        0 <= i < rows.len() && 0 <= j < rows.len() && (#[trigger] rows[i]) is Ok && (
        #[trigger] rows[j]) is Ok ==> rows[i]->Ok_0.len() == rows[j]->Ok_0.len()
}

/// Whether `r` is the first row that the reader reports an error for.
pub open spec fn is_first_fault(rows: Seq<RowView>, r: int) -> bool {
    &&& 0 <= r < rows.len()
    &&& rows[r] is Err
    &&& forall|k: int| 0 <= k < r ==> (#[trigger] rows[k]) is Ok
}

/// The grid made of rows that were all read.
pub open spec fn grid_of(rows: Seq<RowView>) -> GridView {
    Seq::new(rows.len(), |r: int| rows[r]->Ok_0)
}

/// The grid that stored text holds, or, where the reader reports an error
/// for one of its records, the words of the first such error.
pub open spec fn stored_grid(data: Seq<u8>) -> Result<GridView, Seq<char>> {
    let rows = csv_rows(data);
    if exists|r: int| is_first_fault(rows, r) {
        Err(rows[choose|r: int| is_first_fault(rows, r)]->Err_0)
    } else {
        Ok(grid_of(rows))
    }
}

/// Makes a writer by `csv::WriterBuilder::from_writer` on an empty vector,
/// with the delimiter set to a semicolon and headers switched off. Nothing
/// is written yet, and no record has fixed the number of fields.
#[verifier::external_body]
fn new_writer() -> (writer: RecordWriter)
    ensures
        written(writer) == Seq::<u8>::empty(),
        first_width(writer) is None,
{
    RecordWriter {
        inner: csv::WriterBuilder::new().has_headers(false).delimiter(b';').from_writer(Vec::new()),
    }
}

/// Writes one record by `csv::Writer::write_record` and hands the writer
/// back. The call fails only where the record has another number of fields
/// than the first record written, since a vector takes every write; the
/// writer is then given up and the error comes as its displayed text, which
/// names the two numbers. Otherwise the record's bytes follow what was
/// written before, and the first record fixes the number of fields. A record
/// none of whose fields needs quotes is written as its fields with
/// semicolons between them and a line feed behind.
#[verifier::external_body]
fn write_row(writer: RecordWriter, row: &Vec<String>) -> (result: Result<RecordWriter, String>)
    ensures
        match result {
            Ok(after) => {
                &&& first_width(writer) is None || first_width(writer) == Some(row.len() as nat)
                &&& first_width(after) == Some(row.len() as nat)
                &&& written(after) == written(writer) + record_bytes(row.deep_view())
                &&& is_plain_record(row.deep_view()) ==> record_bytes(row.deep_view())
                    == plain_line(row.deep_view())
            },
            Err(text) => {
                &&& first_width(writer) matches Some(expected)
                &&& expected != row.len()
                &&& text@ == unequal_lengths_text(expected, row.len() as nat)
            },
        },
{
    let mut writer = writer;
    match writer.inner.write_record(row) {
        Ok(()) => Ok(writer),
        Err(error) => Err(error.to_string()),
    }
}

/// Takes the bytes out of a writer by `csv::Writer::into_inner`, which
/// flushes the writer's buffer into the vector; a vector takes every write,
/// so the bytes always come.
#[verifier::external_body]
fn into_bytes(writer: RecordWriter) -> (data: Option<Vec<u8>>)
    ensures
        data is Some,
        data.unwrap()@ == written(writer),
{
    writer.inner.into_inner().ok()
}

/// Makes a reader by `csv::ReaderBuilder::from_reader` on `data`, with the
/// delimiter set to a semicolon and the first record read as data. It has
/// yet to yield every row of `data`. The reader holds every record to the
/// number of fields of the first one, so the rows it reads all have the
/// same number of fields.
#[verifier::external_body]
fn open_reader<'a>(data: &'a [u8]) -> (reader: csv::Reader<&'a [u8]>)
    ensures
        pending(reader) == csv_rows(data@),
        equal_widths(pending(reader)),
{
    csv::ReaderBuilder::new().has_headers(false).delimiter(b';').from_reader(data)
}

/// Takes the next item of `csv::Reader::records`: nothing at the end of the
/// data, else the first row that was pending, as its fields or as the
/// displayed text of the reader's error, and that row is no longer pending.
#[verifier::external_body]
fn next_row(reader: &mut csv::Reader<&[u8]>) -> (row: Option<Result<Vec<String>, String>>)
    ensures
        match row {
            None => pending(*old(reader)).len() == 0 && pending(*final(reader)) == pending(
                *old(reader),
            ),
            Some(item) => {
                &&& pending(*old(reader)).len() > 0
                &&& pending(*final(reader)) == pending(*old(reader)).skip(1)
                &&& pending(*old(reader))[0] == match item {
                    Ok(fields) => RowView::Ok(fields.deep_view()),
                    Err(text) => RowView::Err(text@),
                }
            },
        },
{
    Some(match reader.records().next()? {
        Ok(record) => Ok(record.iter().map(|field| field.to_string()).collect()),
        Err(error) => Err(error.to_string()),
    })
}

/// Writes a grid as stored text.
///
/// Every row becomes one record. The writer takes the grid only if all rows
/// have as many cells as the first; otherwise nothing is returned but the
/// writer's error for the first row of another length. A grid of plain
/// records is stored as the lines of its rows.
pub fn save_timetable(timetable: Vec<Vec<String>>) -> (result: Result<Vec<u8>, TimetableError>)
    ensures
        match result {
            Ok(data) => {
                &&& is_rectangular(timetable.deep_view())
                &&& data@ == csv_text(timetable.deep_view())
                &&& is_plain_grid(timetable.deep_view()) ==> data@ == plain_text(
                    timetable.deep_view(),
                )
            },
            Err(error) => {
                &&& !is_rectangular(timetable.deep_view())
                &&& error is Write
                &&& exists|r: int|
                    is_first_odd_row(timetable.deep_view(), r) && error.explanation()
                        == unequal_lengths_text(
                        timetable.deep_view()[0].len(),
                        (#[trigger] timetable.deep_view()[r]).len(),
                    )
            },
        },
{
    let ghost grid = timetable.deep_view();
    let mut writer = new_writer();
    let mut r: usize = 0;
    while r < timetable.len()
        invariant
            r <= timetable.len(),
            grid == timetable.deep_view(),
            is_rectangular(grid.take(r as int)),
            written(writer) == csv_text(grid.take(r as int)),
            is_plain_grid(grid.take(r as int)) ==> csv_text(grid.take(r as int)) == plain_text(
                grid.take(r as int),
            ),
            r == 0 ==> first_width(writer) is None,
            r > 0 ==> first_width(writer) == Some(grid[0].len()),
        decreases timetable.len() - r,
    {
        let ghost seen = grid.take(r as int);
        let ghost next = grid.take(r + 1);
        assert(next.drop_last() =~= seen);
        match write_row(writer, &timetable[r]) {
            Ok(after) => {
                writer = after;
            },
            Err(text) => {
                assert(is_first_odd_row(grid, r as int)) by {
                    assert forall|k: int| 0 <= k < r implies (#[trigger] grid[k]).len()
                        == grid[0].len() by {
                        assert(seen[k] == grid[k]);
                    }
                }
                return Err(TimetableError::Write(text));
            },
        }
        proof {
            if is_plain_grid(next) {
                assert forall|k: int| 0 <= k < seen.len() implies is_plain_record(
                    #[trigger] seen[k],
                ) by {
                    assert(seen[k] == next[k]);
                }
            }
        }
        r += 1;
    }
    assert(grid.take(r as int) =~= grid);
    match into_bytes(writer) {
        Some(data) => Ok(data),
        None => unreached(),
    }
}

/// Reads a grid from stored text.
///
/// Every record becomes one row, in order, and all rows have the same
/// number of cells. The first record that the reader reports an error for
/// ends the reading: the text is then not a table, and the error carries
/// the reader's words.
pub fn load_timetable(data: &[u8]) -> (result: Result<Vec<Vec<String>>, TimetableError>)
    ensures
        match result {
            Ok(timetable) => {
                &&& stored_grid(data@) == Ok::<GridView, Seq<char>>(timetable.deep_view())
                &&& is_rectangular(timetable.deep_view())
            },
            Err(error) => {
                &&& error is Parse
                &&& stored_grid(data@) == Err::<GridView, Seq<char>>(error.explanation())
            },
        },
{
    let ghost rows = csv_rows(data@);
    let mut reader = open_reader(data);
    let mut timetable: Vec<Vec<String>> = Vec::new();
    loop
        invariant
            rows == csv_rows(data@),
            equal_widths(rows),
            timetable.len() + pending(reader).len() == rows.len(),
            pending(reader) == rows.skip(timetable.len() as int),
            forall|r: int|
                0 <= r < timetable.len() ==> rows[r] == RowView::Ok(
                    (#[trigger] timetable[r]).deep_view(),
                ),
        decreases pending(reader).len(),
    {
        match next_row(&mut reader) {
            None => {
                assert forall|r: int| 0 <= r < rows.len() implies (#[trigger] rows[r]) is Ok by {
                    assert(rows[r] == RowView::Ok(timetable[r].deep_view()));
                }
                assert(timetable.deep_view() =~= grid_of(rows));
                assert(is_rectangular(timetable.deep_view())) by {
                    assert forall|r: int| 0 <= r < timetable.len() implies (
                    #[trigger] timetable.deep_view()[r]).len() == timetable.deep_view()[0].len() by {
                        assert(rows[r] is Ok && rows[0] is Ok);
                    }
                }
                return Ok(timetable);
            },
            Some(Ok(row)) => {
                timetable.push(row);
            },
            Some(Err(text)) => {
                let ghost at = timetable.len() as int;
                assert(is_first_fault(rows, at)) by {
                    assert forall|k: int| 0 <= k < at implies (#[trigger] rows[k]) is Ok by {
                        assert(rows[k] == RowView::Ok(timetable[k].deep_view()));
                    }
                }
                return Err(TimetableError::Parse(text));
            },
        }
    }
}

} // verus!

//! Loading of the dataset: delimited text with a header row, five pollutant
//! readings and one category name per row.

use crate::error::ErrorKind;
use crate::label::{label_from_text, label_of};
use crate::text::{trim, trimmed};
use vstd::prelude::*;
use vstd::string::StringExecFns;

verus! {

/// Number of pollutant readings in a row: PM10, SO2, CO, O3, NO2.
pub const READINGS: usize = 5;

/// Number of fields that a row must at least have: the readings and the
/// category name.
pub const FIELDS: usize = 6;

/// The error of the `csv` crate. Nothing is read from it: every error of
/// the reader counts as malformed text.
#[verifier::external_type_specification]
#[verifier::external_body]
pub struct ExCsvError(csv::Error);

/// The data records that the `csv` crate's reader finds in `data`, each as
/// its fields in order, when it is set up to skip a header row and is
/// otherwise left at its defaults; `None` when the reader reports an error.
pub uninterp spec fn csv_records(data: Seq<u8>) -> Option<Seq<Seq<Seq<char>>>>;

/// Reads all records of `data` with `csv::Reader::records`, the reader built
/// by `csv::ReaderBuilder` with `has_headers(true)`. The result is the
/// reader's: its records field by field, or its first error.
#[verifier::external_body]
fn read_records(data: &[u8]) -> (r: Result<Vec<Vec<String>>, csv::Error>)
    ensures
        match r {
            Ok(rows) => csv_records(data@) == Some(rows.deep_view()),
            Err(_) => csv_records(data@) is None,
        },
{
    let mut reader = csv::ReaderBuilder::new().has_headers(true).from_reader(data);
    let mut rows: Vec<Vec<String>> = Vec::new();
    for record in reader.records() {
        rows.push(record?.iter().map(|field| field.to_string()).collect());
    }
    Ok(rows)
}

/// One row of the dataset after loading.
#[derive(Debug)]
pub struct Record {
    /// The five readings as written in the file, without surrounding blanks.
    pub readings: Vec<String>,
    /// The label of the row's category.
    pub label: usize,
}

/// `record` is what the row with the fields `row` loads as.
pub open spec fn loads_as(row: Seq<Seq<char>>, record: Record) -> bool {
    &&& record.readings.deep_view() == Seq::new(READINGS as nat, |j: int| trimmed(row[j]))
    &&& record.label == label_of(trimmed(row[READINGS as int]))
}

/// Every row has the readings and the category field.
pub open spec fn rows_complete(rows: Seq<Seq<Seq<char>>>) -> bool {
    forall|i: int| 0 <= i < rows.len() ==> (#[trigger] rows[i]).len() >= FIELDS
}

/// `records` holds what `rows` load as, one record per row, in row order.
pub open spec fn are_records_of(rows: Seq<Seq<Seq<char>>>, records: Seq<Record>) -> bool {
    &&& records.len() == rows.len()
    &&& forall|i: int| 0 <= i < rows.len() ==> loads_as(rows[i], #[trigger] records[i])
}

/// What loading `rows` results in: their records, or `Parse` when a row is
/// too short. What the fields hold never makes loading fail.
pub open spec fn is_loaded(rows: Seq<Seq<Seq<char>>>, r: Result<Vec<Record>, ErrorKind>) -> bool {
    if rows_complete(rows) {
        r is Ok && are_records_of(rows, r->Ok_0@)
    } else {
        r == Err::<Vec<Record>, ErrorKind>(ErrorKind::Parse)
    }
}

/// Loads one row that has at least `FIELDS` fields.
fn load_row(row: &Vec<String>) -> (record: Record)
    requires
        row.len() >= FIELDS,
    ensures
        loads_as(row.deep_view(), record),
{
    let mut readings: Vec<String> = Vec::new();
    let mut j: usize = 0;
    while j < READINGS
        invariant
            j <= READINGS,
            row.len() >= FIELDS,
            readings.len() == j,
            forall|t: int| 0 <= t < j ==> (#[trigger] readings[t])@ == trimmed(row[t]@),
        decreases READINGS - j,
    {
        readings.push(String::from_str(trim(row[j].as_str())));
        j += 1;
    }
    let label = label_from_text(row[READINGS].as_str());
    assert(readings.deep_view() =~= Seq::new(
        READINGS as nat,
        |j: int| trimmed(row.deep_view()[j]),
    ));
    Record { readings, label }
}

/// Turns raw rows into records: the first five fields become the readings,
/// the sixth the label. Fails with `Parse` when a row has fewer than six
/// fields, and on no other input.
pub fn load_rows(rows: &Vec<Vec<String>>) -> (r: Result<Vec<Record>, ErrorKind>)
    ensures
        is_loaded(rows.deep_view(), r),
{
    let mut records: Vec<Record> = Vec::new();
    let mut i: usize = 0;
    while i < rows.len()
        invariant
            i <= rows.len(),
            records.len() == i,
            rows_complete(rows.deep_view().take(i as int)),
            forall|t: int| 0 <= t < i ==> loads_as(rows.deep_view()[t], #[trigger] records[t]),
        decreases rows.len() - i,
    {
        if rows[i].len() < FIELDS {
            assert(rows.deep_view()[i as int].len() < FIELDS);
            return Err(ErrorKind::Parse);
        }
        records.push(load_row(&rows[i]));
        i += 1;
        assert forall|t: int| 0 <= t < rows.deep_view().take(i as int).len() implies (
        #[trigger] rows.deep_view().take(i as int)[t]).len() >= FIELDS by {
            if t < i - 1 {
                assert(rows.deep_view().take(i as int)[t] == rows.deep_view().take(i - 1)[t]);
            }
        }
    }
    assert(rows.deep_view().take(i as int) =~= rows.deep_view());
    Ok(records)
}

/// Loads a dataset from the bytes of its file. Fails with `Parse` when the
/// text is not well-formed or a row has fewer than six fields.
pub fn parse_dataset(data: &[u8]) -> (r: Result<Vec<Record>, ErrorKind>)
    ensures
        match csv_records(data@) {
            Some(rows) => is_loaded(rows, r),
            None => r == Err::<Vec<Record>, ErrorKind>(ErrorKind::Parse),
        },
{
    match read_records(data) {
        Ok(rows) => load_rows(&rows),
        Err(_) => Err(ErrorKind::Parse),
    }
}

} // verus!

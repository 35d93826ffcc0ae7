//! Reading and writing CSV text through the csv crate.
use vstd::prelude::*;

verus! {

/// The error type of the csv crate, carried as an opaque value.
#[verifier::external_type_specification]
#[verifier::external_body]
pub struct ExCsvError(csv::Error);

/// The first `max` records of the CSV text `b`, each a sequence of fields,
/// with the header row counted as a record; records may differ in length.
/// `None` where reading them fails (a field that is not UTF-8, say).
pub uninterp spec fn csv_records_of(b: Seq<u8>, max: nat) -> Option<Seq<Seq<Seq<char>>>>;

/// The CSV text of `rows`, one line per row; `None` where writing fails.
pub uninterp spec fn csv_text_of(rows: Seq<Seq<Seq<char>>>) -> Option<Seq<u8>>;

/// Relies on csv's `Reader` (default settings but for `has_headers(false)`
/// and `flexible(true)`, so that a record of another length than the first is
/// read as it stands rather than refused) and its `records` iterator: which
/// records come out, or whether reading fails, depends on the bytes alone.
#[verifier::external_body]
pub(crate) fn read_csv(bytes: &Vec<u8>, max_records: usize) -> (r: Result<Vec<Vec<String>>, csv::Error>)
    ensures
        match r {
            Ok(rows) => csv_records_of(bytes@, max_records as nat) == Some(rows.deep_view()),
            Err(_) => csv_records_of(bytes@, max_records as nat) is None,
        },
{
    let mut reader = csv::ReaderBuilder::new().has_headers(false).flexible(true).from_reader(bytes.as_slice());
    reader.records().take(max_records).map(
        |rec| rec.map(|fields| fields.iter().map(|f| f.to_string()).collect()),
    ).collect()
}

/// Relies on csv's `Writer` (default settings) over a `Vec<u8>`, with
/// `write_record` for each row and `into_inner`: the bytes written, or
/// whether writing fails, depend on the rows alone.
#[verifier::external_body]
pub(crate) fn write_csv(rows: &Vec<Vec<String>>) -> (r: Result<Vec<u8>, csv::Error>)
    ensures
        match r {
            Ok(b) => csv_text_of(rows.deep_view()) == Some(b@),
            Err(_) => csv_text_of(rows.deep_view()) is None,
        },
{
    let mut writer = csv::Writer::from_writer(Vec::new());
    for row in rows.iter() {
        writer.write_record(row)?;
    }
    writer.into_inner().map_err(|e| csv::Error::from(e.into_error()))
}

} // verus!

//! Reading delimited records out of bytes, which the `csv` crate does.
use vstd::prelude::*;

verus! {

/// The error that the `csv` crate returns where bytes cannot be read as records.
#[verifier::external_type_specification]
#[verifier::external_body]
pub struct ExCsvError(csv::Error);

/// The rows that a `csv` reader with the given field delimiter and otherwise default settings
/// finds in `data`, each row as its fields in order; `None` where the reader fails on `data`.
/// With those settings the reader takes the first record for a header and leaves it out.
pub uninterp spec fn delimited_records(data: Seq<u8>, delimiter: u8) -> Option<Seq<Seq<Seq<char>>>>;

/// Runs `csv::ReaderBuilder::new().delimiter(delimiter).from_reader(data)` and collects what
/// its `records()` yields, up to the first error. The reader works on the bytes alone, so equal
/// bytes give equal rows: the contract only names that result, and says nothing of how the
/// crate's rules of quoting and line ends cut the bytes into rows and fields.
#[verifier::external_body]
pub(crate) fn read_records(data: &[u8], delimiter: u8) -> (res: Result<
    Vec<Vec<String>>,
    csv::Error,
>)
    ensures
        match res {
            Ok(rows) => delimited_records(data@, delimiter) == Some(rows.deep_view()),
            Err(_) => delimited_records(data@, delimiter) is None,
        },
{
    let mut reader = csv::ReaderBuilder::new().delimiter(delimiter).from_reader(data);
    let mut rows: Vec<Vec<String>> = Vec::new();
    for record in reader.records() {
        rows.push(record?.iter().map(String::from).collect());
    }
    Ok(rows)
}

} // verus!

//! The catalogs that the dispatcher and the stores are started with: text in
//! comma-separated records, taken apart by the `csv` crate.

use vstd::prelude::*;

verus! {

/// The error of the `csv` crate.
#[verifier::external_type_specification]
#[verifier::external_body]
pub struct ExCsvError(csv::Error);

/// What a `csv` reader with the default settings makes of `data`: the records
/// after the header, each as its fields, up to the first record that it
/// cannot read; and whether such a record ended the reading.
pub uninterp spec fn csv_records(data: Seq<u8>) -> (Seq<Seq<Seq<char>>>, bool);

/// `csv::Reader::records` on a reader that `csv::ReaderBuilder::new` builds
/// over `data`. Trusted: what comes back is what the crate makes of these
/// bytes, whatever that is; the contract only gives it a name. The records are
/// those that the reader yields before its first error, and the error is that
/// one.
#[verifier::external_body]
pub(crate) fn read_records(data: &Vec<u8>) -> (read: (Vec<Vec<String>>, Option<csv::Error>))
    ensures
        (read.0.deep_view(), read.1 is Some) == csv_records(data@),
{
    let mut reader = csv::ReaderBuilder::new().from_reader(data.as_slice());
    let mut records: Vec<Vec<String>> = Vec::new();
    for result in reader.records() {
        match result {
            Ok(record) => records.push(record.iter().map(String::from).collect()),
            Err(error) => return (records, Some(error)),
        }
    }
    (records, None)
}

} // verus!

//! Tables of comma-separated values, split into rows and fields by the
//! `csv` crate.

use vstd::prelude::*;

verus! {

/// The error of the `csv` crate. Nothing is known of its values.
#[verifier::external_type_specification]
#[verifier::external_body]
pub struct ExCsvError(csv::Error);

/// The header row and the records that the `csv` crate finds in `text`, each
/// row as its fields, or nothing where it refuses the text.
pub uninterp spec fn csv_table(text: Seq<u8>) -> Option<(Seq<Seq<u8>>, Seq<Seq<Seq<u8>>>)>;

/// Splits `text` into its header row and its records.
///
/// Calls `csv::Reader::from_reader` on the bytes, then `headers` and
/// `records` of the reader, with the crate's default settings. The contract
/// claims one thing of them: what they give depends on the bytes alone. It
/// says nothing of how the crate splits a text, nor of which texts it
/// refuses.
#[verifier::external_body]
pub(crate) fn read_table(text: &[u8]) -> (r: Result<(Vec<Vec<u8>>, Vec<Vec<Vec<u8>>>), csv::Error>)
    ensures
        match r {
            Ok((header, records)) => csv_table(text@) == Some(
                (header.deep_view(), records.deep_view()),
            ),
            Err(_) => csv_table(text@) is None,
        },
{
    let mut reader = csv::Reader::from_reader(text);
    let header = reader.headers()?.iter().map(|f| f.as_bytes().to_vec()).collect();
    let mut records = Vec::new();
    for record in reader.records() {
        records.push(record?.iter().map(|f| f.as_bytes().to_vec()).collect());
    }
    Ok((header, records))
}

} // verus!

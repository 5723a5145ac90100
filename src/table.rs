use vstd::prelude::*;

verus! {

/// The header row that the csv crate reads from `bytes`, if it can be read.
pub uninterp spec fn csv_header_of(bytes: Seq<u8>) -> Option<Seq<Seq<char>>>;

/// The data records that the csv crate reads from `bytes` after the header:
/// each one's fields, or `None` where that record could not be read.
pub uninterp spec fn csv_records_of(bytes: Seq<u8>) -> Seq<Option<Seq<Seq<char>>>>;

/// Relies on csv::Reader::headers, on a reader built with `has_headers(true)`:
/// the fields of the first row, or an error.
#[verifier::external_body]
pub(crate) fn read_header(bytes: &[u8]) -> (r: Option<Vec<String>>)
    ensures
        r.deep_view() == csv_header_of(bytes@),
{
    let mut reader = csv::ReaderBuilder::new().has_headers(true).from_reader(bytes);
    match reader.headers() {
        Ok(h) => Some(h.iter().map(String::from).collect()),
        Err(_) => None,
    }
}

/// Relies on csv::Reader::records, on a reader built with `has_headers(true)`:
/// each data record in file order, or an error in its place.
#[verifier::external_body]
pub(crate) fn read_records(bytes: &[u8]) -> (r: Vec<Option<Vec<String>>>)
    ensures
        r.deep_view() == csv_records_of(bytes@),
{
    let mut reader = csv::ReaderBuilder::new().has_headers(true).from_reader(bytes);
    reader.records().map(|rec| rec.ok().map(|x| x.iter().map(String::from).collect())).collect()
}

} // verus!

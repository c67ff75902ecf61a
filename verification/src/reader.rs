//! The record reader of the `csv` crate, as the conversions use it.
//!
//! Nothing in this file is proved: the contracts below say what the rest of
//! the library takes the reader to do. A reader is seen as what it has still
//! to hand out: a run of records, and behind them either the end of the
//! input or a failure. What the reader makes of given bytes is not spelled
//! out here; it only has a name.

use crate::render::fields_view;
use vstd::prelude::*;

verus! {

/// Why the reader gave up on an input: its message, and the line and the
/// record at which it stopped, where it knows them.
pub struct ParseFailure {
    pub message: Seq<char>,
    pub place: Option<(u64, u64)>,
}

/// What the reader makes of an input: the records it hands out, first to
/// last, and the failure that follows the last of them, if one does.
pub struct Parsed {
    pub records: Seq<Seq<Seq<char>>>,
    pub failure: Option<ParseFailure>,
}

/// `csv::Error`, carried from the reader to the place where it is turned
/// into an error of the library. Nothing is known of what it holds but its
/// text and its place, which have names below.
#[verifier::external_type_specification]
#[verifier::external_body]
pub struct ExCsvError(csv::Error);

/// `csv::Reader`, known only by what it has still to hand out.
#[verifier::external_type_specification]
#[verifier::external_body]
#[verifier::reject_recursive_types(R)]
pub struct ExCsvReader<R>(csv::Reader<R>);

/// What a reader with the given delimiter and the given tolerance for
/// ragged records makes of `data`, with or without taking the first record
/// away as a header row.
pub uninterp spec fn csv_parse(
    data: Seq<u8>,
    delimiter: u8,
    flexible: bool,
    has_headers: bool,
) -> Parsed;

/// What a reader has still to hand out.
pub uninterp spec fn reader_pending(reader: csv::Reader<&[u8]>) -> Parsed;

/// The text that `csv::Error` displays.
pub uninterp spec fn csv_error_text(err: csv::Error) -> Seq<char>;

/// The line and the record that `csv::Error::position` reports.
pub uninterp spec fn csv_error_place(err: csv::Error) -> Option<(u64, u64)>;

/// The failure that an error of the reader stands for.
pub open spec fn failure_of(err: csv::Error) -> ParseFailure {
    ParseFailure { message: csv_error_text(err), place: csv_error_place(err) }
}

/// `csv::ReaderBuilder::from_reader` on a byte slice, after the builder's
/// `has_headers`, `flexible` and `delimiter`. The new reader has the whole
/// parse of `data` before it.
#[verifier::external_body]
pub(crate) fn open_reader<'a>(
    data: &'a [u8],
    delimiter: u8,
    flexible: bool,
    has_headers: bool,
) -> (reader: csv::Reader<&'a [u8]>)
    ensures
        reader_pending(reader) == csv_parse(data@, delimiter, flexible, has_headers),
{
    csv::ReaderBuilder::new().has_headers(has_headers).flexible(flexible).delimiter(delimiter)
        .from_reader(data)
}

/// One step of the iterator that `csv::Reader::records` gives. A record is
/// handed out, its fields as strings, while there is one; then comes the
/// failure, if the parse has one; a parse that ends without failure yields
/// `None` from then on. Nothing is said of a reader that has failed.
#[verifier::external_body]
pub(crate) fn next_record(reader: &mut csv::Reader<&[u8]>) -> (step: Result<
    Option<Vec<String>>,
    csv::Error,
>)
    ensures
        match step {
            Ok(Some(fields)) => {
                &&& reader_pending(*old(reader)).records.len() > 0
                &&& fields_view(fields@) == reader_pending(*old(reader)).records[0]
                &&& reader_pending(*final(reader)).records == reader_pending(
                    *old(reader),
                ).records.drop_first()
                &&& reader_pending(*final(reader)).failure == reader_pending(*old(reader)).failure
            },
            Ok(None) => {
                &&& reader_pending(*old(reader)).records.len() == 0
                &&& reader_pending(*old(reader)).failure is None
                &&& reader_pending(*final(reader)) == reader_pending(*old(reader))
            },
            Err(err) => {
                &&& reader_pending(*old(reader)).records.len() == 0
                &&& reader_pending(*old(reader)).failure == Some(failure_of(err))
            },
        },
{
    match reader.records().next() {
        Some(Ok(record)) => Ok(Some(record.iter().map(String::from).collect())),
        Some(Err(err)) => Err(err),
        None => Ok(None),
    }
}

/// The text that `csv::Error` displays, through its `to_string`.
#[verifier::external_body]
pub(crate) fn error_message(err: &csv::Error) -> (text: String)
    ensures
        text@ == csv_error_text(*err),
{
    err.to_string()
}

/// `csv::Error::position`, reduced to the line and the record of the
/// position, where the error has one.
#[verifier::external_body]
pub(crate) fn error_position(err: &csv::Error) -> (place: Option<(u64, u64)>)
    ensures
        place == csv_error_place(*err),
{
    match err.position() {
        Some(position) => Some((position.line(), position.record())),
        None => None,
    }
}

} // verus!

//! The conversions: four ways to come by the width of the table before its
//! first row is written.

use crate::config::Config;
use crate::error::{CsvMdError, Result};
use crate::reader::{
    csv_parse, failure_of, next_record, open_reader, reader_pending, ParseFailure, Parsed,
};
use crate::render::{fields_view, rows_view};
use crate::scanner::{estimated_width, lemma_run_in_parts, ColumnScanner};
use crate::table::{
    escape_fields, escape_record, escape_records, lemma_table_text_grows, markdown_table,
    max_columns, record_lines, render_table, table_text, widen, RowWriter,
};
use crate::text::lemma_encode_concat;
use vstd::prelude::*;
use vstd::slice::{slice_subrange, slice_to_vec};
use vstd::utf8::*;

verus! {

/// What the record reader makes of an input under the given settings. The
/// reader is told of no header row: the first record is a record like the
/// others, and the header row is the table's affair. An input without
/// bytes holds no record, and the reader is not asked.
pub open spec fn parse(data: Seq<u8>, config: Config) -> Parsed {
    if data.len() == 0 {
        Parsed { records: Seq::empty(), failure: None }
    } else {
        csv_parse(data, config.delimiter, config.flexible, false)
    }
}

/// What a conversion owes its caller: the failure of the record reader where
/// it has one, and else the table of the records, as wide as the longest.
pub open spec fn conversion(data: Seq<u8>, config: Config) -> core::result::Result<
    Seq<char>,
    ParseFailure,
> {
    let parsed = parse(data, config);
    match parsed.failure {
        Some(failure) => Err(failure),
        None => Ok(markdown_table(parsed.records, config)),
    }
}

/// Reads a reader to its end and returns the length of its longest record.
fn widest_record(reader: &mut csv::Reader<&[u8]>) -> (outcome: core::result::Result<
    usize,
    csv::Error,
>)
    ensures
        match outcome {
            Ok(width) => {
                &&& reader_pending(*old(reader)).failure is None
                &&& width == max_columns(reader_pending(*old(reader)).records)
            },
            Err(err) => reader_pending(*old(reader)).failure == Some(failure_of(err)),
        },
{
    let ghost all = reader_pending(*reader).records;
    let ghost mut seen: int = 0;
    let mut width: usize = 0;
    loop
        invariant
            0 <= seen <= all.len(),
            reader_pending(*reader).records == all.skip(seen),
            reader_pending(*reader).failure == reader_pending(*old(reader)).failure,
            all == reader_pending(*old(reader)).records,
            width == max_columns(all.take(seen)),
        decreases all.len() - seen,
    {
        match next_record(reader) {
            Ok(Some(fields)) => {
                proof {
                    assert(all.skip(seen)[0] == all[seen]);
                    assert(all.skip(seen).drop_first() =~= all.skip(seen + 1));
                    assert(all.take(seen + 1).drop_last() =~= all.take(seen));
                    assert(all.take(seen + 1).last() == all[seen]);
                    assert(fields_view(fields@).len() == fields@.len());
                    seen = seen + 1;
                }
                width = widen(width, fields.len());
            },
            Ok(None) => {
                proof {
                    assert(all.take(seen) =~= all);
                }
                return Ok(width);
            },
            Err(err) => {
                return Err(err);
            },
        }
    }
}

/// Reads a reader to its end and appends to a byte sink the lines of each
/// record, in a table of `width` columns. What was written before a failure
/// stays written.
fn write_records(
    reader: &mut csv::Reader<&[u8]>,
    output: &mut Vec<u8>,
    width: usize,
    config: &Config,
) -> (outcome: core::result::Result<(), csv::Error>)
    ensures
        final(output)@ == old(output)@ + encode_utf8(
            table_text(
                reader_pending(*old(reader)).records,
                width as nat,
                config.has_headers,
                config.header_alignment,
            ),
        ),
        match outcome {
            Ok(()) => reader_pending(*old(reader)).failure is None,
            Err(err) => reader_pending(*old(reader)).failure == Some(failure_of(err)),
        },
{
    let ghost all = reader_pending(*reader).records;
    let ghost before = output@;
    let ghost mut seen: int = 0;
    let mut writer = RowWriter::new(width);
    loop
        invariant
            0 <= seen <= all.len(),
            reader_pending(*reader).records == all.skip(seen),
            reader_pending(*reader).failure == reader_pending(*old(reader)).failure,
            all == reader_pending(*old(reader)).records,
            writer.width == width,
            writer.at_first_row <==> seen == 0,
            before == old(output)@,
            output@ == before + encode_utf8(
                table_text(
                    all.take(seen),
                    width as nat,
                    config.has_headers,
                    config.header_alignment,
                ),
            ),
        decreases all.len() - seen,
    {
        match next_record(reader) {
            Ok(Some(fields)) => {
                let ghost first = writer.at_first_row;
                writer.write_record(output, fields.as_slice(), config);
                proof {
                    assert(all.skip(seen)[0] == all[seen]);
                    assert(all.skip(seen).drop_first() =~= all.skip(seen + 1));
                    lemma_table_text_grows(
                        all,
                        seen,
                        width as nat,
                        config.has_headers,
                        config.header_alignment,
                    );
                    lemma_encode_concat(
                        table_text(
                            all.take(seen),
                            width as nat,
                            config.has_headers,
                            config.header_alignment,
                        ),
                        record_lines(
                            all[seen],
                            width as nat,
                            first,
                            config.has_headers,
                            config.header_alignment,
                        ),
                    );
                    seen = seen + 1;
                }
            },
            Ok(None) => {
                proof {
                    assert(all.take(seen) =~= all);
                }
                return Ok(());
            },
            Err(err) => {
                proof {
                    assert(all.take(seen) =~= all);
                }
                return Err(err);
            },
        }
    }
}

/// Converts delimiter-separated data to a Markdown table, as a string.
///
/// Every record is read and kept, escaped, before the first row is
/// rendered. The result is the table of all records, or the failure of the
/// record reader.
pub fn csv_to_markdown(input: &[u8], config: Config) -> (outcome: Result<String>)
    ensures
        match conversion(input@, config) {
            Ok(text) => outcome matches Ok(table) && table@ == text,
            Err(failure) => outcome matches Err(error) && error.reports(failure),
        },
{
    if input.len() == 0 {
        return Ok(String::new());
    }
    let mut reader = open_reader(input, config.delimiter, config.flexible, false);
    let ghost all = reader_pending(reader).records;
    let ghost mut seen: int = 0;
    let mut records: Vec<Vec<String>> = Vec::new();
    let mut max_cols: usize = 0;
    loop
        invariant
            0 <= seen <= all.len(),
            reader_pending(reader).records == all.skip(seen),
            reader_pending(reader).failure == parse(input@, config).failure,
            all == parse(input@, config).records,
            records@.len() == seen,
            forall|j: int|
                0 <= j < seen ==> fields_view((#[trigger] records@[j])@) == escape_fields(all[j]),
            max_cols == max_columns(all.take(seen)),
        ensures
            seen == all.len(),
            parse(input@, config).failure is None,
        decreases all.len() - seen,
    {
        match next_record(&mut reader) {
            Ok(Some(fields)) => {
                let row = escape_record(fields.as_slice());
                proof {
                    assert(all.skip(seen)[0] == all[seen]);
                    assert(all.skip(seen).drop_first() =~= all.skip(seen + 1));
                    assert(all.take(seen + 1).drop_last() =~= all.take(seen));
                    assert(all.take(seen + 1).last() == all[seen]);
                    assert(fields_view(row@).len() == row@.len());
                    assert(escape_fields(all[seen]).len() == all[seen].len());
                    seen = seen + 1;
                }
                max_cols = widen(max_cols, row.len());
                records.push(row);
            },
            Ok(None) => {
                break ;
            },
            Err(err) => {
                return Err(CsvMdError::from_csv(err));
            },
        }
    }
    proof {
        assert(all.take(seen) =~= all);
        assert(rows_view(records@) =~= escape_records(all));
    }
    if records.len() == 0 {
        return Ok(String::new());
    }
    Ok(render_table(records.as_slice(), max_cols, &config))
}

/// Writes the table of an input that can be read twice: one reading finds
/// the width, the next one writes the rows. Nothing is written unless the
/// first reading came to its end without failure.
fn write_in_two_passes(input: &[u8], output: &mut Vec<u8>, config: &Config) -> (outcome:
    Result<()>)
    ensures
        match conversion(input@, *config) {
            Ok(text) => outcome is Ok && final(output)@ == old(output)@ + encode_utf8(text),
            Err(failure) => {
                &&& outcome matches Err(error) && error.reports(failure)
                &&& final(output)@ == old(output)@
            },
        },
{
    if input.len() == 0 {
        proof {
            assert(encode_utf8(Seq::<char>::empty()) =~= Seq::<u8>::empty());
            assert(output@ + Seq::<u8>::empty() =~= output@);
        }
        return Ok(());
    }
    let mut first_pass = open_reader(input, config.delimiter, config.flexible, false);
    let width = match widest_record(&mut first_pass) {
        Ok(width) => width,
        Err(err) => {
            return Err(CsvMdError::from_csv(err));
        },
    };
    let mut second_pass = open_reader(input, config.delimiter, config.flexible, false);
    match write_records(&mut second_pass, output, width, config) {
        Ok(()) => Ok(()),
        Err(err) => Err(CsvMdError::from_csv(err)),
    }
}

/// Converts delimiter-separated data to a Markdown table and appends the
/// table to `output`, for an input that cannot be read a second time.
///
/// The input is first copied into a buffer of the conversion's own. The
/// buffer is read once for the width of the table and once more for its
/// rows, so that only one record is held at a time. On a failure of the
/// record reader nothing is written.
pub fn csv_to_markdown_streaming(input: &[u8], output: &mut Vec<u8>, config: Config) -> (outcome:
    Result<()>)
    ensures
        match conversion(input@, config) {
            Ok(text) => outcome is Ok && final(output)@ == old(output)@ + encode_utf8(text),
            Err(failure) => {
                &&& outcome matches Err(error) && error.reports(failure)
                &&& final(output)@ == old(output)@
            },
        },
{
    let buffer = slice_to_vec(input);
    write_in_two_passes(buffer.as_slice(), output, &config)
}

/// Converts delimiter-separated data to a Markdown table and appends the
/// table to `output`, for an input that can be read again from its start.
///
/// The input is read in place, once for the width of the table and once
/// more for its rows; no copy of it is made, and only one record is held at
/// a time. On a failure of the record reader nothing is written.
pub fn csv_to_markdown_streaming_seekable(
    input: &[u8],
    output: &mut Vec<u8>,
    config: Config,
) -> (outcome: Result<()>)
    ensures
        match conversion(input@, config) {
            Ok(text) => outcome is Ok && final(output)@ == old(output)@ + encode_utf8(text),
            Err(failure) => {
                &&& outcome matches Err(error) && error.reports(failure)
                &&& final(output)@ == old(output)@
            },
        },
{
    write_in_two_passes(input, output, &config)
}

/// The table that the chunked conversion writes: the records of the input
/// in a table as wide as the scanner estimates.
pub open spec fn chunked_table(data: Seq<u8>, config: Config) -> Seq<char> {
    table_text(
        parse(data, config).records,
        estimated_width(data, config.delimiter) as nat,
        config.has_headers,
        config.header_alignment,
    )
}

/// Copies the input into a spill buffer, `chunk_size` bytes at a time, and
/// lets a scanner look at each chunk on its way. Returns the buffer and the
/// width that the scanner estimates.
fn spill_and_scan(input: &[u8], delimiter: u8, chunk_size: usize) -> (spilled: (Vec<u8>, usize))
    requires
        chunk_size > 0,
    ensures
        spilled.0@ == input@,
        spilled.1 == estimated_width(input@, delimiter),
{
    let mut spill: Vec<u8> = Vec::new();
    let mut scanner = ColumnScanner::new(delimiter);
    let mut offset: usize = 0;
    while offset < input.len()
        invariant
            chunk_size > 0,
            offset <= input.len(),
            spill@ == input@.take(offset as int),
            scanner == ColumnScanner::start(delimiter).run(input@.take(offset as int)),
        decreases input.len() - offset,
    {
        let end = if input.len() - offset > chunk_size {
            offset + chunk_size
        } else {
            input.len()
        };
        let chunk = slice_subrange(input, offset, end);
        spill.extend_from_slice(chunk);
        scanner.feed(chunk);
        proof {
            assert(input@.take(end as int) =~= input@.take(offset as int) + chunk@);
            assert(spill@ =~= input@.take(end as int));
            lemma_run_in_parts(
                ColumnScanner::start(delimiter),
                input@.take(offset as int),
                chunk@,
            );
        }
        offset = end;
    }
    proof {
        assert(input@.take(input.len() as int) =~= input@);
    }
    (spill, scanner.estimated_columns())
}

/// Converts delimiter-separated data to a Markdown table and appends the
/// table to `output`, for an input too large to be read as a whole.
///
/// The input is taken `chunk_size` bytes at a time. Each chunk goes to a
/// spill buffer, and a scanner estimates from it how wide the table will
/// be. The spill buffer is then read record by record, and each record is
/// written as a row of the estimated width. The size of the chunks has no
/// influence on what is written.
///
/// The rows of the records that precede a failure of the record reader are
/// written before the failure is returned.
pub fn csv_to_markdown_streaming_chunked(
    input: &[u8],
    output: &mut Vec<u8>,
    config: Config,
    chunk_size: usize,
) -> (outcome: Result<()>)
    requires
        chunk_size > 0,
    ensures
        final(output)@ == old(output)@ + encode_utf8(chunked_table(input@, config)),
        match parse(input@, config).failure {
            None => outcome is Ok,
            Some(failure) => outcome matches Err(error) && error.reports(failure),
        },
{
    if input.len() == 0 {
        proof {
            assert(encode_utf8(Seq::<char>::empty()) =~= Seq::<u8>::empty());
            assert(output@ + Seq::<u8>::empty() =~= output@);
        }
        return Ok(());
    }
    let (spill, width) = spill_and_scan(input, config.delimiter, chunk_size);
    let mut reader = open_reader(spill.as_slice(), config.delimiter, config.flexible, false);
    match write_records(&mut reader, output, width, &config) {
        Ok(()) => Ok(()),
        Err(err) => Err(CsvMdError::from_csv(err)),
    }
}

/// An input without records makes an empty table with every conversion,
/// whatever the settings: the conversion to a string returns the empty
/// string, and the others append nothing.
pub proof fn lemma_no_records_no_output(data: Seq<u8>, config: Config)
    requires
        parse(data, config).records.len() == 0,
        parse(data, config).failure is None,
    ensures
        conversion(data, config) == Ok::<Seq<char>, ParseFailure>(Seq::empty()),
        encode_utf8(chunked_table(data, config)) == Seq::<u8>::empty(),
{
    assert(escape_records(parse(data, config).records) =~= Seq::<Seq<Seq<char>>>::empty());
}

/// An input without bytes has no records and no failure.
pub proof fn lemma_empty_input(config: Config)
    ensures
        conversion(Seq::empty(), config) == Ok::<Seq<char>, ParseFailure>(Seq::empty()),
        encode_utf8(chunked_table(Seq::empty(), config)) == Seq::<u8>::empty(),
{
    lemma_no_records_no_output(Seq::empty(), config);
}

/// The four conversions write the same table.
///
/// Full materialization returns the text of `conversion`, and both two-pass
/// conversions append its UTF-8 bytes; this is what their contracts say.
/// The chunked conversion appends the bytes of `chunked_table`, which is the
/// same text on every input on which the scanner's estimate is the length of
/// the longest record.
pub proof fn lemma_conversions_agree(data: Seq<u8>, config: Config)
    requires
        parse(data, config).failure is None,
        estimated_width(data, config.delimiter) == max_columns(parse(data, config).records),
    ensures
        conversion(data, config) == Ok::<Seq<char>, ParseFailure>(chunked_table(data, config)),
{
}

} // verus!

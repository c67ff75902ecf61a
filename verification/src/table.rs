//! The table as a whole: its width, its text, and the lines that each
//! record contributes to it.

use crate::config::{Config, HeaderAlignment};
use crate::escape::{escape_markdown_cell, escape_text};
use crate::render::{
    fields_view, row_text, rows_view, separator_text, write_header_separator,
    write_header_separator_to_writer, write_table_row, write_table_row_to_writer,
};
use crate::size::estimate_output_size;
use crate::text::lemma_encode_concat;
use vstd::prelude::*;
use vstd::utf8::*;

verus! {

/// The lines that one row of cells contributes: the row itself, and after
/// the first row of a table with a header row, the separator line.
pub open spec fn row_lines(
    cells: Seq<Seq<char>>,
    width: nat,
    first: bool,
    has_headers: bool,
    alignment: HeaderAlignment,
) -> Seq<char> {
    row_text(cells, width) + if first && has_headers {
        separator_text(width, alignment)
    } else {
        Seq::empty()
    }
}

/// The lines of a table of `width` columns whose rows hold the given cells,
/// in the order of the rows.
pub open spec fn lines_text(
    rows: Seq<Seq<Seq<char>>>,
    width: nat,
    has_headers: bool,
    alignment: HeaderAlignment,
) -> Seq<char>
    decreases rows.len(),
{
    if rows.len() == 0 {
        Seq::empty()
    } else {
        lines_text(rows.drop_last(), width, has_headers, alignment) + row_lines(
            rows.last(),
            width,
            rows.len() == 1,
            has_headers,
            alignment,
        )
    }
}

/// The given rows alone, one after the other, without a separator line.
pub open spec fn plain_rows_text(rows: Seq<Seq<Seq<char>>>, width: nat) -> Seq<char>
    decreases rows.len(),
{
    if rows.len() == 0 {
        Seq::empty()
    } else {
        plain_rows_text(rows.drop_last(), width) + row_text(rows.last(), width)
    }
}

/// The number of columns of the table: the length of the longest record, or
/// zero where there is no record.
pub open spec fn max_columns(records: Seq<Seq<Seq<char>>>) -> nat
    decreases records.len(),
{
    if records.len() == 0 {
        0
    } else {
        let before = max_columns(records.drop_last());
        if records.last().len() > before {
            records.last().len()
        } else {
            before
        }
    }
}

/// The fields of a record, each escaped for its cell.
pub open spec fn escape_fields(fields: Seq<Seq<char>>) -> Seq<Seq<char>> {
    Seq::new(fields.len(), |i: int| escape_text(fields[i]))
}

/// The records of an input, each with its fields escaped.
pub open spec fn escape_records(records: Seq<Seq<Seq<char>>>) -> Seq<Seq<Seq<char>>> {
    Seq::new(records.len(), |i: int| escape_fields(records[i]))
}

/// The lines that one record contributes: the row of its escaped fields,
/// and after the first record of a table with a header row, the separator
/// line.
pub open spec fn record_lines(
    fields: Seq<Seq<char>>,
    width: nat,
    first: bool,
    has_headers: bool,
    alignment: HeaderAlignment,
) -> Seq<char> {
    row_lines(escape_fields(fields), width, first, has_headers, alignment)
}

/// The text of a table of `width` columns made of the given records: the
/// lines of the records, fields escaped, in the order of the records.
pub open spec fn table_text(
    records: Seq<Seq<Seq<char>>>,
    width: nat,
    has_headers: bool,
    alignment: HeaderAlignment,
) -> Seq<char> {
    lines_text(escape_records(records), width, has_headers, alignment)
}

/// The Markdown table of the given records: as wide as the longest of them.
pub open spec fn markdown_table(records: Seq<Seq<Seq<char>>>, config: Config) -> Seq<char> {
    table_text(records, max_columns(records), config.has_headers, config.header_alignment)
}

/// The table of the first `count + 1` records is the table of the first
/// `count` records followed by the lines of the next one.
pub proof fn lemma_table_text_grows(
    records: Seq<Seq<Seq<char>>>,
    count: int,
    width: nat,
    has_headers: bool,
    alignment: HeaderAlignment,
)
    requires
        0 <= count < records.len(),
    ensures
        table_text(records.take(count + 1), width, has_headers, alignment) == table_text(
            records.take(count),
            width,
            has_headers,
            alignment,
        ) + record_lines(records[count], width, count == 0, has_headers, alignment),
{
    let longer = escape_records(records.take(count + 1));
    assert(longer.drop_last() =~= escape_records(records.take(count)));
    assert(longer.last() == escape_fields(records[count]));
}

/// No record is longer than the table is wide.
pub proof fn lemma_max_columns_bounds(records: Seq<Seq<Seq<char>>>, i: int)
    requires
        0 <= i < records.len(),
    ensures
        records[i].len() <= max_columns(records),
    decreases records.len(),
{
    if i < records.len() - 1 {
        lemma_max_columns_bounds(records.drop_last(), i);
    }
}

/// Where there is a record at all, one of them is exactly as long as the
/// table is wide.
pub proof fn lemma_max_columns_attained(records: Seq<Seq<Seq<char>>>) -> (i: int)
    requires
        records.len() > 0,
    ensures
        0 <= i < records.len(),
        records[i].len() == max_columns(records),
    decreases records.len(),
{
    if records.len() == 1 {
        assert(max_columns(records.drop_last()) == 0);
        0
    } else if records.last().len() > max_columns(records.drop_last()) {
        records.len() - 1
    } else {
        lemma_max_columns_attained(records.drop_last())
    }
}

/// The width of a table is the greatest length among its records: no
/// record is longer, and unless the table is empty, one is that long. A
/// table without records has no columns.
pub proof fn lemma_max_columns_is_maximum(records: Seq<Seq<Seq<char>>>)
    ensures
        forall|i: int|
            0 <= i < records.len() ==> (#[trigger] records[i]).len() <= max_columns(records),
        records.len() > 0 ==> exists|i: int|
            0 <= i < records.len() && (#[trigger] records[i]).len() == max_columns(records),
        records.len() == 0 ==> max_columns(records) == 0,
{
    assert forall|i: int| 0 <= i < records.len() implies (#[trigger] records[i]).len()
        <= max_columns(records) by {
        lemma_max_columns_bounds(records, i);
    }
    if records.len() > 0 {
        let i = lemma_max_columns_attained(records);
        assert(records[i].len() == max_columns(records));
    }
}

/// A table without records is the empty text, whatever the settings.
pub proof fn lemma_empty_table(config: Config)
    ensures
        markdown_table(Seq::empty(), config) == Seq::<char>::empty(),
{
    assert(escape_records(Seq::empty()) =~= Seq::<Seq<Seq<char>>>::empty());
}

/// The lines of a table with at least one row are its first row, then the
/// separator line if the table has a header row, then the other rows.
pub proof fn lemma_lines_after_first_row(
    rows: Seq<Seq<Seq<char>>>,
    width: nat,
    has_headers: bool,
    alignment: HeaderAlignment,
)
    requires
        rows.len() > 0,
    ensures
        lines_text(rows, width, has_headers, alignment) == row_lines(
            rows[0],
            width,
            true,
            has_headers,
            alignment,
        ) + plain_rows_text(rows.drop_first(), width),
    decreases rows.len(),
{
    let head = row_lines(rows[0], width, true, has_headers, alignment);
    if rows.len() == 1 {
        assert(lines_text(rows.drop_last(), width, has_headers, alignment) =~= Seq::empty());
        assert(plain_rows_text(rows.drop_first(), width) =~= Seq::empty());
        assert(lines_text(rows, width, has_headers, alignment) =~= head);
        assert(head + plain_rows_text(rows.drop_first(), width) =~= head);
    } else {
        let init = rows.drop_last();
        lemma_lines_after_first_row(init, width, has_headers, alignment);
        assert(init[0] == rows[0]);
        assert(rows.drop_first().drop_last() =~= init.drop_first());
        assert(rows.drop_first().last() == rows.last());
        let last_row = row_text(rows.last(), width);
        assert(row_lines(rows.last(), width, false, has_headers, alignment) =~= last_row);
        assert(lines_text(rows, width, has_headers, alignment) =~= (head + plain_rows_text(
            init.drop_first(),
            width,
        )) + last_row);
        assert(plain_rows_text(rows.drop_first(), width) =~= plain_rows_text(
            init.drop_first(),
            width,
        ) + last_row);
    }
}

/// The separator line stands directly after the first row where the table
/// has a header row, and nowhere in a table that has none: the text of a
/// table with at least one record is the row of its first record, then the
/// separator line if and only if the table has a header row, then the rows
/// of the other records and nothing else.
pub proof fn lemma_separator_follows_first_row(
    records: Seq<Seq<Seq<char>>>,
    width: nat,
    has_headers: bool,
    alignment: HeaderAlignment,
)
    requires
        records.len() > 0,
    ensures
        table_text(records, width, has_headers, alignment) == row_text(
            escape_fields(records[0]),
            width,
        ) + (if has_headers {
            separator_text(width, alignment)
        } else {
            Seq::empty()
        }) + plain_rows_text(escape_records(records.drop_first()), width),
{
    let rows = escape_records(records);
    lemma_lines_after_first_row(rows, width, has_headers, alignment);
    assert(rows.drop_first() =~= escape_records(records.drop_first()));
}

/// Widens a table for one more record: the greater of the width so far and
/// the length of the record.
pub fn widen(width: usize, record_len: usize) -> (widened: usize)
    ensures
        widened == if record_len > width {
            record_len
        } else {
            width
        },
{
    if record_len > width {
        record_len
    } else {
        width
    }
}

/// Escapes each field of a record.
pub fn escape_record(fields: &[String]) -> (cells: Vec<String>)
    ensures
        fields_view(cells@) == escape_fields(fields_view(fields@)),
{
    let mut cells: Vec<String> = Vec::new();
    let mut i: usize = 0;
    while i < fields.len()
        invariant
            i <= fields.len(),
            cells@.len() == i,
            forall|j: int| 0 <= j < i ==> (#[trigger] cells@[j])@ == escape_text(fields@[j]@),
        decreases fields.len() - i,
    {
        cells.push(escape_markdown_cell(fields[i].as_str()));
        i = i + 1;
    }
    assert(fields_view(cells@) =~= escape_fields(fields_view(fields@)));
    cells
}

/// Renders rows of cells as a table of `max_cols` columns. The cells are
/// written as they are; the separator line follows the first row where the
/// settings say that the table has a header row.
pub fn render_table(rows: &[Vec<String>], max_cols: usize, config: &Config) -> (table: String)
    ensures
        table@ == lines_text(
            rows_view(rows@),
            max_cols as nat,
            config.has_headers,
            config.header_alignment,
        ),
{
    let ghost texts = rows_view(rows@);
    let estimated_size = estimate_output_size(rows, max_cols);
    let mut output = if estimated_size <= usize::MAX / 2 {
        String::with_capacity(estimated_size)
    } else {
        String::new()
    };
    let mut i: usize = 0;
    while i < rows.len()
        invariant
            i <= rows.len(),
            texts == rows_view(rows@),
            output@ == lines_text(
                texts.take(i as int),
                max_cols as nat,
                config.has_headers,
                config.header_alignment,
            ),
        decreases rows.len() - i,
    {
        write_table_row(&mut output, rows[i].as_slice(), max_cols);
        if i == 0 && config.has_headers {
            write_header_separator(&mut output, max_cols, config.header_alignment);
        }
        proof {
            assert(texts.take(i + 1).drop_last() =~= texts.take(i as int));
            assert(texts.take(i + 1).last() == fields_view(rows@[i as int]@));
            assert(output@ =~= lines_text(
                texts.take(i as int),
                max_cols as nat,
                config.has_headers,
                config.header_alignment,
            ) + row_lines(
                fields_view(rows@[i as int]@),
                max_cols as nat,
                i == 0,
                config.has_headers,
                config.header_alignment,
            ));
        }
        i = i + 1;
    }
    proof {
        assert(texts.take(rows.len() as int) =~= texts);
    }
    output
}

/// Appends to a byte sink the lines that one record contributes to a table
/// of `width` columns: the row of its escaped fields, and the separator
/// line where `first` says that this is the first record and the table has
/// a header row.
pub fn write_record_to_writer(
    output: &mut Vec<u8>,
    record: &[String],
    width: usize,
    first: bool,
    config: &Config,
)
    ensures
        final(output)@ == old(output)@ + encode_utf8(
            record_lines(
                fields_view(record@),
                width as nat,
                first,
                config.has_headers,
                config.header_alignment,
            ),
        ),
{
    let cells = escape_record(record);
    write_table_row_to_writer(output, cells.as_slice(), width);
    if first && config.has_headers {
        write_header_separator_to_writer(output, width, config.header_alignment);
        proof {
            lemma_encode_concat(
                row_text(fields_view(cells@), width as nat),
                separator_text(width as nat, config.header_alignment),
            );
        }
        assert(output@ =~= old(output)@ + (encode_utf8(row_text(fields_view(cells@), width as nat))
            + encode_utf8(separator_text(width as nat, config.header_alignment))));
    } else {
        assert(row_text(fields_view(cells@), width as nat) + Seq::<char>::empty() =~= row_text(
            fields_view(cells@),
            width as nat,
        ));
    }
}

/// The writer of a table whose width is known: it takes the records one
/// by one and knows whether the next one is the first.
#[derive(Debug, Clone, Copy)]
pub struct RowWriter {
    /// The number of columns of the table.
    pub width: usize,
    /// Whether no record has been written yet.
    pub at_first_row: bool,
}

impl RowWriter {
    /// A writer for a table of `width` columns, before its first row.
    pub fn new(width: usize) -> (writer: RowWriter)
        ensures
            writer.width == width,
            writer.at_first_row,
    {
        RowWriter { width, at_first_row: true }
    }

    /// Appends the lines of the next record to a byte sink: its row, and
    /// the separator line if this is the first record and the table has a
    /// header row.
    pub fn write_record(&mut self, output: &mut Vec<u8>, record: &[String], config: &Config)
        ensures
            final(output)@ == old(output)@ + encode_utf8(
                record_lines(
                    fields_view(record@),
                    old(self).width as nat,
                    old(self).at_first_row,
                    config.has_headers,
                    config.header_alignment,
                ),
            ),
            final(self).width == old(self).width,
            !final(self).at_first_row,
    {
        write_record_to_writer(output, record, self.width, self.at_first_row, config);
        self.at_first_row = false;
    }
}

} // verus!

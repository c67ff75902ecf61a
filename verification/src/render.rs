//! Rendering of single table lines: a row of cells, and the separator line
//! that follows a header row.

use crate::config::HeaderAlignment;
use crate::text::{lemma_encode_concat, push_text};
use vstd::prelude::*;
use vstd::string::*;
use vstd::utf8::*;

verus! {

/// The fields of a record as texts.
pub open spec fn fields_view(fields: Seq<String>) -> Seq<Seq<char>> {
    Seq::new(fields.len(), |i: int| fields[i]@)
}

/// The rows of a table as texts.
pub open spec fn rows_view(rows: Seq<Vec<String>>) -> Seq<Seq<Seq<char>>> {
    Seq::new(rows.len(), |i: int| fields_view(rows[i]@))
}

/// The content of the cell in column `i`: the field at that index, or
/// nothing where the record is too short to have one.
pub open spec fn cell_at(fields: Seq<Seq<char>>, i: int) -> Seq<char> {
    if 0 <= i < fields.len() {
        fields[i]
    } else {
        Seq::empty()
    }
}

/// The first `count` cells of a row, each a space, the content, a space and
/// a closing pipe.
pub open spec fn cells_text(fields: Seq<Seq<char>>, count: nat) -> Seq<char>
    decreases count,
{
    if count == 0 {
        Seq::empty()
    } else {
        cells_text(fields, (count - 1) as nat) + seq![' '] + cell_at(fields, count - 1) + seq![
            ' ',
            '|',
        ]
    }
}

/// One table row of exactly `width` cells: an opening pipe, the cells, and a
/// line feed.
pub open spec fn row_text(fields: Seq<Seq<char>>, width: nat) -> Seq<char> {
    seq!['|'] + cells_text(fields, width) + seq!['\n']
}

/// The marker cell of one column in the separator line.
pub open spec fn marker_text(alignment: HeaderAlignment) -> Seq<char> {
    match alignment {
        HeaderAlignment::Left => seq![' ', '-', '-', '-', ' ', '|'],
        HeaderAlignment::Center => seq![' ', ':', '-', '-', '-', ':', ' ', '|'],
        HeaderAlignment::Right => seq![' ', '-', '-', '-', ':', ' ', '|'],
    }
}

/// `count` marker cells in a row.
pub open spec fn markers_text(alignment: HeaderAlignment, count: nat) -> Seq<char>
    decreases count,
{
    if count == 0 {
        Seq::empty()
    } else {
        markers_text(alignment, (count - 1) as nat) + marker_text(alignment)
    }
}

/// The separator line of a table of `width` columns.
pub open spec fn separator_text(width: nat, alignment: HeaderAlignment) -> Seq<char> {
    seq!['|'] + markers_text(alignment, width) + seq!['\n']
}

/// The marker cell as a string.
fn marker(alignment: HeaderAlignment) -> (text: &'static str)
    ensures
        text@ == marker_text(alignment),
{
    proof {
        reveal_strlit(" --- |");
        reveal_strlit(" :---: |");
        reveal_strlit(" ---: |");
    }
    let text = match alignment {
        HeaderAlignment::Left => " --- |",
        HeaderAlignment::Center => " :---: |",
        HeaderAlignment::Right => " ---: |",
    };
    assert(text@ =~= marker_text(alignment));
    text
}

/// Appends one table row of `max_cols` cells to a string. The fields are
/// written as they are; a row shorter than `max_cols` is filled up with
/// empty cells.
pub fn write_table_row(output: &mut String, row: &[String], max_cols: usize)
    ensures
        final(output)@ == old(output)@ + row_text(fields_view(row@), max_cols as nat),
{
    let ghost before = output@;
    let ghost fields = fields_view(row@);
    output.push('|');
    let mut i: usize = 0;
    while i < max_cols
        invariant
            i <= max_cols,
            fields == fields_view(row@),
            output@ == before + seq!['|'] + cells_text(fields, i as nat),
        decreases max_cols - i,
    {
        output.push(' ');
        if i < row.len() {
            output.append(row[i].as_str());
        }
        output.push(' ');
        output.push('|');
        i = i + 1;
        assert(output@ =~= before + seq!['|'] + cells_text(fields, i as nat));
    }
    output.push('\n');
    assert(output@ =~= before + row_text(fields, max_cols as nat));
}

/// Appends the UTF-8 bytes of one table row of `max_cols` cells to a byte
/// sink.
pub fn write_table_row_to_writer(output: &mut Vec<u8>, row: &[String], max_cols: usize)
    ensures
        final(output)@ == old(output)@ + encode_utf8(
            row_text(fields_view(row@), max_cols as nat),
        ),
{
    let ghost before = output@;
    let ghost fields = fields_view(row@);
    let ghost mut written: Seq<char> = seq!['|'];
    proof {
        reveal_strlit("|");
        reveal_strlit(" ");
        reveal_strlit(" |");
        reveal_strlit("\n");
        assert("|"@ =~= seq!['|']);
    }
    push_text(output, "|");
    let mut i: usize = 0;
    while i < max_cols
        invariant
            i <= max_cols,
            fields == fields_view(row@),
            written == seq!['|'] + cells_text(fields, i as nat),
            output@ == before + encode_utf8(written),
            " "@ == seq![' '],
            " |"@ == seq![' ', '|'],
        decreases max_cols - i,
    {
        push_text(output, " ");
        proof {
            lemma_encode_concat(written, " "@);
            written = written + " "@;
        }
        if i < row.len() {
            push_text(output, row[i].as_str());
            proof {
                lemma_encode_concat(written, row[i as int]@);
                written = written + row[i as int]@;
            }
        }
        push_text(output, " |");
        proof {
            lemma_encode_concat(written, " |"@);
            written = written + " |"@;
        }
        i = i + 1;
        assert(written =~= seq!['|'] + cells_text(fields, i as nat));
    }
    push_text(output, "\n");
    proof {
        assert("\n"@ =~= seq!['\n']);
        lemma_encode_concat(written, "\n"@);
        assert(written + "\n"@ =~= row_text(fields, max_cols as nat));
    }
}

/// Appends the separator line of a table of `max_cols` columns to a string.
pub fn write_header_separator(output: &mut String, max_cols: usize, alignment: HeaderAlignment)
    ensures
        final(output)@ == old(output)@ + separator_text(max_cols as nat, alignment),
{
    let ghost before = output@;
    output.push('|');
    let separator = marker(alignment);
    let mut i: usize = 0;
    while i < max_cols
        invariant
            i <= max_cols,
            separator@ == marker_text(alignment),
            output@ == before + seq!['|'] + markers_text(alignment, i as nat),
        decreases max_cols - i,
    {
        output.append(separator);
        i = i + 1;
        assert(output@ =~= before + seq!['|'] + markers_text(alignment, i as nat));
    }
    output.push('\n');
    assert(output@ =~= before + separator_text(max_cols as nat, alignment));
}

/// Appends the UTF-8 bytes of the separator line of a table of `max_cols`
/// columns to a byte sink.
pub fn write_header_separator_to_writer(
    output: &mut Vec<u8>,
    max_cols: usize,
    alignment: HeaderAlignment,
)
    ensures
        final(output)@ == old(output)@ + encode_utf8(separator_text(max_cols as nat, alignment)),
{
    let ghost before = output@;
    let ghost mut written: Seq<char> = seq!['|'];
    proof {
        reveal_strlit("|");
        reveal_strlit("\n");
        assert("|"@ =~= seq!['|']);
    }
    push_text(output, "|");
    let separator = marker(alignment);
    let mut i: usize = 0;
    while i < max_cols
        invariant
            i <= max_cols,
            separator@ == marker_text(alignment),
            written == seq!['|'] + markers_text(alignment, i as nat),
            output@ == before + encode_utf8(written),
        decreases max_cols - i,
    {
        push_text(output, separator);
        proof {
            lemma_encode_concat(written, separator@);
            written = written + separator@;
        }
        i = i + 1;
        assert(written =~= seq!['|'] + markers_text(alignment, i as nat));
    }
    push_text(output, "\n");
    proof {
        assert("\n"@ =~= seq!['\n']);
        lemma_encode_concat(written, "\n"@);
        assert(written + "\n"@ =~= separator_text(max_cols as nat, alignment));
    }
}

} // verus!

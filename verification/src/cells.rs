//! Counting the cells of a rendered line.
//!
//! A pipe closes a cell unless a backslash stands directly before it. The
//! lemmas here show that every line of a table of some width, be it a row
//! or the separator line, has exactly that many cells, whatever the fields
//! hold.

use crate::config::HeaderAlignment;
use crate::escape::{escape_text, lemma_escaped_pipes};
use crate::render::{
    cell_at, cells_text, marker_text, markers_text, row_text, separator_text,
};
use crate::table::{escape_fields, max_columns};
use vstd::prelude::*;

verus! {

/// Whether the last character of a text is a pipe with no backslash
/// directly before it.
pub open spec fn ends_with_border(text: Seq<char>) -> bool {
    &&& text.len() > 0
    &&& text.last() == '|'
    &&& (text.len() == 1 || text[text.len() - 2] != '\\')
}

/// The number of pipes in a text that have no backslash directly before
/// them.
pub open spec fn border_count(text: Seq<char>) -> nat
    decreases text.len(),
{
    if text.len() == 0 {
        0
    } else {
        border_count(text.drop_last()) + if ends_with_border(text) {
            1nat
        } else {
            0nat
        }
    }
}

/// The number of cells of a line: each border but the opening one closes a
/// cell.
pub open spec fn cell_count(line: Seq<char>) -> int {
    border_count(line) - 1
}

/// Whether every pipe of a text has a backslash directly before it, inside
/// the text.
pub open spec fn pipes_escaped(text: Seq<char>) -> bool {
    forall|i: int|
        0 <= i < text.len() && #[trigger] text[i] == '|' ==> i > 0 && text[i - 1] == '\\'
}

/// A text whose pipes are all escaped adds no border to what it is
/// appended to.
proof fn lemma_append_escaped(head: Seq<char>, text: Seq<char>)
    requires
        pipes_escaped(text),
    ensures
        border_count(head + text) == border_count(head),
    decreases text.len(),
{
    if text.len() == 0 {
        assert(head + text =~= head);
    } else {
        let shorter = text.drop_last();
        assert(pipes_escaped(shorter)) by {
            assert forall|i: int| 0 <= i < shorter.len() && #[trigger] shorter[i] == '|' implies i > 0
                && shorter[i - 1] == '\\' by {
                assert(text[i] == '|');
            }
        }
        lemma_append_escaped(head, shorter);
        let whole = head + text;
        assert(whole.drop_last() =~= head + shorter);
        if whole.last() == '|' {
            let i = text.len() - 1;
            assert(text[i] == '|');
            assert(i > 0 && text[i - 1] == '\\');
            assert(whole[whole.len() - 2] == text[i - 1]);
        }
    }
}

/// A space and a pipe, appended to any text, add one border.
proof fn lemma_append_closing(head: Seq<char>)
    ensures
        border_count(head + seq![' ', '|']) == border_count(head) + 1,
{
    let spaced = head + seq![' '];
    let whole = head + seq![' ', '|'];
    assert(whole.drop_last() =~= spaced);
    assert(spaced.drop_last() =~= head);
    assert(spaced.last() == ' ');
    assert(whole.last() == '|');
    assert(whole[whole.len() - 2] == ' ');
    assert(!ends_with_border(spaced));
    assert(ends_with_border(whole));
    assert(border_count(spaced) == border_count(head));
    assert(border_count(whole) == border_count(spaced) + 1);
}

/// The pipe that opens a line is one border.
proof fn lemma_opening_border()
    ensures
        border_count(seq!['|']) == 1,
{
    let opening = seq!['|'];
    assert(opening.len() == 1);
    assert(opening.last() == '|');
    assert(ends_with_border(opening));
    assert(opening.drop_last().len() == 0);
    assert(border_count(opening.drop_last()) == 0);
}

/// The cells of a row, appended to any text, add as many borders as there
/// are cells.
proof fn lemma_append_cells(head: Seq<char>, fields: Seq<Seq<char>>, count: nat)
    ensures
        border_count(head + cells_text(escape_fields(fields), count)) == border_count(head)
            + count,
    decreases count,
{
    let cells = escape_fields(fields);
    if count == 0 {
        assert(head + cells_text(cells, count) =~= head);
    } else {
        let before = head + cells_text(cells, (count - 1) as nat);
        lemma_append_cells(head, fields, (count - 1) as nat);
        let content = cell_at(cells, count - 1);
        assert(pipes_escaped(content)) by {
            if 0 <= count - 1 < cells.len() {
                assert(content == escape_text(fields[count - 1]));
                assert forall|i: int| 0 <= i < content.len() && #[trigger] content[i] == '|' implies i > 0
                    && content[i - 1] == '\\' by {
                    lemma_escaped_pipes(fields[count - 1], i);
                }
            }
        }
        assert(pipes_escaped(seq![' ']));
        lemma_append_escaped(before, seq![' ']);
        lemma_append_escaped(before + seq![' '], content);
        lemma_append_closing(before + seq![' '] + content);
        assert(head + cells_text(cells, count) =~= before + seq![' '] + content + seq![' ', '|']);
    }
}

/// A row of a table has exactly as many cells as the table is wide,
/// whatever its fields hold and however many of them there are.
pub proof fn lemma_row_cell_count(fields: Seq<Seq<char>>, width: nat)
    ensures
        cell_count(row_text(escape_fields(fields), width)) == width,
{
    let opening = seq!['|'];
    let cells = cells_text(escape_fields(fields), width);
    lemma_opening_border();
    lemma_append_cells(opening, fields, width);
    assert(pipes_escaped(seq!['\n']));
    lemma_append_escaped(opening + cells, seq!['\n']);
}

/// Marker cells, appended to any text, add as many borders as there are
/// markers.
proof fn lemma_append_markers(head: Seq<char>, alignment: HeaderAlignment, count: nat)
    ensures
        border_count(head + markers_text(alignment, count)) == border_count(head) + count,
    decreases count,
{
    if count == 0 {
        assert(head + markers_text(alignment, count) =~= head);
    } else {
        let before = head + markers_text(alignment, (count - 1) as nat);
        lemma_append_markers(head, alignment, (count - 1) as nat);
        let dashes = marker_text(alignment).drop_last().drop_last();
        assert(pipes_escaped(dashes));
        lemma_append_escaped(before, dashes);
        lemma_append_closing(before + dashes);
        assert(marker_text(alignment) =~= dashes + seq![' ', '|']);
        assert(head + markers_text(alignment, count) =~= before + dashes + seq![' ', '|']);
    }
}

/// The separator line of a table has exactly as many cells as the table is
/// wide.
pub proof fn lemma_separator_cell_count(width: nat, alignment: HeaderAlignment)
    ensures
        cell_count(separator_text(width, alignment)) == width,
{
    let opening = seq!['|'];
    lemma_opening_border();
    lemma_append_markers(opening, alignment, width);
    assert(pipes_escaped(seq!['\n']));
    lemma_append_escaped(opening + markers_text(alignment, width), seq!['\n']);
}

/// Every row of the table of some records has as many cells as the longest
/// of the records has fields.
pub proof fn lemma_every_row_has_max_columns(records: Seq<Seq<Seq<char>>>, i: int)
    requires
        0 <= i < records.len(),
    ensures
        cell_count(row_text(escape_fields(records[i]), max_columns(records))) == max_columns(
            records,
        ),
{
    lemma_row_cell_count(records[i], max_columns(records));
}

} // verus!

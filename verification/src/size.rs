//! A guess at the size of a table before it is rendered.

use crate::render::{fields_view, rows_view};
use vstd::prelude::*;
use vstd::utf8::*;

verus! {

/// The number of bytes that the given cells take in UTF-8.
pub open spec fn cells_bytes(cells: Seq<Seq<char>>) -> nat
    decreases cells.len(),
{
    if cells.len() == 0 {
        0
    } else {
        cells_bytes(cells.drop_last()) + encode_utf8(cells.last()).len()
    }
}

/// The number of bytes that the cells of the given rows take in UTF-8.
pub open spec fn rows_bytes(rows: Seq<Seq<Seq<char>>>) -> nat
    decreases rows.len(),
{
    if rows.len() == 0 {
        0
    } else {
        rows_bytes(rows.drop_last()) + cells_bytes(rows.last())
    }
}

/// The number itself, or the greatest `usize` where it is greater.
pub open spec fn clamp(n: int) -> usize {
    if n > usize::MAX {
        usize::MAX
    } else if n < 0 {
        0
    } else {
        n as usize
    }
}

/// A guess at the size of a table in bytes, from its rows and its width:
/// each cell is taken to be as long as the bytes of all cells divided by the
/// number of rows, with three bytes around it; the separator line takes six
/// bytes for each column; a hundred bytes are added for good measure. Both
/// the count of the bytes and the guess stop at the greatest `usize`.
pub open spec fn size_estimate(rows: Seq<Seq<Seq<char>>>, max_cols: nat) -> usize {
    let count: int = if rows.len() == 0 {
        1
    } else {
        rows.len() as int
    };
    let average = clamp(rows_bytes(rows) as int) as int / count;
    clamp((average + 3) * max_cols * rows.len() + max_cols * 6 + 100)
}

/// Guesses the size of the table that the given rows will make, so that
/// room for it can be set aside in one piece.
pub fn estimate_output_size(records: &[Vec<String>], max_cols: usize) -> (size: usize)
    ensures
        size == size_estimate(rows_view(records@), max_cols as nat),
{
    let ghost rows = rows_view(records@);
    let mut total: usize = 0;
    let mut i: usize = 0;
    while i < records.len()
        invariant
            i <= records.len(),
            rows == rows_view(records@),
            total == clamp(rows_bytes(rows.take(i as int)) as int),
        decreases records.len() - i,
    {
        let row = &records[i];
        let ghost cells = fields_view(row@);
        let ghost base = rows_bytes(rows.take(i as int));
        let mut j: usize = 0;
        while j < row.len()
            invariant
                j <= row.len(),
                cells == fields_view(row@),
                total == clamp((base + cells_bytes(cells.take(j as int))) as int),
            decreases row.len() - j,
        {
            proof {
                assert(cells.take(j + 1).drop_last() =~= cells.take(j as int));
                assert(cells.take(j + 1).last() == row@[j as int]@);
            }
            total = total.saturating_add(row[j].as_str().as_bytes().len());
            j = j + 1;
        }
        proof {
            assert(cells.take(row.len() as int) =~= cells);
            assert(rows.take(i + 1).drop_last() =~= rows.take(i as int));
            assert(rows.take(i + 1).last() == cells);
        }
        i = i + 1;
    }
    proof {
        assert(rows.take(records.len() as int) =~= rows);
    }
    let count = records.len();
    let average = total / (if count == 0 {
        1
    } else {
        count
    });
    let ghost exact = (average + 3) * max_cols * count + max_cols * 6 + 100;
    let product = match max_cols.checked_mul(count) {
        None => {
            proof {
                assert((average + 3) * max_cols * count >= max_cols * count) by (nonlinear_arith)
                    requires
                        average >= 0,
                ;
            }
            return usize::MAX;
        },
        Some(cells) => {
            if cells == 0 {
                proof {
                    assert((average + 3) * max_cols * count == 0) by (nonlinear_arith)
                        requires
                            max_cols * count == 0,
                    ;
                }
                0
            } else {
                match average.checked_add(3) {
                    None => {
                        proof {
                            assert((average + 3) * max_cols * count >= average + 3)
                                by (nonlinear_arith)
                                requires
                                    max_cols * count >= 1,
                                    average >= 0,
                            ;
                        }
                        return usize::MAX;
                    },
                    Some(cell) => {
                        proof {
                            assert((average + 3) * max_cols * count == cell * cells)
                                by (nonlinear_arith)
                                requires
                                    cell == average + 3,
                                    cells == max_cols * count,
                            ;
                        }
                        match cell.checked_mul(cells) {
                            None => {
                                return usize::MAX;
                            },
                            Some(product) => product,
                        }
                    },
                }
            }
        },
    };
    assert(product == (average + 3) * max_cols * count);
    let markers = match max_cols.checked_mul(6) {
        None => {
            return usize::MAX;
        },
        Some(markers) => markers,
    };
    match product.checked_add(markers) {
        None => usize::MAX,
        Some(lines) => match lines.checked_add(100) {
            None => usize::MAX,
            Some(size) => size,
        },
    }
}

} // verus!

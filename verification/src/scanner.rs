//! A scanner that estimates the width of a table from the raw bytes of its
//! input, one chunk at a time and without building any record.
//!
//! The scanner follows the quoting rules of the record reader as far as the
//! number of fields goes: a quote opens a quoted field only at the start of
//! a field, delimiters and line ends inside a quoted field separate
//! nothing, and two quotes in a row inside a quoted field stand for one
//! quote. Like the reader, it skips empty lines and a UTF-8 byte order mark
//! at the very start of the input. It does not look at what the fields hold.

use vstd::prelude::*;

verus! {

/// Where the scanner stands within a record.
#[derive(Debug, Clone, Copy, PartialEq, Eq, Structural)]
pub enum ScanPhase {
    /// Before the first byte of the input.
    InputStart,
    /// Behind the first byte of a byte order mark at the start of the
    /// input.
    MarkFirst,
    /// Behind the first two bytes of a byte order mark at the start of the
    /// input.
    MarkSecond,
    /// Between records: nothing of the next record has been seen.
    RecordStart,
    /// At the start of a field that follows a delimiter.
    FieldStart,
    /// Inside a field without quotes, or behind the closing quote of one
    /// with quotes.
    InField,
    /// Inside a quoted field.
    InQuotes,
    /// Behind a quote inside a quoted field: the quote closes the field
    /// unless another quote follows.
    QuoteInQuotes,
}

/// The state of a scan: what has been learnt from the bytes seen so far.
#[derive(Debug, Clone, Copy)]
pub struct ColumnScanner {
    /// The byte that separates fields.
    pub delimiter: u8,
    /// Where the scanner stands within the current record.
    pub phase: ScanPhase,
    /// The number of delimiters that closed a field of the current record.
    pub closed_fields: usize,
    /// The length of the longest record that has ended.
    pub widest: usize,
}

/// One more than `n`, as far as `usize` reaches.
pub open spec fn successor(n: usize) -> usize {
    if n < usize::MAX {
        (n + 1) as usize
    } else {
        n
    }
}

/// Whether the byte ends a line.
pub open spec fn is_line_end(byte: u8) -> bool {
    byte == 10u8 || byte == 13u8
}

impl ColumnScanner {
    /// The state before the first byte.
    pub open spec fn start(delimiter: u8) -> ColumnScanner {
        ColumnScanner { delimiter, phase: ScanPhase::InputStart, closed_fields: 0, widest: 0 }
    }

    /// The state between two records, with what this state has counted.
    pub open spec fn between_records(self) -> ColumnScanner {
        ColumnScanner { phase: ScanPhase::RecordStart, ..self }
    }

    /// The state in which the bytes that looked like the beginning of a byte
    /// order mark have been taken for the text that they turned out to be.
    pub open spec fn settled(self) -> ColumnScanner {
        match self.phase {
            ScanPhase::InputStart => self.between_records(),
            ScanPhase::MarkFirst => self.between_records().plain_step(0xEFu8),
            ScanPhase::MarkSecond => self.between_records().plain_step(0xEFu8).plain_step(0xBBu8),
            _ => self,
        }
    }

    /// The width that the scan would report if the input ended here: the
    /// record that is under way counts with the fields it has so far.
    pub open spec fn estimate(self) -> usize {
        let state = self.settled();
        if state.phase == ScanPhase::RecordStart {
            state.widest
        } else {
            state.open_record_width()
        }
    }

    /// The width of the table if the record under way ended here.
    pub open spec fn open_record_width(self) -> usize {
        if successor(self.closed_fields) > self.widest {
            successor(self.closed_fields)
        } else {
            self.widest
        }
    }

    /// The state after a delimiter that closes a field.
    pub open spec fn close_field(self) -> ColumnScanner {
        ColumnScanner {
            phase: ScanPhase::FieldStart,
            closed_fields: successor(self.closed_fields),
            ..self
        }
    }

    /// The state after a line end that closes a record.
    pub open spec fn close_record(self) -> ColumnScanner {
        ColumnScanner {
            phase: ScanPhase::RecordStart,
            closed_fields: 0,
            widest: self.open_record_width(),
            ..self
        }
    }

    /// The state after one more byte.
    pub open spec fn step(self, byte: u8) -> ColumnScanner {
        match self.phase {
            ScanPhase::InputStart => {
                if byte == 0xEFu8 {
                    ColumnScanner { phase: ScanPhase::MarkFirst, ..self }
                } else {
                    self.settled().plain_step(byte)
                }
            },
            ScanPhase::MarkFirst => {
                if byte == 0xBBu8 {
                    ColumnScanner { phase: ScanPhase::MarkSecond, ..self }
                } else {
                    self.settled().plain_step(byte)
                }
            },
            ScanPhase::MarkSecond => {
                if byte == 0xBFu8 {
                    self.between_records()
                } else {
                    self.settled().plain_step(byte)
                }
            },
            _ => self.plain_step(byte),
        }
    }

    /// The state after one more byte, for a scanner that is past the start
    /// of the input.
    pub open spec fn plain_step(self, byte: u8) -> ColumnScanner {
        match self.phase {
            ScanPhase::InputStart | ScanPhase::MarkFirst | ScanPhase::MarkSecond => self,
            ScanPhase::RecordStart => {
                if is_line_end(byte) {
                    self
                } else if byte == 34u8 {
                    ColumnScanner { phase: ScanPhase::InQuotes, ..self }
                } else if byte == self.delimiter {
                    self.close_field()
                } else {
                    ColumnScanner { phase: ScanPhase::InField, ..self }
                }
            },
            ScanPhase::FieldStart => {
                if byte == 34u8 {
                    ColumnScanner { phase: ScanPhase::InQuotes, ..self }
                } else if byte == self.delimiter {
                    self.close_field()
                } else if is_line_end(byte) {
                    self.close_record()
                } else {
                    ColumnScanner { phase: ScanPhase::InField, ..self }
                }
            },
            ScanPhase::InField => {
                if byte == self.delimiter {
                    self.close_field()
                } else if is_line_end(byte) {
                    self.close_record()
                } else {
                    self
                }
            },
            ScanPhase::InQuotes => {
                if byte == 34u8 {
                    ColumnScanner { phase: ScanPhase::QuoteInQuotes, ..self }
                } else {
                    self
                }
            },
            ScanPhase::QuoteInQuotes => {
                if byte == 34u8 {
                    ColumnScanner { phase: ScanPhase::InQuotes, ..self }
                } else if byte == self.delimiter {
                    self.close_field()
                } else if is_line_end(byte) {
                    self.close_record()
                } else {
                    ColumnScanner { phase: ScanPhase::InField, ..self }
                }
            },
        }
    }

    /// The state after a run of bytes.
    pub open spec fn run(self, bytes: Seq<u8>) -> ColumnScanner
        decreases bytes.len(),
    {
        if bytes.len() == 0 {
            self
        } else {
            self.run(bytes.drop_last()).step(bytes.last())
        }
    }

    /// A scanner that has seen nothing yet.
    pub fn new(delimiter: u8) -> (scanner: ColumnScanner)
        ensures
            scanner == ColumnScanner::start(delimiter),
    {
        ColumnScanner { delimiter, phase: ScanPhase::InputStart, closed_fields: 0, widest: 0 }
    }

    /// Takes note of a delimiter that closes a field.
    fn note_field(&mut self)
        ensures
            *final(self) == old(self).close_field(),
    {
        if self.closed_fields < usize::MAX {
            self.closed_fields = self.closed_fields + 1;
        }
        self.phase = ScanPhase::FieldStart;
    }

    /// Takes note of a line end that closes a record.
    fn note_record(&mut self)
        ensures
            *final(self) == old(self).close_record(),
    {
        self.widest = self.record_width();
        self.closed_fields = 0;
        self.phase = ScanPhase::RecordStart;
    }

    /// The width of the table if the record under way ended here.
    fn record_width(&self) -> (width: usize)
        ensures
            width == self.open_record_width(),
    {
        let fields = if self.closed_fields < usize::MAX {
            self.closed_fields + 1
        } else {
            self.closed_fields
        };
        if fields > self.widest {
            fields
        } else {
            self.widest
        }
    }

    /// Takes the bytes that looked like the beginning of a byte order mark
    /// for the text that they turned out to be.
    fn settle(&mut self)
        ensures
            *final(self) == old(self).settled(),
    {
        match self.phase {
            ScanPhase::InputStart => {
                self.phase = ScanPhase::RecordStart;
            },
            ScanPhase::MarkFirst => {
                self.phase = ScanPhase::RecordStart;
                self.advance_plain(0xEFu8);
            },
            ScanPhase::MarkSecond => {
                self.phase = ScanPhase::RecordStart;
                self.advance_plain(0xEFu8);
                self.advance_plain(0xBBu8);
            },
            _ => {},
        }
    }

    /// Takes in one more byte.
    fn advance(&mut self, byte: u8)
        ensures
            *final(self) == old(self).step(byte),
    {
        match self.phase {
            ScanPhase::InputStart => {
                if byte == 0xEFu8 {
                    self.phase = ScanPhase::MarkFirst;
                } else {
                    self.settle();
                    self.advance_plain(byte);
                }
            },
            ScanPhase::MarkFirst => {
                if byte == 0xBBu8 {
                    self.phase = ScanPhase::MarkSecond;
                } else {
                    self.settle();
                    self.advance_plain(byte);
                }
            },
            ScanPhase::MarkSecond => {
                if byte == 0xBFu8 {
                    self.phase = ScanPhase::RecordStart;
                } else {
                    self.settle();
                    self.advance_plain(byte);
                }
            },
            _ => {
                self.advance_plain(byte);
            },
        }
    }

    /// Takes in one more byte, past the start of the input.
    fn advance_plain(&mut self, byte: u8)
        ensures
            *final(self) == old(self).plain_step(byte),
    {
        let line_end = byte == 10u8 || byte == 13u8;
        match self.phase {
            ScanPhase::InputStart | ScanPhase::MarkFirst | ScanPhase::MarkSecond => {},
            ScanPhase::RecordStart => {
                if line_end {
                } else if byte == 34u8 {
                    self.phase = ScanPhase::InQuotes;
                } else if byte == self.delimiter {
                    self.note_field();
                } else {
                    self.phase = ScanPhase::InField;
                }
            },
            ScanPhase::FieldStart => {
                if byte == 34u8 {
                    self.phase = ScanPhase::InQuotes;
                } else if byte == self.delimiter {
                    self.note_field();
                } else if line_end {
                    self.note_record();
                } else {
                    self.phase = ScanPhase::InField;
                }
            },
            ScanPhase::InField => {
                if byte == self.delimiter {
                    self.note_field();
                } else if line_end {
                    self.note_record();
                }
            },
            ScanPhase::InQuotes => {
                if byte == 34u8 {
                    self.phase = ScanPhase::QuoteInQuotes;
                }
            },
            ScanPhase::QuoteInQuotes => {
                if byte == 34u8 {
                    self.phase = ScanPhase::InQuotes;
                } else if byte == self.delimiter {
                    self.note_field();
                } else if line_end {
                    self.note_record();
                } else {
                    self.phase = ScanPhase::InField;
                }
            },
        }
    }

    /// Takes in the next chunk of the input. Chunks may be cut anywhere,
    /// also inside a quoted field.
    pub fn feed(&mut self, chunk: &[u8])
        ensures
            *final(self) == old(self).run(chunk@),
    {
        let mut i: usize = 0;
        while i < chunk.len()
            invariant
                i <= chunk.len(),
                *self == old(self).run(chunk@.take(i as int)),
            decreases chunk.len() - i,
        {
            proof {
                assert(chunk@.take(i + 1).drop_last() =~= chunk@.take(i as int));
                assert(chunk@.take(i + 1).last() == chunk@[i as int]);
            }
            self.advance(chunk[i]);
            i = i + 1;
        }
        proof {
            assert(chunk@.take(chunk.len() as int) =~= chunk@);
        }
    }

    /// The estimated width of the table, taking the input to end here.
    pub fn estimated_columns(&self) -> (width: usize)
        ensures
            width == self.estimate(),
    {
        let mut state = *self;
        state.settle();
        match state.phase {
            ScanPhase::RecordStart => state.widest,
            _ => state.record_width(),
        }
    }
}

/// The width that a scan of the whole input estimates.
pub open spec fn estimated_width(data: Seq<u8>, delimiter: u8) -> usize {
    ColumnScanner::start(delimiter).run(data).estimate()
}

/// Scanning a run of bytes in two parts, cut at any place, leads to the
/// same state as scanning it in one piece.
pub proof fn lemma_run_in_parts(scanner: ColumnScanner, head: Seq<u8>, tail: Seq<u8>)
    ensures
        scanner.run(head + tail) == scanner.run(head).run(tail),
    decreases tail.len(),
{
    if tail.len() == 0 {
        assert(head + tail =~= head);
    } else {
        lemma_run_in_parts(scanner, head, tail.drop_last());
        assert((head + tail).drop_last() =~= head + tail.drop_last());
        assert((head + tail).last() == tail.last());
    }
}

} // verus!

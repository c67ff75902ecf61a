//! What a caller chooses for one conversion.

use vstd::prelude::*;

verus! {

/// How the columns of the table are aligned, which shows in the marker
/// cells of the line under the header row.
#[derive(Debug, Clone, Copy, PartialEq, Eq, Structural)]
pub enum HeaderAlignment {
    /// Left-aligned columns: `| --- |`
    Left,
    /// Centred columns: `| :---: |`
    Center,
    /// Right-aligned columns: `| ---: |`
    Right,
}

/// The settings of one conversion. They stay the same from the first record
/// to the last.
#[derive(Debug, Clone, Copy)]
pub struct Config {
    /// Whether the first record is a header row, to be followed by a
    /// separator line.
    pub has_headers: bool,
    /// Whether records may differ in length. Where they may not, a record
    /// that differs from the first is a parse failure.
    pub flexible: bool,
    /// The byte that separates the fields of a record.
    pub delimiter: u8,
    /// The alignment shown in the separator line.
    pub header_alignment: HeaderAlignment,
}

impl Default for Config {
    /// A header row, ragged records allowed, fields separated by commas,
    /// columns aligned to the left.
    fn default() -> (config: Self)
        ensures
            config.has_headers,
            config.flexible,
            config.delimiter == 44u8,
            config.header_alignment == HeaderAlignment::Left,
    {
        Self {
            has_headers: true,
            flexible: true,
            delimiter: 44u8,
            header_alignment: HeaderAlignment::Left,
        }
    }
}

} // verus!

//! The errors of a conversion.

use crate::reader::{error_message, error_position, failure_of, ParseFailure};
use vstd::prelude::*;
use vstd::string::*;

verus! {

/// What can go wrong in a conversion. The conversions work on bytes in
/// memory, so the one thing that can fail is the parse.
#[derive(Debug)]
pub enum CsvMdError {
    /// The record reader gave up on the input.
    Csv {
        /// The reader's own message.
        message: String,
        /// Where the reader stopped, as far as it knows.
        location: String,
    },
}

/// A result whose error is a `CsvMdError`.
pub type Result<T> = std::result::Result<T, CsvMdError>;

/// The character of a decimal digit.
pub open spec fn digit_char(digit: nat) -> char {
    if digit == 0 {
        '0'
    } else if digit == 1 {
        '1'
    } else if digit == 2 {
        '2'
    } else if digit == 3 {
        '3'
    } else if digit == 4 {
        '4'
    } else if digit == 5 {
        '5'
    } else if digit == 6 {
        '6'
    } else if digit == 7 {
        '7'
    } else if digit == 8 {
        '8'
    } else {
        '9'
    }
}

/// A number in decimal notation, without leading zeros.
pub open spec fn decimal_text(n: nat) -> Seq<char>
    decreases n,
{
    if n < 10 {
        seq![digit_char(n)]
    } else {
        decimal_text(n / 10) + seq![digit_char(n % 10)]
    }
}

/// How the place of a failure is put into words.
pub open spec fn location_text(place: Option<(u64, u64)>) -> Seq<char> {
    match place {
        Some((line, record)) => seq!['l', 'i', 'n', 'e', ' '] + decimal_text(line as nat) + seq![
            ',',
            ' ',
            'r',
            'e',
            'c',
            'o',
            'r',
            'd',
            ' ',
        ] + decimal_text(record as nat),
        None => seq![
            'u',
            'n',
            'k',
            'n',
            'o',
            'w',
            'n',
            ' ',
            'l',
            'o',
            'c',
            'a',
            't',
            'i',
            'o',
            'n',
        ],
    }
}

/// The character of a decimal digit.
fn digit(d: u64) -> (c: char)
    requires
        d < 10,
    ensures
        c == digit_char(d as nat),
{
    if d == 0 {
        '0'
    } else if d == 1 {
        '1'
    } else if d == 2 {
        '2'
    } else if d == 3 {
        '3'
    } else if d == 4 {
        '4'
    } else if d == 5 {
        '5'
    } else if d == 6 {
        '6'
    } else if d == 7 {
        '7'
    } else if d == 8 {
        '8'
    } else {
        '9'
    }
}

/// Appends a number in decimal notation to a string.
fn push_decimal(output: &mut String, n: u64)
    ensures
        final(output)@ == old(output)@ + decimal_text(n as nat),
    decreases n,
{
    if n >= 10 {
        push_decimal(output, n / 10);
    }
    output.push(digit(n % 10));
    assert(output@ =~= old(output)@ + decimal_text(n as nat));
}

/// Puts the place of a failure into words: the line and the record, or a
/// note that the place is not known.
pub fn describe_location(place: Option<(u64, u64)>) -> (text: String)
    ensures
        text@ == location_text(place),
{
    match place {
        Some((line, record)) => {
            proof {
                reveal_strlit("line ");
                reveal_strlit(", record ");
            }
            let mut text = String::from_str("line ");
            push_decimal(&mut text, line);
            text.append(", record ");
            push_decimal(&mut text, record);
            assert(text@ =~= location_text(place));
            text
        },
        None => {
            proof {
                reveal_strlit("unknown location");
            }
            let text = String::from_str("unknown location");
            assert(text@ =~= location_text(place));
            text
        },
    }
}

/// The words in front of the location in the description of a parse
/// failure.
pub open spec fn description_head() -> Seq<char> {
    seq![
        'C',
        'S',
        'V',
        ' ',
        'p',
        'a',
        'r',
        's',
        'i',
        'n',
        'g',
        ' ',
        'e',
        'r',
        'r',
        'o',
        'r',
        ' ',
        'a',
        't',
        ' ',
    ]
}

impl CsvMdError {
    /// Whether this error reports the given failure of the record reader:
    /// it carries the reader's message, and the place in words.
    pub open spec fn reports(self, failure: ParseFailure) -> bool {
        &&& self matches CsvMdError::Csv { message, location }
        &&& message@ == failure.message
        &&& location@ == location_text(failure.place)
    }

    /// The error in one line: that the parse failed, where, and the
    /// reader's message.
    pub open spec fn description(self) -> Seq<char> {
        match self {
            CsvMdError::Csv { message, location } => description_head() + location@ + seq![
                ':',
                ' ',
            ] + message@,
        }
    }

    /// The error for a failure of the record reader, from the reader's
    /// message and the line and record at which it stopped.
    pub fn parse_failure(message: String, place: Option<(u64, u64)>) -> (error: CsvMdError)
        ensures
            error.reports(ParseFailure { message: message@, place }),
    {
        CsvMdError::Csv { message, location: describe_location(place) }
    }

    /// Turns an error of the record reader into an error of a conversion.
    pub fn from_csv(err: csv::Error) -> (error: CsvMdError)
        ensures
            error.reports(failure_of(err)),
    {
        CsvMdError::parse_failure(error_message(&err), error_position(&err))
    }

    /// Describes the error in one line.
    pub fn describe(&self) -> (text: String)
        ensures
            text@ == self.description(),
    {
        match self {
            CsvMdError::Csv { message, location } => {
                proof {
                    reveal_strlit("CSV parsing error at ");
                    reveal_strlit(": ");
                }
                let mut text = String::from_str("CSV parsing error at ");
                text.append(location.as_str());
                text.append(": ");
                text.append(message.as_str());
                assert(text@ =~= self.description());
                text
            },
        }
    }
}

} // verus!

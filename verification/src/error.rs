//! The errors of the library.
use vstd::prelude::*;

use crate::calendar::{date_exists, date_text, date_to_text, Date};
use crate::scan::ScanError;
use crate::text::{int_to_string, joined, signed_decimal};
use vstd::string::StringExecFns;

verus! {

/// Why a line could not be read.
#[derive(Debug, Clone)]
pub enum ParsingError {
    /// The line does not match the grammar of its file.
    Syntax(ScanError),
    /// Hour, minute and second that make no time of day.
    UnableToBuildTime(u32, u32, u32),
    /// A character that is not a hexadecimal digit.
    InvalidHexDigit(char),
    /// A reference to something that was not defined.
    UnknownId(String),
    /// A reference to a journey (number, administration) that was not defined.
    UnknownJourney(i32, String),
    /// A reference to a stop that was not defined.
    UnknownStop(i32),
    /// An exchange time for a stop that was not defined.
    UnknownExchangeStop(i32),
    /// A code of a journey row (transport type, attribute or direction)
    /// that was not defined.
    UnknownLegacyId,
    /// A language name that is not known.
    UnknownLanguage(String),
    /// A direction code that is not known.
    UnknownDirection(String),
    /// A row that adds to a resource comes before the row (of the given
    /// type) that starts it.
    MissingRow(char),
    /// A row that adds to a resource names an id other than the resource's own:
    /// the row's id, then the resource's.
    IdMismatch(i32, i32),
    /// A line reference that is empty.
    MissingLineInfo,
    /// A translated text without its language.
    MissingValue,
    /// A text that should hold a date but does not.
    InvalidDate(String),
    /// A text that should hold a number but does not.
    InvalidNumber(String),
    /// Anything else, described in words.
    Unknown(String),
}

/// A `ParsingError`, with its texts as characters.
pub enum ParsingErrorV {
    Syntax(ScanError),
    UnableToBuildTime(u32, u32, u32),
    InvalidHexDigit(char),
    UnknownId(Seq<char>),
    UnknownJourney(i32, Seq<char>),
    UnknownStop(i32),
    UnknownExchangeStop(i32),
    UnknownLegacyId,
    UnknownLanguage(Seq<char>),
    UnknownDirection(Seq<char>),
    MissingRow(char),
    IdMismatch(i32, i32),
    MissingLineInfo,
    MissingValue,
    InvalidDate(Seq<char>),
    InvalidNumber(Seq<char>),
    Unknown(Seq<char>),
}

impl DeepView for ParsingError {
    type V = ParsingErrorV;

    open spec fn deep_view(&self) -> ParsingErrorV {
        match self {
            ParsingError::Syntax(e) => ParsingErrorV::Syntax(*e),
            ParsingError::UnableToBuildTime(h, m, s) => ParsingErrorV::UnableToBuildTime(*h, *m, *s),
            ParsingError::InvalidHexDigit(c) => ParsingErrorV::InvalidHexDigit(*c),
            ParsingError::UnknownId(t) => ParsingErrorV::UnknownId(t@),
            ParsingError::UnknownJourney(j, t) => ParsingErrorV::UnknownJourney(*j, t@),
            ParsingError::UnknownStop(j) => ParsingErrorV::UnknownStop(*j),
            ParsingError::UnknownExchangeStop(j) => ParsingErrorV::UnknownExchangeStop(*j),
            ParsingError::UnknownLegacyId => ParsingErrorV::UnknownLegacyId,
            ParsingError::UnknownLanguage(t) => ParsingErrorV::UnknownLanguage(t@),
            ParsingError::UnknownDirection(t) => ParsingErrorV::UnknownDirection(t@),
            ParsingError::MissingRow(c) => ParsingErrorV::MissingRow(*c),
            ParsingError::IdMismatch(a, b) => ParsingErrorV::IdMismatch(*a, *b),
            ParsingError::MissingLineInfo => ParsingErrorV::MissingLineInfo,
            ParsingError::MissingValue => ParsingErrorV::MissingValue,
            ParsingError::InvalidDate(t) => ParsingErrorV::InvalidDate(t@),
            ParsingError::InvalidNumber(t) => ParsingErrorV::InvalidNumber(t@),
            ParsingError::Unknown(t) => ParsingErrorV::Unknown(t@),
        }
    }
}

pub type PResult<T> = Result<T, ParsingError>;


/// The description of a parsing error.
pub open spec fn parsing_error_text(e: ParsingErrorV) -> Seq<char> {
    match e {
        ParsingErrorV::Syntax(ScanError::Error) => "Syntax error"@,
        ParsingErrorV::Syntax(ScanError::Incomplete) => "Syntax error: the line ends too early"@,
        ParsingErrorV::UnableToBuildTime(h, m, s) => "Unable to build time "@ + signed_decimal(h as int) + ":"@
            + signed_decimal(m as int) + ":"@ + signed_decimal(s as int),
        ParsingErrorV::InvalidHexDigit(c) => "Invalid hex digit "@.push(c),
        ParsingErrorV::UnknownId(t) => "Unknown id: "@ + t,
        ParsingErrorV::UnknownStop(j) => "Unknown stop ID "@ + signed_decimal(j as int),
        ParsingErrorV::UnknownExchangeStop(j) => "Unknown Stop ID "@ + signed_decimal(j as int),
        ParsingErrorV::UnknownLegacyId => "Unknown legacy ID"@,
        ParsingErrorV::UnknownJourney(j, t) => "Unknown legacy ID for ("@ + signed_decimal(j as int) + ", "@ + t
            + ")"@,
        ParsingErrorV::UnknownLanguage(t) => "Unknown language: "@ + t,
        ParsingErrorV::UnknownDirection(t) => "Unknown direction: "@ + t,
        ParsingErrorV::MissingRow(c) => "Type "@.push(c) + " row missing."@,
        ParsingErrorV::IdMismatch(a, b) => "Error: Line id not corresponding, "@ + signed_decimal(a as int) + ", "@
            + signed_decimal(b as int),
        ParsingErrorV::MissingLineInfo => "Missing line info (the string is empty)."@,
        ParsingErrorV::MissingValue => "Missing value part"@,
        ParsingErrorV::InvalidDate(t) => "Not a date: "@ + t,
        ParsingErrorV::InvalidNumber(t) => "Not a number: "@ + t,
        ParsingErrorV::Unknown(t) => t,
    }
}

impl ParsingError {
    /// A description of the error.
    pub fn to_string(&self) -> (r: String)
        ensures
            r@ == parsing_error_text(self.deep_view()),
    {
        match self {
            ParsingError::Syntax(ScanError::Error) => String::from_str("Syntax error"),
            ParsingError::Syntax(ScanError::Incomplete) => String::from_str(
                "Syntax error: the line ends too early",
            ),
            ParsingError::UnableToBuildTime(h, m, s) => {
                let mut t = joined("Unable to build time ", int_to_string(*h as i64).as_str());
                t = joined(t.as_str(), ":");
                t = joined(t.as_str(), int_to_string(*m as i64).as_str());
                t = joined(t.as_str(), ":");
                joined(t.as_str(), int_to_string(*s as i64).as_str())
            },
            ParsingError::InvalidHexDigit(c) => {
                let mut t = String::from_str("Invalid hex digit ");
                crate::text::string_push(&mut t, *c);
                t
            },
            ParsingError::UnknownId(s) => joined("Unknown id: ", s.as_str()),
            ParsingError::UnknownStop(j) => joined("Unknown stop ID ", int_to_string(*j as i64).as_str()),
            ParsingError::UnknownExchangeStop(j) => joined("Unknown Stop ID ", int_to_string(*j as i64).as_str()),
            ParsingError::UnknownLegacyId => String::from_str("Unknown legacy ID"),
            ParsingError::UnknownJourney(j, s) => {
                let t = joined("Unknown legacy ID for (", int_to_string(*j as i64).as_str());
                let t = joined(t.as_str(), ", ");
                let t = joined(t.as_str(), s.as_str());
                joined(t.as_str(), ")")
            },
            ParsingError::UnknownLanguage(s) => joined("Unknown language: ", s.as_str()),
            ParsingError::UnknownDirection(s) => joined("Unknown direction: ", s.as_str()),
            ParsingError::MissingRow(c) => {
                let mut t = String::from_str("Type ");
                crate::text::string_push(&mut t, *c);
                joined(t.as_str(), " row missing.")
            },
            ParsingError::IdMismatch(a, b) => {
                let t = joined("Error: Line id not corresponding, ", int_to_string(*a as i64).as_str());
                let t = joined(t.as_str(), ", ");
                joined(t.as_str(), int_to_string(*b as i64).as_str())
            },
            ParsingError::MissingLineInfo => String::from_str("Missing line info (the string is empty)."),
            ParsingError::MissingValue => String::from_str("Missing value part"),
            ParsingError::InvalidDate(s) => joined("Not a date: ", s.as_str()),
            ParsingError::InvalidNumber(s) => joined("Not a number: ", s.as_str()),
            ParsingError::Unknown(s) => s.clone(),
        }
    }
}

/// The errors of reading an HRDF archive.
#[derive(Debug, Clone)]
pub enum HrdfError {
    /// A line of a file could not be read.
    Parsing { error: ParsingError, file: String, line: String, line_number: usize },
    /// The timetable metadata has no start date.
    MissingStartDate,
    /// The timetable metadata has no end date.
    MissingEndDate,
    /// The date plus that many days is out of range.
    FailedToAddDays(Date, u64),
    /// The date minus that many days is out of range.
    FailedToSubDays(Date, u64),
    /// A date out of the range that it must lie in.
    OutOfRangeDate(Date),
    /// A year that makes no date.
    InvalidYear,
    /// UMSTEIGB gives no default exchange time.
    MissingDefaultExchangeTime,
    /// A line of a platform file could not be read.
    Platforms(ParsingError),
}

pub type HResult<T> = Result<T, HrdfError>;

/// How a date is written in an error: as `chrono` writes it when it is a
/// date of the calendar, else its three numbers.
pub open spec fn shown_date(d: Date) -> Seq<char> {
    if d.valid() {
        date_text(d.year as int, d.month as int, d.day as int)
    } else {
        signed_decimal(d.year as int) + "-"@ + signed_decimal(d.month as int) + "-"@ + signed_decimal(d.day as int)
    }
}

fn date_string(d: Date) -> (r: String)
    ensures
        r@ == shown_date(d),
{
    if date_exists(d.year, d.month, d.day) {
        date_to_text(d)
    } else {
        let t = joined(int_to_string(d.year as i64).as_str(), "-");
        let t = joined(t.as_str(), int_to_string(d.month as i64).as_str());
        let t = joined(t.as_str(), "-");
        joined(t.as_str(), int_to_string(d.day as i64).as_str())
    }
}

/// The description of an error.
pub open spec fn hrdf_error_text(e: HrdfError) -> Seq<char> {
    match e {
        HrdfError::Parsing { error, file, line, line_number } => "File "@ + file@ + ", at line "@ + signed_decimal(
            (line_number as i64) as int,
        ) + ": "@ + line@ + ". Parsing error: "@ + parsing_error_text(error.deep_view()),
        HrdfError::MissingStartDate => "Missing key \"start_date\""@,
        HrdfError::MissingEndDate => "Missing key \"end_date\""@,
        HrdfError::FailedToAddDays(d, n) => "Failed to add "@ + signed_decimal((n as i64) as int) + " days to "@
            + shown_date(d),
        HrdfError::FailedToSubDays(d, n) => "Failed to subtract "@ + signed_decimal((n as i64) as int)
            + " days to "@ + shown_date(d),
        HrdfError::OutOfRangeDate(d) => "Out of rage date: "@ + shown_date(d),
        HrdfError::InvalidYear => "Invalid year provided"@,
        HrdfError::MissingDefaultExchangeTime => "Error default exchante time not defined"@,
        HrdfError::Platforms(error) => parsing_error_text(error.deep_view()),
    }
}

impl HrdfError {
    /// A description of the error.
    pub fn to_string(&self) -> (r: String)
        ensures
            r@ == hrdf_error_text(*self),
    {
        match self {
            HrdfError::Parsing { error, file, line, line_number } => {
                let t = joined("File ", file.as_str());
                let t = joined(t.as_str(), ", at line ");
                let t = joined(t.as_str(), int_to_string(*line_number as i64).as_str());
                let t = joined(t.as_str(), ": ");
                let t = joined(t.as_str(), line.as_str());
                let t = joined(t.as_str(), ". Parsing error: ");
                joined(t.as_str(), error.to_string().as_str())
            },
            HrdfError::MissingStartDate => String::from_str("Missing key \"start_date\""),
            HrdfError::MissingEndDate => String::from_str("Missing key \"end_date\""),
            HrdfError::FailedToAddDays(d, n) => {
                let t = joined("Failed to add ", int_to_string(*n as i64).as_str());
                let t = joined(t.as_str(), " days to ");
                joined(t.as_str(), date_string(*d).as_str())
            },
            HrdfError::FailedToSubDays(d, n) => {
                let t = joined("Failed to subtract ", int_to_string(*n as i64).as_str());
                let t = joined(t.as_str(), " days to ");
                joined(t.as_str(), date_string(*d).as_str())
            },
            HrdfError::OutOfRangeDate(d) => joined("Out of rage date: ", date_string(*d).as_str()),
            HrdfError::InvalidYear => String::from_str("Invalid year provided"),
            HrdfError::MissingDefaultExchangeTime => String::from_str("Error default exchante time not defined"),
            HrdfError::Platforms(error) => error.to_string(),
        }
    }
}

} // verus!

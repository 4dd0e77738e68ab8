//! Decoding of one row of a tabular bank export into a pending transaction.
//! The export's layout is fixed by column position: date first, then a
//! reserved column, the description, another reserved column, the amount,
//! and the status. A malformed date or a missing column is fatal for the
//! row, in contrast with the lenient amount reading.

use vstd::prelude::*;

use crate::money::{amount_fits, amount_value, parse_cents_checked};

verus! {

/// A calendar date, held as plain year, month and day numbers.
#[derive(Clone, Copy, PartialEq, Eq, Structural, Debug)]
pub struct Date {
    pub year: i32,
    pub month: u32,
    pub day: u32,
}

impl Date {
    /// Month and day lie in their calendar ranges.
    pub open spec fn wf(self) -> bool {
        1 <= self.month <= 12 && 1 <= self.day <= 31
    }
}

/// The calendar date denoted by a string in the fixed `YYYY-MM-DD` export
/// format, as year, month and day, or nothing where the string does not
/// denote a real calendar date.
pub uninterp spec fn iso_date_of(s: Seq<char>) -> Option<(i32, u32, u32)>;

/// Relies on chrono's `NaiveDate::parse_from_str` with the `"%Y-%m-%d"`
/// format: whether a string is accepted, and which calendar day it denotes,
/// depend on its characters alone, and an accepted date has a month in
/// `1..=12` and a day in `1..=31`.
#[verifier::external_body]
fn parse_iso_date(s: &str) -> (r: Option<Date>)
    ensures
        r is Some <==> iso_date_of(s@) is Some,
        r is Some ==> r->Some_0 == (Date {
            year: iso_date_of(s@)->Some_0.0,
            month: iso_date_of(s@)->Some_0.1,
            day: iso_date_of(s@)->Some_0.2,
        }),
        r is Some ==> r->Some_0.wf(),
{
    match chrono::NaiveDate::parse_from_str(s, "%Y-%m-%d") {
        Ok(d) => Some(Date {
            year: chrono::Datelike::year(&d),
            month: chrono::Datelike::month(&d),
            day: chrono::Datelike::day(&d),
        }),
        Err(_) => None,
    }
}

/// A decoded-but-not-yet-persisted transaction.
#[derive(Clone, Debug, PartialEq, Eq)]
pub struct PendingTransaction {
    pub transaction_date: Date,
    pub description: String,
    pub amount_cents: i64,
    pub status: String,
}

/// The mathematical content of a pending transaction.
pub struct PendingModel {
    pub transaction_date: Date,
    pub description: Seq<char>,
    pub amount_cents: int,
    pub status: Seq<char>,
}

impl View for PendingTransaction {
    type V = PendingModel;

    open spec fn view(&self) -> PendingModel {
        PendingModel {
            transaction_date: self.transaction_date,
            description: self.description@,
            amount_cents: self.amount_cents as int,
            status: self.status@,
        }
    }
}

/// Why a row cannot become a pending transaction. Unlike amount noise,
/// these are fatal for the whole ingestion of an export.
#[derive(Clone, Copy, PartialEq, Eq, Structural, Debug)]
pub enum DecodeError {
    /// The row has fewer columns than the export layout requires.
    MissingColumns,
    /// The date column does not hold a `YYYY-MM-DD` calendar date.
    InvalidDate,
    /// The amount column denotes a value outside the 64-bit minor-unit
    /// representation.
    AmountOutOfRange,
}

/// The character content of a row of owned text fields.
pub open spec fn row_view(fields: Seq<String>) -> Seq<Seq<char>> {
    fields.map_values(|f: String| f@)
}

/// Position of each consumed column in the export layout.
pub open spec fn spec_date_column() -> int {
    0
}

pub open spec fn spec_description_column() -> int {
    2
}

pub open spec fn spec_amount_column() -> int {
    4
}

pub open spec fn spec_status_column() -> int {
    5
}

/// How one row decodes: a row needs at least six columns; its date column
/// must hold a real `YYYY-MM-DD` date; its amount column must denote a
/// representable amount, read leniently; description and status are taken
/// as given.
pub open spec fn decode_spec(fields: Seq<Seq<char>>) -> Result<PendingModel, DecodeError> {
    if fields.len() < 6 {
        Err(DecodeError::MissingColumns)
    } else if iso_date_of(fields[spec_date_column()]) is None {
        Err(DecodeError::InvalidDate)
    } else if !amount_fits(fields[spec_amount_column()]) {
        Err(DecodeError::AmountOutOfRange)
    } else {
        let ymd = iso_date_of(fields[spec_date_column()])->Some_0;
        Ok(PendingModel {
            transaction_date: Date { year: ymd.0, month: ymd.1, day: ymd.2 },
            description: fields[spec_description_column()],
            amount_cents: amount_value(fields[spec_amount_column()]),
            status: fields[spec_status_column()],
        })
    }
}

/// Decodes one row of the export into a pending transaction, or says why
/// the row is unusable.
pub fn decode_record(fields: &Vec<String>) -> (r: Result<PendingTransaction, DecodeError>)
    ensures
        match r {
            Ok(t) => decode_spec(row_view(fields@)) == Ok::<PendingModel, DecodeError>(t@)
                && t.transaction_date.wf(),
            Err(e) => decode_spec(row_view(fields@)) == Err::<PendingModel, DecodeError>(e),
        },
{
    if fields.len() < 6 {
        return Err(DecodeError::MissingColumns);
    }
    let date = match parse_iso_date(fields[0].as_str()) {
        Some(d) => d,
        None => {
            return Err(DecodeError::InvalidDate);
        },
    };
    let amount = match parse_cents_checked(fields[4].as_str()) {
        Some(a) => a,
        None => {
            return Err(DecodeError::AmountOutOfRange);
        },
    };
    Ok(PendingTransaction {
        transaction_date: date,
        description: fields[2].clone(),
        amount_cents: amount,
        status: fields[5].clone(),
    })
}

} // verus!

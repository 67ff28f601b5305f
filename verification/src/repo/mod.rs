//! The repository layer: every question asked of a table, and every change
//! made to one, lives here.
//!
//! What this layer gives the rest of the till is a vocabulary: `tabs::open`,
//! `orders::mark_issued`, `stock::post`. Nothing here formats money, and
//! nothing here is half done: a function that refuses leaves the store exactly
//! as it found it.

use vstd::prelude::*;

use crate::settings::{SettingsError, SettingsWhy};
use crate::text::{int_text, join2, join3};

pub mod cash;
pub mod catalogue;
pub mod orders;
pub mod purchases;
pub mod receipts;
pub mod reports;
pub mod seq;
pub mod shifts;
pub mod staff;
pub mod stock;
pub mod tabs;

verus! {

/// What the storage underneath can report.
#[derive(Debug, PartialEq, Eq)]
pub enum SqlError {
    /// A query that had to find a row found none.
    NoRows,
    /// A sum left 64 bits.
    Overflow,
    /// There is no room for another row.
    Full,
    /// The schema refused a change, and may have said why.
    Constraint(Option<String>),
    /// A stored word stands for nothing that this build knows.
    Conversion { column: usize, domain: &'static str, value: String },
    /// Anything else: a corrupt file, a locked database.
    Other(String),
}

/// [`SqlError`], over characters.
pub enum SqlWhy {
    NoRows,
    Overflow,
    Full,
    Constraint(Option<Seq<char>>),
    Conversion { column: int, domain: Seq<char>, value: Seq<char> },
    Other(Seq<char>),
}

impl View for SqlError {
    type V = SqlWhy;

    open spec fn view(&self) -> SqlWhy {
        match self {
            SqlError::NoRows => SqlWhy::NoRows,
            SqlError::Overflow => SqlWhy::Overflow,
            SqlError::Full => SqlWhy::Full,
            SqlError::Constraint(None) => SqlWhy::Constraint(None),
            SqlError::Constraint(Some(message)) => SqlWhy::Constraint(Some(message@)),
            SqlError::Conversion { column, domain, value } => SqlWhy::Conversion {
                column: *column as int,
                domain: domain@,
                value: value@,
            },
            SqlError::Other(message) => SqlWhy::Other(message@),
        }
    }
}

impl SqlWhy {
    pub open spec fn message(self) -> Seq<char> {
        match self {
            SqlWhy::NoRows => "Query returned no rows"@,
            SqlWhy::Overflow => "integer overflow"@,
            SqlWhy::Full => "database or disk is full"@,
            SqlWhy::Constraint(None) => "constraint failed"@,
            SqlWhy::Constraint(Some(message)) => message,
            SqlWhy::Conversion { column, domain, value } => {
                "Conversion error from type Text at index: "@ + int_text(column) + ", unknown "@
                    + domain + " '"@ + value + "'"@
            },
            SqlWhy::Other(message) => message,
        }
    }
}

impl SqlError {
    /// The error in words.
    pub fn message(&self) -> (result: String)
        ensures
            result@ == self@.message(),
    {
        match self {
            SqlError::NoRows => "Query returned no rows".to_owned(),
            SqlError::Overflow => "integer overflow".to_owned(),
            SqlError::Full => "database or disk is full".to_owned(),
            SqlError::Constraint(None) => "constraint failed".to_owned(),
            SqlError::Constraint(Some(message)) => message.clone(),
            SqlError::Conversion { column, domain, value } => {
                let mut out: String = "Conversion error from type Text at index: ".to_owned();
                crate::text::push_nat(&mut out, *column as u64);
                out.append(", unknown ");
                out.append(*domain);
                out.append(" '");
                out.append(value.as_str());
                out.append("'");
                out
            },
            SqlError::Other(message) => message.clone(),
        }
    }
}

/// Why the repository could not do what it was asked.
#[derive(Debug, PartialEq, Eq)]
pub enum RepoError {
    Sqlite(SqlError),
    Settings(SettingsError),
    /// A rule said no, in words meant to be shown to whoever is standing at
    /// the till.
    Refused(String),
    Missing { what: &'static str },
}

/// [`RepoError`], over characters.
pub enum Why {
    Sqlite(SqlWhy),
    Settings(SettingsWhy),
    Refused(Seq<char>),
    Missing(Seq<char>),
}

impl View for RepoError {
    type V = Why;

    open spec fn view(&self) -> Why {
        match self {
            RepoError::Sqlite(error) => Why::Sqlite(error@),
            RepoError::Settings(error) => Why::Settings(error@),
            RepoError::Refused(message) => Why::Refused(message@),
            RepoError::Missing { what } => Why::Missing(what@),
        }
    }
}

impl Why {
    pub open spec fn message(self) -> Seq<char> {
        match self {
            Why::Sqlite(why) => "sqlite: "@ + why.message(),
            Why::Settings(why) => "settings: "@ + why.message(),
            Why::Refused(message) => message,
            Why::Missing(what) => "that "@ + what + " no longer exists"@,
        }
    }
}

impl RepoError {
    /// The error in words.
    pub fn message(&self) -> (result: String)
        ensures
            result@ == self@.message(),
    {
        match self {
            RepoError::Sqlite(error) => join2("sqlite: ", error.message().as_str()),
            RepoError::Settings(error) => join2("settings: ", error.message().as_str()),
            RepoError::Refused(message) => message.clone(),
            RepoError::Missing { what } => join3("that ", *what, " no longer exists"),
        }
    }
}

/// Refuse something, in a sentence.
pub fn refuse<T>(message: &str) -> (result: Result<T, RepoError>)
    ensures
        result matches Err(error) && error@ == Why::Refused(message@),
{
    Err(RepoError::Refused(message.to_owned()))
}

/// A refusal, in a sentence.
pub fn refused(message: &str) -> (result: RepoError)
    ensures
        result@ == Why::Refused(message@),
{
    RepoError::Refused(message.to_owned())
}

/// The refusal that a storage failure is shown as.
pub open spec fn humanised(why: SqlWhy) -> Why {
    match why {
        SqlWhy::Constraint(Some(message)) => Why::Refused(message),
        other => Why::Sqlite(other),
    }
}

/// Translate a database refusal into a message a person can read.
///
/// A constraint that says why it refused is shown in its own words. Anything
/// else stays a storage failure: a corrupt file is not the cashier's problem
/// and must not be dressed up as though it were.
pub fn humanise(error: SqlError) -> (result: RepoError)
    ensures
        result@ == humanised(error@),
{
    match error {
        SqlError::Constraint(Some(message)) => RepoError::Refused(message),
        other => RepoError::Sqlite(other),
    }
}

} // verus!

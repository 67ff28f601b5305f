//! Frozen shift reports.
//!
//! A report is reprinted, never rebuilt: there is no update here and no
//! delete, only a store and two reads. The figures and the exact paper are
//! written together, so a reprint months later reproduces what was signed.

use vstd::prelude::*;

use super::{refuse, RepoError, SqlError, SqlWhy, Why};
use crate::repo::catalogue::first_chosen;
use crate::repo::shifts::{self, shift};
use crate::store::{ledgers_kept, Store};
use crate::table::{
    any, any_row, choose_rows, chosen, find_place, find_row, fresh_id, next_id, row, Row,
};

verus! {

/// A report that was frozen.
#[derive(Debug, PartialEq, Eq)]
pub struct Stored {
    pub id: i64,
    pub shift_id: i64,
    pub is_provisional: bool,
    pub report_json: String,
    pub rendered_text: String,
    pub generated_at: i64,
    pub generated_by: i64,
}

impl Clone for Stored {
    fn clone(&self) -> (result: Self)
        ensures
            result == *self,
    {
        Stored {
            id: self.id,
            shift_id: self.shift_id,
            is_provisional: self.is_provisional,
            report_json: self.report_json.clone(),
            rendered_text: self.rendered_text.clone(),
            generated_at: self.generated_at,
            generated_by: self.generated_by,
        }
    }
}

impl Row for Stored {
    open spec fn key(&self) -> i64 {
        self.id
    }

    fn id(&self) -> (result: i64) {
        self.id
    }

    fn copy_row(&self) -> (result: Self) {
        self.clone()
    }
}

/// Facts frozen exactly once, at the moment a night is sealed.
#[derive(Clone, Copy, Debug)]
pub struct NewReport<'a> {
    pub shift_id: i64,
    pub is_provisional: bool,
    pub report_json: &'a str,
    pub rendered_text: &'a str,
    pub generated_at: i64,
    pub generated_by: i64,
}

/// The final report of that night.
pub open spec fn is_final_of(shift_id: i64) -> spec_fn(Stored) -> bool {
    |s: Stored| s.shift_id == shift_id && !s.is_provisional
}

/// Why a report cannot be frozen; nothing, where it can. A final report
/// belongs to a night that has closed, and a night has one.
pub open spec fn store_refusal(db: Store, new: NewReport<'_>) -> Option<Why> {
    if !new.is_provisional && !(shift(db, new.shift_id) matches Some(night) && night.status
        == shifts::Status::Closed) {
        Some(Why::Refused("a final report describes a closed shift"@))
    } else if !new.is_provisional && any(db.reports@, is_final_of(new.shift_id)) {
        Some(Why::Refused("UNIQUE constraint failed: shift_reports.shift_id"@))
    } else if fresh_id(db.reports@) is None {
        Some(Why::Sqlite(SqlWhy::Full))
    } else {
        None
    }
}

/// Whether a stored report is the one that was handed in, byte for byte.
pub open spec fn stored_as(report: Stored, new: NewReport<'_>) -> bool {
    &&& report.shift_id == new.shift_id
    &&& report.is_provisional == new.is_provisional
    &&& report.report_json@ == new.report_json@
    &&& report.rendered_text@ == new.rendered_text@
    &&& report.generated_at == new.generated_at
    &&& report.generated_by == new.generated_by
}

/// Freeze a report against a shift.
pub fn store(db: &mut Store, new: &NewReport<'_>) -> (result: Result<Stored, RepoError>)
    ensures
        ledgers_kept(*old(db), *final(db)),
        match result {
            Ok(report) => {
                &&& store_refusal(*old(db), *new) is None
                &&& fresh_id(old(db).reports@) == Some(report.id)
                &&& stored_as(report, *new)
                &&& final(db).reports@ == old(db).reports@.push(report)
                &&& *final(db) == (Store { reports: final(db).reports, ..*old(db) })
            },
            Err(error) => {
                &&& *final(db) == *old(db)
                &&& store_refusal(*old(db), *new) == Some(error@)
            },
        },
{
    if !new.is_provisional {
        let sealed: bool = match find_place(&db.shifts, new.shift_id) {
            Some(at) => db.shifts[at].status == shifts::Status::Closed,
            None => false,
        };
        if !sealed {
            return refuse("a final report describes a closed shift");
        }
        let shift_id: i64 = new.shift_id;
        if any_row(
            &db.reports,
            |s: &Stored| -> (r: bool)
                ensures
                    r == (s.shift_id == shift_id && !s.is_provisional)
                { s.shift_id == shift_id && !s.is_provisional },
            Ghost(is_final_of(shift_id)),
        ) {
            return refuse("UNIQUE constraint failed: shift_reports.shift_id");
        }
    }
    let id: i64 = match next_id(&db.reports) {
        Some(id) => id,
        None => {
            return Err(RepoError::Sqlite(SqlError::Full));
        },
    };
    let report: Stored = Stored {
        id,
        shift_id: new.shift_id,
        is_provisional: new.is_provisional,
        report_json: new.report_json.to_owned(),
        rendered_text: new.rendered_text.to_owned(),
        generated_at: new.generated_at,
        generated_by: new.generated_by,
    };
    db.reports.push(report.clone());
    Ok(report)
}

pub fn find(db: &Store, id: i64) -> (result: Result<Stored, RepoError>)
    ensures
        match row(db.reports@, id) {
            Some(found) => result == Ok::<Stored, RepoError>(found),
            None => result matches Err(error) && error@ == Why::Missing("shift report"@),
        },
{
    match find_row(&db.reports, id) {
        Some(found) => Ok(found),
        None => Err(RepoError::Missing { what: "shift report" }),
    }
}

/// The one final report for a night, once the night has closed.
pub open spec fn final_report(db: Store, shift_id: i64) -> Option<Stored> {
    first_chosen(db.reports@, is_final_of(shift_id))
}

/// The one final report for a night. `None` until the night has closed.
pub fn final_for(db: &Store, shift_id: i64) -> (result: Option<Stored>)
    ensures
        result == final_report(*db, shift_id),
{
    let found: Vec<Stored> = choose_rows(
        &db.reports,
        |s: &Stored| -> (r: bool)
            ensures
                r == (s.shift_id == shift_id && !s.is_provisional)
            { s.shift_id == shift_id && !s.is_provisional },
        Ghost(is_final_of(shift_id)),
    );
    if found.len() > 0 {
        Some(found[0].clone())
    } else {
        None
    }
}

/// A final report that was stored is the one that is read back, and stays so
/// whatever is stored after it.
pub proof fn a_stored_report_reads_back(
    before: Store,
    after: Store,
    new: NewReport<'_>,
    report: Stored,
)
    requires
        store_refusal(before, new) is None,
        stored_as(report, new),
        after.reports@ == before.reports@.push(report),
    ensures
        !new.is_provisional ==> final_report(after, new.shift_id) == Some(report),
        forall|shift_id: i64|
            final_report(before, shift_id) is Some ==> #[trigger] final_report(after, shift_id)
                == final_report(before, shift_id),
{
    assert(after.reports@.drop_last() =~= before.reports@);
    crate::table::chosen_meet_the_condition(before.reports@, is_final_of(new.shift_id));
    assert forall|shift_id: i64| final_report(before, shift_id) is Some implies
        #[trigger] final_report(after, shift_id) == final_report(before, shift_id) by {
        let kept = chosen(before.reports@, is_final_of(shift_id));
        assert(kept.push(report)[0] == kept[0]);
    }
}

} // verus!

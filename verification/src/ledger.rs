//! The audit log: what was done, to what, by whom and when.
//!
//! Entries are only ever added, and each takes the number after the last.

use vstd::prelude::*;

use crate::repo::{RepoError, SqlError, SqlWhy, Why};
use crate::store::{ledgers_kept, Store};
use crate::table::{fresh_id, next_id, Row};
use crate::text::copy_text;

verus! {

/// One line of the audit log.
#[derive(Debug, PartialEq, Eq)]
pub struct AuditEntry {
    pub sequence_no: i64,
    pub action: String,
    pub entity_type: String,
    pub entity_id: Option<i64>,
    pub old_value: Option<String>,
    pub new_value: Option<String>,
    pub staff_id: Option<i64>,
    pub shift_id: Option<i64>,
    pub created_at: i64,
}

impl Clone for AuditEntry {
    fn clone(&self) -> (result: Self)
        ensures
            result == *self,
    {
        AuditEntry {
            sequence_no: self.sequence_no,
            action: self.action.clone(),
            entity_type: self.entity_type.clone(),
            entity_id: self.entity_id,
            old_value: copy_text(&self.old_value),
            new_value: copy_text(&self.new_value),
            staff_id: self.staff_id,
            shift_id: self.shift_id,
            created_at: self.created_at,
        }
    }
}

impl Row for AuditEntry {
    open spec fn key(&self) -> i64 {
        self.sequence_no
    }

    fn id(&self) -> (result: i64) {
        self.sequence_no
    }

    fn copy_row(&self) -> (result: Self) {
        self.clone()
    }
}

/// Something worth a line in the audit log, before it is written.
#[derive(Clone, Copy, Debug)]
pub struct Event<'a> {
    pub action: &'a str,
    pub entity_type: &'a str,
    pub entity_id: Option<i64>,
    pub old_value: Option<&'a str>,
    pub new_value: Option<&'a str>,
    pub staff_id: Option<i64>,
    pub shift_id: Option<i64>,
    pub at: i64,
}

impl<'a> Event<'a> {
    pub fn new(action: &'a str, entity_type: &'a str, at: i64) -> (result: Event<'a>)
        ensures
            result == (Event {
                action,
                entity_type,
                entity_id: None,
                old_value: None,
                new_value: None,
                staff_id: None,
                shift_id: None,
                at,
            }),
    {
        Event {
            action,
            entity_type,
            entity_id: None,
            old_value: None,
            new_value: None,
            staff_id: None,
            shift_id: None,
            at,
        }
    }

    /// The row that it happened to.
    pub fn about(self, entity_id: i64) -> (result: Event<'a>)
        ensures
            result == (Event { entity_id: Some(entity_id), ..self }),
    {
        Event { entity_id: Some(entity_id), ..self }
    }

    /// What changed, from what to what.
    pub fn changed(self, before: &'a str, after: &'a str) -> (result: Event<'a>)
        ensures
            result == (Event { old_value: Some(before), new_value: Some(after), ..self }),
    {
        Event { old_value: Some(before), new_value: Some(after), ..self }
    }

    /// The facts as they now stand.
    pub fn recording(self, facts: &'a str) -> (result: Event<'a>)
        ensures
            result == (Event { new_value: Some(facts), ..self }),
    {
        Event { new_value: Some(facts), ..self }
    }

    pub fn done_by(self, staff_id: i64) -> (result: Event<'a>)
        ensures
            result == (Event { staff_id: Some(staff_id), ..self }),
    {
        Event { staff_id: Some(staff_id), ..self }
    }

    pub fn during(self, shift_id: Option<i64>) -> (result: Event<'a>)
        ensures
            result == (Event { shift_id, ..self }),
    {
        Event { shift_id, ..self }
    }
}

/// Whether an optional text holds what an optional slice held.
pub open spec fn same_text(stored: Option<String>, given: Option<&str>) -> bool {
    match (stored, given) {
        (Some(a), Some(b)) => a@ == b@,
        (None, None) => true,
        _ => false,
    }
}

/// Whether a line of the log is that event's.
pub open spec fn records(entry: AuditEntry, event: Event<'_>) -> bool {
    &&& entry.action@ == event.action@
    &&& entry.entity_type@ == event.entity_type@
    &&& entry.entity_id == event.entity_id
    &&& same_text(entry.old_value, event.old_value)
    &&& same_text(entry.new_value, event.new_value)
    &&& entry.staff_id == event.staff_id
    &&& entry.shift_id == event.shift_id
    &&& entry.created_at == event.at
}

/// Whether the log went from `before` to `after` by that one event.
pub open spec fn appended(before: Seq<AuditEntry>, after: Seq<AuditEntry>, event: Event<'_>) -> bool {
    &&& after.len() == before.len() + 1
    &&& after.drop_last() == before
    &&& records(after.last(), event)
    &&& fresh_id(before) == Some(after.last().sequence_no)
}

fn own(text: Option<&str>) -> (result: Option<String>)
    ensures
        same_text(result, text),
{
    match text {
        Some(text) => Some(text.to_owned()),
        None => None,
    }
}

/// Adds a line to the audit log.
pub fn append(db: &mut Store, event: &Event<'_>) -> (result: Result<i64, RepoError>)
    ensures
        ledgers_kept(*old(db), *final(db)),
        match result {
            Ok(sequence_no) => {
                &&& appended(old(db).audit@, final(db).audit@, *event)
                &&& final(db).audit@.last().sequence_no == sequence_no
                &&& *final(db) == (Store { audit: final(db).audit, ..*old(db) })
            },
            Err(error) => {
                &&& *final(db) == *old(db)
                &&& fresh_id(old(db).audit@) is None
                &&& error@ == Why::Sqlite(SqlWhy::Full)
            },
        },
{
    let sequence_no: i64 = match next_id(&db.audit) {
        Some(id) => id,
        None => {
            return Err(RepoError::Sqlite(SqlError::Full));
        },
    };
    let ghost before = db.audit@;
    db.audit.push(
        AuditEntry {
            sequence_no,
            action: event.action.to_owned(),
            entity_type: event.entity_type.to_owned(),
            entity_id: event.entity_id,
            old_value: own(event.old_value),
            new_value: own(event.new_value),
            staff_id: event.staff_id,
            shift_id: event.shift_id,
            created_at: event.at,
        },
    );
    assert(db.audit@.drop_last() =~= before);
    Ok(sequence_no)
}

} // verus!

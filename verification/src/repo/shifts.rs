//! Business-night shifts.
//!
//! A shift owns one immutable business date. It moves only from open to
//! closing to closed, and this module refuses known mistakes before a number
//! is taken.

use vstd::prelude::*;

use super::{refuse, RepoError, SqlError, SqlWhy, Why};
use crate::calendar::{business_date, read_business_date};
use crate::money::Money;
use crate::repo::cash::{CashMovement, MovementType};
use crate::repo::orders::{self, Order};
use crate::repo::receipts::{self, Attempt, Receipt};
use crate::repo::seq::{printed, Counter};
use crate::repo::staff::{self, is_active_cashier, person};
use crate::repo::tabs::{self, Tab};
use crate::store::{ledgers_kept, Store};
use crate::table::{
    any, any_row, choose_rows, chosen, find_place, find_row, fresh_id, in_order, next_id, place,
    row, sort_rows, Row,
};
use crate::text::{join3, same, trimmed};

verus! {

#[derive(Clone, Copy, Debug, PartialEq, Eq, Structural)]
pub enum Status {
    Open,
    Closing,
    Closed,
}

impl Status {
    /// The word it is stored under.
    pub open spec fn word(self) -> Seq<char> {
        match self {
            Status::Open => "OPEN"@,
            Status::Closing => "CLOSING"@,
            Status::Closed => "CLOSED"@,
        }
    }

    /// The word it is stored under.
    pub fn as_str(self) -> (result: &'static str)
        ensures
            result@ == self.word(),
    {
        match self {
            Status::Open => "OPEN",
            Status::Closing => "CLOSING",
            Status::Closed => "CLOSED",
        }
    }

    /// What a stored word stands for.
    pub open spec fn of_word(text: Seq<char>) -> Option<Status> {
        if text == "OPEN"@ {
            Some(Status::Open)
        } else if text == "CLOSING"@ {
            Some(Status::Closing)
        } else if text == "CLOSED"@ {
            Some(Status::Closed)
        } else {
            None
        }
    }

    fn read_word(text: &str) -> (result: Option<Status>)
        ensures
            result == Self::of_word(text@),
    {
        if same(text, "OPEN") {
            Some(Status::Open)
        } else if same(text, "CLOSING") {
            Some(Status::Closing)
        } else if same(text, "CLOSED") {
            Some(Status::Closed)
        } else {
            None
        }
    }

    /// A word that was stored reads back as what it stood for.
    pub proof fn a_stored_word_reads_back(self)
        ensures
            Self::of_word(self.word()) == Some(self),
    {
        reveal_strlit("OPEN");
        reveal_strlit("CLOSING");
        reveal_strlit("CLOSED");
        assert("CLOSING"@.len() != "OPEN"@.len());
        assert("CLOSED"@.len() != "OPEN"@.len());
        assert("CLOSED"@.len() != "CLOSING"@.len());
    }
}

impl Status {
    /// Reads a stored status.
    pub fn parse(text: &str) -> (result: Result<Status, RepoError>)
        ensures
            match Status::of_word(text@) {
                Some(status) => result == Ok::<Status, RepoError>(status),
                None => result matches Err(error) && error@ == Why::Refused(
                    "'"@ + text@ + "' is not a shift status this build knows"@,
                ),
            },
    {
        match Status::read_word(text) {
            Some(status) => Ok(status),
            None => refuse(join3("'", text, "' is not a shift status this build knows").as_str()),
        }
    }
}

/// One business night.
#[derive(Debug, PartialEq, Eq)]
pub struct Shift {
    pub id: i64,
    pub code: String,
    pub business_date: String,
    pub status: Status,
    pub opened_at: i64,
    pub opened_by: i64,
    pub opening_float: Money,
    pub expected_end_at: i64,
    pub closed_at: Option<i64>,
    pub closed_by: Option<i64>,
    pub counted_cash: Option<Money>,
}

impl Clone for Shift {
    fn clone(&self) -> (result: Self)
        ensures
            result == *self,
    {
        Shift {
            id: self.id,
            code: self.code.clone(),
            business_date: self.business_date.clone(),
            status: self.status,
            opened_at: self.opened_at,
            opened_by: self.opened_by,
            opening_float: self.opening_float,
            expected_end_at: self.expected_end_at,
            closed_at: self.closed_at,
            closed_by: self.closed_by,
            counted_cash: self.counted_cash,
        }
    }
}

impl Row for Shift {
    open spec fn key(&self) -> i64 {
        self.id
    }

    fn id(&self) -> (result: i64) {
        self.id
    }

    fn copy_row(&self) -> (result: Self) {
        self.clone()
    }
}

/// Facts snapshotted exactly once when a business night starts.
#[derive(Clone, Copy, Debug)]
pub struct NewShift<'a> {
    pub business_date: &'a str,
    pub opened_at: i64,
    pub opened_by: i64,
    pub opening_float: Money,
    pub expected_end_at: i64,
}

/// The shift with that identity.
pub open spec fn shift(db: Store, id: i64) -> Option<Shift> {
    row(db.shifts@, id)
}

pub fn find(db: &Store, id: i64) -> (result: Result<Shift, RepoError>)
    ensures
        match shift(*db, id) {
            Some(found) => result == Ok::<Shift, RepoError>(found),
            None => result matches Err(error) && error@ == Why::Missing("shift"@),
        },
{
    match find_row(&db.shifts, id) {
        Some(found) => Ok(found),
        None => Err(RepoError::Missing { what: "shift" }),
    }
}

pub open spec fn is_unfinished() -> spec_fn(Shift) -> bool {
    |s: Shift| s.status == Status::Open || s.status == Status::Closing
}

pub open spec fn opened_later() -> spec_fn(Shift, Shift) -> bool {
    |a: Shift, b: Shift| a.opened_at > b.opened_at
}

/// The business night that has not yet finished, if there is one.
pub open spec fn running_shift(db: Store) -> Option<Shift> {
    let found = in_order(chosen(db.shifts@, is_unfinished()), opened_later());
    if found.len() > 0 {
        Some(found[0])
    } else {
        None
    }
}

/// The one business night that has not yet finished, if there is one.
pub fn active(db: &Store) -> (result: Option<Shift>)
    ensures
        result == running_shift(*db),
{
    let found: Vec<Shift> = choose_rows(
        &db.shifts,
        |s: &Shift| -> (r: bool)
            ensures
                r == (s.status == Status::Open || s.status == Status::Closing)
            { s.status == Status::Open || s.status == Status::Closing },
        Ghost(is_unfinished()),
    );
    let sorted: Vec<Shift> = sort_rows(
        &found,
        |a: &Shift, b: &Shift| -> (r: bool)
            ensures
                r == (a.opened_at > b.opened_at)
            { a.opened_at > b.opened_at },
        Ghost(opened_later()),
    );
    if sorted.len() > 0 {
        Some(sorted[0].clone())
    } else {
        None
    }
}

pub open spec fn is_finished() -> spec_fn(Shift) -> bool {
    |s: Shift| s.status == Status::Closed
}

/// The nights that have closed, the most recent first.
pub open spec fn closed_nights(db: Store) -> Seq<Shift> {
    in_order(chosen(db.shifts@, is_finished()), opened_later())
}

/// The nights that have closed, the most recent first.
pub fn closed(db: &Store) -> (result: Vec<Shift>)
    ensures
        result@ == closed_nights(*db),
{
    let found: Vec<Shift> = choose_rows(
        &db.shifts,
        |s: &Shift| -> (r: bool)
            ensures
                r == (s.status == Status::Closed)
            { s.status == Status::Closed },
        Ghost(is_finished()),
    );
    sort_rows(
        &found,
        |a: &Shift, b: &Shift| -> (r: bool)
            ensures
                r == (a.opened_at > b.opened_at)
            { a.opened_at > b.opened_at },
        Ghost(opened_later()),
    )
}

/// What keeps somebody from operating the shift; nothing, where they may.
pub open spec fn operator_refusal(db: Store, id: i64) -> Option<Why> {
    match person(db, id) {
        None => Some(Why::Missing("person"@)),
        Some(found) => if is_active_cashier(found) {
            None
        } else {
            Some(Why::Refused("an active cashier must operate the shift"@))
        },
    }
}

fn require_cashier(db: &Store, id: i64) -> (result: Result<(), RepoError>)
    ensures
        match operator_refusal(*db, id) {
            None => result is Ok,
            Some(why) => result matches Err(error) && error@ == why,
        },
{
    match staff::find(db, id) {
        Ok(person) => {
            if !person.active || person.role != staff::Role::Cashier {
                return refuse("an active cashier must operate the shift");
            }
            Ok(())
        },
        Err(error) => Err(error),
    }
}

/// A night that traded on that date.
pub open spec fn traded_on(date: Seq<char>) -> spec_fn(Shift) -> bool {
    |s: Shift| s.business_date@ == date
}

/// Why a night cannot open; nothing, where it can.
///
/// `dated` says whether the business date is a date.
pub open spec fn open_refusal_given(db: Store, new: NewShift<'_>, dated: bool) -> Option<Why> {
    match operator_refusal(db, new.opened_by) {
        Some(why) => Some(why),
        None => if new.opening_float.minor < 0 {
            Some(Why::Refused("an opening float cannot be negative"@))
        } else if !dated {
            Some(Why::Refused("a business date must be written as YYYY-MM-DD"@))
        } else if running_shift(db) is Some {
            Some(Why::Refused("finish the active shift before opening another"@))
        } else if any(db.shifts@, traded_on(trimmed(new.business_date@))) {
            Some(Why::Refused("that business date has already traded"@))
        } else if fresh_id(db.shifts@) is None {
            Some(Why::Sqlite(SqlWhy::Full))
        } else if new.opening_float.minor != 0 && fresh_id(db.cash@) is None {
            Some(Why::Sqlite(SqlWhy::Full))
        } else if !db.sequences.has_next(Counter::Shift) {
            Some(Why::Sqlite(SqlWhy::Overflow))
        } else {
            None
        },
    }
}

/// Why a night cannot open; nothing, where it can.
pub open spec fn open_refusal(db: Store, new: NewShift<'_>) -> Option<Why> {
    open_refusal_given(db, new, business_date(trimmed(new.business_date@)) is Some)
}

/// Whether a shift is the one that was asked for.
pub open spec fn opened_as(shift: Shift, new: NewShift<'_>, id: i64, number: i64) -> bool {
    &&& shift.id == id
    &&& shift.code@ == printed(Counter::Shift, number)
    &&& shift.business_date@ == trimmed(new.business_date@)
    &&& shift.status == Status::Open
    &&& shift.opened_at == new.opened_at
    &&& shift.opened_by == new.opened_by
    &&& shift.opening_float == new.opening_float
    &&& shift.expected_end_at == new.expected_end_at
    &&& shift.closed_at is None
    &&& shift.closed_by is None
    &&& shift.counted_cash is None
}

/// Whether a drawer movement is the opening float of a shift.
pub open spec fn is_float(movement: CashMovement, shift: Shift) -> bool {
    &&& movement.shift_id == shift.id
    &&& movement.movement_type == MovementType::OpeningFloat
    &&& movement.amount == shift.opening_float
    &&& movement.category is None
    &&& movement.reason@ == ""@
    &&& movement.reconciliation_id is None
    &&& movement.created_by == shift.opened_by
    &&& movement.created_at == shift.opened_at
}

/// What opening a night changes: the night, its number, and its float on the
/// drawer ledger where there is one.
pub open spec fn night_opened(before: Store, after: Store, new: NewShift<'_>, shift: Shift) -> bool {
    &&& fresh_id(before.shifts@) == Some(shift.id)
    &&& opened_as(shift, new, shift.id, before.sequences.upcoming(Counter::Shift))
    &&& after.shifts@ == before.shifts@.push(shift)
    &&& after.sequences == before.sequences.after(Counter::Shift)
    &&& if new.opening_float.minor == 0 {
        after.cash@ == before.cash@
    } else {
        &&& after.cash@.len() == before.cash@.len() + 1
        &&& after.cash@.drop_last() == before.cash@
        &&& fresh_id(before.cash@) == Some(after.cash@.last().id)
        &&& is_float(after.cash@.last(), shift)
    }
    &&& after == (Store {
        shifts: after.shifts,
        sequences: after.sequences,
        cash: after.cash,
        ..before
    })
}

/// Open one business night and put a positive float onto the drawer ledger.
///
/// The business date and the expected end are supplied by the calendar and
/// stored verbatim.
pub fn open(db: &mut Store, new: &NewShift<'_>) -> (result: Result<Shift, RepoError>)
    ensures
        ledgers_kept(*old(db), *final(db)),
        match result {
            Ok(shift) => {
                &&& open_refusal(*old(db), *new) is None
                &&& night_opened(*old(db), *final(db), *new, shift)
            },
            Err(error) => {
                &&& *final(db) == *old(db)
                &&& open_refusal(*old(db), *new) == Some(error@)
            },
        },
{
    let dated: bool = read_business_date(new.business_date.trim()).is_some();
    open_dated(db, new, dated)
}

/// Opens a business night, given whether its business date is a date.
pub fn open_dated(db: &mut Store, new: &NewShift<'_>, dated: bool) -> (result: Result<
    Shift,
    RepoError,
>)
    ensures
        ledgers_kept(*old(db), *final(db)),
        match result {
            Ok(shift) => {
                &&& open_refusal_given(*old(db), *new, dated) is None
                &&& night_opened(*old(db), *final(db), *new, shift)
            },
            Err(error) => {
                &&& *final(db) == *old(db)
                &&& open_refusal_given(*old(db), *new, dated) == Some(error@)
            },
        },
{
    match require_cashier(db, new.opened_by) {
        Ok(_) => {},
        Err(error) => {
            return Err(error);
        },
    }
    if new.opening_float.is_negative() {
        return refuse("an opening float cannot be negative");
    }
    let date: &str = new.business_date.trim();
    if !dated {
        return refuse("a business date must be written as YYYY-MM-DD");
    }
    if active(db).is_some() {
        return refuse("finish the active shift before opening another");
    }
    if any_row(
        &db.shifts,
        |s: &Shift| -> (r: bool)
            ensures
                r == (s.business_date@ == date@)
            { same(s.business_date.as_str(), date) },
        Ghost(traded_on(date@)),
    ) {
        return refuse("that business date has already traded");
    }
    let id: i64 = match next_id(&db.shifts) {
        Some(id) => id,
        None => {
            return Err(RepoError::Sqlite(SqlError::Full));
        },
    };
    let float_id: Option<i64> = next_id(&db.cash);
    if !new.opening_float.is_zero() && float_id.is_none() {
        return Err(RepoError::Sqlite(SqlError::Full));
    }
    let (_, code): (i64, String) = match crate::repo::seq::next(db, Counter::Shift) {
        Ok(taken) => taken,
        Err(error) => {
            return Err(error);
        },
    };
    let shift: Shift = Shift {
        id,
        code,
        business_date: date.to_owned(),
        status: Status::Open,
        opened_at: new.opened_at,
        opened_by: new.opened_by,
        opening_float: new.opening_float,
        expected_end_at: new.expected_end_at,
        closed_at: None,
        closed_by: None,
        counted_cash: None,
    };
    db.shifts.push(shift.clone());
    if !new.opening_float.is_zero() {
        if let Some(float_id) = float_id {
            let ghost before = db.cash@;
            db.cash.push(
                CashMovement {
                    id: float_id,
                    shift_id: id,
                    movement_type: MovementType::OpeningFloat,
                    amount: new.opening_float,
                    category: None,
                    reason: "".to_owned(),
                    reconciliation_id: None,
                    created_by: new.opened_by,
                    created_at: new.opened_at,
                },
            );
            assert(db.cash@.drop_last() =~= before);
        }
    }
    Ok(shift)
}

// ---------------------------------------------------------------------------
// Closing
// ---------------------------------------------------------------------------

pub open spec fn is_printing() -> spec_fn(Order) -> bool {
    |o: Order| o.status == orders::Status::Printing
}

/// An issue receipt of that order that was confirmed not to have printed.
pub open spec fn void_issue_of(order_id: i64) -> spec_fn(Receipt) -> bool {
    |r: Receipt|
        r.order_id == Some(order_id) && r.kind == receipts::Kind::Issue && r.status
            == receipts::Status::Void
}

/// A draft whose slip was confirmed not to have printed and which nobody has
/// retried or abandoned yet.
pub open spec fn is_unresolved_draft(db: Store) -> spec_fn(Order) -> bool {
    |o: Order| o.status == orders::Status::Draft && any(db.receipts@, void_issue_of(o.id))
}

pub open spec fn is_unanswered() -> spec_fn(Attempt) -> bool {
    |a: Attempt| a.outcome == receipts::Outcome::Unknown
}

/// Whether all crash-sensitive print work has been resolved.
pub open spec fn recovered(db: Store) -> bool {
    &&& !any(db.orders@, is_printing())
    &&& !any(db.orders@, is_unresolved_draft(db))
    &&& !any(db.prints@, is_unanswered())
}

/// Whether all crash-sensitive print work has been resolved.
pub fn recovery_complete(db: &Store) -> (result: bool)
    ensures
        result == recovered(*db),
{
    if any_row(
        &db.orders,
        |o: &Order| -> (r: bool)
            ensures
                r == (o.status == orders::Status::Printing)
            { o.status == orders::Status::Printing },
        Ghost(is_printing()),
    ) {
        return false;
    }
    if any_row(
        &db.orders,
        |o: &Order| -> (r: bool)
            ensures
                r == (o.status == orders::Status::Draft && any(
                    db.receipts@,
                    void_issue_of(o.id),
                ))
            { o.status == orders::Status::Draft && has_void_issue(db, o.id) },
        Ghost(is_unresolved_draft(*db)),
    ) {
        return false;
    }
    !any_row(
        &db.prints,
        |a: &Attempt| -> (r: bool)
            ensures
                r == (a.outcome == receipts::Outcome::Unknown)
            { a.outcome == receipts::Outcome::Unknown },
        Ghost(is_unanswered()),
    )
}

fn has_void_issue(db: &Store, order_id: i64) -> (result: bool)
    ensures
        result == any(db.receipts@, void_issue_of(order_id)),
{
    any_row(
        &db.receipts,
        |r: &Receipt| -> (b: bool)
            ensures
                b == (r.order_id == Some(order_id) && r.kind == receipts::Kind::Issue && r.status
                    == receipts::Status::Void)
            {
                r.order_id == Some(order_id) && r.kind == receipts::Kind::Issue && r.status
                    == receipts::Status::Void
            },
        Ghost(void_issue_of(order_id)),
    )
}

pub open spec fn is_unsettled() -> spec_fn(Tab) -> bool {
    |t: Tab| t.status == tabs::Status::Open || t.status == tabs::Status::Closed
}

/// Why a night cannot be sealed; nothing, where it can.
pub open spec fn close_refusal(
    db: Store,
    shift_id: i64,
    counted_cash: Money,
    by: i64,
    at: i64,
) -> Option<Why> {
    match operator_refusal(db, by) {
        Some(why) => Some(why),
        None => if counted_cash.minor < 0 {
            Some(Why::Refused("a counted drawer cannot hold less than nothing"@))
        } else {
            match shift(db, shift_id) {
                None => Some(Why::Missing("shift"@)),
                Some(found) => if found.status != Status::Closing {
                    Some(Why::Refused("only a shift that has begun closing can be closed"@))
                } else if at < found.opened_at {
                    Some(Why::Refused("a night cannot close before it opened"@))
                } else if !recovered(db) {
                    Some(
                        Why::Refused(
                            "resolve every outstanding print attempt before closing the shift"@,
                        ),
                    )
                } else if any(db.tabs@, is_unsettled()) {
                    Some(
                        Why::Refused(
                            "every tab must be settled and reconciled before the night closes"@,
                        ),
                    )
                } else {
                    None
                },
            }
        },
    }
}

/// A shift after the night was sealed.
pub open spec fn sealed(shift: Shift, counted_cash: Money, by: i64, at: i64) -> Shift {
    Shift {
        status: Status::Closed,
        closed_at: Some(at),
        closed_by: Some(by),
        counted_cash: Some(counted_cash),
        ..shift
    }
}

/// Whether a store is another with one night sealed.
pub open spec fn night_sealed(
    before: Store,
    after: Store,
    shift_id: i64,
    counted_cash: Money,
    by: i64,
    at: i64,
    closed: Shift,
) -> bool {
    &&& place(before.shifts@, shift_id) matches Some(p) && ({
        &&& closed == sealed(before.shifts@[p], counted_cash, by, at)
        &&& after.shifts@ == before.shifts@.update(p, closed)
    })
    &&& after == (Store { shifts: after.shifts, ..before })
}

/// Seal the night with what was actually counted out of the drawer.
///
/// The count is physical, not derived from the ledger: the difference between
/// the two is the whole point of counting. A tab still open, or closed but
/// never settled, means money is unaccounted for, and the night stays open.
pub fn close(db: &mut Store, shift_id: i64, counted_cash: Money, by: i64, at: i64) -> (result:
    Result<Shift, RepoError>)
    ensures
        ledgers_kept(*old(db), *final(db)),
        match result {
            Ok(closed) => {
                &&& close_refusal(*old(db), shift_id, counted_cash, by, at) is None
                &&& night_sealed(*old(db), *final(db), shift_id, counted_cash, by, at, closed)
            },
            Err(error) => {
                &&& *final(db) == *old(db)
                &&& close_refusal(*old(db), shift_id, counted_cash, by, at) == Some(error@)
            },
        },
{
    match require_cashier(db, by) {
        Ok(_) => {},
        Err(error) => {
            return Err(error);
        },
    }
    if counted_cash.is_negative() {
        return refuse("a counted drawer cannot hold less than nothing");
    }
    let p: usize = match find_place(&db.shifts, shift_id) {
        Some(p) => p,
        None => {
            return Err(RepoError::Missing { what: "shift" });
        },
    };
    if db.shifts[p].status != Status::Closing {
        return refuse("only a shift that has begun closing can be closed");
    }
    if at < db.shifts[p].opened_at {
        return refuse("a night cannot close before it opened");
    }
    if !recovery_complete(db) {
        return refuse("resolve every outstanding print attempt before closing the shift");
    }
    if any_row(
        &db.tabs,
        |t: &Tab| -> (r: bool)
            ensures
                r == (t.status == tabs::Status::Open || t.status == tabs::Status::Closed)
            { t.status == tabs::Status::Open || t.status == tabs::Status::Closed },
        Ghost(is_unsettled()),
    ) {
        return refuse("every tab must be settled and reconciled before the night closes");
    }
    let mut closed: Shift = db.shifts[p].clone();
    closed.status = Status::Closed;
    closed.closed_at = Some(at);
    closed.closed_by = Some(by);
    closed.counted_cash = Some(counted_cash);
    db.shifts.set(p, closed.clone());
    Ok(closed)
}

/// Why end-of-day cannot begin; nothing, where it can.
pub open spec fn begin_closing_refusal(db: Store, shift_id: i64, by: i64) -> Option<Why> {
    match operator_refusal(db, by) {
        Some(why) => Some(why),
        None => match shift(db, shift_id) {
            None => Some(Why::Missing("shift"@)),
            Some(found) => if found.status != Status::Open {
                Some(Why::Refused("only an open shift can begin closing"@))
            } else if !recovered(db) {
                Some(
                    Why::Refused(
                        "resolve every outstanding print attempt before closing the shift"@,
                    ),
                )
            } else {
                None
            },
        },
    }
}

/// Whether a store is another with one night that has begun to close.
pub open spec fn night_closing(
    before: Store,
    after: Store,
    shift_id: i64,
    closing: Shift,
) -> bool {
    &&& place(before.shifts@, shift_id) matches Some(p) && ({
        &&& closing == (Shift { status: Status::Closing, ..before.shifts@[p] })
        &&& after.shifts@ == before.shifts@.update(p, closing)
    })
    &&& after == (Store { shifts: after.shifts, ..before })
}

/// Stop new trading only after the print-recovery gate is clear.
pub fn begin_closing(db: &mut Store, shift_id: i64, by: i64) -> (result: Result<Shift, RepoError>)
    ensures
        ledgers_kept(*old(db), *final(db)),
        match result {
            Ok(closing) => {
                &&& begin_closing_refusal(*old(db), shift_id, by) is None
                &&& night_closing(*old(db), *final(db), shift_id, closing)
            },
            Err(error) => {
                &&& *final(db) == *old(db)
                &&& begin_closing_refusal(*old(db), shift_id, by) == Some(error@)
            },
        },
{
    match require_cashier(db, by) {
        Ok(_) => {},
        Err(error) => {
            return Err(error);
        },
    }
    let p: usize = match find_place(&db.shifts, shift_id) {
        Some(p) => p,
        None => {
            return Err(RepoError::Missing { what: "shift" });
        },
    };
    if db.shifts[p].status != Status::Open {
        return refuse("only an open shift can begin closing");
    }
    if !recovery_complete(db) {
        return refuse("resolve every outstanding print attempt before closing the shift");
    }
    let mut closing: Shift = db.shifts[p].clone();
    closing.status = Status::Closing;
    db.shifts.set(p, closing.clone());
    Ok(closing)
}

/// Whether a night has gone on for longer than it should.
pub open spec fn overdue(shift: Shift, now: i64) -> bool {
    shift.status != Status::Closed && now > shift.expected_end_at
}

/// The warning is based on the expected end frozen at open, never today's
/// calendar setting.
pub fn is_overdue(shift: &Shift, now: i64) -> (result: bool)
    ensures
        result == overdue(*shift, now),
{
    shift.status != Status::Closed && now > shift.expected_end_at
}

/// A night that may be sealed has nothing left to print, settle or collect.
pub proof fn a_sealed_night_left_nothing_behind(
    db: Store,
    shift_id: i64,
    counted_cash: Money,
    by: i64,
    at: i64,
)
    requires
        close_refusal(db, shift_id, counted_cash, by, at) is None,
    ensures
        forall|i: int|
            0 <= i < db.tabs@.len() ==> (#[trigger] db.tabs@[i]).status
                == tabs::Status::Reconciled,
        forall|i: int|
            0 <= i < db.orders@.len() ==> (#[trigger] db.orders@[i]).status
                != orders::Status::Printing,
        forall|i: int|
            0 <= i < db.prints@.len() ==> (#[trigger] db.prints@[i]).outcome
                != receipts::Outcome::Unknown,
{
    assert forall|i: int| 0 <= i < db.tabs@.len() implies (#[trigger] db.tabs@[i]).status
        == tabs::Status::Reconciled by {
        assert(!is_unsettled()(db.tabs@[i]));
    }
    assert forall|i: int| 0 <= i < db.orders@.len() implies (#[trigger] db.orders@[i]).status
        != orders::Status::Printing by {
        assert(!is_printing()(db.orders@[i]));
    }
    assert forall|i: int| 0 <= i < db.prints@.len() implies (#[trigger] db.prints@[i]).outcome
        != receipts::Outcome::Unknown by {
        assert(!is_unanswered()(db.prints@[i]));
    }
}

/// A business date trades once: opening a night leaves no other night with
/// its date, and no other night running.
pub proof fn a_business_date_trades_once(
    before: Store,
    after: Store,
    new: NewShift<'_>,
    shift: Shift,
)
    requires
        open_refusal(before, new) is None,
        night_opened(before, after, new, shift),
    ensures
        forall|i: int|
            0 <= i < before.shifts@.len() ==> (#[trigger] before.shifts@[i]).business_date@
                != shift.business_date@,
        forall|i: int|
            0 <= i < before.shifts@.len() ==> (#[trigger] before.shifts@[i]).status
                == Status::Closed,
{
    assert forall|i: int| 0 <= i < before.shifts@.len() implies (
    #[trigger] before.shifts@[i]).business_date@ != shift.business_date@ by {
        assert(!traded_on(trimmed(new.business_date@))(before.shifts@[i]));
    }
    let unfinished = chosen(before.shifts@, is_unfinished());
    crate::table::ordering_keeps_every_row(unfinished, opened_later());
    crate::table::chosen_meet_the_condition(before.shifts@, is_unfinished());
    broadcast use vstd::seq_lib::group_to_multiset_ensures;

    assert(in_order(unfinished, opened_later()).len() == unfinished.len());
    assert forall|i: int| 0 <= i < before.shifts@.len() implies (
    #[trigger] before.shifts@[i]).status == Status::Closed by {
        assert(!is_unfinished()(before.shifts@[i]));
    }
}

} // verus!

//! Frozen bills, waiter settlements, and the drawer.
//!
//! Closing a tab records what the waiter owes; it does **not** put money in
//! the drawer. Only a finalized cash reconciliation does. Keeping those paths
//! apart is the main control in this module: [`expected_cash`] is only a
//! checked sum of the cash ledger.

use vstd::prelude::*;

use super::{refuse, refused, RepoError, SqlError, SqlWhy, Why};
use crate::bill::Bill;
use crate::money::{fits, money_text, BasisPoints, Money};
use crate::repo::catalogue::first_chosen;
use crate::repo::receipts::{first_payment, payment_of};
use crate::repo::shifts::{self, shift};
use crate::repo::staff::{self, is_active_cashier, person};
use crate::repo::tabs::{self, chars_in, tab, tab_total, Tab};
use crate::settings::{charges_of, settings_map, Settings};
use crate::store::{ledgers_kept, Store};
use crate::table::{
    any, any_row, changing_keeps_places, choose_rows, chosen, find_place, find_row, fresh_id,
    in_order, next_id, place, row, running_sum, sort_rows, sum_rows, writing_keeps_places, Row,
};
use crate::text::{copy_text, is_blank, join3, same, trimmed};

verus! {

/// The bill of a closed tab, as it stood when the tab was closed.
#[derive(Debug, PartialEq, Eq)]
pub struct TabPayment {
    pub id: i64,
    pub tab_id: i64,
    pub waiter_id: i64,
    pub subtotal: Money,
    pub service_charge: Money,
    pub tax: Money,
    pub total: Money,
    pub liability: Money,
    pub is_comped: bool,
    pub comp_reason: Option<String>,
    pub tax_rate: BasisPoints,
    pub service_rate: BasisPoints,
    pub tax_inclusive: bool,
    pub charge_rates_known: bool,
    pub shift_id: i64,
    pub created_by: i64,
    pub created_at: i64,
}

impl Clone for TabPayment {
    fn clone(&self) -> (result: Self)
        ensures
            result == *self,
    {
        TabPayment {
            id: self.id,
            tab_id: self.tab_id,
            waiter_id: self.waiter_id,
            subtotal: self.subtotal,
            service_charge: self.service_charge,
            tax: self.tax,
            total: self.total,
            liability: self.liability,
            is_comped: self.is_comped,
            comp_reason: copy_text(&self.comp_reason),
            tax_rate: self.tax_rate,
            service_rate: self.service_rate,
            tax_inclusive: self.tax_inclusive,
            charge_rates_known: self.charge_rates_known,
            shift_id: self.shift_id,
            created_by: self.created_by,
            created_at: self.created_at,
        }
    }
}

impl Row for TabPayment {
    open spec fn key(&self) -> i64 {
        self.id
    }

    fn id(&self) -> (result: i64) {
        self.id
    }

    fn copy_row(&self) -> (result: Self) {
        self.clone()
    }
}

/// Close-time facts that cannot be derived from the closed tab itself.
///
/// Money and rates are intentionally absent. [`freeze_payment`] derives them
/// from issued lines and the venue's charges, so nobody can store a bill that
/// adds up and is false.
#[derive(Clone, Copy, Debug)]
pub struct NewTabPayment<'a> {
    pub tab_id: i64,
    pub comp_reason: Option<&'a str>,
    pub shift_id: i64,
    pub created_by: i64,
    pub created_at: i64,
}

// ---------------------------------------------------------------------------
// Who and when
// ---------------------------------------------------------------------------

/// What keeps somebody from handling money; nothing, where they may.
pub open spec fn money_refusal(db: Store, id: i64) -> Option<Why> {
    match person(db, id) {
        None => Some(Why::Missing("person"@)),
        Some(found) => if is_active_cashier(found) {
            None
        } else {
            Some(Why::Refused("an active cashier must operate the money workflow"@))
        },
    }
}

fn require_cashier(db: &Store, id: i64) -> (result: Result<(), RepoError>)
    ensures
        match money_refusal(*db, id) {
            None => result is Ok,
            Some(why) => result matches Err(error) && error@ == why,
        },
{
    match staff::find(db, id) {
        Ok(found) => {
            if !found.active || found.role != staff::Role::Cashier {
                return refuse("an active cashier must operate the money workflow");
            }
            Ok(())
        },
        Err(error) => Err(error),
    }
}

/// What keeps somebody from having a balance; nothing, where they have one.
pub open spec fn waiter_refusal(db: Store, id: i64) -> Option<Why> {
    match person(db, id) {
        None => Some(Why::Missing("person"@)),
        Some(found) => if found.role == staff::Role::Waiter {
            None
        } else {
            Some(Why::Refused("a waiter balance must belong to a waiter"@))
        },
    }
}

fn require_waiter(db: &Store, id: i64) -> (result: Result<(), RepoError>)
    ensures
        match waiter_refusal(*db, id) {
            None => result is Ok,
            Some(why) => result matches Err(error) && error@ == why,
        },
{
    match staff::find(db, id) {
        Ok(found) => {
            if found.role != staff::Role::Waiter {
                return refuse("a waiter balance must belong to a waiter");
            }
            Ok(())
        },
        Err(error) => Err(error),
    }
}

/// What keeps money out of a shift; nothing, where it belongs there.
pub open spec fn money_shift_refusal(db: Store, id: i64) -> Option<Why> {
    match shift(db, id) {
        None => Some(Why::Missing("shift"@)),
        Some(night) => if night.status == shifts::Status::Open {
            None
        } else {
            Some(Why::Refused("money operations require an open shift"@))
        },
    }
}

fn require_open_shift(db: &Store, id: i64) -> (result: Result<(), RepoError>)
    ensures
        match money_shift_refusal(*db, id) {
            None => result is Ok,
            Some(why) => result matches Err(error) && error@ == why,
        },
{
    match shifts::find(db, id) {
        Ok(night) => {
            if night.status != shifts::Status::Open {
                return refuse("money operations require an open shift");
            }
            Ok(())
        },
        Err(error) => Err(error),
    }
}

/// The refusal of a sum that leaves 64 bits.
pub open spec fn too_much() -> Why {
    Why::Refused("money arithmetic overflowed 64 bits"@)
}

fn overflow() -> (result: RepoError)
    ensures
        result@ == too_much(),
{
    refused("money arithmetic overflowed 64 bits")
}

// ---------------------------------------------------------------------------
// Frozen bills
// ---------------------------------------------------------------------------

pub fn payment_for_tab(db: &Store, tab_id: i64) -> (result: Result<TabPayment, RepoError>)
    ensures
        match first_chosen(db.payments@, payment_of(tab_id)) {
            Some(found) => result == Ok::<TabPayment, RepoError>(found),
            None => result matches Err(error) && error@ == Why::Missing("frozen tab payment"@),
        },
{
    match first_payment(db, tab_id) {
        Some(found) => Ok(found),
        None => Err(RepoError::Missing { what: "frozen tab payment" }),
    }
}

/// Whether a reason is given that says nothing, or none at all.
pub open spec fn says_nothing(reason: Option<&str>) -> bool {
    match reason {
        None => true,
        Some(text) => is_blank(text@),
    }
}

/// What the charges of the venue make of the lines of a tab.
pub open spec fn bill_of(db: Store, tab_id: i64, bill: Bill) -> bool {
    tab_total(db, tab_id) matches Ok(lines) && bill.is_for(
        lines,
        charges_of(settings_map(db.settings@)),
    )
}

/// Why the bill of a tab cannot be frozen; nothing, where it can.
pub open spec fn freeze_payment_refusal(db: Store, new: NewTabPayment<'_>) -> Option<Why> {
    match money_refusal(db, new.created_by) {
        Some(why) => Some(why),
        None => match money_shift_refusal(db, new.shift_id) {
            Some(why) => Some(why),
            None => match tab(db, new.tab_id) {
                None => Some(Why::Missing("tab"@)),
                Some(found) => if found.status != tabs::Status::Closed {
                    Some(Why::Refused("a bill can only be frozen for a closed tab"@))
                } else if found.closed_shift_id != Some(new.shift_id) {
                    Some(
                        Why::Refused(
                            "the frozen bill must belong to the shift that closed the tab"@,
                        ),
                    )
                } else {
                    match tab_total(db, new.tab_id) {
                        Err(why) => Some(why),
                        Ok(lines) => if !charges_of(settings_map(db.settings@)).billable(
                            lines.minor as int,
                        ) {
                            Some(
                                Why::Refused(
                                    "that frozen bill is too large to calculate safely"@,
                                ),
                            )
                        } else if found.is_comped && says_nothing(new.comp_reason) {
                            Some(Why::Refused("a comped tab needs a reason"@))
                        } else if !found.is_comped && new.comp_reason is Some {
                            Some(Why::Refused("a chargeable tab cannot carry a comp reason"@))
                        } else if fresh_id(db.payments@) is None {
                            Some(Why::Sqlite(SqlWhy::Full))
                        } else {
                            None
                        },
                    }
                },
            },
        },
    }
}

/// Whether a payment is the bill of a tab: the waiter owes all of it, or
/// nothing where the house pays.
pub open spec fn frozen_for(payment: TabPayment, db: Store, new: NewTabPayment<'_>) -> bool {
    &&& fresh_id(db.payments@) == Some(payment.id)
    &&& payment.tab_id == new.tab_id
    &&& tab(db, new.tab_id) matches Some(found) && ({
        &&& payment.waiter_id == found.waiter_id
        &&& payment.is_comped == found.is_comped
        &&& payment.liability == (if found.is_comped {
            Money { minor: 0 }
        } else {
            payment.total
        })
    })
    &&& bill_of(
        db,
        new.tab_id,
        Bill {
            net: payment.subtotal,
            service_charge: payment.service_charge,
            tax: payment.tax,
            total: payment.total,
            tax_rate: payment.tax_rate,
            service_rate: payment.service_rate,
            tax_inclusive: payment.tax_inclusive,
        },
    )
    &&& chars_in(payment.comp_reason) == (match new.comp_reason {
        Some(text) => Some(trimmed(text@)),
        None => None,
    })
    &&& payment.charge_rates_known
    &&& payment.shift_id == new.shift_id
    &&& payment.created_by == new.created_by
    &&& payment.created_at == new.created_at
}

/// Freeze the bill after the tab's closing facts have been set.
pub fn freeze_payment(db: &mut Store, new: &NewTabPayment<'_>) -> (result: Result<
    TabPayment,
    RepoError,
>)
    ensures
        ledgers_kept(*old(db), *final(db)),
        match result {
            Ok(payment) => {
                &&& freeze_payment_refusal(*old(db), *new) is None
                &&& final(db).payments@.len() == old(db).payments@.len() + 1
                &&& final(db).payments@.drop_last() == old(db).payments@
                &&& frozen_for(final(db).payments@.last(), *old(db), *new)
                &&& first_chosen(final(db).payments@, payment_of(new.tab_id)) == Some(payment)
                &&& first_chosen(old(db).payments@, payment_of(new.tab_id)) is None ==> payment
                    == final(db).payments@.last()
                &&& *final(db) == (Store { payments: final(db).payments, ..*old(db) })
            },
            Err(error) => {
                &&& *final(db) == *old(db)
                &&& freeze_payment_refusal(*old(db), *new) == Some(error@)
            },
        },
{
    match require_cashier(db, new.created_by) {
        Ok(_) => {},
        Err(error) => {
            return Err(error);
        },
    }
    match require_open_shift(db, new.shift_id) {
        Ok(_) => {},
        Err(error) => {
            return Err(error);
        },
    }
    let found: Tab = match tabs::find(db, new.tab_id) {
        Ok(found) => found,
        Err(error) => {
            return Err(error);
        },
    };
    if found.status != tabs::Status::Closed {
        return refuse("a bill can only be frozen for a closed tab");
    }
    if found.closed_shift_id != Some(new.shift_id) {
        return refuse("the frozen bill must belong to the shift that closed the tab");
    }
    let lines: Money = match tabs::running_total(db, new.tab_id) {
        Ok(lines) => lines,
        Err(error) => {
            return Err(error);
        },
    };
    let bill: Bill = match Bill::calculate(lines, &Settings::load(db).charge_config()) {
        Ok(bill) => bill,
        Err(_) => {
            return refuse("that frozen bill is too large to calculate safely");
        },
    };
    let comp_reason: Option<String> = match new.comp_reason {
        Some(text) => Some(text.trim().to_owned()),
        None => None,
    };
    if found.is_comped {
        let silent: bool = match new.comp_reason {
            Some(text) => text.trim().is_empty(),
            None => true,
        };
        if silent {
            return refuse("a comped tab needs a reason");
        }
    } else if new.comp_reason.is_some() {
        return refuse("a chargeable tab cannot carry a comp reason");
    }
    let id: i64 = match next_id(&db.payments) {
        Some(id) => id,
        None => {
            return Err(RepoError::Sqlite(SqlError::Full));
        },
    };
    let payment: TabPayment = TabPayment {
        id,
        tab_id: new.tab_id,
        waiter_id: found.waiter_id,
        subtotal: bill.net,
        service_charge: bill.service_charge,
        tax: bill.tax,
        total: bill.total,
        liability: if found.is_comped {
            Money::zero()
        } else {
            bill.total
        },
        is_comped: found.is_comped,
        comp_reason,
        tax_rate: bill.tax_rate,
        service_rate: bill.service_rate,
        tax_inclusive: bill.tax_inclusive,
        charge_rates_known: true,
        shift_id: new.shift_id,
        created_by: new.created_by,
        created_at: new.created_at,
    };
    let ghost before = db.payments@;
    db.payments.push(payment.clone());
    assert(db.payments@.drop_last() =~= before);
    proof {
        let wanted = payment_of(new.tab_id);
        assert(chosen(db.payments@, wanted) == chosen(before, wanted).push(payment));
    }
    payment_for_tab(db, new.tab_id)
}

// ---------------------------------------------------------------------------
// What a waiter holds
// ---------------------------------------------------------------------------

/// What a waiter has been made to owe.
pub open spec fn owed_by(waiter_id: i64) -> spec_fn(TabPayment) -> Option<i64> {
    |p: TabPayment|
        if p.waiter_id == waiter_id {
            Some(p.liability.minor)
        } else {
            None
        }
}

/// What a settlement settles, in whatever form.
pub open spec fn settled(r: Reconciliation) -> int {
    r.cash.minor + r.non_cash.minor + r.written_off.minor
}

/// Whether 64 bits hold what a settlement settles, added up as it stands.
pub open spec fn settles_safely(r: Reconciliation) -> bool {
    fits(r.cash.minor + r.non_cash.minor) && fits(settled(r))
}

/// Whether a settlement counts against a waiter's balance.
pub open spec fn counts_for(r: Reconciliation, waiter_id: i64) -> bool {
    r.waiter_id == waiter_id && r.finalized_at is Some
}

/// A balance after the finalized settlements of a waiter, one after the other;
/// none once it leaves 64 bits.
pub open spec fn balance_after(start: i64, rows: Seq<Reconciliation>, waiter_id: i64) -> Option<i64>
    decreases rows.len(),
{
    if rows.len() == 0 {
        Some(start)
    } else {
        match balance_after(start, rows.drop_last(), waiter_id) {
            None => None,
            Some(before) => if !counts_for(rows.last(), waiter_id) {
                Some(before)
            } else if settles_safely(rows.last()) && fits(before - settled(rows.last())) {
                Some((before - settled(rows.last())) as i64)
            } else {
                None
            },
        }
    }
}

/// What a waiter still holds, or why it cannot be said.
pub open spec fn held(db: Store, waiter_id: i64) -> Result<Money, Why> {
    match waiter_refusal(db, waiter_id) {
        Some(why) => Err(why),
        None => match running_sum(db.payments@, owed_by(waiter_id)) {
            None => Err(too_much()),
            Some(owed) => match balance_after(owed, db.reconciliations@, waiter_id) {
                None => Err(too_much()),
                Some(minor) => if minor < 0 {
                    Err(Why::Refused("the waiter's held balance became negative"@))
                } else {
                    Ok(Money { minor })
                },
            },
        },
    }
}

fn settled_total(r: &Reconciliation) -> (result: Option<Money>)
    ensures
        match result {
            Some(total) => settles_safely(*r) && total.minor == settled(*r),
            None => !settles_safely(*r),
        },
{
    match r.cash.checked_add(r.non_cash) {
        Ok(paid) => match paid.checked_add(r.written_off) {
            Ok(total) => Some(total),
            Err(_) => None,
        },
        Err(_) => None,
    }
}

/// Waiter liability still outstanding, including shortfalls carried forward.
pub fn held_balance(db: &Store, waiter_id: i64) -> (result: Result<Money, RepoError>)
    ensures
        match held(*db, waiter_id) {
            Ok(money) => result == Ok::<Money, RepoError>(money),
            Err(why) => result matches Err(error) && error@ == why,
        },
{
    match require_waiter(db, waiter_id) {
        Ok(_) => {},
        Err(error) => {
            return Err(error);
        },
    }
    let owed: i64 = match sum_rows(
        &db.payments,
        |p: &TabPayment| -> (v: Option<i64>)
            ensures
                v == (if p.waiter_id == waiter_id {
                    Some(p.liability.minor)
                } else {
                    None
                })
            {
                if p.waiter_id == waiter_id {
                    Some(p.liability.minor)
                } else {
                    None
                }
            },
        Ghost(owed_by(waiter_id)),
    ) {
        Some(owed) => owed,
        None => {
            return Err(overflow());
        },
    };
    let mut balance: i64 = owed;
    let mut i: usize = 0;
    while i < db.reconciliations.len()
        invariant
            i <= db.reconciliations.len(),
            waiter_refusal(*db, waiter_id) is None,
            running_sum(db.payments@, owed_by(waiter_id)) == Some(owed),
            balance_after(owed, db.reconciliations@.take(i as int), waiter_id) == Some(balance),
        decreases db.reconciliations.len() - i,
    {
        let r: &Reconciliation = &db.reconciliations[i];
        proof {
            assert(db.reconciliations@.take(i + 1).drop_last() =~= db.reconciliations@.take(
                i as int,
            ));
            balance_fails_onward(owed, db.reconciliations@, waiter_id, i + 1);
        }
        if r.waiter_id == waiter_id && r.finalized_at.is_some() {
            let total: Money = match settled_total(r) {
                Some(total) => total,
                None => {
                    return Err(overflow());
                },
            };
            balance = match balance.checked_sub(total.minor) {
                Some(left) => left,
                None => {
                    return Err(overflow());
                },
            };
        }
        i = i + 1;
    }
    assert(db.reconciliations@.take(db.reconciliations@.len() as int) =~= db.reconciliations@);
    if balance < 0 {
        return refuse("the waiter's held balance became negative");
    }
    Ok(Money::from_minor(balance))
}

proof fn balance_fails_onward(start: i64, rows: Seq<Reconciliation>, waiter_id: i64, n: int)
    requires
        0 <= n <= rows.len(),
    ensures
        balance_after(start, rows.take(n), waiter_id) is None ==> balance_after(
            start,
            rows,
            waiter_id,
        ) is None,
    decreases rows.len() - n,
{
    if n == rows.len() {
        assert(rows.take(n) =~= rows);
    } else {
        assert(rows.take(n + 1).drop_last() =~= rows.take(n));
        balance_fails_onward(start, rows, waiter_id, n + 1);
    }
}

// ---------------------------------------------------------------------------
// Reconciliations
// ---------------------------------------------------------------------------

/// One settlement between a waiter and the cashier.
#[derive(Debug, PartialEq, Eq)]
pub struct Reconciliation {
    pub id: i64,
    pub waiter_id: i64,
    pub cashier_id: i64,
    pub expected: Money,
    pub cash: Money,
    pub non_cash: Money,
    pub written_off: Money,
    pub shortfall: Money,
    pub write_off_reason: Option<String>,
    pub shift_id: i64,
    pub created_at: i64,
    pub finalized_at: Option<i64>,
}

impl Clone for Reconciliation {
    fn clone(&self) -> (result: Self)
        ensures
            result == *self,
    {
        Reconciliation {
            id: self.id,
            waiter_id: self.waiter_id,
            cashier_id: self.cashier_id,
            expected: self.expected,
            cash: self.cash,
            non_cash: self.non_cash,
            written_off: self.written_off,
            shortfall: self.shortfall,
            write_off_reason: copy_text(&self.write_off_reason),
            shift_id: self.shift_id,
            created_at: self.created_at,
            finalized_at: self.finalized_at,
        }
    }
}

impl Row for Reconciliation {
    open spec fn key(&self) -> i64 {
        self.id
    }

    fn id(&self) -> (result: i64) {
        self.id
    }

    fn copy_row(&self) -> (result: Self) {
        self.clone()
    }
}

/// What a settlement is started from. What is expected is the exact liability
/// of the tabs that will be allocated, or the current held balance for the
/// settlement of an old shortfall with no allocations.
#[derive(Clone, Copy, Debug)]
pub struct NewReconciliation<'a> {
    pub waiter_id: i64,
    pub cashier_id: i64,
    pub expected: Money,
    pub cash: Money,
    pub non_cash: Money,
    pub written_off: Money,
    pub write_off_reason: Option<&'a str>,
    pub shift_id: i64,
    pub created_at: i64,
}

/// A tab that a settlement pays for.
#[derive(Debug, PartialEq, Eq)]
pub struct Allocation {
    pub id: i64,
    pub reconciliation_id: i64,
    pub tab_id: i64,
    pub amount: Money,
}

impl Clone for Allocation {
    fn clone(&self) -> (result: Self)
        ensures
            result == *self,
    {
        Allocation {
            id: self.id,
            reconciliation_id: self.reconciliation_id,
            tab_id: self.tab_id,
            amount: self.amount,
        }
    }
}

impl Row for Allocation {
    open spec fn key(&self) -> i64 {
        self.id
    }

    fn id(&self) -> (result: i64) {
        self.id
    }

    fn copy_row(&self) -> (result: Self) {
        self.clone()
    }
}

pub fn find_reconciliation(db: &Store, id: i64) -> (result: Result<Reconciliation, RepoError>)
    ensures
        match row(db.reconciliations@, id) {
            Some(found) => result == Ok::<Reconciliation, RepoError>(found),
            None => result matches Err(error) && error@ == Why::Missing("reconciliation"@),
        },
{
    match find_row(&db.reconciliations, id) {
        Some(found) => Ok(found),
        None => Err(RepoError::Missing { what: "reconciliation" }),
    }
}

/// The first of the four amounts that is negative, by name.
pub open spec fn negative_amount(new: NewReconciliation<'_>) -> Option<Seq<char>> {
    if new.expected.minor < 0 {
        Some("expected amount"@)
    } else if new.cash.minor < 0 {
        Some("cash amount"@)
    } else if new.non_cash.minor < 0 {
        Some("non-cash amount"@)
    } else if new.written_off.minor < 0 {
        Some("write-off amount"@)
    } else {
        None
    }
}

/// Whether more than one of the three forms of settlement is used.
pub open spec fn splits_tender(new: NewReconciliation<'_>) -> bool {
    ||| new.cash.minor != 0 && new.non_cash.minor != 0
    ||| new.cash.minor != 0 && new.written_off.minor != 0
    ||| new.non_cash.minor != 0 && new.written_off.minor != 0
}

/// What is offered for settlement.
pub open spec fn offered(new: NewReconciliation<'_>) -> int {
    new.cash.minor + new.non_cash.minor + new.written_off.minor
}

/// Why a settlement cannot be started; nothing, where it can.
pub open spec fn create_reconciliation_refusal(db: Store, new: NewReconciliation<'_>) -> Option<
    Why,
> {
    match money_refusal(db, new.cashier_id) {
        Some(why) => Some(why),
        None => match waiter_refusal(db, new.waiter_id) {
            Some(why) => Some(why),
            None => match money_shift_refusal(db, new.shift_id) {
                Some(why) => Some(why),
                None => match negative_amount(new) {
                    Some(name) => Some(
                        Why::Refused("the reconciliation's "@ + name + " cannot be negative"@),
                    ),
                    None => if splits_tender(new) {
                        Some(
                            Why::Refused(
                                "a reconciliation uses one settlement method, not split tender"@,
                            ),
                        )
                    } else if new.written_off.minor != 0 && says_nothing(new.write_off_reason) {
                        Some(Why::Refused("a write-off needs a reason"@))
                    } else if new.written_off.minor == 0 && new.write_off_reason is Some {
                        Some(Why::Refused("a write-off reason belongs only to a write-off"@))
                    } else if offered(new) > new.expected.minor {
                        Some(
                            Why::Refused(
                                "settled "@ + money_text(offered(new)) + " exceeds the "@
                                    + money_text(new.expected.minor as int)
                                    + " owed; return the difference to the waiter"@,
                            ),
                        )
                    } else if fresh_id(db.reconciliations@) is None {
                        Some(Why::Sqlite(SqlWhy::Full))
                    } else {
                        None
                    },
                },
            },
        },
    }
}

/// Whether a settlement is the one that was started.
pub open spec fn started_as(r: Reconciliation, db: Store, new: NewReconciliation<'_>) -> bool {
    &&& fresh_id(db.reconciliations@) == Some(r.id)
    &&& r.waiter_id == new.waiter_id
    &&& r.cashier_id == new.cashier_id
    &&& r.expected == new.expected
    &&& r.cash == new.cash
    &&& r.non_cash == new.non_cash
    &&& r.written_off == new.written_off
    &&& r.shortfall.minor == new.expected.minor - offered(new)
    &&& chars_in(r.write_off_reason) == (match new.write_off_reason {
        Some(text) => Some(trimmed(text@)),
        None => None,
    })
    &&& r.shift_id == new.shift_id
    &&& r.created_at == new.created_at
    &&& r.finalized_at is None
}

fn first_negative(new: &NewReconciliation<'_>) -> (result: Option<&'static str>)
    ensures
        match result {
            Some(name) => negative_amount(*new) == Some(name@),
            None => negative_amount(*new) is None,
        },
{
    if new.expected.is_negative() {
        Some("expected amount")
    } else if new.cash.is_negative() {
        Some("cash amount")
    } else if new.non_cash.is_negative() {
        Some("non-cash amount")
    } else if new.written_off.is_negative() {
        Some("write-off amount")
    } else {
        None
    }
}

fn excess_message(offer: Money, expected: Money) -> (result: String)
    ensures
        result@ == "settled "@ + money_text(offer.minor as int) + " exceeds the "@ + money_text(
            expected.minor as int,
        ) + " owed; return the difference to the waiter"@,
{
    let start: String = join3("settled ", offer.to_display().as_str(), " exceeds the ");
    join3(
        start.as_str(),
        expected.to_display().as_str(),
        " owed; return the difference to the waiter",
    )
}

pub fn create_reconciliation(db: &mut Store, new: &NewReconciliation<'_>) -> (result: Result<
    Reconciliation,
    RepoError,
>)
    ensures
        ledgers_kept(*old(db), *final(db)),
        match result {
            Ok(r) => {
                &&& create_reconciliation_refusal(*old(db), *new) is None
                &&& started_as(r, *old(db), *new)
                &&& final(db).reconciliations@ == old(db).reconciliations@.push(r)
                &&& *final(db) == (Store { reconciliations: final(db).reconciliations, ..*old(db) })
            },
            Err(error) => {
                &&& *final(db) == *old(db)
                &&& create_reconciliation_refusal(*old(db), *new) == Some(error@)
            },
        },
{
    match require_cashier(db, new.cashier_id) {
        Ok(_) => {},
        Err(error) => {
            return Err(error);
        },
    }
    match require_waiter(db, new.waiter_id) {
        Ok(_) => {},
        Err(error) => {
            return Err(error);
        },
    }
    match require_open_shift(db, new.shift_id) {
        Ok(_) => {},
        Err(error) => {
            return Err(error);
        },
    }
    if let Some(name) = first_negative(new) {
        return Err(refused(join3("the reconciliation's ", name, " cannot be negative").as_str()));
    }
    let cash: bool = !new.cash.is_zero();
    let non_cash: bool = !new.non_cash.is_zero();
    let written_off: bool = !new.written_off.is_zero();
    if (cash && non_cash) || (cash && written_off) || (non_cash && written_off) {
        return refuse("a reconciliation uses one settlement method, not split tender");
    }
    let silent: bool = match new.write_off_reason {
        Some(text) => text.trim().is_empty(),
        None => true,
    };
    if written_off && silent {
        return refuse("a write-off needs a reason");
    }
    if !written_off && new.write_off_reason.is_some() {
        return refuse("a write-off reason belongs only to a write-off");
    }
    let offer: Money = Money::from_minor(
        new.cash.minor + new.non_cash.minor + new.written_off.minor,
    );
    if offer.minor > new.expected.minor {
        return Err(refused(excess_message(offer, new.expected).as_str()));
    }
    let id: i64 = match next_id(&db.reconciliations) {
        Some(id) => id,
        None => {
            return Err(RepoError::Sqlite(SqlError::Full));
        },
    };
    let r: Reconciliation = Reconciliation {
        id,
        waiter_id: new.waiter_id,
        cashier_id: new.cashier_id,
        expected: new.expected,
        cash: new.cash,
        non_cash: new.non_cash,
        written_off: new.written_off,
        shortfall: Money::from_minor(new.expected.minor - offer.minor),
        write_off_reason: match new.write_off_reason {
            Some(text) => Some(text.trim().to_owned()),
            None => None,
        },
        shift_id: new.shift_id,
        created_at: new.created_at,
        finalized_at: None,
    };
    db.reconciliations.push(r.clone());
    Ok(r)
}

/// Why a tab cannot be allocated; nothing, where it can.
pub open spec fn allocate_refusal(db: Store, reconciliation_id: i64, tab_id: i64, by: i64) -> Option<
    Why,
> {
    match money_refusal(db, by) {
        Some(why) => Some(why),
        None => match row(db.reconciliations@, reconciliation_id) {
            None => Some(Why::Missing("reconciliation"@)),
            Some(r) => if r.cashier_id != by {
                Some(Why::Refused("the cashier who started a reconciliation must finish it"@))
            } else if r.finalized_at is Some {
                Some(
                    Why::Refused("nothing may be allocated after a reconciliation is finalized"@),
                )
            } else {
                match tab(db, tab_id) {
                    None => Some(Why::Missing("tab"@)),
                    Some(found) => if found.status != tabs::Status::Closed {
                        Some(Why::Refused("only a closed, unreconciled tab can be allocated"@))
                    } else {
                        match first_chosen(db.payments@, payment_of(tab_id)) {
                            None => Some(Why::Missing("frozen tab payment"@)),
                            Some(payment) => if payment.waiter_id != r.waiter_id {
                                Some(
                                    Why::Refused(
                                        "that tab belongs to a different waiter's balance"@,
                                    ),
                                )
                            } else if fresh_id(db.allocations@) is None {
                                Some(Why::Sqlite(SqlWhy::Full))
                            } else {
                                None
                            },
                        }
                    },
                }
            },
        },
    }
}

/// Whether a store is another with one tab paid for by a settlement.
pub open spec fn tab_allocated(
    before: Store,
    after: Store,
    reconciliation_id: i64,
    tab_id: i64,
    allocation: Allocation,
) -> bool {
    &&& fresh_id(before.allocations@) == Some(allocation.id)
    &&& allocation.reconciliation_id == reconciliation_id
    &&& allocation.tab_id == tab_id
    &&& first_chosen(before.payments@, payment_of(tab_id)) matches Some(payment)
        && allocation.amount == payment.liability
    &&& after.allocations@ == before.allocations@.push(allocation)
    &&& place(before.tabs@, tab_id) matches Some(p) && after.tabs@ == before.tabs@.update(
        p,
        Tab { status: tabs::Status::Reconciled, ..before.tabs@[p] },
    )
    &&& after == (Store { allocations: after.allocations, tabs: after.tabs, ..before })
}

/// Attach one closed tab at its exact frozen liability and mark it reconciled.
pub fn allocate_tab(db: &mut Store, reconciliation_id: i64, tab_id: i64, by: i64) -> (result:
    Result<Allocation, RepoError>)
    ensures
        ledgers_kept(*old(db), *final(db)),
        match result {
            Ok(allocation) => {
                &&& allocate_refusal(*old(db), reconciliation_id, tab_id, by) is None
                &&& tab_allocated(*old(db), *final(db), reconciliation_id, tab_id, allocation)
            },
            Err(error) => {
                &&& *final(db) == *old(db)
                &&& allocate_refusal(*old(db), reconciliation_id, tab_id, by) == Some(error@)
            },
        },
{
    match require_cashier(db, by) {
        Ok(_) => {},
        Err(error) => {
            return Err(error);
        },
    }
    let r: Reconciliation = match find_reconciliation(db, reconciliation_id) {
        Ok(r) => r,
        Err(error) => {
            return Err(error);
        },
    };
    if r.cashier_id != by {
        return refuse("the cashier who started a reconciliation must finish it");
    }
    if r.finalized_at.is_some() {
        return refuse("nothing may be allocated after a reconciliation is finalized");
    }
    let p: usize = match find_place(&db.tabs, tab_id) {
        Some(p) => p,
        None => {
            return Err(RepoError::Missing { what: "tab" });
        },
    };
    if db.tabs[p].status != tabs::Status::Closed {
        return refuse("only a closed, unreconciled tab can be allocated");
    }
    let payment: TabPayment = match payment_for_tab(db, tab_id) {
        Ok(payment) => payment,
        Err(error) => {
            return Err(error);
        },
    };
    if payment.waiter_id != r.waiter_id {
        return refuse("that tab belongs to a different waiter's balance");
    }
    let id: i64 = match next_id(&db.allocations) {
        Some(id) => id,
        None => {
            return Err(RepoError::Sqlite(SqlError::Full));
        },
    };
    let allocation: Allocation = Allocation {
        id,
        reconciliation_id,
        tab_id,
        amount: payment.liability,
    };
    db.allocations.push(allocation.clone());
    let mut changed: Tab = db.tabs[p].clone();
    changed.status = tabs::Status::Reconciled;
    db.tabs.set(p, changed);
    Ok(allocation)
}

pub open spec fn allocated_to(reconciliation_id: i64) -> spec_fn(Allocation) -> bool {
    |a: Allocation| a.reconciliation_id == reconciliation_id
}

pub open spec fn allocated_before() -> spec_fn(Allocation, Allocation) -> bool {
    |a: Allocation, b: Allocation| a.id < b.id
}

/// The tabs that a settlement pays for.
pub open spec fn allocations_of(db: Store, reconciliation_id: i64) -> Seq<Allocation> {
    in_order(chosen(db.allocations@, allocated_to(reconciliation_id)), allocated_before())
}

pub fn allocations(db: &Store, reconciliation_id: i64) -> (result: Vec<Allocation>)
    ensures
        result@ == allocations_of(*db, reconciliation_id),
{
    let found: Vec<Allocation> = choose_rows(
        &db.allocations,
        |a: &Allocation| -> (b: bool)
            ensures
                b == (a.reconciliation_id == reconciliation_id)
            { a.reconciliation_id == reconciliation_id },
        Ghost(allocated_to(reconciliation_id)),
    );
    sort_rows(
        &found,
        |a: &Allocation, b: &Allocation| -> (r: bool)
            ensures
                r == (a.id < b.id)
            { a.id < b.id },
        Ghost(allocated_before()),
    )
}

/// What the first `n` allocations come to, each tab once.
pub open spec fn allocated(rows: Seq<Allocation>, n: int) -> Result<i64, Why>
    decreases n,
{
    if n <= 0 {
        Ok(0)
    } else {
        match allocated(rows, n - 1) {
            Err(why) => Err(why),
            Ok(before) => if exists|k: int|
                0 <= k < n - 1 && (#[trigger] rows[k]).tab_id == rows[n - 1].tab_id {
                Err(Why::Refused("a tab was allocated more than once"@))
            } else if !fits(before + rows[n - 1].amount.minor) {
                Err(too_much())
            } else {
                Ok((before + rows[n - 1].amount.minor) as i64)
            },
        }
    }
}

proof fn allocating_fails_onward(rows: Seq<Allocation>, n: int, m: int)
    requires
        0 <= n <= m,
    ensures
        allocated(rows, n) is Err ==> allocated(rows, m) == allocated(rows, n),
    decreases m - n,
{
    if n < m {
        allocating_fails_onward(rows, n, m - 1);
    }
}

fn tab_repeats(rows: &Vec<Allocation>, n: usize) -> (result: bool)
    requires
        n < rows@.len(),
    ensures
        result == exists|k: int|
            0 <= k < n && (#[trigger] rows@[k]).tab_id == rows@[n as int].tab_id,
{
    let mut i: usize = 0;
    while i < n
        invariant
            i <= n < rows@.len(),
            forall|k: int| 0 <= k < i ==> (#[trigger] rows@[k]).tab_id != rows@[n as int].tab_id,
        decreases n - i,
    {
        if rows[i].tab_id == rows[n].tab_id {
            return true;
        }
        i = i + 1;
    }
    false
}

fn total_allocated(rows: &Vec<Allocation>) -> (result: Result<i64, RepoError>)
    ensures
        match allocated(rows@, rows@.len() as int) {
            Ok(total) => result == Ok::<i64, RepoError>(total),
            Err(why) => result matches Err(error) && error@ == why,
        },
{
    let mut total: i64 = 0;
    let mut i: usize = 0;
    while i < rows.len()
        invariant
            i <= rows.len(),
            allocated(rows@, i as int) == Ok::<i64, Why>(total),
        decreases rows.len() - i,
    {
        proof {
            allocating_fails_onward(rows@, i + 1, rows@.len() as int);
        }
        if tab_repeats(rows, i) {
            return refuse("a tab was allocated more than once");
        }
        total = match total.checked_add(rows[i].amount.minor) {
            Some(total) => total,
            None => {
                return Err(overflow());
            },
        };
        i = i + 1;
    }
    Ok(total)
}

/// A bill of a waiter whose tab nobody has settled.
pub open spec fn unsettled(db: Store, waiter_id: i64) -> spec_fn(TabPayment) -> bool {
    |p: TabPayment|
        p.waiter_id == waiter_id && (tab(db, p.tab_id) matches Some(found) && found.status
            == tabs::Status::Closed)
}

/// What is wrong with what a settlement settles; nothing, where it is right.
/// One without allocations settles an old shortfall: no closed tab may be left
/// over, because its liability would be cleared here and again with the tab.
pub open spec fn settlement_refusal(db: Store, r: Reconciliation) -> Option<Why> {
    let rows = allocations_of(db, r.id);
    match allocated(rows, rows.len() as int) {
        Err(why) => Some(why),
        Ok(total) => if rows.len() == 0 {
            if any(db.payments@, unsettled(db, r.waiter_id)) {
                Some(
                    Why::Refused(
                        "allocate every unreconciled closed tab before settling an old balance"@,
                    ),
                )
            } else {
                match held(db, r.waiter_id) {
                    Err(why) => Some(why),
                    Ok(balance) => if r.expected != balance {
                        Some(
                            Why::Refused(
                                "an old-balance settlement must use the current held balance"@,
                            ),
                        )
                    } else if !settles_safely(r) {
                        Some(too_much())
                    } else if settled(r) == 0 {
                        Some(
                            Why::Refused(
                                "an old-balance settlement must actually settle some money"@,
                            ),
                        )
                    } else {
                        None
                    },
                }
            }
        } else if total != r.expected.minor {
            Some(
                Why::Refused("allocated tab liabilities do not equal the expected settlement"@),
            )
        } else {
            None
        },
    }
}

fn check_settlement(db: &Store, r: &Reconciliation) -> (result: Result<(), RepoError>)
    ensures
        match settlement_refusal(*db, *r) {
            None => result is Ok,
            Some(why) => result matches Err(error) && error@ == why,
        },
{
    let rows: Vec<Allocation> = allocations(db, r.id);
    let total: i64 = match total_allocated(&rows) {
        Ok(total) => total,
        Err(error) => {
            return Err(error);
        },
    };
    if rows.len() > 0 {
        if total != r.expected.minor {
            return refuse("allocated tab liabilities do not equal the expected settlement");
        }
        return Ok(());
    }
    let waiter_id: i64 = r.waiter_id;
    if any_row(
        &db.payments,
        |p: &TabPayment| -> (b: bool)
            ensures
                b == (p.waiter_id == waiter_id && (tab(*db, p.tab_id) matches Some(found)
                    && found.status == tabs::Status::Closed))
            {
                p.waiter_id == waiter_id && match find_place(&db.tabs, p.tab_id) {
                    Some(at) => db.tabs[at].status == tabs::Status::Closed,
                    None => false,
                }
            },
        Ghost(unsettled(*db, waiter_id)),
    ) {
        return refuse("allocate every unreconciled closed tab before settling an old balance");
    }
    let balance: Money = match held_balance(db, waiter_id) {
        Ok(balance) => balance,
        Err(error) => {
            return Err(error);
        },
    };
    if r.expected != balance {
        return refuse("an old-balance settlement must use the current held balance");
    }
    match settled_total(r) {
        None => Err(overflow()),
        Some(total) => {
            if total.is_zero() {
                return refuse("an old-balance settlement must actually settle some money");
            }
            Ok(())
        },
    }
}

// ---------------------------------------------------------------------------
// The drawer
// ---------------------------------------------------------------------------

/// What a cash movement is.
#[derive(Clone, Copy, Debug, PartialEq, Eq, Structural)]
pub enum MovementType {
    OpeningFloat,
    Reconciliation,
    Payout,
    Adjustment,
}

impl MovementType {
    /// The word it is stored under.
    pub open spec fn word(self) -> Seq<char> {
        match self {
            MovementType::OpeningFloat => "OPENING_FLOAT"@,
            MovementType::Reconciliation => "RECONCILIATION"@,
            MovementType::Payout => "PAYOUT"@,
            MovementType::Adjustment => "ADJUSTMENT"@,
        }
    }

    /// The word it is stored under.
    pub fn as_str(self) -> (result: &'static str)
        ensures
            result@ == self.word(),
    {
        match self {
            MovementType::OpeningFloat => "OPENING_FLOAT",
            MovementType::Reconciliation => "RECONCILIATION",
            MovementType::Payout => "PAYOUT",
            MovementType::Adjustment => "ADJUSTMENT",
        }
    }

    /// What a stored word stands for.
    pub open spec fn of_word(text: Seq<char>) -> Option<MovementType> {
        if text == "OPENING_FLOAT"@ {
            Some(MovementType::OpeningFloat)
        } else if text == "RECONCILIATION"@ {
            Some(MovementType::Reconciliation)
        } else if text == "PAYOUT"@ {
            Some(MovementType::Payout)
        } else if text == "ADJUSTMENT"@ {
            Some(MovementType::Adjustment)
        } else {
            None
        }
    }

    fn read_word(text: &str) -> (result: Option<MovementType>)
        ensures
            result == Self::of_word(text@),
    {
        if same(text, "OPENING_FLOAT") {
            Some(MovementType::OpeningFloat)
        } else if same(text, "RECONCILIATION") {
            Some(MovementType::Reconciliation)
        } else if same(text, "PAYOUT") {
            Some(MovementType::Payout)
        } else if same(text, "ADJUSTMENT") {
            Some(MovementType::Adjustment)
        } else {
            None
        }
    }

    /// A word that was stored reads back as what it stood for.
    pub proof fn a_stored_word_reads_back(self)
        ensures
            Self::of_word(self.word()) == Some(self),
    {
        reveal_strlit("OPENING_FLOAT");
        reveal_strlit("RECONCILIATION");
        reveal_strlit("PAYOUT");
        reveal_strlit("ADJUSTMENT");
        assert("RECONCILIATION"@.len() != "OPENING_FLOAT"@.len());
        assert("PAYOUT"@.len() != "OPENING_FLOAT"@.len());
        assert("PAYOUT"@.len() != "RECONCILIATION"@.len());
        assert("ADJUSTMENT"@.len() != "OPENING_FLOAT"@.len());
        assert("ADJUSTMENT"@.len() != "RECONCILIATION"@.len());
        assert("ADJUSTMENT"@.len() != "PAYOUT"@.len());
    }
}

impl MovementType {
    /// Reads a stored type.
    pub fn parse(text: &str) -> (result: Result<MovementType, RepoError>)
        ensures
            match MovementType::of_word(text@) {
                Some(kind) => result == Ok::<MovementType, RepoError>(kind),
                None => result matches Err(error) && error@ == Why::Refused(
                    "'"@ + text@ + "' is not a cash movement type this build knows"@,
                ),
            },
    {
        match MovementType::read_word(text) {
            Some(kind) => Ok(kind),
            None => Err(
                refused(
                    join3("'", text, "' is not a cash movement type this build knows").as_str(),
                ),
            ),
        }
    }
}

/// One entry in the drawer's ledger.
#[derive(Debug, PartialEq, Eq)]
pub struct CashMovement {
    pub id: i64,
    pub shift_id: i64,
    pub movement_type: MovementType,
    pub amount: Money,
    pub category: Option<String>,
    pub reason: String,
    pub reconciliation_id: Option<i64>,
    pub created_by: i64,
    pub created_at: i64,
}

impl Clone for CashMovement {
    fn clone(&self) -> (result: Self)
        ensures
            result == *self,
    {
        CashMovement {
            id: self.id,
            shift_id: self.shift_id,
            movement_type: self.movement_type,
            amount: self.amount,
            category: copy_text(&self.category),
            reason: self.reason.clone(),
            reconciliation_id: self.reconciliation_id,
            created_by: self.created_by,
            created_at: self.created_at,
        }
    }
}

impl Row for CashMovement {
    open spec fn key(&self) -> i64 {
        self.id
    }

    fn id(&self) -> (result: i64) {
        self.id
    }

    fn copy_row(&self) -> (result: Self) {
        self.clone()
    }
}

/// Whether an entry says what was entered.
pub open spec fn entered_as(
    movement: CashMovement,
    shift_id: i64,
    movement_type: MovementType,
    amount: int,
    category: Option<Seq<char>>,
    reason: Seq<char>,
    reconciliation_id: Option<i64>,
    by: i64,
    at: i64,
) -> bool {
    &&& movement.shift_id == shift_id
    &&& movement.movement_type == movement_type
    &&& movement.amount.minor == amount
    &&& chars_in(movement.category) == category
    &&& movement.reason@ == reason
    &&& movement.reconciliation_id == reconciliation_id
    &&& movement.created_by == by
    &&& movement.created_at == at
}

/// Whether a store is another with one more entry in the drawer's ledger.
pub open spec fn cash_entered(before: Store, after: Store, movement: CashMovement) -> bool {
    &&& fresh_id(before.cash@) == Some(movement.id)
    &&& after.cash@ == before.cash@.push(movement)
    &&& after == (Store { cash: after.cash, ..before })
}

fn insert_movement(
    db: &mut Store,
    shift_id: i64,
    movement_type: MovementType,
    amount: Money,
    category: Option<String>,
    reason: &str,
    reconciliation_id: Option<i64>,
    by: i64,
    at: i64,
) -> (result: Result<CashMovement, RepoError>)
    ensures
        match result {
            Ok(movement) => {
                &&& entered_as(
                    movement,
                    shift_id,
                    movement_type,
                    amount.minor as int,
                    chars_in(category),
                    reason@,
                    reconciliation_id,
                    by,
                    at,
                )
                &&& cash_entered(*old(db), *final(db), movement)
            },
            Err(error) => {
                &&& *final(db) == *old(db)
                &&& fresh_id(old(db).cash@) is None
                &&& error@ == Why::Sqlite(SqlWhy::Full)
            },
        },
{
    let id: i64 = match next_id(&db.cash) {
        Some(id) => id,
        None => {
            return Err(RepoError::Sqlite(SqlError::Full));
        },
    };
    let movement: CashMovement = CashMovement {
        id,
        shift_id,
        movement_type,
        amount,
        category,
        reason: reason.to_owned(),
        reconciliation_id,
        created_by: by,
        created_at: at,
    };
    db.cash.push(movement.clone());
    Ok(movement)
}

pub open spec fn in_shift(shift_id: i64) -> spec_fn(CashMovement) -> bool {
    |m: CashMovement| m.shift_id == shift_id
}

pub open spec fn entered_before() -> spec_fn(CashMovement, CashMovement) -> bool {
    |a: CashMovement, b: CashMovement| a.id < b.id
}

/// What was entered for the drawer of a night, in the order it was entered.
pub open spec fn entered_in(db: Store, shift_id: i64) -> Seq<CashMovement> {
    in_order(chosen(db.cash@, in_shift(shift_id)), entered_before())
}

pub fn movements(db: &Store, shift_id: i64) -> (result: Result<Vec<CashMovement>, RepoError>)
    ensures
        match shift(*db, shift_id) {
            Some(_) => result matches Ok(list) && list@ == entered_in(*db, shift_id),
            None => result matches Err(error) && error@ == Why::Missing("shift"@),
        },
{
    match shifts::find(db, shift_id) {
        Ok(_) => {},
        Err(error) => {
            return Err(error);
        },
    }
    let found: Vec<CashMovement> = choose_rows(
        &db.cash,
        |m: &CashMovement| -> (b: bool)
            ensures
                b == (m.shift_id == shift_id)
            { m.shift_id == shift_id },
        Ghost(in_shift(shift_id)),
    );
    let sorted: Vec<CashMovement> = sort_rows(
        &found,
        |a: &CashMovement, b: &CashMovement| -> (r: bool)
            ensures
                r == (a.id < b.id)
            { a.id < b.id },
        Ghost(entered_before()),
    );
    Ok(sorted)
}

/// The entry that a settlement made.
pub open spec fn from_settlement(reconciliation_id: i64) -> spec_fn(CashMovement) -> bool {
    |m: CashMovement| m.reconciliation_id == Some(reconciliation_id)
}

fn has_entered(db: &Store, reconciliation_id: i64) -> (result: bool)
    ensures
        result == any(db.cash@, from_settlement(reconciliation_id)),
{
    any_row(
        &db.cash,
        |m: &CashMovement| -> (b: bool)
            ensures
                b == (m.reconciliation_id == Some(reconciliation_id))
            { m.reconciliation_id == Some(reconciliation_id) },
        Ghost(from_settlement(reconciliation_id)),
    )
}

/// Why the cash of a settlement cannot enter the drawer; nothing, where it
/// can.
pub open spec fn settlement_cash_refusal(db: Store, reconciliation_id: i64, by: i64, at: i64) -> Option<
    Why,
> {
    match money_refusal(db, by) {
        Some(why) => Some(why),
        None => match row(db.reconciliations@, reconciliation_id) {
            None => Some(Why::Missing("reconciliation"@)),
            Some(r) => if r.cashier_id != by {
                Some(Why::Refused("only the reconciliation's cashier can receive its cash"@))
            } else if r.finalized_at != Some(at) {
                Some(
                    Why::Refused(
                        "reconciliation cash enters the drawer only after it is finalized, at the exact finalization time"@,
                    ),
                )
            } else if r.cash.minor <= 0 {
                Some(Why::Refused("only a positive cash settlement enters the drawer"@))
            } else {
                match money_shift_refusal(db, r.shift_id) {
                    Some(why) => Some(why),
                    None => if any(db.cash@, from_settlement(reconciliation_id)) {
                        Some(
                            Why::Refused("that reconciliation's cash is already in the drawer"@),
                        )
                    } else if fresh_id(db.cash@) is None {
                        Some(Why::Sqlite(SqlWhy::Full))
                    } else {
                        None
                    },
                }
            },
        },
    }
}

/// Whether a store is another with the cash of a settlement in the drawer.
pub open spec fn settlement_cash_entered(
    before: Store,
    after: Store,
    movement: CashMovement,
    reconciliation_id: i64,
    by: i64,
    at: i64,
) -> bool {
    &&& row(before.reconciliations@, reconciliation_id) matches Some(r) && entered_as(
        movement,
        r.shift_id,
        MovementType::Reconciliation,
        r.cash.minor as int,
        None,
        ""@,
        Some(reconciliation_id),
        by,
        at,
    )
    &&& cash_entered(before, after, movement)
}

/// Credit the drawer with exactly the cash portion of one finalized settlement.
pub fn record_reconciliation_cash(db: &mut Store, reconciliation_id: i64, by: i64, at: i64) -> (result:
    Result<CashMovement, RepoError>)
    ensures
        ledgers_kept(*old(db), *final(db)),
        match result {
            Ok(movement) => {
                &&& settlement_cash_refusal(*old(db), reconciliation_id, by, at) is None
                &&& settlement_cash_entered(*old(db), *final(db), movement, reconciliation_id, by, at)
            },
            Err(error) => {
                &&& *final(db) == *old(db)
                &&& settlement_cash_refusal(*old(db), reconciliation_id, by, at) == Some(error@)
            },
        },
{
    match require_cashier(db, by) {
        Ok(_) => {},
        Err(error) => {
            return Err(error);
        },
    }
    let r: Reconciliation = match find_reconciliation(db, reconciliation_id) {
        Ok(r) => r,
        Err(error) => {
            return Err(error);
        },
    };
    if r.cashier_id != by {
        return refuse("only the reconciliation's cashier can receive its cash");
    }
    if r.finalized_at != Some(at) {
        return refuse(
            "reconciliation cash enters the drawer only after it is finalized, at the exact finalization time",
        );
    }
    if r.cash.is_zero() || r.cash.is_negative() {
        return refuse("only a positive cash settlement enters the drawer");
    }
    match require_open_shift(db, r.shift_id) {
        Ok(_) => {},
        Err(error) => {
            return Err(error);
        },
    }
    if has_entered(db, reconciliation_id) {
        return refuse("that reconciliation's cash is already in the drawer");
    }
    insert_movement(
        db,
        r.shift_id,
        MovementType::Reconciliation,
        r.cash,
        None,
        "",
        Some(reconciliation_id),
        by,
        at,
    )
}

/// Why a settlement cannot be finalized; nothing, where it can.
pub open spec fn finalize_refusal(
    db: Store,
    reconciliation_id: i64,
    by: i64,
    finalized_at: i64,
) -> Option<Why> {
    match money_refusal(db, by) {
        Some(why) => Some(why),
        None => match row(db.reconciliations@, reconciliation_id) {
            None => Some(Why::Missing("reconciliation"@)),
            Some(r) => if r.cashier_id != by {
                Some(Why::Refused("the cashier who started a reconciliation must finish it"@))
            } else if r.finalized_at is Some {
                Some(Why::Refused("the reconciliation is already finalized"@))
            } else if finalized_at < r.created_at {
                Some(Why::Refused("a reconciliation cannot finish before it started"@))
            } else {
                match money_shift_refusal(db, r.shift_id) {
                    Some(why) => Some(why),
                    None => match settlement_refusal(db, r) {
                        Some(why) => Some(why),
                        None => if r.cash.minor < 0 {
                            Some(
                                Why::Refused(
                                    "only a positive cash settlement enters the drawer"@,
                                ),
                            )
                        } else if r.cash.minor != 0 && any(
                            db.cash@,
                            from_settlement(reconciliation_id),
                        ) {
                            Some(
                                Why::Refused(
                                    "that reconciliation's cash is already in the drawer"@,
                                ),
                            )
                        } else if r.cash.minor != 0 && fresh_id(db.cash@) is None {
                            Some(Why::Sqlite(SqlWhy::Full))
                        } else {
                            None
                        },
                    },
                }
            },
        },
    }
}

/// Whether a store is another with one settlement sealed and its cash, if it
/// has any, in the drawer.
pub open spec fn finalized(
    before: Store,
    after: Store,
    reconciliation_id: i64,
    by: i64,
    finalized_at: i64,
) -> bool {
    &&& place(before.reconciliations@, reconciliation_id) matches Some(p) && ({
        let r = before.reconciliations@[p];
        &&& after.reconciliations@ == before.reconciliations@.update(
            p,
            Reconciliation { finalized_at: Some(finalized_at), ..r },
        )
        &&& r.cash.minor == 0 ==> after.cash == before.cash
        &&& r.cash.minor != 0 ==> {
            &&& after.cash@.len() == before.cash@.len() + 1
            &&& after.cash@.drop_last() == before.cash@
            &&& fresh_id(before.cash@) == Some(after.cash@.last().id)
            &&& entered_as(
                after.cash@.last(),
                r.shift_id,
                MovementType::Reconciliation,
                r.cash.minor as int,
                None,
                ""@,
                Some(reconciliation_id),
                by,
                finalized_at,
            )
        }
    })
    &&& after == (Store { reconciliations: after.reconciliations, cash: after.cash, ..before })
}

/// Seal a fully constructed settlement and, for cash only, credit the drawer.
/// Both happen or neither does.
pub fn finalize_reconciliation(
    db: &mut Store,
    reconciliation_id: i64,
    by: i64,
    finalized_at: i64,
) -> (result: Result<Reconciliation, RepoError>)
    ensures
        ledgers_kept(*old(db), *final(db)),
        match result {
            Ok(r) => {
                &&& finalize_refusal(*old(db), reconciliation_id, by, finalized_at) is None
                &&& finalized(*old(db), *final(db), reconciliation_id, by, finalized_at)
                &&& row(final(db).reconciliations@, reconciliation_id) == Some(r)
            },
            Err(error) => {
                &&& *final(db) == *old(db)
                &&& finalize_refusal(*old(db), reconciliation_id, by, finalized_at) == Some(error@)
            },
        },
{
    match require_cashier(db, by) {
        Ok(_) => {},
        Err(error) => {
            return Err(error);
        },
    }
    let p: usize = match find_place(&db.reconciliations, reconciliation_id) {
        Some(p) => p,
        None => {
            return Err(RepoError::Missing { what: "reconciliation" });
        },
    };
    let r: Reconciliation = db.reconciliations[p].clone();
    if r.cashier_id != by {
        return refuse("the cashier who started a reconciliation must finish it");
    }
    if r.finalized_at.is_some() {
        return refuse("the reconciliation is already finalized");
    }
    if finalized_at < r.created_at {
        return refuse("a reconciliation cannot finish before it started");
    }
    match require_open_shift(db, r.shift_id) {
        Ok(_) => {},
        Err(error) => {
            return Err(error);
        },
    }
    match check_settlement(db, &r) {
        Ok(_) => {},
        Err(error) => {
            return Err(error);
        },
    }
    if r.cash.is_negative() {
        return refuse("only a positive cash settlement enters the drawer");
    }
    if !r.cash.is_zero() {
        if has_entered(db, reconciliation_id) {
            return refuse("that reconciliation's cash is already in the drawer");
        }
        if next_id(&db.cash).is_none() {
            return Err(RepoError::Sqlite(SqlError::Full));
        }
    }
    let mut sealed: Reconciliation = r.clone();
    sealed.finalized_at = Some(finalized_at);
    proof {
        changing_keeps_places(db.reconciliations@, p as int, sealed, reconciliation_id);
    }
    db.reconciliations.set(p, sealed.clone());
    if !r.cash.is_zero() {
        assert(settlement_cash_refusal(*db, reconciliation_id, by, finalized_at) is None);
        let ghost before = db.cash@;
        match record_reconciliation_cash(db, reconciliation_id, by, finalized_at) {
            Ok(_) => {
                assert(db.cash@.drop_last() =~= before);
            },
            Err(error) => {
                return Err(error);
            },
        }
    }
    Ok(sealed)
}

/// Why a payout cannot be recorded; nothing, where it can.
pub open spec fn payout_refusal(
    db: Store,
    shift_id: i64,
    amount: Money,
    category: Seq<char>,
    by: i64,
) -> Option<Why> {
    match money_refusal(db, by) {
        Some(why) => Some(why),
        None => match money_shift_refusal(db, shift_id) {
            Some(why) => Some(why),
            None => if amount.minor <= 0 {
                Some(Why::Refused("a payout amount must be positive"@))
            } else if is_blank(category) {
                Some(Why::Refused("a payout needs a category"@))
            } else if fresh_id(db.cash@) is None {
                Some(Why::Sqlite(SqlWhy::Full))
            } else {
                None
            },
        },
    }
}

/// Whether an entry is that payout.
pub open spec fn is_payout(
    movement: CashMovement,
    shift_id: i64,
    amount: Money,
    category: Seq<char>,
    reason: Seq<char>,
    by: i64,
    at: i64,
) -> bool {
    entered_as(
        movement,
        shift_id,
        MovementType::Payout,
        -amount.minor,
        Some(trimmed(category)),
        trimmed(reason),
        None,
        by,
        at,
    )
}

/// Take money out of the drawer. What goes out is entered as a negative
/// amount.
pub fn record_payout(
    db: &mut Store,
    shift_id: i64,
    amount: Money,
    category: &str,
    reason: &str,
    by: i64,
    at: i64,
) -> (result: Result<CashMovement, RepoError>)
    ensures
        ledgers_kept(*old(db), *final(db)),
        match result {
            Ok(movement) => {
                &&& payout_refusal(*old(db), shift_id, amount, category@, by) is None
                &&& is_payout(movement, shift_id, amount, category@, reason@, by, at)
                &&& cash_entered(*old(db), *final(db), movement)
            },
            Err(error) => {
                &&& *final(db) == *old(db)
                &&& payout_refusal(*old(db), shift_id, amount, category@, by) == Some(error@)
            },
        },
{
    match require_cashier(db, by) {
        Ok(_) => {},
        Err(error) => {
            return Err(error);
        },
    }
    match require_open_shift(db, shift_id) {
        Ok(_) => {},
        Err(error) => {
            return Err(error);
        },
    }
    if amount.is_zero() || amount.is_negative() {
        return refuse("a payout amount must be positive");
    }
    let said: &str = category.trim();
    if said.is_empty() {
        return refuse("a payout needs a category");
    }
    insert_movement(
        db,
        shift_id,
        MovementType::Payout,
        Money::from_minor(-amount.minor),
        Some(said.to_owned()),
        reason.trim(),
        None,
        by,
        at,
    )
}

/// Why an adjustment cannot be recorded; nothing, where it can.
pub open spec fn adjustment_refusal(
    db: Store,
    shift_id: i64,
    amount: Money,
    reason: Seq<char>,
    by: i64,
) -> Option<Why> {
    match money_refusal(db, by) {
        Some(why) => Some(why),
        None => match money_shift_refusal(db, shift_id) {
            Some(why) => Some(why),
            None => if amount.minor == 0 {
                Some(Why::Refused("a cash adjustment cannot be zero"@))
            } else if is_blank(reason) {
                Some(Why::Refused("a cash adjustment needs a reason"@))
            } else if fresh_id(db.cash@) is None {
                Some(Why::Sqlite(SqlWhy::Full))
            } else {
                None
            },
        },
    }
}

/// Whether an entry is that adjustment.
pub open spec fn is_adjustment(
    movement: CashMovement,
    shift_id: i64,
    amount: Money,
    reason: Seq<char>,
    by: i64,
    at: i64,
) -> bool {
    entered_as(
        movement,
        shift_id,
        MovementType::Adjustment,
        amount.minor as int,
        None,
        trimmed(reason),
        None,
        by,
        at,
    )
}

pub fn record_adjustment(
    db: &mut Store,
    shift_id: i64,
    amount: Money,
    reason: &str,
    by: i64,
    at: i64,
) -> (result: Result<CashMovement, RepoError>)
    ensures
        ledgers_kept(*old(db), *final(db)),
        match result {
            Ok(movement) => {
                &&& adjustment_refusal(*old(db), shift_id, amount, reason@, by) is None
                &&& is_adjustment(movement, shift_id, amount, reason@, by, at)
                &&& cash_entered(*old(db), *final(db), movement)
            },
            Err(error) => {
                &&& *final(db) == *old(db)
                &&& adjustment_refusal(*old(db), shift_id, amount, reason@, by) == Some(error@)
            },
        },
{
    match require_cashier(db, by) {
        Ok(_) => {},
        Err(error) => {
            return Err(error);
        },
    }
    match require_open_shift(db, shift_id) {
        Ok(_) => {},
        Err(error) => {
            return Err(error);
        },
    }
    if amount.is_zero() {
        return refuse("a cash adjustment cannot be zero");
    }
    let said: &str = reason.trim();
    if said.is_empty() {
        return refuse("a cash adjustment needs a reason");
    }
    insert_movement(db, shift_id, MovementType::Adjustment, amount, None, said, None, by, at)
}

/// What a movement adds to the drawer of a shift.
pub open spec fn drawn_in(shift_id: i64) -> spec_fn(CashMovement) -> Option<i64> {
    |m: CashMovement|
        if m.shift_id == shift_id {
            Some(m.amount.minor)
        } else {
            None
        }
}

/// What the drawer of a shift should hold, or why it cannot be said.
pub open spec fn drawer(db: Store, shift_id: i64) -> Result<Money, Why> {
    if shift(db, shift_id) is None {
        Err(Why::Missing("shift"@))
    } else {
        match running_sum(db.cash@, drawn_in(shift_id)) {
            Some(minor) => Ok(Money { minor }),
            None => Err(too_much()),
        }
    }
}

/// The sole expected-cash formula: a checked sum of the drawer's ledger.
pub fn expected_cash(db: &Store, shift_id: i64) -> (result: Result<Money, RepoError>)
    ensures
        match drawer(*db, shift_id) {
            Ok(money) => result == Ok::<Money, RepoError>(money),
            Err(why) => result matches Err(error) && error@ == why,
        },
{
    match shifts::find(db, shift_id) {
        Ok(_) => {},
        Err(error) => {
            return Err(error);
        },
    }
    match sum_rows(
        &db.cash,
        |m: &CashMovement| -> (v: Option<i64>)
            ensures
                v == (if m.shift_id == shift_id {
                    Some(m.amount.minor)
                } else {
                    None
                })
            {
                if m.shift_id == shift_id {
                    Some(m.amount.minor)
                } else {
                    None
                }
            },
        Ghost(drawn_in(shift_id)),
    ) {
        Some(minor) => Ok(Money::from_minor(minor)),
        None => Err(overflow()),
    }
}

// ---------------------------------------------------------------------------
// Laws
// ---------------------------------------------------------------------------

/// A settlement that is only started never changes what anybody holds, and
/// neither does allocating tabs to it.
pub proof fn a_draft_settles_nothing(
    before: Store,
    after: Store,
    r: Reconciliation,
    waiter_id: i64,
)
    requires
        r.finalized_at is None,
        after.staff == before.staff,
        after.payments == before.payments,
        after.reconciliations@ == before.reconciliations@.push(r) || after.reconciliations
            == before.reconciliations,
    ensures
        held(after, waiter_id) == held(before, waiter_id),
{
    assert(before.reconciliations@.push(r).drop_last() =~= before.reconciliations@);
}

/// Everything that a waiter's finalized settlements settle.
pub open spec fn settled_by(rows: Seq<Reconciliation>, waiter_id: i64) -> int
    decreases rows.len(),
{
    if rows.len() == 0 {
        0
    } else {
        settled_by(rows.drop_last(), waiter_id) + (if counts_for(rows.last(), waiter_id) {
            settled(rows.last())
        } else {
            0
        })
    }
}

/// A balance is what is owed less everything that was settled.
pub proof fn a_balance_is_what_is_left(start: i64, rows: Seq<Reconciliation>, waiter_id: i64)
    ensures
        balance_after(start, rows, waiter_id) matches Some(balance) ==> balance == start
            - settled_by(rows, waiter_id),
    decreases rows.len(),
{
    if rows.len() > 0 {
        a_balance_is_what_is_left(start, rows.drop_last(), waiter_id);
    }
}

proof fn sealing_settles(rows: Seq<Reconciliation>, p: int, sealed: Reconciliation, waiter_id: i64)
    requires
        0 <= p < rows.len(),
        rows[p].finalized_at is None,
        sealed.finalized_at is Some,
    ensures
        settled_by(rows.update(p, sealed), waiter_id) == settled_by(rows, waiter_id) + (
        if sealed.waiter_id == waiter_id {
            settled(sealed)
        } else {
            0
        }),
    decreases rows.len(),
{
    let after = rows.update(p, sealed);
    if p == rows.len() - 1 {
        assert(after.drop_last() =~= rows.drop_last());
    } else {
        assert(after.drop_last() =~= rows.drop_last().update(p, sealed));
        sealing_settles(rows.drop_last(), p, sealed, waiter_id);
    }
}

/// A finalized settlement takes exactly what it settles off its waiter's
/// balance, in whatever form it was settled.
pub proof fn finalizing_clears_what_is_settled(
    before: Store,
    after: Store,
    reconciliation_id: i64,
    by: i64,
    finalized_at: i64,
    waiter_id: i64,
)
    requires
        finalize_refusal(before, reconciliation_id, by, finalized_at) is None,
        finalized(before, after, reconciliation_id, by, finalized_at),
    ensures
        row(before.reconciliations@, reconciliation_id) matches Some(r) && (held(
            before,
            waiter_id,
        ) matches Ok(was) ==> (held(after, waiter_id) matches Ok(is) ==> is.minor == was.minor - (
        if waiter_id == r.waiter_id {
            settled(r)
        } else {
            0
        }))),
{
    let p = place(before.reconciliations@, reconciliation_id)->0;
    crate::table::place_is_first(before.reconciliations@, reconciliation_id);
    let r = before.reconciliations@[p];
    sealing_settles(
        before.reconciliations@,
        p,
        Reconciliation { finalized_at: Some(finalized_at), ..r },
        waiter_id,
    );
    if running_sum(before.payments@, owed_by(waiter_id)) is Some {
        let owed = running_sum(before.payments@, owed_by(waiter_id))->0;
        a_balance_is_what_is_left(owed, before.reconciliations@, waiter_id);
        a_balance_is_what_is_left(owed, after.reconciliations@, waiter_id);
    }
}

/// A finalized settlement puts exactly its cash into the drawer of its shift,
/// and nothing into any other: money settled in another form never enters it.
pub proof fn finalizing_credits_only_cash(
    before: Store,
    after: Store,
    reconciliation_id: i64,
    by: i64,
    finalized_at: i64,
    shift_id: i64,
)
    requires
        finalize_refusal(before, reconciliation_id, by, finalized_at) is None,
        finalized(before, after, reconciliation_id, by, finalized_at),
    ensures
        row(before.reconciliations@, reconciliation_id) matches Some(r) && (drawer(
            before,
            shift_id,
        ) matches Ok(was) ==> {
            let due = if shift_id == r.shift_id {
                r.cash.minor as int
            } else {
                0
            };
            if fits(was.minor + due) {
                drawer(after, shift_id) matches Ok(is) && is.minor == was.minor + due
            } else {
                drawer(after, shift_id) == Err::<Money, Why>(too_much())
            }
        }),
{
}

/// Whether every settlement in the drawer is finalized, entered at the moment
/// it was finalized, and entered for exactly its cash.
pub open spec fn drawer_is_true(db: Store) -> bool {
    forall|i: int|
        0 <= i < db.cash@.len() ==> {
            (#[trigger] db.cash@[i]).reconciliation_id matches Some(id) ==> (row(
                db.reconciliations@,
                id,
            ) matches Some(r) && r.finalized_at == Some(db.cash@[i].created_at)
                && db.cash@[i].amount == r.cash)
        }
}

/// Finalizing keeps the drawer true: the settlement and its cash go together.
pub proof fn finalizing_keeps_the_drawer_true(
    before: Store,
    after: Store,
    reconciliation_id: i64,
    by: i64,
    finalized_at: i64,
)
    requires
        drawer_is_true(before),
        finalize_refusal(before, reconciliation_id, by, finalized_at) is None,
        finalized(before, after, reconciliation_id, by, finalized_at),
    ensures
        drawer_is_true(after),
{
    let p = place(before.reconciliations@, reconciliation_id)->0;
    crate::table::place_is_first(before.reconciliations@, reconciliation_id);
    let r = before.reconciliations@[p];
    let sealed = Reconciliation { finalized_at: Some(finalized_at), ..r };
    assert forall|i: int| 0 <= i < after.cash@.len() implies {
        (#[trigger] after.cash@[i]).reconciliation_id matches Some(id) ==> (row(
            after.reconciliations@,
            id,
        ) matches Some(r) && r.finalized_at == Some(after.cash@[i].created_at)
            && after.cash@[i].amount == r.cash)
    } by {
        if after.cash@[i].reconciliation_id is Some {
            let id = after.cash@[i].reconciliation_id->0;
            changing_keeps_places(before.reconciliations@, p, sealed, id);
            if i < before.cash@.len() {
                assert(after.cash@[i] == before.cash@[i]) by {
                    if r.cash.minor != 0 {
                        assert(after.cash@.drop_last()[i] == after.cash@[i]);
                    }
                }
                crate::table::place_is_first(before.reconciliations@, id);
            }
        }
    }
}

/// Starting a settlement keeps the drawer true.
pub proof fn starting_keeps_the_drawer_true(before: Store, after: Store, r: Reconciliation)
    requires
        drawer_is_true(before),
        after.reconciliations@ == before.reconciliations@.push(r),
        after.cash == before.cash,
    ensures
        drawer_is_true(after),
{
    assert forall|i: int| 0 <= i < after.cash@.len() implies {
        (#[trigger] after.cash@[i]).reconciliation_id matches Some(id) ==> (row(
            after.reconciliations@,
            id,
        ) matches Some(r) && r.finalized_at == Some(after.cash@[i].created_at)
            && after.cash@[i].amount == r.cash)
    } by {
        if after.cash@[i].reconciliation_id is Some {
            assert(after.cash@[i] == before.cash@[i]);
            writing_keeps_places(before.reconciliations@, r, after.cash@[i].reconciliation_id->0);
        }
    }
}

/// Entering a payout or an adjustment keeps the drawer true.
pub proof fn entering_keeps_the_drawer_true(before: Store, after: Store, movement: CashMovement)
    requires
        drawer_is_true(before),
        movement.reconciliation_id is None,
        cash_entered(before, after, movement),
    ensures
        drawer_is_true(after),
{
    assert forall|i: int| 0 <= i < after.cash@.len() implies {
        (#[trigger] after.cash@[i]).reconciliation_id matches Some(id) ==> (row(
            after.reconciliations@,
            id,
        ) matches Some(r) && r.finalized_at == Some(after.cash@[i].created_at)
            && after.cash@[i].amount == r.cash)
    } by {
        if after.cash@[i].reconciliation_id is Some {
            assert(after.cash@[i] == before.cash@[i]);
        }
    }
}

} // verus!

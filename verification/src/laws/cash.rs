//! What waiters owe, and what is in the drawer.

use vstd::prelude::*;

use super::{
    a_changed_row_moves_the_total, a_checked_sum_is_the_total, a_new_row_adds_its_figure,
    a_text_that_is_not_blank_says_something, comes_first, is_cashier, is_waiter, lists_exactly,
    says, the_first_chosen_comes_first, total, trades,
};
use crate::money::{fits, Money};
use crate::repo::cash::{
    adjustment_refusal, allocate_refusal, allocated, allocated_before, allocated_to, allocations_of,
    balance_after, cash_entered, create_reconciliation_refusal, drawer, drawn_in, entered_in,
    finalize_refusal, finalized, freeze_payment_refusal, from_settlement, frozen_for, held,
    is_adjustment, is_payout, owed_by, payout_refusal, settlement_cash_entered,
    settlement_cash_refusal, started_as, tab_allocated, Allocation, CashMovement, MovementType,
    NewReconciliation, NewTabPayment, Reconciliation, TabPayment,
};
use crate::repo::receipts::payment_of;
use crate::repo::{tabs, Why};
use crate::store::Store;
use crate::table::{changing_keeps_places, fresh_id, place, place_is_first, row, running_sum};

verus! {

/// What a waiter was made to owe: the liability of every bill of theirs.
pub open spec fn charged_to(db: Store, waiter_id: i64) -> int {
    total(
        db.payments@,
        |p: TabPayment|
            if p.waiter_id == waiter_id {
                p.liability.minor as int
            } else {
                0
            },
    )
}

/// What a waiter was let off: the cash, the money in other forms and the
/// write-offs of every finished settlement of theirs.
pub open spec fn cleared_by(rows: Seq<Reconciliation>, waiter_id: i64) -> int {
    total(
        rows,
        |r: Reconciliation|
            if r.waiter_id == waiter_id && r.finalized_at is Some {
                r.cash.minor + r.non_cash.minor + r.written_off.minor
            } else {
                0
            },
    )
}

proof fn a_running_balance(start: i64, rows: Seq<Reconciliation>, waiter_id: i64)
    ensures
        balance_after(start, rows, waiter_id) matches Some(left) ==> left == start - cleared_by(
            rows,
            waiter_id,
        ),
    decreases rows.len(),
{
    if rows.len() > 0 {
        a_running_balance(start, rows.drop_last(), waiter_id);
    }
}

/// A waiter holds what their bills come to, less everything they have settled:
/// cash, other forms and write-offs alike. Only a waiter holds anything, and
/// nobody holds less than nothing.
pub proof fn a_waiter_holds_what_is_not_settled(db: Store, waiter_id: i64)
    ensures
        held(db, waiter_id) matches Ok(balance) ==> {
            &&& balance.minor == charged_to(db, waiter_id) - cleared_by(
                db.reconciliations@,
                waiter_id,
            )
            &&& balance.minor >= 0
            &&& is_waiter(db, waiter_id)
        },
{
    let worth = |p: TabPayment|
        if p.waiter_id == waiter_id {
            p.liability.minor as int
        } else {
            0
        };
    a_checked_sum_is_the_total(db.payments@, owed_by(waiter_id), worth);
    if running_sum(db.payments@, owed_by(waiter_id)) is Some {
        a_running_balance(
            running_sum(db.payments@, owed_by(waiter_id))->0,
            db.reconciliations@,
            waiter_id,
        );
    }
}

/// The balance of a waiter is known wherever it can be: it is refused to
/// somebody who never served, where a sum leaves 64 bits, and where more was
/// settled than was owed.
pub proof fn a_waiter_can_be_told_their_balance(db: Store, waiter_id: i64)
    requires
        is_waiter(db, waiter_id),
        held(db, waiter_id) is Err,
    ensures
        ({
            let owed = |p: TabPayment|
                if p.waiter_id == waiter_id {
                    p.liability.minor as int
                } else {
                    0
                };
            ||| charged_to(db, waiter_id) < cleared_by(db.reconciliations@, waiter_id)
            ||| exists|n: int|
                0 <= n <= db.payments@.len() && !fits(total(#[trigger] db.payments@.take(n), owed))
            ||| exists|n: int|
                0 <= n <= db.reconciliations@.len() && !fits(
                    charged_to(db, waiter_id) - cleared_by(
                        #[trigger] db.reconciliations@.take(n),
                        waiter_id,
                    ),
                )
            ||| exists|i: int|
                0 <= i < db.reconciliations@.len() && ({
                    let r = #[trigger] db.reconciliations@[i];
                    !fits(r.cash.minor + r.non_cash.minor) || !fits(
                        r.cash.minor + r.non_cash.minor + r.written_off.minor,
                    )
                })
        }),
{
    let owed = |p: TabPayment|
        if p.waiter_id == waiter_id {
            p.liability.minor as int
        } else {
            0
        };
    a_checked_sum_is_the_total(db.payments@, owed_by(waiter_id), owed);
    if running_sum(db.payments@, owed_by(waiter_id)) is Some {
        let start = running_sum(db.payments@, owed_by(waiter_id))->0;
        a_running_balance(start, db.reconciliations@, waiter_id);
        if balance_after(start, db.reconciliations@, waiter_id) is None {
            a_balance_fails_somewhere(start, db.reconciliations@, waiter_id);
        }
    }
}

proof fn a_balance_fails_somewhere(start: i64, rows: Seq<Reconciliation>, waiter_id: i64)
    requires
        balance_after(start, rows, waiter_id) is None,
    ensures
        (exists|n: int|
            0 <= n <= rows.len() && !fits(start - cleared_by(#[trigger] rows.take(n), waiter_id)))
            || (exists|i: int|
            0 <= i < rows.len() && ({
                let r = #[trigger] rows[i];
                !fits(r.cash.minor + r.non_cash.minor) || !fits(
                    r.cash.minor + r.non_cash.minor + r.written_off.minor,
                )
            })),
    decreases rows.len(),
{
    if rows.len() > 0 {
        let front = rows.drop_last();
        if balance_after(start, front, waiter_id) is None {
            a_balance_fails_somewhere(start, front, waiter_id);
            if exists|n: int|
                0 <= n <= front.len() && !fits(
                    start - cleared_by(#[trigger] front.take(n), waiter_id),
                ) {
                let n = choose|n: int|
                    0 <= n <= front.len() && !fits(
                        start - cleared_by(#[trigger] front.take(n), waiter_id),
                    );
                assert(rows.take(n) =~= front.take(n));
            } else {
                let i = choose|i: int|
                    0 <= i < front.len() && ({
                        let r = #[trigger] front[i];
                        !fits(r.cash.minor + r.non_cash.minor) || !fits(
                            r.cash.minor + r.non_cash.minor + r.written_off.minor,
                        )
                    });
                assert(rows[i] == front[i]);
            }
        } else {
            a_running_balance(start, front, waiter_id);
            let r = rows[rows.len() - 1];
            if fits(r.cash.minor + r.non_cash.minor) && fits(
                r.cash.minor + r.non_cash.minor + r.written_off.minor,
            ) {
                assert(rows.take(rows.len() as int) =~= rows);
                assert(!fits(start - cleared_by(rows.take(rows.len() as int), waiter_id)));
            }
        }
    }
}

/// Finishing a settlement takes its cash, its money in other forms and its
/// write-off off what its waiter holds, and nothing off what anybody else holds.
pub proof fn finishing_a_settlement_clears_all_three_parts(
    before: Store,
    after: Store,
    reconciliation_id: i64,
    by: i64,
    finalized_at: i64,
    waiter_id: i64,
)
    requires
        finalize_refusal(before, reconciliation_id, by, finalized_at) is None,
        finalized(before, after, reconciliation_id, by, finalized_at),
    ensures
        row(before.reconciliations@, reconciliation_id) matches Some(r) && (held(
            before,
            waiter_id,
        ) matches Ok(was) ==> (held(after, waiter_id) matches Ok(is) ==> is.minor == was.minor - (
        if waiter_id == r.waiter_id {
            r.cash.minor + r.non_cash.minor + r.written_off.minor
        } else {
            0
        }))),
{
    let p = place(before.reconciliations@, reconciliation_id)->0;
    place_is_first(before.reconciliations@, reconciliation_id);
    let r = before.reconciliations@[p];
    let worth = |r: Reconciliation|
        if r.waiter_id == waiter_id && r.finalized_at is Some {
            r.cash.minor + r.non_cash.minor + r.written_off.minor
        } else {
            0
        };
    a_changed_row_moves_the_total(
        before.reconciliations@,
        p,
        Reconciliation { finalized_at: Some(finalized_at), ..r },
        worth,
    );
    a_waiter_holds_what_is_not_settled(before, waiter_id);
    a_waiter_holds_what_is_not_settled(after, waiter_id);
}

/// What a settlement started with leaves open is what was expected less all
/// three parts of what was offered, and it clears nothing until it is finished.
pub proof fn a_started_settlement_keeps_its_figures(
    db: Store,
    r: Reconciliation,
    new: NewReconciliation<'_>,
)
    requires
        create_reconciliation_refusal(db, new) is None,
        started_as(r, db, new),
    ensures
        fresh_id(db.reconciliations@) == Some(r.id),
        r.waiter_id == new.waiter_id,
        r.cashier_id == new.cashier_id,
        r.shift_id == new.shift_id,
        r.created_at == new.created_at,
        r.finalized_at is None,
        r.expected.minor == new.expected.minor,
        r.cash.minor == new.cash.minor,
        r.non_cash.minor == new.non_cash.minor,
        r.written_off.minor == new.written_off.minor,
        r.cash.minor + r.non_cash.minor + r.written_off.minor + r.shortfall.minor
            == r.expected.minor,
        r.shortfall.minor >= 0,
        forall|w: i64|
            cleared_by(db.reconciliations@.push(r), w) == #[trigger] cleared_by(
                db.reconciliations@,
                w,
            ),
{
    assert forall|w: i64|
        cleared_by(db.reconciliations@.push(r), w) == #[trigger] cleared_by(
            db.reconciliations@,
            w,
        ) by {
        a_new_row_adds_its_figure(
            db.reconciliations@,
            r,
            |r: Reconciliation|
                if r.waiter_id == w && r.finalized_at is Some {
                    r.cash.minor + r.non_cash.minor + r.written_off.minor
                } else {
                    0
                },
        );
    }
}

/// A settlement is started exactly when a cashier takes it, for a waiter, in an
/// open night; when no amount is negative, at most one form is used, and no more
/// is offered than expected; and when a write-off says why, and nothing else
/// does.
pub proof fn when_a_settlement_can_start(db: Store, new: NewReconciliation<'_>)
    ensures
        create_reconciliation_refusal(db, new) is None <==> {
            &&& is_cashier(db, new.cashier_id)
            &&& is_waiter(db, new.waiter_id)
            &&& trades(db, new.shift_id)
            &&& new.expected.minor >= 0 && new.cash.minor >= 0 && new.non_cash.minor >= 0
                && new.written_off.minor >= 0
            &&& (new.cash.minor == 0 && new.non_cash.minor == 0) || (new.cash.minor == 0
                && new.written_off.minor == 0) || (new.non_cash.minor == 0 && new.written_off.minor
                == 0)
            &&& new.written_off.minor > 0 ==> (new.write_off_reason matches Some(text) && says(
                text@,
            ))
            &&& new.written_off.minor == 0 ==> new.write_off_reason is None
            &&& new.cash.minor + new.non_cash.minor + new.written_off.minor <= new.expected.minor
            &&& fresh_id(db.reconciliations@) is Some
        },
{
    if new.write_off_reason is Some {
        a_text_that_is_not_blank_says_something(new.write_off_reason->0@);
    }
}

/// Whether a payment is the bill of a tab: the first that was written for it.
pub open spec fn is_bill_of(payment: TabPayment, db: Store, tab_id: i64) -> bool {
    comes_first(payment, db.payments@, |p: TabPayment| p.tab_id == tab_id)
}

/// A tab is put on a settlement exactly when the cashier who started it does so
/// before it is finished, and the tab is closed, not settled yet, and billed to
/// the same waiter.
pub proof fn when_a_tab_can_be_put_on_a_settlement(
    db: Store,
    reconciliation_id: i64,
    tab_id: i64,
    by: i64,
)
    ensures
        allocate_refusal(db, reconciliation_id, tab_id, by) is None <==> {
            &&& is_cashier(db, by)
            &&& row(db.reconciliations@, reconciliation_id) matches Some(r) && r.cashier_id == by
                && r.finalized_at is None && (exists|payment: TabPayment|
                #[trigger] is_bill_of(payment, db, tab_id)
                    && payment.waiter_id == r.waiter_id)
            &&& row(db.tabs@, tab_id) matches Some(found) && found.status == tabs::Status::Closed
            &&& fresh_id(db.allocations@) is Some
        },
{
    let wanted = |p: TabPayment| p.tab_id == tab_id;
    the_first_chosen_comes_first(db.payments@, payment_of(tab_id), wanted);
    let found = crate::table::chosen(db.payments@, payment_of(tab_id));
    assert forall|a: TabPayment, b: TabPayment|
        #[trigger] is_bill_of(a, db, tab_id) && #[trigger] is_bill_of(
            b,
            db,
            tab_id,
        ) implies a == b by {
        first_is_one(a, b, db.payments@, wanted);
    }
    if found.len() > 0 {
        assert(is_bill_of(found[0], db, tab_id));
    }
}

proof fn first_is_one<T>(a: T, b: T, rows: Seq<T>, wanted: spec_fn(T) -> bool)
    requires
        comes_first(a, rows, wanted),
        comes_first(b, rows, wanted),
    ensures
        a == b,
{
    let i = choose|i: int|
        0 <= i < rows.len() && #[trigger] rows[i] == a && wanted(rows[i]) && (forall|k: int|
            0 <= k < i ==> !wanted(#[trigger] rows[k]));
    let j = choose|j: int|
        0 <= j < rows.len() && #[trigger] rows[j] == b && wanted(rows[j]) && (forall|k: int|
            0 <= k < j ==> !wanted(#[trigger] rows[k]));
    if i < j {
        assert(!wanted(rows[i]));
    }
    if j < i {
        assert(!wanted(rows[j]));
    }
}

/// A tab goes on a settlement at what its waiter owes for it, and is settled
/// from then on. No other tab is touched.
pub proof fn a_tab_is_settled_at_its_liability(
    before: Store,
    after: Store,
    reconciliation_id: i64,
    tab_id: i64,
    allocation: Allocation,
    other: i64,
)
    requires
        tab_allocated(before, after, reconciliation_id, tab_id, allocation),
    ensures
        after.allocations@ == before.allocations@.push(allocation),
        allocation.reconciliation_id == reconciliation_id,
        allocation.tab_id == tab_id,
        exists|payment: TabPayment|
            #[trigger] is_bill_of(payment, before, tab_id)
                && allocation.amount.minor == payment.liability.minor,
        row(after.tabs@, tab_id) matches Some(found) && found.status == tabs::Status::Reconciled,
        other != tab_id ==> row(after.tabs@, other) == row(before.tabs@, other),
        after.payments == before.payments,
        after.cash == before.cash,
        after.reconciliations == before.reconciliations,
{
    let wanted = |p: TabPayment| p.tab_id == tab_id;
    the_first_chosen_comes_first(before.payments@, payment_of(tab_id), wanted);
    assert(is_bill_of(
        crate::table::chosen(before.payments@, payment_of(tab_id))[0],
        before,
        tab_id,
    ));
    place_is_first(before.tabs@, tab_id);
    place_is_first(before.tabs@, other);
    let p = place(before.tabs@, tab_id)->0;
    let settled = tabs::Tab { status: tabs::Status::Reconciled, ..before.tabs@[p] };
    changing_keeps_places(before.tabs@, p, settled, tab_id);
    changing_keeps_places(before.tabs@, p, settled, other);
}

proof fn what_is_allocated(rows: Seq<Allocation>, n: int)
    requires
        0 <= n <= rows.len(),
    ensures
        allocated(rows, n) matches Ok(sum) ==> {
            &&& sum == total(rows.take(n), |a: Allocation| a.amount.minor as int)
            &&& forall|i: int, j: int|
                0 <= i < j < n ==> (#[trigger] rows[i]).tab_id != (#[trigger] rows[j]).tab_id
        },
    decreases n,
{
    if n > 0 {
        what_is_allocated(rows, n - 1);
        assert(rows.take(n).drop_last() =~= rows.take(n - 1));
    }
}

/// A settlement is finished only by the cashier who started it, once, no
/// earlier than it started, and while its night is open. Where tabs are on it,
/// no tab is on it twice and they come to exactly what was expected. Where none
/// is, it settles an old balance: no closed tab of the waiter's is left over,
/// it expects all that the waiter holds, and it settles something.
pub proof fn when_a_settlement_can_finish(
    db: Store,
    reconciliation_id: i64,
    by: i64,
    finalized_at: i64,
)
    requires
        finalize_refusal(db, reconciliation_id, by, finalized_at) is None,
    ensures
        is_cashier(db, by),
        row(db.reconciliations@, reconciliation_id) matches Some(r) && {
            &&& r.cashier_id == by
            &&& r.finalized_at is None
            &&& r.created_at <= finalized_at
            &&& r.cash.minor >= 0
            &&& trades(db, r.shift_id)
            &&& allocations_of(db, r.id).len() > 0 ==> {
                let rows = allocations_of(db, r.id);
                &&& r.expected.minor == total(rows, |a: Allocation| a.amount.minor as int)
                &&& forall|i: int, j: int|
                    0 <= i < j < rows.len() ==> (#[trigger] rows[i]).tab_id != (
                    #[trigger] rows[j]).tab_id
            }
            &&& allocations_of(db, r.id).len() == 0 ==> {
                &&& r.cash.minor + r.non_cash.minor + r.written_off.minor != 0
                &&& held(db, r.waiter_id) == Ok::<Money, Why>(r.expected)
                &&& forall|i: int|
                    0 <= i < db.payments@.len() && (#[trigger] db.payments@[i]).waiter_id
                        == r.waiter_id ==> !(row(db.tabs@, db.payments@[i].tab_id) matches Some(
                        found,
                    ) && found.status == tabs::Status::Closed)
            }
        },
{
    let r = row(db.reconciliations@, reconciliation_id)->0;
    let rows = allocations_of(db, r.id);
    what_is_allocated(rows, rows.len() as int);
    assert(rows.take(rows.len() as int) =~= rows);
    assert forall|i: int|
        allocations_of(db, r.id).len() == 0 && 0 <= i < db.payments@.len() && (
        #[trigger] db.payments@[i]).waiter_id == r.waiter_id implies !(row(
        db.tabs@,
        db.payments@[i].tab_id,
    ) matches Some(found) && found.status == tabs::Status::Closed) by {
        let wanted = crate::repo::cash::unsettled(db, r.waiter_id);
        assert(!wanted(db.payments@[i]));
    }
}

/// The tabs on a settlement are the ones that were put on it, in the order in
/// which they were.
pub proof fn a_settlement_lists_its_tabs(db: Store, reconciliation_id: i64)
    ensures
        super::lists_exactly(
            allocations_of(db, reconciliation_id),
            db.allocations@,
            |a: Allocation| a.reconciliation_id == reconciliation_id,
            |a: Allocation, b: Allocation| a.id < b.id,
        ),
{
    crate::lists::what_is_listed_by_number_ranks();
    super::a_list_is_exact(
        db.allocations@,
        allocated_to(reconciliation_id),
        allocated_before(),
        |a: Allocation| a.reconciliation_id == reconciliation_id,
        |a: Allocation, b: Allocation| a.id < b.id,
    );
}

/// The drawer of a night should hold what was entered for that night, in and
/// out, and for no other.
pub proof fn the_drawer_holds_what_was_entered(db: Store, shift_id: i64)
    ensures
        ({
            let worth = |m: CashMovement|
                if m.shift_id == shift_id {
                    m.amount.minor as int
                } else {
                    0
                };
            match drawer(db, shift_id) {
                Ok(money) => row(db.shifts@, shift_id) is Some && money.minor == total(
                    db.cash@,
                    worth,
                ),
                Err(_) => row(db.shifts@, shift_id) is None || (exists|n: int|
                    0 <= n <= db.cash@.len() && !fits(total(#[trigger] db.cash@.take(n), worth))),
            }
        }),
{
    let worth = |m: CashMovement|
        if m.shift_id == shift_id {
            m.amount.minor as int
        } else {
            0
        };
    a_checked_sum_is_the_total(db.cash@, drawn_in(shift_id), worth);
}

/// A payout takes exactly its amount out of the drawer of its night, and touches
/// no other. It is made by a cashier, in an open night, for something more than
/// nothing, and it says what kind it is.
pub proof fn a_payout_empties_the_drawer_by_its_amount(
    before: Store,
    after: Store,
    movement: CashMovement,
    shift_id: i64,
    amount: Money,
    category: Seq<char>,
    reason: Seq<char>,
    by: i64,
    at: i64,
    night: i64,
)
    requires
        payout_refusal(before, shift_id, amount, category, by) is None,
        is_payout(movement, shift_id, amount, category, reason, by, at),
        cash_entered(before, after, movement),
    ensures
        amount.minor > 0,
        is_cashier(before, by),
        trades(before, shift_id),
        says(category),
        movement.movement_type == MovementType::Payout,
        movement.shift_id == shift_id,
        movement.created_by == by,
        movement.created_at == at,
        movement.reconciliation_id is None,
        drawer(before, night) matches Ok(was) ==> (drawer(after, night) matches Ok(is) ==> is.minor
            == was.minor - (if night == shift_id {
            amount.minor as int
        } else {
            0
        })),
{
    a_text_that_is_not_blank_says_something(category);
    the_drawer_holds_what_was_entered(before, night);
    the_drawer_holds_what_was_entered(after, night);
    a_new_row_adds_its_figure(
        before.cash@,
        movement,
        |m: CashMovement|
            if m.shift_id == night {
                m.amount.minor as int
            } else {
                0
            },
    );
}

/// An adjustment moves the drawer of its night by exactly its amount, up or
/// down, and touches no other. It is made by a cashier, in an open night, and it
/// says why.
pub proof fn an_adjustment_moves_the_drawer_by_its_amount(
    before: Store,
    after: Store,
    movement: CashMovement,
    shift_id: i64,
    amount: Money,
    reason: Seq<char>,
    by: i64,
    at: i64,
    night: i64,
)
    requires
        adjustment_refusal(before, shift_id, amount, reason, by) is None,
        is_adjustment(movement, shift_id, amount, reason, by, at),
        cash_entered(before, after, movement),
    ensures
        amount.minor != 0,
        is_cashier(before, by),
        trades(before, shift_id),
        says(reason),
        movement.movement_type == MovementType::Adjustment,
        movement.shift_id == shift_id,
        movement.created_by == by,
        movement.created_at == at,
        movement.reconciliation_id is None,
        drawer(before, night) matches Ok(was) ==> (drawer(after, night) matches Ok(is) ==> is.minor
            == was.minor + (if night == shift_id {
            amount.minor as int
        } else {
            0
        })),
{
    a_text_that_is_not_blank_says_something(reason);
    the_drawer_holds_what_was_entered(before, night);
    the_drawer_holds_what_was_entered(after, night);
    a_new_row_adds_its_figure(
        before.cash@,
        movement,
        |m: CashMovement|
            if m.shift_id == night {
                m.amount.minor as int
            } else {
                0
            },
    );
}

/// Whoever may enter a payout or an adjustment may do so: nothing else stands
/// in the way.
pub proof fn when_the_drawer_can_be_moved(
    db: Store,
    shift_id: i64,
    amount: Money,
    category: Seq<char>,
    by: i64,
)
    ensures
        payout_refusal(db, shift_id, amount, category, by) is None <==> (is_cashier(db, by)
            && trades(db, shift_id) && amount.minor > 0 && says(category) && fresh_id(db.cash@)
            is Some),
        adjustment_refusal(db, shift_id, amount, category, by) is None <==> (is_cashier(db, by)
            && trades(db, shift_id) && amount.minor != 0 && says(category) && fresh_id(db.cash@)
            is Some),
{
    a_text_that_is_not_blank_says_something(category);
}

/// A frozen bill is the tab's: its waiter owes all of it, or nothing where the
/// house pays, and its parts come to its total.
pub proof fn a_frozen_bill_charges_its_waiter(
    db: Store,
    payment: TabPayment,
    new: NewTabPayment<'_>,
)
    requires
        freeze_payment_refusal(db, new) is None,
        frozen_for(payment, db, new),
    ensures
        is_cashier(db, new.created_by),
        trades(db, new.shift_id),
        payment.tab_id == new.tab_id,
        payment.shift_id == new.shift_id,
        payment.created_by == new.created_by,
        payment.created_at == new.created_at,
        payment.total.minor == payment.subtotal.minor + payment.service_charge.minor
            + payment.tax.minor,
        row(db.tabs@, new.tab_id) matches Some(found) && {
            &&& found.status == tabs::Status::Closed
            &&& found.closed_shift_id == Some(new.shift_id)
            &&& payment.waiter_id == found.waiter_id
            &&& payment.is_comped == found.is_comped
            &&& found.is_comped ==> payment.liability.minor == 0 && payment.comp_reason is Some
            &&& !found.is_comped ==> payment.liability.minor == payment.total.minor
                && payment.comp_reason is None
        },
{
}

/// A bill adds what its waiter owes for it to what that waiter was charged, and
/// nothing to anybody else.
pub proof fn a_bill_charges_one_waiter(before: Store, after: Store, waiter_id: i64)
    requires
        after.payments@.len() == before.payments@.len() + 1,
        after.payments@.drop_last() == before.payments@,
    ensures
        charged_to(after, waiter_id) == charged_to(before, waiter_id) + (
        if after.payments@.last().waiter_id == waiter_id {
            after.payments@.last().liability.minor as int
        } else {
            0
        }),
{
}

/// The cash of a settlement enters the drawer exactly once: by the cashier who
/// made the settlement, at the moment it was finished, while its night is open,
/// and only where there is some.
pub proof fn when_settlement_cash_can_enter_the_drawer(
    db: Store,
    reconciliation_id: i64,
    by: i64,
    at: i64,
)
    ensures
        settlement_cash_refusal(db, reconciliation_id, by, at) is None <==> {
            &&& is_cashier(db, by)
            &&& row(db.reconciliations@, reconciliation_id) matches Some(r) && r.cashier_id == by
                && r.finalized_at == Some(at) && r.cash.minor > 0 && trades(db, r.shift_id)
            &&& !super::there_is(
                db.cash@,
                |m: CashMovement| m.reconciliation_id == Some(reconciliation_id),
            )
            &&& fresh_id(db.cash@) is Some
        },
{
    super::a_row_is_found_where_there_is_one(
        db.cash@,
        from_settlement(reconciliation_id),
        |m: CashMovement| m.reconciliation_id == Some(reconciliation_id),
    );
}

/// The cash of a settlement raises the drawer of its night by exactly that cash,
/// and touches no other.
pub proof fn settlement_cash_raises_the_drawer(
    before: Store,
    after: Store,
    movement: CashMovement,
    reconciliation_id: i64,
    by: i64,
    at: i64,
    night: i64,
)
    requires
        settlement_cash_entered(before, after, movement, reconciliation_id, by, at),
    ensures
        row(before.reconciliations@, reconciliation_id) matches Some(r) && {
            &&& movement.movement_type == MovementType::Reconciliation
            &&& movement.shift_id == r.shift_id
            &&& movement.amount == r.cash
            &&& movement.reconciliation_id == Some(reconciliation_id)
            &&& movement.created_by == by
            &&& movement.created_at == at
            &&& drawer(before, night) matches Ok(was) ==> (drawer(after, night) matches Ok(is)
                ==> is.minor == was.minor + (if night == r.shift_id {
                r.cash.minor as int
            } else {
                0
            }))
        },
        after.cash@ == before.cash@.push(movement),
        after == (Store { cash: after.cash, ..before }),
{
    the_drawer_holds_what_was_entered(before, night);
    the_drawer_holds_what_was_entered(after, night);
    a_new_row_adds_its_figure(
        before.cash@,
        movement,
        |m: CashMovement|
            if m.shift_id == night {
                m.amount.minor as int
            } else {
                0
            },
    );
}

/// The movements of a night are all that were entered for it, in the order they
/// were entered.
pub proof fn the_movements_of_a_night_are_listed_in_full(db: Store, shift_id: i64)
    ensures
        lists_exactly(
            entered_in(db, shift_id),
            db.cash@,
            |m: CashMovement| m.shift_id == shift_id,
            |a: CashMovement, b: CashMovement| a.id < b.id,
        ),
{
    crate::lists::what_is_listed_by_number_ranks();
    super::a_list_is_exact(
        db.cash@,
        crate::repo::cash::in_shift(shift_id),
        crate::repo::cash::entered_before(),
        |m: CashMovement| m.shift_id == shift_id,
        |a: CashMovement, b: CashMovement| a.id < b.id,
    );
}

/// Finishing a settlement puts its cash, and nothing else, in the drawer of its
/// night; nothing about it changes but that it is finished.
pub proof fn finishing_a_settlement_fills_the_drawer(
    before: Store,
    after: Store,
    reconciliation_id: i64,
    by: i64,
    at: i64,
    night: i64,
    other: i64,
)
    requires
        finalized(before, after, reconciliation_id, by, at),
    ensures
        row(before.reconciliations@, reconciliation_id) matches Some(r) && {
            &&& row(after.reconciliations@, reconciliation_id) == Some(
                Reconciliation { finalized_at: Some(at), ..r },
            )
            &&& other != reconciliation_id ==> row(after.reconciliations@, other) == row(
                before.reconciliations@,
                other,
            )
            &&& r.cash.minor == 0 ==> after.cash@ == before.cash@
            &&& r.cash.minor != 0 ==> ({
                let entry = after.cash@.last();
                &&& after.cash@ == before.cash@.push(entry)
                &&& fresh_id(before.cash@) == Some(entry.id)
                &&& entry.movement_type == MovementType::Reconciliation
                &&& entry.shift_id == r.shift_id
                &&& entry.amount == r.cash
                &&& entry.reconciliation_id == Some(reconciliation_id)
                &&& entry.created_by == by
                &&& entry.created_at == at
            })
            &&& drawer(before, night) matches Ok(was) ==> (drawer(after, night) matches Ok(is)
                ==> is.minor == was.minor + (if night == r.shift_id {
                r.cash.minor as int
            } else {
                0
            }))
        },
        after == (Store { reconciliations: after.reconciliations, cash: after.cash, ..before }),
{
    let p = place(before.reconciliations@, reconciliation_id)->0;
    let r = before.reconciliations@[p];
    let done = Reconciliation { finalized_at: Some(at), ..r };
    place_is_first(before.reconciliations@, reconciliation_id);
    place_is_first(before.reconciliations@, other);
    changing_keeps_places(before.reconciliations@, p, done, reconciliation_id);
    changing_keeps_places(before.reconciliations@, p, done, other);
    the_drawer_holds_what_was_entered(before, night);
    the_drawer_holds_what_was_entered(after, night);
    if r.cash.minor != 0 {
        let entry = after.cash@.last();
        assert(after.cash@ =~= before.cash@.push(entry));
        a_new_row_adds_its_figure(
            before.cash@,
            entry,
            |m: CashMovement|
                if m.shift_id == night {
                    m.amount.minor as int
                } else {
                    0
                },
        );
    }
}

} // verus!

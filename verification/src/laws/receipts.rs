//! Receipts and the attempts to print them.

use vstd::prelude::*;

use super::cash::is_bill_of;
use super::{
    a_count_is_how_many, a_list_is_exact, a_text_that_is_not_blank_says_something, comes_first,
    how_many, is_cashier, lists_exactly, says, the_first_chosen_comes_first, trades,
};
use crate::repo::cash::TabPayment;
use crate::repo::orders::line_of;
use crate::repo::receipts::{
    attempt_answered, attempt_begun, attempted_before, attempts_of, attempts_written, bearing,
    begin_refusal, create_customer_refusal, create_issue_refusal, created_before, customer_facts,
    customer_receipt, customer_receipt_created, first_attempt_made, first_attempt_refusal,
    freeze_refusal, is_pending, live_slip, mark_failed_refusal, mark_printed_refusal,
    mark_void_refusal, numbered, numbered_before, of_order, of_receipt, of_tab, payment_of,
    receipt_failed, receipt_printed, receipt_voided, receipts_of, resolve_refusal, route,
    slip_created, text_frozen, tried_before, unanswered_attempts, unanswered_of, waiting_receipts,
    Attempt, Destination, FinalOutcome, Kind, Outcome, Receipt, Status,
};
use crate::repo::seq::{printed, Counter};
use crate::repo::{orders, shifts, tabs};
use crate::store::Store;
use crate::table::{any, changing_keeps_places, fresh_id, place, place_is_first, row, Row};

verus! {

// ---------------------------------------------------------------------------
// Finding receipts
// ---------------------------------------------------------------------------

/// The receipts of an order are all of them, in the order of their numbers; what
/// waits to be printed, and what nobody has answered, is listed the oldest first.
pub proof fn receipts_are_listed_in_full(db: Store, order_id: i64, receipt_id: i64)
    ensures
        lists_exactly(
            receipts_of(db, order_id),
            db.receipts@,
            |r: Receipt| r.order_id == Some(order_id),
            |a: Receipt, b: Receipt| a.sequence_no < b.sequence_no,
        ),
        lists_exactly(
            waiting_receipts(db),
            db.receipts@,
            |r: Receipt| r.status == Status::Pending,
            |a: Receipt, b: Receipt|
                a.created_at < b.created_at || (a.created_at == b.created_at && a.id < b.id),
        ),
        lists_exactly(
            attempts_of(db, receipt_id),
            db.prints@,
            |a: Attempt| a.receipt_id == receipt_id,
            |a: Attempt, b: Attempt| a.print_no < b.print_no,
        ),
        lists_exactly(
            unanswered_attempts(db),
            db.prints@,
            |a: Attempt| a.outcome == Outcome::Unknown,
            |a: Attempt, b: Attempt|
                a.created_at < b.created_at || (a.created_at == b.created_at && a.id < b.id),
        ),
{
    crate::lists::what_is_listed_by_number_ranks();
    a_list_is_exact(
        db.receipts@,
        of_order(order_id),
        numbered_before(),
        |r: Receipt| r.order_id == Some(order_id),
        |a: Receipt, b: Receipt| a.sequence_no < b.sequence_no,
    );
    a_list_is_exact(
        db.receipts@,
        is_pending(),
        created_before(),
        |r: Receipt| r.status == Status::Pending,
        |a: Receipt, b: Receipt|
            a.created_at < b.created_at || (a.created_at == b.created_at && a.id < b.id),
    );
    a_list_is_exact(
        db.prints@,
        of_receipt(receipt_id),
        tried_before(),
        |a: Attempt| a.receipt_id == receipt_id,
        |a: Attempt, b: Attempt| a.print_no < b.print_no,
    );
    a_list_is_exact(
        db.prints@,
        shifts::is_unanswered(),
        attempted_before(),
        |a: Attempt| a.outcome == Outcome::Unknown,
        |a: Attempt, b: Attempt|
            a.created_at < b.created_at || (a.created_at == b.created_at && a.id < b.id),
    );
}

/// A receipt is found by the number on it, and the receipt of a tab by its tab:
/// the first that bears it.
pub proof fn a_receipt_is_found_by_what_it_bears(db: Store, number: Seq<char>, tab_id: i64)
    ensures
        match bearing(db, number) {
            Some(found) => comes_first(
                found,
                db.receipts@,
                |r: Receipt| r.receipt_number@ == number,
            ),
            None => forall|i: int|
                0 <= i < db.receipts@.len() ==> (#[trigger] db.receipts@[i]).receipt_number@
                    != number,
        },
        match customer_receipt(db, tab_id) {
            Some(found) => comes_first(found, db.receipts@, |r: Receipt| r.tab_id == Some(tab_id)),
            None => forall|i: int|
                0 <= i < db.receipts@.len() ==> (#[trigger] db.receipts@[i]).tab_id != Some(
                    tab_id,
                ),
        },
{
    the_first_chosen_comes_first(
        db.receipts@,
        numbered(number),
        |r: Receipt| r.receipt_number@ == number,
    );
    the_first_chosen_comes_first(
        db.receipts@,
        of_tab(tab_id),
        |r: Receipt| r.tab_id == Some(tab_id),
    );
}

// ---------------------------------------------------------------------------
// Slips
// ---------------------------------------------------------------------------

/// Whether something on an order is made where a slip goes.
pub open spec fn is_made_at(db: Store, order_id: i64, destination: Destination) -> bool {
    exists|i: int, j: int|
        #![trigger db.order_lines@[i], db.recipe_lines@[j]]
        0 <= i < db.order_lines@.len() && 0 <= j < db.recipe_lines@.len()
            && db.order_lines@[i].order_id == order_id && db.recipe_lines@[j].recipe_id
            == db.order_lines@[i].recipe_id && (row(
            db.products@,
            db.recipe_lines@[j].product_id,
        ) matches Some(listed) && listed.product.destination@ == (match destination {
            Destination::Bar => "BAR"@,
            Destination::Kitchen => "KITCHEN"@,
        }))
}

/// A slip is written exactly for a draft with a line on it, on an open tab and
/// night, rung in by a cashier who works here; for a place where something of it
/// is made; and once for each place, as long as the first is not void.
pub proof fn when_a_slip_can_be_written(db: Store, order_id: i64, destination: Destination)
    ensures
        create_issue_refusal(db, order_id, destination) is None <==> {
            &&& row(db.orders@, order_id) matches Some(order) && order.status
                == orders::Status::Draft && row(db.staff@, order.waiter_id) is Some && is_cashier(
                db,
                order.cashier_id,
            ) && (row(db.tabs@, order.tab_id) matches Some(tab) && tab.status
                == tabs::Status::Open) && trades(db, order.shift_id)
            &&& exists|i: int|
                0 <= i < db.order_lines@.len() && (#[trigger] db.order_lines@[i]).order_id
                    == order_id
            &&& is_made_at(db, order_id, destination)
            &&& forall|i: int|
                0 <= i < db.receipts@.len() && (#[trigger] db.receipts@[i]).order_id == Some(
                    order_id,
                ) && db.receipts@[i].destination == Some(destination) ==> db.receipts@[i].status
                    == Status::Void
            &&& crate::table::room_for(db.receipts@, 1)
            &&& db.sequences.issue < i64::MAX
        },
{
    let word = destination.word();
    let live = live_slip(order_id, destination);
    let own = line_of(order_id);
    assert forall|i: int, j: int| #[trigger] route(db, order_id, i, j) == Some(word)
        implies is_made_at(db, order_id, destination) by {
        assert(db.order_lines@[i].order_id == order_id);
        assert(db.recipe_lines@[j].recipe_id == db.order_lines@[i].recipe_id);
    }
    if is_made_at(db, order_id, destination) {
        let (i, j) = choose|i: int, j: int|
            #![trigger db.order_lines@[i], db.recipe_lines@[j]]
            0 <= i < db.order_lines@.len() && 0 <= j < db.recipe_lines@.len()
                && db.order_lines@[i].order_id == order_id && db.recipe_lines@[j].recipe_id
                == db.order_lines@[i].recipe_id && (row(
                db.products@,
                db.recipe_lines@[j].product_id,
            ) matches Some(listed) && listed.product.destination@ == word);
        assert(route(db, order_id, i, j) == Some(word));
    }
    if any(db.receipts@, live) {
        let i = choose|i: int| 0 <= i < db.receipts@.len() && #[trigger] live(db.receipts@[i]);
        assert(db.receipts@[i].status != Status::Void);
    } else {
        assert forall|i: int|
            0 <= i < db.receipts@.len() && (#[trigger] db.receipts@[i]).order_id == Some(order_id)
                && db.receipts@[i].destination == Some(destination) implies db.receipts@[i].status
            == Status::Void by {
            assert(!live(db.receipts@[i]));
        }
    }
    if any(db.order_lines@, own) {
        let i = choose|i: int| 0 <= i < db.order_lines@.len() && #[trigger] own(db.order_lines@[i]);
        assert(db.order_lines@[i].order_id == order_id);
    } else {
        assert forall|i: int| 0 <= i < db.order_lines@.len() implies (
        #[trigger] db.order_lines@[i]).order_id != order_id by {
            assert(!own(db.order_lines@[i]));
        }
    }
}

/// A new slip bears the next number, waits to be printed, and belongs to its
/// order, its place, its waiter and its night. No other receipt changes.
pub proof fn a_slip_bears_the_next_number(
    before: Store,
    after: Store,
    order_id: i64,
    destination: Destination,
    created_at: i64,
    receipt: Receipt,
)
    requires
        slip_created(before, after, order_id, destination, created_at, receipt),
    ensures
        after.receipts@ == before.receipts@.push(receipt),
        receipt.kind == Kind::Issue,
        receipt.sequence_no == before.sequences.issue,
        receipt.receipt_number@ == printed(Counter::IssueReceipt, before.sequences.issue),
        after.sequences.issue == before.sequences.issue + 1 || before.sequences.issue == i64::MAX,
        after.sequences.customer == before.sequences.customer,
        receipt.order_id == Some(order_id),
        receipt.tab_id is None,
        receipt.destination == Some(destination),
        receipt.status == Status::Pending,
        receipt.total is None && receipt.subtotal is None && receipt.service_charge is None
            && receipt.tax is None && receipt.tax_rate is None && receipt.service_rate is None
            && receipt.tax_inclusive is None && !receipt.is_comped,
        receipt.cashier_name is None && receipt.customer_tin is None,
        receipt.rendered_text is None && receipt.printed_at is None,
        receipt.created_at == created_at,
        row(before.orders@, order_id) matches Some(order) && receipt.shift_id == order.shift_id
            && (row(before.staff@, order.waiter_id) matches Some(waiter) && receipt.waiter_name
            == waiter.person.name),
        after.orders == before.orders,
        after.movements == before.movements,
{
}

// ---------------------------------------------------------------------------
// Customer receipts
// ---------------------------------------------------------------------------

/// A tab gets its customer receipt once, from a cashier, while a night is open,
/// after it was closed and billed; and not where the rates of its charges are
/// unknown. The receipt says exactly what the bill says.
pub proof fn a_customer_receipt_says_what_the_bill_says(
    before: Store,
    after: Store,
    tab_id: i64,
    cashier_id: i64,
    created_at: i64,
    receipt: Receipt,
)
    requires
        create_customer_refusal(before, tab_id, cashier_id) is None,
        customer_receipt_created(before, after, tab_id, created_at, receipt),
    ensures
        is_cashier(before, cashier_id),
        exists|i: int|
            0 <= i < before.shifts@.len() && (#[trigger] before.shifts@[i]).status
                == shifts::Status::Open,
        forall|i: int|
            0 <= i < before.receipts@.len() ==> (#[trigger] before.receipts@[i]).tab_id != Some(
                tab_id,
            ),
        row(before.tabs@, tab_id) matches Some(tab) && tab.status != tabs::Status::Open && (
        tab.closed_by matches Some(closer) && (row(before.staff@, closer) matches Some(who)
            && receipt.cashier_name == Some(who.person.name))) && receipt.customer_tin
            == tab.customer_tin,
        exists|bill: TabPayment|
            #[trigger] is_bill_of(bill, before, tab_id) && {
                &&& receipt.subtotal == Some(bill.subtotal)
                &&& receipt.service_charge == Some(bill.service_charge)
                &&& receipt.tax == Some(bill.tax)
                &&& receipt.total == Some(bill.total)
                &&& receipt.tax_rate == Some(bill.tax_rate)
                &&& receipt.service_rate == Some(bill.service_rate)
                &&& receipt.tax_inclusive == Some(bill.tax_inclusive)
                &&& receipt.is_comped == bill.is_comped
                &&& receipt.shift_id == bill.shift_id
                &&& row(before.staff@, bill.waiter_id) matches Some(who) && receipt.waiter_name
                    == who.person.name
                &&& bill.charge_rates_known || (bill.service_charge.minor == 0 && bill.tax.minor
                    == 0)
            },
        receipt.kind == Kind::Customer,
        receipt.tab_id == Some(tab_id),
        receipt.order_id is None && receipt.destination is None,
        receipt.rendered_text is None && receipt.printed_at is None,
        fresh_id(before.receipts@) == Some(receipt.id),
        receipt.status == Status::Pending,
        receipt.created_at == created_at,
        receipt.sequence_no == before.sequences.customer,
        receipt.receipt_number@ == printed(Counter::CustomerReceipt, before.sequences.customer),
        after.sequences.customer == before.sequences.customer + 1,
        after.sequences.issue == before.sequences.issue,
        after.receipts@ == before.receipts@.push(receipt),
        after.payments == before.payments,
{
    let wanted = |p: TabPayment| p.tab_id == tab_id;
    the_first_chosen_comes_first(before.payments@, payment_of(tab_id), wanted);
    let bill = customer_facts(before, tab_id)->0.payment;
    assert(is_bill_of(bill, before, tab_id));
    let own = of_tab(tab_id);
    assert forall|i: int| 0 <= i < before.receipts@.len() implies (
    #[trigger] before.receipts@[i]).tab_id != Some(tab_id) by {
        assert(!own(before.receipts@[i]));
    }
    let trading = crate::repo::receipts::is_trading();
    let i = choose|i: int| 0 <= i < before.shifts@.len() && #[trigger] trading(before.shifts@[i]);
    assert(before.shifts@[i].status == shifts::Status::Open);
}

// ---------------------------------------------------------------------------
// Text and outcome
// ---------------------------------------------------------------------------

/// The text of a receipt is frozen while it waits to be printed, says something,
/// and is never frozen to anything else. Nothing but its text changes, and no
/// other receipt.
pub proof fn a_text_is_frozen_once(
    before: Store,
    after: Store,
    receipt_id: i64,
    text: Seq<char>,
    other: i64,
)
    ensures
        freeze_refusal(before, receipt_id, text) is None <==> says(text) && (row(
            before.receipts@,
            receipt_id,
        ) matches Some(receipt) && receipt.status == Status::Pending && (
        receipt.rendered_text matches Some(frozen) ==> frozen@ == text)),
        text_frozen(before, after, receipt_id, text) ==> {
            &&& row(before.receipts@, receipt_id) matches Some(was) && row(
                after.receipts@,
                receipt_id,
            ) matches Some(is) && is == (Receipt { rendered_text: is.rendered_text, ..was }) && (
            is.rendered_text matches Some(frozen) && frozen@ == text)
            &&& row(before.receipts@, receipt_id)->0.rendered_text is Some ==> after == before
            &&& after == (Store { receipts: after.receipts, ..before })
            &&& other != receipt_id ==> row(after.receipts@, other) == row(before.receipts@, other)
        },
{
    a_text_that_is_not_blank_says_something(text);
    place_is_first(before.receipts@, receipt_id);
    place_is_first(before.receipts@, other);
    if text_frozen(before, after, receipt_id, text) {
        let p = place(before.receipts@, receipt_id)->0;
        changing_keeps_places(before.receipts@, p, after.receipts@[p], receipt_id);
        changing_keeps_places(before.receipts@, p, after.receipts@[p], other);
    }
}

/// Whether the last attempt at a receipt came out so, and none is unanswered.
pub open spec fn last_came_out(db: Store, receipt_id: i64, outcome: Outcome) -> bool {
    &&& attempts_of(db, receipt_id).len() > 0
    &&& attempts_of(db, receipt_id).last().outcome == outcome
    &&& forall|i: int|
        0 <= i < db.prints@.len() && (#[trigger] db.prints@[i]).receipt_id == receipt_id
            ==> db.prints@[i].outcome != Outcome::Unknown
}

/// A receipt is marked as printed or as failed exactly where its text is frozen,
/// every attempt is answered, and the last came out so; it is voided exactly where
/// it is a slip that waits and nobody has tried to print it.
pub proof fn a_receipt_is_marked_as_it_came_out(db: Store, receipt_id: i64)
    ensures
        mark_printed_refusal(db, receipt_id) is None <==> (row(db.receipts@, receipt_id) matches
            Some(r) && (r.status == Status::Pending || r.status == Status::Failed)
            && r.rendered_text is Some && last_came_out(db, receipt_id, Outcome::Success)),
        mark_failed_refusal(db, receipt_id) is None <==> (row(db.receipts@, receipt_id) matches
            Some(r) && r.status == Status::Pending && r.rendered_text is Some && last_came_out(
            db,
            receipt_id,
            Outcome::Failed,
        )),
        mark_void_refusal(db, receipt_id) is None <==> (row(db.receipts@, receipt_id) matches Some(
            r,
        ) && r.kind == Kind::Issue && r.status == Status::Pending && (forall|i: int|
            0 <= i < db.prints@.len() ==> (#[trigger] db.prints@[i]).receipt_id != receipt_id)),
{
    place_is_first(db.receipts@, receipt_id);
    let open = unanswered_of(receipt_id);
    let own = of_receipt(receipt_id);
    if any(db.prints@, open) {
        let i = choose|i: int| 0 <= i < db.prints@.len() && #[trigger] open(db.prints@[i]);
        assert(db.prints@[i].receipt_id == receipt_id);
    } else {
        assert forall|i: int|
            0 <= i < db.prints@.len() && (#[trigger] db.prints@[i]).receipt_id
                == receipt_id implies db.prints@[i].outcome != Outcome::Unknown by {
            assert(!open(db.prints@[i]));
        }
    }
    if any(db.prints@, own) {
        let i = choose|i: int| 0 <= i < db.prints@.len() && #[trigger] own(db.prints@[i]);
        assert(db.prints@[i].receipt_id == receipt_id);
    } else {
        assert forall|i: int| 0 <= i < db.prints@.len() implies (
        #[trigger] db.prints@[i]).receipt_id != receipt_id by {
            assert(!own(db.prints@[i]));
        }
    }
}

/// Marking a receipt changes its status, and when it was printed, and nothing
/// else about it or any other.
pub proof fn marking_changes_one_status(
    before: Store,
    after: Store,
    receipt_id: i64,
    at: i64,
    other: i64,
)
    ensures
        receipt_printed(before, after, receipt_id, at) ==> {
            &&& row(before.receipts@, receipt_id) matches Some(was) && row(
                after.receipts@,
                receipt_id,
            ) == Some(Receipt { status: Status::Printed, printed_at: Some(at), ..was })
            &&& other != receipt_id ==> row(after.receipts@, other) == row(before.receipts@, other)
        },
        receipt_failed(before, after, receipt_id) ==> {
            &&& row(before.receipts@, receipt_id) matches Some(was) && row(
                after.receipts@,
                receipt_id,
            ) == Some(Receipt { status: Status::Failed, ..was })
            &&& other != receipt_id ==> row(after.receipts@, other) == row(before.receipts@, other)
        },
        receipt_voided(before, after, receipt_id) ==> {
            &&& row(before.receipts@, receipt_id) matches Some(was) && row(
                after.receipts@,
                receipt_id,
            ) == Some(Receipt { status: Status::Void, ..was })
            &&& other != receipt_id ==> row(after.receipts@, other) == row(before.receipts@, other)
        },
{
    place_is_first(before.receipts@, receipt_id);
    place_is_first(before.receipts@, other);
    if place(before.receipts@, receipt_id) is Some {
        let p = place(before.receipts@, receipt_id)->0;
        let was = before.receipts@[p];
        let printed = Receipt { status: Status::Printed, printed_at: Some(at), ..was };
        let failed = Receipt { status: Status::Failed, ..was };
        let void = Receipt { status: Status::Void, ..was };
        changing_keeps_places(before.receipts@, p, printed, receipt_id);
        changing_keeps_places(before.receipts@, p, printed, other);
        changing_keeps_places(before.receipts@, p, failed, receipt_id);
        changing_keeps_places(before.receipts@, p, failed, other);
        changing_keeps_places(before.receipts@, p, void, receipt_id);
        changing_keeps_places(before.receipts@, p, void, other);
    }
}

// ---------------------------------------------------------------------------
// Attempts
// ---------------------------------------------------------------------------

/// The first attempt at a slip is written down by a cashier, in the open night
/// the slip belongs to, once, while it waits and its text is frozen; a failure
/// says why.
pub proof fn a_first_attempt_is_made_once(
    before: Store,
    after: Store,
    receipt_id: i64,
    outcome: FinalOutcome,
    reason: Seq<char>,
    shift_id: i64,
    created_by: i64,
    created_at: i64,
    attempt: Attempt,
)
    ensures
        first_attempt_refusal(before, receipt_id, outcome, reason, shift_id, created_by) is None
            <==> {
            &&& is_cashier(before, created_by)
            &&& trades(before, shift_id)
            &&& outcome == FinalOutcome::Failed ==> says(reason)
            &&& row(before.receipts@, receipt_id) matches Some(r) && r.kind == Kind::Issue
                && r.status == Status::Pending && r.rendered_text is Some && r.shift_id == shift_id
            &&& forall|i: int|
                0 <= i < before.prints@.len() ==> (#[trigger] before.prints@[i]).receipt_id
                    != receipt_id
            &&& fresh_id(before.prints@) is Some
        },
        first_attempt_made(
            before,
            after,
            receipt_id,
            outcome,
            reason,
            shift_id,
            created_by,
            created_at,
            attempt,
        ) ==> {
            &&& after.prints@ == before.prints@.push(attempt)
            &&& attempt.receipt_id == receipt_id
            &&& attempt.print_no == 1
            &&& outcome == FinalOutcome::Success ==> attempt.outcome == Outcome::Success
            &&& outcome == FinalOutcome::Failed ==> attempt.outcome == Outcome::Failed
            &&& attempt.shift_id == shift_id
            &&& attempt.created_by == created_by
            &&& attempt.created_at == created_at
            &&& after.receipts == before.receipts
        },
{
    a_text_that_is_not_blank_says_something(reason);
    let own = of_receipt(receipt_id);
    if any(before.prints@, own) {
        let i = choose|i: int| 0 <= i < before.prints@.len() && #[trigger] own(before.prints@[i]);
        assert(before.prints@[i].receipt_id == receipt_id);
    } else {
        assert forall|i: int| 0 <= i < before.prints@.len() implies (
        #[trigger] before.prints@[i]).receipt_id != receipt_id by {
            assert(!own(before.prints@[i]));
        }
    }
}

/// An attempt is begun by a cashier in an open night, for a receipt whose text is
/// frozen and none of whose attempts is unanswered. The first is for a customer
/// receipt that waits, without a reason; every later one says why. It is counted
/// on, and nobody has answered it.
pub proof fn an_attempt_is_begun_when_the_last_is_answered(
    before: Store,
    after: Store,
    receipt_id: i64,
    reason: Seq<char>,
    shift_id: i64,
    created_by: i64,
    created_at: i64,
    attempt: Attempt,
)
    requires
        begin_refusal(before, receipt_id, reason, shift_id, created_by) is None,
        attempt_begun(
            before,
            after,
            receipt_id,
            reason,
            shift_id,
            created_by,
            created_at,
            attempt,
        ),
    ensures
        is_cashier(before, created_by),
        trades(before, shift_id),
        ({
            let tried = how_many(before.prints@, |a: Attempt| a.receipt_id == receipt_id);
            &&& row(before.receipts@, receipt_id) matches Some(r) && r.rendered_text is Some && (
            tried == 0 ==> r.kind == Kind::Customer && r.status == Status::Pending && !says(reason))
            &&& tried > 0 ==> says(reason)
            &&& attempt.print_no == tried + 1
        }),
        forall|i: int|
            0 <= i < before.prints@.len() && (#[trigger] before.prints@[i]).receipt_id == receipt_id
                ==> before.prints@[i].outcome != Outcome::Unknown,
        attempt.receipt_id == receipt_id,
        attempt.outcome == Outcome::Unknown,
        attempt.shift_id == shift_id,
        attempt.created_by == created_by,
        attempt.created_at == created_at,
        after.prints@ == before.prints@.push(attempt),
        after.receipts == before.receipts,
{
    a_text_that_is_not_blank_says_something(reason);
    a_count_is_how_many(
        before.prints@,
        of_receipt(receipt_id),
        |a: Attempt| a.receipt_id == receipt_id,
    );
    let open = unanswered_of(receipt_id);
    assert forall|i: int|
        0 <= i < before.prints@.len() && (#[trigger] before.prints@[i]).receipt_id
            == receipt_id implies before.prints@[i].outcome != Outcome::Unknown by {
        assert(!open(before.prints@[i]));
    }
}

/// An attempt is answered exactly once, with how it came out, and nothing else
/// about it or any other changes.
pub proof fn an_attempt_is_answered_once(
    before: Store,
    after: Store,
    attempt_id: i64,
    outcome: FinalOutcome,
    attempt: Attempt,
    other: i64,
)
    ensures
        resolve_refusal(before, attempt_id) is None <==> (row(before.prints@, attempt_id) matches
            Some(a) && a.outcome == Outcome::Unknown),
        attempt_answered(before, after, attempt_id, outcome, attempt) ==> {
            &&& row(before.prints@, attempt_id) matches Some(was) && row(after.prints@, attempt_id)
                == Some(
                Attempt {
                    outcome: match outcome {
                        FinalOutcome::Success => Outcome::Success,
                        FinalOutcome::Failed => Outcome::Failed,
                    },
                    ..was
                },
            )
            &&& other != attempt_id ==> row(after.prints@, other) == row(before.prints@, other)
            &&& resolve_refusal(after, attempt_id) is Some
        },
{
    place_is_first(before.prints@, attempt_id);
    place_is_first(before.prints@, other);
    if attempt_answered(before, after, attempt_id, outcome, attempt) {
        let p = place(before.prints@, attempt_id)->0;
        changing_keeps_places(before.prints@, p, attempt, attempt_id);
        changing_keeps_places(before.prints@, p, attempt, other);
    }
}

/// Whoever answers for several slips at once writes one attempt for each of them,
/// the first of that slip, under numbers that no attempt had; nothing written
/// before is touched.
pub proof fn each_slip_is_answered_for(
    before: Seq<Attempt>,
    after: Seq<Attempt>,
    slips: Seq<Receipt>,
    outcome: FinalOutcome,
    reason: Seq<char>,
    shift_id: i64,
    created_by: i64,
    created_at: i64,
)
    requires
        attempts_written(
            before,
            after,
            slips,
            outcome,
            reason,
            shift_id,
            created_by,
            created_at,
        ),
    ensures
        after.len() == before.len() + slips.len(),
        forall|i: int| 0 <= i < before.len() ==> #[trigger] after[i] == before[i],
        forall|k: int|
            0 <= k < slips.len() ==> {
                let attempt = #[trigger] after[before.len() + k];
                &&& attempt.receipt_id == slips[k].id
                &&& attempt.print_no == 1
                &&& attempt.outcome == outcome.outcome()
                &&& attempt.shift_id == shift_id
                &&& attempt.created_by == created_by
                &&& attempt.created_at == created_at
            },
        forall|i: int, k: int|
            0 <= i < before.len() && 0 <= k < slips.len() ==> (#[trigger] before[i]).id < (
            #[trigger] after[before.len() + k]).id,
        forall|j: int, k: int|
            0 <= j < k < slips.len() ==> (#[trigger] after[before.len() + j]).id < (
            #[trigger] after[before.len() + k]).id,
{
    assert forall|i: int| 0 <= i < before.len() implies #[trigger] after[i] == before[i] by {
        assert(after.take(before.len() as int)[i] == after[i]);
    }
    crate::table::largest_bounds(before);
    assert forall|i: int, k: int| 0 <= i < before.len() && 0 <= k < slips.len() implies (
    #[trigger] before[i]).id < (#[trigger] after[before.len() + k]).id by {
        assert(before[i].key() == before[i].id);
    }
}

} // verus!

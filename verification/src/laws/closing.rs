//! Closing a tab: when it can be, and what is left behind.

use vstd::prelude::*;

use super::cash::{charged_to, is_bill_of};
use super::settings::{a_switch_is_on_when_it_says_one, is_set_to};
use super::{
    a_row_is_found_where_there_is_one, a_text_that_is_not_blank_says_something, is_cashier, says,
    there_is, total, trades,
};
use crate::repo::cash::TabPayment;
use crate::repo::orders::{Order, PendingRow};
use crate::repo::receipts::{Attempt, Outcome};
use crate::repo::tabs::tab_total;
use crate::repo::{orders, tabs};
use crate::settings::{charges_of, settings_map};
use crate::settlement::{
    close_refusal, issued_order, open_attempt, open_correction, open_order, tab_closed, CloseTab,
    ClosedTab,
};
use crate::store::Store;
use crate::table::{changing_keeps_places, fresh_id, place, place_is_first, row};
use crate::text::{int_text, trimmed};

verus! {

/// Whether an order is on a tab.
pub open spec fn is_on(db: Store, order_id: i64, tab_id: i64) -> bool {
    row(db.orders@, order_id) matches Some(order) && order.tab_id == tab_id
}

/// Whether something on a tab is still to be done: a draft, a round at the
/// printer, a frozen correction, or a print without an answer.
pub open spec fn is_unfinished(db: Store, tab_id: i64) -> bool {
    ||| there_is(
        db.orders@,
        |o: Order|
            o.tab_id == tab_id && (o.status == orders::Status::Draft || o.status
                == orders::Status::Printing),
    )
    ||| there_is(db.pending@, |p: PendingRow| is_on(db, p.original_order_id, tab_id))
    ||| there_is(
        db.prints@,
        |a: Attempt|
            a.outcome == Outcome::Unknown && (row(db.receipts@, a.receipt_id) matches Some(receipt)
                && (receipt.tab_id == Some(tab_id) || (receipt.order_id is Some && is_on(
                db,
                receipt.order_id->0,
                tab_id,
            )))),
    )
}

/// A tab closes exactly when a cashier closes it in an open night, it is open,
/// nothing on it is unfinished, something on it was issued and its bill can be
/// worked out; a complimentary one where the venue allows it and a reason is
/// given; and a customer's tax number is taken only where the venue charges tax
/// and asks for it.
pub proof fn when_a_tab_can_close(db: Store, request: CloseTab<'_>)
    ensures
        close_refusal(db, request) is None <==> {
            &&& is_cashier(db, request.cashier_id)
            &&& trades(db, request.shift_id)
            &&& row(db.tabs@, request.tab_id) matches Some(found) && found.status
                == tabs::Status::Open
            &&& !is_unfinished(db, request.tab_id)
            &&& there_is(
                db.orders@,
                |o: Order| o.tab_id == request.tab_id && o.status == orders::Status::Issued,
            )
            &&& request.comp_reason is Some ==> says(request.comp_reason->0@) && is_set_to(
                db.settings@,
                "payments.comps_enabled"@,
                "1"@,
            )
            &&& request.customer_tin is Some && says(request.customer_tin->0@) ==> is_set_to(
                db.settings@,
                "tax.enabled"@,
                "1"@,
            ) && is_set_to(db.settings@, "tabs.ask_customer_tin"@, "1"@)
            &&& tab_total(db, request.tab_id) matches Ok(lines) && charges_of(
                settings_map(db.settings@),
            ).billable(lines.minor as int)
            &&& fresh_id(db.payments@) is Some
            &&& fresh_id(db.audit@) is Some
        },
{
    let tab_id = request.tab_id;
    a_switch_is_on_when_it_says_one(db.settings@, "payments.comps_enabled"@);
    a_switch_is_on_when_it_says_one(db.settings@, "tax.enabled"@);
    a_switch_is_on_when_it_says_one(db.settings@, "tabs.ask_customer_tin"@);
    if request.comp_reason is Some {
        a_text_that_is_not_blank_says_something(request.comp_reason->0@);
    }
    if request.customer_tin is Some {
        a_text_that_is_not_blank_says_something(request.customer_tin->0@);
    }
    a_row_is_found_where_there_is_one(
        db.orders@,
        open_order(tab_id),
        |o: Order|
            o.tab_id == tab_id && (o.status == orders::Status::Draft || o.status
                == orders::Status::Printing),
    );
    a_row_is_found_where_there_is_one(
        db.pending@,
        open_correction(db, tab_id),
        |p: PendingRow| is_on(db, p.original_order_id, tab_id),
    );
    a_row_is_found_where_there_is_one(
        db.prints@,
        open_attempt(db, tab_id),
        |a: Attempt|
            a.outcome == Outcome::Unknown && (row(db.receipts@, a.receipt_id) matches Some(receipt)
                && (receipt.tab_id == Some(tab_id) || (receipt.order_id is Some && is_on(
                db,
                receipt.order_id->0,
                tab_id,
            )))),
    );
    a_row_is_found_where_there_is_one(
        db.orders@,
        issued_order(tab_id),
        |o: Order| o.tab_id == request.tab_id && o.status == orders::Status::Issued,
    );
}

/// A closed tab says who closed it, when and in which night. Its waiter owes its
/// total, or nothing where the house pays, and owed nothing for it before. No
/// other tab, no order, no stock and no cash is touched.
pub proof fn a_closed_tab_is_billed(
    before: Store,
    after: Store,
    request: CloseTab<'_>,
    closed: ClosedTab,
    other: i64,
    waiter_id: i64,
)
    requires
        close_refusal(before, request) is None,
        tab_closed(before, after, request, closed),
    ensures
        row(after.tabs@, request.tab_id) == Some(closed.tab),
        other != request.tab_id ==> row(after.tabs@, other) == row(before.tabs@, other),
        closed.tab.status == tabs::Status::Closed,
        closed.tab.closed_shift_id == Some(request.shift_id),
        closed.tab.closed_at == Some(request.closed_at),
        closed.tab.closed_by == Some(request.cashier_id),
        closed.tab.is_comped == (request.comp_reason is Some),
        row(before.tabs@, request.tab_id) matches Some(found) && {
            &&& closed.tab.waiter_id == found.waiter_id
            &&& closed.tab.code == found.code
            &&& closed.tab.opened_shift_id == found.opened_shift_id
            &&& request.customer_tin is None ==> closed.tab.customer_tin == found.customer_tin
        },
        request.customer_tin is Some && says(request.customer_tin->0@) ==> (
        closed.tab.customer_tin matches Some(tin) && tin@ == trimmed(request.customer_tin->0@)),
        after.payments@.len() == before.payments@.len() + 1,
        after.payments@.drop_last() == before.payments@,
        ({
            let bill = after.payments@.last();
            &&& bill.tab_id == request.tab_id
            &&& bill.waiter_id == closed.tab.waiter_id
            &&& bill.shift_id == request.shift_id
            &&& bill.created_by == request.cashier_id
            &&& bill.created_at == request.closed_at
            &&& bill.is_comped == (request.comp_reason is Some)
            &&& bill.liability.minor == (if request.comp_reason is Some {
                0
            } else {
                bill.total.minor as int
            })
            &&& bill.total.minor == bill.subtotal.minor + bill.service_charge.minor
                + bill.tax.minor
            &&& charged_to(after, waiter_id) == charged_to(before, waiter_id) + (
            if waiter_id == closed.tab.waiter_id {
                bill.liability.minor as int
            } else {
                0
            })
        }),
        is_bill_of(closed.payment, after, request.tab_id),
        after == (Store {
            tabs: after.tabs,
            payments: after.payments,
            audit: after.audit,
            ..before
        }),
{
    let p = place(before.tabs@, request.tab_id)->0;
    place_is_first(before.tabs@, request.tab_id);
    place_is_first(before.tabs@, other);
    changing_keeps_places(before.tabs@, p, closed.tab, request.tab_id);
    changing_keeps_places(before.tabs@, p, closed.tab, other);
    super::cash::a_bill_charges_one_waiter(before, after, waiter_id);
    if request.customer_tin is Some {
        a_text_that_is_not_blank_says_something(request.customer_tin->0@);
    }
    let mid = Store { tabs: after.tabs, ..before };
    assert(tab_total(mid, request.tab_id) == tab_total(before, request.tab_id)) by {
        assert(crate::repo::tabs::billed_on(mid, request.tab_id)
            =~= crate::repo::tabs::billed_on(before, request.tab_id));
    }
    super::the_first_chosen_comes_first(
        after.payments@,
        crate::repo::receipts::payment_of(request.tab_id),
        |p: TabPayment| p.tab_id == request.tab_id,
    );
}

/// Closing a tab is written in the audit trail: what it was, which tab, who and
/// when, and the figures of its bill.
pub proof fn closing_is_written_down(
    before: Store,
    after: Store,
    request: CloseTab<'_>,
    closed: ClosedTab,
)
    requires
        tab_closed(before, after, request, closed),
    ensures
        after.audit@.len() == before.audit@.len() + 1,
        after.audit@.drop_last() == before.audit@,
        ({
            let entry = after.audit@.last();
            &&& entry.action@ == (if request.comp_reason is Some {
                "TAB_COMPED"@
            } else {
                "TAB_CLOSED"@
            })
            &&& entry.entity_type@ == "tab"@
            &&& entry.entity_id == Some(request.tab_id)
            &&& entry.staff_id == Some(request.cashier_id)
            &&& entry.shift_id == Some(request.shift_id)
            &&& entry.created_at == request.closed_at
            &&& entry.old_value is None
            &&& entry.new_value matches Some(text) && text@ == "total_minor="@ + int_text(
                closed.payment.total.minor as int,
            ) + ";liability_minor="@ + int_text(closed.payment.liability.minor as int) + (
            if request.comp_reason is Some {
                ";comped=1"@
            } else {
                ";comped=0"@
            })
        }),
{
    reveal_strlit(";comped=");
    reveal_strlit(";comped=1");
    reveal_strlit(";comped=0");
    reveal_strlit("1");
    reveal_strlit("0");
    assert(";comped="@ + "1"@ =~= ";comped=1"@);
    assert(";comped="@ + "0"@ =~= ";comped=0"@);
    let head = "total_minor="@ + int_text(closed.payment.total.minor as int) + ";liability_minor="@
        + int_text(closed.payment.liability.minor as int);
    assert(head + ";comped="@ + "1"@ =~= head + (";comped="@ + "1"@));
    assert(head + ";comped="@ + "0"@ =~= head + (";comped="@ + "0"@));
}

} // verus!

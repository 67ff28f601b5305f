//! Sending a round to the bar: what it takes, what is promised, and what happens
//! to the paper.

use vstd::prelude::*;

use super::floor::{an_order_counts_while_it_is_issued, rung_up};
use super::shelf::{an_entry_is_its_amount, moves};
use super::{a_list_is_exact, is_cashier, lists_exactly, total};
use crate::repo::catalogue::expansion;
use crate::repo::orders::{
    at_the_printer, consumed_by, joined, line_of, lines_of, on_tab, order_products, orders_on,
    rung_before, written_before, Line, Order,
};
use crate::repo::receipts::{slip_refusal, FinalOutcome, Kind, Receipt, Status};
use crate::repo::stock::StockMovement;
use crate::repo::tabs::tab_total;
use crate::repo::{orders, receipts, stock};
use crate::store::Store;
use crate::table::{changing_keeps_places, place, place_is_first, row, Row};
use crate::tally::{adding_adds, amount_of, ascending, lists};
use crate::trading::{
    bar_lines, came_out_as, confirm_refusal, finish_refusal, grouping_refusal, handed_over,
    handwritten_refusal, issue_completed, issue_prepared, kitchen_lines, non_print_refusal,
    prepare_refusal, print_abandoned, reserved_for, slips_of, slips_will_match, was_abandoned,
    PreparedIssue,
};

verus! {

// ---------------------------------------------------------------------------
// Lists
// ---------------------------------------------------------------------------

/// The lines of an order are all of its lines, in the order they were rung in;
/// the orders of a tab and the orders at the printer are listed the oldest first.
pub proof fn orders_and_lines_are_listed_in_full(db: Store, order_id: i64, tab_id: i64)
    ensures
        lists_exactly(
            lines_of(db, order_id),
            db.order_lines@,
            |l: Line| l.order_id == order_id,
            |a: Line, b: Line| a.id < b.id,
        ),
        lists_exactly(
            orders_on(db, tab_id),
            db.orders@,
            |o: Order| o.tab_id == tab_id,
            |a: Order, b: Order|
                a.created_at < b.created_at || (a.created_at == b.created_at && a.id < b.id),
        ),
        lists_exactly(
            at_the_printer(db),
            db.orders@,
            |o: Order| o.status == orders::Status::Printing,
            |a: Order, b: Order|
                a.created_at < b.created_at || (a.created_at == b.created_at && a.id < b.id),
        ),
{
    crate::lists::what_is_listed_by_number_ranks();
    a_list_is_exact(
        db.order_lines@,
        line_of(order_id),
        written_before(),
        |l: Line| l.order_id == order_id,
        |a: Line, b: Line| a.id < b.id,
    );
    a_list_is_exact(
        db.orders@,
        on_tab(tab_id),
        rung_before(),
        |o: Order| o.tab_id == tab_id,
        |a: Order, b: Order|
            a.created_at < b.created_at || (a.created_at == b.created_at && a.id < b.id),
    );
    a_list_is_exact(
        db.orders@,
        orders::is_printing(),
        rung_before(),
        |o: Order| o.status == orders::Status::Printing,
        |a: Order, b: Order|
            a.created_at < b.created_at || (a.created_at == b.created_at && a.id < b.id),
    );
}

// ---------------------------------------------------------------------------
// What a round takes
// ---------------------------------------------------------------------------

proof fn what_is_not_listed_is_nothing(entries: Seq<(i64, int)>, product_id: i64)
    requires
        !lists(entries, product_id),
    ensures
        amount_of(entries, product_id) == 0,
    decreases entries.len(),
{
    if entries.len() > 0 {
        assert(entries[0].0 != product_id);
        let rest = entries.drop_first();
        assert(!lists(rest, product_id)) by {
            if lists(rest, product_id) {
                let i = choose|i: int| 0 <= i < rest.len() && (#[trigger] rest[i]).0 == product_id;
                assert(entries[i + 1].0 == product_id);
            }
        }
        what_is_not_listed_is_nothing(rest, product_id);
    }
}

proof fn the_last_entry_counts(entries: Seq<(i64, int)>, product_id: i64)
    requires
        ascending(entries),
        entries.len() > 0,
    ensures
        ascending(entries.drop_last()),
        amount_of(entries, product_id) == amount_of(entries.drop_last(), product_id) + (
        if entries.last().0 == product_id {
            entries.last().1
        } else {
            0
        }),
        lists(entries, product_id) <==> lists(entries.drop_last(), product_id)
            || entries.last().0 == product_id,
{
    let front = entries.drop_last();
    let n = entries.len() - 1;
    assert forall|a: int, b: int| 0 <= a < b < front.len() implies (#[trigger] front[a]).0 < (
    #[trigger] front[b]).0 by {
        assert(front[a] == entries[a] && front[b] == entries[b]);
    }
    if lists(front, product_id) {
        let k = choose|k: int| 0 <= k < front.len() && (#[trigger] front[k]).0 == product_id;
        assert(entries[k] == front[k]);
        assert(entries[k].0 < entries[n].0);
        an_entry_is_its_amount(front, k);
        an_entry_is_its_amount(entries, k);
    } else {
        what_is_not_listed_is_nothing(front, product_id);
        if entries.last().0 == product_id {
            assert(entries[n].0 == product_id);
            an_entry_is_its_amount(entries, n);
        } else {
            assert(!lists(entries, product_id)) by {
                if lists(entries, product_id) {
                    let i = choose|i: int|
                        0 <= i < entries.len() && (#[trigger] entries[i]).0 == product_id;
                    assert(i < n);
                    assert(front[i].0 == product_id);
                }
            }
            what_is_not_listed_is_nothing(entries, product_id);
        }
    }
}

proof fn joining_adds_up(so_far: Seq<(i64, int)>, more: Seq<(i64, int)>, product_id: i64)
    requires
        ascending(so_far),
        ascending(more),
    ensures
        joined(so_far, more) matches Some(entries) ==> ascending(entries) && amount_of(
            entries,
            product_id,
        ) == amount_of(so_far, product_id) + amount_of(more, product_id) && (lists(
            entries,
            product_id,
        ) <==> lists(so_far, product_id) || lists(more, product_id)),
    decreases more.len(),
{
    if more.len() > 0 {
        the_last_entry_counts(more, product_id);
        joining_adds_up(so_far, more.drop_last(), product_id);
        if joined(so_far, more.drop_last()) is Some {
            adding_adds(
                joined(so_far, more.drop_last())->0,
                more.last().0,
                more.last().1,
                product_id,
            );
        }
    }
}

/// What a line of an order takes of a product: what its recipe takes for its
/// quantity.
pub open spec fn taken_by(db: Store, product_id: i64) -> spec_fn(Line) -> int {
    |l: Line| amount_of(expansion(db, l.recipe_id, l.quantity)->Ok_0, product_id)
}

proof fn lines_take_what_recipes_say(db: Store, lines: Seq<Line>, product_id: i64)
    ensures
        consumed_by(db, lines) matches Ok(entries) ==> {
            &&& ascending(entries)
            &&& amount_of(entries, product_id) == total(lines, taken_by(db, product_id))
            &&& forall|i: int|
                0 <= i < lines.len() ==> expansion(
                    db,
                    (#[trigger] lines[i]).recipe_id,
                    lines[i].quantity,
                ) is Ok
        },
    decreases lines.len(),
{
    if lines.len() > 0 && consumed_by(db, lines) is Ok {
        let front = lines.drop_last();
        let line = lines.last();
        lines_take_what_recipes_say(db, front, product_id);
        super::shelf::a_drink_takes_what_its_recipe_says(
            db,
            line.recipe_id,
            line.quantity,
            product_id,
        );
        joining_adds_up(
            consumed_by(db, front)->Ok_0,
            expansion(db, line.recipe_id, line.quantity)->Ok_0,
            product_id,
        );
        assert forall|i: int| 0 <= i < lines.len() implies expansion(
            db,
            (#[trigger] lines[i]).recipe_id,
            lines[i].quantity,
        ) is Ok by {
            if i < front.len() {
                assert(front[i] == lines[i]);
            }
        }
    }
}

/// A round takes what the recipes on its lines take, added up over its lines.
pub proof fn a_round_takes_what_its_lines_take(db: Store, order_id: i64, product_id: i64)
    ensures
        order_products(db, order_id) matches Ok(entries) ==> {
            &&& amount_of(entries, product_id) == total(
                lines_of(db, order_id),
                taken_by(db, product_id),
            )
            &&& ascending(entries)
            &&& forall|i: int|
                0 <= i < lines_of(db, order_id).len() ==> expansion(
                    db,
                    (#[trigger] lines_of(db, order_id)[i]).recipe_id,
                    lines_of(db, order_id)[i].quantity,
                ) is Ok
        },
{
    lines_take_what_recipes_say(db, lines_of(db, order_id), product_id);
}

/// What the orders at the printer will take of a product.
pub open spec fn promised(db: Store, orders: Seq<Order>, product_id: i64) -> int {
    total(
        orders,
        |o: Order|
            if o.status == orders::Status::Printing {
                amount_of(order_products(db, o.id)->Ok_0, product_id)
            } else {
                0
            },
    )
}

proof fn a_tidy_total_is_the_amount(entries: Seq<(i64, int)>, product_id: i64)
    requires
        ascending(entries),
    ensures
        orders::total_of(entries, product_id) == amount_of(entries, product_id),
    decreases entries.len(),
{
    if entries.len() > 0 {
        the_last_entry_counts(entries, product_id);
        a_tidy_total_is_the_amount(entries.drop_last(), product_id);
    }
}

proof fn what_is_reserved_is_promised(db: Store, rows: Seq<Order>, product_id: i64)
    requires
        forall|i: int|
            0 <= i < rows.len() && (#[trigger] rows[i]).status == orders::Status::Printing
                ==> order_products(db, rows[i].id) is Ok,
    ensures
        reserved_for(db, rows, product_id) == promised(db, rows, product_id),
    decreases rows.len(),
{
    if rows.len() > 0 {
        let front = rows.drop_last();
        assert forall|i: int|
            0 <= i < front.len() && (#[trigger] front[i]).status
                == orders::Status::Printing implies order_products(db, front[i].id) is Ok by {
            assert(front[i] == rows[i]);
        }
        what_is_reserved_is_promised(db, front, product_id);
        let last = rows[rows.len() - 1];
        if last.status == orders::Status::Printing {
            a_round_takes_what_its_lines_take(db, last.id, product_id);
            a_tidy_total_is_the_amount(order_products(db, last.id)->Ok_0, product_id);
        }
    }
}

proof fn printing_orders_can_be_told(db: Store, wanted: Seq<(i64, int)>, rows: Seq<Order>)
    requires
        crate::trading::with_reserved(db, wanted, rows) is Ok,
    ensures
        forall|i: int|
            0 <= i < rows.len() && (#[trigger] rows[i]).status == orders::Status::Printing
                ==> order_products(db, rows[i].id) is Ok,
    decreases rows.len(),
{
    if rows.len() > 0 {
        let front = rows.drop_last();
        printing_orders_can_be_told(db, wanted, front);
        assert forall|i: int|
            0 <= i < rows.len() && (#[trigger] rows[i]).status
                == orders::Status::Printing implies order_products(db, rows[i].id) is Ok by {
            if i < front.len() {
                assert(front[i] == rows[i]);
            }
        }
    }
}

/// Nothing is promised twice: a round goes to the printer only where the shelf
/// holds what it takes and what every round at the printer takes, of every
/// product that is counted. It is the cashier's own, and a draft.
pub proof fn a_round_is_sent_only_where_the_shelf_holds_it(
    db: Store,
    order_id: i64,
    cashier_id: i64,
    product_id: i64,
)
    requires
        prepare_refusal(db, order_id, cashier_id) is None,
        row(db.products@, product_id) matches Some(listed) && listed.product.tracks_inventory,
        total(lines_of(db, order_id), taken_by(db, product_id)) + promised(
            db,
            db.orders@,
            product_id,
        ) > 0,
    ensures
        total(db.movements@, moves(product_id)) >= total(
            lines_of(db, order_id),
            taken_by(db, product_id),
        ) + promised(db, db.orders@, product_id),
{
    let entries = order_products(db, order_id)->Ok_0;
    a_round_takes_what_its_lines_take(db, order_id, product_id);
    orders::consumption_is_tidy(db, lines_of(db, order_id));
    printing_orders_can_be_told(db, entries, db.orders@);
    what_is_reserved_is_promised(db, db.orders@, product_id);
    crate::trading::what_is_available_is_on_the_shelf(db, entries, product_id);
    super::shelf::a_shelf_is_the_sum_of_its_movements(db, product_id);
}

/// Whoever sends a round to the printer rang it in, and it is a draft.
pub proof fn a_round_is_sent_by_whoever_rang_it_in(db: Store, order_id: i64, cashier_id: i64)
    requires
        prepare_refusal(db, order_id, cashier_id) is None,
    ensures
        row(db.orders@, order_id) matches Some(order) && order.cashier_id == cashier_id
            && order.status == orders::Status::Draft,
        order_products(db, order_id) is Ok,
        bar_lines(db, order_id).len() + kitchen_lines(db, order_id).len() > 0,
{
}

/// Whether a line of a slip is a product of a round.
pub open spec fn is_slip_line(
    db: Store,
    entries: Seq<(i64, int)>,
    word: Seq<char>,
    line: (Seq<char>, int),
) -> bool {
    exists|k: int|
        0 <= k < entries.len() && (#[trigger] entries[k]).1 != 0 && entries[k].1 == line.1 && (row(
            db.products@,
            entries[k].0,
        ) matches Some(listed) && listed.product.destination@ == word && listed.product.name@
            == line.0)
}

/// Whether a product of a round is on a slip.
pub open spec fn is_on_slip(lines: Seq<(Seq<char>, int)>, name: Seq<char>, amount: int) -> bool {
    exists|i: int| 0 <= i < lines.len() && #[trigger] lines[i] == (name, amount)
}

/// A slip lists what a round takes of the products that are made where it goes,
/// by name and amount: each of them, and nothing else.
pub proof fn a_slip_lists_what_is_made_there(db: Store, entries: Seq<(i64, int)>, word: Seq<char>)
    ensures
        forall|i: int|
            0 <= i < handed_over(db, entries, word).len() ==> is_slip_line(
                db,
                entries,
                word,
                #[trigger] handed_over(db, entries, word)[i],
            ),
        forall|k: int|
            0 <= k < entries.len() && (#[trigger] entries[k]).1 != 0 && (row(
                db.products@,
                entries[k].0,
            ) matches Some(listed) && listed.product.destination@ == word) ==> is_on_slip(
                handed_over(db, entries, word),
                row(db.products@, entries[k].0)->0.product.name@,
                entries[k].1,
            ),
    decreases entries.len(),
{
    if entries.len() > 0 {
        let front = entries.drop_last();
        let before = handed_over(db, front, word);
        let list = handed_over(db, entries, word);
        a_slip_lists_what_is_made_there(db, front, word);
        assert forall|i: int| 0 <= i < list.len() implies is_slip_line(
            db,
            entries,
            word,
            #[trigger] list[i],
        ) by {
            if i < before.len() {
                assert(list[i] == before[i]);
                assert(is_slip_line(db, front, word, before[i]));
                let k = choose|k: int|
                    0 <= k < front.len() && (#[trigger] front[k]).1 != 0 && front[k].1
                        == before[i].1 && (row(db.products@, front[k].0) matches Some(listed)
                        && listed.product.destination@ == word && listed.product.name@
                        == before[i].0);
                assert(entries[k] == front[k]);
            } else {
                assert(entries[entries.len() - 1].1 != 0);
            }
        }
        assert forall|k: int|
            0 <= k < entries.len() && (#[trigger] entries[k]).1 != 0 && (row(
                db.products@,
                entries[k].0,
            ) matches Some(listed) && listed.product.destination@ == word) implies is_on_slip(
            list,
            row(db.products@, entries[k].0)->0.product.name@,
            entries[k].1,
        ) by {
            if k < front.len() {
                assert(front[k] == entries[k]);
                let name = row(db.products@, entries[k].0)->0.product.name@;
                assert(is_on_slip(before, name, entries[k].1));
                let i = choose|i: int|
                    0 <= i < before.len() && #[trigger] before[i] == (name, entries[k].1);
                assert(list[i] == before[i]);
            } else {
                assert(list[list.len() - 1] == (
                    row(db.products@, entries[k].0)->0.product.name@,
                    entries[k].1,
                ));
            }
        }
    }
}

/// A round that was sent is at the printer, with a slip for the bar where the bar
/// makes something of it and one for the kitchen where the kitchen does. The
/// slips bear the next numbers and wait. Nothing has left the shelf, nothing was
/// charged, and no other order has changed.
pub proof fn a_round_that_was_sent_is_at_the_printer(
    before: Store,
    after: Store,
    order_id: i64,
    at: i64,
    prepared: PreparedIssue,
    other: i64,
)
    requires
        issue_prepared(before, after, order_id, at, prepared),
    ensures
        row(before.orders@, order_id) matches Some(was) && row(after.orders@, order_id) == Some(
            Order { status: orders::Status::Printing, ..was },
        ),
        other != order_id ==> row(after.orders@, other) == row(before.orders@, other),
        after.movements == before.movements,
        after.order_lines == before.order_lines,
        after.cash == before.cash,
        after.receipts@ == before.receipts@ + prepared.receipts@,
        ({
            let bar = bar_lines(before, order_id).len() > 0;
            let kitchen = kitchen_lines(before, order_id).len() > 0;
            let slips = prepared.receipts@;
            &&& slips.len() == (if bar {
                1int
            } else {
                0
            }) + (if kitchen {
                1int
            } else {
                0
            })
            &&& bar ==> slips[0].destination == Some(receipts::Destination::Bar)
            &&& kitchen ==> slips.last().destination == Some(receipts::Destination::Kitchen)
        }),
        after.sequences.issue == before.sequences.issue + prepared.receipts@.len(),
        forall|k: int|
            0 <= k < prepared.receipts@.len() ==> {
                let slip = #[trigger] prepared.receipts@[k];
                &&& slip.kind == Kind::Issue
                &&& slip.status == Status::Pending
                &&& slip.order_id == Some(row(before.orders@, order_id)->0.id)
                &&& slip.sequence_no == before.sequences.issue + k
                &&& slip.shift_id == row(before.orders@, order_id)->0.shift_id
                &&& slip.rendered_text is Some
                &&& slip.created_at == at
                &&& slip.total is None && slip.subtotal is None && slip.service_charge is None
                    && slip.tax is None && slip.tax_rate is None && slip.service_rate is None
                    && slip.tax_inclusive is None && !slip.is_comped
                &&& slip.cashier_name is None && slip.customer_tin is None
                &&& slip.tab_id is None && slip.printed_at is None
            },
{
    let p = place(before.orders@, order_id)->0;
    place_is_first(before.orders@, order_id);
    place_is_first(before.orders@, other);
    let new = Order { status: orders::Status::Printing, ..before.orders@[p] };
    changing_keeps_places(before.orders@, p, new, order_id);
    changing_keeps_places(before.orders@, p, new, other);
    let slips = slips_of(before, order_id);
    assert forall|k: int| 0 <= k < prepared.receipts@.len() implies {
        let slip = #[trigger] prepared.receipts@[k];
        &&& slip.kind == Kind::Issue
        &&& slip.status == Status::Pending
        &&& slip.order_id == Some(row(before.orders@, order_id)->0.id)
        &&& slip.sequence_no == before.sequences.issue + k
        &&& slip.shift_id == row(before.orders@, order_id)->0.shift_id
        &&& slip.rendered_text is Some
        &&& slip.created_at == at
    } by {
        assert(crate::trading::slip_says(
            prepared.receipts@[k],
            before,
            row(before.orders@, order_id)->0,
            slips[k].0,
            slips[k].1,
            k,
            at,
        ));
    }
    if slips.len() > 0 {
        assert(crate::trading::slip_says(
            prepared.receipts@[0],
            before,
            row(before.orders@, order_id)->0,
            slips[0].0,
            slips[0].1,
            0,
            at,
        ));
        assert(crate::trading::slip_says(
            prepared.receipts@[slips.len() - 1],
            before,
            row(before.orders@, order_id)->0,
            slips[slips.len() - 1].0,
            slips[slips.len() - 1].1,
            slips.len() - 1,
            at,
        ));
    }
}

// ---------------------------------------------------------------------------
// What comes of it
// ---------------------------------------------------------------------------

proof fn sales_take_what_was_wanted(
    before: Seq<StockMovement>,
    after: Seq<StockMovement>,
    entries: Seq<(i64, int)>,
    product_id: i64,
)
    requires
        after.len() == before.len() + entries.len(),
        after.take(before.len() as int) == before,
        forall|k: int|
            0 <= k < entries.len() ==> (#[trigger] after[before.len() + k]).product_id
                == entries[k].0 && after[before.len() + k].quantity.thousandths == -entries[k].1,
        ascending(entries),
    ensures
        total(after, moves(product_id)) == total(before, moves(product_id)) - amount_of(
            entries,
            product_id,
        ),
    decreases entries.len(),
{
    if entries.len() == 0 {
        assert(after =~= before);
    } else {
        let front = entries.drop_last();
        let less = after.drop_last();
        the_last_entry_counts(entries, product_id);
        assert(less.take(before.len() as int) =~= after.take(before.len() as int));
        assert forall|k: int| 0 <= k < front.len() implies (
        #[trigger] less[before.len() + k]).product_id == front[k].0 && less[before.len()
            + k].quantity.thousandths == -front[k].1 by {
            assert(less[before.len() + k] == after[before.len() + k]);
            assert(front[k] == entries[k]);
        }
        sales_take_what_was_wanted(before, less, front, product_id);
        assert(after[before.len() + (entries.len() - 1)] == after.last());
        assert(after[before.len() + (entries.len() - 1)].product_id == entries[entries.len()
            - 1].0);
    }
}

/// An issued round has left the shelf and is on its tab: every product is down by
/// exactly what the round takes, its tab is up by exactly what was rung in and
/// every other tab is as it was, and the drawer is untouched. It is issued from
/// that moment on, and its paper is printed, or failed where it was written by
/// hand.
pub proof fn an_issued_round_left_the_shelf_and_is_on_its_tab(
    before: Store,
    after: Store,
    order: Order,
    outcome: FinalOutcome,
    by: i64,
    at: i64,
    product_id: i64,
    tab_id: i64,
    other: i64,
)
    requires
        row(before.orders@, order.id) == Some(order),
        order.status == orders::Status::Printing,
        issue_completed(before, after, order, outcome, by, at),
    ensures
        row(after.orders@, order.id) == Some(
            Order { status: orders::Status::Issued, issued_at: Some(at), ..order },
        ),
        other != order.id ==> row(after.orders@, other) == row(before.orders@, other),
        total(after.movements@, moves(product_id)) == total(before.movements@, moves(product_id))
            - total(lines_of(before, order.id), taken_by(before, product_id)),
        tab_total(before, tab_id) matches Ok(was) ==> (tab_total(after, tab_id) matches Ok(is)
            ==> is.minor == was.minor + (if order.tab_id == tab_id {
            rung_up(before, order.id)
        } else {
            0
        })),
        after.cash == before.cash,
        after.payments == before.payments,
        after.order_lines == before.order_lines,
        after.receipts@.len() == before.receipts@.len(),
        forall|i: int|
            0 <= i < before.receipts@.len() ==> {
                let was = before.receipts@[i];
                let is = #[trigger] after.receipts@[i];
                if was.order_id == Some(order.id) && was.status == Status::Pending {
                    &&& outcome == FinalOutcome::Success ==> is.status == Status::Printed
                        && is.printed_at == Some(at)
                    &&& outcome == FinalOutcome::Failed ==> is.status == Status::Failed
                    &&& is.rendered_text == was.rendered_text
                    &&& is.receipt_number == was.receipt_number
                } else {
                    is == was
                }
            },
        after.audit@.len() == before.audit@.len() + 1,
        after.audit@.last().entity_id == Some(order.id),
        after.audit@.last().staff_id == Some(by),
        after.audit@.last().action@ == (if outcome == FinalOutcome::Success {
            "ORDER_ISSUED"@
        } else {
            "ORDER_ISSUED_HANDWRITTEN"@
        }),
{
    let entries = order_products(before, order.id)->Ok_0;
    a_round_takes_what_its_lines_take(before, order.id, product_id);
    assert forall|k: int| 0 <= k < entries.len() implies (
    #[trigger] after.movements@[before.movements@.len() + k]).product_id == entries[k].0
        && after.movements@[before.movements@.len() + k].quantity.thousandths == -entries[k].1 by {
        assert(crate::trading::sale_says(
            after.movements@[before.movements@.len() + k],
            before,
            order,
            entries[k],
            k,
            by,
            at,
        ));
    }
    sales_take_what_was_wanted(before.movements@, after.movements@, entries, product_id);
    let p = place(before.orders@, order.id)->0;
    place_is_first(before.orders@, order.id);
    place_is_first(before.orders@, other);
    let new = Order { status: orders::Status::Issued, issued_at: Some(at), ..order };
    changing_keeps_places(before.orders@, p, new, order.id);
    changing_keeps_places(before.orders@, p, new, other);
    an_order_counts_while_it_is_issued(before, after, order.id, new, tab_id);
}

/// Every product that leaves the shelf with a round is a sale of that round, at
/// what the product costs, in the night the round was rung in.
pub proof fn what_leaves_the_shelf_is_a_sale_of_the_round(
    before: Store,
    after: Store,
    order: Order,
    outcome: FinalOutcome,
    by: i64,
    at: i64,
    i: int,
)
    requires
        issue_completed(before, after, order, outcome, by, at),
        before.movements@.len() <= i < after.movements@.len(),
    ensures
        ({
            let m = after.movements@[i];
            &&& m.kind == stock::Kind::Sale
            &&& m.order_id == Some(order.id)
            &&& m.shift_id == Some(order.shift_id)
            &&& m.created_by == by
            &&& m.created_at == at
            &&& m.purchase_id is None
            &&& row(before.products@, m.product_id) matches Some(listed) && m.unit_cost
                == listed.product.avg_cost
        }),
        after.movements@.take(before.movements@.len() as int) == before.movements@,
        forall|j: int|
            0 <= j < before.movements@.len() ==> (#[trigger] before.movements@[j]).id
                < after.movements@[i].id,
{
    crate::table::largest_bounds(before.movements@);
    assert forall|j: int| 0 <= j < before.movements@.len() implies (
    #[trigger] before.movements@[j]).id <= crate::table::largest_id(before.movements@) by {
        assert(before.movements@[j].key() == before.movements@[j].id);
    }
    let entries = order_products(before, order.id)->Ok_0;
    let k = i - before.movements@.len();
    assert(crate::trading::sale_says(
        after.movements@[before.movements@.len() + k],
        before,
        order,
        entries[k],
        k,
        by,
        at,
    ));
}

/// A round is confirmed by whoever rang it in, while it is at the printer, with
/// every slip of it that is not void still waiting; or again once it is issued,
/// where that changes nothing.
pub proof fn a_round_is_confirmed_while_its_paper_waits(db: Store, order_id: i64, cashier_id: i64)
    requires
        confirm_refusal(db, order_id, cashier_id) is None,
    ensures
        row(db.orders@, order_id) matches Some(order) && order.cashier_id == cashier_id && (
        order.status == orders::Status::Printing || order.status == orders::Status::Issued) && (
        order.status == orders::Status::Printing ==> (forall|i: int|
            0 <= i < db.receipts@.len() && (#[trigger] db.receipts@[i]).order_id == Some(order_id)
                && db.receipts@[i].status != Status::Void ==> db.receipts@[i].status
                == Status::Pending && db.receipts@[i].kind == Kind::Issue) && (exists|i: int|
            0 <= i < db.receipts@.len() && (#[trigger] db.receipts@[i]).order_id == Some(order_id)
                && db.receipts@[i].status == Status::Pending)),
{
    place_is_first(db.orders@, order_id);
    let order = row(db.orders@, order_id)->0;
    if order.status == orders::Status::Printing {
        paper_waits(db, order_id, true);
    }
}

proof fn paper_waits(db: Store, order_id: i64, strict: bool)
    requires
        crate::trading::all_waiting(db, order_id, strict),
    ensures
        forall|i: int|
            0 <= i < db.receipts@.len() && (#[trigger] db.receipts@[i]).order_id == Some(order_id)
                && db.receipts@[i].status != Status::Void ==> db.receipts@[i].status
                == Status::Pending && (strict ==> db.receipts@[i].kind == Kind::Issue),
        exists|i: int|
            0 <= i < db.receipts@.len() && (#[trigger] db.receipts@[i]).order_id == Some(order_id)
                && db.receipts@[i].status == Status::Pending,
{
    let astray = crate::trading::astray(order_id, strict);
    let live = orders::live_receipt_of(order_id);
    assert forall|i: int|
        0 <= i < db.receipts@.len() && (#[trigger] db.receipts@[i]).order_id == Some(order_id)
            && db.receipts@[i].status != Status::Void implies db.receipts@[i].status
        == Status::Pending && (strict ==> db.receipts@[i].kind == Kind::Issue) by {
        assert(!astray(db.receipts@[i]));
    }
    let i = choose|i: int| 0 <= i < db.receipts@.len() && #[trigger] live(db.receipts@[i]);
    assert(!astray(db.receipts@[i]));
    assert(db.receipts@[i].order_id == Some(order_id));
}

/// A handwritten slip is authorised, and a print that never came out is given up,
/// by a cashier who works here, while the round is at the printer and every slip
/// of it that is not void still waits; or again, where that changes nothing.
pub proof fn recovery_is_for_a_round_at_the_printer(db: Store, order_id: i64, cashier_id: i64)
    ensures
        handwritten_refusal(db, order_id, cashier_id) is None ==> is_cashier(db, cashier_id) && (
        row(db.orders@, order_id) matches Some(order) && (order.status == orders::Status::Printing
            || order.status == orders::Status::Issued) && (order.status
            == orders::Status::Printing ==> (forall|i: int|
            0 <= i < db.receipts@.len() && (#[trigger] db.receipts@[i]).order_id == Some(order_id)
                && db.receipts@[i].status != Status::Void ==> db.receipts@[i].status
                == Status::Pending))),
        non_print_refusal(db, order_id, cashier_id) is None ==> is_cashier(db, cashier_id) && (row(
            db.orders@,
            order_id,
        ) matches Some(order) && (order.status == orders::Status::Printing || order.status
            == orders::Status::Draft) && (order.status == orders::Status::Printing ==> (forall|
            i: int,
            k: int,
        |
            0 <= i < db.receipts@.len() && 0 <= k < db.prints@.len() && (
            #[trigger] db.receipts@[i]).order_id == Some(order_id) && db.receipts@[i].status
                != Status::Void ==> db.receipts@[i].status == Status::Pending && (
            #[trigger] db.prints@[k]).receipt_id != db.receipts@[i].id))),
{
    place_is_first(db.orders@, order_id);
    if handwritten_refusal(db, order_id, cashier_id) is None && row(
        db.orders@,
        order_id,
    )->0.status == orders::Status::Printing {
        paper_waits(db, order_id, false);
    }
    if non_print_refusal(db, order_id, cashier_id) is None && row(db.orders@, order_id)->0.status
        == orders::Status::Printing {
        paper_waits(db, order_id, false);
        let tried = crate::trading::beyond_voiding(db, order_id);
        assert forall|i: int, k: int|
            0 <= i < db.receipts@.len() && 0 <= k < db.prints@.len() && (
            #[trigger] db.receipts@[i]).order_id == Some(order_id) && db.receipts@[i].status
                != Status::Void implies db.receipts@[i].status == Status::Pending && (
        #[trigger] db.prints@[k]).receipt_id != db.receipts@[i].id by {
            assert(!tried(db.receipts@[i]));
            let own = receipts::of_receipt(db.receipts@[i].id);
            assert(!own(db.prints@[k]));
        }
    }
}

/// A print that never came out leaves everything as it was before the round was
/// sent, but for the numbers it used: the round is a draft again, its slips are
/// void, and nothing has left the shelf or reached the tab.
pub proof fn a_non_print_leaves_only_void_slips(
    before: Store,
    after: Store,
    order: Order,
    by: i64,
    at: i64,
    tab_id: i64,
    other: i64,
)
    requires
        row(before.orders@, order.id) == Some(order),
        order.status == orders::Status::Printing,
        print_abandoned(before, after, order, by, at),
    ensures
        row(after.orders@, order.id) == Some(Order { status: orders::Status::Draft, ..order }),
        other != order.id ==> row(after.orders@, other) == row(before.orders@, other),
        after.movements == before.movements,
        after.order_lines == before.order_lines,
        after.cash == before.cash,
        after.sequences == before.sequences,
        tab_total(before, tab_id) matches Ok(was) ==> (tab_total(after, tab_id) matches Ok(is)
            ==> is.minor == was.minor),
        after.receipts@.len() == before.receipts@.len(),
        forall|i: int|
            0 <= i < before.receipts@.len() ==> #[trigger] after.receipts@[i] == (
            if before.receipts@[i].order_id == Some(order.id) && before.receipts@[i].status
                == Status::Pending {
                Receipt { status: Status::Void, ..before.receipts@[i] }
            } else {
                before.receipts@[i]
            }),
        after.audit@.last().action@ == "PRINT_ABANDONED"@,
        after.audit@.last().entity_id == Some(order.id),
        after.audit@.last().staff_id == Some(by),
{
    let p = place(before.orders@, order.id)->0;
    place_is_first(before.orders@, order.id);
    place_is_first(before.orders@, other);
    let new = Order { status: orders::Status::Draft, ..order };
    changing_keeps_places(before.orders@, p, new, order.id);
    changing_keeps_places(before.orders@, p, new, other);
    an_order_counts_while_it_is_issued(before, after, order.id, new, tab_id);
}

/// A round is split between the bar and the kitchen exactly where everything that
/// it takes is on the books and is made in one of the two.
pub proof fn a_round_is_made_at_the_bar_or_in_the_kitchen(
    db: Store,
    entries: Seq<(i64, int)>,
    n: int,
)
    requires
        0 <= n <= entries.len(),
    ensures
        grouping_refusal(db, entries, n) is None <==> (forall|i: int|
            0 <= i < n && (#[trigger] entries[i]).1 != 0 ==> (row(
                db.products@,
                entries[i].0,
            ) matches Some(listed) && (listed.product.destination@ == "BAR"@
                || listed.product.destination@ == "KITCHEN"@))),
    decreases n,
{
    if n > 0 {
        a_round_is_made_at_the_bar_or_in_the_kitchen(db, entries, n - 1);
        let last = entries[n - 1];
    }
}

/// A round is sent only where a slip can be written for every place that makes
/// something of it, and for no other.
pub proof fn a_round_is_sent_with_a_slip_for_each_place(
    db: Store,
    order_id: i64,
    cashier_id: i64,
)
    requires
        prepare_refusal(db, order_id, cashier_id) is None,
    ensures
        bar_lines(db, order_id).len() > 0 ==> slip_refusal(
            db,
            order_id,
            receipts::Destination::Bar,
            0,
        ) is None,
        kitchen_lines(db, order_id).len() > 0 && bar_lines(db, order_id).len() == 0
            ==> slip_refusal(db, order_id, receipts::Destination::Kitchen, 0) is None,
        kitchen_lines(db, order_id).len() > 0 && bar_lines(db, order_id).len() > 0 ==> slip_refusal(
            db,
            order_id,
            receipts::Destination::Kitchen,
            1,
        ) is None,
        slips_will_match(
            db,
            order_id,
            bar_lines(db, order_id).len() > 0,
            kitchen_lines(db, order_id).len() > 0,
        ),
        row(db.orders@, order_id) matches Some(order) && row(db.tabs@, order.tab_id) is Some && row(
            db.staff@,
            order.waiter_id,
        ) is Some,
{
}

/// Answering again is taken only for what was answered before: printed for what
/// was printed, by hand for what was written by hand, and never came out for what
/// never did, whose paper is all void.
pub proof fn an_answer_is_given_again_only_as_it_was(db: Store, order_id: i64, cashier_id: i64)
    ensures
        confirm_refusal(db, order_id, cashier_id) is None && row(db.orders@, order_id)->0.status
            == orders::Status::Issued ==> came_out_as(
            db,
            order_id,
            Status::Printed,
            "ORDER_ISSUED"@,
        ),
        handwritten_refusal(db, order_id, cashier_id) is None && row(db.orders@, order_id)->0.status
            == orders::Status::Issued ==> came_out_as(
            db,
            order_id,
            Status::Failed,
            "ORDER_ISSUED_HANDWRITTEN"@,
        ),
        non_print_refusal(db, order_id, cashier_id) is None && row(db.orders@, order_id)->0.status
            == orders::Status::Draft ==> was_abandoned(db, order_id),
        was_abandoned(db, order_id) ==> (forall|i: int|
            0 <= i < db.receipts@.len() && (#[trigger] db.receipts@[i]).order_id == Some(order_id)
                ==> db.receipts@[i].kind == Kind::Issue && db.receipts@[i].status == Status::Void),
{
    if was_abandoned(db, order_id) {
        let live = crate::trading::not_a_void_slip(order_id);
        assert forall|i: int|
            0 <= i < db.receipts@.len() && (#[trigger] db.receipts@[i]).order_id == Some(
                order_id,
            ) implies db.receipts@[i].kind == Kind::Issue && db.receipts@[i].status
            == Status::Void by {
            assert(!live(db.receipts@[i]));
        }
    }
}

/// A round at the printer is finished exactly where it left no trace yet, its tab
/// is open, its paper is in order and answered for, everything it takes can be
/// written as a sale, and the trail has room.
pub proof fn when_a_round_can_be_finished(db: Store, order: Order)
    ensures
        finish_refusal(db, order) is None <==> {
            &&& !crate::trading::left_traces(db, order.id)
            &&& row(db.tabs@, order.tab_id) matches Some(found) && found.status
                == crate::repo::tabs::Status::Open
            &&& receipts::slips_match(db, order.id, receipts::Stage::Waiting)
            &&& !super::rounds::is_unanswered(db, order.id)
            &&& order_products(db, order.id) matches Ok(entries) && crate::trading::sales_refusal(
                db,
                entries,
                entries.len() as int,
            ) is None
            &&& crate::table::fresh_id(db.audit@) is Some
        },
{
    let order_id = order.id;
    super::a_row_is_found_where_there_is_one(
        db.prints@,
        orders::undecided(db, order_id),
        |a: receipts::Attempt|
            a.outcome == receipts::Outcome::Unknown && (row(
                db.receipts@,
                a.receipt_id,
            ) matches Some(r) && r.order_id == Some(order_id)),
    );
}

/// What came out one way has paper, none of which ended otherwise, and stands in
/// the trail exactly once.
pub proof fn what_came_out_stands_in_the_trail_once(
    db: Store,
    order_id: i64,
    status: Status,
    action: Seq<char>,
)
    requires
        came_out_as(db, order_id, status, action),
    ensures
        forall|i: int|
            0 <= i < db.receipts@.len() && (#[trigger] db.receipts@[i]).order_id == Some(order_id)
                ==> db.receipts@[i].status == status || db.receipts@[i].status == Status::Void,
        super::there_is(db.receipts@, |r: Receipt| r.order_id == Some(order_id)),
        super::how_many(
            db.audit@,
            |a: crate::ledger::AuditEntry|
                a.action@ == action && a.entity_type@ == "order"@ && a.entity_id == Some(order_id),
        ) == 1,
{
    let otherwise = crate::trading::ended_otherwise(order_id, status);
    assert forall|i: int|
        0 <= i < db.receipts@.len() && (#[trigger] db.receipts@[i]).order_id == Some(
            order_id,
        ) implies db.receipts@[i].status == status || db.receipts@[i].status == Status::Void by {
        assert(!otherwise(db.receipts@[i]));
    }
    super::a_row_is_found_where_there_is_one(
        db.receipts@,
        receipts::of_order(order_id),
        |r: Receipt| r.order_id == Some(order_id),
    );
    super::a_count_is_how_many(
        db.audit@,
        crate::trading::logged(order_id, action),
        |a: crate::ledger::AuditEntry|
            a.action@ == action && a.entity_type@ == "order"@ && a.entity_id == Some(order_id),
    );
}

} // verus!

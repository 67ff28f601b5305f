//! A night: when it opens and closes, and what its report says.

use vstd::prelude::*;

use super::{
    a_checked_sum_is_the_total, a_count_is_how_many, a_list_is_exact, how_many, is_cashier,
    lists_exactly, the_chosen_come_to_what_counts, the_first_chosen_comes_first, total, totals_add,
    trades,
};
use crate::money::{milli_text, Money};
use crate::repo::cash::{drawer, CashMovement, MovementType, Reconciliation, TabPayment};
use crate::repo::orders::{CorrectionKind, CorrectionRow, Line};
use crate::repo::reports::{final_report, is_final_of, Stored};
use crate::repo::shifts::{
    begin_closing_refusal, close_refusal, closed_nights, is_finished, is_unfinished, night_closing,
    night_opened, night_sealed, open_refusal, opened_later, overdue, recovered, running_shift,
    NewShift, Shift, Status,
};
use crate::repo::{orders, receipts, tabs};
use crate::report::{
    billed, billed_in, came_before, came_in, charged, comped_in, compile_refusal, corrected_in,
    counted, freeze_refusal, item_sums, items_sold, named_before, put_in, quantity_of, report_says,
    settled_in, settlements, settlers, share_of, shared, sold, sold_in, value_of, view_refusal,
    view_says, waiter_sum, waiter_sums, worth_more, Charge, Clocks, ItemSum, Origin, ReportsView,
    Share, ShiftReport, WaiterSum,
};
use crate::settings::shown;
use crate::store::Store;
use crate::table::{
    any, changing_keeps_places, chosen, fresh_id, in_order, ordering_puts_in_order, place,
    place_is_first, row,
};
use crate::text::{text_before, trimmed};

verus! {

// ---------------------------------------------------------------------------
// What was sold
// ---------------------------------------------------------------------------

/// Whether a line left the bar in a night: its order belongs to that night and
/// is issued.
pub open spec fn left_the_bar(db: Store, line: Line, shift_id: i64) -> bool {
    row(db.orders@, line.order_id) matches Some(order) && order.shift_id == shift_id
        && order.status == orders::Status::Issued
}

/// How much of a drink a line holds.
pub open spec fn amount_on(name: Seq<char>) -> spec_fn(Line) -> int {
    |l: Line|
        if l.sale_item_name@ == name {
            l.quantity.thousandths as int
        } else {
            0
        }
}

/// What a line adds to what a drink came to.
pub open spec fn price_on(name: Seq<char>) -> spec_fn(Line) -> int {
    |l: Line|
        if l.sale_item_name@ == name {
            l.line_total.minor as int
        } else {
            0
        }
}

/// How much of a drink left the bar in a night.
pub open spec fn poured(db: Store, shift_id: i64, name: Seq<char>) -> int {
    total(
        db.order_lines@,
        |l: Line|
            if left_the_bar(db, l, shift_id) {
                amount_on(name)(l)
            } else {
                0
            },
    )
}

/// What a drink came to in a night.
pub open spec fn earned(db: Store, shift_id: i64, name: Seq<char>) -> int {
    total(
        db.order_lines@,
        |l: Line|
            if left_the_bar(db, l, shift_id) {
                price_on(name)(l)
            } else {
                0
            },
    )
}

/// Whether a drink is on one of the first lines.
spec fn is_on(lines: Seq<Line>, n: int, name: Seq<char>) -> bool {
    exists|k: int| 0 <= k < n && (#[trigger] lines[k]).sale_item_name@ == name
}

/// Whether a drink is among those that were summed.
spec fn is_among(sums: Seq<ItemSum>, name: Seq<char>) -> bool {
    exists|i: int| 0 <= i < sums.len() && (#[trigger] sums[i]).name@ == name
}

proof fn drinks_are_summed(lines: Seq<Line>, n: int)
    requires
        0 <= n <= lines.len(),
    ensures
        item_sums(lines, n) matches Some(sums) ==> {
            &&& forall|i: int| 0 <= i < sums.len() ==> is_on(lines, n, (#[trigger] sums[i]).name@)
            &&& forall|i: int|
                0 <= i < sums.len() ==> (#[trigger] sums[i]).quantity == total(
                    lines,
                    amount_on(sums[i].name@),
                ) && sums[i].value == total(lines, price_on(sums[i].name@))
            &&& forall|k: int|
                0 <= k < n ==> is_among(sums, (#[trigger] lines[k]).sale_item_name@)
            &&& forall|i: int, j: int|
                0 <= i < j < sums.len() ==> (#[trigger] sums[i]).name@ != (
                #[trigger] sums[j]).name@
        },
    decreases n,
{
    if n > 0 && item_sums(lines, n) is Some {
        drinks_are_summed(lines, n - 1);
        let before = item_sums(lines, n - 1)->0;
        let sums = item_sums(lines, n)->0;
        let name = lines[n - 1].sale_item_name@;
        a_checked_sum_is_the_total(lines, quantity_of(name), amount_on(name));
        a_checked_sum_is_the_total(lines, value_of(name), price_on(name));
        assert forall|i: int| 0 <= i < sums.len() implies is_on(
            lines,
            n,
            (#[trigger] sums[i]).name@,
        ) by {
            if i < before.len() {
                assert(sums[i] == before[i]);
                let k = choose|k: int|
                    0 <= k < n - 1 && (#[trigger] lines[k]).sale_item_name@ == before[i].name@;
                assert(lines[k].sale_item_name@ == sums[i].name@);
            } else {
                assert(lines[n - 1].sale_item_name@ == sums[i].name@);
            }
        }
        assert forall|i: int| 0 <= i < sums.len() implies (#[trigger] sums[i]).quantity == total(
            lines,
            amount_on(sums[i].name@),
        ) && sums[i].value == total(lines, price_on(sums[i].name@)) by {
            if i < before.len() {
                assert(sums[i] == before[i]);
            }
        }
        assert forall|k: int| 0 <= k < n implies is_among(
            sums,
            (#[trigger] lines[k]).sale_item_name@,
        ) by {
            if k < n - 1 {
                let i = choose|i: int|
                    0 <= i < before.len() && (#[trigger] before[i]).name@
                        == lines[k].sale_item_name@;
                assert(sums[i].name@ == lines[k].sale_item_name@);
            } else if came_before(lines, n - 1, name) {
                let e = choose|e: int|
                    0 <= e < n - 1 && (#[trigger] lines[e]).sale_item_name@ == name;
                assert(is_among(before, lines[e].sale_item_name@));
                let i = choose|i: int|
                    0 <= i < before.len() && (#[trigger] before[i]).name@
                        == lines[e].sale_item_name@;
                assert(sums[i].name@ == lines[k].sale_item_name@);
            } else {
                assert(sums[sums.len() - 1].name@ == name);
            }
        }
        assert forall|i: int, j: int| 0 <= i < j < sums.len() implies (#[trigger] sums[i]).name@
            != (#[trigger] sums[j]).name@ by {
            if j < before.len() {
                assert(sums[i] == before[i] && sums[j] == before[j]);
            } else {
                assert(sums[i] == before[i]);
                assert(is_on(lines, n - 1, before[i].name@));
            }
        }
    }
}

proof fn a_drink_comes_to_what_left_the_bar(db: Store, shift_id: i64, name: Seq<char>)
    ensures
        total(sold(db, shift_id), amount_on(name)) == poured(db, shift_id, name),
        total(sold(db, shift_id), price_on(name)) == earned(db, shift_id, name),
{
    the_chosen_come_to_what_counts(
        db.order_lines@,
        sold_in(db, shift_id),
        amount_on(name),
        |l: Line|
            if left_the_bar(db, l, shift_id) {
                amount_on(name)(l)
            } else {
                0
            },
    );
    the_chosen_come_to_what_counts(
        db.order_lines@,
        sold_in(db, shift_id),
        price_on(name),
        |l: Line|
            if left_the_bar(db, l, shift_id) {
                price_on(name)(l)
            } else {
                0
            },
    );
}

/// Whether a drink left the bar in a night.
pub open spec fn was_sold(db: Store, shift_id: i64, name: Seq<char>) -> bool {
    exists|k: int|
        0 <= k < db.order_lines@.len() && left_the_bar(db, #[trigger] db.order_lines@[k], shift_id)
            && db.order_lines@[k].sale_item_name@ == name
}

/// Whether a drink is on a list.
pub open spec fn is_listed(items: Seq<ItemSum>, name: Seq<char>) -> bool {
    exists|i: int| 0 <= i < items.len() && (#[trigger] items[i]).name@ == name
}

/// What a night's report lists as sold is what left the bar that night: each
/// drink once, with all of it that was poured and everything it came to, in the
/// order of what it came to. Nothing that was sold is left out.
pub proof fn a_report_lists_what_left_the_bar(db: Store, shift_id: i64)
    ensures
        items_sold(db, shift_id) matches Some(items) ==> {
            &&& forall|i: int|
                0 <= i < items.len() ==> (#[trigger] items[i]).quantity == poured(
                    db,
                    shift_id,
                    items[i].name@,
                ) && items[i].value == earned(db, shift_id, items[i].name@)
            &&& forall|name: Seq<char>|
                #[trigger] is_listed(items, name) <==> was_sold(db, shift_id, name)
            &&& forall|i: int, j: int|
                0 <= i < j < items.len() ==> (#[trigger] items[i]).name@ != (
                #[trigger] items[j]).name@
            &&& forall|i: int, j: int|
                0 <= i < j < items.len() ==> (#[trigger] items[i]).value >= (
                #[trigger] items[j]).value && (items[i].value == items[j].value
                    ==> !text_before(items[j].name@, items[i].name@))
        },
{
    if items_sold(db, shift_id) is Some {
        let lines = sold(db, shift_id);
        let sums = item_sums(lines, lines.len() as int)->0;
        let items = in_order(sums, worth_more());
        let name_of = |s: ItemSum| s.name@;
        drinks_are_summed(lines, lines.len() as int);
        crate::lists::what_is_listed_by_name_ranks();
        super::sorting_keeps_rows_apart(sums, worth_more(), name_of);
        ordering_puts_in_order(sums, worth_more());
        assert forall|i: int| 0 <= i < items.len() implies (#[trigger] items[i]).quantity == poured(
            db,
            shift_id,
            items[i].name@,
        ) && items[i].value == earned(db, shift_id, items[i].name@) by {
            let k = choose|k: int| 0 <= k < sums.len() && sums[k] == items[i];
            assert(sums[k].quantity == total(lines, amount_on(sums[k].name@)));
            a_drink_comes_to_what_left_the_bar(db, shift_id, items[i].name@);
        }
        assert forall|name: Seq<char>| #[trigger] is_listed(items, name) <==> was_sold(
            db,
            shift_id,
            name,
        ) by {
            listed_where_sold(db, shift_id, name);
        }
        assert forall|i: int, j: int| 0 <= i < j < items.len() implies (#[trigger] items[i]).name@
            != (#[trigger] items[j]).name@ by {
            assert(name_of(items[i]) != name_of(items[j]));
        }
        assert forall|i: int, j: int| 0 <= i < j < items.len() implies (#[trigger] items[i]).value
            >= (#[trigger] items[j]).value && (items[i].value == items[j].value ==> !text_before(
            items[j].name@,
            items[i].name@,
        )) by {
            assert(!worth_more()(items[j], items[i]));
        }
    }
}

proof fn listed_where_sold(db: Store, shift_id: i64, name: Seq<char>)
    requires
        items_sold(db, shift_id) is Some,
    ensures
        is_listed(items_sold(db, shift_id)->0, name) <==> was_sold(db, shift_id, name),
{
    let lines = sold(db, shift_id);
    let sums = item_sums(lines, lines.len() as int)->0;
    let items = in_order(sums, worth_more());
    let wanted = sold_in(db, shift_id);
    drinks_are_summed(lines, lines.len() as int);
    super::sorting_keeps_rows_apart(sums, worth_more(), |s: ItemSum| s.name@);
    crate::table::chosen_meet_the_condition(db.order_lines@, wanted);
    crate::table::what_is_listed_is_there(db.order_lines@, wanted, |a: Line, b: Line| false);
    super::choosing_is_complete(
        db.order_lines@,
        wanted,
        |l: Line| left_the_bar(db, l, shift_id),
    );
    if is_listed(items, name) {
        let i = choose|i: int| 0 <= i < items.len() && (#[trigger] items[i]).name@ == name;
        assert(sums.contains(items[i]));
        let m = choose|m: int| 0 <= m < sums.len() && sums[m] == items[i];
        assert(is_on(lines, lines.len() as int, sums[m].name@));
        let e = choose|e: int|
            0 <= e < lines.len() && (#[trigger] lines[e]).sale_item_name@ == sums[m].name@;
        assert(wanted(lines[e]));
        assert(db.order_lines@.contains(lines[e]));
        let k = choose|k: int| 0 <= k < db.order_lines@.len() && db.order_lines@[k] == lines[e];
        assert(left_the_bar(db, db.order_lines@[k], shift_id));
    }
    if was_sold(db, shift_id, name) {
        let k = choose|k: int|
            0 <= k < db.order_lines@.len() && left_the_bar(
                db,
                #[trigger] db.order_lines@[k],
                shift_id,
            ) && db.order_lines@[k].sale_item_name@ == name;
        assert(lines.contains(db.order_lines@[k]));
        let e = choose|e: int| 0 <= e < lines.len() && lines[e] == db.order_lines@[k];
        assert(is_among(sums, lines[e].sale_item_name@));
        let m = choose|m: int| 0 <= m < sums.len() && (#[trigger] sums[m]).name@ == name;
        assert(items.contains(sums[m]));
        let i = choose|i: int| 0 <= i < items.len() && items[i] == sums[m];
        assert(items[i].name@ == name);
    }
}

/// The lines whose order belongs to a night.
pub open spec fn rung_in(db: Store, shift_id: i64) -> spec_fn(Line) -> bool {
    |l: Line| row(db.orders@, l.order_id) matches Some(order) && order.shift_id == shift_id
}

proof fn choosing_twice<T>(
    rows: Seq<T>,
    first: spec_fn(T) -> bool,
    then_also: spec_fn(T) -> bool,
    both: spec_fn(T) -> bool,
)
    requires
        forall|r: T| #[trigger] both(r) == (first(r) && then_also(r)),
    ensures
        chosen(chosen(rows, first), then_also) == chosen(rows, both),
    decreases rows.len(),
{
    if rows.len() > 0 {
        choosing_twice(rows.drop_last(), first, then_also, both);
        assert(both(rows.last()) == (first(rows.last()) && then_also(rows.last())));
        if first(rows.last()) {
            assert(chosen(rows, first).drop_last() =~= chosen(rows.drop_last(), first));
        }
    }
}

proof fn choosing_alike<T>(rows: Seq<T>, one: spec_fn(T) -> bool, other: spec_fn(T) -> bool)
    requires
        forall|i: int| 0 <= i < rows.len() ==> one(#[trigger] rows[i]) == other(rows[i]),
    ensures
        chosen(rows, one) == chosen(rows, other),
    decreases rows.len(),
{
    if rows.len() > 0 {
        let front = rows.drop_last();
        assert forall|i: int| 0 <= i < front.len() implies one(#[trigger] front[i]) == other(
            front[i],
        ) by {
            assert(front[i] == rows[i]);
        }
        choosing_alike(front, one, other);
        assert(one(rows[rows.len() - 1]) == other(rows[rows.len() - 1]));
    }
}

/// What is sold in another night never changes a night's report: two tills with
/// the same lines rung in that night, under orders in the same states, list the
/// same drinks, whatever else was rung in.
pub proof fn another_night_changes_no_report(one: Store, other: Store, shift_id: i64)
    requires
        chosen(one.order_lines@, rung_in(one, shift_id)) == chosen(
            other.order_lines@,
            rung_in(other, shift_id),
        ),
        forall|id: i64|
            (row(one.orders@, id) matches Some(order) && order.shift_id == shift_id)
                ==> #[trigger] row(other.orders@, id) == row(one.orders@, id),
        forall|id: i64|
            (row(other.orders@, id) matches Some(order) && order.shift_id == shift_id)
                ==> row(other.orders@, id) == #[trigger] row(one.orders@, id),
    ensures
        items_sold(one, shift_id) == items_sold(other, shift_id),
{
    let common = chosen(one.order_lines@, rung_in(one, shift_id));
    let issued_here = |l: Line| row(one.orders@, l.order_id)->0.status == orders::Status::Issued;
    let issued_there = |l: Line|
        row(other.orders@, l.order_id)->0.status == orders::Status::Issued;
    choosing_twice(
        one.order_lines@,
        rung_in(one, shift_id),
        issued_here,
        sold_in(one, shift_id),
    );
    choosing_twice(
        other.order_lines@,
        rung_in(other, shift_id),
        issued_there,
        sold_in(other, shift_id),
    );
    crate::table::chosen_meet_the_condition(one.order_lines@, rung_in(one, shift_id));
    assert forall|i: int| 0 <= i < common.len() implies issued_here(#[trigger] common[i])
        == issued_there(common[i]) by {
        assert(rung_in(one, shift_id)(common[i]));
        assert(row(other.orders@, common[i].order_id) == row(one.orders@, common[i].order_id));
    }
    choosing_alike(common, issued_here, issued_there);
}

// ---------------------------------------------------------------------------
// What was billed
// ---------------------------------------------------------------------------

/// What a figure of the bills comes to over a night.
pub open spec fn over_bills(db: Store, shift_id: i64, figure: spec_fn(TabPayment) -> int) -> int {
    total(
        db.payments@,
        |p: TabPayment|
            if p.shift_id == shift_id {
                figure(p)
            } else {
                0
            },
    )
}

/// What a night billed is what its bills say, part by part: before charges, for
/// service, in tax and in all, and of that what the house paid.
pub proof fn a_night_billed_what_its_bills_say(db: Store, shift_id: i64)
    ensures
        billed(db, shift_id, Charge::Subtotal) matches Some(v) ==> v == over_bills(
            db,
            shift_id,
            |p: TabPayment| p.subtotal.minor as int,
        ),
        billed(db, shift_id, Charge::Service) matches Some(v) ==> v == over_bills(
            db,
            shift_id,
            |p: TabPayment| p.service_charge.minor as int,
        ),
        billed(db, shift_id, Charge::Tax) matches Some(v) ==> v == over_bills(
            db,
            shift_id,
            |p: TabPayment| p.tax.minor as int,
        ),
        billed(db, shift_id, Charge::Total) matches Some(v) ==> v == over_bills(
            db,
            shift_id,
            |p: TabPayment| p.total.minor as int,
        ),
        billed(db, shift_id, Charge::Comped) matches Some(v) ==> v == over_bills(
            db,
            shift_id,
            |p: TabPayment|
                if p.is_comped {
                    p.total.minor as int
                } else {
                    0
                },
        ),
{
    let a = |p: TabPayment| p.subtotal.minor as int;
    let b = |p: TabPayment| p.service_charge.minor as int;
    let c = |p: TabPayment| p.tax.minor as int;
    let d = |p: TabPayment| p.total.minor as int;
    let e = |p: TabPayment|
        if p.is_comped {
            p.total.minor as int
        } else {
            0
        };
    a_checked_sum_is_the_total(
        db.payments@,
        charged(shift_id, Charge::Subtotal),
        |p: TabPayment|
            if p.shift_id == shift_id {
                a(p)
            } else {
                0
            },
    );
    a_checked_sum_is_the_total(
        db.payments@,
        charged(shift_id, Charge::Service),
        |p: TabPayment|
            if p.shift_id == shift_id {
                b(p)
            } else {
                0
            },
    );
    a_checked_sum_is_the_total(
        db.payments@,
        charged(shift_id, Charge::Tax),
        |p: TabPayment|
            if p.shift_id == shift_id {
                c(p)
            } else {
                0
            },
    );
    a_checked_sum_is_the_total(
        db.payments@,
        charged(shift_id, Charge::Total),
        |p: TabPayment|
            if p.shift_id == shift_id {
                d(p)
            } else {
                0
            },
    );
    a_checked_sum_is_the_total(
        db.payments@,
        charged(shift_id, Charge::Comped),
        |p: TabPayment|
            if p.shift_id == shift_id {
                e(p)
            } else {
                0
            },
    );
}

// ---------------------------------------------------------------------------
// The drawer
// ---------------------------------------------------------------------------

/// What the entries of a night come to, where they are of certain kinds.
pub open spec fn over_entries(
    db: Store,
    shift_id: i64,
    kinds: spec_fn(MovementType) -> bool,
) -> int {
    total(
        db.cash@,
        |m: CashMovement|
            if m.shift_id == shift_id && kinds(m.movement_type) {
                m.amount.minor as int
            } else {
                0
            },
    )
}

/// What a drawer should hold is its float, what waiters brought, and every other
/// entry, each counted once.
pub proof fn a_drawer_is_made_of_three_parts(db: Store, shift_id: i64)
    ensures
        came_in(db, shift_id, Origin::Float) matches Some(v) ==> v == over_entries(
            db,
            shift_id,
            |k: MovementType| k == MovementType::OpeningFloat,
        ),
        came_in(db, shift_id, Origin::Waiters) matches Some(v) ==> v == over_entries(
            db,
            shift_id,
            |k: MovementType| k == MovementType::Reconciliation,
        ),
        came_in(db, shift_id, Origin::Other) matches Some(v) ==> v == over_entries(
            db,
            shift_id,
            |k: MovementType| k != MovementType::OpeningFloat && k != MovementType::Reconciliation,
        ),
        match (
            came_in(db, shift_id, Origin::Float),
            came_in(db, shift_id, Origin::Waiters),
            came_in(db, shift_id, Origin::Other),
            drawer(db, shift_id),
        ) {
            (Some(float), Some(waiters), Some(other), Ok(all)) => all.minor == float + waiters
                + other,
            _ => true,
        },
{
    let float = |k: MovementType| k == MovementType::OpeningFloat;
    let waiters = |k: MovementType| k == MovementType::Reconciliation;
    let other = |k: MovementType|
        k != MovementType::OpeningFloat && k != MovementType::Reconciliation;
    let a = |m: CashMovement|
        if m.shift_id == shift_id && float(m.movement_type) {
            m.amount.minor as int
        } else {
            0
        };
    let b = |m: CashMovement|
        if m.shift_id == shift_id && waiters(m.movement_type) {
            m.amount.minor as int
        } else {
            0
        };
    let c = |m: CashMovement|
        if m.shift_id == shift_id && other(m.movement_type) {
            m.amount.minor as int
        } else {
            0
        };
    let ab = |m: CashMovement| a(m) + b(m);
    let abc = |m: CashMovement|
        if m.shift_id == shift_id {
            m.amount.minor as int
        } else {
            0
        };
    a_checked_sum_is_the_total(db.cash@, put_in(shift_id, Origin::Float), a);
    a_checked_sum_is_the_total(db.cash@, put_in(shift_id, Origin::Waiters), b);
    a_checked_sum_is_the_total(db.cash@, put_in(shift_id, Origin::Other), c);
    totals_add(db.cash@, a, b, ab);
    totals_add(db.cash@, ab, c, abc);
    super::cash::the_drawer_holds_what_was_entered(db, shift_id);
}

// ---------------------------------------------------------------------------
// What waiters settled
// ---------------------------------------------------------------------------

/// What a figure of a waiter's finished settlements comes to over a night.
pub open spec fn over_settlements(
    db: Store,
    shift_id: i64,
    waiter_id: i64,
    figure: spec_fn(Reconciliation) -> int,
) -> int {
    total(
        db.reconciliations@,
        |r: Reconciliation|
            if r.shift_id == shift_id && r.finalized_at is Some && r.waiter_id == waiter_id {
                figure(r)
            } else {
                0
            },
    )
}

/// Whether the figures of a waiter are what their finished settlements of a
/// night come to.
pub open spec fn sums_up(db: Store, shift_id: i64, sum: WaiterSum) -> bool {
    let id = sum.waiter_id;
    &&& row(db.staff@, id) matches Some(who) && sum.name == who.person.name
    &&& sum.expected == over_settlements(db, shift_id, id, |r: Reconciliation| r.expected.minor as int)
    &&& sum.cash == over_settlements(db, shift_id, id, |r: Reconciliation| r.cash.minor as int)
    &&& sum.non_cash == over_settlements(db, shift_id, id, |r: Reconciliation| r.non_cash.minor as int)
    &&& sum.written_off == over_settlements(db, shift_id, id, |r: Reconciliation| r.written_off.minor as int)
    &&& sum.shortfall == over_settlements(db, shift_id, id, |r: Reconciliation| r.shortfall.minor as int)
}

proof fn a_share_is_the_total(
    db: Store,
    shift_id: i64,
    waiter_id: i64,
    share: Share,
    figure: spec_fn(Reconciliation) -> int,
)
    requires
        forall|r: Reconciliation| #[trigger] figure(r) == share.of(r),
    ensures
        shared(db, shift_id, waiter_id, share) matches Some(v) ==> v == over_settlements(
            db,
            shift_id,
            waiter_id,
            figure,
        ),
{
    a_checked_sum_is_the_total(
        db.reconciliations@,
        share_of(shift_id, waiter_id, share),
        |r: Reconciliation|
            if r.shift_id == shift_id && r.finalized_at is Some && r.waiter_id == waiter_id {
                figure(r)
            } else {
                0
            },
    );
}

proof fn a_waiter_is_summed_up(db: Store, shift_id: i64, waiter_id: i64)
    requires
        row(db.staff@, waiter_id) is Some,
    ensures
        waiter_sum(db, shift_id, waiter_id) matches Some(sum) ==> sums_up(db, shift_id, sum)
            && sum.waiter_id == waiter_id,
{
    a_share_is_the_total(db, shift_id, waiter_id, Share::Expected, |r: Reconciliation| r.expected.minor as int);
    a_share_is_the_total(db, shift_id, waiter_id, Share::Cash, |r: Reconciliation| r.cash.minor as int);
    a_share_is_the_total(db, shift_id, waiter_id, Share::NonCash, |r: Reconciliation| r.non_cash.minor as int);
    a_share_is_the_total(db, shift_id, waiter_id, Share::WrittenOff, |r: Reconciliation| r.written_off.minor as int);
    a_share_is_the_total(db, shift_id, waiter_id, Share::Shortfall, |r: Reconciliation| r.shortfall.minor as int);
}

/// Whether somebody who is on the books finished a settlement in a night.
pub open spec fn settled_up(rows: Seq<Reconciliation>, shift_id: i64, waiter_id: i64) -> bool {
    exists|i: int|
        0 <= i < rows.len() && (#[trigger] rows[i]).shift_id == shift_id && rows[i].finalized_at
            is Some && rows[i].waiter_id == waiter_id
}

proof fn settlers_settled(db: Store, rows: Seq<Reconciliation>, shift_id: i64, id: i64)
    ensures
        crate::tally::ascending(settlers(db, rows, shift_id)),
        crate::tally::lists(settlers(db, rows, shift_id), id) <==> settled_up(rows, shift_id, id)
            && row(db.staff@, id) is Some,
    decreases rows.len(),
{
    if rows.len() > 0 {
        let front = rows.drop_last();
        settlers_settled(db, front, shift_id, id);
        crate::tally::adding_adds(settlers(db, front, shift_id), rows.last().waiter_id, 0, id);
        if settled_up(front, shift_id, id) {
            let i = choose|i: int|
                0 <= i < front.len() && (#[trigger] front[i]).shift_id == shift_id
                    && front[i].finalized_at is Some && front[i].waiter_id == id;
            assert(rows[i] == front[i]);
        }
        if settled_up(rows, shift_id, id) {
            let i = choose|i: int|
                0 <= i < rows.len() && (#[trigger] rows[i]).shift_id == shift_id
                    && rows[i].finalized_at is Some && rows[i].waiter_id == id;
            if i < front.len() {
                assert(front[i] == rows[i]);
            }
        }
        if settled_in(rows.last(), shift_id) && rows.last().waiter_id == id {
            assert(rows[rows.len() - 1].shift_id == shift_id);
        }
    }
}

proof fn everybody_is_summed_up(db: Store, shift_id: i64, who: Seq<(i64, int)>)
    requires
        forall|i: int| 0 <= i < who.len() ==> row(db.staff@, (#[trigger] who[i]).0) is Some,
    ensures
        waiter_sums(db, shift_id, who) matches Some(sums) ==> {
            &&& sums.len() == who.len()
            &&& forall|i: int|
                0 <= i < sums.len() ==> sums_up(db, shift_id, #[trigger] sums[i])
                    && sums[i].waiter_id == who[i].0
        },
    decreases who.len(),
{
    if who.len() > 0 {
        assert forall|i: int| 0 <= i < who.drop_last().len() implies row(
            db.staff@,
            (#[trigger] who.drop_last()[i]).0,
        ) is Some by {
            assert(who.drop_last()[i] == who[i]);
        }
        everybody_is_summed_up(db, shift_id, who.drop_last());
        assert(row(db.staff@, who[who.len() - 1].0) is Some);
        a_waiter_is_summed_up(db, shift_id, who.last().0);
    }
}

/// Whether somebody is among those whose settlements are summed up.
pub open spec fn is_summed(sums: Seq<WaiterSum>, waiter_id: i64) -> bool {
    exists|i: int| 0 <= i < sums.len() && (#[trigger] sums[i]).waiter_id == waiter_id
}

/// A night's report lists everybody who finished a settlement that night, each
/// once and by name, with what their settlements come to.
pub proof fn a_report_lists_everybody_who_settled(db: Store, shift_id: i64)
    ensures
        settlements(db, shift_id) matches Some(sums) ==> {
            &&& forall|i: int| 0 <= i < sums.len() ==> sums_up(db, shift_id, #[trigger] sums[i])
            &&& forall|id: i64|
                #[trigger] is_summed(sums, id) <==> settled_up(db.reconciliations@, shift_id, id)
                    && row(db.staff@, id) is Some
            &&& forall|i: int, j: int|
                0 <= i < j < sums.len() ==> (#[trigger] sums[i]).waiter_id != (
                #[trigger] sums[j]).waiter_id && !text_before(sums[j].name@, sums[i].name@)
        },
{
    if settlements(db, shift_id) is Some {
        let who = settlers(db, db.reconciliations@, shift_id);
        let raw = waiter_sums(db, shift_id, who)->0;
        let sums = in_order(raw, named_before());
        settlers_settled(db, db.reconciliations@, shift_id, 0);
        assert forall|i: int| 0 <= i < who.len() implies row(db.staff@, (#[trigger] who[i]).0)
            is Some && settled_up(db.reconciliations@, shift_id, who[i].0) by {
            settlers_settled(db, db.reconciliations@, shift_id, who[i].0);
            assert(crate::tally::lists(who, who[i].0));
        }
        everybody_is_summed_up(db, shift_id, who);
        crate::lists::what_is_listed_by_name_ranks();
        ordering_puts_in_order(raw, named_before());
        let id_of = |s: WaiterSum| s.waiter_id;
        assert forall|i: int, j: int| 0 <= i < j < raw.len() implies id_of(#[trigger] raw[i])
            != id_of(#[trigger] raw[j]) by {
            assert(raw[i].waiter_id == who[i].0);
            assert(raw[j].waiter_id == who[j].0);
            assert(who[i].0 < who[j].0);
        }
        super::sorting_keeps_rows_apart(raw, named_before(), id_of);
        assert forall|i: int| 0 <= i < sums.len() implies sums_up(
            db,
            shift_id,
            #[trigger] sums[i],
        ) by {
            let k = choose|k: int| 0 <= k < raw.len() && raw[k] == sums[i];
            assert(sums_up(db, shift_id, raw[k]));
            assert(raw[k].waiter_id == who[k].0);
        }
        assert forall|id: i64| #[trigger] is_summed(sums, id) <==> settled_up(
            db.reconciliations@,
            shift_id,
            id,
        ) && row(db.staff@, id) is Some by {
            settlers_settled(db, db.reconciliations@, shift_id, id);
            if crate::tally::lists(who, id) {
                let k = choose|k: int| 0 <= k < who.len() && (#[trigger] who[k]).0 == id;
                assert(raw[k].waiter_id == id);
                assert(sums.contains(raw[k]));
                let i = choose|i: int| 0 <= i < sums.len() && sums[i] == raw[k];
                assert(sums[i].waiter_id == id);
            }
            if is_summed(sums, id) {
                let i = choose|i: int| 0 <= i < sums.len() && (#[trigger] sums[i]).waiter_id == id;
                assert(raw.contains(sums[i]));
                let k = choose|k: int| 0 <= k < raw.len() && raw[k] == sums[i];
                assert(raw[k].waiter_id == who[k].0);
            }
        }
        assert forall|i: int, j: int| 0 <= i < j < sums.len() implies (#[trigger] sums[i]).waiter_id
            != (#[trigger] sums[j]).waiter_id && !text_before(sums[j].name@, sums[i].name@) by {
            assert(!named_before()(sums[j], sums[i]));
            assert(id_of(sums[i]) != id_of(sums[j]));
        }
    }
}

// ---------------------------------------------------------------------------
// The report as a whole
// ---------------------------------------------------------------------------

/// A report says of its night what the ledgers say: what was billed and in which
/// parts, what the drawer is made of and how the count came out, and how many
/// tabs, comps, corrections and voids there were.
pub proof fn a_report_says_what_the_ledgers_say(
    report: ShiftReport,
    db: Store,
    night: Shift,
    clocks: Clocks<'_>,
)
    requires
        compile_refusal(db, night.id) is None,
        row(db.shifts@, night.id) == Some(night),
        report_says(report, db, night, clocks),
    ensures
        report.shift_code == night.code,
        report.business_date == night.business_date,
        crate::calendar::business_date(night.business_date@) matches Some(date)
            && report.business_date_label@ == crate::calendar::date_label(date),
        forall|name: Seq<char>| #[trigger]
            super::settings::is_set_to(db.settings@, "receipt.business_name"@, name)
                ==> report.venue_name@ == name,
        report.opened_at_label@ == clocks.opened_at@,
        night.closed_at is Some ==> report.closed_at_label@ == clocks.closed_at@,
        night.closed_at is None ==> report.closed_at_label@.len() == 0,
        row(db.staff@, night.opened_by) matches Some(who) && report.opened_by@ == who.person.name@,
        night.closed_by matches Some(id) ==> (row(db.staff@, id) matches Some(who)
            && report.closed_by@ == who.person.name@),
        report.gross_sales@ == shown(
            db,
            over_bills(db, night.id, |p: TabPayment| p.subtotal.minor as int),
        ),
        report.service_charge@ == shown(
            db,
            over_bills(db, night.id, |p: TabPayment| p.service_charge.minor as int),
        ),
        report.tax@ == shown(db, over_bills(db, night.id, |p: TabPayment| p.tax.minor as int)),
        report.total_billed@ == shown(
            db,
            over_bills(db, night.id, |p: TabPayment| p.total.minor as int),
        ),
        report.comped_value@ == shown(
            db,
            over_bills(
                db,
                night.id,
                |p: TabPayment|
                    if p.is_comped {
                        p.total.minor as int
                    } else {
                        0
                    },
            ),
        ),
        report.opening_float@ == shown(
            db,
            over_entries(db, night.id, |k: MovementType| k == MovementType::OpeningFloat),
        ),
        report.cash_from_waiters@ == shown(
            db,
            over_entries(db, night.id, |k: MovementType| k == MovementType::Reconciliation),
        ),
        report.other_movements@ == shown(
            db,
            over_entries(
                db,
                night.id,
                |k: MovementType|
                    k != MovementType::OpeningFloat && k != MovementType::Reconciliation,
            ),
        ),
        drawer(db, night.id) matches Ok(due) && ({
            let held = match night.counted_cash {
                Some(money) => money.minor as int,
                None => 0,
            };
            &&& report.expected_cash@ == shown(db, due.minor as int)
            &&& report.counted_cash@ == shown(db, held)
            &&& report.balanced <==> held == due.minor
            &&& report.over <==> held >= due.minor
            &&& report.variance@ == shown(
                db,
                if held >= due.minor {
                    held - due.minor
                } else {
                    due.minor - held
                },
            )
        }),
        report.tabs_settled == how_many(db.payments@, |p: TabPayment| p.shift_id == night.id),
        report.comped_tabs == how_many(
            db.payments@,
            |p: TabPayment| p.shift_id == night.id && p.is_comped,
        ),
        report.corrections == how_many(
            db.corrections@,
            |c: CorrectionRow| c.shift_id == night.id && c.kind == CorrectionKind::Correction,
        ),
        report.voids == how_many(
            db.corrections@,
            |c: CorrectionRow| c.shift_id == night.id && c.kind == CorrectionKind::Void,
        ),
{
    assert forall|name: Seq<char>| #[trigger]
        super::settings::is_set_to(
            db.settings@,
            "receipt.business_name"@,
            name,
        ) implies report.venue_name@ == name by {
        super::settings::a_setting_says_what_its_row_says(
            db.settings@,
            "receipt.business_name"@,
            name,
        );
    }
    let id = night.id;
    a_night_billed_what_its_bills_say(db, id);
    a_drawer_is_made_of_three_parts(db, id);
    a_count_is_how_many(db.payments@, billed_in(id), |p: TabPayment| p.shift_id == id);
    a_count_is_how_many(
        db.payments@,
        comped_in(id),
        |p: TabPayment| p.shift_id == id && p.is_comped,
    );
    a_count_is_how_many(
        db.corrections@,
        corrected_in(id, CorrectionKind::Correction),
        |c: CorrectionRow| c.shift_id == id && c.kind == CorrectionKind::Correction,
    );
    a_count_is_how_many(
        db.corrections@,
        corrected_in(id, CorrectionKind::Void),
        |c: CorrectionRow| c.shift_id == id && c.kind == CorrectionKind::Void,
    );
}

/// The lines of a report show what everybody settled and what every drink came
/// to, and the two figures beside them are the totals over everybody.
pub proof fn a_report_shows_every_line(
    report: ShiftReport,
    db: Store,
    night: Shift,
    clocks: Clocks<'_>,
)
    requires
        compile_refusal(db, night.id) is None,
        row(db.shifts@, night.id) == Some(night),
        report_says(report, db, night, clocks),
    ensures
        settlements(db, night.id) matches Some(sums) && report.waiters@.len() == sums.len()
            && report.non_cash@ == shown(db, total(sums, |s: WaiterSum| s.non_cash as int))
            && report.written_off@ == shown(db, total(sums, |s: WaiterSum| s.written_off as int))
            && (forall|i: int|
            0 <= i < sums.len() ==> {
                let line = #[trigger] report.waiters@[i];
                &&& line.name == sums[i].name
                &&& line.expected@ == shown(db, sums[i].expected as int)
                &&& line.cash@ == shown(db, sums[i].cash as int)
                &&& line.non_cash@ == shown(db, sums[i].non_cash as int)
                &&& line.written_off@ == shown(db, sums[i].written_off as int)
                &&& line.shortfall@ == shown(db, sums[i].shortfall as int)
            }),
        items_sold(db, night.id) matches Some(items) && report.items@.len() == items.len() && (
        forall|i: int|
            0 <= i < items.len() ==> {
                let line = #[trigger] report.items@[i];
                &&& line.name == items[i].name
                &&& line.quantity@ == milli_text(items[i].quantity as int)
                &&& line.value@ == shown(db, items[i].value as int)
            }),
{
    let sums = settlements(db, night.id)->0;
    a_checked_sum_is_the_total(
        sums,
        crate::report::non_cash_of(),
        |s: WaiterSum| s.non_cash as int,
    );
    a_checked_sum_is_the_total(
        sums,
        crate::report::written_off_of(),
        |s: WaiterSum| s.written_off as int,
    );
}

/// A report is frozen once, of a night that has closed.
pub proof fn a_night_is_frozen_once_it_has_closed(db: Store, shift_id: i64)
    requires
        freeze_refusal(db, shift_id) is None,
    ensures
        row(db.shifts@, shift_id) matches Some(night) && night.status == Status::Closed,
        forall|i: int|
            0 <= i < db.reports@.len() && (#[trigger] db.reports@[i]).shift_id == shift_id
                ==> db.reports@[i].is_provisional,
{
    assert forall|i: int|
        0 <= i < db.reports@.len() && (#[trigger] db.reports@[i]).shift_id
            == shift_id implies db.reports@[i].is_provisional by {
        assert(!is_final_of(shift_id)(db.reports@[i]));
    }
}

/// The Reports screen shows the nights that have closed, the latest first. It
/// shows the night that was asked for, and refuses one that has not closed; where
/// none was asked for, it shows the latest. The paper is the one that was frozen.
pub proof fn the_screen_shows_closed_nights(view: ReportsView, db: Store, wanted: Option<i64>)
    requires
        view_refusal(db, wanted) is None,
        view_says(view, db, wanted),
    ensures
        lists_exactly(
            closed_nights(db),
            db.shifts@,
            |s: Shift| s.status == Status::Closed,
            |a: Shift, b: Shift| a.opened_at > b.opened_at,
        ),
        view.nights@.len() == closed_nights(db).len(),
        forall|i: int|
            0 <= i < view.nights@.len() ==> {
                let night = closed_nights(db)[i];
                &&& (#[trigger] view.nights@[i]).shift_id == night.id
                &&& view.nights@[i].code == night.code
                &&& view.nights@[i].business_date == night.business_date
            },
        wanted matches Some(id) ==> view.showing_shift_id == Some(id) && (exists|i: int|
            0 <= i < db.shifts@.len() && (#[trigger] db.shifts@[i]).id == id && db.shifts@[i].status
                == Status::Closed),
        wanted is None && view.nights@.len() > 0 ==> view.showing_shift_id == Some(
            view.nights@[0].shift_id,
        ),
        wanted is None && view.nights@.len() == 0 ==> view.showing_shift_id is None,
        view.rendered_text matches Some(paper) ==> exists|i: int|
            0 <= i < db.reports@.len() && Some((#[trigger] db.reports@[i]).shift_id)
                == view.showing_shift_id && !db.reports@[i].is_provisional
                && db.reports@[i].rendered_text == paper && view.showing == Some(
                db.reports@[i].report_json,
            ),
{
    crate::lists::what_is_listed_by_number_ranks();
    a_list_is_exact(
        db.shifts@,
        is_finished(),
        opened_later(),
        |s: Shift| s.status == Status::Closed,
        |a: Shift, b: Shift| a.opened_at > b.opened_at,
    );
    let nights = closed_nights(db);
    assert forall|i: int| 0 <= i < view.nights@.len() implies {
        let night = closed_nights(db)[i];
        &&& (#[trigger] view.nights@[i]).shift_id == night.id
        &&& view.nights@[i].code == night.code
        &&& view.nights@[i].business_date == night.business_date
    } by {
        assert(crate::report::night_says(view.nights@[i], nights[i]));
    }
    if wanted is Some {
        let k = choose|k: int| 0 <= k < nights.len() && (#[trigger] nights[k]).id == wanted->0;
        assert(db.shifts@.contains(nights[k]));
        let i = choose|i: int| 0 <= i < db.shifts@.len() && db.shifts@[i] == nights[k];
        assert(db.shifts@[i].id == wanted->0);
    }
    if view.rendered_text is Some {
        let id = view.showing_shift_id->0;
        the_first_chosen_comes_first(
            db.reports@,
            is_final_of(id),
            |s: Stored| s.shift_id == id && !s.is_provisional,
        );
        let found = final_report(db, id)->0;
        let i = choose|i: int|
            0 <= i < db.reports@.len() && #[trigger] db.reports@[i] == found && db.reports@[i].shift_id
                == id && !db.reports@[i].is_provisional;
        assert(db.reports@[i].rendered_text == view.rendered_text->0);
    }
}

// ---------------------------------------------------------------------------
// Opening and closing
// ---------------------------------------------------------------------------

/// A night opens exactly when a cashier opens it with no less than nothing in
/// the drawer, under a date that can be read and has not traded, and no other
/// night is running.
pub proof fn when_a_night_can_open(db: Store, new: NewShift<'_>)
    ensures
        open_refusal(db, new) is None <==> {
            &&& is_cashier(db, new.opened_by)
            &&& new.opening_float.minor >= 0
            &&& crate::calendar::business_date(trimmed(new.business_date@)) is Some
            &&& forall|i: int|
                0 <= i < db.shifts@.len() ==> (#[trigger] db.shifts@[i]).status == Status::Closed
                    && db.shifts@[i].business_date@ != trimmed(new.business_date@)
            &&& fresh_id(db.shifts@) is Some
            &&& new.opening_float.minor > 0 ==> fresh_id(db.cash@) is Some
            &&& db.sequences.shift < i64::MAX
        },
{
    crate::lists::what_is_listed_by_number_ranks();
    a_list_is_exact(
        db.shifts@,
        is_unfinished(),
        opened_later(),
        |s: Shift| s.status != Status::Closed,
        |a: Shift, b: Shift| a.opened_at > b.opened_at,
    );
    let running = in_order(chosen(db.shifts@, is_unfinished()), opened_later());
    let date = trimmed(new.business_date@);
    let traded = crate::repo::shifts::traded_on(date);
    if running_shift(db) is None && !any(db.shifts@, traded) {
        assert forall|i: int| 0 <= i < db.shifts@.len() implies (
        #[trigger] db.shifts@[i]).status == Status::Closed && db.shifts@[i].business_date@
            != date by {
            assert(!traded(db.shifts@[i]));
            if db.shifts@[i].status != Status::Closed {
                assert(running.contains(db.shifts@[i]));
            }
        }
    }
    if forall|i: int|
        0 <= i < db.shifts@.len() ==> (#[trigger] db.shifts@[i]).status == Status::Closed
            && db.shifts@[i].business_date@ != date {
        if running.len() > 0 {
            assert(db.shifts@.contains(running[0]));
        }
        assert forall|i: int| 0 <= i < db.shifts@.len() implies !#[trigger] traded(
            db.shifts@[i],
        ) by {}
    }
}

/// A night that was opened is running, with its float in the drawer as its only
/// entry, and no other night and no other drawer has changed.
pub proof fn an_opened_night_starts_with_its_float(
    before: Store,
    after: Store,
    new: NewShift<'_>,
    opened: Shift,
    other: i64,
)
    requires
        open_refusal(before, new) is None,
        night_opened(before, after, new, opened),
    ensures
        row(after.shifts@, opened.id) == Some(opened),
        opened.status == Status::Open,
        opened.business_date@ == trimmed(new.business_date@),
        opened.opened_at == new.opened_at,
        opened.opened_by == new.opened_by,
        opened.opening_float == new.opening_float,
        opened.expected_end_at == new.expected_end_at,
        opened.closed_at is None && opened.closed_by is None && opened.counted_cash is None,
        opened.code@ == crate::repo::seq::printed(
            crate::repo::seq::Counter::Shift,
            before.sequences.shift,
        ),
        after.sequences.shift == before.sequences.shift + 1,
        row(before.shifts@, other) is Some ==> row(after.shifts@, other) == row(
            before.shifts@,
            other,
        ),
        over_entries(after, opened.id, |k: MovementType| k == MovementType::OpeningFloat)
            == over_entries(before, opened.id, |k: MovementType| k == MovementType::OpeningFloat)
            + new.opening_float.minor,
        over_entries(after, opened.id, |k: MovementType| k != MovementType::OpeningFloat)
            == over_entries(before, opened.id, |k: MovementType| k != MovementType::OpeningFloat),
        other != opened.id ==> over_entries(after, other, |k: MovementType| true) == over_entries(
            before,
            other,
            |k: MovementType| true,
        ),
        new.opening_float.minor == 0 ==> after.cash@ == before.cash@,
        new.opening_float.minor != 0 ==> ({
            let entry = after.cash@.last();
            &&& after.cash@.drop_last() == before.cash@
            &&& fresh_id(before.cash@) == Some(entry.id)
            &&& entry.movement_type == MovementType::OpeningFloat
            &&& entry.shift_id == opened.id
            &&& entry.amount == new.opening_float
            &&& entry.created_by == new.opened_by
            &&& entry.created_at == new.opened_at
        }),
        after.tabs == before.tabs,
        after.orders == before.orders,
        after.movements == before.movements,
{
    crate::table::a_fresh_id_is_unused(before.shifts@);
    place_is_first(before.shifts@, opened.id);
    crate::table::writing_keeps_places(before.shifts@, opened, opened.id);
    crate::table::writing_keeps_places(before.shifts@, opened, other);
}

/// A night begins to close exactly when a cashier says so, it is open, and no
/// print is unresolved.
pub proof fn when_a_night_can_begin_to_close(db: Store, shift_id: i64, by: i64)
    ensures
        begin_closing_refusal(db, shift_id, by) is None <==> is_cashier(db, by) && trades(
            db,
            shift_id,
        ) && recovered(db),
{
}

/// Prints are resolved exactly when no order is at the printer, no draft has a
/// slip that was given up, and no attempt is unanswered.
pub proof fn when_prints_are_resolved(db: Store)
    ensures
        recovered(db) <==> {
            &&& forall|i: int|
                0 <= i < db.orders@.len() ==> (#[trigger] db.orders@[i]).status
                    != orders::Status::Printing
            &&& forall|i: int, k: int|
                0 <= i < db.orders@.len() && 0 <= k < db.receipts@.len() && (
                #[trigger] db.orders@[i]).status == orders::Status::Draft ==> !((
                #[trigger] db.receipts@[k]).order_id == Some(db.orders@[i].id)
                    && db.receipts@[k].kind == receipts::Kind::Issue && db.receipts@[k].status
                    == receipts::Status::Void)
            &&& forall|i: int|
                0 <= i < db.prints@.len() ==> (#[trigger] db.prints@[i]).outcome
                    != receipts::Outcome::Unknown
        },
{
    let printing = crate::repo::shifts::is_printing();
    let stuck = crate::repo::shifts::is_unresolved_draft(db);
    let unanswered = crate::repo::shifts::is_unanswered();
    if recovered(db) {
        assert forall|i: int| 0 <= i < db.orders@.len() implies (#[trigger] db.orders@[i]).status
            != orders::Status::Printing by {
            assert(!printing(db.orders@[i]));
        }
        assert forall|i: int, k: int|
            0 <= i < db.orders@.len() && 0 <= k < db.receipts@.len() && (
            #[trigger] db.orders@[i]).status == orders::Status::Draft implies !((
        #[trigger] db.receipts@[k]).order_id == Some(db.orders@[i].id) && db.receipts@[k].kind
            == receipts::Kind::Issue && db.receipts@[k].status == receipts::Status::Void) by {
            assert(!stuck(db.orders@[i]));
            let void = crate::repo::shifts::void_issue_of(db.orders@[i].id);
            assert(!void(db.receipts@[k]));
        }
        assert forall|i: int| 0 <= i < db.prints@.len() implies (#[trigger] db.prints@[i]).outcome
            != receipts::Outcome::Unknown by {
            assert(!unanswered(db.prints@[i]));
        }
    } else {
        if any(db.orders@, printing) {
            let i = choose|i: int| 0 <= i < db.orders@.len() && #[trigger] printing(db.orders@[i]);
            assert(db.orders@[i].status == orders::Status::Printing);
        } else if any(db.orders@, stuck) {
            let i = choose|i: int| 0 <= i < db.orders@.len() && #[trigger] stuck(db.orders@[i]);
            let void = crate::repo::shifts::void_issue_of(db.orders@[i].id);
            let k = choose|k: int| 0 <= k < db.receipts@.len() && #[trigger] void(db.receipts@[k]);
            assert(db.receipts@[k].order_id == Some(db.orders@[i].id));
        } else {
            let i = choose|i: int|
                0 <= i < db.prints@.len() && #[trigger] unanswered(db.prints@[i]);
            assert(db.prints@[i].outcome == receipts::Outcome::Unknown);
        }
    }
}

/// A night closes exactly when a cashier has counted the drawer, the night has
/// begun to close and does not end before it began, prints are resolved, and
/// every tab is settled.
pub proof fn when_a_night_can_close(db: Store, shift_id: i64, counted: Money, by: i64, at: i64)
    ensures
        close_refusal(db, shift_id, counted, by, at) is None <==> {
            &&& is_cashier(db, by)
            &&& counted.minor >= 0
            &&& row(db.shifts@, shift_id) matches Some(night) && night.status == Status::Closing
                && night.opened_at <= at
            &&& recovered(db)
            &&& forall|i: int|
                0 <= i < db.tabs@.len() ==> (#[trigger] db.tabs@[i]).status
                    == tabs::Status::Reconciled
        },
{
    let unsettled = crate::repo::shifts::is_unsettled();
    if !any(db.tabs@, unsettled) {
        assert forall|i: int| 0 <= i < db.tabs@.len() implies (#[trigger] db.tabs@[i]).status
            == tabs::Status::Reconciled by {
            assert(!unsettled(db.tabs@[i]));
        }
    } else {
        let i = choose|i: int| 0 <= i < db.tabs@.len() && #[trigger] unsettled(db.tabs@[i]);
        assert(db.tabs@[i].status != tabs::Status::Reconciled);
    }
}

/// Closing writes down what was counted, by whom and when, and changes nothing
/// else: neither the drawer, nor any other night.
pub proof fn closing_writes_down_the_count(
    before: Store,
    after: Store,
    shift_id: i64,
    counted: Money,
    by: i64,
    at: i64,
    closed: Shift,
    other: i64,
)
    requires
        close_refusal(before, shift_id, counted, by, at) is None,
        night_sealed(before, after, shift_id, counted, by, at, closed),
    ensures
        row(before.shifts@, shift_id) matches Some(was) && row(after.shifts@, shift_id) == Some(
            Shift {
                status: Status::Closed,
                closed_at: Some(at),
                closed_by: Some(by),
                counted_cash: Some(counted),
                ..was
            },
        ),
        other != shift_id ==> row(after.shifts@, other) == row(before.shifts@, other),
        after.cash == before.cash,
        after.tabs == before.tabs,
        after.payments == before.payments,
{
    let p = place(before.shifts@, shift_id)->0;
    place_is_first(before.shifts@, shift_id);
    place_is_first(before.shifts@, other);
    changing_keeps_places(before.shifts@, p, closed, shift_id);
    changing_keeps_places(before.shifts@, p, closed, other);
}

/// A night that begins to close stops trading, and nothing else about it or any
/// other night changes.
pub proof fn a_night_that_begins_to_close_stops_trading(
    before: Store,
    after: Store,
    shift_id: i64,
    closing: Shift,
    other: i64,
)
    requires
        night_closing(before, after, shift_id, closing),
    ensures
        !trades(after, shift_id),
        row(before.shifts@, shift_id) matches Some(was) && row(after.shifts@, shift_id) == Some(
            Shift { status: Status::Closing, ..was },
        ),
        other != shift_id ==> row(after.shifts@, other) == row(before.shifts@, other),
        after.cash == before.cash,
{
    let p = place(before.shifts@, shift_id)->0;
    place_is_first(before.shifts@, shift_id);
    place_is_first(before.shifts@, other);
    changing_keeps_places(before.shifts@, p, closing, shift_id);
    changing_keeps_places(before.shifts@, p, closing, other);
}

/// The night that is running is one that has not closed, and the latest of them.
pub proof fn the_running_night_is_the_latest_unclosed(db: Store)
    ensures
        match running_shift(db) {
            Some(night) => db.shifts@.contains(night) && night.status != Status::Closed && (
            forall|i: int|
                0 <= i < db.shifts@.len() && (#[trigger] db.shifts@[i]).status != Status::Closed
                    ==> db.shifts@[i].opened_at <= night.opened_at),
            None => forall|i: int|
                0 <= i < db.shifts@.len() ==> (#[trigger] db.shifts@[i]).status == Status::Closed,
        },
{
    crate::lists::what_is_listed_by_number_ranks();
    let wanted = |s: Shift| s.status != Status::Closed;
    let before = |a: Shift, b: Shift| a.opened_at > b.opened_at;
    a_list_is_exact(db.shifts@, is_unfinished(), opened_later(), wanted, before);
    let running = in_order(chosen(db.shifts@, is_unfinished()), opened_later());
    if running.len() > 0 {
        assert(db.shifts@.contains(running[0]) && wanted(running[0]));
    }
    assert forall|i: int|
        0 <= i < db.shifts@.len() && (#[trigger] db.shifts@[i]).status
            != Status::Closed implies running.len() > 0 && db.shifts@[i].opened_at
        <= running[0].opened_at by {
        assert(wanted(db.shifts@[i]));
        assert(running.contains(db.shifts@[i]));
        let k = choose|k: int| 0 <= k < running.len() && running[k] == db.shifts@[i];
        if k > 0 {
            assert(!before(running[k], running[0]));
        }
    }
}

/// A night is overdue from the moment after it should have ended, until it is
/// closed.
pub proof fn a_night_is_overdue_until_it_is_closed(night: Shift, now: i64)
    ensures
        overdue(night, now) <==> night.expected_end_at < now && (night.status == Status::Open
            || night.status == Status::Closing),
{
}

} // verus!

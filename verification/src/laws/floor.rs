//! Tabs on the floor: how they are found, what they come to, and whose they are.

use vstd::prelude::*;

use super::words::{
    a_search_finds_what_is_written, same_words, texts_are_compared_capitals_aside, written_in,
};
use super::{
    a_checked_sum_is_the_total, a_list_is_exact, a_text_that_is_not_blank_says_something,
    is_cashier, lists_exactly, says, serves, the_same_figures_come_to_the_same, total, totals_add,
    trades,
};
use crate::money::{fits, Money};
use crate::repo::orders::{
    create_refusal, draft_created, order_replaced, order_voided, replaced_refusal,
    replacement_created, replacement_refusal, voided_refusal, Line, NewDraft, Order,
};
use crate::repo::seq::Counter;
use crate::repo::tabs::{
    billed_on, carries_label, chars_in, cleaned, found_by, label_of, open_refusal, shown_before,
    tab_handed_over, tab_opened, tab_total, tabs_answering, transfer_refusal, NewTab, Status, Tab,
    Transfer,
};
use crate::repo::{orders, Why};
use crate::store::Store;
use crate::table::{changing_keeps_places, fresh_id, place, place_is_first, row};
use crate::text::trimmed;

verus! {

// ---------------------------------------------------------------------------
// Finding a tab
// ---------------------------------------------------------------------------

/// Whether an optional field of a tab has something written in it.
pub open spec fn reads(field: Option<String>, query: Seq<char>) -> bool {
    field matches Some(text) && written_in(text@, query)
}

/// Whether what is looked for is written somewhere on a tab, or is part of the
/// code or the name of whoever serves it.
pub open spec fn is_written_on(db: Store, tab: Tab, query: Seq<char>) -> bool {
    row(db.staff@, tab.waiter_id) matches Some(waiter) && {
        ||| written_in(tab.code@, query)
        ||| written_in(tab.display_label@, query)
        ||| reads(tab.table_no, query)
        ||| reads(tab.customer_name, query)
        ||| reads(tab.customer_phone, query)
        ||| reads(tab.custom_ref, query)
        ||| written_in(waiter.person.code@, query)
        ||| written_in(waiter.person.name@, query)
    }
}

/// Whether a tab is shown before another: an open one before a closed one, that
/// before a settled one, and of each the one that was opened later.
pub open spec fn is_shown_first(a: Tab, b: Tab) -> bool {
    ||| a.status == Status::Open && b.status != Status::Open
    ||| a.status == Status::Closed && b.status == Status::Reconciled
    ||| a.status == b.status && a.opened_at > b.opened_at
    ||| a.status == b.status && a.opened_at == b.opened_at && a.id > b.id
}

/// A search finds every tab on which what was typed is written, blanks around it
/// and capitals aside, and no other. What says nothing is not looked for.
pub proof fn a_search_finds_the_tabs_it_is_written_on(db: Store, query: Seq<char>)
    ensures
        tabs_answering(db, query) is Ok <==> says(query),
        tabs_answering(db, query) matches Ok(found) ==> lists_exactly(
            found,
            db.tabs@,
            |t: Tab| is_written_on(db, t, trimmed(query)),
            |a: Tab, b: Tab| is_shown_first(a, b),
        ),
{
    a_text_that_is_not_blank_says_something(query);
    crate::lists::what_is_listed_by_number_ranks();
    let part = trimmed(query);
    assert forall|t: Tab| #[trigger] is_written_on(db, t, part) == found_by(db, part)(t) by {
        a_search_finds_what_is_written(t.code@, part);
        a_search_finds_what_is_written(t.display_label@, part);
        if t.table_no is Some {
            a_search_finds_what_is_written(t.table_no->0@, part);
        }
        if t.customer_name is Some {
            a_search_finds_what_is_written(t.customer_name->0@, part);
        }
        if t.customer_phone is Some {
            a_search_finds_what_is_written(t.customer_phone->0@, part);
        }
        if t.custom_ref is Some {
            a_search_finds_what_is_written(t.custom_ref->0@, part);
        }
        if row(db.staff@, t.waiter_id) is Some {
            let waiter = row(db.staff@, t.waiter_id)->0.person;
            a_search_finds_what_is_written(waiter.code@, part);
            a_search_finds_what_is_written(waiter.name@, part);
        }
    }
    a_list_is_exact(
        db.tabs@,
        found_by(db, part),
        shown_before(),
        |t: Tab| is_written_on(db, t, part),
        |a: Tab, b: Tab| is_shown_first(a, b),
    );
}

/// What is written on no tab finds none.
pub proof fn what_is_written_nowhere_finds_nothing(db: Store, query: Seq<char>)
    requires
        forall|i: int|
            0 <= i < db.tabs@.len() ==> !is_written_on(db, #[trigger] db.tabs@[i], trimmed(query)),
    ensures
        tabs_answering(db, query) matches Ok(found) ==> found.len() == 0,
{
    a_search_finds_the_tabs_it_is_written_on(db, query);
    if tabs_answering(db, query) is Ok {
        let found = tabs_answering(db, query)->Ok_0;
        if found.len() > 0 {
            assert(db.tabs@.contains(found[0]));
        }
    }
}

// ---------------------------------------------------------------------------
// What a tab comes to
// ---------------------------------------------------------------------------

/// What a line is worth to a tab: its total where its order is issued and on
/// that tab, and nothing otherwise.
pub open spec fn worth_to(db: Store, tab_id: i64) -> spec_fn(Line) -> int {
    |l: Line|
        if row(db.orders@, l.order_id) matches Some(order) && order.tab_id == tab_id
            && order.status == orders::Status::Issued {
            l.line_total.minor as int
        } else {
            0
        }
}

/// What the lines of an order come to.
pub open spec fn rung_up(db: Store, order_id: i64) -> int {
    total(
        db.order_lines@,
        |l: Line|
            if l.order_id == order_id {
                l.line_total.minor as int
            } else {
                0
            },
    )
}

/// A tab comes to the lines of its issued orders. Drafts, orders at the printer,
/// and orders that were replaced, voided or given up add nothing.
pub proof fn a_tab_comes_to_its_issued_rounds(db: Store, tab_id: i64)
    ensures
        match tab_total(db, tab_id) {
            Ok(money) => row(db.tabs@, tab_id) is Some && money.minor == total(
                db.order_lines@,
                worth_to(db, tab_id),
            ),
            Err(_) => row(db.tabs@, tab_id) is None || (exists|n: int|
                0 <= n <= db.order_lines@.len() && !fits(
                    total(#[trigger] db.order_lines@.take(n), worth_to(db, tab_id)),
                )),
        },
{
    a_checked_sum_is_the_total(db.order_lines@, billed_on(db, tab_id), worth_to(db, tab_id));
}

/// A tab without an issued order comes to nothing.
pub proof fn a_tab_without_an_issued_round_comes_to_nothing(db: Store, tab_id: i64)
    requires
        row(db.tabs@, tab_id) is Some,
        forall|i: int|
            0 <= i < db.orders@.len() && (#[trigger] db.orders@[i]).tab_id == tab_id
                ==> db.orders@[i].status != orders::Status::Issued,
    ensures
        tab_total(db, tab_id) == Ok::<Money, Why>(Money { minor: 0 }),
{
    assert forall|n: int| 0 <= n <= db.order_lines@.len() implies total(
        #[trigger] db.order_lines@.take(n),
        worth_to(db, tab_id),
    ) == 0 by {
        nothing_adds_up(db, db.order_lines@.take(n), tab_id);
    }
    assert(db.order_lines@.take(db.order_lines@.len() as int) =~= db.order_lines@);
    assert(total(db.order_lines@, worth_to(db, tab_id)) == 0);
    a_tab_comes_to_its_issued_rounds(db, tab_id);
}

proof fn nothing_adds_up(db: Store, lines: Seq<Line>, tab_id: i64)
    requires
        forall|i: int|
            0 <= i < db.orders@.len() && (#[trigger] db.orders@[i]).tab_id == tab_id
                ==> db.orders@[i].status != orders::Status::Issued,
    ensures
        total(lines, worth_to(db, tab_id)) == 0,
    decreases lines.len(),
{
    if lines.len() > 0 {
        nothing_adds_up(db, lines.drop_last(), tab_id);
        place_is_first(db.orders@, lines.last().order_id);
    }
}

/// An order counts towards its tab while it is issued, and no longer: a change
/// of one order moves the total of its tab by what that order comes to, and
/// leaves every other tab alone.
pub proof fn an_order_counts_while_it_is_issued(
    before: Store,
    after: Store,
    order_id: i64,
    new: Order,
    tab_id: i64,
)
    requires
        after.tabs == before.tabs,
        after.order_lines == before.order_lines,
        place(before.orders@, order_id) matches Some(p) && new.id == before.orders@[p].id
            && new.tab_id == before.orders@[p].tab_id && after.orders@ == before.orders@.update(
            p,
            new,
        ),
    ensures
        tab_total(before, tab_id) matches Ok(was) ==> (tab_total(after, tab_id) matches Ok(is)
            ==> is.minor == was.minor + (if new.tab_id != tab_id || (new.status
            == orders::Status::Issued) == (row(before.orders@, order_id)->0.status
            == orders::Status::Issued) {
            0
        } else if new.status == orders::Status::Issued {
            rung_up(before, order_id)
        } else {
            -rung_up(before, order_id)
        })),
{
    place_is_first(before.orders@, order_id);
    let p = place(before.orders@, order_id)->0;
    let old_order = before.orders@[p];
    a_tab_comes_to_its_issued_rounds(before, tab_id);
    a_tab_comes_to_its_issued_rounds(after, tab_id);
    assert forall|id: i64| true implies (if id == order_id {
        #[trigger] row(after.orders@, id) == Some(new)
    } else {
        row(after.orders@, id) == row(before.orders@, id)
    }) by {
        changing_keeps_places(before.orders@, p, new, id);
        place_is_first(before.orders@, id);
    }
    let shift: int = if new.tab_id != tab_id || (new.status == orders::Status::Issued) == (
    old_order.status == orders::Status::Issued) {
        0
    } else if new.status == orders::Status::Issued {
        1
    } else {
        -1
    };
    let own = |l: Line|
        if l.order_id == order_id {
            l.line_total.minor as int
        } else {
            0
        };
    let moved = |l: Line| shift * own(l);
    let both = |l: Line| worth_to(before, tab_id)(l) + shift * own(l);
    totals_add(before.order_lines@, worth_to(before, tab_id), moved, both);
    scaled_total(before.order_lines@, own, shift, moved);
    assert forall|i: int| 0 <= i < before.order_lines@.len() implies worth_to(after, tab_id)(
        #[trigger] before.order_lines@[i],
    ) == both(before.order_lines@[i]) by {
        let l = before.order_lines@[i];
        assert(row(after.orders@, l.order_id) == if l.order_id == order_id {
            Some(new)
        } else {
            row(before.orders@, l.order_id)
        });
        assert(shift * own(l) == if shift == 0 {
            0
        } else if shift == 1 {
            own(l)
        } else {
            -own(l)
        });
    }
    the_same_figures_come_to_the_same(before.order_lines@, worth_to(after, tab_id), both);
    assert(shift * rung_up(before, order_id) == if shift == 0 {
        0
    } else if shift == 1 {
        rung_up(before, order_id)
    } else {
        -rung_up(before, order_id)
    });
}

proof fn scaled_total<T>(
    rows: Seq<T>,
    worth: spec_fn(T) -> int,
    times: int,
    scaled: spec_fn(T) -> int,
)
    requires
        forall|r: T| #[trigger] scaled(r) == times * worth(r),
    ensures
        total(rows, scaled) == times * total(rows, worth),
    decreases rows.len(),
{
    if rows.len() > 0 {
        scaled_total(rows.drop_last(), worth, times, scaled);
        assert(scaled(rows.last()) == times * worth(rows.last()));
        assert(times * (total(rows.drop_last(), worth) + worth(rows.last())) == times * total(
            rows.drop_last(),
            worth,
        ) + times * worth(rows.last())) by (nonlinear_arith);
    } else {
        assert(times * 0 == 0) by (nonlinear_arith);
    }
}

/// Voiding an order takes exactly its lines off its tab, and nothing off any
/// other tab.
pub proof fn voiding_takes_a_round_off_its_tab(
    before: Store,
    after: Store,
    order_id: i64,
    reason: Seq<char>,
    voided_at: i64,
    voided_by: i64,
    tab_id: i64,
)
    requires
        voided_refusal(before, order_id, reason, voided_at, voided_by) is None,
        order_voided(before, after, order_id, reason, voided_at, voided_by),
    ensures
        row(before.orders@, order_id) matches Some(order) && order.status == orders::Status::Issued
            && (tab_total(before, tab_id) matches Ok(was) ==> (tab_total(after, tab_id) matches Ok(
            is,
        ) ==> is.minor == was.minor - (if order.tab_id == tab_id {
            rung_up(before, order_id)
        } else {
            0
        }))),
        row(after.orders@, order_id) matches Some(order) && {
            &&& order.status == orders::Status::Voided
            &&& order.voided_at == Some(voided_at)
            &&& order.voided_by == Some(voided_by)
        },
        after.order_lines == before.order_lines,
{
    let p = place(before.orders@, order_id)->0;
    place_is_first(before.orders@, order_id);
    let new = after.orders@[p];
    changing_keeps_places(before.orders@, p, new, order_id);
    an_order_counts_while_it_is_issued(before, after, order_id, new, tab_id);
}

/// Replacing an order takes exactly its lines off its tab, and nothing off any
/// other tab: the order that replaces it is charged instead.
pub proof fn replacing_takes_a_round_off_its_tab(
    before: Store,
    after: Store,
    order_id: i64,
    tab_id: i64,
)
    requires
        replaced_refusal(before, order_id) is None,
        order_replaced(before, after, order_id),
    ensures
        row(before.orders@, order_id) matches Some(order) && order.status == orders::Status::Issued
            && (tab_total(before, tab_id) matches Ok(was) ==> (tab_total(after, tab_id) matches Ok(
            is,
        ) ==> is.minor == was.minor - (if order.tab_id == tab_id {
            rung_up(before, order_id)
        } else {
            0
        }))),
        row(after.orders@, order_id) matches Some(order) && order.status
            == orders::Status::Replaced,
{
    let p = place(before.orders@, order_id)->0;
    place_is_first(before.orders@, order_id);
    let new = after.orders@[p];
    changing_keeps_places(before.orders@, p, new, order_id);
    an_order_counts_while_it_is_issued(before, after, order_id, new, tab_id);
}

// ---------------------------------------------------------------------------
// Opening and handing over
// ---------------------------------------------------------------------------

/// A tab opens exactly when a cashier opens it, for a waiter who works here, in
/// an open night, under a name that no open tab has, capitals aside.
pub proof fn when_a_tab_can_open(db: Store, new: NewTab<'_>)
    ensures
        open_refusal(db, new) is None <==> {
            &&& is_cashier(db, new.opened_by)
            &&& serves(db, new.waiter_id)
            &&& trades(db, new.opened_shift_id)
            &&& label_of(new.reference) matches Ok(label) && (forall|i: int|
                0 <= i < db.tabs@.len() && (#[trigger] db.tabs@[i]).status == Status::Open
                    ==> !same_words(db.tabs@[i].display_label@, label))
            &&& fresh_id(db.tabs@) is Some
            &&& db.sequences.tab < i64::MAX
        },
{
    if label_of(new.reference) is Ok {
        let label = label_of(new.reference)->Ok_0;
        assert forall|t: Tab| #[trigger] carries_label(label)(t) == (t.status == Status::Open
            && same_words(t.display_label@, label)) by {
            texts_are_compared_capitals_aside(t.display_label@, label);
        }
        if forall|i: int|
            0 <= i < db.tabs@.len() && (#[trigger] db.tabs@[i]).status == Status::Open
                ==> !same_words(db.tabs@[i].display_label@, label) {
            assert forall|i: int| 0 <= i < db.tabs@.len() implies !#[trigger] carries_label(label)(
                db.tabs@[i],
            ) by {}
        } else {
            let i = choose|i: int|
                0 <= i < db.tabs@.len() && (#[trigger] db.tabs@[i]).status == Status::Open
                    && same_words(db.tabs@[i].display_label@, label);
            assert(carries_label(label)(db.tabs@[i]));
        }
    }
}

/// A tab that was opened is there: it is open, it belongs to the waiter and the
/// night it was opened for, it bears the next number and its own name, and no
/// tab that was there before has changed.
pub proof fn an_opened_tab_is_there(
    before: Store,
    after: Store,
    new: NewTab<'_>,
    opened: Tab,
    other: i64,
)
    requires
        open_refusal(before, new) is None,
        tab_opened(before, after, new, opened),
    ensures
        row(after.tabs@, opened.id) == Some(opened),
        row(before.tabs@, opened.id) is None,
        row(before.tabs@, other) is Some ==> row(after.tabs@, other) == row(before.tabs@, other),
        opened.status == Status::Open,
        opened.waiter_id == new.waiter_id,
        opened.opened_shift_id == new.opened_shift_id,
        opened.opened_by == new.opened_by,
        opened.opened_at == new.opened_at,
        opened.reference_mode == new.reference.mode,
        !opened.is_comped,
        label_of(new.reference) == Ok::<Seq<char>, Seq<char>>(opened.display_label@),
        chars_in(opened.table_no) == cleaned(new.reference.table_no),
        chars_in(opened.customer_name) == cleaned(new.reference.customer_name),
        chars_in(opened.customer_phone) == cleaned(new.reference.customer_phone),
        chars_in(opened.custom_ref) == cleaned(new.reference.custom_ref),
        chars_in(opened.customer_tin) == cleaned(new.reference.customer_tin),
        opened.closed_shift_id is None && opened.closed_at is None && opened.closed_by is None,
        opened.code@ == crate::repo::seq::printed(Counter::Tab, before.sequences.tab),
        after.sequences.tab == before.sequences.tab + 1,
        after.orders == before.orders,
        after.payments == before.payments,
{
    crate::table::a_fresh_id_is_unused(before.tabs@);
    place_is_first(before.tabs@, opened.id);
    crate::table::writing_keeps_places(before.tabs@, opened, opened.id);
    crate::table::writing_keeps_places(before.tabs@, opened, other);
}

/// A tab is handed over exactly when a cashier does so in an open night, the tab
/// is open, and it goes to another waiter who works here.
pub proof fn when_a_tab_can_be_handed_over(db: Store, transfer: Transfer<'_>)
    ensures
        transfer_refusal(db, transfer) is None <==> {
            &&& is_cashier(db, transfer.transferred_by)
            &&& serves(db, transfer.to_waiter_id)
            &&& trades(db, transfer.shift_id)
            &&& row(db.tabs@, transfer.tab_id) matches Some(found) && found.status == Status::Open
                && found.waiter_id != transfer.to_waiter_id
            &&& fresh_id(db.transfers@) is Some
        },
{
}

/// Handing a tab over changes whose it is and nothing else about it or about any
/// other tab, and writes down from whom to whom.
pub proof fn handing_over_changes_whose_a_tab_is(
    before: Store,
    after: Store,
    transfer: Transfer<'_>,
    moved: Tab,
    other: i64,
)
    requires
        transfer_refusal(before, transfer) is None,
        tab_handed_over(before, after, transfer, moved),
    ensures
        row(before.tabs@, transfer.tab_id) matches Some(was) && row(after.tabs@, transfer.tab_id)
            == Some(Tab { waiter_id: transfer.to_waiter_id, ..was }) && ({
            let line = after.transfers@.last();
            &&& line.from_waiter_id == was.waiter_id
            &&& line.to_waiter_id == transfer.to_waiter_id
            &&& line.tab_id == transfer.tab_id
            &&& line.shift_id == transfer.shift_id
            &&& line.transferred_by == transfer.transferred_by
            &&& line.transferred_at == transfer.transferred_at
            &&& after.transfers@.drop_last() == before.transfers@
            &&& fresh_id(before.transfers@) == Some(line.id)
        }),
        other != transfer.tab_id ==> row(after.tabs@, other) == row(before.tabs@, other),
        after.orders == before.orders,
        after.payments == before.payments,
        tab_total(after, other) == tab_total(before, other),
{
    let p = place(before.tabs@, transfer.tab_id)->0;
    place_is_first(before.tabs@, transfer.tab_id);
    place_is_first(before.tabs@, other);
    changing_keeps_places(before.tabs@, p, moved, transfer.tab_id);
    changing_keeps_places(before.tabs@, p, moved, other);
    assert(billed_on(after, other) =~= billed_on(before, other));
}

// ---------------------------------------------------------------------------
// Ringing in
// ---------------------------------------------------------------------------

/// A draft is started exactly when a cashier starts it, in an open night, on an
/// open tab.
pub proof fn when_a_draft_can_start(db: Store, draft: NewDraft)
    ensures
        create_refusal(db, draft) is None <==> {
            &&& is_cashier(db, draft.cashier_id)
            &&& trades(db, draft.shift_id)
            &&& row(db.tabs@, draft.tab_id) matches Some(found) && found.status == Status::Open
            &&& fresh_id(db.orders@) is Some
        },
{
}

/// A draft belongs to whoever holds its tab when it is started, and changes no
/// other order and no total.
pub proof fn a_draft_belongs_to_the_holder_of_its_tab(
    before: Store,
    after: Store,
    draft: NewDraft,
    order: Order,
    other: i64,
)
    requires
        create_refusal(before, draft) is None,
        draft_created(before, after, draft, order),
    ensures
        row(after.orders@, order.id) == Some(order),
        row(before.orders@, other) is Some ==> row(after.orders@, other) == row(
            before.orders@,
            other,
        ),
        order.status == orders::Status::Draft,
        row(before.tabs@, draft.tab_id) matches Some(found) && order.waiter_id == found.waiter_id,
        order.tab_id == draft.tab_id,
        order.shift_id == draft.shift_id,
        order.cashier_id == draft.cashier_id,
        order.created_at == draft.created_at,
        order.issued_at is None,
        order.replaces_order_id is None,
        after.order_lines == before.order_lines,
        after.movements == before.movements,
{
    crate::table::a_fresh_id_is_unused(before.orders@);
    place_is_first(before.orders@, order.id);
    crate::table::writing_keeps_places(before.orders@, order, order.id);
    crate::table::writing_keeps_places(before.orders@, order, other);
}

/// A correction is started exactly when a cashier starts it for an issued order,
/// while the night it was sold in and its tab are still open. It keeps the
/// original's tab, night and waiter, and names what it replaces.
pub proof fn a_correction_keeps_where_a_round_was_sold(
    before: Store,
    after: Store,
    original_order_id: i64,
    cashier_id: i64,
    created_at: i64,
    order: Order,
)
    requires
        replacement_created(before, after, original_order_id, cashier_id, created_at, order),
    ensures
        replacement_refusal(before, original_order_id, cashier_id) is None <==> {
            &&& is_cashier(before, cashier_id)
            &&& row(before.orders@, original_order_id) matches Some(original) && original.status
                == orders::Status::Issued && trades(before, original.shift_id) && (row(
                before.tabs@,
                original.tab_id,
            ) matches Some(found) && found.status == Status::Open)
            &&& fresh_id(before.orders@) is Some
        },
        row(after.orders@, order.id) == Some(order),
        row(before.orders@, original_order_id) matches Some(original) && {
            &&& order.tab_id == original.tab_id
            &&& order.shift_id == original.shift_id
            &&& order.waiter_id == original.waiter_id
            &&& order.replaces_order_id == Some(original_order_id)
            &&& order.root_order_id == Some(
                match original.root_order_id {
                    Some(root) => root,
                    None => original_order_id,
                },
            )
        },
        order.cashier_id == cashier_id,
        order.created_at == created_at,
        order.status == orders::Status::Draft,
        order.issued_at is None && order.void_reason is None && order.voided_at is None
            && order.voided_by is None,
        after.orders@ == before.orders@.push(order),
        after == (Store { orders: after.orders, ..before }),
{
    crate::table::a_fresh_id_is_unused(before.orders@);
    place_is_first(before.orders@, order.id);
    place_is_first(before.orders@, original_order_id);
    crate::table::writing_keeps_places(before.orders@, order, order.id);
}

} // verus!

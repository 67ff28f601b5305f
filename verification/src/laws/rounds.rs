//! The life of a round: what is rung into it, what it can become, and when.

use vstd::prelude::*;

use super::figures::is_nearest;

use super::shelf::{a_menu_entry_is_found_by_its_identity, can_be_sold, offers};
use super::{a_row_is_found_where_there_is_one, is_cashier, says, there_is, trades};
use crate::money::{fits, Milli};
use crate::repo::catalogue::on_menu;
use crate::repo::orders::{
    abandon_refusal, add_line_refusal, carry_refusal, copy_line_refusal, detach_refusal,
    draft_carried, issuing_refusal, line_copied, line_rung, live_receipt_of, live_slip_of,
    order_abandoned, order_detached, order_issued, order_replaced, order_returned, order_sent,
    order_voided, printing_refusal, replaced_refusal, replaces, return_refusal, slip_of, undecided,
    voided_refusal, voids, CorrectionKind, CorrectionRow, Line, Order, Status,
};
use crate::repo::receipts::{
    is_part, route, routed, slip_for, slips_match, Attempt, Kind, Outcome, Receipt, Stage,
};
use crate::repo::{receipts, tabs};
use crate::store::Store;
use crate::table::{
    a_fresh_id_is_unused, any, changing_keeps_places, fresh_id, place, place_is_first, row,
    writing_keeps_places,
};
use crate::text::trimmed;

verus! {

// ---------------------------------------------------------------------------
// Ringing in
// ---------------------------------------------------------------------------

/// Whether an order is a draft.
pub open spec fn is_still_a_draft(db: Store, order_id: i64) -> bool {
    row(db.orders@, order_id) matches Some(order) && order.status == Status::Draft
}

/// Whether an entry of the menu is sold on the order that an order corrects.
pub open spec fn is_on_the_corrected_order(db: Store, order_id: i64, sale_item_id: i64) -> bool {
    row(db.orders@, order_id) matches Some(order) && order.replaces_order_id is Some && there_is(
        db.order_lines@,
        |l: Line|
            l.order_id == order.replaces_order_id->0 && l.sale_item_id == sale_item_id,
    )
}

/// Something is rung into an order exactly while the order is a draft, the menu
/// offers it, more than nothing of it is wanted and its total can be worked out;
/// and, on a correction, only what the corrected order did not have.
pub proof fn when_something_can_be_rung_in(
    db: Store,
    order_id: i64,
    sale_item_id: i64,
    quantity: Milli,
)
    ensures
        add_line_refusal(db, order_id, sale_item_id, quantity) is None <==> {
            &&& is_still_a_draft(db, order_id)
            &&& !is_on_the_corrected_order(db, order_id, sale_item_id)
            &&& row(db.sale_items@, sale_item_id) matches Some(listed) && can_be_sold(db, listed)
            &&& on_menu(db, sale_item_id) matches Some(item) && item.price.minor >= 0 && fits(
                quantity.thousandths * item.price.minor + 500,
            )
            &&& quantity.thousandths > 0
            &&& fresh_id(db.order_lines@) is Some
        },
{
    a_menu_entry_is_found_by_its_identity(db, sale_item_id);
    if row(db.orders@, order_id) is Some && row(db.orders@, order_id)->0.replaces_order_id is Some {
        let original = row(db.orders@, order_id)->0.replaces_order_id->0;
        let order = row(db.orders@, order_id)->0;
        a_row_is_found_where_there_is_one(
            db.order_lines@,
            crate::repo::orders::line_selling(original, sale_item_id),
            |l: Line|
                l.order_id == order.replaces_order_id->0 && l.sale_item_id == sale_item_id,
        );
    }
}

/// What is rung in is a new line of its order, at the price in force and made by
/// the recipe in force; its total is quantity times price, to the nearest minor
/// unit. No other line changes.
pub proof fn what_is_rung_in_costs_what_the_menu_says(
    before: Store,
    after: Store,
    order_id: i64,
    sale_item_id: i64,
    quantity: Milli,
    line: Line,
)
    requires
        line_rung(before, after, order_id, sale_item_id, quantity, line),
    ensures
        after.order_lines@ == before.order_lines@.push(line),
        after == (Store { order_lines: after.order_lines, ..before }),
        row(after.order_lines@, line.id) == Some(line),
        line.order_id == order_id,
        line.sale_item_id == sale_item_id,
        line.quantity == quantity,
        is_nearest(
            line.line_total.minor as int,
            line.quantity.thousandths * line.unit_price.minor,
            1_000,
        ),
        on_menu(before, sale_item_id) matches Some(item) && {
            &&& row(before.sale_items@, sale_item_id) matches Some(listed) && offers(
                item,
                before,
                listed,
            )
            &&& line.sale_item_name@ == item.name@
            &&& line.recipe_id == item.recipe_id
            &&& line.unit_price == item.price
        },
{
    a_menu_entry_is_found_by_its_identity(before, sale_item_id);
    a_fresh_id_is_unused(before.order_lines@);
    place_is_first(before.order_lines@, line.id);
    writing_keeps_places(before.order_lines@, line, line.id);
}

/// A line is copied into a correction exactly while the correction is a draft
/// and the line stands on the order that it corrects. The copy keeps the item,
/// the recipe and the price; only the quantity is new.
pub proof fn a_copied_line_keeps_recipe_and_price(
    before: Store,
    after: Store,
    replacement_order_id: i64,
    original_line_id: i64,
    quantity: Milli,
    line: Line,
)
    ensures
        copy_line_refusal(before, replacement_order_id, original_line_id, quantity) is None <==> {
            &&& is_still_a_draft(before, replacement_order_id)
            &&& row(before.order_lines@, original_line_id) matches Some(original) && row(
                before.orders@,
                replacement_order_id,
            )->0.replaces_order_id == Some(original.order_id) && original.unit_price.minor >= 0
                && fits(quantity.thousandths * original.unit_price.minor + 500)
            &&& quantity.thousandths > 0
            &&& fresh_id(before.order_lines@) is Some
        },
        line_copied(before, after, replacement_order_id, original_line_id, quantity, line) ==> {
            &&& after.order_lines@ == before.order_lines@.push(line)
            &&& after == (Store { order_lines: after.order_lines, ..before })
            &&& row(after.order_lines@, line.id) == Some(line)
            &&& line.order_id == replacement_order_id
            &&& line.quantity == quantity
            &&& is_nearest(
                line.line_total.minor as int,
                line.quantity.thousandths * line.unit_price.minor,
                1_000,
            )
            &&& row(before.order_lines@, original_line_id) matches Some(original) && {
                &&& line.sale_item_id == original.sale_item_id
                &&& line.sale_item_name@ == original.sale_item_name@
                &&& line.recipe_id == original.recipe_id
                &&& line.unit_price == original.unit_price
            }
        },
{
    a_fresh_id_is_unused(before.order_lines@);
    place_is_first(before.order_lines@, line.id);
    writing_keeps_places(before.order_lines@, line, line.id);
}

// ---------------------------------------------------------------------------
// The paper of a round
// ---------------------------------------------------------------------------

/// Whether a place is named on some product that an order takes.
pub open spec fn is_sent_to(db: Store, order_id: i64, word: Seq<char>) -> bool {
    exists|i: int, j: int|
        0 <= i < db.order_lines@.len() && 0 <= j < db.recipe_lines@.len() && (
        #[trigger] db.order_lines@[i]).order_id == order_id && (
        #[trigger] db.recipe_lines@[j]).recipe_id == db.order_lines@[i].recipe_id && (row(
            db.products@,
            db.recipe_lines@[j].product_id,
        ) matches Some(listed) && listed.product.destination@ == word)
}

/// Whether a slip of an order waits for a place, or was printed or replaced by
/// hand there.
pub open spec fn has_paper(db: Store, order_id: i64, word: Seq<char>, waiting: bool) -> bool {
    there_is(
        db.receipts@,
        |r: Receipt|
            {
                &&& r.order_id == Some(order_id)
                &&& r.kind == Kind::Issue
                &&& r.destination matches Some(destination) && destination.word() == word
                &&& if waiting {
                    r.status == receipts::Status::Pending
                } else {
                    r.status == receipts::Status::Printed || r.status == receipts::Status::Failed
                }
            },
    )
}

/// The paper of a round is in order only where every place that makes something
/// of it has its slip, and every slip that is not void goes to such a place.
pub proof fn every_place_has_its_slip(db: Store, order_id: i64, stage: Stage)
    requires
        slips_match(db, order_id, stage),
    ensures
        forall|word: Seq<char>| #[trigger]
            is_sent_to(db, order_id, word) ==> has_paper(
                db,
                order_id,
                word,
                stage == Stage::Waiting,
            ),
        forall|k: int|
            #![trigger db.receipts@[k]]
            0 <= k < db.receipts@.len() && db.receipts@[k].order_id == Some(order_id)
                && db.receipts@[k].kind == Kind::Issue && db.receipts@[k].status
                != receipts::Status::Void ==> db.receipts@[k].destination is Some && is_sent_to(
                db,
                order_id,
                db.receipts@[k].destination->0.word(),
            ) && (stage == Stage::Resolved ==> db.receipts@[k].status == receipts::Status::Printed
                || db.receipts@[k].status == receipts::Status::Failed),
        exists|i: int| 0 <= i < db.order_lines@.len() && (#[trigger] db.order_lines@[i]).order_id
            == order_id,
{
    assert forall|word: Seq<char>| #[trigger] is_sent_to(db, order_id, word) implies has_paper(
        db,
        order_id,
        word,
        stage == Stage::Waiting,
    ) by {
        let (i, j) = choose|i: int, j: int|
            0 <= i < db.order_lines@.len() && 0 <= j < db.recipe_lines@.len() && (
            #[trigger] db.order_lines@[i]).order_id == order_id && (
            #[trigger] db.recipe_lines@[j]).recipe_id == db.order_lines@[i].recipe_id && (row(
                db.products@,
                db.recipe_lines@[j].product_id,
            ) matches Some(listed) && listed.product.destination@ == word);
        assert(route(db, order_id, i, j) == Some(word));
        assert(any(db.receipts@, slip_for(order_id, word, stage)));
        let waiting = stage == Stage::Waiting;
        a_row_is_found_where_there_is_one(
            db.receipts@,
            slip_for(order_id, word, stage),
            |r: Receipt|
                {
                    &&& r.order_id == Some(order_id)
                    &&& r.kind == Kind::Issue
                    &&& r.destination matches Some(destination) && destination.word() == word
                    &&& if waiting {
                        r.status == receipts::Status::Pending
                    } else {
                        r.status == receipts::Status::Printed || r.status
                            == receipts::Status::Failed
                    }
                },
        );
    }
    assert forall|word: Seq<char>| #[trigger] routed(db, order_id, word) implies is_sent_to(
        db,
        order_id,
        word,
    ) by {
        let (i, j) = choose|i: int, j: int| #[trigger] route(db, order_id, i, j) == Some(word);
        assert(db.order_lines@[i].order_id == order_id);
        assert(db.recipe_lines@[j].recipe_id == db.order_lines@[i].recipe_id);
    }
    let (i, j) = choose|i: int, j: int| #[trigger] is_part(db, order_id, i, j);
    assert(db.order_lines@[i].order_id == order_id);
}

// ---------------------------------------------------------------------------
// What a round can become
// ---------------------------------------------------------------------------

/// Whether the tab of an order is open.
pub open spec fn sits_on_an_open_tab(db: Store, order: Order) -> bool {
    row(db.tabs@, order.tab_id) matches Some(found) && found.status == tabs::Status::Open
}

/// Whether an order has paper that is not void.
pub open spec fn has_live_paper(db: Store, order_id: i64) -> bool {
    there_is(
        db.receipts@,
        |r: Receipt| r.order_id == Some(order_id) && r.status != receipts::Status::Void,
    )
}

/// Whether the printer has not said what became of a slip of an order.
pub open spec fn is_unanswered(db: Store, order_id: i64) -> bool {
    there_is(
        db.prints@,
        |a: Attempt|
            a.outcome == Outcome::Unknown && (row(db.receipts@, a.receipt_id) matches Some(r)
                && r.order_id == Some(order_id)),
    )
}

/// A draft goes to the printer only from an open tab, and comes back from it only
/// once every slip is void. It is issued from the printer, on an open tab, once
/// no slip is left without an answer.
pub proof fn when_a_round_can_be_sent_returned_and_issued(db: Store, order_id: i64)
    ensures
        printing_refusal(db, order_id) is None <==> {
            &&& row(db.orders@, order_id) matches Some(order) && order.status == Status::Draft
                && sits_on_an_open_tab(db, order)
            &&& slips_match(db, order_id, Stage::Waiting)
        },
        return_refusal(db, order_id) is None <==> {
            &&& row(db.orders@, order_id) matches Some(order) && order.status == Status::Printing
            &&& there_is(
                db.receipts@,
                |r: Receipt| r.order_id == Some(order_id) && r.kind == Kind::Issue,
            )
            &&& !there_is(
                db.receipts@,
                |r: Receipt|
                    r.order_id == Some(order_id) && r.kind == Kind::Issue && r.status
                        != receipts::Status::Void,
            )
        },
        issuing_refusal(db, order_id) is None <==> {
            &&& row(db.orders@, order_id) matches Some(order) && order.status == Status::Printing
                && sits_on_an_open_tab(db, order)
            &&& slips_match(db, order_id, Stage::Resolved)
            &&& !is_unanswered(db, order_id)
        },
{
    a_row_is_found_where_there_is_one(
        db.receipts@,
        slip_of(order_id),
        |r: Receipt| r.order_id == Some(order_id) && r.kind == Kind::Issue,
    );
    a_row_is_found_where_there_is_one(
        db.receipts@,
        live_slip_of(order_id),
        |r: Receipt|
            r.order_id == Some(order_id) && r.kind == Kind::Issue && r.status
                != receipts::Status::Void,
    );
    a_row_is_found_where_there_is_one(
        db.prints@,
        undecided(db, order_id),
        |a: Attempt|
            a.outcome == Outcome::Unknown && (row(db.receipts@, a.receipt_id) matches Some(r)
                && r.order_id == Some(order_id)),
    );
}

/// Only a draft moves into another night, and only into one that is open. Only
/// a draft without live paper is given up; and only a correction of that kind
/// lets go of its original.
pub proof fn when_a_draft_can_move_or_be_given_up(db: Store, order_id: i64, new_shift_id: i64)
    ensures
        carry_refusal(db, order_id, new_shift_id) is None <==> is_still_a_draft(db, order_id)
            && trades(db, new_shift_id),
        abandon_refusal(db, order_id) is None <==> is_still_a_draft(db, order_id)
            && !has_live_paper(db, order_id),
        detach_refusal(db, order_id) is None <==> is_still_a_draft(db, order_id) && row(
            db.orders@,
            order_id,
        )->0.replaces_order_id is Some && !has_live_paper(db, order_id),
{
    a_row_is_found_where_there_is_one(
        db.receipts@,
        live_receipt_of(order_id),
        |r: Receipt| r.order_id == Some(order_id) && r.status != receipts::Status::Void,
    );
}

/// Whether an issued order stands in the ledger as what replaces another.
pub open spec fn was_replaced(db: Store, order_id: i64) -> bool {
    there_is(
        db.corrections@,
        |c: CorrectionRow|
            c.original_order_id == order_id && c.kind == CorrectionKind::Correction
                && c.replacement_order_id is Some && (row(
                db.orders@,
                c.replacement_order_id->0,
            ) matches Some(replacement) && replacement.status == Status::Issued),
    )
}

/// Only an issued order is replaced or voided: replaced once an issued order
/// stands in the ledger in its place, voided once a cashier wrote the void there
/// with that very reason.
pub proof fn when_a_round_can_be_replaced_or_voided(
    db: Store,
    order_id: i64,
    reason: Seq<char>,
    voided_at: i64,
    voided_by: i64,
)
    ensures
        replaced_refusal(db, order_id) is None <==> {
            &&& row(db.orders@, order_id) matches Some(order) && order.status == Status::Issued
            &&& was_replaced(db, order_id)
        },
        voided_refusal(db, order_id, reason, voided_at, voided_by) is None <==> {
            &&& is_cashier(db, voided_by)
            &&& says(reason)
            &&& row(db.orders@, order_id) matches Some(order) && order.status == Status::Issued
            &&& there_is(
                db.corrections@,
                |c: CorrectionRow|
                    c.original_order_id == order_id && c.kind == CorrectionKind::Void && c.reason@
                        == trimmed(reason) && c.created_at == voided_at && c.created_by
                        == voided_by,
            )
        },
{
    super::a_text_that_is_not_blank_says_something(reason);
    a_row_is_found_where_there_is_one(
        db.corrections@,
        replaces(db, order_id),
        |c: CorrectionRow|
            c.original_order_id == order_id && c.kind == CorrectionKind::Correction
                && c.replacement_order_id is Some && (row(
                db.orders@,
                c.replacement_order_id->0,
            ) matches Some(replacement) && replacement.status == Status::Issued),
    );
    a_row_is_found_where_there_is_one(
        db.corrections@,
        voids(order_id, trimmed(reason), voided_at, voided_by),
        |c: CorrectionRow|
            c.original_order_id == order_id && c.kind == CorrectionKind::Void && c.reason@
                == trimmed(reason) && c.created_at == voided_at && c.created_by == voided_by,
    );
}

/// Whether one order changed and nothing else did.
pub open spec fn only_this_order_changed(
    before: Store,
    after: Store,
    order_id: i64,
    changed: Order,
) -> bool {
    &&& row(after.orders@, order_id) == Some(changed)
    &&& forall|other: i64|
        other != order_id ==> #[trigger] row(after.orders@, other) == row(before.orders@, other)
    &&& after == (Store { orders: after.orders, ..before })
}

proof fn a_changed_order_is_there(before: Store, after: Store, order_id: i64, changed: Order)
    requires
        place(before.orders@, order_id) matches Some(p) && after.orders@ == before.orders@.update(
            p,
            changed,
        ),
        changed.id == order_id,
        after == (Store { orders: after.orders, ..before }),
    ensures
        only_this_order_changed(before, after, order_id, changed),
{
    let p = place(before.orders@, order_id)->0;
    place_is_first(before.orders@, order_id);
    changing_keeps_places(before.orders@, p, changed, order_id);
    assert forall|other: i64| other != order_id implies #[trigger] row(after.orders@, other)
        == row(before.orders@, other) by {
        place_is_first(before.orders@, other);
        changing_keeps_places(before.orders@, p, changed, other);
    }
}

/// A step in the life of a round changes that round alone: its status, and what
/// the step writes down.
pub proof fn a_step_changes_one_round(
    before: Store,
    after: Store,
    order_id: i64,
    order: Order,
    at: i64,
    shift_id: i64,
)
    requires
        row(before.orders@, order_id) == Some(order),
    ensures
        draft_carried(before, after, order_id, shift_id) ==> only_this_order_changed(
            before,
            after,
            order_id,
            (Order { shift_id, ..order }),
        ),
        order_sent(before, after, order_id) ==> only_this_order_changed(
            before,
            after,
            order_id,
            (Order { status: Status::Printing, ..order }),
        ),
        order_returned(before, after, order_id) ==> only_this_order_changed(
            before,
            after,
            order_id,
            (Order { status: Status::Draft, ..order }),
        ),
        order_issued(before, after, order_id, at) ==> only_this_order_changed(
            before,
            after,
            order_id,
            (Order { status: Status::Issued, issued_at: Some(at), ..order }),
        ),
        order_abandoned(before, after, order_id) ==> only_this_order_changed(
            before,
            after,
            order_id,
            (Order { status: Status::Abandoned, ..order }),
        ),
        order_replaced(before, after, order_id) ==> only_this_order_changed(
            before,
            after,
            order_id,
            (Order { status: Status::Replaced, ..order }),
        ),
        order_detached(before, after, order_id) ==> only_this_order_changed(
            before,
            after,
            order_id,
            (Order { replaces_order_id: None, ..order }),
        ),
{
    place_is_first(before.orders@, order_id);
    if draft_carried(before, after, order_id, shift_id) {
        a_changed_order_is_there(before, after, order_id, Order { shift_id, ..order });
    }
    if order_sent(before, after, order_id) {
        a_changed_order_is_there(
            before,
            after,
            order_id,
            Order { status: Status::Printing, ..order },
        );
    }
    if order_returned(before, after, order_id) {
        a_changed_order_is_there(
            before,
            after,
            order_id,
            Order { status: Status::Draft, ..order },
        );
    }
    if order_issued(before, after, order_id, at) {
        a_changed_order_is_there(
            before,
            after,
            order_id,
            Order { status: Status::Issued, issued_at: Some(at), ..order },
        );
    }
    if order_abandoned(before, after, order_id) {
        a_changed_order_is_there(
            before,
            after,
            order_id,
            Order { status: Status::Abandoned, ..order },
        );
    }
    if order_replaced(before, after, order_id) {
        a_changed_order_is_there(
            before,
            after,
            order_id,
            Order { status: Status::Replaced, ..order },
        );
    }
    if order_detached(before, after, order_id) {
        a_changed_order_is_there(
            before,
            after,
            order_id,
            Order { replaces_order_id: None, ..order },
        );
    }
}

/// A voided round says why, when and by whom, and keeps everything else.
pub proof fn a_voided_round_says_why(
    before: Store,
    after: Store,
    order_id: i64,
    reason: Seq<char>,
    voided_at: i64,
    voided_by: i64,
)
    requires
        order_voided(before, after, order_id, reason, voided_at, voided_by),
    ensures
        row(before.orders@, order_id) matches Some(order) && (row(after.orders@, order_id) matches
            Some(voided) && {
            &&& only_this_order_changed(before, after, order_id, voided)
            &&& voided == (Order {
                status: Status::Voided,
                void_reason: voided.void_reason,
                voided_at: Some(voided_at),
                voided_by: Some(voided_by),
                ..order
            })
            &&& voided.void_reason matches Some(text) && text@ == trimmed(reason)
        }),
{
    place_is_first(before.orders@, order_id);
    let p = place(before.orders@, order_id)->0;
    a_changed_order_is_there(before, after, order_id, after.orders@[p]);
}

} // verus!

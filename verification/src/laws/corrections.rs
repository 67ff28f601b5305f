//! Correcting and voiding a round: what came back, what was lost, and what the
//! ledger keeps.

use vstd::prelude::*;

use super::rounds::has_live_paper;
use super::{
    a_row_is_found_where_there_is_one, a_text_that_is_not_blank_says_something, is_cashier,
    lists_exactly, says, there_is, trades,
};
use crate::money::Milli;
use crate::repo::orders::{
    apply_refusal, clear_refusal, completes, correction_applied, correction_cleared,
    correction_frozen, delta_says, deltas_of, deltas_refusal, disposition_objection,
    first_objection, freeze_correction_refusal, frozen_before, line_of, lines_of, live_receipt_of,
    order_products, record_void_refusal, repeats, replacement_products, speaks_of, typed_receipt,
    void_recorded, Correction, CorrectionDelta, CorrectionKind, CorrectionRow, DeltaRow, Line,
    NewCorrection, NewVoid, Order, PendingCorrection, PendingRow, Status,
};
use crate::repo::receipts::{Kind, Receipt};
use crate::repo::{receipts, tabs};
use crate::store::Store;
use crate::table::{
    a_fresh_id_is_unused, chosen, fresh_id, in_order, place_is_first, row, writing_keeps_places,
};
use crate::tally::{amount_of, lists};
use crate::text::trimmed;

verus! {

// ---------------------------------------------------------------------------
// What a correction takes off and gives back
// ---------------------------------------------------------------------------

/// What a correction makes of one product accounts for all of it: what was taken
/// off the bill was either returned or written off, and nothing is returned that
/// was not taken off.
pub proof fn what_is_taken_off_is_returned_or_lost(
    delta: CorrectionDelta,
    product_id: i64,
    before: Milli,
    after: Milli,
    returned: Milli,
    note: Seq<char>,
)
    requires
        delta_says(delta, product_id, before, after, returned, note),
    ensures
        disposition_objection(before, after, returned) is None <==> {
            &&& before.thousandths >= 0
            &&& after.thousandths >= 0
            &&& returned.thousandths >= 0
            &&& after.thousandths >= before.thousandths ==> returned.thousandths == 0
            &&& after.thousandths < before.thousandths ==> after.thousandths + returned.thousandths
                <= before.thousandths
        },
        disposition_objection(before, after, returned) is None ==> {
            &&& delta.before.thousandths + delta.delta.thousandths == delta.after.thousandths
            &&& delta.after.thousandths <= delta.before.thousandths
                ==> delta.after.thousandths + delta.returned.thousandths
                + delta.written_off.thousandths == delta.before.thousandths
            &&& delta.after.thousandths >= delta.before.thousandths ==> delta.returned.thousandths
                == 0 && delta.written_off.thousandths == 0
            &&& delta.written_off.thousandths >= 0
        },
        delta.product_id == product_id,
        delta.before == before,
        delta.after == after,
        delta.returned == returned,
        delta.note@ == note,
{
}

/// Whether a delta accounts for one product between two rounds.
pub open spec fn accounts_for(delta: CorrectionDelta, was: int, is: int) -> bool {
    &&& delta.before.thousandths == was
    &&& delta.after.thousandths == is
    &&& delta.delta.thousandths == is - was
    &&& delta.returned.thousandths >= 0
    &&& delta.written_off.thousandths >= 0
    &&& is < was ==> delta.returned.thousandths + delta.written_off.thousandths == was - is
    &&& is >= was ==> delta.returned.thousandths == 0 && delta.written_off.thousandths == 0
}

proof fn no_objection_accounts_for_each(
    before: Seq<(i64, int)>,
    after: Seq<(i64, int)>,
    deltas: Seq<CorrectionDelta>,
    n: nat,
    i: int,
)
    requires
        0 <= i < n <= deltas.len(),
        first_objection(before, after, deltas, n) is None,
    ensures
        accounts_for(
            deltas[i],
            amount_of(before, deltas[i].product_id),
            amount_of(after, deltas[i].product_id),
        ),
        !repeats(deltas, i),
    decreases n,
{
    if i < n - 1 {
        no_objection_accounts_for_each(before, after, deltas, (n - 1) as nat, i);
    }
}

/// Deltas are accepted only where there is exactly one for every product that the
/// original or its replacement takes, and each accounts for it; and never for a
/// correction that leaves the bill as it was.
pub proof fn deltas_account_for_every_product(
    db: Store,
    original_order_id: i64,
    replacement_order_id: Option<i64>,
    deltas: Seq<CorrectionDelta>,
    product_id: i64,
)
    requires
        deltas_refusal(db, original_order_id, replacement_order_id, deltas) is None,
    ensures
        order_products(db, original_order_id) matches Ok(before) && (replacement_products(
            db,
            replacement_order_id,
        ) matches Ok(after) && {
            &&& forall|i: int|
                0 <= i < deltas.len() ==> accounts_for(
                    #[trigger] deltas[i],
                    amount_of(before, deltas[i].product_id),
                    amount_of(after, deltas[i].product_id),
                )
            &&& forall|i: int, k: int|
                0 <= k < i < deltas.len() ==> (#[trigger] deltas[i]).product_id != (
                #[trigger] deltas[k]).product_id
            &&& lists(before, product_id) || lists(after, product_id) ==> {
                ||| exists|i: int|
                    0 <= i < deltas.len() && (#[trigger] deltas[i]).product_id == product_id
                ||| deltas.len() == 0 && before == after
            }
            &&& forall|i: int|
                0 <= i < deltas.len() ==> lists(before, (#[trigger] deltas[i]).product_id) || lists(
                    after,
                    deltas[i].product_id,
                )
        }),
        replacement_order_id is None ==> replacement_products(db, replacement_order_id) == Ok::<
            Seq<(i64, int)>,
            crate::repo::Why,
        >(Seq::empty()),
        replacement_order_id matches Some(id) ==> replacement_products(db, replacement_order_id)
            == order_products(db, id),
{
    let before = order_products(db, original_order_id)->Ok_0;
    let after = replacement_products(db, replacement_order_id)->Ok_0;
    if !(deltas.len() == 0 && before == after) {
        assert forall|i: int| 0 <= i < deltas.len() implies accounts_for(
            #[trigger] deltas[i],
            amount_of(before, deltas[i].product_id),
            amount_of(after, deltas[i].product_id),
        ) && !repeats(deltas, i) by {
            no_objection_accounts_for_each(before, after, deltas, deltas.len(), i);
        }
        assert(speaks_of(deltas, product_id) <==> lists(before, product_id) || lists(
            after,
            product_id,
        ));
        assert forall|i: int| 0 <= i < deltas.len() implies lists(
            before,
            (#[trigger] deltas[i]).product_id,
        ) || lists(after, deltas[i].product_id) by {
            assert(speaks_of(deltas, deltas[i].product_id));
        }
        assert forall|i: int, k: int| 0 <= k < i < deltas.len() implies (
        #[trigger] deltas[i]).product_id != (#[trigger] deltas[k]).product_id by {
            assert(!repeats(deltas, i));
        }
    }
}

/// Two rounds that ring up the same lines, one for one, cannot correct each
/// other.
pub proof fn the_same_lines_are_no_correction(
    db: Store,
    original_order_id: i64,
    replacement_order_id: i64,
    deltas: Seq<CorrectionDelta>,
)
    requires
        lines_of(db, original_order_id).len() == lines_of(db, replacement_order_id).len(),
        forall|i: int|
            0 <= i < lines_of(db, original_order_id).len() ==> ({
                let a = #[trigger] lines_of(db, original_order_id)[i];
                let b = lines_of(db, replacement_order_id)[i];
                &&& a.sale_item_id == b.sale_item_id
                &&& a.sale_item_name@ == b.sale_item_name@
                &&& a.recipe_id == b.recipe_id
                &&& a.quantity == b.quantity
                &&& a.unit_price == b.unit_price
                &&& a.line_total == b.line_total
            }),
    ensures
        deltas_refusal(db, original_order_id, Some(replacement_order_id), deltas) is Some,
{
    assert(crate::repo::orders::bill_facts(lines_of(db, original_order_id))
        =~= crate::repo::orders::bill_facts(lines_of(db, replacement_order_id))) by {
        assert forall|i: int| 0 <= i < lines_of(db, original_order_id).len() implies
            #[trigger] crate::repo::orders::bill_facts(lines_of(db, original_order_id))[i]
            == crate::repo::orders::bill_facts(lines_of(db, replacement_order_id))[i] by {
            let a = lines_of(db, original_order_id)[i];
        }
    }
}

// ---------------------------------------------------------------------------
// When
// ---------------------------------------------------------------------------

/// Whether an order can be corrected in a night: issued in it, while the night
/// and the tab are open.
pub open spec fn can_be_corrected(db: Store, order: Order, shift_id: i64) -> bool {
    &&& order.status == Status::Issued
    &&& order.shift_id == shift_id
    &&& trades(db, shift_id)
    &&& row(db.tabs@, order.tab_id) matches Some(found) && found.status == tabs::Status::Open
}

/// Whether a number is that of a slip which went to the bar for an order.
pub open spec fn is_slip_number(db: Store, number: Seq<char>, order_id: i64) -> bool {
    there_is(
        db.receipts@,
        |r: Receipt|
            r.receipt_number@ == number && r.kind == Kind::Issue && r.order_id == Some(order_id)
                && (r.status == receipts::Status::Printed || r.status == receipts::Status::Failed),
    )
}

/// Whether an order is what an original is to be replaced by.
pub open spec fn stands_in_for(replacement: Order, original: Order) -> bool {
    &&& replacement.replaces_order_id == Some(original.id)
    &&& replacement.tab_id == original.tab_id
    &&& replacement.shift_id == original.shift_id
}

/// A correction is frozen exactly when a cashier freezes it who wrote the
/// replacement, with a reason and the number of the original's slip; while the
/// original can be corrected, the replacement is a draft with something on it,
/// and the deltas account for every product.
pub proof fn when_a_correction_can_be_frozen(
    db: Store,
    correction: NewCorrection<'_>,
    deltas: Seq<CorrectionDelta>,
)
    ensures
        freeze_correction_refusal(db, correction, deltas) is None <==> {
            &&& is_cashier(db, correction.created_by)
            &&& says(correction.issue_receipt_number@)
            &&& says(correction.reason@)
            &&& row(db.orders@, correction.original_order_id) matches Some(original) && (row(
                db.orders@,
                correction.replacement_order_id,
            ) matches Some(replacement) && {
                &&& can_be_corrected(db, original, correction.shift_id)
                &&& stands_in_for(replacement, original)
                &&& replacement.status == Status::Draft
                &&& replacement.cashier_id == correction.created_by
                &&& is_slip_number(
                    db,
                    trimmed(correction.issue_receipt_number@),
                    correction.original_order_id,
                )
                &&& there_is(
                    db.order_lines@,
                    |l: Line| l.order_id == correction.replacement_order_id,
                )
            })
            &&& deltas_refusal(
                db,
                correction.original_order_id,
                Some(correction.replacement_order_id),
                deltas,
            ) is None
            &&& fresh_id(db.pending@) is Some
        },
{
    place_is_first(db.orders@, correction.original_order_id);
    place_is_first(db.orders@, correction.replacement_order_id);
    a_text_that_is_not_blank_says_something(correction.issue_receipt_number@);
    a_text_that_is_not_blank_says_something(correction.reason@);
    let number = trimmed(correction.issue_receipt_number@);
    let order_id = correction.original_order_id;
    a_row_is_found_where_there_is_one(
        db.receipts@,
        typed_receipt(number, order_id),
        |r: Receipt|
            r.receipt_number@ == number && r.kind == Kind::Issue && r.order_id == Some(order_id)
                && (r.status == receipts::Status::Printed || r.status == receipts::Status::Failed),
    );
    a_row_is_found_where_there_is_one(
        db.order_lines@,
        line_of(correction.replacement_order_id),
        |l: Line| l.order_id == correction.replacement_order_id,
    );
}

/// A frozen correction is applied exactly while its original can be corrected
/// and its replacement was issued.
pub proof fn when_a_correction_can_be_applied(db: Store, pending_id: i64)
    ensures
        apply_refusal(db, pending_id) is None <==> {
            &&& row(db.pending@, pending_id) matches Some(frozen) && (row(
                db.orders@,
                frozen.original_order_id,
            ) matches Some(original) && (row(
                db.orders@,
                frozen.replacement_order_id,
            ) matches Some(replacement) && {
                &&& can_be_corrected(db, original, frozen.shift_id)
                &&& stands_in_for(replacement, original)
                &&& replacement.status == Status::Issued
            })) && deltas_refusal(
                db,
                frozen.original_order_id,
                Some(frozen.replacement_order_id),
                deltas_of(db.pending_lines@, pending_id),
            ) is None
            &&& fresh_id(db.corrections@) is Some
        },
{
}

/// A void is recorded exactly when a cashier records it with a reason and the
/// number of the order's slip, while the order can be corrected, and nothing of
/// it stays on the bill.
pub proof fn when_a_void_can_be_recorded(
    db: Store,
    void: NewVoid<'_>,
    deltas: Seq<CorrectionDelta>,
)
    ensures
        record_void_refusal(db, void, deltas) is None <==> {
            &&& is_cashier(db, void.created_by)
            &&& says(void.issue_receipt_number@)
            &&& says(void.reason@)
            &&& forall|i: int|
                0 <= i < deltas.len() ==> (#[trigger] deltas[i]).after.thousandths == 0
            &&& row(db.orders@, void.original_order_id) matches Some(original) && can_be_corrected(
                db,
                original,
                void.shift_id,
            ) && is_slip_number(db, trimmed(void.issue_receipt_number@), void.original_order_id)
            &&& deltas_refusal(db, void.original_order_id, None, deltas) is None
            &&& fresh_id(db.corrections@) is Some
        },
{
    place_is_first(db.orders@, void.original_order_id);
    a_text_that_is_not_blank_says_something(void.issue_receipt_number@);
    a_text_that_is_not_blank_says_something(void.reason@);
    let number = trimmed(void.issue_receipt_number@);
    let order_id = void.original_order_id;
    a_row_is_found_where_there_is_one(
        db.receipts@,
        typed_receipt(number, order_id),
        |r: Receipt|
            r.receipt_number@ == number && r.kind == Kind::Issue && r.order_id == Some(order_id)
                && (r.status == receipts::Status::Printed || r.status == receipts::Status::Failed),
    );
}

/// A frozen correction is cleared exactly once the ledger has it and the original
/// is replaced, or once its replacement was given up, let go of the original and
/// has no paper left.
pub proof fn when_a_frozen_correction_can_go(db: Store, pending_id: i64)
    ensures
        clear_refusal(db, pending_id) is None <==> (row(db.pending@, pending_id) matches Some(
            frozen,
        ) && {
            ||| there_is(
                db.corrections@,
                |c: CorrectionRow|
                    c.original_order_id == frozen.original_order_id && c.replacement_order_id
                        == Some(frozen.replacement_order_id) && (row(
                        db.orders@,
                        c.original_order_id,
                    ) matches Some(original) && original.status == Status::Replaced),
            )
            ||| row(db.orders@, frozen.replacement_order_id) matches Some(replacement)
                && replacement.status == Status::Abandoned && replacement.replaces_order_id is None
                && !has_live_paper(db, frozen.replacement_order_id)
        }),
{
    if row(db.pending@, pending_id) is Some {
        let frozen = row(db.pending@, pending_id)->0;
        place_is_first(db.orders@, frozen.replacement_order_id);
        a_row_is_found_where_there_is_one(
            db.corrections@,
            completes(db, frozen),
            |c: CorrectionRow|
                c.original_order_id == frozen.original_order_id && c.replacement_order_id == Some(
                    frozen.replacement_order_id,
                ) && (row(db.orders@, c.original_order_id) matches Some(original) && original.status
                    == Status::Replaced),
        );
        let order_id = frozen.replacement_order_id;
        a_row_is_found_where_there_is_one(
            db.receipts@,
            live_receipt_of(order_id),
            |r: Receipt| r.order_id == Some(order_id) && r.status != receipts::Status::Void,
        );
    }
}

// ---------------------------------------------------------------------------
// What is written down
// ---------------------------------------------------------------------------

/// The deltas of a correction are those that were written under it, in the order
/// they were written.
pub proof fn the_deltas_of_a_correction_are_its_own(
    rows: Seq<DeltaRow>,
    owner_id: i64,
    new: DeltaRow,
)
    ensures
        deltas_of(rows.push(new), owner_id) == (if new.owner_id == owner_id {
            deltas_of(rows, owner_id).push(new.delta)
        } else {
            deltas_of(rows, owner_id)
        }),
        deltas_of(Seq::<DeltaRow>::empty(), owner_id) == Seq::<CorrectionDelta>::empty(),
{
    assert(rows.push(new).drop_last() =~= rows);
}

/// A frozen correction is written down as it was asked for, with its deltas; the
/// round itself, the shelf and the bill do not move yet.
pub proof fn a_frozen_correction_waits(
    before: Store,
    after: Store,
    correction: NewCorrection<'_>,
    deltas: Seq<CorrectionDelta>,
    item: PendingCorrection,
)
    requires
        correction_frozen(before, after, correction, deltas, item),
        forall|i: int|
            0 <= i < before.pending_lines@.len() ==> Some((#[trigger] before.pending_lines@[i]).owner_id)
                != fresh_id(before.pending@),
    ensures
        row(after.pending@, item.id) matches Some(stored) && {
            &&& stored.original_order_id == correction.original_order_id
            &&& stored.replacement_order_id == correction.replacement_order_id
            &&& stored.issue_receipt_number@ == trimmed(correction.issue_receipt_number@)
            &&& stored.reason@ == trimmed(correction.reason@)
            &&& stored.shift_id == correction.shift_id
            &&& stored.created_by == correction.created_by
            &&& stored.created_at == correction.created_at
            &&& item.original_order_id == stored.original_order_id
            &&& item.replacement_order_id == stored.replacement_order_id
            &&& item.issue_receipt_number == stored.issue_receipt_number
            &&& item.reason == stored.reason
            &&& item.shift_id == stored.shift_id
            &&& item.created_by == stored.created_by
            &&& item.created_at == stored.created_at
        },
        row(before.pending@, item.id) is None,
        after.pending@.drop_last() == before.pending@,
        deltas_of(after.pending_lines@, item.id) == deltas,
        item.lines@ == deltas,
        after == (Store {
            pending: after.pending,
            pending_lines: after.pending_lines,
            ..before
        }),
{
    let stored = after.pending@.last();
    assert(after.pending@ =~= before.pending@.push(stored));
    a_fresh_id_is_unused(before.pending@);
    place_is_first(before.pending@, stored.id);
    writing_keeps_places(before.pending@, stored, stored.id);
    crate::repo::orders::written_deltas_read_back(before.pending_lines@, stored.id, deltas);
}

/// An applied correction stands in the ledger as it was frozen, with the deltas
/// that were frozen with it.
pub proof fn an_applied_correction_is_what_was_frozen(
    before: Store,
    after: Store,
    pending_id: i64,
    item: Correction,
)
    requires
        correction_applied(before, after, pending_id, item),
        forall|i: int|
            0 <= i < before.correction_lines@.len() ==> Some(
                (#[trigger] before.correction_lines@[i]).owner_id,
            ) != fresh_id(before.corrections@),
    ensures
        row(before.pending@, pending_id) matches Some(frozen) && (row(
            after.corrections@,
            item.id,
        ) matches Some(stored) && {
            &&& stored.kind == CorrectionKind::Correction
            &&& stored.original_order_id == frozen.original_order_id
            &&& stored.replacement_order_id == Some(frozen.replacement_order_id)
            &&& stored.issue_receipt_number == frozen.issue_receipt_number
            &&& stored.reason == frozen.reason
            &&& stored.shift_id == frozen.shift_id
            &&& stored.created_by == frozen.created_by
            &&& stored.created_at == frozen.created_at
            &&& item.kind == stored.kind
            &&& item.original_order_id == stored.original_order_id
            &&& item.replacement_order_id == stored.replacement_order_id
            &&& item.issue_receipt_number == stored.issue_receipt_number
            &&& item.reason == stored.reason
            &&& item.shift_id == stored.shift_id
            &&& item.created_by == stored.created_by
            &&& item.created_at == stored.created_at
        }),
        row(before.corrections@, item.id) is None,
        item.lines@ == deltas_of(before.pending_lines@, pending_id),
        deltas_of(after.correction_lines@, item.id) == deltas_of(before.pending_lines@, pending_id),
        after == (Store {
            corrections: after.corrections,
            correction_lines: after.correction_lines,
            ..before
        }),
{
    let stored = after.corrections@.last();
    assert(after.corrections@ =~= before.corrections@.push(stored));
    a_fresh_id_is_unused(before.corrections@);
    place_is_first(before.corrections@, stored.id);
    writing_keeps_places(before.corrections@, stored, stored.id);
    crate::repo::orders::written_deltas_read_back(
        before.correction_lines@,
        item.id,
        deltas_of(before.pending_lines@, pending_id),
    );
}

/// A recorded void stands in the ledger with its reason, its slip and its deltas,
/// and names no replacement.
pub proof fn a_recorded_void_is_in_the_ledger(
    before: Store,
    after: Store,
    void: NewVoid<'_>,
    deltas: Seq<CorrectionDelta>,
    item: Correction,
)
    requires
        void_recorded(before, after, void, deltas, item),
        forall|i: int|
            0 <= i < before.correction_lines@.len() ==> Some(
                (#[trigger] before.correction_lines@[i]).owner_id,
            ) != fresh_id(before.corrections@),
    ensures
        row(after.corrections@, item.id) matches Some(stored) && {
            &&& stored.kind == CorrectionKind::Void
            &&& stored.original_order_id == void.original_order_id
            &&& stored.replacement_order_id is None
            &&& stored.issue_receipt_number@ == trimmed(void.issue_receipt_number@)
            &&& stored.reason@ == trimmed(void.reason@)
            &&& stored.shift_id == void.shift_id
            &&& stored.created_by == void.created_by
            &&& stored.created_at == void.created_at
            &&& item.kind == stored.kind
            &&& item.original_order_id == stored.original_order_id
            &&& item.replacement_order_id == stored.replacement_order_id
            &&& item.issue_receipt_number == stored.issue_receipt_number
            &&& item.reason == stored.reason
            &&& item.shift_id == stored.shift_id
            &&& item.created_by == stored.created_by
            &&& item.created_at == stored.created_at
        },
        row(before.corrections@, item.id) is None,
        after.corrections@.drop_last() == before.corrections@,
        item.lines@ == deltas,
        deltas_of(after.correction_lines@, item.id) == deltas,
        after == (Store {
            corrections: after.corrections,
            correction_lines: after.correction_lines,
            ..before
        }),
{
    let stored = after.corrections@.last();
    assert(after.corrections@ =~= before.corrections@.push(stored));
    a_fresh_id_is_unused(before.corrections@);
    place_is_first(before.corrections@, stored.id);
    writing_keeps_places(before.corrections@, stored, stored.id);
    crate::repo::orders::written_deltas_read_back(before.correction_lines@, item.id, deltas);
}

/// Clearing a frozen correction takes it and its deltas away, and leaves every
/// other where it was.
pub proof fn clearing_takes_one_frozen_correction(
    before: Store,
    after: Store,
    pending_id: i64,
    other: PendingRow,
    line: DeltaRow,
)
    requires
        correction_cleared(before, after, pending_id),
    ensures
        after.pending@.contains(other) <==> before.pending@.contains(other) && other.id
            != pending_id,
        after.pending_lines@.contains(line) <==> before.pending_lines@.contains(line)
            && line.owner_id != pending_id,
        after == (Store {
            pending: after.pending,
            pending_lines: after.pending_lines,
            ..before
        }),
{
    let kept = crate::repo::orders::other_than(pending_id);
    super::what_is_chosen_was_there(before.pending@, kept, other);
    super::what_is_chosen_was_there(
        before.pending_lines@,
        |r: DeltaRow| r.owner_id != pending_id,
        line,
    );
}

/// The corrections that wait are listed the oldest first, and none is left out.
pub proof fn every_waiting_correction_is_listed(db: Store)
    ensures
        lists_exactly(
            in_order(db.pending@, frozen_before()),
            db.pending@,
            |p: PendingRow| true,
            |a: PendingRow, b: PendingRow|
                a.created_at < b.created_at || (a.created_at == b.created_at && a.id < b.id),
        ),
{
    crate::lists::what_is_listed_by_number_ranks();
    let all = |p: PendingRow| true;
    everything_is_chosen(db.pending@, all);
    super::a_list_is_exact(
        db.pending@,
        all,
        frozen_before(),
        |p: PendingRow| true,
        |a: PendingRow, b: PendingRow|
            a.created_at < b.created_at || (a.created_at == b.created_at && a.id < b.id),
    );
}

proof fn everything_is_chosen<T>(rows: Seq<T>, wanted: spec_fn(T) -> bool)
    requires
        forall|r: T| #[trigger] wanted(r),
    ensures
        chosen(rows, wanted) == rows,
    decreases rows.len(),
{
    if rows.len() > 0 {
        everything_is_chosen(rows.drop_last(), wanted);
        assert(rows.drop_last().push(rows.last()) =~= rows);
    }
}

} // verus!

//! What the screens ask for, what is made of it, and what they show.

use vstd::prelude::*;

use super::{a_list_is_exact, a_row_is_found_where_there_is_one, lists_exactly, there_is};
use crate::commands::CommandWhy;
use crate::commissioning::{NewProduct, NewStaff, ProductUpdate};
use crate::money::{fits, milli_text, money_text, typed_amount, Money};
use crate::repo::catalogue::{shelf_list, shelved_before, twin, Product, SaleItemRow};
use crate::repo::staff::{people, Person, Role, StaffRow};
use crate::repo::stock::shelf;
use crate::repo::Why;
use crate::resolution::{every_state, way_out, ReachableNonTerminalState as State};
use crate::settings::shown;
use crate::state::Session;
use crate::store::Store;
use crate::table::in_order;
use crate::text::{text_before, trimmed};
use crate::venue::{
    acting, answered, edit_asked, entered_before, form_objection, is_sellable, menu_shown,
    product_asked, product_line_says, recipe_asked, recipe_objection, sale_item_line_says,
    sent_amount, serving_waiter, setup_refusal, setup_says, shelf_shown, shown_before, staff_asked,
    staff_objection, staff_shown, turned_down, ProductForm, ProductLine, RecipeLineForm,
    RecipeLineView, SaleItemLine, SetupView, StaffForm,
};

verus! {

// ---------------------------------------------------------------------------
// What is asked for
// ---------------------------------------------------------------------------

/// What the owner's screens ask for is done exactly when the form can be read, an
/// owner is signed in, and nothing else stands against it; otherwise nothing
/// changes.
pub proof fn a_request_is_the_owners(
    objection: Option<CommandWhy>,
    session: Option<Session>,
    refusal: Option<Why>,
    result: Result<SetupView, crate::commands::CommandError>,
    before: Store,
    after: Store,
    done: bool,
)
    ensures
        turned_down(objection, session, refusal) is None <==> {
            &&& objection is None
            &&& session matches Some(who) && who.role@ == "OWNER"@
            &&& refusal is None
        },
        session matches Some(who) ==> acting(session) == who.staff_id,
        answered(result, turned_down(objection, session, refusal), before, after, done) ==> {
            &&& turned_down(objection, session, refusal) is Some ==> result is Err && after
                == before
            &&& turned_down(objection, session, refusal) is None ==> done
            &&& result matches Ok(view) ==> setup_says(view, after)
        },
{
}

/// A form for a new person is read where it names a role, and gives a PIN for an
/// owner or a cashier.
pub proof fn a_person_is_asked_for_by_role(
    form: StaffForm,
    input: NewStaff<'_>,
    hashed: Option<(&str, &str)>,
)
    ensures
        staff_objection(form) is None <==> {
            &&& form.role@ == "OWNER"@ || form.role@ == "CASHIER"@ || form.role@ == "WAITER"@
                || form.role@ == "BARTENDER"@
            &&& form.role@ == "OWNER"@ || form.role@ == "CASHIER"@ ==> form.pin is Some
                && form.pin->0@.len() > 0
        },
        staff_asked(input, form, hashed) ==> {
            &&& input.name@ == trimmed(form.name@)
            &&& form.role@ == "OWNER"@ ==> input.role == Role::Owner && input.pin == hashed
            &&& form.role@ == "CASHIER"@ ==> input.role == Role::Cashier && input.pin == hashed
            &&& form.role@ == "WAITER"@ ==> input.role == Role::Waiter && input.pin is None
            &&& form.role@ == "BARTENDER"@ ==> input.role == Role::Bartender && input.pin is None
        },
{
    reveal_strlit("OWNER");
    reveal_strlit("CASHIER");
    reveal_strlit("WAITER");
    reveal_strlit("BARTENDER");
    assert("OWNER"@.len() == 5);
    assert("CASHIER"@.len() == 7);
    assert("WAITER"@.len() == 6);
    assert("BARTENDER"@.len() == 9);
}

/// An amount is taken as it was typed, and only where it can be read.
pub proof fn a_typed_amount_is_taken_as_it_is(text: Seq<char>, what: Seq<char>, amount: Money)
    ensures
        sent_amount(text, what) == Ok::<Money, CommandWhy>(amount) <==> typed_amount(text) == Some(
            amount.minor as int,
        ),
{
}

/// The form for a product is read where the price, if there is one, can be read,
/// and a pack holds something.
pub proof fn a_product_is_asked_for_as_typed(
    form: ProductForm,
    input: NewProduct<'_>,
    edit: ProductUpdate<'_>,
)
    ensures
        form_objection(form) is None <==> {
            &&& form.base_units_per_pack > 0
            &&& form.sale_price is Some && trimmed(form.sale_price->0@).len() > 0 ==> (typed_amount(
                trimmed(form.sale_price->0@),
            ) matches Some(minor) && fits(minor))
        },
        product_asked(input, form) ==> {
            &&& input.name@ == trimmed(form.name@)
            &&& input.category@ == trimmed(form.category@)
            &&& input.base_unit == form.base_unit
            &&& input.base_units_per_pack.thousandths == form.base_units_per_pack
            &&& input.units_per_purchase_pack == form.units_per_purchase_pack
            &&& form.low_stock_threshold >= 0 ==> input.low_stock_threshold.thousandths
                == form.low_stock_threshold
            &&& form.low_stock_threshold < 0 ==> input.low_stock_threshold.thousandths == 0
            &&& form.content_per_unit_milli >= 0 ==> input.content_per_unit.thousandths
                == form.content_per_unit_milli
            &&& form.content_per_unit_milli < 0 ==> input.content_per_unit.thousandths == 0
            &&& input.content_measure == form.content_measure
            &&& input.tracks_inventory == form.tracks_inventory
            &&& input.destination == form.destination
            &&& form.sale_price is None ==> input.sale_price is None
            &&& form.sale_price is Some && trimmed(form.sale_price->0@).len() == 0
                ==> input.sale_price is None
            &&& form.sale_price is Some && trimmed(form.sale_price->0@).len() > 0 ==> (
            input.sale_price matches Some(price) && typed_amount(trimmed(form.sale_price->0@))
                == Some(price.minor as int))
        },
        edit_asked(edit, form) ==> {
            &&& edit.name@ == trimmed(form.name@)
            &&& edit.category@ == trimmed(form.category@)
            &&& edit.base_unit == form.base_unit
            &&& edit.base_units_per_pack.thousandths == form.base_units_per_pack
            &&& edit.units_per_purchase_pack == form.units_per_purchase_pack
            &&& form.low_stock_threshold >= 0 ==> edit.low_stock_threshold.thousandths
                == form.low_stock_threshold
            &&& form.content_per_unit_milli >= 0 ==> edit.content_per_unit.thousandths
                == form.content_per_unit_milli
            &&& edit.content_measure == form.content_measure
            &&& edit.tracks_inventory == form.tracks_inventory
            &&& edit.destination == form.destination
            &&& edit.active == form.active
        },
{
}

/// A recipe is read where it has an ingredient and more than nothing of each, and
/// taken line for line.
pub proof fn a_recipe_is_asked_for_line_by_line(lines: Seq<RecipeLineForm>)
    ensures
        recipe_objection(lines) is None <==> lines.len() > 0 && (forall|i: int|
            0 <= i < lines.len() ==> (#[trigger] lines[i]).quantity_milli > 0),
        recipe_asked(lines).len() == lines.len(),
        forall|i: int|
            0 <= i < lines.len() ==> {
                &&& (#[trigger] recipe_asked(lines)[i]).product_id == lines[i].product_id
                &&& recipe_asked(lines)[i].quantity.thousandths == lines[i].quantity_milli
                &&& recipe_asked(lines)[i].in_measure == lines[i].in_measure
            },
{
}

// ---------------------------------------------------------------------------
// What is shown
// ---------------------------------------------------------------------------

/// Where a role stands on the owner's screen: owners, cashiers, everybody else.
pub open spec fn stands_on_screen(role: Role) -> int {
    if role == Role::Owner {
        1
    } else if role == Role::Cashier {
        2
    } else {
        3
    }
}

proof fn everything_is_chosen<T>(rows: Seq<T>, wanted: spec_fn(T) -> bool)
    requires
        forall|r: T| #[trigger] wanted(r),
    ensures
        crate::table::chosen(rows, wanted) == rows,
    decreases rows.len(),
{
    if rows.len() > 0 {
        everything_is_chosen(rows.drop_last(), wanted);
        assert(rows.drop_last().push(rows.last()) =~= rows);
    }
}

proof fn ordering_keeps_the_length<T>(rows: Seq<T>, before: spec_fn(T, T) -> bool)
    ensures
        in_order(rows, before).len() == rows.len(),
{
    broadcast use vstd::seq_lib::group_to_multiset_ensures;

    crate::table::ordering_keeps_every_row(rows, before);
    assert(in_order(rows, before).to_multiset().len() == in_order(rows, before).len());
    assert(rows.to_multiset().len() == rows.len());
}

/// The owner's screen shows everybody, everything on the shelf and everything on
/// the menu: those on the books and those who are not.
pub proof fn the_owner_is_shown_everything(db: Store)
    ensures
        lists_exactly(
            staff_shown(db),
            people(db.staff@),
            |p: Person| true,
            |a: Person, b: Person|
                stands_on_screen(a.role) < stands_on_screen(b.role) || (stands_on_screen(a.role)
                    == stands_on_screen(b.role) && text_before(a.name@, b.name@)),
        ),
        lists_exactly(
            menu_shown(db),
            db.sale_items@,
            |r: SaleItemRow| true,
            |a: SaleItemRow, b: SaleItemRow|
                text_before(a.item.category@, b.item.category@) || (a.item.category@
                    == b.item.category@ && text_before(a.item.name@, b.item.name@)),
        ),
        shelf_shown(db).len() == db.products@.len(),
{
    crate::lists::what_is_listed_by_name_ranks();
    let everybody = |p: Person| true;
    let everything = |r: SaleItemRow| true;
    everything_is_chosen(people(db.staff@), everybody);
    everything_is_chosen(db.sale_items@, everything);
    a_list_is_exact(
        people(db.staff@),
        everybody,
        shown_before(),
        |p: Person| true,
        |a: Person, b: Person|
            stands_on_screen(a.role) < stands_on_screen(b.role) || (stands_on_screen(a.role)
                == stands_on_screen(b.role) && text_before(a.name@, b.name@)),
    );
    a_list_is_exact(
        db.sale_items@,
        everything,
        entered_before(),
        |r: SaleItemRow| true,
        |a: SaleItemRow, b: SaleItemRow|
            text_before(a.item.category@, b.item.category@) || (a.item.category@
                == b.item.category@ && text_before(a.item.name@, b.item.name@)),
    );
    ordering_keeps_the_length(shelf_list(db.products@), shelved_before());
}

/// A line of the shelf says what is on the books and how much of it is there.
pub proof fn a_shelf_line_says_what_is_there(line: ProductLine, db: Store, product: Product)
    requires
        product_line_says(line, db, product),
    ensures
        line.id == product.id,
        line.code == product.code,
        line.name == product.name,
        line.category == product.category,
        line.active == product.active,
        line.tracks_inventory == product.tracks_inventory,
        line.destination == product.destination,
        line.base_unit == product.base_unit,
        line.sale_item_id == twin(db, product.id),
        line.content_measure == product.content_measure,
        product.content_measure@ == "NONE"@ ==> line.content_per_unit@.len() == 0,
        product.content_measure@ != "NONE"@ ==> line.content_per_unit@ == milli_text(
            product.content_per_unit.thousandths as int,
        ),
        line.base_units_per_pack@ == milli_text(product.base_units_per_pack as int),
        line.units_per_purchase_pack == product.units_per_purchase_pack,
        line.low_stock_threshold@ == milli_text(product.low_stock_threshold.thousandths as int),
        shelf(db, product.id) matches Some(left) && line.on_hand@ == milli_text(left as int),
        line.price is Some <==> line.price_value is Some,
        line.price is Some ==> exists|minor: int|
            line.price->0@ == shown(db, minor) && line.price_value->0@ == #[trigger] money_text(
                minor,
            ),
{
    if line.price is Some {
        let amount = crate::venue::price_of(db, twin(db, product.id))->0;
        assert(line.price_value->0@ == money_text(amount.minor as int));
    }
}

/// Whether an entry is on sale, at a price that was not ended and by a recipe
/// that was not.
pub open spec fn could_be_sold(db: Store, listed: SaleItemRow) -> bool {
    super::shelf::can_be_sold(db, listed)
}

/// A line of the menu is offered exactly when it could be sold.
pub proof fn a_menu_line_is_sellable_when_it_could_be_sold(
    line: SaleItemLine,
    db: Store,
    listed: SaleItemRow,
)
    requires
        sale_item_line_says(line, db, listed),
    ensures
        line.sellable <==> could_be_sold(db, listed),
        line.id == listed.item.id,
        line.code == listed.item.code,
        line.name == listed.item.name,
        line.category == listed.item.category,
        line.active == listed.item.active,
        line.from_product_id == listed.from_product_id,
{
    super::shelf::an_entry_is_offered_where_it_can_be_sold(db, listed);
}

/// The venue can trade exactly when a waiter works here and something can be
/// sold; otherwise the screen says what is missing.
pub proof fn a_venue_can_trade_with_a_waiter_and_a_drink(view: SetupView, db: Store)
    requires
        setup_says(view, db),
    ensures
        view.can_trade <==> {
            &&& there_is(db.staff@, |r: StaffRow| r.person.role == Role::Waiter && r.person.active)
            &&& there_is(view.sale_items@, |line: SaleItemLine| line.sellable)
        },
        view.can_trade && view.products@.len() > 0 <==> view.missing@.len() == 0,
        view.staff@.len() == db.staff@.len(),
        view.products@.len() == db.products@.len(),
        view.sale_items@.len() == db.sale_items@.len(),
{
    a_row_is_found_where_there_is_one(
        db.staff@,
        serving_waiter(),
        |r: StaffRow| r.person.role == Role::Waiter && r.person.active,
    );
    a_row_is_found_where_there_is_one(
        view.sale_items@,
        is_sellable(),
        |line: SaleItemLine| line.sellable,
    );
    the_owner_is_shown_everything(db);
    ordering_keeps_the_length(people(db.staff@), shown_before());
    ordering_keeps_the_length(db.sale_items@, entered_before());
    assert(crate::venue::texts(view.missing@).len() == view.missing@.len());
}

// ---------------------------------------------------------------------------
// What is left to do
// ---------------------------------------------------------------------------

/// Whatever is left unfinished has one command that finishes it, and no two share
/// one.
pub proof fn everything_unfinished_has_its_way_out(state: State, other: State)
    ensures
        way_out(state).word() == (match state {
            State::OpenShift => "begin_shift_close"@,
            State::ClosingShift => "resume_shift_close"@,
            State::OpenTab => "close_or_comp_tab"@,
            State::ClosedUnreconciledTab => "reconcile_tab"@,
            State::DraftOrder => "retry_or_abandon_draft"@,
            State::PrintingOrder => "resolve_order_print"@,
            State::PendingReceipt => "resolve_receipt_print"@,
            State::FailedReceipt => "retry_failed_receipt"@,
            State::UnknownPrintAttempt => "resolve_print_attempt"@,
            State::PendingOrderCorrection => "resolve_pending_correction"@,
            State::DraftStockCount => "apply_or_abandon_stock_count"@,
            State::UnfinalizedReconciliation => "finalize_reconciliation"@,
        }),
        way_out(state) == way_out(other) ==> state == other,
        every_state().contains(state),
        every_state().no_duplicates(),
{
    let all = every_state();
    assert(all.len() == 12);
    match state {
        State::OpenShift => {
            assert(all[0] == state);
        },
        State::ClosingShift => {
            assert(all[1] == state);
        },
        State::OpenTab => {
            assert(all[2] == state);
        },
        State::ClosedUnreconciledTab => {
            assert(all[3] == state);
        },
        State::DraftOrder => {
            assert(all[4] == state);
        },
        State::PrintingOrder => {
            assert(all[5] == state);
        },
        State::PendingReceipt => {
            assert(all[6] == state);
        },
        State::FailedReceipt => {
            assert(all[7] == state);
        },
        State::UnknownPrintAttempt => {
            assert(all[8] == state);
        },
        State::PendingOrderCorrection => {
            assert(all[9] == state);
        },
        State::DraftStockCount => {
            assert(all[10] == state);
        },
        State::UnfinalizedReconciliation => {
            assert(all[11] == state);
        },
    }
}

/// The setup screen can be shown exactly while every shelf can be added up and
/// every recipe in force can be worked out.
pub proof fn when_the_setup_can_be_shown(db: Store)
    ensures
        setup_refusal(db) is None <==> {
            &&& forall|i: int|
                0 <= i < shelf_shown(db).len() ==> shelf(db, (#[trigger] shelf_shown(db)[i]).id)
                    is Some
            &&& forall|i: int|
                0 <= i < menu_shown(db).len() ==> crate::venue::poured(
                    db,
                    (#[trigger] menu_shown(db)[i]).item.id,
                ) is Ok
        },
{
    every_recipe_is_worked_out(db, menu_shown(db));
    if forall|i: int|
        0 <= i < shelf_shown(db).len() ==> shelf(db, (#[trigger] shelf_shown(db)[i]).id)
            is Some {
        assert(!crate::venue::shelf_unreadable(db));
    }
    if !crate::venue::shelf_unreadable(db) {
        assert forall|i: int| 0 <= i < shelf_shown(db).len() implies shelf(
            db,
            (#[trigger] shelf_shown(db)[i]).id,
        ) is Some by {}
    }
}

proof fn every_recipe_is_worked_out(db: Store, listed: Seq<SaleItemRow>)
    ensures
        crate::venue::recipes_refusal(db, listed) is None <==> (forall|i: int|
            0 <= i < listed.len() ==> crate::venue::poured(db, (#[trigger] listed[i]).item.id)
                is Ok),
    decreases listed.len(),
{
    if listed.len() > 0 {
        let front = listed.drop_last();
        every_recipe_is_worked_out(db, front);
        if forall|i: int|
            0 <= i < front.len() ==> crate::venue::poured(db, (#[trigger] front[i]).item.id)
                is Ok {
            assert forall|i: int| 0 <= i < listed.len() - 1 implies crate::venue::poured(
                db,
                (#[trigger] listed[i]).item.id,
            ) is Ok by {
                assert(front[i] == listed[i]);
            }
        }
        if forall|i: int|
            0 <= i < listed.len() ==> crate::venue::poured(db, (#[trigger] listed[i]).item.id)
                is Ok {
            assert forall|i: int| 0 <= i < front.len() implies crate::venue::poured(
                db,
                (#[trigger] front[i]).item.id,
            ) is Ok by {
                assert(front[i] == listed[i]);
            }
            assert(crate::venue::poured(db, listed[listed.len() - 1].item.id) is Ok);
        }
    }
}

/// An ingredient is shown with the name of its product, how much a drink takes of
/// it and, where the product has a measure, how much that is in the measure.
pub proof fn an_ingredient_is_shown_in_its_measure(
    line: RecipeLineView,
    db: Store,
    product_id: i64,
    thousandths: int,
)
    requires
        crate::venue::ingredient_says(line, db, (product_id, thousandths)),
    ensures
        line.product_id == product_id,
        line.quantity_milli == thousandths,
        line.quantity@ == milli_text(thousandths),
        crate::table::row(db.products@, product_id) matches Some(found) && {
            &&& line.name == found.product.name
            &&& line.measure == found.product.content_measure
            &&& found.product.content_measure@ == "NONE"@ ==> line.measure_quantity@.len() == 0
            &&& found.product.content_measure@ != "NONE"@ && fits(
                crate::repo::catalogue::measured(
                    thousandths,
                    found.product.content_per_unit.thousandths as int,
                ),
            ) ==> line.measure_quantity@ == milli_text(
                crate::repo::catalogue::measured(
                    thousandths,
                    found.product.content_per_unit.thousandths as int,
                ),
            )
        },
{
}

} // verus!

//! What the owner changes about the venue, and what stays as it was.

use vstd::prelude::*;

use super::figures::{a_measure_is_a_part_of_a_unit, is_nearest};
use super::shelf::{a_product_is_poured_into_a_drink_on_sale, is_live};
use super::{
    a_row_is_found_where_there_is_one, a_text_that_is_not_blank_says_something, says, there_is,
};
use crate::commissioning::{
    create_product_refusal, create_sale_item_refusal, create_staff_refusal, lines_in_units, listed,
    logged, noted, price_changed, product_active_refusal, product_created, product_switched,
    product_updated, put_on_menu, recipe_replaced, reprice_refusal, revise_recipe_refusal,
    sale_item_active_refusal, sale_item_created, sale_item_switched, sale_item_updated,
    sell_by_measure_refusal, sell_product_refusal, sold_by_measure, sold_whole,
    staff_active_refusal, staff_created, staff_switched, units_poured, update_product_refusal,
    update_sale_item_refusal, Change, Listing, Measure, NewProduct, NewSaleItem, NewStaff, Note,
    ProductUpdate, RecipeLine, SaleItemUpdate,
};
use crate::ledger::AuditEntry;
use crate::money::{fits, milli_text, Milli, Money};
use crate::repo::catalogue::{
    sells_one_for_one, twin, Price, Product, ProductRow, Recipe, SaleItem, SaleItemRow,
};
use crate::repo::orders::Line;
use crate::repo::staff::{another_owner, Person, Role, StaffRow};
use crate::repo::stock::shelf;
use crate::repo::tabs;
use crate::store::Store;
use crate::table::{
    a_fresh_id_is_unused, changing_keeps_places, fresh_id, place, place_is_first, room_for, row,
    writing_keeps_places,
};
use crate::text::{int_text, trimmed};

verus! {

/// Whether somebody is an owner who works here.
pub open spec fn is_owner(db: Store, id: i64) -> bool {
    row(db.staff@, id) matches Some(found) && found.person.active && found.person.role
        == Role::Owner
}

/// Nothing about the venue is changed but by an owner who works here.
pub proof fn only_an_owner_changes_the_venue(
    db: Store,
    actor: i64,
    id: i64,
    active: bool,
    price: Money,
    poured: Milli,
    staff: NewStaff<'_>,
    item: NewSaleItem<'_>,
    item_edit: SaleItemUpdate<'_>,
    product: NewProduct<'_>,
    product_edit: ProductUpdate<'_>,
    lines: Seq<RecipeLine>,
)
    requires
        !is_owner(db, actor),
    ensures
        create_staff_refusal(db, actor, staff) is Some,
        staff_active_refusal(db, actor, id, active) is Some,
        create_sale_item_refusal(db, actor, item) is Some,
        update_sale_item_refusal(db, actor, id, item_edit) is Some,
        sale_item_active_refusal(db, actor, id, active) is Some,
        revise_recipe_refusal(db, actor, id, lines) is Some,
        reprice_refusal(db, actor, id, price) is Some,
        create_product_refusal(db, actor, product) is Some,
        sell_product_refusal(db, actor, id, price) is Some,
        sell_by_measure_refusal(db, actor, id, poured, price) is Some,
        product_active_refusal(db, actor, id, active) is Some,
        update_product_refusal(db, actor, id, product_edit) is Some,
{
}

// ---------------------------------------------------------------------------
// The trail
// ---------------------------------------------------------------------------

/// Whether one entry was added to the trail: what was done to what, by whom and
/// when, outside any night.
pub open spec fn is_written_down(
    before: Seq<AuditEntry>,
    after: Seq<AuditEntry>,
    action: Seq<char>,
    entity: Seq<char>,
    id: i64,
    by: i64,
    at: i64,
) -> bool {
    &&& after.len() == before.len() + 1
    &&& after.drop_last() == before
    &&& after.last().action@ == action
    &&& after.last().entity_type@ == entity
    &&& after.last().entity_id == Some(id)
    &&& after.last().staff_id == Some(by)
    &&& after.last().shift_id is None
    &&& after.last().created_at == at
}

proof fn one_note_is_one_entry(
    before: Seq<AuditEntry>,
    after: Seq<AuditEntry>,
    note: Note,
    by: i64,
    at: i64,
)
    requires
        logged(before, after, seq![note], by, at),
    ensures
        is_written_down(before, after, note.action, note.entity, note.id, by, at),
        noted(after.last(), note, by, at),
{
    reveal_with_fuel(logged, 2);
    assert(seq![note].drop_last() =~= Seq::<Note>::empty());
    assert(seq![note].last() == note);
}

// ---------------------------------------------------------------------------
// People
// ---------------------------------------------------------------------------

/// Somebody is taken on exactly when an owner does it, and gives a PIN to whoever
/// signs in, an owner or a cashier, and to nobody else.
pub proof fn when_somebody_can_be_taken_on(db: Store, actor: i64, input: NewStaff<'_>)
    ensures
        create_staff_refusal(db, actor, input) is None <==> {
            &&& is_owner(db, actor)
            &&& (input.pin is Some) == (input.role == Role::Owner || input.role == Role::Cashier)
            &&& room_for(db.audit@, 1)
            &&& fresh_id(db.staff@) is Some
        },
{
}

/// Whoever is taken on works here from then on, in the role that was asked for,
/// under a code of that role; nobody else changes.
pub proof fn whoever_is_taken_on_works_here(
    before: Store,
    after: Store,
    id: i64,
    input: NewStaff<'_>,
    by: i64,
    at: i64,
    other: i64,
)
    requires
        staff_created(before, after, id, input, by, at),
    ensures
        row(before.staff@, id) is None,
        row(after.staff@, id) matches Some(new) && {
            &&& new.person.active
            &&& new.person.role == input.role
            &&& new.person.name@ == trimmed(input.name@)
            &&& new.person.code@ == (match input.role {
                Role::Owner => "OWN-"@,
                Role::Cashier => "CSH-"@,
                Role::Waiter => "WTR-"@,
                Role::Bartender => "BTN-"@,
            }) + int_text(id as int)
            &&& new.created_at == at
            &&& input.pin matches Some((salt, hash)) ==> new.pin_salt matches Some(kept_salt)
                && kept_salt@ == salt@ && (new.pin_hash matches Some(kept_hash) && kept_hash@
                == hash@)
            &&& input.pin is None ==> new.pin_salt is None && new.pin_hash is None
        },
        other != id ==> row(after.staff@, other) == row(before.staff@, other),
        is_written_down(before.audit@, after.audit@, "STAFF_CREATED"@, "staff"@, id, by, at),
        after == (Store { staff: after.staff, audit: after.audit, ..before }),
{
    let new = after.staff@.last();
    assert(after.staff@ =~= before.staff@.push(new));
    a_fresh_id_is_unused(before.staff@);
    place_is_first(before.staff@, id);
    place_is_first(before.staff@, other);
    writing_keeps_places(before.staff@, new, id);
    writing_keeps_places(before.staff@, new, other);
    reveal_strlit("OWN");
    reveal_strlit("CSH");
    reveal_strlit("WTR");
    reveal_strlit("BTN");
    reveal_strlit("-");
    reveal_strlit("OWN-");
    reveal_strlit("CSH-");
    reveal_strlit("WTR-");
    reveal_strlit("BTN-");
    assert("OWN"@ + "-"@ =~= "OWN-"@);
    assert("CSH"@ + "-"@ =~= "CSH-"@);
    assert("WTR"@ + "-"@ =~= "WTR-"@);
    assert("BTN"@ + "-"@ =~= "BTN-"@);
    let note = Note {
        action: "STAFF_CREATED"@,
        entity: "staff"@,
        id: id,
        before: None,
        after: Some(crate::commissioning::hired_text(trimmed(input.name@), input.role)),
    };
    one_note_is_one_entry(before.audit@, after.audit@, note, by, at);
}

/// The venue is never left without an owner: the last one who works here cannot
/// be let go.
pub proof fn the_last_owner_stays(db: Store, actor: i64, staff_id: i64, active: bool)
    ensures
        staff_active_refusal(db, actor, staff_id, active) is None <==> {
            &&& is_owner(db, actor)
            &&& room_for(db.audit@, 1)
            &&& row(db.staff@, staff_id) is Some
            &&& !active && is_owner(db, staff_id) ==> there_is(
                db.staff@,
                |r: StaffRow|
                    r.person.id != staff_id && r.person.active && r.person.role == Role::Owner,
            )
        },
{
    a_row_is_found_where_there_is_one(
        db.staff@,
        another_owner(staff_id),
        |r: StaffRow| r.person.id != staff_id && r.person.active && r.person.role == Role::Owner,
    );
}

/// Letting somebody go, or taking them back, changes whether they work here and
/// nothing else about them or anybody.
pub proof fn letting_go_changes_one_person(
    before: Store,
    after: Store,
    staff_id: i64,
    active: bool,
    by: i64,
    at: i64,
    other: i64,
)
    requires
        staff_switched(before, after, staff_id, active, by, at),
    ensures
        row(before.staff@, staff_id) matches Some(was) && row(after.staff@, staff_id) == Some(
            StaffRow { person: Person { active, ..was.person }, ..was },
        ),
        other != staff_id ==> row(after.staff@, other) == row(before.staff@, other),
        is_written_down(
            before.audit@,
            after.audit@,
            if active {
                "STAFF_ACTIVATED"@
            } else {
                "STAFF_DEACTIVATED"@
            },
            "staff"@,
            staff_id,
            by,
            at,
        ),
        after == (Store { staff: after.staff, audit: after.audit, ..before }),
{
    let p = place(before.staff@, staff_id)->0;
    place_is_first(before.staff@, staff_id);
    place_is_first(before.staff@, other);
    let was = before.staff@[p];
    let now = StaffRow { person: Person { active, ..was.person }, ..was };
    changing_keeps_places(before.staff@, p, now, staff_id);
    changing_keeps_places(before.staff@, p, now, other);
    let note = crate::commissioning::switched(
        "STAFF_DEACTIVATED"@,
        "STAFF_ACTIVATED"@,
        "staff"@,
        staff_id,
        was.person.active,
        active,
    );
    one_note_is_one_entry(before.audit@, after.audit@, note, by, at);
}

// ---------------------------------------------------------------------------
// The menu
// ---------------------------------------------------------------------------

/// Whether a drink stands on a tab that is still open.
pub open spec fn is_on_an_open_tab(db: Store, sale_item_id: i64) -> bool {
    there_is(
        db.order_lines@,
        |l: Line|
            l.sale_item_id == sale_item_id && (row(db.orders@, l.order_id) matches Some(order) && (
            row(db.tabs@, order.tab_id) matches Some(tab) && tab.status == tabs::Status::Open)),
    )
}

/// An entry goes on the menu, and stays there after a change, only with a name
/// and a category; and it does not come off while it stands on an open tab.
pub proof fn when_the_menu_can_change(
    db: Store,
    actor: i64,
    sale_item_id: i64,
    new: NewSaleItem<'_>,
    edit: SaleItemUpdate<'_>,
    active: bool,
    price: Money,
)
    ensures
        create_sale_item_refusal(db, actor, new) is None <==> {
            &&& is_owner(db, actor)
            &&& room_for(db.audit@, 1)
            &&& fresh_id(db.sale_items@) is Some
            &&& says(new.name@)
            &&& says(new.category@)
        },
        update_sale_item_refusal(db, actor, sale_item_id, edit) is None <==> {
            &&& is_owner(db, actor)
            &&& room_for(db.audit@, 1)
            &&& says(edit.name@)
            &&& says(edit.category@)
            &&& row(db.sale_items@, sale_item_id) matches Some(listed) && says(listed.item.code@)
                && !(listed.item.active && !edit.active && is_on_an_open_tab(db, sale_item_id))
        },
        sale_item_active_refusal(db, actor, sale_item_id, active) is None <==> {
            &&& is_owner(db, actor)
            &&& room_for(db.audit@, 1)
            &&& row(db.sale_items@, sale_item_id) matches Some(listed) && !(listed.item.active
                && !active && is_on_an_open_tab(db, sale_item_id))
        },
        reprice_refusal(db, actor, sale_item_id, price) is None <==> {
            &&& is_owner(db, actor)
            &&& room_for(db.audit@, 1)
            &&& row(db.sale_items@, sale_item_id) is Some
            &&& price.minor >= 0
            &&& fresh_id(db.prices@) is Some
        },
{
    a_text_that_is_not_blank_says_something(new.name@);
    a_text_that_is_not_blank_says_something(new.category@);
    a_text_that_is_not_blank_says_something(edit.name@);
    a_text_that_is_not_blank_says_something(edit.category@);
    if row(db.sale_items@, sale_item_id) is Some {
        a_text_that_is_not_blank_says_something(row(db.sale_items@, sale_item_id)->0.item.code@);
    }
    let open = |l: Line|
        l.sale_item_id == sale_item_id && (row(db.orders@, l.order_id) matches Some(order) && (row(
            db.tabs@,
            order.tab_id,
        ) matches Some(tab) && tab.status == tabs::Status::Open));
    if crate::commissioning::still_drunk(db, sale_item_id) {
        let i = choose|i: int|
            0 <= i < db.order_lines@.len() && (#[trigger] db.order_lines@[i]).sale_item_id
                == sale_item_id && crate::repo::catalogue::sits_on_open_tab(db, db.order_lines@[i]);
        assert(open(db.order_lines@[i]));
    }
    if is_on_an_open_tab(db, sale_item_id) {
        let i = choose|i: int| 0 <= i < db.order_lines@.len() && open(#[trigger] db.order_lines@[i]);
        assert(crate::repo::catalogue::sits_on_open_tab(db, db.order_lines@[i]));
    }
}

/// A new entry is on the menu under its own code, without a price, a recipe or
/// anything else changing.
pub proof fn a_new_entry_has_a_code(
    before: Store,
    after: Store,
    id: i64,
    input: NewSaleItem<'_>,
    by: i64,
    at: i64,
    other: i64,
)
    requires
        sale_item_created(before, after, id, input, by, at),
    ensures
        row(before.sale_items@, id) is None,
        row(after.sale_items@, id) matches Some(new) && {
            &&& new.item.active
            &&& new.item.code@ == "S-"@ + int_text(id as int)
            &&& new.item.name@ == trimmed(input.name@)
            &&& new.item.category@ == trimmed(input.category@)
            &&& new.from_product_id is None
            &&& new.created_at == at
        },
        other != id ==> row(after.sale_items@, other) == row(before.sale_items@, other),
        is_written_down(
            before.audit@,
            after.audit@,
            "SALE_ITEM_CREATED"@,
            "sale_item"@,
            id,
            by,
            at,
        ),
        after == (Store { sale_items: after.sale_items, audit: after.audit, ..before }),
{
    let new = after.sale_items@.last();
    assert(after.sale_items@ =~= before.sale_items@.push(new));
    a_fresh_id_is_unused(before.sale_items@);
    place_is_first(before.sale_items@, id);
    place_is_first(before.sale_items@, other);
    writing_keeps_places(before.sale_items@, new, id);
    writing_keeps_places(before.sale_items@, new, other);
    reveal_strlit("S");
    reveal_strlit("-");
    reveal_strlit("S-");
    assert("S"@ + "-"@ =~= "S-"@);
    one_note_is_one_entry(
        before.audit@,
        after.audit@,
        crate::commissioning::offered_note(id, input.name@, input.category@),
        by,
        at,
    );
}

/// An edited entry says what was typed; a switched one only whether it is on
/// sale. Prices, recipes and every other entry stay.
pub proof fn an_edited_entry_says_what_was_typed(
    before: Store,
    after: Store,
    sale_item_id: i64,
    input: SaleItemUpdate<'_>,
    active: bool,
    by: i64,
    at: i64,
    other: i64,
)
    requires
        other != sale_item_id,
    ensures
        sale_item_updated(before, after, sale_item_id, input, by, at) ==> {
            &&& row(before.sale_items@, sale_item_id) matches Some(was) && (row(
                after.sale_items@,
                sale_item_id,
            ) matches Some(now) && {
                &&& now.item.code@ == trimmed(was.item.code@)
                &&& now.item.name@ == trimmed(input.name@)
                &&& now.item.category@ == trimmed(input.category@)
                &&& now.item.active == input.active
                &&& now.from_product_id == was.from_product_id
                &&& now.created_at == was.created_at
            })
            &&& row(after.sale_items@, other) == row(before.sale_items@, other)
            &&& is_written_down(
                before.audit@,
                after.audit@,
                "SALE_ITEM_CHANGED"@,
                "sale_item"@,
                sale_item_id,
                by,
                at,
            )
            &&& after == (Store { sale_items: after.sale_items, audit: after.audit, ..before })
        },
        sale_item_switched(before, after, sale_item_id, active, by, at) ==> {
            &&& row(before.sale_items@, sale_item_id) matches Some(was) && row(
                after.sale_items@,
                sale_item_id,
            ) == Some(SaleItemRow { item: SaleItem { active, ..was.item }, ..was })
            &&& row(after.sale_items@, other) == row(before.sale_items@, other)
            &&& is_written_down(
                before.audit@,
                after.audit@,
                if active {
                    "SALE_ITEM_ACTIVATED"@
                } else {
                    "SALE_ITEM_DEACTIVATED"@
                },
                "sale_item"@,
                sale_item_id,
                by,
                at,
            )
            &&& after == (Store { sale_items: after.sale_items, audit: after.audit, ..before })
        },
{
    place_is_first(before.sale_items@, sale_item_id);
    place_is_first(before.sale_items@, other);
    if place(before.sale_items@, sale_item_id) is Some {
        let p = place(before.sale_items@, sale_item_id)->0;
        let was = before.sale_items@[p];
        if sale_item_updated(before, after, sale_item_id, input, by, at) {
            let now = after.sale_items@[p];
            changing_keeps_places(before.sale_items@, p, now, sale_item_id);
            changing_keeps_places(before.sale_items@, p, now, other);
            let note = Note {
                action: "SALE_ITEM_CHANGED"@,
                entity: "sale_item"@,
                id: sale_item_id,
                before: Some(
                    crate::commissioning::facts_text(
                        was.item.name@,
                        was.item.category@,
                        was.item.active,
                    ),
                ),
                after: Some(
                    crate::commissioning::facts_text(
                        trimmed(input.name@),
                        trimmed(input.category@),
                        input.active,
                    ),
                ),
            };
            one_note_is_one_entry(before.audit@, after.audit@, note, by, at);
        }
        if sale_item_switched(before, after, sale_item_id, active, by, at) {
            let now = SaleItemRow { item: SaleItem { active, ..was.item }, ..was };
            changing_keeps_places(before.sale_items@, p, now, sale_item_id);
            changing_keeps_places(before.sale_items@, p, now, other);
            let note = crate::commissioning::switched(
                "SALE_ITEM_DEACTIVATED"@,
                "SALE_ITEM_ACTIVATED"@,
                "sale_item"@,
                sale_item_id,
                was.item.active,
                active,
            );
            one_note_is_one_entry(before.audit@, after.audit@, note, by, at);
        }
    }
}

// ---------------------------------------------------------------------------
// Recipes and measures
// ---------------------------------------------------------------------------

/// What is poured by measure draws the nearest thousandth of a counted unit off
/// the shelf, and only from a product that says how much one holds.
pub proof fn a_measure_draws_its_part_of_a_unit(product: Product, poured: Milli)
    requires
        poured.thousandths >= 0,
    ensures
        units_poured(product, poured) matches Ok(units) ==> {
            &&& product.content_measure@ != "NONE"@
            &&& product.content_per_unit.thousandths > 0
            &&& units.thousandths > 0
            &&& is_nearest(
                units.thousandths as int,
                poured.thousandths * 1_000,
                product.content_per_unit.thousandths as int,
            )
        },
        product.content_measure@ == "NONE"@ ==> units_poured(product, poured) is Err,
        product.content_per_unit.thousandths <= 0 ==> units_poured(product, poured) is Err,
        product.content_measure@ != "NONE"@ && product.content_per_unit.thousandths > 0
            && poured.thousandths * 1_000 >= product.content_per_unit.thousandths && fits(
            poured.thousandths * 1_000,
        ) ==> units_poured(product, poured) is Ok,
{
    let p = poured.thousandths as int;
    let u = product.content_per_unit.thousandths as int;
    if u > 0 {
        a_measure_is_a_part_of_a_unit(p, u, 0);
        let units = crate::repo::catalogue::pour_fraction(p, u);
        if p * 1_000 >= u && fits(p * 1_000) {
            let a = p * 1_000 + u / 2;
            assert(a / u >= 1) by (nonlinear_arith)
                requires
                    a >= u,
                    u > 0,
            ;
            assert(a / u <= a) by (nonlinear_arith)
                requires
                    a >= 0,
                    u > 0,
            ;
            if u >= 2 {
                assert(a / u <= p * 1_000) by (nonlinear_arith)
                    requires
                        u >= 2,
                        a == p * 1_000 + u / 2,
                        p * 1_000 >= u,
                ;
            }
        }
    }
}

/// The lines of a recipe are taken in counted units, one for one: as typed, or,
/// where they were typed in a measure, as the measure draws.
pub proof fn a_recipe_is_taken_in_units(db: Store, lines: Seq<RecipeLine>)
    ensures
        lines_in_units(db, lines) matches Ok(units) ==> units.len() == lines.len() && forall|i: int|
            0 <= i < lines.len() ==> {
                let line = lines[i];
                &&& (#[trigger] units[i]).0 == line.product_id
                &&& row(db.products@, line.product_id) matches Some(found) && {
                    &&& !line.in_measure ==> units[i].1 == line.quantity
                    &&& line.in_measure ==> units_poured(found.product, line.quantity) == Ok::<
                        Milli,
                        Seq<char>,
                    >(units[i].1)
                }
            },
    decreases lines.len(),
{
    if lines.len() > 0 {
        a_recipe_is_taken_in_units(db, lines.drop_last());
        if lines_in_units(db, lines) is Ok {
            let units = lines_in_units(db, lines)->Ok_0;
            let front = lines_in_units(db, lines.drop_last())->Ok_0;
            assert forall|i: int| 0 <= i < lines.len() implies {
                let line = lines[i];
                &&& (#[trigger] units[i]).0 == line.product_id
                &&& row(db.products@, line.product_id) matches Some(found) && {
                    &&& !line.in_measure ==> units[i].1 == line.quantity
                    &&& line.in_measure ==> units_poured(found.product, line.quantity) == Ok::<
                        Milli,
                        Seq<char>,
                    >(units[i].1)
                }
            } by {
                if i < lines.len() - 1 {
                    assert(units[i] == front[i]);
                    assert(lines.drop_last()[i] == lines[i]);
                }
            }
        }
    }
}

/// A recipe is replaced only by one with something in it, of products that are
/// on the books, for an entry that is on the menu.
pub proof fn when_a_recipe_can_be_replaced(
    db: Store,
    actor: i64,
    sale_item_id: i64,
    lines: Seq<RecipeLine>,
)
    requires
        revise_recipe_refusal(db, actor, sale_item_id, lines) is None,
    ensures
        is_owner(db, actor),
        lines.len() > 0,
        row(db.sale_items@, sale_item_id) is Some,
        forall|i: int|
            0 <= i < lines.len() ==> row(db.products@, (#[trigger] lines[i]).product_id) is Some,
{
    a_recipe_is_taken_in_units(db, lines);
    let units = lines_in_units(db, lines)->Ok_0;
    assert forall|i: int| 0 <= i < lines.len() implies row(
        db.products@,
        (#[trigger] lines[i]).product_id,
    ) is Some by {
        assert(units[i].0 == lines[i].product_id);
    }
}

// ---------------------------------------------------------------------------
// Selling from the shelf
// ---------------------------------------------------------------------------

/// Selling a product whole puts an entry on the menu that takes exactly one of
/// it; selling it by measure one that takes the part that is poured, under a name
/// that says how much.
pub proof fn what_is_sold_from_the_shelf_takes_from_it(
    product: Product,
    product_id: i64,
    poured: Milli,
    units: Milli,
    price: Money,
)
    ensures
        ({
            let whole = sold_whole(product, product_id, price);
            &&& whole.name == product.name@
            &&& whole.category == product.category@
            &&& whole.from_product_id == Some(product_id)
            &&& whole.price == price
            &&& whole.lines.len() == 1
            &&& whole.lines[0].0 == product_id
            &&& whole.lines[0].1.thousandths == 1_000
        }),
        ({
            let measured = sold_by_measure(product, product_id, poured, units, price);
            &&& measured.name == product.name@ + " "@ + milli_text(poured.thousandths as int) + (
            if product.content_measure@ == "ML"@ {
                "ml"@
            } else {
                "g"@
            })
            &&& measured.category == product.category@
            &&& measured.from_product_id is None
            &&& measured.price == price
            &&& measured.lines.len() == 1
            &&& measured.lines[0] == (product_id, units)
        }),
{
}

/// What is put on the menu is a new entry at its price, with its recipe and
/// under its own code; the shelf and every other entry stay.
pub proof fn what_is_put_on_the_menu_is_there(
    before: Store,
    after: Store,
    change: Change,
    listing: Listing,
    by: i64,
    at: i64,
    other: i64,
)
    requires
        put_on_menu(before, after, change, listing, by, at),
    ensures
        fresh_id(before.audit@) == Some(change.audit_sequence),
        row(before.sale_items@, change.entity_id) is None,
        row(after.sale_items@, change.entity_id) matches Some(new) && {
            &&& new.item.active
            &&& new.item.code@ == "S-"@ + int_text(change.entity_id as int)
            &&& new.item.name@ == trimmed(listing.name)
            &&& new.item.category@ == trimmed(listing.category)
            &&& new.from_product_id == listing.from_product_id
        },
        other != change.entity_id ==> row(after.sale_items@, other) == row(
            before.sale_items@,
            other,
        ),
        ({
            let price = after.prices@.last();
            &&& after.prices@.len() > 0
            &&& price.sale_item_id == change.entity_id
            &&& price.price == listing.price
            &&& price.effective_from == at
            &&& price.effective_to is None
            &&& price.created_by == Some(by)
        }),
        ({
            let recipe = after.recipes@.last();
            &&& after.recipes@.len() > 0
            &&& recipe.sale_item_id == change.entity_id
            &&& recipe.effective_from == at
            &&& recipe.effective_to is None
            &&& recipe.created_by == Some(by)
            &&& row(before.recipes@, recipe.id) is None
            &&& after.recipe_lines@.len() == before.recipe_lines@.len() + listing.lines.len()
            &&& forall|i: int|
                0 <= i < before.recipe_lines@.len() ==> #[trigger] after.recipe_lines@[i]
                    == before.recipe_lines@[i]
            &&& forall|i: int|
                0 <= i < listing.lines.len() ==> ({
                    let line = after.recipe_lines@[before.recipe_lines@.len() + i];
                    &&& line.recipe_id == recipe.id
                    &&& line.product_id == (#[trigger] listing.lines[i]).0
                    &&& line.quantity == listing.lines[i].1
                })
        }),
        after == (Store {
            sale_items: after.sale_items,
            recipes: after.recipes,
            recipe_lines: after.recipe_lines,
            prices: after.prices,
            audit: after.audit,
            ..before
        }),
{
    let id = change.entity_id;
    let new = after.sale_items@.last();
    assert(after.sale_items@ =~= before.sale_items@.push(new));
    a_fresh_id_is_unused(before.sale_items@);
    a_fresh_id_is_unused(before.recipes@);
    place_is_first(before.sale_items@, id);
    place_is_first(before.sale_items@, other);
    place_is_first(before.recipes@, after.recipes@.last().id);
    writing_keeps_places(before.sale_items@, new, id);
    writing_keeps_places(before.sale_items@, new, other);
    reveal_strlit("S");
    reveal_strlit("-");
    reveal_strlit("S-");
    assert("S"@ + "-"@ =~= "S-"@);
}

/// A product is put on the menu whole at most once.
pub proof fn a_product_is_sold_whole_once(
    db: Store,
    actor: i64,
    product_id: i64,
    price: Money,
)
    requires
        sell_product_refusal(db, actor, product_id, price) is None,
    ensures
        is_owner(db, actor),
        price.minor >= 0,
        row(db.products@, product_id) is Some,
        !there_is(db.sale_items@, |r: SaleItemRow| r.from_product_id == Some(product_id)),
{
    a_row_is_found_where_there_is_one(
        db.sale_items@,
        sells_one_for_one(product_id),
        |r: SaleItemRow| r.from_product_id == Some(product_id),
    );
}

// ---------------------------------------------------------------------------
// The shelf
// ---------------------------------------------------------------------------

/// Whether a product can come off the books: nothing of it is left, and no drink
/// on sale is made with it.
pub open spec fn can_come_off(db: Store, product_id: i64) -> bool {
    &&& shelf(db, product_id) == Some(0i64)
    &&& forall|i: int|
        0 <= i < db.recipe_lines@.len() && (#[trigger] db.recipe_lines@[i]).product_id
            == product_id ==> !is_live(db, db.recipe_lines@[i])
}

/// A product comes off the books only when nothing of it is left and no drink on
/// sale is made with it.
pub proof fn when_a_product_can_be_switched(
    db: Store,
    actor: i64,
    product_id: i64,
    active: bool,
)
    ensures
        product_active_refusal(db, actor, product_id, active) is None <==> {
            &&& is_owner(db, actor)
            &&& room_for(db.audit@, 1)
            &&& row(db.products@, product_id) matches Some(found) && (found.product.active
                && !active ==> can_come_off(db, product_id))
        },
{
    a_product_is_poured_into_a_drink_on_sale(db, product_id, 0);
}

/// An edited product stays on the books under the same rules, and has to say what
/// it is, how it is counted and, where it is measured, how much one holds.
pub proof fn when_a_product_can_be_edited(
    db: Store,
    actor: i64,
    product_id: i64,
    input: ProductUpdate<'_>,
)
    requires
        update_product_refusal(db, actor, product_id, input) is None,
    ensures
        is_owner(db, actor),
        says(input.name@),
        input.base_units_per_pack.thousandths > 0,
        input.units_per_purchase_pack > 0,
        input.low_stock_threshold.thousandths >= 0,
        input.content_measure != Measure::Whole ==> input.content_per_unit.thousandths > 0,
        row(db.products@, product_id) matches Some(found) && (found.product.active && !input.active
            ==> can_come_off(db, product_id)),
{
    a_text_that_is_not_blank_says_something(input.name@);
    a_product_is_poured_into_a_drink_on_sale(db, product_id, 0);
}

/// A new product is on the books as typed, with nothing of it on the shelf and no
/// cost yet.
pub proof fn a_new_product_costs_nothing_yet(
    before: Store,
    after: Store,
    id: i64,
    input: NewProduct<'_>,
    by: i64,
    at: i64,
    other: i64,
)
    requires
        product_created(before, after, id, input, by, at),
    ensures
        row(before.products@, id) is None,
        row(after.products@, id) matches Some(new) && {
            &&& new.product.active
            &&& new.product.code@ == "P-"@ + int_text(id as int)
            &&& new.product.name@ == trimmed(input.name@)
            &&& new.product.category@ == trimmed(input.category@)
            &&& new.product.base_units_per_pack == input.base_units_per_pack.thousandths
            &&& new.product.units_per_purchase_pack == input.units_per_purchase_pack
            &&& new.product.low_stock_threshold == input.low_stock_threshold
            &&& new.product.tracks_inventory == input.tracks_inventory
            &&& new.product.destination@ == input.destination.word()
            &&& new.product.content_measure@ == input.content_measure.word()
            &&& new.product.content_per_unit == input.content_per_unit
            &&& new.product.avg_cost.minor == 0
            &&& new.created_at == at
        },
        other != id ==> row(after.products@, other) == row(before.products@, other),
        after.movements == before.movements,
        input.sale_price is None ==> after == (Store {
            products: after.products,
            audit: after.audit,
            ..before
        }) && is_written_down(
            before.audit@,
            after.audit@,
            "PRODUCT_CREATED"@,
            "product"@,
            id,
            by,
            at,
        ),
        input.sale_price matches Some(price) ==> {
            let entry = after.sale_items@.last();
            &&& after.sale_items@.len() == before.sale_items@.len() + 1
            &&& entry.from_product_id == Some(id)
            &&& entry.item.name@ == trimmed(input.name@)
            &&& after.prices@.last().price == price
            &&& after.prices@.last().sale_item_id == entry.item.id
            &&& after.recipes@.last().sale_item_id == entry.item.id
            &&& after.recipe_lines@.last().product_id == id
            &&& after.recipe_lines@.last().quantity.thousandths == 1_000
            &&& after.recipe_lines@.last().recipe_id == after.recipes@.last().id
        },
{
    let new = after.products@.last();
    assert(after.products@ =~= before.products@.push(new));
    a_fresh_id_is_unused(before.products@);
    place_is_first(before.products@, id);
    place_is_first(before.products@, other);
    writing_keeps_places(before.products@, new, id);
    writing_keeps_places(before.products@, new, other);
    reveal_strlit("P");
    reveal_strlit("-");
    reveal_strlit("P-");
    assert("P"@ + "-"@ =~= "P-"@);
    if input.sale_price is None {
        one_note_is_one_entry(
            before.audit@,
            after.audit@,
            crate::commissioning::shelved_note(id, input.name@, input.category@),
            by,
            at,
        );
    }
}

/// An edited product says what was typed and keeps its cost and its code; the
/// entry that sells it whole takes its name along, and no other entry changes. A
/// switched product changes in nothing but whether it is on the books.
pub proof fn an_edited_product_keeps_its_cost(
    before: Store,
    after: Store,
    product_id: i64,
    input: ProductUpdate<'_>,
    active: bool,
    by: i64,
    at: i64,
    other: i64,
)
    requires
        other != product_id,
    ensures
        product_updated(before, after, product_id, input, by, at) ==> {
            &&& row(before.products@, product_id) matches Some(was) && (row(
                after.products@,
                product_id,
            ) matches Some(now) && {
                &&& now.product.code@ == trimmed(was.product.code@)
                &&& now.product.avg_cost == was.product.avg_cost
                &&& now.created_at == was.created_at
                &&& now.product.name@ == trimmed(input.name@)
                &&& now.product.category@ == trimmed(input.category@)
                &&& now.product.base_unit@ == input.base_unit.word()
                &&& now.product.base_units_per_pack == input.base_units_per_pack.thousandths
                &&& now.product.units_per_purchase_pack == input.units_per_purchase_pack
                &&& now.product.low_stock_threshold == input.low_stock_threshold
                &&& now.product.tracks_inventory == input.tracks_inventory
                &&& now.product.destination@ == input.destination.word()
                &&& now.product.content_measure@ == input.content_measure.word()
                &&& now.product.content_per_unit == input.content_per_unit
                &&& now.product.active == input.active
            })
            &&& row(after.products@, other) == row(before.products@, other)
            &&& twin(before, product_id) matches Some(item) ==> (row(
                before.sale_items@,
                item,
            ) matches Some(was) ==> (row(after.sale_items@, item) matches Some(now)
                && now.item.name@ == trimmed(input.name@) && now.item.category
                == was.item.category && now.item.active == was.item.active && now.item.code
                == was.item.code))
            &&& forall|item: i64|
                twin(before, product_id) != Some(item) ==> #[trigger] row(after.sale_items@, item)
                    == row(before.sale_items@, item)
            &&& after == (Store {
                products: after.products,
                sale_items: after.sale_items,
                audit: after.audit,
                ..before
            })
        },
        product_switched(before, after, product_id, active, by, at) ==> {
            &&& row(before.products@, product_id) matches Some(was) && row(
                after.products@,
                product_id,
            ) == Some(ProductRow { product: Product { active, ..was.product }, ..was })
            &&& row(after.products@, other) == row(before.products@, other)
            &&& is_written_down(
                before.audit@,
                after.audit@,
                if active {
                    "PRODUCT_ACTIVATED"@
                } else {
                    "PRODUCT_DEACTIVATED"@
                },
                "product"@,
                product_id,
                by,
                at,
            )
            &&& after == (Store { products: after.products, audit: after.audit, ..before })
        },
{
    place_is_first(before.products@, product_id);
    place_is_first(before.products@, other);
    if place(before.products@, product_id) is Some {
        let p = place(before.products@, product_id)->0;
        let was = before.products@[p];
        if product_updated(before, after, product_id, input, by, at) {
            let now = after.products@[p];
            changing_keeps_places(before.products@, p, now, product_id);
            changing_keeps_places(before.products@, p, now, other);
            if crate::commissioning::renamed_along(before, product_id, input.name@) is Some {
                let item = crate::commissioning::renamed_along(before, product_id, input.name@)->0;
                place_is_first(before.sale_items@, item);
                let q = place(before.sale_items@, item)->0;
                let renamed = after.sale_items@[q];
                assert forall|entry: i64| true implies #[trigger] row(after.sale_items@, entry)
                    == (if entry == item {
                    Some(renamed)
                } else {
                    row(before.sale_items@, entry)
                }) by {
                    place_is_first(before.sale_items@, entry);
                    changing_keeps_places(before.sale_items@, q, renamed, entry);
                }
            }
        }
        if product_switched(before, after, product_id, active, by, at) {
            let now = ProductRow { product: Product { active, ..was.product }, ..was };
            changing_keeps_places(before.products@, p, now, product_id);
            changing_keeps_places(before.products@, p, now, other);
            let note = crate::commissioning::switched(
                "PRODUCT_DEACTIVATED"@,
                "PRODUCT_ACTIVATED"@,
                "product"@,
                product_id,
                was.product.active,
                active,
            );
            one_note_is_one_entry(before.audit@, after.audit@, note, by, at);
        }
    }
}

/// A product is put on the books exactly when an owner does it and it says what it
/// is, how it is counted and, where it is measured, how much one holds; without a
/// price nothing else is asked.
pub proof fn when_a_product_can_be_created(db: Store, actor: i64, input: NewProduct<'_>)
    ensures
        input.sale_price is None ==> (create_product_refusal(db, actor, input) is None <==> {
            &&& is_owner(db, actor)
            &&& room_for(db.audit@, 1)
            &&& fresh_id(db.products@) is Some
            &&& says(input.name@)
            &&& input.base_units_per_pack.thousandths > 0
            &&& input.units_per_purchase_pack > 0
            &&& input.low_stock_threshold.thousandths >= 0
            &&& input.content_measure != Measure::Whole ==> input.content_per_unit.thousandths > 0
        }),
        input.sale_price matches Some(price) ==> (create_product_refusal(db, actor, input) is None
            ==> price.minor >= 0 && says(input.name@) && says(input.category@)),
{
    a_text_that_is_not_blank_says_something(input.name@);
    a_text_that_is_not_blank_says_something(input.category@);
}

/// A new price stands from the moment it is set. The price before it ends there
/// and stays on the books; no other price changes, and no recipe.
pub proof fn a_changed_price_ends_the_last(
    before: Store,
    after: Store,
    sale_item_id: i64,
    price: Money,
    by: i64,
    at: i64,
)
    requires
        price_changed(before, after, sale_item_id, price, by, at),
    ensures
        after.prices@.len() == before.prices@.len() + 1,
        ({
            let new = after.prices@.last();
            &&& fresh_id(before.prices@) == Some(new.id)
            &&& new.sale_item_id == sale_item_id
            &&& new.price == price
            &&& new.effective_from == at
            &&& new.effective_to is None
            &&& new.created_by == Some(by)
        }),
        forall|i: int|
            0 <= i < before.prices@.len() ==> #[trigger] after.prices@[i] == (
            if before.prices@[i].sale_item_id == sale_item_id && before.prices@[i].effective_to
                is None {
                Price { effective_to: Some(at), ..before.prices@[i] }
            } else {
                before.prices@[i]
            }),
        is_written_down(
            before.audit@,
            after.audit@,
            "PRICE_CHANGED"@,
            "sale_item"@,
            sale_item_id,
            by,
            at,
        ),
        after.audit@.last().new_value matches Some(text) && text@ == "price="@ + int_text(
            price.minor as int,
        ),
        after == (Store { prices: after.prices, audit: after.audit, ..before }),
{
    one_note_is_one_entry(
        before.audit@,
        after.audit@,
        crate::commissioning::price_note(before, sale_item_id, price),
        by,
        at,
    );
}

/// A new recipe stands from the moment it is set, with the lines that were asked
/// for in counted units. The recipe before it ends there and keeps its lines; no
/// price changes.
pub proof fn a_replaced_recipe_ends_the_last(
    before: Store,
    after: Store,
    sale_item_id: i64,
    lines: Seq<RecipeLine>,
    by: i64,
    at: i64,
)
    requires
        recipe_replaced(before, after, sale_item_id, lines, by, at),
    ensures
        after.recipes@.len() == before.recipes@.len() + 1,
        ({
            let new = after.recipes@.last();
            &&& fresh_id(before.recipes@) == Some(new.id)
            &&& new.sale_item_id == sale_item_id
            &&& new.effective_from == at
            &&& new.effective_to is None
            &&& new.created_by == Some(by)
            &&& lines_in_units(before, lines) matches Ok(units) && after.recipe_lines@.len()
                == before.recipe_lines@.len() + units.len() && (forall|i: int|
                0 <= i < units.len() ==> ({
                    let line = after.recipe_lines@[before.recipe_lines@.len() + i];
                    &&& line.recipe_id == new.id
                    &&& line.product_id == (#[trigger] units[i]).0
                    &&& line.quantity == units[i].1
                }))
        }),
        forall|i: int|
            0 <= i < before.recipe_lines@.len() ==> #[trigger] after.recipe_lines@[i]
                == before.recipe_lines@[i],
        forall|i: int|
            0 <= i < before.recipes@.len() ==> #[trigger] after.recipes@[i] == (
            if before.recipes@[i].sale_item_id == sale_item_id && before.recipes@[i].effective_to
                is None {
                Recipe { effective_to: Some(at), ..before.recipes@[i] }
            } else {
                before.recipes@[i]
            }),
        is_written_down(
            before.audit@,
            after.audit@,
            "RECIPE_CHANGED"@,
            "recipe"@,
            fresh_id(before.recipes@)->0,
            by,
            at,
        ),
        after == (Store {
            recipes: after.recipes,
            recipe_lines: after.recipe_lines,
            audit: after.audit,
            ..before
        }),
{
    one_note_is_one_entry(
        before.audit@,
        after.audit@,
        crate::commissioning::recipe_note(before, sale_item_id, fresh_id(before.recipes@)->0),
        by,
        at,
    );
}

} // verus!

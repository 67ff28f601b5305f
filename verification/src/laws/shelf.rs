//! The shelf, the deliveries that fill it, and the menu that empties it.

use vstd::prelude::*;

use super::figures::{a_pour_is_rounded_to_the_nearest, is_nearest};
use super::{
    a_checked_sum_is_the_total, a_list_is_exact, a_text_that_is_not_blank_says_something,
    comes_first, lists_exactly, says, the_first_chosen_comes_first, total,
};
use crate::money::{fits, Milli, Money};
use crate::repo::catalogue::{
    consumption, draws, expansion, first_chosen, link_refusal, live_drink, menu_line, menu_of,
    offered_before, on_menu, on_sale, open_price, open_recipe, pouring_line, price_set,
    prices_closed, prices_of, product_added, product_edited, product_objection, products_on_sale,
    recipe_revised, recipes_closed, recipes_of, revise_refusal, rival_twin, rounded_pours,
    sale_item_objection, sellable, sells_one_for_one, shelf_list, shelved_before, sits_on_open_tab,
    twin, twin_linked, whole_shelf, MenuItem, NewProduct, NewSaleItem, Price, Product, ProductRow,
    Recipe, RecipeLine, SaleItemRow,
};
use crate::repo::orders::Line;
use crate::repo::purchases::{
    averaged, cost_changed, deliveries, delivery_started, history, house_found, is_house,
    line_delivered, line_refusal, open_refusal, received_later, received_line, Purchase,
    PurchaseLine, Received, Supplier,
};
use crate::repo::stock::{
    is_running_low, levels_of, missing_for, moved, movement_posted, post_refusal, requirement,
    running_low, scarcer, shelf, shortfall_of, Kind, Level, Movement, Short, StockMovement,
};
use crate::repo::{tabs, Why};
use crate::store::Store;
use crate::table::{
    changing_keeps_places, chosen, fresh_id, in_order, ordering_puts_in_order, place,
    place_is_first, row, writing_keeps_places,
};
use crate::tally::{adding_adds, amount_of, ascending, lists};
use crate::text::{text_before, trimmed};

verus! {

// ---------------------------------------------------------------------------
// Movements
// ---------------------------------------------------------------------------

/// What a movement does to the shelf of a product.
pub open spec fn moves(product_id: i64) -> spec_fn(StockMovement) -> int {
    |m: StockMovement|
        if m.product_id == product_id {
            m.quantity.thousandths as int
        } else {
            0
        }
}

/// What is on a shelf is the sum of every movement of that product, and of no
/// other.
pub proof fn a_shelf_is_the_sum_of_its_movements(db: Store, product_id: i64)
    ensures
        match shelf(db, product_id) {
            Some(amount) => amount == total(db.movements@, moves(product_id)),
            None => exists|n: int|
                0 <= n <= db.movements@.len() && !fits(
                    total(#[trigger] db.movements@.take(n), moves(product_id)),
                ),
        },
{
    a_checked_sum_is_the_total(db.movements@, moved(product_id), moves(product_id));
}

/// A movement is written exactly when it moves something; when a sale takes and
/// a purchase brings; when damage and loss say why; and when the delivery it
/// names is there.
pub proof fn when_stock_can_move(db: Store, movement: Movement<'_>)
    ensures
        post_refusal(db, movement) is None <==> {
            &&& movement.quantity.thousandths != 0
            &&& movement.kind == Kind::Sale ==> movement.quantity.thousandths < 0
            &&& movement.kind == Kind::Purchase ==> movement.quantity.thousandths > 0
            &&& movement.kind == Kind::Damage || movement.kind == Kind::Loss ==> says(
                movement.reason@,
            )
            &&& movement.purchase_id matches Some(id) ==> row(db.purchases@, id) is Some
            &&& fresh_id(db.movements@) is Some
        },
{
    a_text_that_is_not_blank_says_something(movement.reason@);
}

/// A movement moves the shelf of its product by exactly its quantity, and no
/// other shelf, and it is written down as it was made.
pub proof fn a_movement_moves_its_shelf(
    before: Store,
    after: Store,
    movement: Movement<'_>,
    id: i64,
    product_id: i64,
)
    requires
        movement_posted(before, after, movement, id),
    ensures
        shelf(before, product_id) matches Some(was) ==> (shelf(after, product_id) matches Some(is)
            ==> is == was + (if movement.product_id == product_id {
            movement.quantity.thousandths as int
        } else {
            0
        })),
        ({
            let new = after.movements@.last();
            &&& new.id == id
            &&& new.product_id == movement.product_id
            &&& new.kind == movement.kind
            &&& new.quantity == movement.quantity
            &&& new.unit_cost == movement.unit_cost
            &&& new.reason@ == movement.reason@
            &&& new.order_id == movement.order_id
            &&& new.purchase_id == movement.purchase_id
            &&& new.shift_id == movement.shift_id
            &&& new.created_at == movement.at
            &&& new.created_by == movement.by
        }),
        after.movements@.drop_last() == before.movements@,
        after.products == before.products,
        after.cash == before.cash,
{
    a_shelf_is_the_sum_of_its_movements(before, product_id);
    a_shelf_is_the_sum_of_its_movements(after, product_id);
}

// ---------------------------------------------------------------------------
// Levels and shortages
// ---------------------------------------------------------------------------

/// Products are listed by category, and within one by name.
pub open spec fn stands_before(a: Product, b: Product) -> bool {
    text_before(a.category@, b.category@) || (a.category@ == b.category@ && text_before(
        a.name@,
        b.name@,
    ))
}

/// The products on sale are those that are active, and no other.
pub proof fn products_on_sale_are_the_active_ones(db: Store)
    ensures
        lists_exactly(
            products_on_sale(db),
            db.products@.map_values(|r: ProductRow| r.product),
            |p: Product| p.active,
            |a: Product, b: Product| stands_before(a, b),
        ),
        lists_exactly(
            whole_shelf(db),
            db.products@.map_values(|r: ProductRow| r.product),
            |p: Product| true,
            |a: Product, b: Product| stands_before(a, b),
        ),
{
    crate::lists::what_is_listed_by_name_ranks();
    let all = db.products@.map_values(|r: ProductRow| r.product);
    assert(shelf_list(db.products@) =~= all);
    a_list_is_exact(
        all,
        on_sale(),
        shelved_before(),
        |p: Product| p.active,
        |a: Product, b: Product| stands_before(a, b),
    );
    let every = |p: Product| true;
    all_are_chosen(all, every);
    a_list_is_exact(
        all,
        every,
        shelved_before(),
        |p: Product| true,
        |a: Product, b: Product| stands_before(a, b),
    );
}

proof fn all_are_chosen<T>(rows: Seq<T>, every: spec_fn(T) -> bool)
    requires
        forall|r: T| #[trigger] every(r),
    ensures
        chosen(rows, every) == rows,
    decreases rows.len(),
{
    if rows.len() > 0 {
        all_are_chosen(rows.drop_last(), every);
        assert(every(rows.last()));
        assert(rows.drop_last().push(rows.last()) =~= rows);
    } else {
        assert(chosen(rows, every) =~= rows);
    }
}

/// A level says of its product what is on the books, and of its shelf what was
/// moved.
pub proof fn a_level_says_what_is_there(db: Store, levels: Seq<Level>, i: int)
    requires
        levels_of(db, levels, products_on_sale(db)),
        0 <= i < levels.len(),
    ensures
        levels.len() == products_on_sale(db).len(),
        ({
            let product = products_on_sale(db)[i];
            &&& levels[i].product_id == product.id
            &&& levels[i].code == product.code
            &&& levels[i].name == product.name
            &&& levels[i].category == product.category
            &&& levels[i].base_unit == product.base_unit
            &&& levels[i].on_hand.thousandths == total(db.movements@, moves(product.id))
            &&& levels[i].threshold == product.low_stock_threshold
            &&& levels[i].tracks_inventory == product.tracks_inventory
            &&& levels[i].avg_cost == product.avg_cost
        }),
{
    assert(levels[i].is_of(db, products_on_sale(db)[i]));
    a_shelf_is_the_sum_of_its_movements(db, products_on_sale(db)[i].id);
}

/// What is running out is every active product that is counted and is down to
/// its own threshold, and no other, the one farthest below it first.
pub proof fn what_runs_low_is_listed_worst_first(db: Store, found: Seq<Level>)
    requires
        running_low(db, found),
    ensures
        exists|all: Seq<Level>|
            #[trigger] levels_of(db, all, products_on_sale(db)) && lists_exactly(
                found,
                all,
                |l: Level|
                    l.tracks_inventory && l.on_hand.thousandths <= l.threshold.thousandths,
                |a: Level, b: Level|
                    a.on_hand.thousandths - a.threshold.thousandths < b.on_hand.thousandths
                        - b.threshold.thousandths,
            ),
{
    crate::lists::what_is_listed_by_number_ranks();
    let all = choose|all: Seq<Level>|
        {
            &&& #[trigger] levels_of(db, all, products_on_sale(db))
            &&& found == in_order(chosen(all, is_running_low()), scarcer())
        };
    a_list_is_exact(
        all,
        is_running_low(),
        scarcer(),
        |l: Level| l.tracks_inventory && l.on_hand.thousandths <= l.threshold.thousandths,
        |a: Level, b: Level|
            a.on_hand.thousandths - a.threshold.thousandths < b.on_hand.thousandths
                - b.threshold.thousandths,
    );
}

/// How much of a product is wanted in all.
pub open spec fn wanted_in_all(wanted: Seq<(i64, Milli)>, product_id: i64) -> int {
    total(
        wanted,
        |w: (i64, Milli)|
            if w.0 == product_id {
                w.1.thousandths as int
            } else {
                0
            },
    )
}

/// Whether a product is wanted at all.
pub open spec fn is_wanted(wanted: Seq<(i64, Milli)>, product_id: i64) -> bool {
    exists|i: int| 0 <= i < wanted.len() && (#[trigger] wanted[i]).0 == product_id
}

proof fn wants_are_added_up(wanted: Seq<(i64, Milli)>, product_id: i64)
    ensures
        requirement(wanted) matches Ok(totals) ==> {
            &&& ascending(totals)
            &&& amount_of(totals, product_id) == wanted_in_all(wanted, product_id)
            &&& lists(totals, product_id) <==> is_wanted(wanted, product_id)
            &&& forall|i: int| 0 <= i < wanted.len() ==> (#[trigger] wanted[i]).1.thousandths > 0
        },
    decreases wanted.len(),
{
    if wanted.len() > 0 && requirement(wanted) is Ok {
        let front = wanted.drop_last();
        wants_are_added_up(front, product_id);
        adding_adds(
            requirement(front)->Ok_0,
            wanted.last().0,
            wanted.last().1.thousandths as int,
            product_id,
        );
        assert forall|i: int| 0 <= i < wanted.len() implies (
        #[trigger] wanted[i]).1.thousandths > 0 by {
            if i < front.len() {
                assert(front[i] == wanted[i]);
            }
        }
        if is_wanted(front, product_id) {
            let i = choose|i: int| 0 <= i < front.len() && (#[trigger] front[i]).0 == product_id;
            assert(wanted[i].0 == product_id);
        }
        if is_wanted(wanted, product_id) {
            let i = choose|i: int| 0 <= i < wanted.len() && (#[trigger] wanted[i]).0 == product_id;
            if i < front.len() {
                assert(front[i].0 == product_id);
            }
        }
        if wanted.last().0 == product_id {
            assert(wanted[wanted.len() - 1].0 == product_id);
        }
    }
}

/// The entry of a product in a tally is its amount.
pub proof fn an_entry_is_its_amount(entries: Seq<(i64, int)>, i: int)
    requires
        ascending(entries),
        0 <= i < entries.len(),
    ensures
        amount_of(entries, entries[i].0) == entries[i].1,
    decreases entries.len(),
{
    if i > 0 {
        let rest = entries.drop_first();
        assert(entries[0].0 < entries[i].0);
        assert forall|a: int, b: int| 0 <= a < b < rest.len() implies (#[trigger] rest[a]).0 < (
        #[trigger] rest[b]).0 by {
            assert(rest[a] == entries[a + 1]);
            assert(rest[b] == entries[b + 1]);
        }
        assert(rest[i - 1] == entries[i]);
        an_entry_is_its_amount(rest, i - 1);
    }
}

/// Whether a shortage is among those that were found.
pub open spec fn is_short_of(found: Seq<Short>, product_id: i64) -> bool {
    exists|i: int| 0 <= i < found.len() && (#[trigger] found[i]).product_id == product_id
}

/// Whether there is not enough of a counted product.
pub open spec fn runs_short(db: Store, product_id: i64, wanted: int) -> bool {
    row(db.products@, product_id) matches Some(listed) && listed.product.tracks_inventory && total(
        db.movements@,
        moves(product_id),
    ) < wanted
}

proof fn shortages_are_found(db: Store, totals: Seq<(i64, int)>, product_id: i64)
    requires
        ascending(totals),
    ensures
        missing_for(db, totals) matches Ok(found) ==> {
            &&& forall|i: int|
                0 <= i < found.len() ==> {
                    let short = #[trigger] found[i];
                    &&& lists(totals, short.product_id)
                    &&& short.wanted == amount_of(totals, short.product_id)
                    &&& short.available == total(db.movements@, moves(short.product_id))
                    &&& runs_short(db, short.product_id, short.wanted)
                    &&& row(db.products@, short.product_id)->0.product.name@ == short.name
                }
            &&& is_short_of(found, product_id) <==> lists(totals, product_id) && runs_short(
                db,
                product_id,
                amount_of(totals, product_id),
            )
            &&& forall|i: int, j: int|
                0 <= i < j < found.len() ==> (#[trigger] found[i]).product_id < (
                #[trigger] found[j]).product_id
        },
    decreases totals.len(),
{
    if totals.len() > 0 && missing_for(db, totals) is Ok {
        let front = totals.drop_last();
        assert forall|a: int, b: int| 0 <= a < b < front.len() implies (#[trigger] front[a]).0 < (
        #[trigger] front[b]).0 by {
            assert(front[a] == totals[a] && front[b] == totals[b]);
        }
        shortages_are_found(db, front, product_id);
        let before = missing_for(db, front)->Ok_0;
        let found = missing_for(db, totals)->Ok_0;
        let (last_id, last_wanted) = totals.last();
        assert(totals[totals.len() - 1] == (last_id, last_wanted));
        an_entry_is_its_amount(totals, totals.len() - 1);
        a_shelf_is_the_sum_of_its_movements(db, last_id);
        assert forall|p: i64| #[trigger] lists(front, p) implies lists(totals, p) && amount_of(
            totals,
            p,
        ) == amount_of(front, p) && p < last_id by {
            let k = choose|k: int| 0 <= k < front.len() && (#[trigger] front[k]).0 == p;
            assert(totals[k] == front[k]);
            an_entry_is_its_amount(front, k);
            an_entry_is_its_amount(totals, k);
            assert(totals[k].0 < totals[totals.len() - 1].0);
        }
        assert forall|i: int| 0 <= i < found.len() implies {
            let short = #[trigger] found[i];
            &&& lists(totals, short.product_id)
            &&& short.wanted == amount_of(totals, short.product_id)
            &&& short.available == total(db.movements@, moves(short.product_id))
            &&& runs_short(db, short.product_id, short.wanted)
            &&& row(db.products@, short.product_id)->0.product.name@ == short.name
        } by {
            if i < before.len() {
                assert(found[i] == before[i]);
                assert(lists(front, before[i].product_id));
            }
        }
        if is_short_of(before, product_id) {
            let i = choose|i: int|
                0 <= i < before.len() && (#[trigger] before[i]).product_id == product_id;
            assert(found[i] == before[i]);
            assert(lists(front, product_id));
        }
        if is_short_of(found, product_id) {
            let i = choose|i: int|
                0 <= i < found.len() && (#[trigger] found[i]).product_id == product_id;
            assert(lists(totals, found[i].product_id));
        }
        if lists(totals, product_id) && runs_short(
            db,
            product_id,
            amount_of(totals, product_id),
        ) {
            let k = choose|k: int| 0 <= k < totals.len() && (#[trigger] totals[k]).0 == product_id;
            if k < front.len() {
                assert(front[k].0 == product_id);
                assert(lists(front, product_id));
            } else {
                assert(found[found.len() - 1].product_id == product_id);
            }
        }
        assert forall|i: int, j: int| 0 <= i < j < found.len() implies (
        #[trigger] found[i]).product_id < (#[trigger] found[j]).product_id by {
            assert(found[i] == before[i]);
            assert(lists(front, before[i].product_id));
            if j < before.len() {
                assert(found[j] == before[j]);
            }
        }
    }
}

/// There is a shortage of a product exactly where it is counted and less of it
/// is on the shelf than is wanted over all lines together. Each is told once,
/// with how much is wanted and how much there is.
pub proof fn a_shortage_is_what_the_shelf_lacks(
    db: Store,
    wanted: Seq<(i64, Milli)>,
    product_id: i64,
)
    ensures
        shortfall_of(db, wanted) matches Ok(found) ==> {
            &&& is_short_of(found, product_id) <==> is_wanted(wanted, product_id) && runs_short(
                db,
                product_id,
                wanted_in_all(wanted, product_id),
            )
            &&& forall|i: int|
                0 <= i < found.len() && (#[trigger] found[i]).product_id == product_id ==> {
                    &&& found[i].wanted == wanted_in_all(wanted, product_id)
                    &&& found[i].available == total(db.movements@, moves(product_id))
                    &&& row(db.products@, product_id)->0.product.name@ == found[i].name
                }
            &&& forall|i: int, j: int|
                0 <= i < j < found.len() ==> (#[trigger] found[i]).product_id < (
                #[trigger] found[j]).product_id
        },
        shortfall_of(db, wanted) is Ok ==> forall|i: int|
            0 <= i < wanted.len() ==> (#[trigger] wanted[i]).1.thousandths > 0,
{
    wants_are_added_up(wanted, product_id);
    if requirement(wanted) is Ok {
        shortages_are_found(db, requirement(wanted)->Ok_0, product_id);
    }
}

// ---------------------------------------------------------------------------
// Deliveries
// ---------------------------------------------------------------------------

/// A delivery starts exactly when its supplier is on file, and is written down
/// as it came.
pub proof fn a_delivery_is_written_down_as_it_came(
    before: Store,
    after: Store,
    supplier_id: i64,
    total_cost: Money,
    shift_id: Option<i64>,
    at: i64,
    by: i64,
    id: i64,
)
    requires
        delivery_started(before, after, supplier_id, total_cost, shift_id, at, by, id),
    ensures
        open_refusal(before, supplier_id) is None <==> row(before.suppliers@, supplier_id) is Some
            && fresh_id(before.purchases@) is Some,
        row(after.purchases@, id) matches Some(p) && {
            &&& p.supplier_id == supplier_id
            &&& p.total_cost == total_cost
            &&& p.shift_id == shift_id
            &&& p.received_at == at
            &&& p.created_by == by
        },
        row(before.purchases@, id) is None,
        after.movements == before.movements,
{
    crate::table::a_fresh_id_is_unused(before.purchases@);
    place_is_first(before.purchases@, id);
    writing_keeps_places(before.purchases@, after.purchases@.last(), id);
    assert(after.purchases@.drop_last() =~= before.purchases@);
    assert(after.purchases@ =~= before.purchases@.push(after.purchases@.last()));
}

/// A product is on a delivery once, for more than nothing, at its share of what
/// the line cost.
pub proof fn a_delivery_names_a_product_once(
    before: Store,
    after: Store,
    purchase_id: i64,
    product_id: i64,
    quantity: Milli,
    line_cost: Money,
    unit: Money,
)
    requires
        line_refusal(before, purchase_id, product_id, quantity, line_cost) is None,
        line_delivered(before, after, purchase_id, product_id, quantity, line_cost, unit),
    ensures
        quantity.thousandths > 0,
        forall|i: int|
            0 <= i < before.purchase_lines@.len() ==> !((
            #[trigger] before.purchase_lines@[i]).purchase_id == purchase_id
                && before.purchase_lines@[i].product_id == product_id),
        after.purchase_lines@.len() == before.purchase_lines@.len() + 1,
        ({
            let new = after.purchase_lines@.last();
            &&& new.purchase_id == purchase_id
            &&& new.product_id == product_id
            &&& new.quantity == quantity
            &&& new.line_cost == line_cost
            &&& new.unit_cost == unit
        }),
        line_cost.minor >= 0 ==> is_nearest(
            unit.minor as int,
            line_cost.minor * 1_000,
            quantity.thousandths as int,
        ),
{
    if line_cost.minor >= 0 {
        super::figures::a_unit_costs_its_share_of_the_line(line_cost, quantity);
    }
    let same = crate::repo::purchases::is_line(purchase_id, product_id);
    assert forall|i: int| 0 <= i < before.purchase_lines@.len() implies !((
    #[trigger] before.purchase_lines@[i]).purchase_id == purchase_id
        && before.purchase_lines@[i].product_id == product_id) by {
        assert(!same(before.purchase_lines@[i]));
    }
}

/// A delivery changes what its product costs and nothing else about it, to the
/// worth of the shelf and the crate together over all there is of both. No other
/// product changes.
pub proof fn a_delivery_changes_one_cost(
    before: Store,
    after: Store,
    product_id: i64,
    arriving: Milli,
    line_cost: Money,
    cost: Money,
    other: i64,
)
    requires
        averaged(before, product_id, arriving, line_cost) == Ok::<Money, Why>(cost),
        cost_changed(before, after, product_id, cost),
    ensures
        row(before.products@, product_id) matches Some(was) && (row(after.products@, product_id)
            matches Some(is) && is.product == (Product { avg_cost: cost, ..was.product }) && (
        was.product.avg_cost.minor >= 0 && line_cost.minor >= 0 && arriving.thousandths > 0 ==> {
            let there = total(before.movements@, moves(product_id));
            &&& there >= 0 ==> is_nearest(
                cost.minor as int,
                there * was.product.avg_cost.minor + line_cost.minor * 1_000,
                there + arriving.thousandths,
            )
            &&& there < 0 ==> is_nearest(
                cost.minor as int,
                line_cost.minor * 1_000,
                arriving.thousandths as int,
            )
        })),
        other != product_id ==> row(after.products@, other) == row(before.products@, other),
        after.movements == before.movements,
{
    let at = place(before.products@, product_id)->0;
    place_is_first(before.products@, product_id);
    place_is_first(before.products@, other);
    let new = after.products@[at];
    changing_keeps_places(before.products@, at, new, product_id);
    changing_keeps_places(before.products@, at, new, other);
    a_shelf_is_the_sum_of_its_movements(before, product_id);
    let was = row(before.products@, product_id)->0.product;
    if was.avg_cost.minor >= 0 && line_cost.minor >= 0 && arriving.thousandths > 0 {
        super::figures::an_average_blends_the_shelf_with_the_crate(
            shelf(before, product_id)->0 as int,
            was.avg_cost.minor as int,
            arriving.thousandths as int,
            line_cost.minor as int,
        );
    }
}

/// Whether a line of the history is a line of a delivery.
pub open spec fn tells_of(told: Received, db: Store, line: PurchaseLine) -> bool {
    &&& told.purchase_id == line.purchase_id
    &&& told.product_id == line.product_id
    &&& told.quantity == line.quantity
    &&& told.line_cost == line.line_cost
    &&& row(db.purchases@, line.purchase_id) matches Some(purchase) && told.received_at
        == purchase.received_at
    &&& row(db.products@, line.product_id) matches Some(listed) && told.name == listed.product.name
        && told.base_unit == listed.product.base_unit
}

/// Whether a line of the history tells of one of these lines.
pub open spec fn tells_of_one(told: Received, db: Store, lines: Seq<PurchaseLine>) -> bool {
    exists|k: int| 0 <= k < lines.len() && tells_of(told, db, #[trigger] lines[k])
}

/// Whether a line of a delivery is told of.
pub open spec fn is_told(list: Seq<Received>, db: Store, line: PurchaseLine) -> bool {
    exists|i: int| 0 <= i < list.len() && tells_of(#[trigger] list[i], db, line)
}

proof fn a_history_tells_of_lines(db: Store, lines: Seq<PurchaseLine>)
    ensures
        forall|i: int|
            0 <= i < history(db, lines).len() ==> tells_of_one(
                #[trigger] history(db, lines)[i],
                db,
                lines,
            ),
        forall|k: int|
            0 <= k < lines.len() && row(db.purchases@, (#[trigger] lines[k]).purchase_id) is Some
                && row(db.products@, lines[k].product_id) is Some ==> is_told(
                history(db, lines),
                db,
                lines[k],
            ),
    decreases lines.len(),
{
    if lines.len() > 0 {
        let front = lines.drop_last();
        let list = history(db, lines);
        let before = history(db, front);
        let extra: int = if received_line(db, lines.last()) is Some {
            1
        } else {
            0
        };
        a_history_tells_of_lines(db, front);
        assert forall|i: int| 0 <= i < list.len() implies tells_of_one(
            #[trigger] list[i],
            db,
            lines,
        ) by {
            if i < extra {
                assert(tells_of(list[i], db, lines[lines.len() - 1]));
            } else {
                assert(list[i] == before[i - extra]);
                assert(tells_of_one(before[i - extra], db, front));
                let k = choose|k: int|
                    0 <= k < front.len() && tells_of(before[i - extra], db, #[trigger] front[k]);
                assert(tells_of(list[i], db, lines[k]));
            }
        }
        assert forall|k: int|
            0 <= k < lines.len() && row(db.purchases@, (#[trigger] lines[k]).purchase_id) is Some
                && row(db.products@, lines[k].product_id) is Some implies is_told(
            list,
            db,
            lines[k],
        ) by {
            if k < front.len() {
                assert(front[k] == lines[k]);
                assert(is_told(before, db, front[k]));
                let i = choose|i: int|
                    0 <= i < before.len() && tells_of(#[trigger] before[i], db, front[k]);
                assert(list[i + extra] == before[i]);
            } else {
                assert(tells_of(list[0], db, lines[k]));
            }
        }
    }
}

/// The history of deliveries tells of lines that came, the latest delivery
/// first, and of no more than were asked for; without a limit, of all of them.
pub proof fn the_history_tells_the_latest_first(db: Store, limit: i64)
    ensures
        forall|i: int|
            0 <= i < deliveries(db, limit).len() ==> tells_of_one(
                #[trigger] deliveries(db, limit)[i],
                db,
                db.purchase_lines@,
            ),
        forall|i: int, j: int|
            0 <= i < j < deliveries(db, limit).len() ==> (
            #[trigger] deliveries(db, limit)[i]).received_at >= (
            #[trigger] deliveries(db, limit)[j]).received_at,
        limit >= 0 ==> deliveries(db, limit).len() <= limit,
        limit < 0 || limit >= history(db, db.purchase_lines@).len() ==> forall|k: int|
            0 <= k < db.purchase_lines@.len() && row(
                db.purchases@,
                (#[trigger] db.purchase_lines@[k]).purchase_id,
            ) is Some && row(db.products@, db.purchase_lines@[k].product_id) is Some ==> is_told(
                deliveries(db, limit),
                db,
                db.purchase_lines@[k],
            ),
{
    broadcast use vstd::seq_lib::group_to_multiset_ensures;

    let raw = history(db, db.purchase_lines@);
    let sorted = in_order(raw, received_later());
    a_history_tells_of_lines(db, db.purchase_lines@);
    crate::lists::what_is_listed_by_number_ranks();
    crate::table::ordering_keeps_every_row(raw, received_later());
    ordering_puts_in_order(raw, received_later());
    crate::table::what_is_listed_is_there(raw, |r: Received| true, received_later());
    assert(sorted.len() == sorted.to_multiset().len());
    assert(raw.len() == raw.to_multiset().len());
    assert forall|i: int| 0 <= i < sorted.len() implies tells_of_one(
        #[trigger] sorted[i],
        db,
        db.purchase_lines@,
    ) by {
        assert(raw.contains(sorted[i]));
        let k = choose|k: int| 0 <= k < raw.len() && raw[k] == sorted[i];
        assert(tells_of_one(raw[k], db, db.purchase_lines@));
    }
    assert forall|i: int, j: int| 0 <= i < j < sorted.len() implies (
    #[trigger] sorted[i]).received_at >= (#[trigger] sorted[j]).received_at by {
        assert(!received_later()(sorted[j], sorted[i]));
    }
    let list = deliveries(db, limit);
    assert forall|i: int| 0 <= i < list.len() implies #[trigger] list[i] == sorted[i] by {}
    assert forall|k: int|
        (limit < 0 || limit >= raw.len()) && 0 <= k < db.purchase_lines@.len() && row(
            db.purchases@,
            (#[trigger] db.purchase_lines@[k]).purchase_id,
        ) is Some && row(db.products@, db.purchase_lines@[k].product_id) is Some implies is_told(
        list,
        db,
        db.purchase_lines@[k],
    ) by {
        assert(is_told(raw, db, db.purchase_lines@[k]));
        let i = choose|i: int|
            0 <= i < raw.len() && tells_of(#[trigger] raw[i], db, db.purchase_lines@[k]);
        assert(raw.contains(raw[i]));
        assert(raw.to_multiset().count(raw[i]) > 0);
        assert(sorted.to_multiset().count(raw[i]) > 0);
        assert(sorted.contains(raw[i]));
        let m = choose|m: int| 0 <= m < sorted.len() && sorted[m] == raw[i];
        assert(tells_of(list[m], db, db.purchase_lines@[k]));
    }
}

// ---------------------------------------------------------------------------
// The menu
// ---------------------------------------------------------------------------

/// Whether a price is the one in force for an entry: the first that is open.
pub open spec fn is_price_of(price: Price, db: Store, sale_item_id: i64) -> bool {
    comes_first(
        price,
        db.prices@,
        |p: Price| p.sale_item_id == sale_item_id && p.effective_to is None,
    )
}

/// Whether a recipe is the one in force for an entry: the first that is open.
pub open spec fn is_recipe_of(recipe: Recipe, db: Store, sale_item_id: i64) -> bool {
    comes_first(
        recipe,
        db.recipes@,
        |r: Recipe| r.sale_item_id == sale_item_id && r.effective_to is None,
    )
}

/// The price and the recipe in force are the first that were not ended.
pub proof fn what_is_in_force_was_not_ended(db: Store, sale_item_id: i64)
    ensures
        match open_price(db, sale_item_id) {
            Some(price) => is_price_of(price, db, sale_item_id),
            None => forall|i: int|
                0 <= i < db.prices@.len() ==> !((#[trigger] db.prices@[i]).sale_item_id
                    == sale_item_id && db.prices@[i].effective_to is None),
        },
        match open_recipe(db, sale_item_id) {
            Some(recipe) => is_recipe_of(recipe, db, sale_item_id),
            None => forall|i: int|
                0 <= i < db.recipes@.len() ==> !((#[trigger] db.recipes@[i]).sale_item_id
                    == sale_item_id && db.recipes@[i].effective_to is None),
        },
{
    the_first_chosen_comes_first(
        db.prices@,
        prices_of(sale_item_id),
        |p: Price| p.sale_item_id == sale_item_id && p.effective_to is None,
    );
    the_first_chosen_comes_first(
        db.recipes@,
        recipes_of(sale_item_id),
        |r: Recipe| r.sale_item_id == sale_item_id && r.effective_to is None,
    );
}

/// Whether a line of the menu is an entry: active, at the price in force, and
/// made by the recipe in force.
pub open spec fn offers(item: MenuItem, db: Store, listed: SaleItemRow) -> bool {
    &&& listed.item.active
    &&& item.sale_item_id == listed.item.id
    &&& item.code == listed.item.code
    &&& item.name == listed.item.name
    &&& item.category == listed.item.category
    &&& exists|price: Price|
        #[trigger] is_price_of(price, db, listed.item.id) && price.price == item.price
    &&& exists|recipe: Recipe|
        #[trigger] is_recipe_of(recipe, db, listed.item.id) && recipe.id == item.recipe_id
}

/// Whether an entry can be sold: it is active, and has a price and a recipe that
/// were not ended.
pub open spec fn can_be_sold(db: Store, listed: SaleItemRow) -> bool {
    &&& listed.item.active
    &&& exists|i: int|
        0 <= i < db.prices@.len() && (#[trigger] db.prices@[i]).sale_item_id == listed.item.id
            && db.prices@[i].effective_to is None
    &&& exists|i: int|
        0 <= i < db.recipes@.len() && (#[trigger] db.recipes@[i]).sale_item_id == listed.item.id
            && db.recipes@[i].effective_to is None
}

proof fn a_first_one_is_there<T>(found: T, rows: Seq<T>, wanted: spec_fn(T) -> bool)
    requires
        comes_first(found, rows, wanted),
    ensures
        exists|i: int| 0 <= i < rows.len() && wanted(#[trigger] rows[i]),
{
    let i = choose|i: int|
        0 <= i < rows.len() && #[trigger] rows[i] == found && wanted(rows[i]) && (forall|k: int|
            0 <= k < i ==> !wanted(#[trigger] rows[k]));
    assert(wanted(rows[i]));
}

/// An entry is on the menu exactly when it can be sold, and stands there at its
/// price and with its recipe.
pub proof fn an_entry_is_offered_where_it_can_be_sold(db: Store, listed: SaleItemRow)
    ensures
        menu_line(db, listed) is Some <==> can_be_sold(db, listed),
        menu_line(db, listed) matches Some(item) ==> offers(item, db, listed),
{
    let id = listed.item.id;
    what_is_in_force_was_not_ended(db, id);
    if open_price(db, id) is Some {
        let wanted = |p: Price| p.sale_item_id == id && p.effective_to is None;
        a_first_one_is_there(open_price(db, id)->0, db.prices@, wanted);
        let i = choose|i: int| 0 <= i < db.prices@.len() && wanted(#[trigger] db.prices@[i]);
        assert(db.prices@[i].sale_item_id == id);
    }
    if open_recipe(db, id) is Some {
        let wanted = |r: Recipe| r.sale_item_id == id && r.effective_to is None;
        a_first_one_is_there(open_recipe(db, id)->0, db.recipes@, wanted);
        let i = choose|i: int| 0 <= i < db.recipes@.len() && wanted(#[trigger] db.recipes@[i]);
        assert(db.recipes@[i].sale_item_id == id);
    }
}

/// An entry is looked up on the menu by its identity.
pub proof fn a_menu_entry_is_found_by_its_identity(db: Store, sale_item_id: i64)
    ensures
        on_menu(db, sale_item_id) is Some <==> (row(db.sale_items@, sale_item_id) matches Some(
            listed,
        ) && can_be_sold(db, listed)),
        on_menu(db, sale_item_id) matches Some(item) ==> item.sale_item_id == sale_item_id
            && offers(item, db, row(db.sale_items@, sale_item_id)->0),
{
    place_is_first(db.sale_items@, sale_item_id);
    if row(db.sale_items@, sale_item_id) is Some {
        an_entry_is_offered_where_it_can_be_sold(db, row(db.sale_items@, sale_item_id)->0);
    }
}

/// Whether a line of the menu offers one of these entries.
pub open spec fn offers_one(item: MenuItem, db: Store, rows: Seq<SaleItemRow>) -> bool {
    exists|k: int| 0 <= k < rows.len() && offers(item, db, #[trigger] rows[k])
}

/// Whether an entry is offered.
pub open spec fn is_offered(list: Seq<MenuItem>, db: Store, listed: SaleItemRow) -> bool {
    exists|i: int| 0 <= i < list.len() && offers(#[trigger] list[i], db, listed)
}

proof fn what_sells_is_offered(db: Store, rows: Seq<SaleItemRow>)
    ensures
        forall|i: int|
            0 <= i < sellable(db, rows).len() ==> offers_one(
                #[trigger] sellable(db, rows)[i],
                db,
                rows,
            ),
        forall|k: int|
            0 <= k < rows.len() && can_be_sold(db, #[trigger] rows[k]) ==> is_offered(
                sellable(db, rows),
                db,
                rows[k],
            ),
    decreases rows.len(),
{
    if rows.len() > 0 {
        let front = rows.drop_last();
        let list = sellable(db, rows);
        let before = sellable(db, front);
        what_sells_is_offered(db, front);
        an_entry_is_offered_where_it_can_be_sold(db, rows.last());
        assert forall|i: int| 0 <= i < list.len() implies offers_one(
            #[trigger] list[i],
            db,
            rows,
        ) by {
            if i < before.len() {
                assert(list[i] == before[i]);
                assert(offers_one(before[i], db, front));
                let k = choose|k: int| 0 <= k < front.len() && offers(before[i], db, #[trigger] front[k]);
                assert(offers(list[i], db, rows[k]));
            } else {
                assert(offers(list[i], db, rows[rows.len() - 1]));
            }
        }
        assert forall|k: int| 0 <= k < rows.len() && can_be_sold(
            db,
            #[trigger] rows[k],
        ) implies is_offered(list, db, rows[k]) by {
            if k < front.len() {
                assert(front[k] == rows[k]);
                assert(is_offered(before, db, front[k]));
                let i = choose|i: int| 0 <= i < before.len() && offers(#[trigger] before[i], db, front[k]);
                assert(list[i] == before[i]);
            } else {
                assert(offers(list[list.len() - 1], db, rows[k]));
            }
        }
    }
}

/// The menu offers everything that can be sold and nothing else, by category and
/// name.
pub proof fn the_menu_offers_what_can_be_sold(db: Store)
    ensures
        forall|i: int|
            0 <= i < menu_of(db).len() ==> offers_one(#[trigger] menu_of(db)[i], db, db.sale_items@),
        forall|k: int|
            0 <= k < db.sale_items@.len() && can_be_sold(db, #[trigger] db.sale_items@[k])
                ==> is_offered(menu_of(db), db, db.sale_items@[k]),
        forall|i: int, j: int|
            0 <= i < j < menu_of(db).len() ==> {
                let one = #[trigger] menu_of(db)[i];
                let other = #[trigger] menu_of(db)[j];
                &&& !text_before(other.category@, one.category@)
                &&& other.category@ == one.category@ ==> !text_before(other.name@, one.name@)
            },
{
    broadcast use vstd::seq_lib::group_to_multiset_ensures;

    let raw = sellable(db, db.sale_items@);
    let list = menu_of(db);
    what_sells_is_offered(db, db.sale_items@);
    crate::lists::what_is_listed_by_name_ranks();
    crate::table::ordering_keeps_every_row(raw, offered_before());
    ordering_puts_in_order(raw, offered_before());
    crate::table::what_is_listed_is_there(raw, |m: MenuItem| true, offered_before());
    assert forall|i: int| 0 <= i < list.len() implies offers_one(
        #[trigger] list[i],
        db,
        db.sale_items@,
    ) by {
        assert(raw.contains(list[i]));
        let k = choose|k: int| 0 <= k < raw.len() && raw[k] == list[i];
        assert(offers_one(raw[k], db, db.sale_items@));
    }
    assert forall|k: int| 0 <= k < db.sale_items@.len() && can_be_sold(
        db,
        #[trigger] db.sale_items@[k],
    ) implies is_offered(list, db, db.sale_items@[k]) by {
        assert(is_offered(raw, db, db.sale_items@[k]));
        let i = choose|i: int|
            0 <= i < raw.len() && offers(#[trigger] raw[i], db, db.sale_items@[k]);
        assert(raw.contains(raw[i]));
        assert(raw.to_multiset().count(raw[i]) > 0);
        assert(list.to_multiset().count(raw[i]) > 0);
        assert(list.contains(raw[i]));
        let m = choose|m: int| 0 <= m < list.len() && list[m] == raw[i];
        assert(offers(list[m], db, db.sale_items@[k]));
    }
    assert forall|i: int, j: int| 0 <= i < j < list.len() implies {
        let one = #[trigger] list[i];
        let other = #[trigger] list[j];
        &&& !text_before(other.category@, one.category@)
        &&& other.category@ == one.category@ ==> !text_before(other.name@, one.name@)
    } by {
        assert(!offered_before()(list[j], list[i]));
    }
}

// ---------------------------------------------------------------------------
// Recipes
// ---------------------------------------------------------------------------

/// How much of a product, in millionths, a line of a recipe takes for so much of
/// a drink: nothing where it is another recipe, or a product that is not counted.
pub open spec fn takes(
    db: Store,
    recipe_id: i64,
    quantity: int,
    product_id: i64,
) -> spec_fn(RecipeLine) -> int {
    |l: RecipeLine|
        if l.recipe_id == recipe_id && l.product_id == product_id && (row(
            db.products@,
            product_id,
        ) matches Some(listed) && listed.product.tracks_inventory) {
            quantity * l.quantity.thousandths
        } else {
            0
        }
}

/// Whether a recipe takes a product that is counted.
pub open spec fn takes_some(
    db: Store,
    lines: Seq<RecipeLine>,
    recipe_id: i64,
    product_id: i64,
) -> bool {
    exists|i: int|
        0 <= i < lines.len() && (#[trigger] lines[i]).recipe_id == recipe_id && lines[i].product_id
            == product_id && (row(db.products@, product_id) matches Some(listed)
            && listed.product.tracks_inventory)
}

proof fn a_recipe_is_added_up(
    db: Store,
    lines: Seq<RecipeLine>,
    recipe_id: i64,
    quantity: int,
    product_id: i64,
)
    ensures
        consumption(db, lines, recipe_id, quantity) matches Some(totals) ==> {
            &&& ascending(totals)
            &&& amount_of(totals, product_id) == total(
                lines,
                takes(db, recipe_id, quantity, product_id),
            )
            &&& lists(totals, product_id) <==> takes_some(db, lines, recipe_id, product_id)
        },
    decreases lines.len(),
{
    if lines.len() > 0 && consumption(db, lines, recipe_id, quantity) is Some {
        let front = lines.drop_last();
        let line = lines.last();
        a_recipe_is_added_up(db, front, recipe_id, quantity, product_id);
        adding_adds(
            consumption(db, front, recipe_id, quantity)->0,
            line.product_id,
            quantity * line.quantity.thousandths,
            product_id,
        );
        if takes_some(db, front, recipe_id, product_id) {
            let i = choose|i: int|
                0 <= i < front.len() && (#[trigger] front[i]).recipe_id == recipe_id
                    && front[i].product_id == product_id && (row(db.products@, product_id) matches
                    Some(listed) && listed.product.tracks_inventory);
            assert(lines[i] == front[i]);
        }
        if takes_some(db, lines, recipe_id, product_id) {
            let i = choose|i: int|
                0 <= i < lines.len() && (#[trigger] lines[i]).recipe_id == recipe_id
                    && lines[i].product_id == product_id && (row(db.products@, product_id) matches
                    Some(listed) && listed.product.tracks_inventory);
            if i < front.len() {
                assert(front[i] == lines[i]);
            }
        }
        if draws(db, line, recipe_id) && line.product_id == product_id {
            assert(lines[lines.len() - 1].recipe_id == recipe_id);
        }
    } else {
        assert(consumption(db, lines, recipe_id, quantity) matches Some(totals) ==> (lines.len()
            == 0 ==> totals.len() == 0));
    }
}

/// So much of a drink takes off the shelf what its recipe says: of every counted
/// product on it, the lines together times the quantity, rounded once. It takes
/// no other product, and a drink without a recipe, or nothing of a drink, cannot
/// be poured.
pub proof fn a_drink_takes_what_its_recipe_says(
    db: Store,
    recipe_id: i64,
    quantity: Milli,
    product_id: i64,
)
    ensures
        expansion(db, recipe_id, quantity) matches Ok(taken) ==> {
            let due = total(
                db.recipe_lines@,
                takes(db, recipe_id, quantity.thousandths as int, product_id),
            );
            &&& quantity.thousandths > 0
            &&& exists|i: int|
                0 <= i < db.recipe_lines@.len() && (#[trigger] db.recipe_lines@[i]).recipe_id
                    == recipe_id && row(db.products@, db.recipe_lines@[i].product_id) is Some
            &&& lists(taken, product_id) <==> takes_some(
                db,
                db.recipe_lines@,
                recipe_id,
                product_id,
            )
            &&& due >= 0 && lists(taken, product_id) ==> is_nearest(
                amount_of(taken, product_id),
                due,
                1_000,
            )
            &&& ascending(taken)
        },
{
    if expansion(db, recipe_id, quantity) is Ok {
        let q = quantity.thousandths as int;
        let totals = consumption(db, db.recipe_lines@, recipe_id, q)->0;
        let taken = rounded_pours(totals);
        a_recipe_is_added_up(db, db.recipe_lines@, recipe_id, q, product_id);
        let k = choose|k: int|
            0 <= k < db.recipe_lines@.len() && crate::repo::catalogue::pours(
                db,
                #[trigger] db.recipe_lines@[k],
                recipe_id,
            );
        assert(db.recipe_lines@[k].recipe_id == recipe_id);
        assert forall|a: int, b: int| 0 <= a < b < taken.len() implies (#[trigger] taken[a]).0 < (
        #[trigger] taken[b]).0 by {
            assert(totals[a].0 < totals[b].0);
        }
        if lists(totals, product_id) {
            let i = choose|i: int| 0 <= i < totals.len() && (#[trigger] totals[i]).0 == product_id;
            assert(taken[i].0 == product_id);
            an_entry_is_its_amount(totals, i);
            an_entry_is_its_amount(taken, i);
            if totals[i].1 >= 0 {
                a_pour_is_rounded_to_the_nearest(totals[i].1);
            }
        }
        if lists(taken, product_id) {
            let i = choose|i: int| 0 <= i < taken.len() && (#[trigger] taken[i]).0 == product_id;
            assert(totals[i].0 == product_id);
        }
    }
}

/// A new recipe is in force from its moment on, with the lines it was given, one
/// version after the last. What was in force for the same entry ends at that
/// moment, and no recipe of another entry changes.
pub proof fn a_new_recipe_ends_the_last(
    before: Store,
    after: Store,
    sale_item_id: i64,
    lines: Seq<(i64, Milli)>,
    at: i64,
    by: i64,
    id: i64,
)
    requires
        revise_refusal(before, sale_item_id, lines) is None,
        recipe_revised(before, after, sale_item_id, lines, at, by, id),
    ensures
        lines.len() > 0,
        open_recipe(after, sale_item_id) matches Some(recipe) && recipe.id == id
            && recipe.effective_from == at && recipe.created_by == Some(by) && recipe.version == (
        match open_recipe(before, sale_item_id) {
            Some(last) => last.version + 1,
            None => 1,
        }),
        after.recipes@.len() == before.recipes@.len() + 1,
        forall|i: int|
            0 <= i < before.recipes@.len() ==> {
                let was = before.recipes@[i];
                #[trigger] after.recipes@[i] == (if was.sale_item_id == sale_item_id
                    && was.effective_to is None {
                    Recipe { effective_to: Some(at), ..was }
                } else {
                    was
                })
            },
        after.recipe_lines@.len() == before.recipe_lines@.len() + lines.len(),
        forall|i: int|
            0 <= i < before.recipe_lines@.len() ==> #[trigger] after.recipe_lines@[i]
                == before.recipe_lines@[i],
        forall|i: int|
            0 <= i < lines.len() ==> {
                let line = #[trigger] after.recipe_lines@[before.recipe_lines@.len() + i];
                line.recipe_id == id && line.product_id == lines[i].0 && line.quantity
                    == lines[i].1
            },
        after.prices == before.prices,
{
    let new = after.recipes@.last();
    crate::repo::catalogue::a_new_recipe_is_the_recipe(before.recipes@, new, sale_item_id, at);
    assert(after.recipes@ =~= recipes_closed(before.recipes@, sale_item_id, at).push(new));
}

/// A new price is in force from its moment on. What was in force for the same
/// entry ends at that moment and stays on record, and no other price changes.
pub proof fn a_new_price_ends_the_last(
    before: Store,
    after: Store,
    sale_item_id: i64,
    price: Money,
    at: i64,
    by: i64,
    id: i64,
)
    requires
        price_set(before, after, sale_item_id, price, at, by, id),
    ensures
        open_price(after, sale_item_id) matches Some(now) && now.price == price
            && now.effective_from == at && now.created_by == Some(by) && now.id == id,
        after.prices@.len() == before.prices@.len() + 1,
        forall|i: int|
            0 <= i < before.prices@.len() ==> {
                let was = before.prices@[i];
                #[trigger] after.prices@[i] == (if was.sale_item_id == sale_item_id
                    && was.effective_to is None {
                    Price { effective_to: Some(at), ..was }
                } else {
                    was
                })
            },
        after.recipes == before.recipes,
{
    let new = after.prices@.last();
    crate::repo::catalogue::a_new_price_is_the_price(before.prices@, new, sale_item_id, at);
    assert(after.prices@ =~= prices_closed(before.prices@, sale_item_id, at).push(new));
}

// ---------------------------------------------------------------------------
// The books
// ---------------------------------------------------------------------------

/// A product can be on the books exactly when it has a code and a name, comes in
/// packs of something, warns at no less than nothing, and is either handed over
/// whole or says how much of a measure one holds.
pub proof fn when_a_product_can_be_on_the_books(input: NewProduct<'_>)
    ensures
        product_objection(input) is None <==> {
            &&& says(input.code@)
            &&& says(input.name@)
            &&& input.base_units_per_pack.thousandths > 0
            &&& input.units_per_purchase_pack > 0
            &&& input.low_stock_threshold.thousandths >= 0
            &&& input.content_measure@ == "NONE"@ || ((input.content_measure@ == "ML"@
                || input.content_measure@ == "GRAM"@) && input.content_per_unit.thousandths > 0)
        },
{
    a_text_that_is_not_blank_says_something(input.code@);
    a_text_that_is_not_blank_says_something(input.name@);
    reveal_strlit("NONE");
    reveal_strlit("ML");
    reveal_strlit("GRAM");
    assert("NONE"@[0] != "GRAM"@[0]);
    assert("NONE"@.len() != "ML"@.len());
}

/// An entry can be on the books exactly when it has a code, a name and a
/// category.
pub proof fn when_an_entry_can_be_on_the_books(input: NewSaleItem<'_>)
    ensures
        sale_item_objection(input) is None <==> says(input.code@) && says(input.name@) && says(
            input.category@,
        ),
{
    a_text_that_is_not_blank_says_something(input.code@);
    a_text_that_is_not_blank_says_something(input.name@);
    a_text_that_is_not_blank_says_something(input.category@);
}

/// Whether a product is what was typed in.
pub open spec fn is_as_typed(product: Product, input: NewProduct<'_>) -> bool {
    &&& product.code@ == trimmed(input.code@)
    &&& product.name@ == trimmed(input.name@)
    &&& product.category@ == trimmed(input.category@)
    &&& product.base_unit@ == input.base_unit@
    &&& product.base_units_per_pack == input.base_units_per_pack.thousandths
    &&& product.units_per_purchase_pack == input.units_per_purchase_pack
    &&& product.low_stock_threshold.thousandths == input.low_stock_threshold.thousandths
    &&& product.tracks_inventory == input.tracks_inventory
    &&& product.destination@ == input.destination@
    &&& product.content_measure@ == input.content_measure@
    &&& product.content_per_unit.thousandths == input.content_per_unit.thousandths
}

/// A new product is on the books as it was typed, active and without a cost, and
/// changes no other. An edit keeps its identity and its cost.
pub proof fn a_product_is_on_the_books_as_typed(
    before: Store,
    after: Store,
    input: NewProduct<'_>,
    at: i64,
    id: i64,
    active: bool,
    other: i64,
)
    ensures
        product_added(before, after, input, at, id) ==> {
            &&& row(after.products@, id) matches Some(new) && is_as_typed(new.product, input)
                && new.product.active && new.product.avg_cost.minor == 0 && new.product.id == id
                && new.created_at == at
            &&& row(before.products@, id) is None
            &&& row(before.products@, other) is Some ==> row(after.products@, other) == row(
                before.products@,
                other,
            )
        },
        product_edited(before, after, id, input, active) ==> {
            &&& row(before.products@, id) matches Some(was) && row(after.products@, id) matches
                Some(is) && is_as_typed(is.product, input) && is.product.active == active
                && is.product.id == id && is.product.avg_cost == was.product.avg_cost
                && is.created_at == was.created_at
            &&& other != id ==> row(after.products@, other) == row(before.products@, other)
        },
{
    place_is_first(before.products@, id);
    place_is_first(before.products@, other);
    if product_added(before, after, input, at, id) {
        crate::table::a_fresh_id_is_unused(before.products@);
        let new = after.products@.last();
        assert(after.products@ =~= before.products@.push(new));
        writing_keeps_places(before.products@, new, id);
        writing_keeps_places(before.products@, new, other);
    }
    if product_edited(before, after, id, input, active) {
        let p = place(before.products@, id)->0;
        changing_keeps_places(before.products@, p, after.products@[p], id);
        changing_keeps_places(before.products@, p, after.products@[p], other);
    }
}

/// Whether an entry is a product's own: the first that sells it one for one.
pub open spec fn is_twin(listed: SaleItemRow, db: Store, product_id: i64) -> bool {
    comes_first(
        listed,
        db.sale_items@,
        |r: SaleItemRow| r.from_product_id == Some(product_id),
    )
}

/// A product's own entry is the first that sells it one for one.
pub proof fn a_twin_sells_its_product_one_for_one(db: Store, product_id: i64)
    ensures
        match twin(db, product_id) {
            Some(id) => exists|listed: SaleItemRow|
                #[trigger] is_twin(listed, db, product_id) && listed.item.id == id,
            None => forall|i: int|
                0 <= i < db.sale_items@.len() ==> (
                #[trigger] db.sale_items@[i]).from_product_id != Some(product_id),
        },
{
    the_first_chosen_comes_first(
        db.sale_items@,
        sells_one_for_one(product_id),
        |r: SaleItemRow| r.from_product_id == Some(product_id),
    );
    if twin(db, product_id) is Some {
        assert(is_twin(first_chosen(db.sale_items@, sells_one_for_one(product_id))->0, db, product_id));
    }
}

/// A drink that a product is poured into is one on sale whose recipe in force
/// takes it.
pub proof fn a_product_is_poured_into_a_drink_on_sale(db: Store, product_id: i64, from: int)
    requires
        from >= 0,
    ensures
        match pouring_line(db, product_id, from) {
            Some(at) => from <= at < db.recipe_lines@.len() && db.recipe_lines@[at].product_id
                == product_id && is_live(db, db.recipe_lines@[at]),
            None => forall|k: int|
                from <= k < db.recipe_lines@.len() && (#[trigger] db.recipe_lines@[k]).product_id
                    == product_id ==> !is_live(db, db.recipe_lines@[k]),
        },
        pouring_line(db, product_id, from) matches Some(at) ==> (live_drink(
            db,
            db.recipe_lines@[at],
        ) matches Some(drink) && drink == row(
            db.sale_items@,
            row(db.recipes@, db.recipe_lines@[at].recipe_id)->0.sale_item_id,
        )->0.item),
    decreases db.recipe_lines@.len() - from,
{
    if from < db.recipe_lines@.len() {
        let line = db.recipe_lines@[from];
        assert(is_live(db, line) == live_drink(db, line) is Some);
        if !(line.product_id == product_id && is_live(db, line)) {
            a_product_is_poured_into_a_drink_on_sale(db, product_id, from + 1);
        }
    }
}

/// Whether a line belongs to a recipe in force of an entry on sale.
pub open spec fn is_live(db: Store, line: RecipeLine) -> bool {
    row(db.recipes@, line.recipe_id) matches Some(recipe) && recipe.effective_to is None && (row(
        db.sale_items@,
        recipe.sale_item_id,
    ) matches Some(listed) && listed.item.active)
}

/// A line sits on an open tab exactly when its order is on a tab that is open.
pub proof fn a_line_sits_on_an_open_tab(db: Store, line: Line)
    ensures
        sits_on_open_tab(db, line) <==> (row(db.orders@, line.order_id) matches Some(order) && row(
            db.tabs@,
            order.tab_id,
        ) matches Some(tab) && tab.status == tabs::Status::Open),
{
}

/// Deliveries are booked on one supplier: the first of that name, or, where there
/// is none yet, a new one.
pub proof fn deliveries_come_from_one_supplier(before: Store, after: Store, at: i64, id: i64)
    requires
        house_found(before, after, at, id),
    ensures
        super::there_is(
            before.suppliers@,
            |s: Supplier| s.normalized_name@ == "deliveries"@,
        ) ==> after == before && (exists|found: Supplier| #[trigger] is_the_house(found, before)
            && found.id == id),
        !super::there_is(
            before.suppliers@,
            |s: Supplier| s.normalized_name@ == "deliveries"@,
        ) ==> {
            &&& after.suppliers@.len() == before.suppliers@.len() + 1
            &&& after.suppliers@.drop_last() == before.suppliers@
            &&& after.suppliers@.last().id == id
            &&& after.suppliers@.last().name@ == "Deliveries"@
            &&& after.suppliers@.last().normalized_name@ == "deliveries"@
            &&& after.suppliers@.last().active
            &&& after.suppliers@.last().created_at == at
            &&& after == (Store { suppliers: after.suppliers, ..before })
        },
{
    let wanted = |s: Supplier| s.normalized_name@ == "deliveries"@;
    super::a_row_is_found_where_there_is_one(before.suppliers@, is_house(), wanted);
    super::the_first_chosen_comes_first(before.suppliers@, is_house(), wanted);
    crate::table::chosen_meet_the_condition(before.suppliers@, is_house());
    if crate::table::chosen(before.suppliers@, is_house()).len() > 0 {
        assert(is_the_house(crate::table::chosen(before.suppliers@, is_house())[0], before));
    }
}

/// Whether a supplier is the first that deliveries are booked on.
pub open spec fn is_the_house(found: Supplier, db: Store) -> bool {
    comes_first(found, db.suppliers@, |s: Supplier| s.normalized_name@ == "deliveries"@)
}

/// A product has at most one entry on the menu that sells it whole; linking an
/// entry to a product changes nothing else about it, and no other entry.
pub proof fn a_product_has_one_twin(
    before: Store,
    after: Store,
    sale_item_id: i64,
    product_id: i64,
    other: i64,
)
    ensures
        link_refusal(before, sale_item_id, product_id) is None <==> {
            &&& row(before.sale_items@, sale_item_id) is Some
            &&& !super::there_is(
                before.sale_items@,
                |r: SaleItemRow|
                    r.item.id != sale_item_id && r.from_product_id == Some(product_id),
            )
        },
        twin_linked(before, after, sale_item_id, product_id) ==> {
            &&& row(before.sale_items@, sale_item_id) matches Some(was) && row(
                after.sale_items@,
                sale_item_id,
            ) == Some(SaleItemRow { from_product_id: Some(product_id), ..was })
            &&& other != sale_item_id ==> row(after.sale_items@, other) == row(
                before.sale_items@,
                other,
            )
            &&& after == (Store { sale_items: after.sale_items, ..before })
        },
{
    super::a_row_is_found_where_there_is_one(
        before.sale_items@,
        rival_twin(sale_item_id, product_id),
        |r: SaleItemRow| r.item.id != sale_item_id && r.from_product_id == Some(product_id),
    );
    place_is_first(before.sale_items@, sale_item_id);
    if twin_linked(before, after, sale_item_id, product_id) {
        let p = place(before.sale_items@, sale_item_id)->0;
        let now = SaleItemRow { from_product_id: Some(product_id), ..before.sale_items@[p] };
        place_is_first(before.sale_items@, other);
        changing_keeps_places(before.sale_items@, p, now, sale_item_id);
        changing_keeps_places(before.sale_items@, p, now, other);
    }
}

} // verus!

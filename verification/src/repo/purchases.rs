//! Deliveries: what arrived, when, and what it cost.
//!
//! Tracking who sold the stock is out of scope: every delivery is booked
//! against one standing supplier that no screen ever shows. Nobody types a
//! batch number either. A delivery is one row, and its identity is the batch.

use vstd::prelude::*;

use super::{refuse, RepoError, SqlError, SqlWhy, Why};
use crate::money::{cut, divide_cut, fits, narrow, Milli, Money};
use crate::repo::catalogue::{Product, ProductRow};
use crate::repo::stock::{on_hand, shelf};
use crate::store::{ledgers_kept, Store};
use crate::table::{
    any, any_row, choose_rows, chosen, find_place, fresh_id, in_order, next_id, place, row,
    sort_rows, Row,
};
use crate::text::same;

verus! {

/// Whoever stock is booked against.
#[derive(Debug, PartialEq, Eq)]
pub struct Supplier {
    pub id: i64,
    pub name: String,
    pub normalized_name: String,
    pub active: bool,
    pub created_at: i64,
}

impl Clone for Supplier {
    fn clone(&self) -> (result: Self)
        ensures
            result == *self,
    {
        Supplier {
            id: self.id,
            name: self.name.clone(),
            normalized_name: self.normalized_name.clone(),
            active: self.active,
            created_at: self.created_at,
        }
    }
}

impl Row for Supplier {
    open spec fn key(&self) -> i64 {
        self.id
    }

    fn id(&self) -> (result: i64) {
        self.id
    }

    fn copy_row(&self) -> (result: Self) {
        self.clone()
    }
}

/// One delivery.
#[derive(Debug, PartialEq, Eq)]
pub struct Purchase {
    pub id: i64,
    pub supplier_id: i64,
    pub received_at: i64,
    pub shift_id: Option<i64>,
    pub total_cost: Money,
    pub created_by: i64,
    pub created_at: i64,
}

impl Clone for Purchase {
    fn clone(&self) -> (result: Self)
        ensures
            result == *self,
    {
        Purchase {
            id: self.id,
            supplier_id: self.supplier_id,
            received_at: self.received_at,
            shift_id: self.shift_id,
            total_cost: self.total_cost,
            created_by: self.created_by,
            created_at: self.created_at,
        }
    }
}

impl Row for Purchase {
    open spec fn key(&self) -> i64 {
        self.id
    }

    fn id(&self) -> (result: i64) {
        self.id
    }

    fn copy_row(&self) -> (result: Self) {
        self.clone()
    }
}

/// One product of a delivery.
#[derive(Clone, Copy, Debug, PartialEq, Eq, Structural)]
pub struct PurchaseLine {
    pub purchase_id: i64,
    pub product_id: i64,
    pub quantity: Milli,
    pub unit_cost: Money,
    pub line_cost: Money,
}

/// The standing supplier.
pub open spec fn is_house() -> spec_fn(Supplier) -> bool {
    |s: Supplier| s.normalized_name@ == "deliveries"@
}

/// Whether a supplier is the one that deliveries are booked on: the first that
/// there is, or else a new one.
pub open spec fn house_found(before: Store, after: Store, at: i64, id: i64) -> bool {
    if chosen(before.suppliers@, is_house()).len() > 0 {
        &&& id == chosen(before.suppliers@, is_house())[0].id
        &&& after == before
    } else {
        &&& fresh_id(before.suppliers@) == Some(id)
        &&& after.suppliers@.len() == before.suppliers@.len() + 1
        &&& after.suppliers@.drop_last() == before.suppliers@
        &&& ({
            let new = after.suppliers@.last();
            &&& new.id == id
            &&& new.name@ == "Deliveries"@
            &&& new.normalized_name@ == "deliveries"@
            &&& new.active
            &&& new.created_at == at
        })
        &&& after == (Store { suppliers: after.suppliers, ..before })
    }
}

/// Find the standing supplier, creating it the first time stock arrives.
pub fn house(db: &mut Store, at: i64) -> (result: Result<i64, RepoError>)
    ensures
        ledgers_kept(*old(db), *final(db)),
        match result {
            Ok(id) => house_found(*old(db), *final(db), at, id),
            Err(error) => {
                &&& *final(db) == *old(db)
                &&& chosen(old(db).suppliers@, is_house()).len() == 0
                &&& fresh_id(old(db).suppliers@) is None
                &&& error@ == Why::Sqlite(SqlWhy::Full)
            },
        },
{
    let found: Vec<Supplier> = choose_rows(
        &db.suppliers,
        |s: &Supplier| -> (b: bool)
            ensures
                b == (s.normalized_name@ == "deliveries"@)
            { same(s.normalized_name.as_str(), "deliveries") },
        Ghost(is_house()),
    );
    if found.len() > 0 {
        return Ok(found[0].id);
    }
    let id: i64 = match next_id(&db.suppliers) {
        Some(id) => id,
        None => {
            return Err(RepoError::Sqlite(SqlError::Full));
        },
    };
    let ghost before = db.suppliers@;
    db.suppliers.push(
        Supplier {
            id,
            name: "Deliveries".to_owned(),
            normalized_name: "deliveries".to_owned(),
            active: true,
            created_at: at,
        },
    );
    assert(db.suppliers@.drop_last() =~= before);
    Ok(id)
}

/// The standing supplier is created once and found ever after.
pub proof fn the_house_is_created_once(before: Seq<Supplier>, new: Supplier)
    requires
        chosen(before, is_house()).len() == 0,
        new.normalized_name@ == "deliveries"@,
    ensures
        chosen(before.push(new), is_house()) == seq![new],
{
    assert(before.push(new).drop_last() =~= before);
    assert(chosen(before, is_house()) =~= Seq::empty());
    assert(chosen(before.push(new), is_house()) =~= seq![new]);
}

/// Why a delivery cannot be started; nothing, where it can.
pub open spec fn open_refusal(db: Store, supplier_id: i64) -> Option<Why> {
    if fresh_id(db.purchases@) is None {
        Some(Why::Sqlite(SqlWhy::Full))
    } else if row(db.suppliers@, supplier_id) is None {
        Some(Why::Refused("FOREIGN KEY constraint failed"@))
    } else {
        None
    }
}

/// Whether a store is another with that delivery started.
pub open spec fn delivery_started(
    before: Store,
    after: Store,
    supplier_id: i64,
    total_cost: Money,
    shift_id: Option<i64>,
    at: i64,
    by: i64,
    id: i64,
) -> bool {
    &&& fresh_id(before.purchases@) == Some(id)
    &&& after.purchases@ == before.purchases@.push(
        Purchase {
            id,
            supplier_id,
            received_at: at,
            shift_id,
            total_cost,
            created_by: by,
            created_at: at,
        },
    )
    &&& after == (Store { purchases: after.purchases, ..before })
}

/// Start a delivery from a supplier that is on file. The caller adds lines and
/// posts stock.
pub fn open(
    db: &mut Store,
    supplier_id: i64,
    total_cost: Money,
    shift_id: Option<i64>,
    at: i64,
    by: i64,
) -> (result: Result<i64, RepoError>)
    ensures
        ledgers_kept(*old(db), *final(db)),
        match result {
            Ok(id) => {
                &&& open_refusal(*old(db), supplier_id) is None
                &&& delivery_started(*old(db), *final(db), supplier_id, total_cost, shift_id, at, by, id)
            },
            Err(error) => {
                &&& *final(db) == *old(db)
                &&& open_refusal(*old(db), supplier_id) == Some(error@)
            },
        },
{
    let id: i64 = match next_id(&db.purchases) {
        Some(id) => id,
        None => {
            return Err(RepoError::Sqlite(SqlError::Full));
        },
    };
    if find_place(&db.suppliers, supplier_id).is_none() {
        return refuse("FOREIGN KEY constraint failed");
    }
    db.purchases.push(
        Purchase {
            id,
            supplier_id,
            received_at: at,
            shift_id,
            total_cost,
            created_by: by,
            created_at: at,
        },
    );
    Ok(id)
}

/// What one counted unit of a line cost, to the nearest smallest part.
pub open spec fn rate_of_line(line_cost: int, thousandths: int) -> int {
    cut(line_cost * 1_000 + thousandths / 2, thousandths)
}

/// What a line's cost per unit is, or why it has none.
pub open spec fn unit_rate_of(line_cost: Money, quantity: Milli) -> Result<Money, Why> {
    let rate = rate_of_line(line_cost.minor as int, quantity.thousandths as int);
    if quantity.thousandths <= 0 {
        Err(Why::Refused("a delivery line must be for more than nothing"@))
    } else if !fits(rate) {
        Err(Why::Refused("that delivery costs too much"@))
    } else {
        Ok(Money { minor: rate as i64 })
    }
}

/// The rate per counted unit of a line.
///
/// The total stays authoritative: this rate only values the movement.
pub fn unit_rate(line_cost: Money, quantity: Milli) -> (result: Result<Money, RepoError>)
    ensures
        match unit_rate_of(line_cost, quantity) {
            Ok(rate) => result == Ok::<Money, RepoError>(rate),
            Err(why) => result matches Err(error) && error@ == why,
        },
{
    let thousandths: i128 = quantity.thousandths as i128;
    if thousandths <= 0 {
        return refuse("a delivery line must be for more than nothing");
    }
    let scaled: i128 = line_cost.minor as i128 * 1_000 + thousandths / 2;
    match narrow(divide_cut(scaled, thousandths)) {
        Some(minor) => Ok(Money { minor }),
        None => refuse("that delivery costs too much"),
    }
}

/// The line of that delivery for that product.
pub open spec fn is_line(purchase_id: i64, product_id: i64) -> spec_fn(PurchaseLine) -> bool {
    |l: PurchaseLine| l.purchase_id == purchase_id && l.product_id == product_id
}

/// What a line of a delivery costs per unit, or why it cannot be recorded.
pub open spec fn line_refusal(
    db: Store,
    purchase_id: i64,
    product_id: i64,
    quantity: Milli,
    line_cost: Money,
) -> Option<Why> {
    match unit_rate_of(line_cost, quantity) {
        Err(why) => Some(why),
        Ok(_) => if any(db.purchase_lines@, is_line(purchase_id, product_id)) {
            Some(
                Why::Refused(
                    "UNIQUE constraint failed: purchase_lines.purchase_id, purchase_lines.product_id"@,
                ),
            )
        } else {
            None
        },
    }
}

/// Whether a store is another with that line of a delivery written.
pub open spec fn line_delivered(
    before: Store,
    after: Store,
    purchase_id: i64,
    product_id: i64,
    quantity: Milli,
    line_cost: Money,
    unit: Money,
) -> bool {
    &&& unit_rate_of(line_cost, quantity) == Ok::<Money, Why>(unit)
    &&& after.purchase_lines@ == before.purchase_lines@.push(
        PurchaseLine { purchase_id, product_id, quantity, unit_cost: unit, line_cost },
    )
    &&& after == (Store { purchase_lines: after.purchase_lines, ..before })
}

/// Record what arrived, and what the whole line cost. A delivery names a
/// product once, so that stock cannot double.
pub fn add_line(
    db: &mut Store,
    purchase_id: i64,
    product_id: i64,
    quantity: Milli,
    line_cost: Money,
) -> (result: Result<Money, RepoError>)
    ensures
        ledgers_kept(*old(db), *final(db)),
        match result {
            Ok(unit) => {
                &&& line_refusal(*old(db), purchase_id, product_id, quantity, line_cost) is None
                &&& line_delivered(*old(db), *final(db), purchase_id, product_id, quantity, line_cost, unit)
            },
            Err(error) => {
                &&& *final(db) == *old(db)
                &&& line_refusal(*old(db), purchase_id, product_id, quantity, line_cost) == Some(
                    error@,
                )
            },
        },
{
    let unit: Money = match unit_rate(line_cost, quantity) {
        Ok(unit) => unit,
        Err(error) => {
            return Err(error);
        },
    };
    if any_row(
        &db.purchase_lines,
        |l: &PurchaseLine| -> (b: bool)
            ensures
                b == (l.purchase_id == purchase_id && l.product_id == product_id)
            { l.purchase_id == purchase_id && l.product_id == product_id },
        Ghost(is_line(purchase_id, product_id)),
    ) {
        return refuse(
            "UNIQUE constraint failed: purchase_lines.purchase_id, purchase_lines.product_id",
        );
    }
    db.purchase_lines.push(
        PurchaseLine { purchase_id, product_id, quantity, unit_cost: unit, line_cost },
    );
    Ok(unit)
}

/// What a shelf that a delivery landed on costs per unit.
///
/// `standing` is what was on the shelf, in thousandths; a shelf that is
/// somehow negative counts as empty.
pub open spec fn blended_cost(standing: int, held: int, arriving: int, line_cost: int) -> int {
    let before = if standing < 0 {
        0
    } else {
        standing
    };
    let total = before + arriving;
    cut(before * held + line_cost * 1_000 + total / 2, total)
}

/// The new average cost of a product, or why there is none.
pub open spec fn averaged(db: Store, product_id: i64, arriving: Milli, line_cost: Money) -> Result<
    Money,
    Why,
> {
    match shelf(db, product_id) {
        None => Err(Why::Sqlite(SqlWhy::Overflow)),
        Some(standing) => match row(db.products@, product_id) {
            None => Err(Why::Sqlite(SqlWhy::NoRows)),
            Some(listed) => {
                let before = if standing < 0 {
                    0
                } else {
                    standing as int
                };
                let cost = blended_cost(
                    standing as int,
                    listed.product.avg_cost.minor as int,
                    arriving.thousandths as int,
                    line_cost.minor as int,
                );
                if before + arriving.thousandths <= 0 {
                    Err(Why::Refused("a delivery must leave something on the shelf"@))
                } else if !fits(cost) {
                    Err(Why::Refused("that shelf is worth too much to value"@))
                } else {
                    Ok(Money { minor: cost as i64 })
                }
            },
        },
    }
}

/// Whether a store is another with one product at another cost.
pub open spec fn cost_changed(
    before: Store,
    after: Store,
    product_id: i64,
    cost: Money,
) -> bool {
    &&& place(before.products@, product_id) matches Some(at) && after.products@
        == before.products@.update(
        at,
        ProductRow {
            product: Product { avg_cost: cost, ..before.products@[at].product },
            ..before.products@[at]
        },
    )
    &&& after == (Store { products: after.products, ..before })
}

/// Re-average a product's cost once a delivery has landed.
///
/// Computed from the exact invoice total rather than the rounded rate per
/// unit, so rounding cannot accumulate into the cost of goods.
pub fn reaverage(db: &mut Store, product_id: i64, arriving: Milli, line_cost: Money) -> (result:
    Result<Money, RepoError>)
    ensures
        ledgers_kept(*old(db), *final(db)),
        match averaged(*old(db), product_id, arriving, line_cost) {
            Ok(cost) => {
                &&& result == Ok::<Money, RepoError>(cost)
                &&& cost_changed(*old(db), *final(db), product_id, cost)
            },
            Err(why) => {
                &&& result matches Err(error) && error@ == why
                &&& *final(db) == *old(db)
            },
        },
{
    let standing: i64 = match on_hand(db, product_id) {
        Ok(quantity) => quantity.thousandths,
        Err(error) => {
            return Err(error);
        },
    };
    let before: i128 = if standing < 0 {
        0
    } else {
        standing as i128
    };
    let at: usize = match find_place(&db.products, product_id) {
        Some(at) => at,
        None => {
            return Err(RepoError::Sqlite(SqlError::NoRows));
        },
    };
    let held: i128 = db.products[at].product.avg_cost.minor as i128;
    assert(-0x4000_0000_0000_0000_0000_0000_0000_0000 <= before * held
        <= 0x4000_0000_0000_0000_0000_0000_0000_0000) by (nonlinear_arith)
        requires
            0 <= before <= i64::MAX,
            i64::MIN <= held <= i64::MAX,
    ;
    let worth: i128 = before * held + line_cost.minor as i128 * 1_000;
    let total: i128 = before + arriving.thousandths as i128;
    if total <= 0 {
        return refuse("a delivery must leave something on the shelf");
    }
    match narrow(divide_cut(worth + total / 2, total)) {
        None => refuse("that shelf is worth too much to value"),
        Some(minor) => {
            let mut changed: ProductRow = db.products[at].clone();
            changed.product.avg_cost = Money { minor };
            db.products.set(at, changed);
            Ok(Money { minor })
        },
    }
}

/// The first delivery onto an empty shelf sets the cost outright: what the
/// crate cost per unit, to the nearest smallest part.
pub proof fn an_empty_shelf_takes_the_crates_own_rate(held: int, arriving: int, line_cost: int)
    requires
        arriving > 0,
    ensures
        blended_cost(0, held, arriving, line_cost) == rate_of_line(line_cost, arriving),
{
    assert(0 * held == 0) by (nonlinear_arith);
}

/// One delivery line, for the history on the Inventory screen.
#[derive(Debug, PartialEq, Eq)]
pub struct Received {
    pub purchase_id: i64,
    pub product_id: i64,
    pub name: String,
    pub base_unit: String,
    pub quantity: Milli,
    pub line_cost: Money,
    pub received_at: i64,
}

impl Clone for Received {
    fn clone(&self) -> (result: Self)
        ensures
            result == *self,
    {
        Received {
            purchase_id: self.purchase_id,
            product_id: self.product_id,
            name: self.name.clone(),
            base_unit: self.base_unit.clone(),
            quantity: self.quantity,
            line_cost: self.line_cost,
            received_at: self.received_at,
        }
    }
}

impl Row for Received {
    open spec fn key(&self) -> i64 {
        self.purchase_id
    }

    fn id(&self) -> (result: i64) {
        self.purchase_id
    }

    fn copy_row(&self) -> (result: Self) {
        self.clone()
    }
}

/// A line of the history, where its delivery and its product are there.
pub open spec fn received_line(db: Store, line: PurchaseLine) -> Option<Received> {
    match (row(db.purchases@, line.purchase_id), row(db.products@, line.product_id)) {
        (Some(purchase), Some(listed)) => Some(
            Received {
                purchase_id: line.purchase_id,
                product_id: line.product_id,
                name: listed.product.name,
                base_unit: listed.product.base_unit,
                quantity: line.quantity,
                line_cost: line.line_cost,
                received_at: purchase.received_at,
            },
        ),
        _ => None,
    }
}

/// The history, the line written last first.
pub open spec fn history(db: Store, lines: Seq<PurchaseLine>) -> Seq<Received>
    decreases lines.len(),
{
    if lines.len() == 0 {
        Seq::empty()
    } else {
        match received_line(db, lines.last()) {
            Some(line) => seq![line] + history(db, lines.drop_last()),
            None => history(db, lines.drop_last()),
        }
    }
}

pub open spec fn received_later() -> spec_fn(Received, Received) -> bool {
    |a: Received, b: Received| a.received_at > b.received_at
}

/// The front of a list: as many as the limit says, all of it where the limit
/// is negative.
pub open spec fn limited<T>(rows: Seq<T>, limit: i64) -> Seq<T> {
    if limit < 0 || limit >= rows.len() {
        rows
    } else {
        rows.take(limit as int)
    }
}

/// The most recent lines of deliveries, up to a limit.
pub open spec fn deliveries(db: Store, limit: i64) -> Seq<Received> {
    limited(in_order(history(db, db.purchase_lines@), received_later()), limit)
}

/// The most recent deliveries, newest first; of one moment, the line written
/// last comes first.
pub fn recent(db: &Store, limit: i64) -> (result: Vec<Received>)
    ensures
        result@ == deliveries(*db, limit),
{
    let mut found: Vec<Received> = Vec::new();
    let mut i: usize = db.purchase_lines.len();
    assert(db.purchase_lines@.take(i as int) =~= db.purchase_lines@);
    assert(found@ + history(*db, db.purchase_lines@) =~= history(*db, db.purchase_lines@));
    while i > 0
        invariant
            i <= db.purchase_lines.len(),
            found@ + history(*db, db.purchase_lines@.take(i as int)) == history(
                *db,
                db.purchase_lines@,
            ),
        decreases i,
    {
        let line: PurchaseLine = db.purchase_lines[i - 1];
        let ghost so_far = found@;
        let ghost seen = db.purchase_lines@.take(i as int);
        assert(seen.drop_last() =~= db.purchase_lines@.take(i - 1));
        assert(seen.last() == line);
        if let Some(purchase) = find_place(&db.purchases, line.purchase_id) {
            if let Some(listed) = find_place(&db.products, line.product_id) {
                found.push(
                    Received {
                        purchase_id: line.purchase_id,
                        product_id: line.product_id,
                        name: db.products[listed].product.name.clone(),
                        base_unit: db.products[listed].product.base_unit.clone(),
                        quantity: line.quantity,
                        line_cost: line.line_cost,
                        received_at: db.purchases[purchase].received_at,
                    },
                );
                assert(so_far + (seq![found@.last()] + history(
                    *db,
                    db.purchase_lines@.take(i - 1),
                )) =~= found@ + history(*db, db.purchase_lines@.take(i - 1)));
            }
        }
        i = i - 1;
    }
    assert(found@ + history(*db, db.purchase_lines@.take(0)) =~= found@);
    let sorted: Vec<Received> = sort_rows(
        &found,
        |a: &Received, b: &Received| -> (r: bool)
            ensures
                r == (a.received_at > b.received_at)
            { a.received_at > b.received_at },
        Ghost(received_later()),
    );
    if limit < 0 || limit as u64 >= sorted.len() as u64 {
        return sorted;
    }
    let wanted: usize = limit as usize;
    let mut result: Vec<Received> = Vec::new();
    let mut j: usize = 0;
    while j < wanted
        invariant
            j <= wanted,
            wanted < sorted.len(),
            result@ == sorted@.take(j as int),
        decreases wanted - j,
    {
        result.push(sorted[j].clone());
        j = j + 1;
        assert(result@ =~= sorted@.take(j as int));
    }
    result
}

} // verus!

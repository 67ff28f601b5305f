//! The movement ledger.
//!
//! Stock on hand is never stored. Every figure here is a sum over the
//! movements, so there is no cached quantity to drift. Insufficient stock
//! always blocks the sale: [`shortages`] is the check, and nothing switches it
//! off. The relief valve is a stock correction, made in the open with a
//! reason.

use vstd::prelude::*;

use super::{refuse, RepoError, SqlError, SqlWhy, Why};
use crate::money::{divide_nearest, fits, milli_text, narrow, nearest, Milli, Money, MoneyError};
use crate::repo::catalogue::{products_on_sale, Product};
use crate::store::{ledgers_kept, Store};
use crate::table::{
    chosen, find_place, fresh_id, in_order, next_id, row, running_sum, sort_rows, sum, sum_rows,
    Row,
};
use crate::tally::{added, adding_adds, amount, amount_of, ascending, figures, tally, Tallied};
use crate::text::{is_blank, same};

verus! {

#[derive(Clone, Copy, Debug, PartialEq, Eq, Structural)]
pub enum Kind {
    Sale,
    Return,
    Purchase,
    Adjustment,
    Damage,
    Loss,
    StockCorrection,
}

impl Kind {
    /// The word it is stored under.
    pub open spec fn word(self) -> Seq<char> {
        match self {
            Kind::Sale => "SALE"@,
            Kind::Return => "RETURN"@,
            Kind::Purchase => "PURCHASE"@,
            Kind::Adjustment => "ADJUSTMENT"@,
            Kind::Damage => "DAMAGE"@,
            Kind::Loss => "LOSS"@,
            Kind::StockCorrection => "STOCK_CORRECTION"@,
        }
    }

    /// The word it is stored under.
    pub fn as_str(self) -> (result: &'static str)
        ensures
            result@ == self.word(),
    {
        match self {
            Kind::Sale => "SALE",
            Kind::Return => "RETURN",
            Kind::Purchase => "PURCHASE",
            Kind::Adjustment => "ADJUSTMENT",
            Kind::Damage => "DAMAGE",
            Kind::Loss => "LOSS",
            Kind::StockCorrection => "STOCK_CORRECTION",
        }
    }

    /// What a stored word stands for.
    pub open spec fn of_word(text: Seq<char>) -> Option<Kind> {
        if text == "SALE"@ {
            Some(Kind::Sale)
        } else if text == "RETURN"@ {
            Some(Kind::Return)
        } else if text == "PURCHASE"@ {
            Some(Kind::Purchase)
        } else if text == "ADJUSTMENT"@ {
            Some(Kind::Adjustment)
        } else if text == "DAMAGE"@ {
            Some(Kind::Damage)
        } else if text == "LOSS"@ {
            Some(Kind::Loss)
        } else if text == "STOCK_CORRECTION"@ {
            Some(Kind::StockCorrection)
        } else {
            None
        }
    }

    fn read_word(text: &str) -> (result: Option<Kind>)
        ensures
            result == Self::of_word(text@),
    {
        if same(text, "SALE") {
            Some(Kind::Sale)
        } else if same(text, "RETURN") {
            Some(Kind::Return)
        } else if same(text, "PURCHASE") {
            Some(Kind::Purchase)
        } else if same(text, "ADJUSTMENT") {
            Some(Kind::Adjustment)
        } else if same(text, "DAMAGE") {
            Some(Kind::Damage)
        } else if same(text, "LOSS") {
            Some(Kind::Loss)
        } else if same(text, "STOCK_CORRECTION") {
            Some(Kind::StockCorrection)
        } else {
            None
        }
    }

    /// A word that was stored reads back as what it stood for.
    pub proof fn a_stored_word_reads_back(self)
        ensures
            Self::of_word(self.word()) == Some(self),
    {
        reveal_strlit("SALE");
        reveal_strlit("RETURN");
        reveal_strlit("PURCHASE");
        reveal_strlit("ADJUSTMENT");
        reveal_strlit("DAMAGE");
        reveal_strlit("LOSS");
        reveal_strlit("STOCK_CORRECTION");
        assert("RETURN"@.len() != "SALE"@.len());
        assert("PURCHASE"@.len() != "SALE"@.len());
        assert("PURCHASE"@.len() != "RETURN"@.len());
        assert("ADJUSTMENT"@.len() != "SALE"@.len());
        assert("ADJUSTMENT"@.len() != "RETURN"@.len());
        assert("ADJUSTMENT"@.len() != "PURCHASE"@.len());
        assert("DAMAGE"@.len() != "SALE"@.len());
        assert("DAMAGE"@[0] != "RETURN"@[0]);
        assert("DAMAGE"@.len() != "PURCHASE"@.len());
        assert("DAMAGE"@.len() != "ADJUSTMENT"@.len());
        assert("LOSS"@[0] != "SALE"@[0]);
        assert("LOSS"@.len() != "RETURN"@.len());
        assert("LOSS"@.len() != "PURCHASE"@.len());
        assert("LOSS"@.len() != "ADJUSTMENT"@.len());
        assert("LOSS"@.len() != "DAMAGE"@.len());
        assert("STOCK_CORRECTION"@.len() != "SALE"@.len());
        assert("STOCK_CORRECTION"@.len() != "RETURN"@.len());
        assert("STOCK_CORRECTION"@.len() != "PURCHASE"@.len());
        assert("STOCK_CORRECTION"@.len() != "ADJUSTMENT"@.len());
        assert("STOCK_CORRECTION"@.len() != "DAMAGE"@.len());
        assert("STOCK_CORRECTION"@.len() != "LOSS"@.len());
    }
}

impl Kind {
    /// Reads a stored kind of movement.
    pub fn parse(text: &str) -> (result: Option<Kind>)
        ensures
            result == Kind::of_word(text@),
    {
        Kind::read_word(text)
    }
}

/// One row of the ledger.
#[derive(Debug, PartialEq, Eq)]
pub struct StockMovement {
    pub id: i64,
    pub product_id: i64,
    pub kind: Kind,
    pub quantity: Milli,
    pub unit_cost: Money,
    pub reason: String,
    pub order_id: Option<i64>,
    pub purchase_id: Option<i64>,
    pub stock_count_id: Option<i64>,
    pub shift_id: Option<i64>,
    pub created_at: i64,
    pub created_by: i64,
}

impl Clone for StockMovement {
    fn clone(&self) -> (result: Self)
        ensures
            result == *self,
    {
        StockMovement {
            id: self.id,
            product_id: self.product_id,
            kind: self.kind,
            quantity: self.quantity,
            unit_cost: self.unit_cost,
            reason: self.reason.clone(),
            order_id: self.order_id,
            purchase_id: self.purchase_id,
            stock_count_id: self.stock_count_id,
            shift_id: self.shift_id,
            created_at: self.created_at,
            created_by: self.created_by,
        }
    }
}

impl Row for StockMovement {
    open spec fn key(&self) -> i64 {
        self.id
    }

    fn id(&self) -> (result: i64) {
        self.id
    }

    fn copy_row(&self) -> (result: Self) {
        self.clone()
    }
}

/// One row of the ledger, before it is written.
///
/// The sign lives in the quantity, and it is checked against the kind: a sale
/// that increased stock, or a purchase that decreased it, is refused.
#[derive(Clone, Copy, Debug)]
pub struct Movement<'a> {
    pub product_id: i64,
    pub kind: Kind,
    pub quantity: Milli,
    pub unit_cost: Money,
    pub reason: &'a str,
    pub order_id: Option<i64>,
    pub purchase_id: Option<i64>,
    pub stock_count_id: Option<i64>,
    /// Deliveries and stock counts happen while the club is shut, so a
    /// movement need not belong to a shift.
    pub shift_id: Option<i64>,
    pub at: i64,
    pub by: i64,
}

impl<'a> Movement<'a> {
    pub fn new(
        product_id: i64,
        kind: Kind,
        quantity: Milli,
        at: i64,
        by: i64,
    ) -> (result: Movement<'a>)
        ensures
            result.product_id == product_id,
            result.kind == kind,
            result.quantity == quantity,
            result.unit_cost.minor == 0,
            result.reason@ == ""@,
            result.order_id is None,
            result.purchase_id is None,
            result.stock_count_id is None,
            result.shift_id is None,
            result.at == at,
            result.by == by,
    {
        Movement {
            product_id,
            kind,
            quantity,
            unit_cost: Money::zero(),
            reason: "",
            order_id: None,
            purchase_id: None,
            stock_count_id: None,
            shift_id: None,
            at,
            by,
        }
    }

    pub fn for_order(self, order_id: i64) -> (result: Movement<'a>)
        ensures
            result == (Movement { order_id: Some(order_id), ..self }),
    {
        Movement { order_id: Some(order_id), ..self }
    }

    pub fn for_purchase(self, purchase_id: i64) -> (result: Movement<'a>)
        ensures
            result == (Movement { purchase_id: Some(purchase_id), ..self }),
    {
        Movement { purchase_id: Some(purchase_id), ..self }
    }

    pub fn during(self, shift_id: i64) -> (result: Movement<'a>)
        ensures
            result == (Movement { shift_id: Some(shift_id), ..self }),
    {
        Movement { shift_id: Some(shift_id), ..self }
    }

    pub fn because(self, reason: &'a str) -> (result: Movement<'a>)
        ensures
            result == (Movement { reason, ..self }),
    {
        Movement { reason, ..self }
    }

    pub fn costing(self, unit_cost: Money) -> (result: Movement<'a>)
        ensures
            result == (Movement { unit_cost, ..self }),
    {
        Movement { unit_cost, ..self }
    }
}

/// Whether a row of the ledger says what the movement said.
pub open spec fn posted(row: StockMovement, movement: Movement<'_>) -> bool {
    &&& row.product_id == movement.product_id
    &&& row.kind == movement.kind
    &&& row.quantity == movement.quantity
    &&& row.unit_cost == movement.unit_cost
    &&& row.reason@ == movement.reason@
    &&& row.order_id == movement.order_id
    &&& row.purchase_id == movement.purchase_id
    &&& row.stock_count_id == movement.stock_count_id
    &&& row.shift_id == movement.shift_id
    &&& row.created_at == movement.at
    &&& row.created_by == movement.by
}

/// Why a movement cannot be written; nothing, where it can.
pub open spec fn post_refusal(db: Store, movement: Movement<'_>) -> Option<Why> {
    let quantity = movement.quantity.thousandths;
    if quantity == 0 {
        Some(Why::Refused("a movement of nothing is not an event"@))
    } else if movement.kind == Kind::Sale && quantity > 0 {
        Some(Why::Refused("a sale cannot put stock on the shelf"@))
    } else if movement.kind == Kind::Purchase && quantity < 0 {
        Some(Why::Refused("a purchase cannot take stock off the shelf"@))
    } else if (movement.kind == Kind::Damage || movement.kind == Kind::Loss) && is_blank(
        movement.reason@,
    ) {
        Some(Why::Refused("damage and loss must say why"@))
    } else if fresh_id(db.movements@) is None {
        Some(Why::Sqlite(SqlWhy::Full))
    } else if movement.purchase_id matches Some(delivery) && row(db.purchases@, delivery) is None {
        Some(Why::Refused("FOREIGN KEY constraint failed"@))
    } else {
        None
    }
}

/// Whether a store is another with that movement in the ledger.
pub open spec fn movement_posted(
    before: Store,
    after: Store,
    movement: Movement<'_>,
    id: i64,
) -> bool {
    &&& fresh_id(before.movements@) == Some(id)
    &&& after.movements@.len() == before.movements@.len() + 1
    &&& after.movements@.drop_last() == before.movements@
    &&& after.movements@.last().id == id
    &&& posted(after.movements@.last(), movement)
    &&& after == (Store { movements: after.movements, ..before })
}

/// Write one movement. Nothing corrects a movement afterwards: a mistake is
/// answered with another movement.
pub fn post(db: &mut Store, movement: &Movement<'_>) -> (result: Result<i64, RepoError>)
    ensures
        ledgers_kept(*old(db), *final(db)),
        match result {
            Ok(id) => {
                &&& post_refusal(*old(db), *movement) is None
                &&& movement_posted(*old(db), *final(db), *movement, id)
            },
            Err(error) => {
                &&& *final(db) == *old(db)
                &&& post_refusal(*old(db), *movement) == Some(error@)
            },
        },
{
    if movement.quantity.is_zero() {
        return refuse("a movement of nothing is not an event");
    }
    if movement.kind == Kind::Sale && movement.quantity.thousandths > 0 {
        return refuse("a sale cannot put stock on the shelf");
    }
    if movement.kind == Kind::Purchase && movement.quantity.thousandths < 0 {
        return refuse("a purchase cannot take stock off the shelf");
    }
    if (movement.kind == Kind::Damage || movement.kind == Kind::Loss)
        && movement.reason.trim().is_empty() {
        return refuse("damage and loss must say why");
    }
    let id: i64 = match next_id(&db.movements) {
        Some(id) => id,
        None => {
            return Err(RepoError::Sqlite(SqlError::Full));
        },
    };
    if let Some(delivery) = movement.purchase_id {
        if find_place(&db.purchases, delivery).is_none() {
            return refuse("FOREIGN KEY constraint failed");
        }
    }
    let ghost before = db.movements@;
    db.movements.push(
        StockMovement {
            id,
            product_id: movement.product_id,
            kind: movement.kind,
            quantity: movement.quantity,
            unit_cost: movement.unit_cost,
            reason: movement.reason.to_owned(),
            order_id: movement.order_id,
            purchase_id: movement.purchase_id,
            stock_count_id: movement.stock_count_id,
            shift_id: movement.shift_id,
            created_at: movement.at,
            created_by: movement.by,
        },
    );
    assert(db.movements@.drop_last() =~= before);
    Ok(id)
}

/// What a movement says of one product.
pub open spec fn moved(product_id: i64) -> spec_fn(StockMovement) -> Option<i64> {
    |m: StockMovement|
        if m.product_id == product_id {
            Some(m.quantity.thousandths)
        } else {
            None
        }
}

/// What is on the shelf, in thousandths; nothing, where the ledger adds up to
/// more than 64 bits hold.
pub open spec fn shelf(db: Store, product_id: i64) -> Option<i64> {
    running_sum(db.movements@, moved(product_id))
}

/// What is on the shelf, summed from the ledger.
pub fn on_hand(db: &Store, product_id: i64) -> (result: Result<Milli, RepoError>)
    ensures
        match shelf(*db, product_id) {
            Some(total) => result == Ok::<Milli, RepoError>(Milli { thousandths: total }),
            None => result matches Err(error) && error@ == Why::Sqlite(SqlWhy::Overflow),
        },
{
    match sum_rows(
        &db.movements,
        |m: &StockMovement| -> (v: Option<i64>)
            ensures
                v == (if m.product_id == product_id {
                    Some(m.quantity.thousandths)
                } else {
                    None
                })
            {
                if m.product_id == product_id {
                    Some(m.quantity.thousandths)
                } else {
                    None
                }
            },
        Ghost(moved(product_id)),
    ) {
        Some(total) => Ok(Milli { thousandths: total }),
        None => Err(RepoError::Sqlite(SqlError::Overflow)),
    }
}

/// A movement moves its own product by its own quantity and no other product
/// at all, and every movement before it stands as it was written.
pub proof fn a_movement_moves_one_shelf(
    before: Store,
    after: Store,
    movement: Movement<'_>,
    product_id: i64,
)
    requires
        after.movements@.len() == before.movements@.len() + 1,
        after.movements@.drop_last() == before.movements@,
        posted(after.movements@.last(), movement),
    ensures
        sum(after.movements@, moved(product_id)) == sum(before.movements@, moved(product_id)) + (
        if movement.product_id == product_id {
            movement.quantity.thousandths as int
        } else {
            0
        }),
        forall|i: int|
            0 <= i < before.movements@.len() ==> #[trigger] after.movements@[i]
                == before.movements@[i],
{
    assert forall|i: int| 0 <= i < before.movements@.len() implies #[trigger] after.movements@[i]
        == before.movements@[i] by {
        assert(after.movements@.drop_last()[i] == after.movements@[i]);
    }
}

// ---------------------------------------------------------------------------
// Levels
// ---------------------------------------------------------------------------

/// One product on the shelf, for the Inventory screen.
#[derive(Debug, PartialEq, Eq)]
pub struct Level {
    pub product_id: i64,
    pub code: String,
    pub name: String,
    pub category: String,
    pub base_unit: String,
    pub on_hand: Milli,
    pub threshold: Milli,
    pub tracks_inventory: bool,
    pub avg_cost: Money,
}

impl Clone for Level {
    fn clone(&self) -> (result: Self)
        ensures
            result == *self,
    {
        Level {
            product_id: self.product_id,
            code: self.code.clone(),
            name: self.name.clone(),
            category: self.category.clone(),
            base_unit: self.base_unit.clone(),
            on_hand: self.on_hand,
            threshold: self.threshold,
            tracks_inventory: self.tracks_inventory,
            avg_cost: self.avg_cost,
        }
    }
}

impl Row for Level {
    open spec fn key(&self) -> i64 {
        self.product_id
    }

    fn id(&self) -> (result: i64) {
        self.product_id
    }

    fn copy_row(&self) -> (result: Self) {
        self.clone()
    }
}

impl Level {
    /// Whether there is little enough left to say so.
    pub open spec fn runs_low(self) -> bool {
        self.tracks_inventory && self.on_hand.thousandths <= self.threshold.thousandths
    }

    /// A product is low when it is at or under its own threshold.
    pub fn is_low(&self) -> (result: bool)
        ensures
            result == self.runs_low(),
    {
        self.tracks_inventory && self.on_hand.thousandths <= self.threshold.thousandths
    }

    /// What the shelf is worth at the weighted average cost, in the smallest
    /// part of money.
    pub open spec fn worth(self) -> int {
        nearest(self.on_hand.thousandths * self.avg_cost.minor, 1_000)
    }

    /// What the shelf is worth at the weighted average cost.
    pub fn value(&self) -> (result: Result<Money, MoneyError>)
        ensures
            match result {
                Ok(value) => value.minor == self.worth(),
                Err(error) => !fits(self.worth()) && error == MoneyError::Overflow,
            },
    {
        let quantity: i128 = self.on_hand.thousandths as i128;
        let cost: i128 = self.avg_cost.minor as i128;
        assert(-0x4000_0000_0000_0000_0000_0000_0000_0000 <= quantity * cost
            <= 0x4000_0000_0000_0000_0000_0000_0000_0000) by (nonlinear_arith)
            requires
                i64::MIN <= quantity <= i64::MAX,
                i64::MIN <= cost <= i64::MAX,
        ;
        match narrow(divide_nearest(quantity * cost, 1_000)) {
            Some(minor) => Ok(Money { minor }),
            None => Err(MoneyError::Overflow),
        }
    }

    /// Whether this is the level of that product in that store.
    pub open spec fn is_of(self, db: Store, product: Product) -> bool {
        &&& self.product_id == product.id
        &&& self.code == product.code
        &&& self.name == product.name
        &&& self.category == product.category
        &&& self.base_unit == product.base_unit
        &&& shelf(db, product.id) == Some(self.on_hand.thousandths)
        &&& self.threshold == product.low_stock_threshold
        &&& self.tracks_inventory == product.tracks_inventory
        &&& self.avg_cost == product.avg_cost
    }
}

/// Whether these are the levels of those products, one for one.
pub open spec fn levels_of(db: Store, levels: Seq<Level>, products: Seq<Product>) -> bool {
    &&& levels.len() == products.len()
    &&& forall|i: int| 0 <= i < products.len() ==> (#[trigger] levels[i]).is_of(db, products[i])
}

/// Whether some shelf adds up to more than 64 bits hold.
pub open spec fn some_shelf_overflows(db: Store, products: Seq<Product>) -> bool {
    exists|i: int| 0 <= i < products.len() && shelf(db, (#[trigger] products[i]).id) is None
}

/// One row per active product, with its balance, by category and name.
pub fn levels(db: &Store) -> (result: Result<Vec<Level>, RepoError>)
    ensures
        match result {
            Ok(levels) => levels_of(*db, levels@, products_on_sale(*db)) && !some_shelf_overflows(
                *db,
                products_on_sale(*db),
            ),
            Err(error) => some_shelf_overflows(*db, products_on_sale(*db)) && error@
                == Why::Sqlite(SqlWhy::Overflow),
        },
{
    let products: Vec<Product> = crate::repo::catalogue::products(db);
    let mut result: Vec<Level> = Vec::new();
    let mut i: usize = 0;
    while i < products.len()
        invariant
            i <= products.len(),
            products@ == products_on_sale(*db),
            result.len() == i,
            forall|k: int| 0 <= k < i ==> (#[trigger] result@[k]).is_of(*db, products@[k]),
            forall|k: int| 0 <= k < i ==> shelf(*db, (#[trigger] products@[k]).id) is Some,
        decreases products.len() - i,
    {
        let product: &Product = &products[i];
        match on_hand(db, product.id) {
            Ok(quantity) => {
                result.push(
                    Level {
                        product_id: product.id,
                        code: product.code.clone(),
                        name: product.name.clone(),
                        category: product.category.clone(),
                        base_unit: product.base_unit.clone(),
                        on_hand: quantity,
                        threshold: product.low_stock_threshold,
                        tracks_inventory: product.tracks_inventory,
                        avg_cost: product.avg_cost,
                    },
                );
            },
            Err(error) => {
                assert(shelf(*db, products@[i as int].id) is None);
                return Err(error);
            },
        }
        i = i + 1;
    }
    Ok(result)
}

pub open spec fn is_running_low() -> spec_fn(Level) -> bool {
    |l: Level| l.runs_low()
}

/// Deepest into its threshold first.
pub open spec fn scarcer() -> spec_fn(Level, Level) -> bool {
    |a: Level, b: Level|
        a.on_hand.thousandths - a.threshold.thousandths < b.on_hand.thousandths
            - b.threshold.thousandths
}

/// Whether a list is what is running out, worst first.
pub open spec fn running_low(db: Store, found: Seq<Level>) -> bool {
    exists|all: Seq<Level>|
        {
            &&& #[trigger] levels_of(db, all, products_on_sale(db))
            &&& found == in_order(chosen(all, is_running_low()), scarcer())
        }
}

/// What is running out, worst first.
pub fn low(db: &Store) -> (result: Result<Vec<Level>, RepoError>)
    ensures
        match result {
            Ok(found) => running_low(*db, found@),
            Err(error) => some_shelf_overflows(*db, products_on_sale(*db)) && error@
                == Why::Sqlite(SqlWhy::Overflow),
        },
{
    let all: Vec<Level> = match levels(db) {
        Ok(all) => all,
        Err(error) => {
            return Err(error);
        },
    };
    let found: Vec<Level> = crate::table::choose_rows(
        &all,
        |l: &Level| -> (r: bool)
            ensures
                r == (l.runs_low())
            { l.is_low() },
        Ghost(is_running_low()),
    );
    let sorted: Vec<Level> = sort_rows(
        &found,
        |a: &Level, b: &Level| -> (r: bool)
            ensures
                r == (a.on_hand.thousandths - a.threshold.thousandths < b.on_hand.thousandths
                    - b.threshold.thousandths)
            {
                a.on_hand.thousandths as i128 - (a.threshold.thousandths as i128)
                    < b.on_hand.thousandths as i128 - (b.threshold.thousandths as i128)
            },
        Ghost(scarcer()),
    );
    assert(levels_of(*db, all@, products_on_sale(*db)));
    Ok(sorted)
}

// ---------------------------------------------------------------------------
// Shortages
// ---------------------------------------------------------------------------

/// A product there is not enough of.
#[derive(Debug, PartialEq, Eq)]
pub struct Shortage {
    pub product_id: i64,
    pub name: String,
    pub wanted: Milli,
    pub available: Milli,
}

impl Clone for Shortage {
    fn clone(&self) -> (result: Self)
        ensures
            result == *self,
    {
        Shortage {
            product_id: self.product_id,
            name: self.name.clone(),
            wanted: self.wanted,
            available: self.available,
        }
    }
}

/// [`Shortage`], over characters.
pub struct Short {
    pub product_id: i64,
    pub name: Seq<char>,
    pub wanted: int,
    pub available: int,
}

impl View for Shortage {
    type V = Short;

    open spec fn view(&self) -> Short {
        Short {
            product_id: self.product_id,
            name: self.name@,
            wanted: self.wanted.thousandths as int,
            available: self.available.thousandths as int,
        }
    }
}

/// What a list of wants comes to, product by product.
pub open spec fn requirement(wanted: Seq<(i64, Milli)>) -> Result<Seq<(i64, int)>, Why>
    decreases wanted.len(),
{
    if wanted.len() == 0 {
        Ok(Seq::empty())
    } else {
        match requirement(wanted.drop_last()) {
            Err(why) => Err(why),
            Ok(so_far) => {
                let (product_id, quantity) = wanted.last();
                if quantity.thousandths <= 0 {
                    Err(Why::Refused("stock requirements must be greater than zero"@))
                } else if !fits(amount_of(so_far, product_id) + quantity.thousandths) {
                    Err(Why::Refused("stock requirements are too large"@))
                } else {
                    Ok(added(so_far, product_id, quantity.thousandths as int))
                }
            },
        }
    }
}

/// What is missing for a tally of wants. Products that nobody counts are never
/// short.
pub open spec fn missing_for(db: Store, totals: Seq<(i64, int)>) -> Result<Seq<Short>, Why>
    decreases totals.len(),
{
    if totals.len() == 0 {
        Ok(Seq::empty())
    } else {
        match missing_for(db, totals.drop_last()) {
            Err(why) => Err(why),
            Ok(found) => {
                let (product_id, wanted) = totals.last();
                match row(db.products@, product_id) {
                    None => Err(Why::Sqlite(SqlWhy::NoRows)),
                    Some(listed) => if !listed.product.tracks_inventory {
                        Ok(found)
                    } else {
                        match shelf(db, product_id) {
                            None => Err(Why::Sqlite(SqlWhy::Overflow)),
                            Some(available) => if available < wanted {
                                Ok(
                                    found.push(
                                        Short {
                                            product_id,
                                            name: listed.product.name@,
                                            wanted,
                                            available: available as int,
                                        },
                                    ),
                                )
                            } else {
                                Ok(found)
                            },
                        }
                    },
                }
            },
        }
    }
}

/// What is missing for a list of wants.
pub open spec fn shortfall_of(db: Store, wanted: Seq<(i64, Milli)>) -> Result<Seq<Short>, Why> {
    match requirement(wanted) {
        Ok(totals) => missing_for(db, totals),
        Err(why) => Err(why),
    }
}

/// A list of shortages, over characters.
pub open spec fn shorts(found: Seq<Shortage>) -> Seq<Short> {
    found.map_values(|s: Shortage| s@)
}

pub(crate) proof fn requirement_ascends(wanted: Seq<(i64, Milli)>)
    ensures
        requirement(wanted) matches Ok(totals) ==> ascending(totals) && forall|i: int|
            0 <= i < totals.len() ==> fits((#[trigger] totals[i]).1),
    decreases wanted.len(),
{
    if wanted.len() > 0 && requirement(wanted) is Ok {
        requirement_ascends(wanted.drop_last());
        let so_far = requirement(wanted.drop_last())->Ok_0;
        let (product_id, quantity) = wanted.last();
        adding_adds(so_far, product_id, quantity.thousandths as int, product_id);
        bounded_tally(so_far, product_id, quantity.thousandths as int);
    }
}

/// A tally stays within 64 bits when the amount that grows does.
pub(crate) proof fn bounded_tally(entries: Seq<(i64, int)>, product_id: i64, amount: int)
    requires
        forall|i: int| 0 <= i < entries.len() ==> fits((#[trigger] entries[i]).1),
        fits(amount_of(entries, product_id) + amount),
        fits(amount),
    ensures
        forall|i: int|
            0 <= i < added(entries, product_id, amount).len() ==> fits(
                (#[trigger] added(entries, product_id, amount)[i]).1,
            ),
    decreases entries.len(),
{
    if entries.len() > 0 {
        let rest = entries.drop_first();
        assert(forall|i: int| 0 <= i < rest.len() ==> #[trigger] rest[i] == entries[i + 1]);
        if entries[0].0 != product_id {
            bounded_tally(rest, product_id, amount);
        }
        let after = added(entries, product_id, amount);
        assert forall|i: int| 0 <= i < after.len() implies fits((#[trigger] after[i]).1) by {
            if entries[0].0 == product_id {
                if i > 0 {
                    assert(after[i] == rest[i - 1]);
                }
            } else if product_id < entries[0].0 {
                if i > 0 {
                    assert(after[i] == entries[i - 1]);
                }
            } else {
                if i > 0 {
                    assert(after[i] == added(rest, product_id, amount)[i - 1]);
                }
            }
        }
    }
}

/// Check a whole order's worth of consumption against the shelf.
///
/// What is wanted is added up per product first, because a check per line
/// would pass twice for two lines that each want the last bottle. Every
/// shortage is returned rather than the first.
pub fn shortages(db: &Store, wanted: &[(i64, Milli)]) -> (result: Result<
    Vec<Shortage>,
    RepoError,
>)
    ensures
        match shortfall_of(*db, wanted@) {
            Ok(found) => result matches Ok(list) && shorts(list@) == found,
            Err(why) => result matches Err(error) && error@ == why,
        },
{
    let mut totals: Vec<Tallied> = Vec::new();
    let mut i: usize = 0;
    assert(wanted@.take(0) =~= Seq::<(i64, Milli)>::empty());
    assert(figures(totals@) =~= Seq::<(i64, int)>::empty());
    while i < wanted.len()
        invariant
            i <= wanted.len(),
            requirement(wanted@.take(i as int)) == Ok::<Seq<(i64, int)>, Why>(figures(totals@)),
        decreases wanted.len() - i,
    {
        let (product_id, quantity): (i64, Milli) = wanted[i];
        let ghost seen = wanted@.take(i + 1);
        proof {
            assert(seen.drop_last() =~= wanted@.take(i as int));
            requirement_fails_onward(wanted@, i + 1);
            requirement_ascends(wanted@.take(i as int));
        }
        if quantity.is_zero() || quantity.is_negative() {
            return refuse("stock requirements must be greater than zero");
        }
        let so_far: i128 = amount(&totals, product_id);
        assert(fits(so_far as int)) by {
            amount_is_listed(figures(totals@), product_id);
        }
        let total: i128 = so_far + quantity.thousandths as i128;
        if narrow(total).is_none() {
            return refuse("stock requirements are too large");
        }
        let kept: bool = tally(&mut totals, product_id, quantity.thousandths as i128);
        assert(kept);
        i = i + 1;
    }
    proof {
        assert(wanted@.take(wanted@.len() as int) =~= wanted@);
        requirement_ascends(wanted@);
    }
    let mut found: Vec<Shortage> = Vec::new();
    let ghost all = figures(totals@);
    let mut j: usize = 0;
    assert(all.take(0) =~= Seq::<(i64, int)>::empty());
    assert(shorts(found@) =~= Seq::<Short>::empty());
    while j < totals.len()
        invariant
            j <= totals.len(),
            all == figures(totals@),
            requirement(wanted@) == Ok::<Seq<(i64, int)>, Why>(all),
            forall|k: int| 0 <= k < all.len() ==> fits((#[trigger] all[k]).1),
            missing_for(*db, all.take(j as int)) == Ok::<Seq<Short>, Why>(shorts(found@)),
        decreases totals.len() - j,
    {
        let product_id: i64 = totals[j].product_id;
        assert(fits(all[j as int].1));
        let quantity: i64 = totals[j].amount as i64;
        proof {
            assert(all.take(j + 1).drop_last() =~= all.take(j as int));
            missing_fails_onward(*db, all, j + 1);
        }
        match find_place(&db.products, product_id) {
            None => {
                return Err(RepoError::Sqlite(SqlError::NoRows));
            },
            Some(at) => {
                if db.products[at].product.tracks_inventory {
                    match on_hand(db, product_id) {
                        Ok(available) => {
                            if available.thousandths < quantity {
                                let ghost before = shorts(found@);
                                found.push(
                                    Shortage {
                                        product_id,
                                        name: db.products[at].product.name.clone(),
                                        wanted: Milli { thousandths: quantity },
                                        available,
                                    },
                                );
                                assert(shorts(found@) =~= before.push(found@.last()@));
                            }
                        },
                        Err(error) => {
                            return Err(error);
                        },
                    }
                }
            },
        }
        j = j + 1;
    }
    assert(all.take(all.len() as int) =~= all);
    Ok(found)
}

pub(crate) proof fn amount_is_listed(entries: Seq<(i64, int)>, product_id: i64)
    ensures
        amount_of(entries, product_id) == 0 || exists|i: int|
            0 <= i < entries.len() && (#[trigger] entries[i]).1 == amount_of(entries, product_id)
                && entries[i].0 == product_id,
    decreases entries.len(),
{
    if entries.len() > 0 {
        if entries[0].0 == product_id {
            assert(entries[0].1 == amount_of(entries, product_id));
        } else {
            let rest = entries.drop_first();
            amount_is_listed(rest, product_id);
            if amount_of(rest, product_id) != 0 {
                let i = choose|i: int|
                    0 <= i < rest.len() && (#[trigger] rest[i]).1 == amount_of(rest, product_id)
                        && rest[i].0 == product_id;
                assert(entries[i + 1] == rest[i]);
            }
        }
    }
}

proof fn requirement_fails_onward(wanted: Seq<(i64, Milli)>, n: int)
    requires
        0 <= n <= wanted.len(),
    ensures
        requirement(wanted.take(n)) matches Err(why) ==> requirement(wanted) == Err::<
            Seq<(i64, int)>,
            Why,
        >(why),
    decreases wanted.len() - n,
{
    if n == wanted.len() {
        assert(wanted.take(n) =~= wanted);
    } else {
        assert(wanted.take(n + 1).drop_last() =~= wanted.take(n));
        requirement_fails_onward(wanted, n + 1);
    }
}

proof fn missing_fails_onward(db: Store, totals: Seq<(i64, int)>, n: int)
    requires
        0 <= n <= totals.len(),
    ensures
        missing_for(db, totals.take(n)) matches Err(why) ==> missing_for(db, totals) == Err::<
            Seq<Short>,
            Why,
        >(why),
    decreases totals.len() - n,
{
    if n == totals.len() {
        assert(totals.take(n) =~= totals);
    } else {
        assert(totals.take(n + 1).drop_last() =~= totals.take(n));
        missing_fails_onward(db, totals, n + 1);
    }
}

/// One shortage, in words.
pub open spec fn shortage_text(short: Short) -> Seq<char> {
    short.name + " (need "@ + milli_text(short.wanted) + ", have "@ + milli_text(short.available)
        + ")"@
}

/// Shortages in words, one after the other.
pub open spec fn shortage_list(found: Seq<Short>) -> Seq<char>
    decreases found.len(),
{
    if found.len() == 0 {
        Seq::empty()
    } else if found.len() == 1 {
        shortage_text(found[0])
    } else {
        shortage_list(found.drop_last()) + "; "@ + shortage_text(found.last())
    }
}

/// The sentence shown at the till.
pub open spec fn shortage_sentence(found: Seq<Short>) -> Seq<char> {
    "Not enough stock: "@ + shortage_list(found)
}

/// Turn shortages into the sentence shown at the till.
pub fn shortage_message(shortages: &[Shortage]) -> (result: String)
    ensures
        result@ == shortage_sentence(shorts(shortages@)),
{
    let mut out: String = "Not enough stock: ".to_owned();
    let ghost start = out@;
    let ghost all = shorts(shortages@);
    let mut i: usize = 0;
    assert(all.take(0) =~= Seq::<Short>::empty());
    assert(start + shortage_list(all.take(0)) =~= start);
    while i < shortages.len()
        invariant
            i <= shortages.len(),
            start == "Not enough stock: "@,
            all == shorts(shortages@),
            out@ == start + shortage_list(all.take(i as int)),
        decreases shortages.len() - i,
    {
        let ghost before = out@;
        if i > 0 {
            out.append("; ");
        }
        let short: &Shortage = &shortages[i];
        out.append(short.name.as_str());
        out.append(" (need ");
        out.append(short.wanted.to_display().as_str());
        out.append(", have ");
        out.append(short.available.to_display().as_str());
        out.append(")");
        proof {
            let text = shortage_text(all[i as int]);
            assert(all.take(i + 1).drop_last() =~= all.take(i as int));
            assert(all.take(i + 1).last() == all[i as int]);
            if i == 0 {
                assert(out@ =~= before + text);
            } else {
                assert(out@ =~= before + "; "@ + text);
            }
            assert(out@ =~= start + shortage_list(all.take(i + 1)));
        }
        i = i + 1;
    }
    assert(all.take(all.len() as int) =~= all);
    out
}

} // verus!

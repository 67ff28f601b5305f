//! Products, menu items, and the recipe that joins them.
//!
//! What you count is not what you sell. A shelf holds gin; a menu offers a
//! shot of gin, a bottle of gin and a gin and tonic. The recipe is the only
//! bridge, and every menu item has one: a beer's recipe is a single line
//! consuming one bottle.

use vstd::prelude::*;

use super::{refuse, RepoError, SqlError, SqlWhy, Why};
use crate::money::{cut, divide_cut, fits, narrow, Milli, Money};
use crate::repo::orders::Line;
use crate::repo::tabs;
use crate::store::{ledgers_kept, Store};
use crate::table::{
    any, any_row, choose_rows, chosen, find_place, fresh_id, in_order, next_id, place, row,
    sort_rows, Row,
};
use crate::tally::{
    added, adding_adds, amount_of, ascending, figures, fits_wide, lists, tally, Tallied,
};
use crate::text::{is_blank, join2, same, sorts_before, text_before, trimmed};

verus! {

/// Something on the shelf.
#[derive(Debug, PartialEq, Eq)]
pub struct Product {
    pub id: i64,
    pub code: String,
    pub name: String,
    pub category: String,
    pub base_unit: String,
    pub base_units_per_pack: i64,
    pub units_per_purchase_pack: i64,
    pub low_stock_threshold: Milli,
    pub tracks_inventory: bool,
    pub destination: String,
    pub avg_cost: Money,
    pub active: bool,
    /// `NONE`, `ML` or `GRAM`: what one counted unit is made of, when it is
    /// poured or weighed out rather than handed over whole.
    pub content_measure: String,
    /// How much of that measure one counted unit holds: a 750ml bottle is
    /// `Milli::from_units(750)`. Zero when there is no measure.
    pub content_per_unit: Milli,
}

impl Clone for Product {
    fn clone(&self) -> (result: Self)
        ensures
            result == *self,
    {
        Product {
            id: self.id,
            code: self.code.clone(),
            name: self.name.clone(),
            category: self.category.clone(),
            base_unit: self.base_unit.clone(),
            base_units_per_pack: self.base_units_per_pack,
            units_per_purchase_pack: self.units_per_purchase_pack,
            low_stock_threshold: self.low_stock_threshold,
            tracks_inventory: self.tracks_inventory,
            destination: self.destination.clone(),
            avg_cost: self.avg_cost,
            active: self.active,
            content_measure: self.content_measure.clone(),
            content_per_unit: self.content_per_unit,
        }
    }
}

impl Row for Product {
    open spec fn key(&self) -> i64 {
        self.id
    }

    fn id(&self) -> (result: i64) {
        self.id
    }

    fn copy_row(&self) -> (result: Self) {
        self.clone()
    }
}

/// A product, and when it was entered.
#[derive(Debug, PartialEq, Eq)]
pub struct ProductRow {
    pub product: Product,
    pub created_at: i64,
}

impl Clone for ProductRow {
    fn clone(&self) -> (result: Self)
        ensures
            result == *self,
    {
        ProductRow {
            product: self.product.clone(),
            created_at: self.created_at,
        }
    }
}

impl Row for ProductRow {
    open spec fn key(&self) -> i64 {
        self.product.id
    }

    fn id(&self) -> (result: i64) {
        self.product.id
    }

    fn copy_row(&self) -> (result: Self) {
        self.clone()
    }
}

/// What is asked for when a product is entered or edited.
#[derive(Clone, Copy, Debug)]
pub struct NewProduct<'a> {
    pub code: &'a str,
    pub name: &'a str,
    pub category: &'a str,
    pub base_unit: &'a str,
    pub base_units_per_pack: Milli,
    pub units_per_purchase_pack: i64,
    pub low_stock_threshold: Milli,
    pub tracks_inventory: bool,
    pub destination: &'a str,
    /// `NONE`, `ML` or `GRAM`.
    pub content_measure: &'a str,
    /// How much of that measure one counted unit holds. Zero when there is none.
    pub content_per_unit: Milli,
}

/// Something on the menu.
#[derive(Debug, PartialEq, Eq)]
pub struct SaleItem {
    pub id: i64,
    pub code: String,
    pub name: String,
    pub category: String,
    pub active: bool,
}

impl Clone for SaleItem {
    fn clone(&self) -> (result: Self)
        ensures
            result == *self,
    {
        SaleItem {
            id: self.id,
            code: self.code.clone(),
            name: self.name.clone(),
            category: self.category.clone(),
            active: self.active,
        }
    }
}

impl Row for SaleItem {
    open spec fn key(&self) -> i64 {
        self.id
    }

    fn id(&self) -> (result: i64) {
        self.id
    }

    fn copy_row(&self) -> (result: Self) {
        self.clone()
    }
}

/// A menu item, and the shelf item that it sells one for one if it does.
#[derive(Debug, PartialEq, Eq)]
pub struct SaleItemRow {
    pub item: SaleItem,
    pub from_product_id: Option<i64>,
    pub created_at: i64,
}

impl Clone for SaleItemRow {
    fn clone(&self) -> (result: Self)
        ensures
            result == *self,
    {
        SaleItemRow {
            item: self.item.clone(),
            from_product_id: self.from_product_id,
            created_at: self.created_at,
        }
    }
}

impl Row for SaleItemRow {
    open spec fn key(&self) -> i64 {
        self.item.id
    }

    fn id(&self) -> (result: i64) {
        self.item.id
    }

    fn copy_row(&self) -> (result: Self) {
        self.clone()
    }
}

#[derive(Clone, Copy, Debug)]
pub struct NewSaleItem<'a> {
    pub code: &'a str,
    pub name: &'a str,
    pub category: &'a str,
}

/// What a menu item costs, from one moment to another. The price in force has
/// no end.
#[derive(Clone, Copy, Debug, PartialEq, Eq, Structural)]
pub struct Price {
    pub id: i64,
    pub sale_item_id: i64,
    pub price: Money,
    pub effective_from: i64,
    pub effective_to: Option<i64>,
    pub created_by: Option<i64>,
}

impl Row for Price {
    open spec fn key(&self) -> i64 {
        self.id
    }

    fn id(&self) -> (result: i64) {
        self.id
    }

    fn copy_row(&self) -> (result: Self) {
        *self
    }
}

/// One version of how a menu item is made. The version in force has no end.
#[derive(Clone, Copy, Debug, PartialEq, Eq, Structural)]
pub struct Recipe {
    pub id: i64,
    pub sale_item_id: i64,
    pub version: i64,
    pub effective_from: i64,
    pub effective_to: Option<i64>,
    pub created_by: Option<i64>,
}

impl Row for Recipe {
    open spec fn key(&self) -> i64 {
        self.id
    }

    fn id(&self) -> (result: i64) {
        self.id
    }

    fn copy_row(&self) -> (result: Self) {
        *self
    }
}

/// One product that a recipe takes off the shelf, and how much of it.
#[derive(Clone, Copy, Debug, PartialEq, Eq, Structural)]
pub struct RecipeLine {
    pub recipe_id: i64,
    pub product_id: i64,
    pub quantity: Milli,
}

/// A line on the menu: the item, what it costs tonight, and the recipe version
/// currently in force.
#[derive(Debug, PartialEq, Eq)]
pub struct MenuItem {
    pub sale_item_id: i64,
    pub code: String,
    pub name: String,
    pub category: String,
    pub price: Money,
    pub recipe_id: i64,
}

impl Clone for MenuItem {
    fn clone(&self) -> (result: Self)
        ensures
            result == *self,
    {
        MenuItem {
            sale_item_id: self.sale_item_id,
            code: self.code.clone(),
            name: self.name.clone(),
            category: self.category.clone(),
            price: self.price,
            recipe_id: self.recipe_id,
        }
    }
}

impl Row for MenuItem {
    open spec fn key(&self) -> i64 {
        self.sale_item_id
    }

    fn id(&self) -> (result: i64) {
        self.sale_item_id
    }

    fn copy_row(&self) -> (result: Self) {
        self.clone()
    }
}

/// One product and how much of it a quantity of some menu item consumes.
#[derive(Debug, PartialEq, Eq)]
pub struct Consumed {
    pub product_id: i64,
    pub name: String,
    pub quantity: Milli,
    pub tracks_inventory: bool,
}

impl Clone for Consumed {
    fn clone(&self) -> (result: Self)
        ensures
            result == *self,
    {
        Consumed {
            product_id: self.product_id,
            name: self.name.clone(),
            quantity: self.quantity,
            tracks_inventory: self.tracks_inventory,
        }
    }
}

// ---------------------------------------------------------------------------
// Entering and editing
// ---------------------------------------------------------------------------

/// What is wrong with a product as it was entered; nothing, where it is right.
pub open spec fn product_objection(input: NewProduct<'_>) -> Option<Seq<char>> {
    if is_blank(input.code@) {
        Some("a product needs a code"@)
    } else if is_blank(input.name@) {
        Some("a product needs a name"@)
    } else if input.base_units_per_pack.thousandths <= 0 {
        Some("base units per pack must be greater than zero"@)
    } else if input.units_per_purchase_pack <= 0 {
        Some("purchase-pack units must be greater than zero"@)
    } else if input.low_stock_threshold.thousandths < 0 {
        Some("a low-stock threshold cannot be negative"@)
    } else if input.content_measure@ == "NONE"@ {
        None
    } else if input.content_measure@ == "ML"@ || input.content_measure@ == "GRAM"@ {
        if input.content_per_unit.thousandths <= 0 {
            Some("a measured item must say how much one holds"@)
        } else {
            None
        }
    } else {
        Some(input.content_measure@ + " is not a measure this till understands"@)
    }
}

pub(crate) fn validate_product(input: &NewProduct<'_>) -> (result: Result<(), RepoError>)
    ensures
        match product_objection(*input) {
            None => result is Ok,
            Some(why) => result matches Err(error) && error@ == Why::Refused(why),
        },
{
    if input.code.trim().is_empty() {
        return refuse("a product needs a code");
    }
    if input.name.trim().is_empty() {
        return refuse("a product needs a name");
    }
    if input.base_units_per_pack.is_zero() || input.base_units_per_pack.is_negative() {
        return refuse("base units per pack must be greater than zero");
    }
    if input.units_per_purchase_pack <= 0 {
        return refuse("purchase-pack units must be greater than zero");
    }
    if input.low_stock_threshold.is_negative() {
        return refuse("a low-stock threshold cannot be negative");
    }
    if same(input.content_measure, "NONE") {
    } else if same(input.content_measure, "ML") || same(input.content_measure, "GRAM") {
        // Without a size, converting a poured amount would divide by zero.
        if input.content_per_unit.thousandths <= 0 {
            return refuse("a measured item must say how much one holds");
        }
    } else {
        return refuse(
            join2(input.content_measure, " is not a measure this till understands").as_str(),
        );
    }
    Ok(())
}

/// The fraction of a counted unit that an amount poured is, in thousandths:
/// rounded rather than cut, so that a small pour never reads light.
pub open spec fn pour_fraction(poured: int, per_unit: int) -> int {
    cut(poured * 1_000 + per_unit / 2, per_unit)
}

/// Convert an amount poured, 30ml, into the fraction of a counted unit that a
/// recipe line stores: 30ml out of a 750ml bottle is 0.040 of a bottle.
pub fn measure_to_units(poured: Milli, per_unit: Milli) -> (result: Result<Milli, RepoError>)
    ensures
        ({
            let units = pour_fraction(poured.thousandths as int, per_unit.thousandths as int);
            if per_unit.thousandths <= 0 {
                result matches Err(error) && error@ == Why::Refused(
                    "that item does not say how much one holds"@,
                )
            } else if !fits(units) {
                result matches Err(error) && error@ == Why::Refused(
                    "that measure is too large to work with"@,
                )
            } else if units <= 0 {
                result matches Err(error) && error@ == Why::Refused(
                    "that measure is too small to draw anything off the shelf"@,
                )
            } else {
                result == Ok::<Milli, RepoError>(Milli { thousandths: units as i64 })
            }
        }),
{
    if per_unit.thousandths <= 0 {
        return refuse("that item does not say how much one holds");
    }
    let numerator: i128 = poured.thousandths as i128 * 1_000;
    let denominator: i128 = per_unit.thousandths as i128;
    match narrow(divide_cut(numerator + denominator / 2, denominator)) {
        None => refuse("that measure is too large to work with"),
        Some(units) => {
            if units <= 0 {
                return refuse("that measure is too small to draw anything off the shelf");
            }
            Ok(Milli { thousandths: units })
        },
    }
}

/// The measure that a fraction of a counted unit is.
pub open spec fn measured(units: int, per_unit: int) -> int {
    cut(units * per_unit, 1_000)
}

/// The inverse, for showing a stored recipe line back in the unit it was
/// written in: 0.040 of a 750ml bottle reads as 30ml.
pub fn units_to_measure(units: Milli, per_unit: Milli) -> (result: Milli)
    ensures
        result.thousandths == (if fits(
            measured(units.thousandths as int, per_unit.thousandths as int),
        ) {
            measured(units.thousandths as int, per_unit.thousandths as int)
        } else {
            i64::MAX as int
        }),
{
    let a: i128 = units.thousandths as i128;
    let b: i128 = per_unit.thousandths as i128;
    assert(-0x4000_0000_0000_0000_0000_0000_0000_0000 <= a * b
        <= 0x4000_0000_0000_0000_0000_0000_0000_0000) by (nonlinear_arith)
        requires
            i64::MIN <= a <= i64::MAX,
            i64::MIN <= b <= i64::MAX,
    ;
    match narrow(divide_cut(a * b, 1_000)) {
        Some(thousandths) => Milli { thousandths },
        None => Milli { thousandths: i64::MAX },
    }
}

/// A measure that a counted unit divides into whole thousandths reads back as
/// what was poured.
pub proof fn an_even_measure_reads_back(poured: int, per_unit: int)
    requires
        0 < per_unit,
        0 <= poured,
        poured * 1_000 % per_unit == 0,
    ensures
        measured(pour_fraction(poured, per_unit), per_unit) == poured,
{
    let n = poured * 1_000;
    let q = n / per_unit;
    assert(n == per_unit * q) by (nonlinear_arith)
        requires
            0 < per_unit,
            n % per_unit == 0,
            q == n / per_unit,
    ;
    assert((n + per_unit / 2) / per_unit == q) by (nonlinear_arith)
        requires
            0 < per_unit,
            n == per_unit * q,
    ;
    assert(q * per_unit == n) by (nonlinear_arith)
        requires
            n == per_unit * q,
    ;
    assert(n >= 0) by (nonlinear_arith)
        requires
            n == poured * 1_000,
            poured >= 0,
    ;
}

/// Whether a product says what was asked for.
pub open spec fn product_says(product: Product, input: NewProduct<'_>) -> bool {
    &&& product.code@ == trimmed(input.code@)
    &&& product.name@ == trimmed(input.name@)
    &&& product.category@ == trimmed(input.category@)
    &&& product.base_unit@ == input.base_unit@
    &&& product.base_units_per_pack == input.base_units_per_pack.thousandths
    &&& product.units_per_purchase_pack == input.units_per_purchase_pack
    &&& product.low_stock_threshold == input.low_stock_threshold
    &&& product.tracks_inventory == input.tracks_inventory
    &&& product.destination@ == input.destination@
    &&& product.content_measure@ == input.content_measure@
    &&& product.content_per_unit == input.content_per_unit
}

/// Why a product cannot be entered; nothing, where it can.
pub open spec fn add_product_refusal(db: Store, input: NewProduct<'_>) -> Option<Why> {
    match product_objection(input) {
        Some(why) => Some(Why::Refused(why)),
        None => if fresh_id(db.products@) is None {
            Some(Why::Sqlite(SqlWhy::Full))
        } else {
            None
        },
    }
}

/// Whether a store is another with that product on the books.
pub open spec fn product_added(
    before: Store,
    after: Store,
    input: NewProduct<'_>,
    at: i64,
    id: i64,
) -> bool {
    &&& fresh_id(before.products@) == Some(id)
    &&& after.products@.len() == before.products@.len() + 1
    &&& after.products@.drop_last() == before.products@
    &&& ({
        let new = after.products@.last();
        &&& new.product.id == id
        &&& product_says(new.product, input)
        &&& new.product.avg_cost.minor == 0
        &&& new.product.active
        &&& new.created_at == at
    })
    &&& after == (Store { products: after.products, ..before })
}

/// Enters a product. It costs nothing until a delivery says what it cost.
pub fn add_product(db: &mut Store, input: &NewProduct<'_>, at: i64) -> (result: Result<
    i64,
    RepoError,
>)
    ensures
        ledgers_kept(*old(db), *final(db)),
        match result {
            Ok(id) => {
                &&& add_product_refusal(*old(db), *input) is None
                &&& product_added(*old(db), *final(db), *input, at, id)
            },
            Err(error) => {
                &&& *final(db) == *old(db)
                &&& add_product_refusal(*old(db), *input) == Some(error@)
            },
        },
{
    match validate_product(input) {
        Ok(_) => {},
        Err(error) => {
            return Err(error);
        },
    }
    let id: i64 = match next_id(&db.products) {
        Some(id) => id,
        None => {
            return Err(RepoError::Sqlite(SqlError::Full));
        },
    };
    let ghost before = db.products@;
    db.products.push(
        ProductRow {
            product: Product {
                id,
                code: input.code.trim().to_owned(),
                name: input.name.trim().to_owned(),
                category: input.category.trim().to_owned(),
                base_unit: input.base_unit.to_owned(),
                base_units_per_pack: input.base_units_per_pack.thousandths,
                units_per_purchase_pack: input.units_per_purchase_pack,
                low_stock_threshold: input.low_stock_threshold,
                tracks_inventory: input.tracks_inventory,
                destination: input.destination.to_owned(),
                avg_cost: Money::zero(),
                active: true,
                content_measure: input.content_measure.to_owned(),
                content_per_unit: input.content_per_unit,
            },
            created_at: at,
        },
    );
    assert(db.products@.drop_last() =~= before);
    Ok(id)
}

/// Why a product cannot be edited; nothing, where it can.
pub open spec fn update_product_refusal(db: Store, id: i64, input: NewProduct<'_>) -> Option<Why> {
    match product_objection(input) {
        Some(why) => Some(Why::Refused(why)),
        None => if place(db.products@, id) is None {
            Some(Why::Missing("product"@))
        } else {
            None
        },
    }
}

/// Whether a store is another with one product edited.
pub open spec fn product_edited(
    before: Store,
    after: Store,
    id: i64,
    input: NewProduct<'_>,
    active: bool,
) -> bool {
    &&& place(before.products@, id) matches Some(at) && ({
        let was = before.products@[at];
        let is = after.products@[at];
        &&& after.products@ == before.products@.update(at, is)
        &&& is.product.id == was.product.id
        &&& product_says(is.product, input)
        &&& is.product.avg_cost == was.product.avg_cost
        &&& is.product.active == active
        &&& is.created_at == was.created_at
    })
    &&& after == (Store { products: after.products, ..before })
}

/// Edits a product. What it cost and when it was entered stay as they are.
pub fn update_product(db: &mut Store, id: i64, input: &NewProduct<'_>, active: bool) -> (result:
    Result<(), RepoError>)
    ensures
        ledgers_kept(*old(db), *final(db)),
        match result {
            Ok(_) => {
                &&& update_product_refusal(*old(db), id, *input) is None
                &&& product_edited(*old(db), *final(db), id, *input, active)
            },
            Err(error) => {
                &&& *final(db) == *old(db)
                &&& update_product_refusal(*old(db), id, *input) == Some(error@)
            },
        },
{
    match validate_product(input) {
        Ok(_) => {},
        Err(error) => {
            return Err(error);
        },
    }
    let at: usize = match find_place(&db.products, id) {
        Some(at) => at,
        None => {
            return Err(RepoError::Missing { what: "product" });
        },
    };
    let avg_cost: Money = db.products[at].product.avg_cost;
    let created_at: i64 = db.products[at].created_at;
    db.products.set(
        at,
        ProductRow {
            product: Product {
                id,
                code: input.code.trim().to_owned(),
                name: input.name.trim().to_owned(),
                category: input.category.trim().to_owned(),
                base_unit: input.base_unit.to_owned(),
                base_units_per_pack: input.base_units_per_pack.thousandths,
                units_per_purchase_pack: input.units_per_purchase_pack,
                low_stock_threshold: input.low_stock_threshold,
                tracks_inventory: input.tracks_inventory,
                destination: input.destination.to_owned(),
                avg_cost,
                active,
                content_measure: input.content_measure.to_owned(),
                content_per_unit: input.content_per_unit,
            },
            created_at,
        },
    );
    Ok(())
}

pub fn sale_item(db: &Store, id: i64) -> (result: Result<SaleItem, RepoError>)
    ensures
        match row(db.sale_items@, id) {
            Some(found) => result == Ok::<SaleItem, RepoError>(found.item),
            None => result matches Err(error) && error@ == Why::Missing("sale item"@),
        },
{
    match find_place(&db.sale_items, id) {
        Some(at) => Ok(db.sale_items[at].item.clone()),
        None => Err(RepoError::Missing { what: "sale item" }),
    }
}

/// What is wrong with a menu item as it was entered; nothing, where it is
/// right.
pub open spec fn sale_item_objection(input: NewSaleItem<'_>) -> Option<Seq<char>> {
    if is_blank(input.code@) {
        Some("a sale item needs a code"@)
    } else if is_blank(input.name@) {
        Some("a sale item needs a name"@)
    } else if is_blank(input.category@) {
        Some("a sale item needs a category"@)
    } else {
        None
    }
}

pub(crate) fn validate_sale_item(input: &NewSaleItem<'_>) -> (result: Result<(), RepoError>)
    ensures
        match sale_item_objection(*input) {
            None => result is Ok,
            Some(why) => result matches Err(error) && error@ == Why::Refused(why),
        },
{
    if input.code.trim().is_empty() {
        return refuse("a sale item needs a code");
    }
    if input.name.trim().is_empty() {
        return refuse("a sale item needs a name");
    }
    if input.category.trim().is_empty() {
        return refuse("a sale item needs a category");
    }
    Ok(())
}

/// Whether a menu item says what was asked for.
pub open spec fn sale_item_says(item: SaleItem, input: NewSaleItem<'_>) -> bool {
    &&& item.code@ == trimmed(input.code@)
    &&& item.name@ == trimmed(input.name@)
    &&& item.category@ == trimmed(input.category@)
}

/// Why a menu item cannot be entered; nothing, where it can.
pub open spec fn add_sale_item_refusal(db: Store, input: NewSaleItem<'_>) -> Option<Why> {
    match sale_item_objection(input) {
        Some(why) => Some(Why::Refused(why)),
        None => if fresh_id(db.sale_items@) is None {
            Some(Why::Sqlite(SqlWhy::Full))
        } else {
            None
        },
    }
}

/// Whether a store is another with that entry on the books.
pub open spec fn sale_item_added(
    before: Store,
    after: Store,
    input: NewSaleItem<'_>,
    at: i64,
    id: i64,
) -> bool {
    &&& fresh_id(before.sale_items@) == Some(id)
    &&& after.sale_items@.len() == before.sale_items@.len() + 1
    &&& after.sale_items@.drop_last() == before.sale_items@
    &&& ({
        let new = after.sale_items@.last();
        &&& new.item.id == id
        &&& sale_item_says(new.item, input)
        &&& new.item.active
        &&& new.from_product_id is None
        &&& new.created_at == at
    })
    &&& after == (Store { sale_items: after.sale_items, ..before })
}

pub fn add_sale_item(db: &mut Store, input: &NewSaleItem<'_>, at: i64) -> (result: Result<
    i64,
    RepoError,
>)
    ensures
        ledgers_kept(*old(db), *final(db)),
        match result {
            Ok(id) => {
                &&& add_sale_item_refusal(*old(db), *input) is None
                &&& sale_item_added(*old(db), *final(db), *input, at, id)
            },
            Err(error) => {
                &&& *final(db) == *old(db)
                &&& add_sale_item_refusal(*old(db), *input) == Some(error@)
            },
        },
{
    match validate_sale_item(input) {
        Ok(_) => {},
        Err(error) => {
            return Err(error);
        },
    }
    let id: i64 = match next_id(&db.sale_items) {
        Some(id) => id,
        None => {
            return Err(RepoError::Sqlite(SqlError::Full));
        },
    };
    let ghost before = db.sale_items@;
    db.sale_items.push(
        SaleItemRow {
            item: SaleItem {
                id,
                code: input.code.trim().to_owned(),
                name: input.name.trim().to_owned(),
                category: input.category.trim().to_owned(),
                active: true,
            },
            from_product_id: None,
            created_at: at,
        },
    );
    assert(db.sale_items@.drop_last() =~= before);
    Ok(id)
}

/// A menu entry other than that one which already sells that product one for
/// one.
pub open spec fn rival_twin(sale_item_id: i64, product_id: i64) -> spec_fn(SaleItemRow) -> bool {
    |r: SaleItemRow| r.item.id != sale_item_id && r.from_product_id == Some(product_id)
}

/// Why a menu entry cannot be linked to a shelf item; nothing, where it can.
pub open spec fn link_refusal(db: Store, sale_item_id: i64, product_id: i64) -> Option<Why> {
    if place(db.sale_items@, sale_item_id) is None {
        Some(Why::Refused("that menu entry is not there to be linked to a shelf item"@))
    } else if any(db.sale_items@, rival_twin(sale_item_id, product_id)) {
        Some(Why::Refused("UNIQUE constraint failed: sale_items.from_product_id"@))
    } else {
        None
    }
}

/// Whether a store is another with a menu entry that sells one product one for one.
pub open spec fn twin_linked(
    before: Store,
    after: Store,
    sale_item_id: i64,
    product_id: i64,
) -> bool {
    &&& place(before.sale_items@, sale_item_id) matches Some(at)
        && after.sale_items@ == before.sale_items@.update(
        at,
        SaleItemRow {
            from_product_id: Some(product_id),
            ..before.sale_items@[at]
        },
    )
    &&& after == (Store { sale_items: after.sale_items, ..before })
}

/// Record that this menu entry is one shelf item sold one for one. No product
/// acquires two twins.
pub fn link_twin(db: &mut Store, sale_item_id: i64, product_id: i64) -> (result: Result<
    (),
    RepoError,
>)
    ensures
        ledgers_kept(*old(db), *final(db)),
        match result {
            Ok(_) => {
                &&& link_refusal(*old(db), sale_item_id, product_id) is None
                &&& twin_linked(*old(db), *final(db), sale_item_id, product_id)
            },
            Err(error) => {
                &&& *final(db) == *old(db)
                &&& link_refusal(*old(db), sale_item_id, product_id) == Some(error@)
            },
        },
{
    let at: usize = match find_place(&db.sale_items, sale_item_id) {
        Some(at) => at,
        None => {
            return refuse("that menu entry is not there to be linked to a shelf item");
        },
    };
    if any_row(
        &db.sale_items,
        |r: &SaleItemRow| -> (b: bool)
            ensures
                b == (r.item.id != sale_item_id && r.from_product_id == Some(product_id))
            { r.item.id != sale_item_id && r.from_product_id == Some(product_id) },
        Ghost(rival_twin(sale_item_id, product_id)),
    ) {
        return refuse("UNIQUE constraint failed: sale_items.from_product_id");
    }
    let mut changed: SaleItemRow = db.sale_items[at].clone();
    changed.from_product_id = Some(product_id);
    db.sale_items.set(at, changed);
    Ok(())
}

pub open spec fn sells_one_for_one(product_id: i64) -> spec_fn(SaleItemRow) -> bool {
    |r: SaleItemRow| r.from_product_id == Some(product_id)
}

/// The first row that meets a condition.
pub open spec fn first_chosen<T>(rows: Seq<T>, wanted: spec_fn(T) -> bool) -> Option<T> {
    if chosen(rows, wanted).len() > 0 {
        Some(chosen(rows, wanted)[0])
    } else {
        None
    }
}

/// The menu entry that sells a product one for one, if there is one.
pub open spec fn twin(db: Store, product_id: i64) -> Option<i64> {
    match first_chosen(db.sale_items@, sells_one_for_one(product_id)) {
        Some(found) => Some(found.item.id),
        None => None,
    }
}

/// The menu entry that sells this product one for one, if there is one.
pub fn twin_of(db: &Store, product_id: i64) -> (result: Option<i64>)
    ensures
        result == twin(*db, product_id),
{
    let found: Vec<SaleItemRow> = choose_rows(
        &db.sale_items,
        |r: &SaleItemRow| -> (b: bool)
            ensures
                b == (r.from_product_id == Some(product_id))
            { r.from_product_id == Some(product_id) },
        Ghost(sells_one_for_one(product_id)),
    );
    if found.len() > 0 {
        Some(found[0].item.id)
    } else {
        None
    }
}

/// Why a menu item cannot be edited; nothing, where it can.
pub open spec fn update_sale_item_refusal(db: Store, id: i64, input: NewSaleItem<'_>) -> Option<
    Why,
> {
    match sale_item_objection(input) {
        Some(why) => Some(Why::Refused(why)),
        None => if place(db.sale_items@, id) is None {
            Some(Why::Missing("sale item"@))
        } else {
            None
        },
    }
}

pub fn update_sale_item(db: &mut Store, id: i64, input: &NewSaleItem<'_>, active: bool) -> (result:
    Result<(), RepoError>)
    ensures
        ledgers_kept(*old(db), *final(db)),
        match result {
            Ok(_) => {
                &&& update_sale_item_refusal(*old(db), id, *input) is None
                &&& place(old(db).sale_items@, id) matches Some(at) && ({
                    let before = old(db).sale_items@[at];
                    let after = final(db).sale_items@[at];
                    &&& final(db).sale_items@ == old(db).sale_items@.update(at, after)
                    &&& after.item.id == before.item.id
                    &&& sale_item_says(after.item, *input)
                    &&& after.item.active == active
                    &&& after.from_product_id == before.from_product_id
                    &&& after.created_at == before.created_at
                })
                &&& *final(db) == (Store { sale_items: final(db).sale_items, ..*old(db) })
            },
            Err(error) => {
                &&& *final(db) == *old(db)
                &&& update_sale_item_refusal(*old(db), id, *input) == Some(error@)
            },
        },
{
    match validate_sale_item(input) {
        Ok(_) => {},
        Err(error) => {
            return Err(error);
        },
    }
    let at: usize = match find_place(&db.sale_items, id) {
        Some(at) => at,
        None => {
            return Err(RepoError::Missing { what: "sale item" });
        },
    };
    let from_product_id: Option<i64> = db.sale_items[at].from_product_id;
    let created_at: i64 = db.sale_items[at].created_at;
    db.sale_items.set(
        at,
        SaleItemRow {
            item: SaleItem {
                id,
                code: input.code.trim().to_owned(),
                name: input.name.trim().to_owned(),
                category: input.category.trim().to_owned(),
                active,
            },
            from_product_id,
            created_at,
        },
    );
    Ok(())
}

/// Calls a menu item something else, and changes nothing else about it.
pub(crate) fn rename_sale_item(db: &mut Store, id: i64, name: &str) -> (result: Result<
    (),
    RepoError,
>)
    ensures
        match place(old(db).sale_items@, id) {
            Some(at) => {
                let before = old(db).sale_items@[at];
                let after = final(db).sale_items@[at];
                &&& result is Ok
                &&& final(db).sale_items@ == old(db).sale_items@.update(at, after)
                &&& after == (SaleItemRow {
                    item: SaleItem { name: after.item.name, ..before.item },
                    ..before
                })
                &&& after.item.name@ == name@
                &&& *final(db) == (Store { sale_items: final(db).sale_items, ..*old(db) })
            },
            None => {
                &&& result matches Err(error) && error@ == Why::Missing("sale item"@)
                &&& *final(db) == *old(db)
            },
        },
{
    match find_place(&db.sale_items, id) {
        Some(at) => {
            let mut changed: SaleItemRow = db.sale_items[at].clone();
            changed.item.name = name.to_owned();
            db.sale_items.set(at, changed);
            Ok(())
        },
        None => Err(RepoError::Missing { what: "sale item" }),
    }
}

/// Take something off the list, or put it back. Nothing in the catalogue is
/// ever deleted: an order line from last year names a product, and a row that
/// vanished would take the meaning of that line with it.
pub fn set_product_active(db: &mut Store, id: i64, active: bool) -> (result: Result<(), RepoError>)
    ensures
        ledgers_kept(*old(db), *final(db)),
        match place(old(db).products@, id) {
            Some(at) => {
                &&& result is Ok
                &&& final(db).products@ == old(db).products@.update(
                    at,
                    ProductRow {
                        product: Product { active, ..old(db).products@[at].product },
                        ..old(db).products@[at]
                    },
                )
                &&& *final(db) == (Store { products: final(db).products, ..*old(db) })
            },
            None => {
                &&& result matches Err(error) && error@ == Why::Missing("product"@)
                &&& *final(db) == *old(db)
            },
        },
{
    match find_place(&db.products, id) {
        Some(at) => {
            let mut changed: ProductRow = db.products[at].clone();
            changed.product.active = active;
            db.products.set(at, changed);
            Ok(())
        },
        None => Err(RepoError::Missing { what: "product" }),
    }
}

/// Take a drink off the menu, or put it back. See [`set_product_active`].
pub fn set_sale_item_active(db: &mut Store, id: i64, active: bool) -> (result: Result<
    (),
    RepoError,
>)
    ensures
        ledgers_kept(*old(db), *final(db)),
        match place(old(db).sale_items@, id) {
            Some(at) => {
                &&& result is Ok
                &&& final(db).sale_items@ == old(db).sale_items@.update(
                    at,
                    SaleItemRow {
                        item: SaleItem { active, ..old(db).sale_items@[at].item },
                        ..old(db).sale_items@[at]
                    },
                )
                &&& *final(db) == (Store { sale_items: final(db).sale_items, ..*old(db) })
            },
            None => {
                &&& result matches Err(error) && error@ == Why::Missing("sale item"@)
                &&& *final(db) == *old(db)
            },
        },
{
    match find_place(&db.sale_items, id) {
        Some(at) => {
            let mut changed: SaleItemRow = db.sale_items[at].clone();
            changed.item.active = active;
            db.sale_items.set(at, changed);
            Ok(())
        },
        None => Err(RepoError::Missing { what: "sale item" }),
    }
}

// ---------------------------------------------------------------------------
// Reading
// ---------------------------------------------------------------------------

/// The live drink that a recipe line pours into, if the recipe is in force and
/// the drink is on the menu.
pub open spec fn live_drink(db: Store, line: RecipeLine) -> Option<SaleItem> {
    match row(db.recipes@, line.recipe_id) {
        None => None,
        Some(recipe) => if recipe.effective_to is Some {
            None
        } else {
            match row(db.sale_items@, recipe.sale_item_id) {
                None => None,
                Some(listed) => if listed.item.active {
                    Some(listed.item)
                } else {
                    None
                },
            }
        },
    }
}

/// The first recipe line, from `from` on, that pours a product into a live
/// drink.
pub open spec fn pouring_line(db: Store, product_id: i64, from: int) -> Option<int>
    decreases db.recipe_lines@.len() - from,
{
    if from < 0 || from >= db.recipe_lines@.len() {
        None
    } else if db.recipe_lines@[from].product_id == product_id && live_drink(
        db,
        db.recipe_lines@[from],
    ) is Some {
        Some(from)
    } else {
        pouring_line(db, product_id, from + 1)
    }
}

/// The live drink, if any, that still pours this product.
///
/// Deactivating an ingredient silently breaks every drink made from it. Naming
/// the drink lets the refusal say what to fix.
pub fn poured_into(db: &Store, product_id: i64) -> (result: Option<String>)
    ensures
        match pouring_line(*db, product_id, 0) {
            Some(at) => result matches Some(name) && live_drink(*db, db.recipe_lines@[at]) matches
                Some(drink) && name == drink.name,
            None => result is None,
        },
{
    let mut i: usize = 0;
    while i < db.recipe_lines.len()
        invariant
            i <= db.recipe_lines.len(),
            pouring_line(*db, product_id, 0) == pouring_line(*db, product_id, i as int),
        decreases db.recipe_lines.len() - i,
    {
        let line: RecipeLine = db.recipe_lines[i];
        if line.product_id == product_id {
            if let Some(at) = find_place(&db.recipes, line.recipe_id) {
                if db.recipes[at].effective_to.is_none() {
                    if let Some(listed) = find_place(&db.sale_items, db.recipes[at].sale_item_id) {
                        if db.sale_items[listed].item.active {
                            return Some(db.sale_items[listed].item.name.clone());
                        }
                    }
                }
            }
        }
        i = i + 1;
    }
    None
}

/// Whether an order line sits on a tab that nobody has settled yet.
pub open spec fn sits_on_open_tab(db: Store, line: Line) -> bool {
    match row(db.orders@, line.order_id) {
        None => false,
        Some(order) => match row(db.tabs@, order.tab_id) {
            None => false,
            Some(tab) => tab.status == tabs::Status::Open,
        },
    }
}

/// Whether a drink is sitting on a tab nobody has settled yet.
pub fn on_an_open_tab(db: &Store, sale_item_id: i64) -> (result: bool)
    ensures
        result == exists|i: int|
            0 <= i < db.order_lines@.len() && (#[trigger] db.order_lines@[i]).sale_item_id
                == sale_item_id && sits_on_open_tab(*db, db.order_lines@[i]),
{
    let mut i: usize = 0;
    while i < db.order_lines.len()
        invariant
            i <= db.order_lines.len(),
            forall|k: int|
                0 <= k < i ==> !((#[trigger] db.order_lines@[k]).sale_item_id == sale_item_id
                    && sits_on_open_tab(*db, db.order_lines@[k])),
        decreases db.order_lines.len() - i,
    {
        if db.order_lines[i].sale_item_id == sale_item_id {
            if let Some(order) = find_place(&db.orders, db.order_lines[i].order_id) {
                if let Some(tab) = find_place(&db.tabs, db.orders[order].tab_id) {
                    if db.tabs[tab].status == tabs::Status::Open {
                        assert(sits_on_open_tab(*db, db.order_lines@[i as int]));
                        return true;
                    }
                }
            }
        }
        i = i + 1;
    }
    false
}

/// Every product in the table.
pub open spec fn shelf_list(rows: Seq<ProductRow>) -> Seq<Product> {
    rows.map_values(|r: ProductRow| r.product)
}

/// By category, then by name.
pub open spec fn shelved_before() -> spec_fn(Product, Product) -> bool {
    |a: Product, b: Product|
        text_before(a.category@, b.category@) || (a.category@ == b.category@ && text_before(
            a.name@,
            b.name@,
        ))
}

pub open spec fn on_sale() -> spec_fn(Product) -> bool {
    |p: Product| p.active
}

/// The products on the shelf, in the order they are listed.
pub open spec fn products_on_sale(db: Store) -> Seq<Product> {
    in_order(chosen(shelf_list(db.products@), on_sale()), shelved_before())
}

fn all_products(db: &Store) -> (result: Vec<Product>)
    ensures
        result@ == shelf_list(db.products@),
{
    let mut result: Vec<Product> = Vec::new();
    let mut i: usize = 0;
    while i < db.products.len()
        invariant
            i <= db.products.len(),
            result@ == shelf_list(db.products@.take(i as int)),
        decreases db.products.len() - i,
    {
        result.push(db.products[i].product.clone());
        i = i + 1;
        assert(result@ =~= shelf_list(db.products@.take(i as int)));
    }
    assert(db.products@.take(db.products@.len() as int) =~= db.products@);
    result
}

fn sort_products(products: &Vec<Product>) -> (result: Vec<Product>)
    ensures
        result@ == in_order(products@, shelved_before()),
{
    sort_rows(
        products,
        |a: &Product, b: &Product| -> (r: bool)
            ensures
                r == (text_before(a.category@, b.category@) || (a.category@ == b.category@
                    && text_before(a.name@, b.name@)))
            {
                sorts_before(a.category.as_str(), b.category.as_str()) || (same(
                    a.category.as_str(),
                    b.category.as_str(),
                ) && sorts_before(a.name.as_str(), b.name.as_str()))
            },
        Ghost(shelved_before()),
    )
}

/// Every product on the books, in the order of the shelf.
pub open spec fn whole_shelf(db: Store) -> Seq<Product> {
    in_order(shelf_list(db.products@), shelved_before())
}

/// Everything ever on the shelf, removed items included: something removed
/// has to stay visible, or there is no way to bring it back.
pub fn every_product(db: &Store) -> (result: Vec<Product>)
    ensures
        result@ == whole_shelf(*db),
{
    let all: Vec<Product> = all_products(db);
    sort_products(&all)
}

pub fn products(db: &Store) -> (result: Vec<Product>)
    ensures
        result@ == products_on_sale(*db),
{
    let all: Vec<Product> = all_products(db);
    let kept: Vec<Product> = choose_rows(
        &all,
        |p: &Product| -> (r: bool)
            ensures
                r == (p.active)
            { p.active },
        Ghost(on_sale()),
    );
    sort_products(&kept)
}

pub fn product(db: &Store, id: i64) -> (result: Result<Product, RepoError>)
    ensures
        match row(db.products@, id) {
            Some(found) => result == Ok::<Product, RepoError>(found.product),
            None => result matches Err(error) && error@ == Why::Missing("product"@),
        },
{
    match find_place(&db.products, id) {
        Some(at) => Ok(db.products[at].product.clone()),
        None => Err(RepoError::Missing { what: "product" }),
    }
}

pub open spec fn prices_of(sale_item_id: i64) -> spec_fn(Price) -> bool {
    |p: Price| p.sale_item_id == sale_item_id && p.effective_to is None
}

pub open spec fn recipes_of(sale_item_id: i64) -> spec_fn(Recipe) -> bool {
    |r: Recipe| r.sale_item_id == sale_item_id && r.effective_to is None
}

/// The price in force for a menu item.
pub open spec fn open_price(db: Store, sale_item_id: i64) -> Option<Price> {
    first_chosen(db.prices@, prices_of(sale_item_id))
}

/// The recipe in force for a menu item.
pub open spec fn open_recipe(db: Store, sale_item_id: i64) -> Option<Recipe> {
    first_chosen(db.recipes@, recipes_of(sale_item_id))
}

pub(crate) fn price_in_force(db: &Store, sale_item_id: i64) -> (result: Option<Price>)
    ensures
        result == open_price(*db, sale_item_id),
{
    let found: Vec<Price> = choose_rows(
        &db.prices,
        |p: &Price| -> (b: bool)
            ensures
                b == (p.sale_item_id == sale_item_id && p.effective_to is None)
            { p.sale_item_id == sale_item_id && p.effective_to.is_none() },
        Ghost(prices_of(sale_item_id)),
    );
    if found.len() > 0 {
        Some(found[0])
    } else {
        None
    }
}

pub(crate) fn recipe_in_force(db: &Store, sale_item_id: i64) -> (result: Option<Recipe>)
    ensures
        result == open_recipe(*db, sale_item_id),
{
    let found: Vec<Recipe> = choose_rows(
        &db.recipes,
        |r: &Recipe| -> (b: bool)
            ensures
                b == (r.sale_item_id == sale_item_id && r.effective_to is None)
            { r.sale_item_id == sale_item_id && r.effective_to.is_none() },
        Ghost(recipes_of(sale_item_id)),
    );
    if found.len() > 0 {
        Some(found[0])
    } else {
        None
    }
}

/// What the till can sell of one menu item right now. An item with no open
/// price, or no open recipe, is not sellable.
pub open spec fn menu_line(db: Store, listed: SaleItemRow) -> Option<MenuItem> {
    match (
        listed.item.active,
        open_price(db, listed.item.id),
        open_recipe(db, listed.item.id),
    ) {
        (true, Some(price), Some(recipe)) => Some(
            MenuItem {
                sale_item_id: listed.item.id,
                code: listed.item.code,
                name: listed.item.name,
                category: listed.item.category,
                price: price.price,
                recipe_id: recipe.id,
            },
        ),
        _ => None,
    }
}

fn sellable_line(db: &Store, listed: &SaleItemRow) -> (result: Option<MenuItem>)
    ensures
        result == menu_line(*db, *listed),
{
    if !listed.item.active {
        return None;
    }
    match (price_in_force(db, listed.item.id), recipe_in_force(db, listed.item.id)) {
        (Some(price), Some(recipe)) => Some(
            MenuItem {
                sale_item_id: listed.item.id,
                code: listed.item.code.clone(),
                name: listed.item.name.clone(),
                category: listed.item.category.clone(),
                price: price.price,
                recipe_id: recipe.id,
            },
        ),
        _ => None,
    }
}

/// Everything sellable right now, in the order it was entered.
pub open spec fn sellable(db: Store, rows: Seq<SaleItemRow>) -> Seq<MenuItem>
    decreases rows.len(),
{
    if rows.len() == 0 {
        Seq::empty()
    } else {
        let before = sellable(db, rows.drop_last());
        match menu_line(db, rows.last()) {
            Some(line) => before.push(line),
            None => before,
        }
    }
}

/// By category, then by name.
pub open spec fn offered_before() -> spec_fn(MenuItem, MenuItem) -> bool {
    |a: MenuItem, b: MenuItem|
        text_before(a.category@, b.category@) || (a.category@ == b.category@ && text_before(
            a.name@,
            b.name@,
        ))
}

/// Everything that can be sold right now, in the order it is offered.
pub open spec fn menu_of(db: Store) -> Seq<MenuItem> {
    in_order(sellable(db, db.sale_items@), offered_before())
}

/// Everything sellable right now.
pub fn menu(db: &Store) -> (result: Vec<MenuItem>)
    ensures
        result@ == menu_of(*db),
{
    let mut found: Vec<MenuItem> = Vec::new();
    let mut i: usize = 0;
    while i < db.sale_items.len()
        invariant
            i <= db.sale_items.len(),
            found@ == sellable(*db, db.sale_items@.take(i as int)),
        decreases db.sale_items.len() - i,
    {
        assert(db.sale_items@.take(i + 1).drop_last() =~= db.sale_items@.take(i as int));
        if let Some(line) = sellable_line(db, &db.sale_items[i]) {
            found.push(line);
        }
        i = i + 1;
    }
    assert(db.sale_items@.take(db.sale_items@.len() as int) =~= db.sale_items@);
    sort_rows(
        &found,
        |a: &MenuItem, b: &MenuItem| -> (r: bool)
            ensures
                r == (text_before(a.category@, b.category@) || (a.category@ == b.category@
                    && text_before(a.name@, b.name@)))
            {
                sorts_before(a.category.as_str(), b.category.as_str()) || (same(
                    a.category.as_str(),
                    b.category.as_str(),
                ) && sorts_before(a.name.as_str(), b.name.as_str()))
            },
        Ghost(offered_before()),
    )
}

/// What the till can sell of that menu item right now.
pub open spec fn on_menu(db: Store, sale_item_id: i64) -> Option<MenuItem> {
    match row(db.sale_items@, sale_item_id) {
        Some(listed) => menu_line(db, listed),
        None => None,
    }
}

pub fn menu_item(db: &Store, sale_item_id: i64) -> (result: Result<MenuItem, RepoError>)
    ensures
        match on_menu(*db, sale_item_id) {
            Some(line) => result == Ok::<MenuItem, RepoError>(line),
            None => result matches Err(error) && error@ == Why::Missing("menu item"@),
        },
{
    if let Some(at) = find_place(&db.sale_items, sale_item_id) {
        if let Some(line) = sellable_line(db, &db.sale_items[at]) {
            return Ok(line);
        }
    }
    Err(RepoError::Missing { what: "menu item" })
}

// ---------------------------------------------------------------------------
// Expansion
// ---------------------------------------------------------------------------

/// Whether a line belongs to a recipe and names a product that there is.
pub open spec fn pours(db: Store, line: RecipeLine, recipe_id: i64) -> bool {
    line.recipe_id == recipe_id && row(db.products@, line.product_id) is Some
}

/// Whether a line takes something off the shelf that somebody counts.
pub open spec fn draws(db: Store, line: RecipeLine, recipe_id: i64) -> bool {
    pours(db, line, recipe_id) && row(db.products@, line.product_id)->0.product.tracks_inventory
}

/// What a quantity of a recipe consumes, product by product, in millionths of
/// a counted unit; nothing, where an amount leaves 128 bits on the way. The
/// same product on two lines is added up.
pub open spec fn consumption(
    db: Store,
    lines: Seq<RecipeLine>,
    recipe_id: i64,
    quantity: int,
) -> Option<Seq<(i64, int)>>
    decreases lines.len(),
{
    if lines.len() == 0 {
        Some(Seq::empty())
    } else {
        match consumption(db, lines.drop_last(), recipe_id, quantity) {
            None => None,
            Some(so_far) => {
                let line = lines.last();
                let scaled = quantity * line.quantity.thousandths;
                if !draws(db, line, recipe_id) {
                    Some(so_far)
                } else if !fits_wide(amount_of(so_far, line.product_id) + scaled) {
                    None
                } else {
                    Some(added(so_far, line.product_id, scaled))
                }
            },
        }
    }
}

/// Whether a recipe has a line at all.
pub open spec fn has_line(db: Store, recipe_id: i64) -> bool {
    exists|i: int| 0 <= i < db.recipe_lines@.len() && pours(
        db,
        #[trigger] db.recipe_lines@[i],
        recipe_id,
    )
}

/// Millionths rounded to thousandths, once, after everything is added up.
pub open spec fn rounded_pour(millionths: int) -> int {
    cut(millionths + 500, 1_000)
}

/// A tally of millionths, each rounded to thousandths.
pub open spec fn rounded_pours(totals: Seq<(i64, int)>) -> Seq<(i64, int)> {
    totals.map_values(|e: (i64, int)| (e.0, rounded_pour(e.1)))
}

/// What a quantity of a recipe takes off the shelf, product by product, in
/// thousandths, or why it cannot be poured.
pub open spec fn expansion(db: Store, recipe_id: i64, quantity: Milli) -> Result<
    Seq<(i64, int)>,
    Why,
> {
    if quantity.thousandths <= 0 {
        Err(Why::Refused("nothing can be poured for a quantity of nothing"@))
    } else {
        match consumption(db, db.recipe_lines@, recipe_id, quantity.thousandths as int) {
            None => Err(Why::Refused("that quantity is too large to pour"@)),
            Some(totals) => if !has_line(db, recipe_id) {
                Err(
                    Why::Refused(
                        "that item has no recipe, so nothing could be taken off the shelf"@,
                    ),
                )
            } else if exists|i: int|
                0 <= i < totals.len() && !fits(rounded_pour((#[trigger] totals[i]).1)) {
                Err(Why::Refused("that quantity is too large to pour"@))
            } else {
                Ok(rounded_pours(totals))
            },
        }
    }
}

/// Whether a list of products consumed is that tally, by name.
pub open spec fn consumed_as(db: Store, list: Seq<Consumed>, tally: Seq<(i64, int)>) -> bool {
    &&& list.len() == tally.len()
    &&& forall|i: int|
        0 <= i < tally.len() ==> {
            &&& (#[trigger] list[i]).product_id == tally[i].0
            &&& list[i].quantity.thousandths == tally[i].1
            &&& list[i].tracks_inventory
            &&& row(db.products@, tally[i].0) matches Some(found) && list[i].name
                == found.product.name
        }
}

/// The products in a tally of consumption are products that there are.
pub open spec fn all_known(db: Store, totals: Seq<(i64, int)>) -> bool {
    forall|i: int|
        0 <= i < totals.len() ==> row(db.products@, (#[trigger] totals[i]).0) is Some
}

proof fn consumption_is_known(db: Store, lines: Seq<RecipeLine>, recipe_id: i64, quantity: int)
    ensures
        consumption(db, lines, recipe_id, quantity) matches Some(totals) ==> ascending(totals)
            && all_known(db, totals),
    decreases lines.len(),
{
    if lines.len() > 0 && consumption(db, lines, recipe_id, quantity) is Some {
        consumption_is_known(db, lines.drop_last(), recipe_id, quantity);
        let so_far = consumption(db, lines.drop_last(), recipe_id, quantity)->0;
        let line = lines.last();
        let scaled = quantity * line.quantity.thousandths;
        if draws(db, line, recipe_id) {
            let after = added(so_far, line.product_id, scaled);
            adding_adds(so_far, line.product_id, scaled, line.product_id);
            assert forall|i: int| 0 <= i < after.len() implies row(
                db.products@,
                (#[trigger] after[i]).0,
            ) is Some by {
                adding_adds(so_far, line.product_id, scaled, after[i].0);
                assert(lists(after, after[i].0));
                if after[i].0 != line.product_id {
                    let k = choose|k: int|
                        0 <= k < so_far.len() && (#[trigger] so_far[k]).0 == after[i].0;
                    assert(row(db.products@, so_far[k].0) is Some);
                }
            }
        }
    }
}

proof fn consumption_fails_onward(
    db: Store,
    lines: Seq<RecipeLine>,
    recipe_id: i64,
    quantity: int,
    n: int,
)
    requires
        0 <= n <= lines.len(),
        consumption(db, lines.take(n), recipe_id, quantity) is None,
    ensures
        consumption(db, lines, recipe_id, quantity) is None,
    decreases lines.len() - n,
{
    if n == lines.len() {
        assert(lines.take(n) =~= lines);
    } else {
        assert(lines.take(n + 1).drop_last() =~= lines.take(n));
        consumption_fails_onward(db, lines, recipe_id, quantity, n + 1);
    }
}

/// Expand a quantity of one menu item into the products it consumes.
///
/// The recipe is taken by its identity, never looked up from the sale item, so
/// a historical order expands through the recipe that was actually poured
/// against. Repeated products are added up, not overwritten, and rounded once
/// at the end.
pub fn expand(db: &Store, recipe_id: i64, quantity: Milli) -> (result: Result<
    Vec<Consumed>,
    RepoError,
>)
    ensures
        match expansion(*db, recipe_id, quantity) {
            Ok(tally) => result matches Ok(list) && consumed_as(*db, list@, tally),
            Err(why) => result matches Err(error) && error@ == why,
        },
{
    if quantity.is_negative() || quantity.is_zero() {
        return refuse("nothing can be poured for a quantity of nothing");
    }
    let mut totals: Vec<Tallied> = Vec::new();
    let mut saw_line: bool = false;
    let mut i: usize = 0;
    assert(db.recipe_lines@.take(0) =~= Seq::<RecipeLine>::empty());
    assert(figures(totals@) =~= Seq::<(i64, int)>::empty());
    while i < db.recipe_lines.len()
        invariant
            i <= db.recipe_lines.len(),
            quantity.thousandths > 0,
            consumption(
                *db,
                db.recipe_lines@.take(i as int),
                recipe_id,
                quantity.thousandths as int,
            ) == Some(figures(totals@)),
            saw_line == exists|k: int|
                0 <= k < i && pours(*db, #[trigger] db.recipe_lines@[k], recipe_id),
        decreases db.recipe_lines.len() - i,
    {
        let line: RecipeLine = db.recipe_lines[i];
        proof {
            assert(db.recipe_lines@.take(i + 1).drop_last() =~= db.recipe_lines@.take(i as int));
            assert(db.recipe_lines@.take(i + 1).last() == line);
            consumption_is_known(
                *db,
                db.recipe_lines@.take(i as int),
                recipe_id,
                quantity.thousandths as int,
            );
        }
        if line.recipe_id == recipe_id {
            if let Some(at) = find_place(&db.products, line.product_id) {
                assert(pours(*db, db.recipe_lines@[i as int], recipe_id));
                saw_line = true;
                if db.products[at].product.tracks_inventory {
                    let a: i128 = quantity.thousandths as i128;
                    let b: i128 = line.quantity.thousandths as i128;
                    assert(-0x4000_0000_0000_0000_0000_0000_0000_0000 <= a * b
                        <= 0x4000_0000_0000_0000_0000_0000_0000_0000) by (nonlinear_arith)
                        requires
                            i64::MIN <= a <= i64::MAX,
                            i64::MIN <= b <= i64::MAX,
                    ;
                    if !tally(&mut totals, line.product_id, a * b) {
                        proof {
                            consumption_fails_onward(
                                *db,
                                db.recipe_lines@,
                                recipe_id,
                                quantity.thousandths as int,
                                i + 1,
                            );
                        }
                        return refuse("that quantity is too large to pour");
                    }
                }
            }
        }
        i = i + 1;
    }
    let ghost all = figures(totals@);
    proof {
        assert(db.recipe_lines@.take(db.recipe_lines@.len() as int) =~= db.recipe_lines@);
        consumption_is_known(*db, db.recipe_lines@, recipe_id, quantity.thousandths as int);
    }
    if !saw_line {
        // A recipe with no lines would sell a drink that consumes nothing:
        // free stock forever, and invisible on every variance report.
        return refuse("that item has no recipe, so nothing could be taken off the shelf");
    }
    let mut result: Vec<Consumed> = Vec::new();
    let mut j: usize = 0;
    while j < totals.len()
        invariant
            j <= totals.len(),
            all == figures(totals@),
            all_known(*db, all),
            consumed_as(*db, result@, rounded_pours(all.take(j as int))),
            forall|k: int| 0 <= k < j ==> fits(rounded_pour((#[trigger] all[k]).1)),
            expansion(*db, recipe_id, quantity) == (if exists|k: int|
                0 <= k < all.len() && !fits(rounded_pour((#[trigger] all[k]).1)) {
                Err::<Seq<(i64, int)>, Why>(Why::Refused("that quantity is too large to pour"@))
            } else {
                Ok(rounded_pours(all))
            }),
        decreases totals.len() - j,
    {
        let entry: Tallied = totals[j];
        assert(all[j as int] == (entry.product_id, entry.amount as int));
        assert(row(db.products@, all[j as int].0) is Some);
        let rounded: Option<i64> = if entry.amount > 170_141_183_460_469_231_731_687_303_715_884_105_000
            || entry.amount < -170_141_183_460_469_231_731_687_303_715_884_105_000 {
            None
        } else {
            narrow(divide_cut(entry.amount + 500, 1_000))
        };
        match rounded {
            None => {
                assert(!fits(rounded_pour(all[j as int].1)));
                return refuse("that quantity is too large to pour");
            },
            Some(thousandths) => {
                match find_place(&db.products, entry.product_id) {
                    Some(at) => {
                        result.push(
                            Consumed {
                                product_id: entry.product_id,
                                name: db.products[at].product.name.clone(),
                                quantity: Milli { thousandths },
                                tracks_inventory: true,
                            },
                        );
                    },
                    None => {},
                }
            },
        }
        proof {
            let before = rounded_pours(all.take(j as int));
            let after = rounded_pours(all.take(j + 1));
            assert(after =~= before.push((all[j as int].0, rounded_pour(all[j as int].1))));
        }
        j = j + 1;
    }
    assert(all.take(all.len() as int) =~= all);
    Ok(result)
}

// ---------------------------------------------------------------------------
// New versions
// ---------------------------------------------------------------------------

/// The recipes after every one in force for a menu item was closed.
pub open spec fn recipes_closed(rows: Seq<Recipe>, sale_item_id: i64, at: i64) -> Seq<Recipe> {
    rows.map_values(
        |r: Recipe|
            if r.sale_item_id == sale_item_id && r.effective_to is None {
                Recipe { effective_to: Some(at), ..r }
            } else {
                r
            },
    )
}

/// The version that the next recipe of a menu item gets.
pub open spec fn next_version(db: Store, sale_item_id: i64) -> int {
    match open_recipe(db, sale_item_id) {
        Some(recipe) => recipe.version + 1,
        None => 1,
    }
}

/// The lines of a new recipe.
pub open spec fn recipe_lines_of(recipe_id: i64, lines: Seq<(i64, Milli)>) -> Seq<RecipeLine> {
    lines.map_values(
        |l: (i64, Milli)| RecipeLine { recipe_id, product_id: l.0, quantity: l.1 },
    )
}

/// Why a recipe cannot be revised; nothing, where it can.
pub open spec fn revise_refusal(
    db: Store,
    sale_item_id: i64,
    lines: Seq<(i64, Milli)>,
) -> Option<Why> {
    if lines.len() == 0 {
        Some(Why::Refused("a recipe needs at least one product"@))
    } else if !fits(next_version(db, sale_item_id)) {
        Some(Why::Refused("that recipe has too many versions"@))
    } else if fresh_id(db.recipes@) is None {
        Some(Why::Sqlite(SqlWhy::Full))
    } else {
        None
    }
}

fn close_recipes(rows: &mut Vec<Recipe>, sale_item_id: i64, at: i64)
    ensures
        final(rows)@ == recipes_closed(old(rows)@, sale_item_id, at),
{
    let ghost before = rows@;
    let mut i: usize = 0;
    while i < rows.len()
        invariant
            i <= rows.len(),
            rows.len() == before.len(),
            forall|k: int|
                0 <= k < i ==> #[trigger] rows@[k] == recipes_closed(before, sale_item_id, at)[k],
            forall|k: int| i <= k < before.len() ==> #[trigger] rows@[k] == before[k],
        decreases rows.len() - i,
    {
        let recipe: Recipe = rows[i];
        if recipe.sale_item_id == sale_item_id && recipe.effective_to.is_none() {
            rows.set(i, Recipe { effective_to: Some(at), ..recipe });
        }
        i = i + 1;
    }
    assert(rows@ =~= recipes_closed(before, sale_item_id, at));
}

/// Whether a store is another with a new recipe in force.
pub open spec fn recipe_revised(
    before: Store,
    after: Store,
    sale_item_id: i64,
    lines: Seq<(i64, Milli)>,
    at: i64,
    by: i64,
    id: i64,
) -> bool {
    &&& fresh_id(before.recipes@) == Some(id)
    &&& after.recipes@ == recipes_closed(
        before.recipes@,
        sale_item_id,
        at,
    ).push(
        Recipe {
            id,
            sale_item_id,
            version: next_version(before, sale_item_id) as i64,
            effective_from: at,
            effective_to: None,
            created_by: Some(by),
        },
    )
    &&& after.recipe_lines@ == before.recipe_lines@ + recipe_lines_of(id, lines)
    &&& after == (Store {
        recipes: after.recipes,
        recipe_lines: after.recipe_lines,
        ..before
    })
}

/// Close the open recipe and open the next version. Never an edit: an edit
/// would change what last week's orders expanded to.
pub fn revise_recipe(
    db: &mut Store,
    sale_item_id: i64,
    lines: &[(i64, Milli)],
    at: i64,
    by: i64,
) -> (result: Result<i64, RepoError>)
    ensures
        ledgers_kept(*old(db), *final(db)),
        match result {
            Ok(id) => {
                &&& revise_refusal(*old(db), sale_item_id, lines@) is None
                &&& recipe_revised(*old(db), *final(db), sale_item_id, lines@, at, by, id)
            },
            Err(error) => {
                &&& *final(db) == *old(db)
                &&& revise_refusal(*old(db), sale_item_id, lines@) == Some(error@)
            },
        },
{
    if lines.len() == 0 {
        return refuse("a recipe needs at least one product");
    }
    let version: i64 = match recipe_in_force(db, sale_item_id) {
        Some(recipe) => match recipe.version.checked_add(1) {
            Some(version) => version,
            None => {
                return refuse("that recipe has too many versions");
            },
        },
        None => 1,
    };
    let id: i64 = match next_id(&db.recipes) {
        Some(id) => id,
        None => {
            return Err(RepoError::Sqlite(SqlError::Full));
        },
    };
    close_recipes(&mut db.recipes, sale_item_id, at);
    db.recipes.push(
        Recipe {
            id,
            sale_item_id,
            version,
            effective_from: at,
            effective_to: None,
            created_by: Some(by),
        },
    );
    let ghost before = db.recipe_lines@;
    let ghost recipes = db.recipes;
    let mut i: usize = 0;
    assert(before + recipe_lines_of(id, lines@.take(0)) =~= before);
    while i < lines.len()
        invariant
            i <= lines.len(),
            db.recipe_lines@ == before + recipe_lines_of(id, lines@.take(i as int)),
            *db == (Store { recipes, recipe_lines: db.recipe_lines, ..*old(db) }),
        decreases lines.len() - i,
    {
        let (product_id, quantity): (i64, Milli) = lines[i];
        db.recipe_lines.push(RecipeLine { recipe_id: id, product_id, quantity });
        i = i + 1;
        assert(db.recipe_lines@ =~= before + recipe_lines_of(id, lines@.take(i as int)));
    }
    assert(lines@.take(lines@.len() as int) =~= lines@);
    Ok(id)
}

/// Whether no menu item has two recipes in force.
pub open spec fn one_recipe_in_force(rows: Seq<Recipe>) -> bool {
    forall|i: int, j: int|
        0 <= i < j < rows.len() && (#[trigger] rows[i]).effective_to is None && (
        #[trigger] rows[j]).effective_to is None ==> rows[i].sale_item_id != rows[j].sale_item_id
}

/// A revision leaves one recipe in force for the menu item, the new one, and
/// never two for any.
pub proof fn a_revision_leaves_one_recipe_in_force(
    rows: Seq<Recipe>,
    new: Recipe,
    sale_item_id: i64,
    at: i64,
)
    requires
        one_recipe_in_force(rows),
        new.sale_item_id == sale_item_id,
    ensures
        one_recipe_in_force(recipes_closed(rows, sale_item_id, at).push(new)),
{
    let closed = recipes_closed(rows, sale_item_id, at);
    let after = closed.push(new);
    assert forall|i: int, j: int|
        0 <= i < j < after.len() && (#[trigger] after[i]).effective_to is None && (
        #[trigger] after[j]).effective_to is None implies after[i].sale_item_id
        != after[j].sale_item_id by {
        assert(after[i] == closed[i]);
        assert(rows[i].effective_to is None);
        if j < rows.len() {
            assert(after[j] == closed[j]);
            assert(rows[j].effective_to is None);
        }
    }
}

/// After a revision the new recipe is the one in force.
pub proof fn a_new_recipe_is_the_recipe(rows: Seq<Recipe>, new: Recipe, sale_item_id: i64, at: i64)
    requires
        new.sale_item_id == sale_item_id,
        new.effective_to is None,
    ensures
        first_chosen(
            recipes_closed(rows, sale_item_id, at).push(new),
            recipes_of(sale_item_id),
        ) == Some(new),
{
    let closed = recipes_closed(rows, sale_item_id, at);
    no_recipe_left_open(rows, sale_item_id, at);
    assert(closed.push(new).drop_last() =~= closed);
}

proof fn no_recipe_left_open(rows: Seq<Recipe>, sale_item_id: i64, at: i64)
    ensures
        chosen(recipes_closed(rows, sale_item_id, at), recipes_of(sale_item_id)).len() == 0,
    decreases rows.len(),
{
    if rows.len() > 0 {
        no_recipe_left_open(rows.drop_last(), sale_item_id, at);
        assert(recipes_closed(rows, sale_item_id, at).drop_last() =~= recipes_closed(
            rows.drop_last(),
            sale_item_id,
            at,
        ));
    }
}

/// A recipe written before a revision pours exactly what it poured: last
/// week's order still expands to last week's drink.
pub proof fn a_revision_leaves_old_recipes_alone(
    before: Store,
    after: Store,
    new_id: i64,
    lines: Seq<(i64, Milli)>,
    recipe_id: i64,
    quantity: Milli,
)
    requires
        after.recipe_lines@ == before.recipe_lines@ + recipe_lines_of(new_id, lines),
        after.products == before.products,
        recipe_id != new_id,
    ensures
        expansion(after, recipe_id, quantity) == expansion(before, recipe_id, quantity),
{
    let q = quantity.thousandths as int;
    let old_lines = before.recipe_lines@;
    let extra = recipe_lines_of(new_id, lines);
    foreign_lines_pour_nothing(before, after, old_lines, extra, recipe_id, q);
    same_products_same_consumption(before, after, old_lines, recipe_id, q);
    if has_line(before, recipe_id) {
        let i = choose|i: int|
            0 <= i < old_lines.len() && pours(before, #[trigger] old_lines[i], recipe_id);
        assert(after.recipe_lines@[i] == old_lines[i]);
        assert(pours(after, after.recipe_lines@[i], recipe_id));
    }
    if has_line(after, recipe_id) {
        let i = choose|i: int|
            0 <= i < after.recipe_lines@.len() && pours(
                after,
                #[trigger] after.recipe_lines@[i],
                recipe_id,
            );
        if i >= old_lines.len() {
            assert(after.recipe_lines@[i] == extra[i - old_lines.len()]);
        }
        assert(after.recipe_lines@[i] == old_lines[i]);
        assert(pours(before, old_lines[i], recipe_id));
    }
}

proof fn same_products_same_consumption(
    before: Store,
    after: Store,
    lines: Seq<RecipeLine>,
    recipe_id: i64,
    quantity: int,
)
    requires
        after.products == before.products,
    ensures
        consumption(after, lines, recipe_id, quantity) == consumption(
            before,
            lines,
            recipe_id,
            quantity,
        ),
    decreases lines.len(),
{
    if lines.len() > 0 {
        same_products_same_consumption(before, after, lines.drop_last(), recipe_id, quantity);
    }
}

/// A recipe takes the same off the shelf for as long as recipes and products
/// stay as they are.
pub proof fn same_recipes_same_expansion(
    before: Store,
    after: Store,
    recipe_id: i64,
    quantity: Milli,
)
    requires
        after.products == before.products,
        after.recipe_lines == before.recipe_lines,
    ensures
        expansion(after, recipe_id, quantity) == expansion(before, recipe_id, quantity),
{
    same_products_same_consumption(
        before,
        after,
        before.recipe_lines@,
        recipe_id,
        quantity.thousandths as int,
    );
    assert(has_line(after, recipe_id) == has_line(before, recipe_id)) by {
        if has_line(before, recipe_id) {
            let i = choose|i: int|
                0 <= i < before.recipe_lines@.len() && pours(
                    before,
                    #[trigger] before.recipe_lines@[i],
                    recipe_id,
                );
            assert(pours(after, after.recipe_lines@[i], recipe_id));
        }
        if has_line(after, recipe_id) {
            let i = choose|i: int|
                0 <= i < after.recipe_lines@.len() && pours(
                    after,
                    #[trigger] after.recipe_lines@[i],
                    recipe_id,
                );
            assert(pours(before, before.recipe_lines@[i], recipe_id));
        }
    }
}

proof fn foreign_lines_pour_nothing(
    before: Store,
    after: Store,
    lines: Seq<RecipeLine>,
    extra: Seq<RecipeLine>,
    recipe_id: i64,
    quantity: int,
)
    requires
        forall|i: int| 0 <= i < extra.len() ==> (#[trigger] extra[i]).recipe_id != recipe_id,
    ensures
        consumption(after, lines + extra, recipe_id, quantity) == consumption(
            after,
            lines,
            recipe_id,
            quantity,
        ),
    decreases extra.len(),
{
    if extra.len() == 0 {
        assert(lines + extra =~= lines);
    } else {
        let rest = extra.drop_last();
        assert(forall|i: int| 0 <= i < rest.len() ==> #[trigger] rest[i] == extra[i]);
        foreign_lines_pour_nothing(before, after, lines, rest, recipe_id, quantity);
        assert((lines + extra).drop_last() =~= lines + rest);
        assert((lines + extra).last() == extra[extra.len() - 1]);
    }
}

/// The prices after every one in force for a menu item was closed.
pub open spec fn prices_closed(rows: Seq<Price>, sale_item_id: i64, at: i64) -> Seq<Price> {
    rows.map_values(
        |p: Price|
            if p.sale_item_id == sale_item_id && p.effective_to is None {
                Price { effective_to: Some(at), ..p }
            } else {
                p
            },
    )
}

fn close_prices(rows: &mut Vec<Price>, sale_item_id: i64, at: i64)
    ensures
        final(rows)@ == prices_closed(old(rows)@, sale_item_id, at),
{
    let ghost before = rows@;
    let mut i: usize = 0;
    while i < rows.len()
        invariant
            i <= rows.len(),
            rows.len() == before.len(),
            forall|k: int|
                0 <= k < i ==> #[trigger] rows@[k] == prices_closed(before, sale_item_id, at)[k],
            forall|k: int| i <= k < before.len() ==> #[trigger] rows@[k] == before[k],
        decreases rows.len() - i,
    {
        let price: Price = rows[i];
        if price.sale_item_id == sale_item_id && price.effective_to.is_none() {
            rows.set(i, Price { effective_to: Some(at), ..price });
        }
        i = i + 1;
    }
    assert(rows@ =~= prices_closed(before, sale_item_id, at));
}

/// Whether a store is another with a new price in force.
pub open spec fn price_set(
    before: Store,
    after: Store,
    sale_item_id: i64,
    price: Money,
    at: i64,
    by: i64,
    id: i64,
) -> bool {
    &&& after.prices@ == prices_closed(before.prices@, sale_item_id, at).push(
        Price {
            id,
            sale_item_id,
            price,
            effective_from: at,
            effective_to: None,
            created_by: Some(by),
        },
    )
    &&& after == (Store { prices: after.prices, ..before })
}

/// Close the open price and open a new one. Tonight's price change cannot
/// restate what a customer was charged last night.
pub fn reprice(db: &mut Store, sale_item_id: i64, price: Money, at: i64, by: i64) -> (result:
    Result<(), RepoError>)
    ensures
        ledgers_kept(*old(db), *final(db)),
        match fresh_id(old(db).prices@) {
            Some(id) => {
                &&& result is Ok
                &&& price_set(*old(db), *final(db), sale_item_id, price, at, by, id)
            },
            None => {
                &&& result matches Err(error) && error@ == Why::Sqlite(SqlWhy::Full)
                &&& *final(db) == *old(db)
            },
        },
{
    let id: i64 = match next_id(&db.prices) {
        Some(id) => id,
        None => {
            return Err(RepoError::Sqlite(SqlError::Full));
        },
    };
    close_prices(&mut db.prices, sale_item_id, at);
    db.prices.push(
        Price {
            id,
            sale_item_id,
            price,
            effective_from: at,
            effective_to: None,
            created_by: Some(by),
        },
    );
    Ok(())
}

/// After a new price the menu item costs that, and the prices that went before
/// say what they said.
pub proof fn a_new_price_is_the_price(rows: Seq<Price>, new: Price, sale_item_id: i64, at: i64)
    requires
        new.sale_item_id == sale_item_id,
        new.effective_to is None,
    ensures
        first_chosen(
            prices_closed(rows, sale_item_id, at).push(new),
            prices_of(sale_item_id),
        ) == Some(new),
        forall|i: int|
            0 <= i < rows.len() ==> (#[trigger] prices_closed(rows, sale_item_id, at)[i]).price
                == rows[i].price,
{
    let closed = prices_closed(rows, sale_item_id, at);
    no_price_left_open(rows, sale_item_id, at);
    assert(closed.push(new).drop_last() =~= closed);
}

proof fn no_price_left_open(rows: Seq<Price>, sale_item_id: i64, at: i64)
    ensures
        chosen(prices_closed(rows, sale_item_id, at), prices_of(sale_item_id)).len() == 0,
    decreases rows.len(),
{
    if rows.len() > 0 {
        no_price_left_open(rows.drop_last(), sale_item_id, at);
        assert(prices_closed(rows, sale_item_id, at).drop_last() =~= prices_closed(
            rows.drop_last(),
            sale_item_id,
            at,
        ));
    }
}

} // verus!

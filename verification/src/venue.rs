//! What the venue is made of: the owner's side of the counter.
//!
//! Staff, products, the menu, recipes and prices. Every rule and every audit
//! entry belongs to [`commissioning`](crate::commissioning); this module is the
//! window onto it.
//!
//! A till cannot sell anything until this screen has been used at least once:
//! a fresh venue has no waiters and an empty catalogue.

use vstd::prelude::*;

use crate::commands::{
    owner_refusal, require_owner, require_session, session_refusal, CommandError, CommandWhy,
};
use crate::commissioning::{
    self, create_product_refusal, create_sale_item_refusal, create_staff_refusal, price_changed,
    product_active_refusal, product_created, product_switched, product_updated, put_on_menu,
    recipe_replaced, reprice_refusal, revise_recipe_refusal, sale_item_active_refusal,
    sale_item_created, sale_item_switched, sale_item_updated, sell_by_measure_refusal,
    sell_product_refusal, sold_by_measure, sold_whole, staff_active_refusal, staff_created,
    staff_switched, units_poured, update_product_refusal, update_sale_item_refusal, BaseUnit,
    Change, Destination, Measure, NewProduct, NewSaleItem, NewStaff, ProductUpdate, RecipeLine,
    SaleItemUpdate,
};
use crate::money::{fits, milli_text, money_text, typed_amount, Milli, Money, MoneyError};
use crate::repo::catalogue::{
    self, consumed_as, expansion, measured, open_price, open_recipe, shelf_list, shelved_before,
    twin, Consumed, Product, Recipe, SaleItemRow,
};
use crate::repo::staff::{self, people, Person, Role, StaffRow};
use crate::repo::stock::{self, shelf};
use crate::repo::{RepoError, SqlWhy, Why};
use crate::settings::{settings_map, shown, Settings};
use crate::state::Session;
use crate::store::{ledgers_kept, Store};
use crate::table::{any, any_row, find_place, fresh_id, in_order, row, sort_rows};
use crate::text::{join2, join3, same, sorts_before, text_before, trimmed};

verus! {

// ---------------------------------------------------------------------------
// What the screen receives
// ---------------------------------------------------------------------------

#[derive(Debug, Clone, PartialEq, Eq)]
pub struct StaffLine {
    pub id: i64,
    pub code: String,
    pub name: String,
    pub role: String,
    pub active: bool,
}

#[derive(Debug, Clone, PartialEq, Eq)]
pub struct ProductLine {
    pub id: i64,
    /// The menu entry that sells this one for one, when there is one.
    pub sale_item_id: Option<i64>,
    /// What it sells for, already formatted. `None` when it is stock only.
    pub price: Option<String>,
    /// The same amount in the form that [`Money::parse`] reads back, for an
    /// edit box.
    pub price_value: Option<String>,
    /// `NONE`, `ML` or `GRAM`.
    pub content_measure: String,
    /// How much one counted unit holds, formatted: `"750"`. Empty when none.
    pub content_per_unit: String,
    pub code: String,
    pub name: String,
    pub category: String,
    pub base_unit: String,
    pub base_units_per_pack: String,
    pub units_per_purchase_pack: i64,
    pub low_stock_threshold: String,
    pub tracks_inventory: bool,
    pub destination: String,
    pub active: bool,
    pub on_hand: String,
}

#[derive(Debug, Clone, PartialEq, Eq)]
pub struct RecipeLineView {
    pub product_id: i64,
    pub name: String,
    pub quantity_milli: i64,
    pub quantity: String,
    /// `NONE`, `ML` or `GRAM`.
    pub measure: String,
    /// The same amount read back in that measure, `"30"` for 30ml, so that the
    /// screen shows what was typed. Empty when the product has no measure.
    pub measure_quantity: String,
}

#[derive(Debug, Clone, PartialEq, Eq)]
pub struct SaleItemLine {
    pub id: i64,
    /// Set when this entry is one shelf item sold one for one.
    pub from_product_id: Option<i64>,
    pub code: String,
    pub name: String,
    pub category: String,
    pub active: bool,
    /// `None` until somebody prices it.
    pub price: Option<String>,
    /// The same amount unformatted, for an edit box. See [`ProductLine`].
    pub price_value: Option<String>,
    pub recipe: Vec<RecipeLineView>,
    /// Active, priced and with a recipe: the three things the till needs.
    pub sellable: bool,
}

#[derive(Debug, Clone, PartialEq, Eq)]
pub struct SetupView {
    pub staff: Vec<StaffLine>,
    pub products: Vec<ProductLine>,
    pub sale_items: Vec<SaleItemLine>,
    /// True once the till could actually serve somebody: at least one waiter
    /// to hold a tab and at least one thing that can be sold.
    pub can_trade: bool,
    /// What is missing, in the order it needs doing. Empty once ready.
    pub missing: Vec<String>,
}

// ---------------------------------------------------------------------------
// The people
// ---------------------------------------------------------------------------

/// Owners first, then cashiers, then everybody else.
pub open spec fn standing(role: Role) -> int {
    match role {
        Role::Owner => 0,
        Role::Cashier => 1,
        _ => 2,
    }
}

fn standing_of(role: Role) -> (result: u8)
    ensures
        result == standing(role),
{
    match role {
        Role::Owner => 0,
        Role::Cashier => 1,
        _ => 2,
    }
}

/// By standing, then by name.
pub open spec fn shown_before() -> spec_fn(Person, Person) -> bool {
    |a: Person, b: Person|
        standing(a.role) < standing(b.role) || (standing(a.role) == standing(b.role)
            && text_before(a.name@, b.name@))
}

/// Everybody, on the books or not, in the order the screen has them.
pub open spec fn staff_shown(db: Store) -> Seq<Person> {
    in_order(people(db.staff@), shown_before())
}

/// Whether a line is that person's.
pub open spec fn staff_says(line: StaffLine, person: Person) -> bool {
    &&& line.id == person.id
    &&& line.code == person.code
    &&& line.name == person.name
    &&& line.role@ == person.role.word()
    &&& line.active == person.active
}

fn staff_lines(db: &Store) -> (result: Vec<StaffLine>)
    ensures
        result@.len() == staff_shown(*db).len(),
        forall|i: int|
            0 <= i < result@.len() ==> staff_says(#[trigger] result@[i], staff_shown(*db)[i]),
{
    let everyone: Vec<Person> = staff::everyone(db);
    let sorted: Vec<Person> = sort_rows(
        &everyone,
        |a: &Person, b: &Person| -> (r: bool)
            ensures
                r == (standing(a.role) < standing(b.role) || (standing(a.role) == standing(b.role)
                    && text_before(a.name@, b.name@)))
            {
                let left: u8 = standing_of(a.role);
                let right: u8 = standing_of(b.role);
                left < right || (left == right && sorts_before(a.name.as_str(), b.name.as_str()))
            },
        Ghost(shown_before()),
    );
    let mut result: Vec<StaffLine> = Vec::new();
    let mut i: usize = 0;
    while i < sorted.len()
        invariant
            i <= sorted.len(),
            result@.len() == i,
            forall|k: int| 0 <= k < i ==> staff_says(#[trigger] result@[k], sorted@[k]),
        decreases sorted.len() - i,
    {
        let line: StaffLine = StaffLine {
            id: sorted[i].id,
            code: sorted[i].code.clone(),
            name: sorted[i].name.clone(),
            role: sorted[i].role.as_str().to_owned(),
            active: sorted[i].active,
        };
        result.push(line);
        i = i + 1;
    }
    result
}

// ---------------------------------------------------------------------------
// The shelf
// ---------------------------------------------------------------------------

/// Everything ever on the shelf, in the order the screen has it.
pub open spec fn shelf_shown(db: Store) -> Seq<Product> {
    in_order(shelf_list(db.products@), shelved_before())
}

/// The price in force of a menu entry, if it has one.
pub open spec fn price_of(db: Store, sale_item_id: Option<i64>) -> Option<Money> {
    match sale_item_id {
        None => None,
        Some(id) => match open_price(db, id) {
            Some(found) => Some(found.price),
            None => None,
        },
    }
}

/// Whether a price is shown, formatted and for an edit box, as it stands.
pub open spec fn priced(
    price: Option<String>,
    value: Option<String>,
    db: Store,
    amount: Option<Money>,
) -> bool {
    match amount {
        None => price is None && value is None,
        Some(amount) => {
            &&& price matches Some(text) && text@ == shown(db, amount.minor as int)
            &&& value matches Some(text) && text@ == money_text(amount.minor as int)
        },
    }
}

/// How much one counted unit holds, in words.
pub open spec fn holds_text(product: Product) -> Seq<char> {
    if product.content_measure@ == "NONE"@ {
        Seq::empty()
    } else {
        milli_text(product.content_per_unit.thousandths as int)
    }
}

/// Whether a line is that product's.
pub open spec fn product_line_says(line: ProductLine, db: Store, product: Product) -> bool {
    &&& line.id == product.id
    &&& line.sale_item_id == twin(db, product.id)
    &&& priced(line.price, line.price_value, db, price_of(db, twin(db, product.id)))
    &&& line.content_measure == product.content_measure
    &&& line.content_per_unit@ == holds_text(product)
    &&& line.code == product.code
    &&& line.name == product.name
    &&& line.category == product.category
    &&& line.base_unit == product.base_unit
    &&& line.base_units_per_pack@ == milli_text(product.base_units_per_pack as int)
    &&& line.units_per_purchase_pack == product.units_per_purchase_pack
    &&& line.low_stock_threshold@ == milli_text(product.low_stock_threshold.thousandths as int)
    &&& line.tracks_inventory == product.tracks_inventory
    &&& line.destination == product.destination
    &&& line.active == product.active
    &&& shelf(db, product.id) matches Some(total) && line.on_hand@ == milli_text(total as int)
}

/// Whether the ledger of some product does not add up in 64 bits.
pub open spec fn shelf_unreadable(db: Store) -> bool {
    exists|i: int|
        0 <= i < shelf_shown(db).len() && shelf(db, (#[trigger] shelf_shown(db)[i]).id) is None
}

fn price_texts(settings: &Settings, amount: Option<Money>, Ghost(db): Ghost<Store>) -> (result: (
    Option<String>,
    Option<String>,
))
    requires
        settings@ == settings_map(db.settings@),
    ensures
        priced(result.0, result.1, db, amount),
{
    match amount {
        None => (None, None),
        Some(amount) => (Some(settings.format_money(amount)), Some(amount.to_display())),
    }
}

fn product_lines(db: &Store, settings: &Settings) -> (result: Result<
    Vec<ProductLine>,
    CommandError,
>)
    requires
        settings@ == settings_map(db.settings@),
    ensures
        match result {
            Ok(lines) => {
                &&& !shelf_unreadable(*db)
                &&& lines@.len() == shelf_shown(*db).len()
                &&& forall|i: int|
                    0 <= i < lines@.len() ==> product_line_says(
                        #[trigger] lines@[i],
                        *db,
                        shelf_shown(*db)[i],
                    )
            },
            Err(error) => shelf_unreadable(*db) && error@ == CommandWhy::Repo(
                Why::Sqlite(SqlWhy::Overflow),
            ),
        },
{
    let products: Vec<Product> = catalogue::every_product(db);
    let mut result: Vec<ProductLine> = Vec::new();
    let mut i: usize = 0;
    while i < products.len()
        invariant
            i <= products.len(),
            products@ == shelf_shown(*db),
            settings@ == settings_map(db.settings@),
            result@.len() == i,
            forall|k: int|
                0 <= k < i ==> product_line_says(#[trigger] result@[k], *db, products@[k]),
        decreases products.len() - i,
    {
        let product: &Product = &products[i];
        let on_hand: Milli = match stock::on_hand(db, product.id) {
            Ok(on_hand) => on_hand,
            Err(error) => {
                assert(shelf(*db, shelf_shown(*db)[i as int].id) is None);
                return Err(CommandError::Repo(error));
            },
        };
        let sale_item_id: Option<i64> = catalogue::twin_of(db, product.id);
        let amount: Option<Money> = match sale_item_id {
            None => None,
            Some(id) => match catalogue::price_in_force(db, id) {
                Some(found) => Some(found.price),
                None => None,
            },
        };
        let (price, price_value): (Option<String>, Option<String>) = price_texts(
            settings,
            amount,
            Ghost(*db),
        );
        let content_per_unit: String = if same(product.content_measure.as_str(), "NONE") {
            String::new()
        } else {
            product.content_per_unit.to_display()
        };
        let line: ProductLine = ProductLine {
            id: product.id,
            sale_item_id,
            price,
            price_value,
            content_measure: product.content_measure.clone(),
            content_per_unit,
            code: product.code.clone(),
            name: product.name.clone(),
            category: product.category.clone(),
            base_unit: product.base_unit.clone(),
            base_units_per_pack: Milli::from_thousandths(product.base_units_per_pack).to_display(),
            units_per_purchase_pack: product.units_per_purchase_pack,
            low_stock_threshold: product.low_stock_threshold.to_display(),
            tracks_inventory: product.tracks_inventory,
            destination: product.destination.clone(),
            active: product.active,
            on_hand: on_hand.to_display(),
        };
        result.push(line);
        i = i + 1;
    }
    assert forall|k: int| 0 <= k < shelf_shown(*db).len() implies shelf(
        *db,
        (#[trigger] shelf_shown(*db)[k]).id,
    ) is Some by {
        assert(product_line_says(result@[k], *db, products@[k]));
    }
    Ok(result)
}

// ---------------------------------------------------------------------------
// The menu
// ---------------------------------------------------------------------------

/// By category, then by name.
pub open spec fn entered_before() -> spec_fn(SaleItemRow, SaleItemRow) -> bool {
    |a: SaleItemRow, b: SaleItemRow|
        text_before(a.item.category@, b.item.category@) || (a.item.category@ == b.item.category@
            && text_before(a.item.name@, b.item.name@))
}

/// Every menu entry, priced or not, in the order the screen has it.
pub open spec fn menu_shown(db: Store) -> Seq<SaleItemRow> {
    in_order(db.sale_items@, entered_before())
}

/// What one of a menu entry takes off the shelf, as its recipe in force says;
/// nothing, where it has no recipe.
pub open spec fn poured(db: Store, sale_item_id: i64) -> Result<Seq<(i64, int)>, Why> {
    match open_recipe(db, sale_item_id) {
        None => Ok(Seq::empty()),
        Some(recipe) => expansion(db, recipe.id, Milli { thousandths: 1_000 }),
    }
}

/// A part of a counted unit in its measure, as far as 64 bits go.
pub open spec fn in_measure(units: int, per_unit: int) -> int {
    if fits(measured(units, per_unit)) {
        measured(units, per_unit)
    } else {
        i64::MAX as int
    }
}

/// An amount of a product in the measure it was written in.
pub open spec fn measure_text(product: Product, units: int) -> Seq<char> {
    if product.content_measure@ == "NONE"@ {
        Seq::empty()
    } else {
        milli_text(in_measure(units, product.content_per_unit.thousandths as int))
    }
}

/// Whether a line of a recipe shows that amount of that product.
pub open spec fn ingredient_says(line: RecipeLineView, db: Store, entry: (i64, int)) -> bool {
    &&& line.product_id == entry.0
    &&& line.quantity_milli == entry.1
    &&& line.quantity@ == milli_text(entry.1)
    &&& row(db.products@, entry.0) matches Some(found) && {
        &&& line.name == found.product.name
        &&& line.measure == found.product.content_measure
        &&& line.measure_quantity@ == measure_text(found.product, entry.1)
    }
}

/// Whether a recipe on screen is that list of amounts.
pub open spec fn recipe_says(lines: Seq<RecipeLineView>, db: Store, pour: Seq<(i64, int)>) -> bool {
    &&& lines.len() == pour.len()
    &&& forall|i: int| 0 <= i < pour.len() ==> ingredient_says(#[trigger] lines[i], db, pour[i])
}

/// Whether a line is that menu entry's.
pub open spec fn sale_item_line_says(line: SaleItemLine, db: Store, listed: SaleItemRow) -> bool {
    &&& line.id == listed.item.id
    &&& line.from_product_id == listed.from_product_id
    &&& line.code == listed.item.code
    &&& line.name == listed.item.name
    &&& line.category == listed.item.category
    &&& line.active == listed.item.active
    &&& priced(line.price, line.price_value, db, price_of(db, Some(listed.item.id)))
    &&& poured(db, listed.item.id) matches Ok(pour) && recipe_says(line.recipe@, db, pour)
    &&& line.sellable == (listed.item.active && price_of(db, Some(listed.item.id)) is Some
        && open_recipe(db, listed.item.id) is Some)
}

/// A menu entry is shown as sellable exactly where the till offers it.
pub proof fn what_is_sellable_is_on_the_menu(line: SaleItemLine, db: Store, listed: SaleItemRow)
    requires
        sale_item_line_says(line, db, listed),
    ensures
        line.sellable <==> catalogue::menu_line(db, listed) is Some,
{
}

/// Why the first recipe that cannot be read out cannot be; nothing, where all
/// of them can.
pub open spec fn recipes_refusal(db: Store, listed: Seq<SaleItemRow>) -> Option<Why>
    decreases listed.len(),
{
    if listed.len() == 0 {
        None
    } else {
        match recipes_refusal(db, listed.drop_last()) {
            Some(why) => Some(why),
            None => match poured(db, listed.last().item.id) {
                Err(why) => Some(why),
                Ok(_) => None,
            },
        }
    }
}

proof fn a_refusal_stays(db: Store, listed: Seq<SaleItemRow>, n: int)
    requires
        0 <= n <= listed.len(),
        recipes_refusal(db, listed.take(n)) is Some,
    ensures
        recipes_refusal(db, listed) == recipes_refusal(db, listed.take(n)),
    decreases listed.len() - n,
{
    if n == listed.len() {
        assert(listed.take(n) =~= listed);
    } else {
        assert(listed.take(n + 1).drop_last() =~= listed.take(n));
        a_refusal_stays(db, listed, n + 1);
    }
}

fn sort_menu(db: &Store) -> (result: Vec<SaleItemRow>)
    ensures
        result@ == menu_shown(*db),
{
    sort_rows(
        &db.sale_items,
        |a: &SaleItemRow, b: &SaleItemRow| -> (r: bool)
            ensures
                r == (text_before(a.item.category@, b.item.category@) || (a.item.category@
                    == b.item.category@ && text_before(a.item.name@, b.item.name@)))
            {
                sorts_before(a.item.category.as_str(), b.item.category.as_str()) || (same(
                    a.item.category.as_str(),
                    b.item.category.as_str(),
                ) && sorts_before(a.item.name.as_str(), b.item.name.as_str()))
            },
        Ghost(entered_before()),
    )
}

fn ingredients(db: &Store, consumed: &Vec<Consumed>, Ghost(pour): Ghost<Seq<(i64, int)>>) -> (result:
    Vec<RecipeLineView>)
    requires
        consumed_as(*db, consumed@, pour),
    ensures
        recipe_says(result@, *db, pour),
{
    let mut result: Vec<RecipeLineView> = Vec::new();
    let mut i: usize = 0;
    while i < consumed.len()
        invariant
            i <= consumed.len(),
            consumed_as(*db, consumed@, pour),
            result@.len() == i,
            forall|k: int| 0 <= k < i ==> ingredient_says(#[trigger] result@[k], *db, pour[k]),
        decreases consumed.len() - i,
    {
        let part: &Consumed = &consumed[i];
        assert(consumed@[i as int].product_id == pour[i as int].0);
        let (measure, measure_quantity): (String, String) = match find_place(
            &db.products,
            part.product_id,
        ) {
            Some(at) => {
                let product: &Product = &db.products[at].product;
                let text: String = if same(product.content_measure.as_str(), "NONE") {
                    String::new()
                } else {
                    catalogue::units_to_measure(
                        part.quantity,
                        product.content_per_unit,
                    ).to_display()
                };
                (product.content_measure.clone(), text)
            },
            None => ("NONE".to_owned(), String::new()),
        };
        let line: RecipeLineView = RecipeLineView {
            product_id: part.product_id,
            name: part.name.clone(),
            quantity_milli: part.quantity.thousandths(),
            quantity: part.quantity.to_display(),
            measure,
            measure_quantity,
        };
        result.push(line);
        i = i + 1;
    }
    result
}

/// One line of the menu. What it takes off the shelf comes out of the same
/// expansion that will draw the stock down.
fn sale_item_line(db: &Store, settings: &Settings, listed: &SaleItemRow) -> (result: Result<
    SaleItemLine,
    RepoError,
>)
    requires
        settings@ == settings_map(db.settings@),
    ensures
        match result {
            Ok(line) => sale_item_line_says(line, *db, *listed),
            Err(error) => poured(*db, listed.item.id) == Err::<Seq<(i64, int)>, Why>(error@),
        },
{
    let in_force: Option<Recipe> = catalogue::recipe_in_force(db, listed.item.id);
    let recipe: Vec<RecipeLineView> = match &in_force {
        Some(found) => match catalogue::expand(db, found.id, Milli::one()) {
            Ok(consumed) => ingredients(
                db,
                &consumed,
                Ghost(poured(*db, listed.item.id)->Ok_0),
            ),
            Err(error) => {
                return Err(error);
            },
        },
        None => Vec::new(),
    };
    let amount: Option<Money> = match catalogue::price_in_force(db, listed.item.id) {
        Some(found) => Some(found.price),
        None => None,
    };
    let (price, price_value): (Option<String>, Option<String>) = price_texts(
        settings,
        amount,
        Ghost(*db),
    );
    let sellable: bool = listed.item.active && amount.is_some() && in_force.is_some();
    Ok(
        SaleItemLine {
            id: listed.item.id,
            from_product_id: listed.from_product_id,
            code: listed.item.code.clone(),
            name: listed.item.name.clone(),
            category: listed.item.category.clone(),
            active: listed.item.active,
            price,
            price_value,
            recipe,
            sellable,
        },
    )
}

/// Every sale item, priced or not, with the recipe currently in force.
fn sale_item_lines(db: &Store, settings: &Settings) -> (result: Result<
    Vec<SaleItemLine>,
    CommandError,
>)
    requires
        settings@ == settings_map(db.settings@),
    ensures
        match result {
            Ok(lines) => {
                &&& recipes_refusal(*db, menu_shown(*db)) is None
                &&& lines@.len() == menu_shown(*db).len()
                &&& forall|i: int|
                    0 <= i < lines@.len() ==> sale_item_line_says(
                        #[trigger] lines@[i],
                        *db,
                        menu_shown(*db)[i],
                    )
            },
            Err(error) => recipes_refusal(*db, menu_shown(*db)) matches Some(why) && error@
                == CommandWhy::Repo(why),
        },
{
    let found: Vec<SaleItemRow> = sort_menu(db);
    let mut result: Vec<SaleItemLine> = Vec::new();
    let mut i: usize = 0;
    while i < found.len()
        invariant
            i <= found.len(),
            found@ == menu_shown(*db),
            settings@ == settings_map(db.settings@),
            recipes_refusal(*db, found@.take(i as int)) is None,
            result@.len() == i,
            forall|k: int|
                0 <= k < i ==> sale_item_line_says(#[trigger] result@[k], *db, found@[k]),
        decreases found.len() - i,
    {
        assert(found@.take(i + 1).drop_last() =~= found@.take(i as int));
        match sale_item_line(db, settings, &found[i]) {
            Ok(line) => {
                result.push(line);
            },
            Err(error) => {
                proof {
                    a_refusal_stays(*db, found@, i + 1);
                }
                return Err(CommandError::Repo(error));
            },
        }
        i = i + 1;
    }
    assert(found@.take(found@.len() as int) =~= found@);
    Ok(result)
}

// ---------------------------------------------------------------------------
// The screen
// ---------------------------------------------------------------------------

/// A waiter on the books.
pub open spec fn serving_waiter() -> spec_fn(StaffRow) -> bool {
    |r: StaffRow| r.person.role == Role::Waiter && r.person.active
}

/// A line that the till can sell.
pub open spec fn is_sellable() -> spec_fn(SaleItemLine) -> bool {
    |line: SaleItemLine| line.sellable
}

/// What still has to be done before the till can trade, in order.
pub open spec fn missing_steps(
    shelf_empty: bool,
    menu_empty: bool,
    can_sell: bool,
    can_serve: bool,
) -> Seq<Seq<char>> {
    (if shelf_empty {
        seq!["Add what you buy — the bottles and cases on the shelf."@]
    } else {
        Seq::empty()
    }) + (if menu_empty {
        seq!["Add what you sell — the drinks on the menu."@]
    } else if !can_sell {
        seq!["Give at least one drink a recipe and a price."@]
    } else {
        Seq::empty()
    }) + (if !can_serve {
        seq!["Add a waiter — a tab is opened in somebody's name."@]
    } else {
        Seq::empty()
    })
}

/// Texts, over characters.
pub open spec fn texts(list: Seq<String>) -> Seq<Seq<char>> {
    list.map_values(|s: String| s@)
}

fn steps(shelf_empty: bool, menu_empty: bool, can_sell: bool, can_serve: bool) -> (result: Vec<
    String,
>)
    ensures
        texts(result@) == missing_steps(shelf_empty, menu_empty, can_sell, can_serve),
{
    let mut missing: Vec<String> = Vec::new();
    if shelf_empty {
        missing.push("Add what you buy — the bottles and cases on the shelf.".to_owned());
    }
    if menu_empty {
        missing.push("Add what you sell — the drinks on the menu.".to_owned());
    } else if !can_sell {
        missing.push("Give at least one drink a recipe and a price.".to_owned());
    }
    if !can_serve {
        missing.push("Add a waiter — a tab is opened in somebody's name.".to_owned());
    }
    assert(texts(missing@) =~= missing_steps(shelf_empty, menu_empty, can_sell, can_serve));
    missing
}

/// Why the screen cannot be shown; nothing, where it can.
pub open spec fn setup_refusal(db: Store) -> Option<CommandWhy> {
    if shelf_unreadable(db) {
        Some(CommandWhy::Repo(Why::Sqlite(SqlWhy::Overflow)))
    } else {
        match recipes_refusal(db, menu_shown(db)) {
            Some(why) => Some(CommandWhy::Repo(why)),
            None => None,
        }
    }
}

/// Whether a screen shows the venue as it is.
pub open spec fn setup_says(view: SetupView, db: Store) -> bool {
    let can_serve = any(db.staff@, serving_waiter());
    let can_sell = any(view.sale_items@, is_sellable());
    &&& view.staff@.len() == staff_shown(db).len()
    &&& forall|i: int|
        0 <= i < view.staff@.len() ==> staff_says(#[trigger] view.staff@[i], staff_shown(db)[i])
    &&& view.products@.len() == shelf_shown(db).len()
    &&& forall|i: int|
        0 <= i < view.products@.len() ==> product_line_says(
            #[trigger] view.products@[i],
            db,
            shelf_shown(db)[i],
        )
    &&& view.sale_items@.len() == menu_shown(db).len()
    &&& forall|i: int|
        0 <= i < view.sale_items@.len() ==> sale_item_line_says(
            #[trigger] view.sale_items@[i],
            db,
            menu_shown(db)[i],
        )
    &&& view.can_trade == (can_serve && can_sell)
    &&& texts(view.missing@) == missing_steps(
        view.products@.len() == 0,
        view.sale_items@.len() == 0,
        can_sell,
        can_serve,
    )
}

/// The whole screen.
pub fn view_of(db: &Store) -> (result: Result<SetupView, CommandError>)
    ensures
        match result {
            Ok(view) => setup_refusal(*db) is None && setup_says(view, *db),
            Err(error) => setup_refusal(*db) == Some(error@),
        },
{
    let settings: Settings = Settings::load(db);
    let staff: Vec<StaffLine> = staff_lines(db);
    let products: Vec<ProductLine> = match product_lines(db, &settings) {
        Ok(lines) => lines,
        Err(error) => {
            return Err(error);
        },
    };
    let sale_items: Vec<SaleItemLine> = match sale_item_lines(db, &settings) {
        Ok(lines) => lines,
        Err(error) => {
            return Err(error);
        },
    };
    let can_serve: bool = any_row(
        &db.staff,
        |r: &StaffRow| -> (b: bool)
            ensures
                b == (r.person.role == Role::Waiter && r.person.active)
            { r.person.role == Role::Waiter && r.person.active },
        Ghost(serving_waiter()),
    );
    let can_sell: bool = any_row(
        &sale_items,
        |line: &SaleItemLine| -> (b: bool)
            ensures
                b == (line.sellable)
            { line.sellable },
        Ghost(is_sellable()),
    );
    let missing: Vec<String> = steps(
        products.len() == 0,
        sale_items.len() == 0,
        can_sell,
        can_serve,
    );
    Ok(SetupView { staff, products, sale_items, can_trade: can_serve && can_sell, missing })
}

/// Readable by anyone signed in: a cashier needs to see the shelf too.
pub fn setup_view(db: &Store, session: &Option<Session>) -> (result: Result<
    SetupView,
    CommandError,
>)
    ensures
        match session_refusal(*session) {
            Some(why) => result matches Err(error) && error@ == why,
            None => match result {
                Ok(view) => setup_refusal(*db) is None && setup_says(view, *db),
                Err(error) => setup_refusal(*db) == Some(error@),
            },
        },
{
    match require_session(session) {
        Ok(_) => {},
        Err(error) => {
            return Err(error);
        },
    }
    view_of(db)
}

/// The till can trade exactly when nothing is missing from a venue that has
/// something on the shelf.
pub proof fn nothing_is_missing_once_the_till_can_trade(view: SetupView, db: Store)
    requires
        setup_says(view, db),
        view.products@.len() > 0,
    ensures
        view.can_trade <==> view.missing@.len() == 0,
{
    assert(texts(view.missing@).len() == view.missing@.len());
    if any(view.sale_items@, is_sellable()) {
        let i = choose|i: int|
            0 <= i < view.sale_items@.len() && #[trigger] is_sellable()(view.sale_items@[i]);
    }
}

// ---------------------------------------------------------------------------
// What the screen sends
// ---------------------------------------------------------------------------

#[derive(Debug, Clone, PartialEq, Eq)]
pub struct StaffForm {
    pub name: String,
    /// `OWNER`, `CASHIER` or `WAITER`.
    pub role: String,
    /// Required for roles that sign in, meaningless for a waiter.
    pub pin: Option<String>,
}

#[derive(Debug, Clone, PartialEq, Eq)]
pub struct ProductForm {
    /// What it sells for, as typed: `"120.00"`. Absent or blank means stock
    /// only: it is on the shelf but never ordered by name.
    pub sale_price: Option<String>,
    /// What one counted unit holds, so that recipes can be written as "30ml"
    /// rather than as a fraction of a bottle.
    pub content_measure: Measure,
    /// How much of that measure is in one counted unit, as thousandths: 750000
    /// for a 750ml bottle.
    pub content_per_unit_milli: i64,
    pub name: String,
    pub category: String,
    pub base_unit: BaseUnit,
    pub base_units_per_pack: i64,
    pub units_per_purchase_pack: i64,
    pub low_stock_threshold: i64,
    pub tracks_inventory: bool,
    pub destination: Destination,
    /// Ignored when creating; a new product is always active.
    pub active: bool,
}

#[derive(Debug, Clone, PartialEq, Eq)]
pub struct SaleItemForm {
    pub name: String,
    pub category: String,
    pub active: bool,
}

#[derive(Debug, Clone, Copy, PartialEq, Eq, Structural)]
pub struct RecipeLineForm {
    pub product_id: i64,
    /// Counted units, or the product's own measure when `in_measure` is set:
    /// 30000 then means 30ml.
    pub quantity_milli: i64,
    pub in_measure: bool,
}

/// A quantity as it was sent, which has to be more than nothing.
pub open spec fn sent_quantity(thousandths: i64, what: Seq<char>) -> Result<Milli, CommandWhy> {
    if thousandths <= 0 {
        Err(CommandWhy::Refused(what + " must be above zero."@))
    } else {
        Ok(Milli { thousandths })
    }
}

/// Quantities come in as thousandths, the same unit the ledger stores, so that
/// nothing is rounded on the way in or the way out.
fn milli(thousandths: i64, what: &str) -> (result: Result<Milli, CommandError>)
    ensures
        match sent_quantity(thousandths, what@) {
            Ok(quantity) => result == Ok::<Milli, CommandError>(quantity),
            Err(why) => result matches Err(error) && error@ == why,
        },
{
    if thousandths <= 0 {
        return Err(CommandError::refused(join2(what, " must be above zero.").as_str()));
    }
    Ok(Milli::from_thousandths(thousandths))
}

/// An amount as it was typed, or what is wrong with it.
pub open spec fn sent_amount(text: Seq<char>, what: Seq<char>) -> Result<Money, CommandWhy> {
    match typed_amount(text) {
        None => Err(
            CommandWhy::Refused(what + ": "@ + MoneyError::Unreadable.spec_message()),
        ),
        Some(minor) => if fits(minor) {
            Ok(Money { minor: minor as i64 })
        } else {
            Err(CommandWhy::Refused(what + ": "@ + MoneyError::Overflow.spec_message()))
        },
    }
}

fn money(text: &str, what: &str) -> (result: Result<Money, CommandError>)
    ensures
        match sent_amount(text@, what@) {
            Ok(amount) => result == Ok::<Money, CommandError>(amount),
            Err(why) => result matches Err(error) && error@ == why,
        },
{
    match Money::parse(text) {
        Ok(amount) => Ok(amount),
        Err(error) => Err(CommandError::refused(join3(what, ": ", error.message()).as_str())),
    }
}

// ---------------------------------------------------------------------------
// Writing. Every one of these is the owner's alone, and says so twice: here,
// and again against whoever is signed in when the change is made.
// ---------------------------------------------------------------------------

/// Why a change is not made: what is wrong with the form, who is asking, or
/// what the venue is like. Nothing, where it is made.
pub open spec fn turned_down(
    objection: Option<CommandWhy>,
    session: Option<Session>,
    refusal: Option<Why>,
) -> Option<CommandWhy> {
    match objection {
        Some(why) => Some(why),
        None => match owner_refusal(session) {
            Some(why) => Some(why),
            None => match refusal {
                Some(why) => Some(CommandWhy::Repo(why)),
                None => None,
            },
        },
    }
}

/// Whoever is signed in.
pub open spec fn acting(session: Option<Session>) -> i64 {
    session->0.staff_id
}

/// Whether a change was answered: turned down with nothing touched, or made
/// and followed by the screen as it is then.
pub open spec fn answered(
    result: Result<SetupView, CommandError>,
    why: Option<CommandWhy>,
    before: Store,
    after: Store,
    done: bool,
) -> bool {
    match why {
        Some(why) => {
            &&& result matches Err(error) && error@ == why
            &&& after == before
        },
        None => {
            &&& done
            &&& match result {
                Ok(view) => setup_refusal(after) is None && setup_says(view, after),
                Err(error) => setup_refusal(after) == Some(error@),
            }
        },
    }
}

/// The refreshed screen after a change, or what turned it down.
fn refreshed(db: &Store, change: Result<Change, RepoError>) -> (result: Result<
    SetupView,
    CommandError,
>)
    ensures
        match change {
            Err(error) => result matches Err(shown) && shown@ == CommandWhy::Repo(error@),
            Ok(_) => match result {
                Ok(view) => setup_refusal(*db) is None && setup_says(view, *db),
                Err(error) => setup_refusal(*db) == Some(error@),
            },
        },
{
    match change {
        Ok(_) => view_of(db),
        Err(error) => Err(CommandError::Repo(error)),
    }
}

/// What is wrong with somebody as they were entered; nothing, where it is
/// right.
pub open spec fn staff_objection(form: StaffForm) -> Option<CommandWhy> {
    match Role::of_word(form.role@) {
        None => Some(
            CommandWhy::Refused("'"@ + form.role@ + "' is not a role this build knows"@),
        ),
        Some(role) => if role.signs_in() && !(form.pin is Some && form.pin->0@.len() > 0) {
            Some(
                CommandWhy::Refused("An owner or cashier needs a PIN, because they sign in."@),
            )
        } else {
            None
        },
    }
}

/// Reads a form for somebody new: the role, and the PIN that has to be hashed
/// before they can be added. A waiter never signs in, so a PIN offered for one
/// is dropped rather than stored as a credential nothing will ever check.
pub fn staff_of(form: &StaffForm) -> (result: Result<(Role, Option<String>), CommandError>)
    ensures
        match staff_objection(*form) {
            Some(why) => result matches Err(error) && error@ == why,
            None => {
                &&& result matches Ok(read)
                &&& Role::of_word(form.role@) == Some(read.0)
                &&& match read.1 {
                    Some(pin) => read.0.signs_in() && form.pin is Some && pin@ == form.pin->0@,
                    None => !read.0.signs_in(),
                }
            },
        },
{
    let role: Role = match Role::parse(form.role.as_str()) {
        Ok(role) => role,
        Err(error) => {
            return Err(CommandError::refused(error.message().as_str()));
        },
    };
    if !role.authenticates() {
        return Ok((role, None));
    }
    match &form.pin {
        Some(pin) => {
            if pin.as_str().is_empty() {
                return Err(
                    CommandError::refused("An owner or cashier needs a PIN, because they sign in."),
                );
            }
            Ok((role, Some(pin.clone())))
        },
        None => Err(
            CommandError::refused("An owner or cashier needs a PIN, because they sign in."),
        ),
    }
}

/// Whether that is who the form asks to be added, with the PIN that was hashed
/// for them where they sign in.
pub open spec fn staff_asked(
    input: NewStaff<'_>,
    form: StaffForm,
    hashed: Option<(&str, &str)>,
) -> bool {
    &&& input.name@ == trimmed(form.name@)
    &&& Role::of_word(form.role@) == Some(input.role)
    &&& input.pin == (if input.role.signs_in() {
        hashed
    } else {
        None
    })
}

/// Adds somebody. What was typed as their PIN comes hashed, as salt and hash.
pub fn add_staff(
    db: &mut Store,
    session: &Option<Session>,
    form: &StaffForm,
    hashed: Option<(&str, &str)>,
    now: i64,
) -> (result: Result<SetupView, CommandError>)
    ensures
        ledgers_kept(*old(db), *final(db)),
        match staff_objection(*form) {
            Some(why) => answered(result, Some(why), *old(db), *final(db), false),
            None => exists|input: NewStaff<'_>|
                #![trigger create_staff_refusal(*old(db), acting(*session), input)]
                staff_asked(input, *form, hashed) && answered(
                    result,
                    turned_down(
                        None,
                        *session,
                        create_staff_refusal(*old(db), acting(*session), input),
                    ),
                    *old(db),
                    *final(db),
                    staff_created(
                        *old(db),
                        *final(db),
                        fresh_id(old(db).staff@)->0,
                        input,
                        acting(*session),
                        now,
                    ),
                ),
        },
{
    let (role, _): (Role, Option<String>) = match staff_of(form) {
        Ok(read) => read,
        Err(error) => {
            return Err(error);
        },
    };
    let pin: Option<(&str, &str)> = if role.authenticates() {
        hashed
    } else {
        None
    };
    let input: NewStaff<'_> = NewStaff { name: form.name.as_str().trim(), role, pin };
    assert(staff_asked(input, *form, hashed));
    let ghost refusal = create_staff_refusal(*db, acting(*session), input);
    let actor: Session = match require_owner(session) {
        Ok(found) => found,
        Err(error) => {
            return Err(error);
        },
    };
    let change: Result<Change, RepoError> = commissioning::create_staff(
        db,
        actor.staff_id,
        &input,
        now,
    );
    refreshed(db, change)
}

pub fn set_staff_active(
    db: &mut Store,
    session: &Option<Session>,
    staff_id: i64,
    active: bool,
    now: i64,
) -> (result: Result<SetupView, CommandError>)
    ensures
        ledgers_kept(*old(db), *final(db)),
        answered(
            result,
            turned_down(
                None,
                *session,
                staff_active_refusal(*old(db), acting(*session), staff_id, active),
            ),
            *old(db),
            *final(db),
            staff_switched(*old(db), *final(db), staff_id, active, acting(*session), now),
        ),
{
    let actor: Session = match require_owner(session) {
        Ok(found) => found,
        Err(error) => {
            return Err(error);
        },
    };
    let change: Result<Change, RepoError> = commissioning::set_staff_active(
        db,
        actor.staff_id,
        staff_id,
        active,
        now,
    );
    refreshed(db, change)
}

/// What a product is to sell for, as its form says it: nothing, where it is
/// stock only.
pub open spec fn sent_price(form: ProductForm) -> Result<Option<Money>, CommandWhy> {
    match form.sale_price {
        None => Ok(None),
        Some(text) => if trimmed(text@).len() == 0 {
            Ok(None)
        } else {
            match sent_amount(trimmed(text@), "Sale price"@) {
                Ok(amount) => Ok(Some(amount)),
                Err(why) => Err(why),
            }
        },
    }
}

/// What is wrong with a product's form; nothing, where it is right.
pub open spec fn form_objection(form: ProductForm) -> Option<CommandWhy> {
    match sent_price(form) {
        Err(why) => Some(why),
        Ok(_) => match sent_quantity(form.base_units_per_pack, "Units per pack"@) {
            Err(why) => Some(why),
            Ok(_) => None,
        },
    }
}

/// A number, or nothing where it is less.
pub open spec fn at_least_nothing(thousandths: i64) -> Milli {
    Milli {
        thousandths: if thousandths < 0 {
            0
        } else {
            thousandths
        },
    }
}

/// Whether that is the product that the form asks for.
pub open spec fn product_asked(input: NewProduct<'_>, form: ProductForm) -> bool {
    &&& sent_price(form) == Ok::<Option<Money>, CommandWhy>(input.sale_price)
    &&& input.content_measure == form.content_measure
    &&& input.content_per_unit == at_least_nothing(form.content_per_unit_milli)
    &&& input.name@ == trimmed(form.name@)
    &&& input.category@ == trimmed(form.category@)
    &&& input.base_unit == form.base_unit
    &&& input.base_units_per_pack == (Milli { thousandths: form.base_units_per_pack })
    &&& input.units_per_purchase_pack == form.units_per_purchase_pack
    &&& input.low_stock_threshold == at_least_nothing(form.low_stock_threshold)
    &&& input.tracks_inventory == form.tracks_inventory
    &&& input.destination == form.destination
}

fn floored(thousandths: i64) -> (result: Milli)
    ensures
        result == at_least_nothing(thousandths),
{
    Milli::from_thousandths(
        if thousandths < 0 {
            0
        } else {
            thousandths
        },
    )
}

fn product_of<'a>(form: &'a ProductForm) -> (result: Result<NewProduct<'a>, CommandError>)
    ensures
        match form_objection(*form) {
            Some(why) => result matches Err(error) && error@ == why,
            None => result matches Ok(input) && product_asked(input, *form),
        },
{
    let sale_price: Option<Money> = match &form.sale_price {
        None => None,
        Some(text) => {
            let typed: &str = text.as_str().trim();
            if typed.is_empty() {
                None
            } else {
                match money(typed, "Sale price") {
                    Ok(amount) => Some(amount),
                    Err(error) => {
                        return Err(error);
                    },
                }
            }
        },
    };
    let base_units_per_pack: Milli = match milli(form.base_units_per_pack, "Units per pack") {
        Ok(quantity) => quantity,
        Err(error) => {
            return Err(error);
        },
    };
    Ok(
        NewProduct {
            sale_price,
            content_measure: form.content_measure,
            content_per_unit: floored(form.content_per_unit_milli),
            name: form.name.as_str().trim(),
            category: form.category.as_str().trim(),
            base_unit: form.base_unit,
            base_units_per_pack,
            units_per_purchase_pack: form.units_per_purchase_pack,
            low_stock_threshold: floored(form.low_stock_threshold),
            tracks_inventory: form.tracks_inventory,
            destination: form.destination,
        },
    )
}

pub fn add_product(db: &mut Store, session: &Option<Session>, form: &ProductForm, now: i64) -> (result:
    Result<SetupView, CommandError>)
    ensures
        ledgers_kept(*old(db), *final(db)),
        match form_objection(*form) {
            Some(why) => answered(result, Some(why), *old(db), *final(db), false),
            None => exists|input: NewProduct<'_>|
                #![trigger create_product_refusal(*old(db), acting(*session), input)]
                product_asked(input, *form) && answered(
                    result,
                    turned_down(
                        None,
                        *session,
                        create_product_refusal(*old(db), acting(*session), input),
                    ),
                    *old(db),
                    *final(db),
                    product_created(
                        *old(db),
                        *final(db),
                        fresh_id(old(db).products@)->0,
                        input,
                        acting(*session),
                        now,
                    ),
                ),
        },
{
    let input: NewProduct<'_> = match product_of(form) {
        Ok(input) => input,
        Err(error) => {
            return Err(error);
        },
    };
    let ghost refusal = create_product_refusal(*db, acting(*session), input);
    let actor: Session = match require_owner(session) {
        Ok(found) => found,
        Err(error) => {
            return Err(error);
        },
    };
    let change: Result<Change, RepoError> = commissioning::create_product(
        db,
        actor.staff_id,
        &input,
        now,
    );
    refreshed(db, change)
}

/// What is wrong with an amount that was typed; nothing, where it can be read.
pub open spec fn amount_objection(text: Seq<char>, what: Seq<char>) -> Option<CommandWhy> {
    match sent_amount(text, what) {
        Err(why) => Some(why),
        Ok(_) => None,
    }
}

/// Start selling something that was added as stock only.
pub fn sell_product(
    db: &mut Store,
    session: &Option<Session>,
    product_id: i64,
    price: &str,
    now: i64,
) -> (result: Result<SetupView, CommandError>)
    ensures
        ledgers_kept(*old(db), *final(db)),
        ({
            let amount = sent_amount(price@, "Sale price"@)->Ok_0;
            answered(
                result,
                turned_down(
                    amount_objection(price@, "Sale price"@),
                    *session,
                    sell_product_refusal(*old(db), acting(*session), product_id, amount),
                ),
                *old(db),
                *final(db),
                exists|change: Change| #[trigger]
                    put_on_menu(
                        *old(db),
                        *final(db),
                        change,
                        sold_whole(row(old(db).products@, product_id)->0.product, product_id, amount),
                        acting(*session),
                        now,
                    ),
            )
        }),
{
    let amount: Money = match money(price, "Sale price") {
        Ok(amount) => amount,
        Err(error) => {
            return Err(error);
        },
    };
    let actor: Session = match require_owner(session) {
        Ok(found) => found,
        Err(error) => {
            return Err(error);
        },
    };
    let change: Result<Change, RepoError> = commissioning::sell_product(
        db,
        actor.staff_id,
        product_id,
        amount,
        now,
    );
    refreshed(db, change)
}

/// What is wrong with a measure and its price as they were sent; nothing, where
/// both can be read.
pub open spec fn measure_objection(poured_milli: i64, price: Seq<char>) -> Option<CommandWhy> {
    match sent_quantity(poured_milli, "A measure"@) {
        Err(why) => Some(why),
        Ok(_) => amount_objection(price, "Shot price"@),
    }
}

/// Start selling a measure of something on the shelf: a shot from a bottle.
///
/// The measure arrives in the product's own unit as thousandths: 30000 means
/// 30ml.
pub fn sell_by_measure(
    db: &mut Store,
    session: &Option<Session>,
    product_id: i64,
    poured_milli: i64,
    price: &str,
    now: i64,
) -> (result: Result<SetupView, CommandError>)
    ensures
        ledgers_kept(*old(db), *final(db)),
        ({
            let poured = Milli { thousandths: poured_milli };
            let amount = sent_amount(price@, "Shot price"@)->Ok_0;
            let product = row(old(db).products@, product_id)->0.product;
            answered(
                result,
                turned_down(
                    measure_objection(poured_milli, price@),
                    *session,
                    sell_by_measure_refusal(
                        *old(db),
                        acting(*session),
                        product_id,
                        poured,
                        amount,
                    ),
                ),
                *old(db),
                *final(db),
                exists|change: Change| #[trigger]
                    put_on_menu(
                        *old(db),
                        *final(db),
                        change,
                        sold_by_measure(
                            product,
                            product_id,
                            poured,
                            units_poured(product, poured)->Ok_0,
                            amount,
                        ),
                        acting(*session),
                        now,
                    ),
            )
        }),
{
    let poured: Milli = match milli(poured_milli, "A measure") {
        Ok(quantity) => quantity,
        Err(error) => {
            return Err(error);
        },
    };
    let amount: Money = match money(price, "Shot price") {
        Ok(amount) => amount,
        Err(error) => {
            return Err(error);
        },
    };
    let actor: Session = match require_owner(session) {
        Ok(found) => found,
        Err(error) => {
            return Err(error);
        },
    };
    let change: Result<Change, RepoError> = commissioning::sell_by_measure(
        db,
        actor.staff_id,
        product_id,
        poured,
        amount,
        now,
    );
    refreshed(db, change)
}

/// Whether that is the edit that the form asks for.
pub open spec fn edit_asked(input: ProductUpdate<'_>, form: ProductForm) -> bool {
    &&& input.content_measure == form.content_measure
    &&& input.content_per_unit == at_least_nothing(form.content_per_unit_milli)
    &&& input.name@ == trimmed(form.name@)
    &&& input.category@ == trimmed(form.category@)
    &&& input.base_unit == form.base_unit
    &&& input.base_units_per_pack == (Milli { thousandths: form.base_units_per_pack })
    &&& input.units_per_purchase_pack == form.units_per_purchase_pack
    &&& input.low_stock_threshold == at_least_nothing(form.low_stock_threshold)
    &&& input.tracks_inventory == form.tracks_inventory
    &&& input.destination == form.destination
    &&& input.active == form.active
}

pub fn edit_product(
    db: &mut Store,
    session: &Option<Session>,
    product_id: i64,
    form: &ProductForm,
    now: i64,
) -> (result: Result<SetupView, CommandError>)
    ensures
        ledgers_kept(*old(db), *final(db)),
        match form_objection(*form) {
            Some(why) => answered(result, Some(why), *old(db), *final(db), false),
            None => exists|input: ProductUpdate<'_>|
                #![trigger update_product_refusal(*old(db), acting(*session), product_id, input)]
                edit_asked(input, *form) && answered(
                    result,
                    turned_down(
                        None,
                        *session,
                        update_product_refusal(*old(db), acting(*session), product_id, input),
                    ),
                    *old(db),
                    *final(db),
                    product_updated(
                        *old(db),
                        *final(db),
                        product_id,
                        input,
                        acting(*session),
                        now,
                    ),
                ),
        },
{
    let new: NewProduct<'_> = match product_of(form) {
        Ok(input) => input,
        Err(error) => {
            return Err(error);
        },
    };
    let input: ProductUpdate<'_> = ProductUpdate {
        content_measure: new.content_measure,
        content_per_unit: new.content_per_unit,
        name: new.name,
        category: new.category,
        base_unit: new.base_unit,
        base_units_per_pack: new.base_units_per_pack,
        units_per_purchase_pack: new.units_per_purchase_pack,
        low_stock_threshold: new.low_stock_threshold,
        tracks_inventory: new.tracks_inventory,
        destination: new.destination,
        active: form.active,
    };
    let ghost refusal = update_product_refusal(*db, acting(*session), product_id, input);
    let actor: Session = match require_owner(session) {
        Ok(found) => found,
        Err(error) => {
            return Err(error);
        },
    };
    let change: Result<Change, RepoError> = commissioning::update_product(
        db,
        actor.staff_id,
        product_id,
        &input,
        now,
    );
    refreshed(db, change)
}

pub fn add_sale_item(
    db: &mut Store,
    session: &Option<Session>,
    form: &SaleItemForm,
    now: i64,
) -> (result: Result<SetupView, CommandError>)
    ensures
        ledgers_kept(*old(db), *final(db)),
        exists|input: NewSaleItem<'_>|
            #![trigger create_sale_item_refusal(*old(db), acting(*session), input)]
            input.name@ == trimmed(form.name@) && input.category@ == trimmed(form.category@)
                && answered(
                result,
                turned_down(
                    None,
                    *session,
                    create_sale_item_refusal(*old(db), acting(*session), input),
                ),
                *old(db),
                *final(db),
                sale_item_created(
                    *old(db),
                    *final(db),
                    fresh_id(old(db).sale_items@)->0,
                    input,
                    acting(*session),
                    now,
                ),
            ),
{
    let input: NewSaleItem<'_> = NewSaleItem {
        name: form.name.as_str().trim(),
        category: form.category.as_str().trim(),
    };
    let ghost refusal = create_sale_item_refusal(*db, acting(*session), input);
    let actor: Session = match require_owner(session) {
        Ok(found) => found,
        Err(error) => {
            return Err(error);
        },
    };
    let change: Result<Change, RepoError> = commissioning::create_sale_item(
        db,
        actor.staff_id,
        &input,
        now,
    );
    refreshed(db, change)
}

pub fn edit_sale_item(
    db: &mut Store,
    session: &Option<Session>,
    sale_item_id: i64,
    form: &SaleItemForm,
    now: i64,
) -> (result: Result<SetupView, CommandError>)
    ensures
        ledgers_kept(*old(db), *final(db)),
        exists|input: SaleItemUpdate<'_>|
            #![trigger update_sale_item_refusal(*old(db), acting(*session), sale_item_id, input)]
            input.name@ == trimmed(form.name@) && input.category@ == trimmed(form.category@)
                && input.active == form.active && answered(
                result,
                turned_down(
                    None,
                    *session,
                    update_sale_item_refusal(*old(db), acting(*session), sale_item_id, input),
                ),
                *old(db),
                *final(db),
                sale_item_updated(
                    *old(db),
                    *final(db),
                    sale_item_id,
                    input,
                    acting(*session),
                    now,
                ),
            ),
{
    let input: SaleItemUpdate<'_> = SaleItemUpdate {
        name: form.name.as_str().trim(),
        category: form.category.as_str().trim(),
        active: form.active,
    };
    let ghost refusal = update_sale_item_refusal(*db, acting(*session), sale_item_id, input);
    let actor: Session = match require_owner(session) {
        Ok(found) => found,
        Err(error) => {
            return Err(error);
        },
    };
    let change: Result<Change, RepoError> = commissioning::update_sale_item(
        db,
        actor.staff_id,
        sale_item_id,
        &input,
        now,
    );
    refreshed(db, change)
}

/// Whether some ingredient was sent with no quantity.
pub open spec fn lacks_quantity(lines: Seq<RecipeLineForm>) -> bool {
    exists|i: int| 0 <= i < lines.len() && (#[trigger] lines[i]).quantity_milli <= 0
}

/// What is wrong with a recipe as it was sent; nothing, where it is right.
pub open spec fn recipe_objection(lines: Seq<RecipeLineForm>) -> Option<CommandWhy> {
    if lines.len() == 0 {
        Some(CommandWhy::Refused("A recipe needs at least one ingredient."@))
    } else if lacks_quantity(lines) {
        Some(CommandWhy::Refused("Every recipe quantity"@ + " must be above zero."@))
    } else {
        None
    }
}

/// The recipe that was sent.
pub open spec fn recipe_asked(lines: Seq<RecipeLineForm>) -> Seq<RecipeLine> {
    lines.map_values(
        |line: RecipeLineForm|
            RecipeLine {
                product_id: line.product_id,
                quantity: Milli { thousandths: line.quantity_milli },
                in_measure: line.in_measure,
            },
    )
}

fn recipe_of(lines: &[RecipeLineForm]) -> (result: Result<Vec<RecipeLine>, CommandError>)
    ensures
        match recipe_objection(lines@) {
            Some(why) => result matches Err(error) && error@ == why,
            None => result matches Ok(list) && list@ == recipe_asked(lines@),
        },
{
    if lines.len() == 0 {
        return Err(CommandError::refused("A recipe needs at least one ingredient."));
    }
    let mut result: Vec<RecipeLine> = Vec::new();
    let mut i: usize = 0;
    while i < lines.len()
        invariant
            i <= lines.len(),
            lines.len() > 0,
            forall|k: int| 0 <= k < i ==> (#[trigger] lines@[k]).quantity_milli > 0,
            result@ == recipe_asked(lines@.take(i as int)),
        decreases lines.len() - i,
    {
        match milli(lines[i].quantity_milli, "Every recipe quantity") {
            Ok(quantity) => {
                result.push(
                    RecipeLine {
                        product_id: lines[i].product_id,
                        quantity,
                        in_measure: lines[i].in_measure,
                    },
                );
            },
            Err(error) => {
                assert(lines@[i as int].quantity_milli <= 0);
                return Err(error);
            },
        }
        i = i + 1;
        assert(result@ =~= recipe_asked(lines@.take(i as int)));
    }
    assert(lines@.take(lines@.len() as int) =~= lines@);
    Ok(result)
}

/// Replace a drink's recipe wholesale. The previous version is closed, never
/// edited, so a night already traded keeps the recipe it was poured under.
pub fn set_recipe(
    db: &mut Store,
    session: &Option<Session>,
    sale_item_id: i64,
    lines: &[RecipeLineForm],
    now: i64,
) -> (result: Result<SetupView, CommandError>)
    ensures
        ledgers_kept(*old(db), *final(db)),
        answered(
            result,
            turned_down(
                recipe_objection(lines@),
                *session,
                revise_recipe_refusal(
                    *old(db),
                    acting(*session),
                    sale_item_id,
                    recipe_asked(lines@),
                ),
            ),
            *old(db),
            *final(db),
            recipe_replaced(
                *old(db),
                *final(db),
                sale_item_id,
                recipe_asked(lines@),
                acting(*session),
                now,
            ),
        ),
{
    let recipe: Vec<RecipeLine> = match recipe_of(lines) {
        Ok(recipe) => recipe,
        Err(error) => {
            return Err(error);
        },
    };
    let actor: Session = match require_owner(session) {
        Ok(found) => found,
        Err(error) => {
            return Err(error);
        },
    };
    let change: Result<Change, RepoError> = commissioning::revise_recipe(
        db,
        actor.staff_id,
        sale_item_id,
        recipe.as_slice(),
        now,
    );
    refreshed(db, change)
}

/// Take a shelf item off the catalogue, or bring it back. Never a delete.
pub fn set_product_active(
    db: &mut Store,
    session: &Option<Session>,
    product_id: i64,
    active: bool,
    now: i64,
) -> (result: Result<SetupView, CommandError>)
    ensures
        ledgers_kept(*old(db), *final(db)),
        answered(
            result,
            turned_down(
                None,
                *session,
                product_active_refusal(*old(db), acting(*session), product_id, active),
            ),
            *old(db),
            *final(db),
            product_switched(*old(db), *final(db), product_id, active, acting(*session), now),
        ),
{
    let actor: Session = match require_owner(session) {
        Ok(found) => found,
        Err(error) => {
            return Err(error);
        },
    };
    let change: Result<Change, RepoError> = commissioning::set_product_active(
        db,
        actor.staff_id,
        product_id,
        active,
        now,
    );
    refreshed(db, change)
}

/// Take a drink off the menu, or put it back. Never a delete.
pub fn set_sale_item_active(
    db: &mut Store,
    session: &Option<Session>,
    sale_item_id: i64,
    active: bool,
    now: i64,
) -> (result: Result<SetupView, CommandError>)
    ensures
        ledgers_kept(*old(db), *final(db)),
        answered(
            result,
            turned_down(
                None,
                *session,
                sale_item_active_refusal(*old(db), acting(*session), sale_item_id, active),
            ),
            *old(db),
            *final(db),
            sale_item_switched(*old(db), *final(db), sale_item_id, active, acting(*session), now),
        ),
{
    let actor: Session = match require_owner(session) {
        Ok(found) => found,
        Err(error) => {
            return Err(error);
        },
    };
    let change: Result<Change, RepoError> = commissioning::set_sale_item_active(
        db,
        actor.staff_id,
        sale_item_id,
        active,
        now,
    );
    refreshed(db, change)
}

pub fn set_price(
    db: &mut Store,
    session: &Option<Session>,
    sale_item_id: i64,
    price: &str,
    now: i64,
) -> (result: Result<SetupView, CommandError>)
    ensures
        ledgers_kept(*old(db), *final(db)),
        ({
            let amount = sent_amount(price@, "Price"@)->Ok_0;
            answered(
                result,
                turned_down(
                    amount_objection(price@, "Price"@),
                    *session,
                    reprice_refusal(*old(db), acting(*session), sale_item_id, amount),
                ),
                *old(db),
                *final(db),
                price_changed(
                    *old(db),
                    *final(db),
                    sale_item_id,
                    amount,
                    acting(*session),
                    now,
                ),
            )
        }),
{
    let amount: Money = match money(price, "Price") {
        Ok(amount) => amount,
        Err(error) => {
            return Err(error);
        },
    };
    let actor: Session = match require_owner(session) {
        Ok(found) => found,
        Err(error) => {
            return Err(error);
        },
    };
    let change: Result<Change, RepoError> = commissioning::reprice(
        db,
        actor.staff_id,
        sale_item_id,
        amount,
        now,
    );
    refreshed(db, change)
}

} // verus!

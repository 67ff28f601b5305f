//! The shelf, the recipes, the deliveries and the people.

use servepoint::money::{Milli, Money, MoneyError};
use servepoint::repo::{catalogue, purchases, staff, stock};
use servepoint::settings::{keys, SettingRow};
use servepoint::store::Store;

const NOW: i64 = 1_754_000_000_000; // 2025-08-01, mid-evening UTC

struct Bar {
    db: Store,
    owner: i64,
    cashier: i64,
    sara: i64,
    dawit: i64,
    /// Beer: one base unit per pack, sold as a bottle.
    beer: i64,
    beer_bottle: i64,
    /// Gin: 24 shots per bottle, sold as a shot and inside a cocktail.
    gin: i64,
    gin_shot: i64,
    gin_tonic: i64,
    tonic: i64,
}

/// A till with the settings it is shipped with and nothing else in it.
fn fresh() -> Store {
    let mut db = Store::new();
    for (key, value) in [
        (keys::TAX_ENABLED, "0"),
        (keys::TAX_RATE_BP, "1500"),
        (keys::TAX_INCLUSIVE, "0"),
        (keys::SERVICE_ENABLED, "1"),
        (keys::SERVICE_RATE_BP, "1000"),
        (keys::DAY_START, "18:00"),
        (keys::DAY_END, "06:00"),
        (keys::TABS_REFERENCE_MODE, "TABLE"),
        (keys::TABS_AGE_WARNING_DAYS, "7"),
        (keys::TABS_ASK_CUSTOMER_TIN, "0"),
        (keys::COMPS_ENABLED, "0"),
        (keys::PARTIAL_ENABLED, "1"),
        (keys::BANK_ACCOUNTS, ""),
        (keys::QR_ENABLED, "0"),
        (keys::PRINT_REPORT, "0"),
        (keys::PRINT_CUSTOMER_RECEIPT, "1"),
        (keys::SHOW_COST, "0"),
        (keys::BUSINESS_NAME, ""),
        (keys::ADDRESS, ""),
        (keys::PHONE, ""),
        (keys::TIN, ""),
        (keys::FOOTER, ""),
        (keys::CHARS_PER_LINE, "32"),
        (keys::CURRENCY_CODE, ""),
        (keys::ROUNDING, "NONE"),
        (keys::SETUP_COMPLETED, "0"),
    ] {
        db.settings.push(SettingRow {
            key: key.to_owned(),
            value: value.to_owned(),
            updated_at: 0,
            updated_by: None,
        });
    }
    db
}

/// A venue with just enough in it to trade.
fn bar() -> Bar {
    let mut db = fresh();

    let owner = staff_member(&mut db, "OWN-1", "Selam", "OWNER");
    let cashier = staff_member(&mut db, "CSH-1", "Abel", "CASHIER");
    let sara = staff_member(&mut db, "WTR-1", "Sara", "WAITER");
    let dawit = staff_member(&mut db, "WTR-2", "Dawit", "WAITER");

    let beer = product(&mut db, "P-BEER", "Beer", "BOTTLE", 1_000);
    let gin = product(&mut db, "P-GIN", "Gin", "SHOT", 24_000);
    let tonic = product(&mut db, "P-TONIC", "Tonic", "BOTTLE", 1_000);

    let beer_bottle = sale_item(&mut db, "S-BEER", "Beer", "Bottles", 5_000);
    let gin_shot = sale_item(&mut db, "S-GIN", "Gin shot", "Shots", 8_000);
    let gin_tonic = sale_item(&mut db, "S-GT", "Gin & Tonic", "Cocktails", 15_000);

    recipe(&mut db, beer_bottle, &[(beer, 1_000)]);
    recipe(&mut db, gin_shot, &[(gin, 1_000)]);
    // Two measures written as two lines, deliberately.
    recipe(
        &mut db,
        gin_tonic,
        &[(gin, 1_000), (gin, 1_000), (tonic, 500)],
    );

    Bar {
        db,
        owner,
        cashier,
        sara,
        dawit,
        beer,
        beer_bottle,
        gin,
        gin_shot,
        gin_tonic,
        tonic,
    }
}

fn staff_member(db: &mut Store, code: &str, name: &str, role: &str) -> i64 {
    let role = staff::Role::parse(role).unwrap();
    let pin = if role.authenticates() {
        Some(("salt", "hash"))
    } else {
        None
    };
    staff::add(db, code, name, role, pin, NOW).unwrap()
}

fn product(db: &mut Store, code: &str, name: &str, unit: &str, per_pack: i64) -> i64 {
    let id = catalogue::add_product(
        db,
        &catalogue::NewProduct {
            code,
            name,
            category: "",
            base_unit: unit,
            base_units_per_pack: Milli::from_thousandths(per_pack),
            units_per_purchase_pack: 1,
            low_stock_threshold: Milli::from_thousandths(3_000),
            tracks_inventory: true,
            destination: "BAR",
            content_measure: "NONE",
            content_per_unit: Milli::zero(),
        },
        NOW,
    )
    .unwrap();
    product_mut(db, id).avg_cost = Money::from_minor(10_000);
    id
}

fn sale_item(db: &mut Store, code: &str, name: &str, category: &str, price: i64) -> i64 {
    let new = catalogue::NewSaleItem {
        code,
        name,
        category,
    };
    let id = catalogue::add_sale_item(db, &new, NOW).unwrap();
    let price_id = db.prices.len() as i64 + 1;
    db.prices.push(catalogue::Price {
        id: price_id,
        sale_item_id: id,
        price: Money::from_minor(price),
        effective_from: NOW,
        effective_to: None,
        created_by: None,
    });
    id
}

fn recipe(db: &mut Store, sale_item_id: i64, lines: &[(i64, i64)]) -> i64 {
    let id = db.recipes.len() as i64 + 1;
    db.recipes.push(catalogue::Recipe {
        id,
        sale_item_id,
        version: 1,
        effective_from: NOW,
        effective_to: None,
        created_by: None,
    });
    for (product_id, quantity) in lines {
        db.recipe_lines.push(catalogue::RecipeLine {
            recipe_id: id,
            product_id: *product_id,
            quantity: Milli::from_thousandths(*quantity),
        });
    }
    id
}

/// Put stock on the shelf without going through a purchase.
fn stock_up(db: &mut Store, product_id: i64, milli: i64, by: i64) {
    stock::post(
        db,
        &stock::Movement::new(
            product_id,
            stock::Kind::StockCorrection,
            Milli::from_thousandths(milli),
            NOW,
            by,
        )
        .because("opening count"),
    )
    .unwrap();
}

fn product_mut(db: &mut Store, id: i64) -> &mut catalogue::Product {
    let row = db.products.iter_mut().find(|row| row.product.id == id);
    &mut row.unwrap().product
}

#[test]
fn stock_on_hand_is_the_sum_of_the_ledger() {
    let mut bar = bar();
    stock_up(&mut bar.db, bar.beer, 24_000, bar.owner);
    stock::post(
        &mut bar.db,
        &stock::Movement::new(
            bar.beer,
            stock::Kind::Damage,
            Milli::from_units(-2),
            NOW,
            bar.owner,
        )
        .because("crate dropped"),
    )
    .unwrap();
    assert_eq!(stock::on_hand(&bar.db, bar.beer).unwrap(), Milli::from_units(22));
}

#[test]
fn a_movement_of_nothing_is_not_an_event() {
    let mut bar = bar();
    let refused = stock::post(
        &mut bar.db,
        &stock::Movement::new(bar.beer, stock::Kind::StockCorrection, Milli::zero(), NOW, bar.owner)
            .because("recount"),
    );
    assert!(refused.is_err());
}

#[test]
fn a_sale_that_increased_stock_is_refused() {
    // The sign is part of the type, not a convention the caller remembers.
    let mut bar = bar();
    let refused = stock::post(
        &mut bar.db,
        &stock::Movement::new(
            bar.beer,
            stock::Kind::Sale,
            Milli::from_units(5),
            NOW,
            bar.owner,
        ).for_order(1),
    );
    assert!(refused.is_err());
}

#[test]
fn damage_and_loss_must_say_why() {
    // Each is somebody asserting a fact the ledger cannot derive.
    let mut bar = bar();
    stock_up(&mut bar.db, bar.beer, 10_000, bar.owner);
    let refused = stock::post(
        &mut bar.db,
        &stock::Movement::new(bar.beer, stock::Kind::Loss, Milli::from_units(-1), NOW, bar.owner),
    );
    assert!(refused.is_err());
}

#[test]
fn a_movement_is_never_edited_or_removed() {
    // If a row here could change, nothing computed from it could be trusted.
    let mut bar = bar();
    stock_up(&mut bar.db, bar.beer, 10_000, bar.owner);
    let first = bar.db.movements[0].clone();

    // Another movement of the same product is added behind it.
    stock_up(&mut bar.db, bar.beer, 99, bar.owner);
    // A refused one leaves no trace at all.
    let refused = stock::post(
        &mut bar.db,
        &stock::Movement::new(bar.beer, stock::Kind::Sale, Milli::from_units(1), NOW, bar.owner),
    );
    assert!(refused.is_err());

    assert_eq!(bar.db.movements.len(), 2);
    assert_eq!(bar.db.movements[0], first);
    assert_eq!(bar.db.movements[0].quantity, Milli::from_thousandths(10_000));
}

#[test]
fn a_short_shelf_reports_every_shortage_not_just_the_first() {
    let mut bar = bar();
    stock_up(&mut bar.db, bar.gin, 1_000, bar.owner);
    // No tonic at all.
    let short = stock::shortages(
        &bar.db,
        &[
            (bar.gin, Milli::from_units(2)),
            (bar.tonic, Milli::from_thousandths(500)),
        ],
    )
    .unwrap();
    assert_eq!(short.len(), 2, "got: {short:?}");
}

#[test]
fn exactly_enough_stock_is_not_a_shortage() {
    let mut bar = bar();
    stock_up(&mut bar.db, bar.gin, 2_000, bar.owner);
    assert!(stock::shortages(&bar.db, &[(bar.gin, Milli::from_units(2))])
        .unwrap()
        .is_empty());
}

#[test]
fn availability_aggregates_duplicate_product_requirements() {
    let mut bar = bar();
    stock_up(&mut bar.db, bar.beer, 1_000, bar.owner);

    let short = stock::shortages(
        &bar.db,
        &[
            (bar.beer, Milli::from_thousandths(750)),
            (bar.beer, Milli::from_thousandths(750)),
        ],
    )
    .unwrap();

    assert_eq!(short.len(), 1);
    assert_eq!(short[0].wanted, Milli::from_thousandths(1_500));
    assert_eq!(short[0].available, Milli::one());
}

#[test]
fn availability_refuses_an_aggregate_that_overflows() {
    let bar = bar();
    let result = stock::shortages(
        &bar.db,
        &[
            (bar.beer, Milli::from_thousandths(i64::MAX)),
            (bar.beer, Milli::one()),
        ],
    );

    assert!(result.is_err());
}

#[test]
fn a_product_nobody_counts_can_never_be_short() {
    let mut bar = bar();
    product_mut(&mut bar.db, bar.beer).tracks_inventory = false;
    assert!(stock::shortages(&bar.db, &[(bar.beer, Milli::from_units(500))])
        .unwrap()
        .is_empty());
}

#[test]
fn low_stock_lists_the_worst_first() {
    let mut bar = bar();
    // Thresholds are 3 units each in the fixture.
    stock_up(&mut bar.db, bar.beer, 3_000, bar.owner); // at the line
    stock_up(&mut bar.db, bar.gin, 1_000, bar.owner); // two under
    stock_up(&mut bar.db, bar.tonic, 50_000, bar.owner); // fine

    let running_out = stock::low(&bar.db).unwrap();
    let names: Vec<&str> = running_out.iter().map(|l| l.name.as_str()).collect();
    assert_eq!(names, ["Gin", "Beer"]);
}

#[test]
fn low_stock_priority_does_not_overflow_at_extreme_ledger_values() {
    let mut bar = bar();
    product_mut(&mut bar.db, bar.gin).low_stock_threshold = Milli::from_thousandths(i64::MAX);
    stock::post(
        &mut bar.db,
        &stock::Movement::new(
            bar.gin,
            stock::Kind::Loss,
            Milli::from_thousandths(i64::MIN),
            NOW,
            bar.owner,
        )
        .because("overflow boundary fixture"),
    )
    .unwrap();

    let running_out = stock::low(&bar.db).unwrap();
    assert_eq!(running_out[0].product_id, bar.gin);
}

#[test]
fn a_shelf_is_valued_at_the_weighted_average() {
    // 4 bottles at a 100.00 average is 400.00.
    let mut bar = bar();
    stock_up(&mut bar.db, bar.beer, 4_000, bar.owner);
    let level = stock::levels(&bar.db)
        .unwrap()
        .into_iter()
        .find(|l| l.product_id == bar.beer)
        .unwrap();
    assert_eq!(level.value().unwrap().minor(), 40_000);
}

#[test]
fn shelf_value_reports_overflow_instead_of_saturating() {
    let level = stock::Level {
        product_id: 1,
        code: "HUGE".into(),
        name: "Impossible shelf".into(),
        category: "Test".into(),
        base_unit: "unit".into(),
        on_hand: Milli::from_thousandths(i64::MAX),
        threshold: Milli::zero(),
        tracks_inventory: true,
        avg_cost: Money::from_minor(i64::MAX),
    };

    assert_eq!(level.value(), Err(MoneyError::Overflow));
}

#[test]
fn the_shortage_message_names_what_is_missing() {
    let short = vec![stock::Shortage {
        product_id: 1,
        name: "Gin".into(),
        wanted: Milli::from_units(2),
        available: Milli::one(),
    }];
    let message = stock::shortage_message(&short);
    assert!(message.contains("Gin"), "got: {message:?}");
    assert!(message.contains("need 2"), "got: {message:?}");
}

#[test]
fn a_beer_expands_to_one_bottle() {
    let bar = bar();
    let item = catalogue::menu_item(&bar.db, bar.beer_bottle).unwrap();
    let consumed = catalogue::expand(&bar.db, item.recipe_id, Milli::from_units(3)).unwrap();
    assert_eq!(consumed.len(), 1);
    assert_eq!(consumed[0].quantity, Milli::from_units(3));
}

#[test]
fn a_recipe_naming_the_same_product_twice_sums_it() {
    let bar = bar();
    let item = catalogue::menu_item(&bar.db, bar.gin_tonic).unwrap();
    let consumed = catalogue::expand(&bar.db, item.recipe_id, Milli::one()).unwrap();

    let gin = consumed.iter().find(|c| c.product_id == bar.gin).unwrap();
    assert_eq!(gin.quantity, Milli::from_units(2), "two measures, not one");
    let tonic = consumed.iter().find(|c| c.product_id == bar.tonic).unwrap();
    assert_eq!(tonic.quantity, Milli::from_thousandths(500));
}

#[test]
fn expansion_scales_with_the_order_quantity() {
    let bar = bar();
    let item = catalogue::menu_item(&bar.db, bar.gin_tonic).unwrap();
    let consumed = catalogue::expand(&bar.db, item.recipe_id, Milli::from_units(4)).unwrap();
    let gin = consumed.iter().find(|c| c.product_id == bar.gin).unwrap();
    assert_eq!(gin.quantity, Milli::from_units(8));
}

#[test]
fn a_fractional_quantity_rounds_half_up() {
    // Half a Gin & Tonic takes half a bottle of tonic: 500 * 500 / 1000
    // is 250 exactly, and the gin is 500 * 2000 / 1000 = 1000.
    let bar = bar();
    let item = catalogue::menu_item(&bar.db, bar.gin_tonic).unwrap();
    let consumed = catalogue::expand(
        &bar.db,
        item.recipe_id,
        Milli::from_thousandths(500),
    )
    .unwrap();
    let tonic = consumed.iter().find(|c| c.product_id == bar.tonic).unwrap();
    assert_eq!(tonic.quantity, Milli::from_thousandths(250));
}

#[test]
fn duplicate_recipe_lines_round_once_after_they_are_aggregated() {
    let mut bar = bar();
    let item = sale_item(&mut bar.db, "S-TINY", "Tiny pour", "Test", 100);
    let recipe = recipe(&mut bar.db, item, &[(bar.gin, 1), (bar.gin, 1)]);

    let consumed = catalogue::expand(&bar.db, recipe, Milli::from_thousandths(500)).unwrap();

    assert_eq!(consumed.len(), 1);
    assert_eq!(consumed[0].quantity, Milli::from_thousandths(1));
}

#[test]
fn an_item_with_no_open_price_is_not_on_the_menu() {
    // Better to be missing from the till than to be ringable at a price
    // nobody set.
    let mut bar = bar();
    for price in bar.db.prices.iter_mut() {
        if price.sale_item_id == bar.gin_shot {
            price.effective_to = Some(NOW);
        }
    }
    let codes: Vec<String> = catalogue::menu(&bar.db)
        .into_iter()
        .map(|m| m.code)
        .collect();
    assert!(!codes.contains(&"S-GIN".to_string()), "got: {codes:?}");
}

#[test]
fn revising_a_recipe_leaves_the_old_version_readable() {
    let mut bar = bar();
    let before = catalogue::menu_item(&bar.db, bar.gin_tonic).unwrap().recipe_id;
    let after = catalogue::revise_recipe(
        &mut bar.db,
        bar.gin_tonic,
        &[(bar.gin, Milli::one()), (bar.tonic, Milli::one())],
        NOW + 1,
        bar.owner,
    )
    .unwrap();

    assert_ne!(before, after);
    let old = catalogue::expand(&bar.db, before, Milli::one()).unwrap();
    let gin = old.iter().find(|c| c.product_id == bar.gin).unwrap();
    assert_eq!(
        gin.quantity,
        Milli::from_units(2),
        "the old version still pours a double"
    );
}

#[test]
fn a_second_open_recipe_version_is_impossible() {
    // Two open versions would make "the current recipe" ambiguous.
    let mut bar = bar();
    for round in 1..=9 {
        catalogue::revise_recipe(
            &mut bar.db,
            bar.beer_bottle,
            &[(bar.beer, Milli::from_units(round))],
            NOW + round,
            bar.owner,
        )
        .unwrap();
        let open = bar
            .db
            .recipes
            .iter()
            .filter(|r| r.sale_item_id == bar.beer_bottle && r.effective_to.is_none())
            .count();
        assert_eq!(open, 1);
    }
}

#[test]
fn zero_quantity_is_refused_rather_than_silently_pouring_nothing() {
    let bar = bar();
    let item = catalogue::menu_item(&bar.db, bar.beer_bottle).unwrap();
    assert!(catalogue::expand(&bar.db, item.recipe_id, Milli::zero()).is_err());
}

#[test]
fn expansion_drops_products_that_do_not_track_inventory() {
    let mut bar = bar();
    product_mut(&mut bar.db, bar.beer).tracks_inventory = false;
    let item = catalogue::menu_item(&bar.db, bar.beer_bottle).unwrap();

    assert!(catalogue::expand(&bar.db, item.recipe_id, Milli::one())
        .unwrap()
        .is_empty());
}

#[test]
fn recipe_version_overflow_is_refused_without_panicking() {
    let mut bar = bar();
    for recipe in bar.db.recipes.iter_mut() {
        if recipe.sale_item_id == bar.beer_bottle && recipe.effective_to.is_none() {
            recipe.effective_to = Some(NOW + 1);
        }
    }
    let newest = bar.db.recipes.len() as i64 + 1;
    bar.db.recipes.push(catalogue::Recipe {
        id: newest,
        sale_item_id: bar.beer_bottle,
        version: i64::MAX,
        effective_from: NOW + 1,
        effective_to: None,
        created_by: Some(bar.owner),
    });

    let result = catalogue::revise_recipe(
        &mut bar.db,
        bar.beer_bottle,
        &[(bar.beer, Milli::one())],
        NOW + 2,
        bar.owner,
    );
    assert!(result.is_err());
}

#[test]
fn repricing_closes_the_old_price_instead_of_editing_it() {
    let mut bar = bar();
    catalogue::reprice(
        &mut bar.db,
        bar.beer_bottle,
        Money::from_minor(6_000),
        NOW + 1,
        bar.owner,
    )
    .unwrap();
    assert_eq!(
        catalogue::menu_item(&bar.db, bar.beer_bottle).unwrap().price.minor(),
        6_000
    );

    let history: i64 = bar.db
        .prices
        .iter()
        .filter(|price| price.sale_item_id == bar.beer_bottle)
        .count() as i64;
    assert_eq!(history, 2, "the old price is kept, not overwritten");
}

fn receive(product: i64, quantity: Milli, cost: Money, bar: &mut Bar) -> i64 {
    let supplier = purchases::house(&mut bar.db, NOW).unwrap();
    let delivery = purchases::open(&mut bar.db, supplier, cost, None, NOW, bar.owner).unwrap();
    let unit = purchases::add_line(&mut bar.db, delivery, product, quantity, cost).unwrap();
    // Re-average BEFORE the movement lands: the old average belongs to the
    // shelf as it stood, and posting first would blend the crate into itself.
    purchases::reaverage(&mut bar.db, product, quantity, cost).unwrap();
    stock::post(
        &mut bar.db,
        &stock::Movement::new(product, stock::Kind::Purchase, quantity, NOW, bar.owner)
            .for_purchase(delivery)
            .costing(unit),
    )
    .unwrap();
    delivery
}

fn cost_of(product: i64, bar: &mut Bar) -> i64 {
    product_mut(&mut bar.db, product).avg_cost.minor()
}

#[test]
fn the_house_supplier_is_created_once_and_reused() {
    let mut bar = bar();
    let first = purchases::house(&mut bar.db, NOW).unwrap();
    let second = purchases::house(&mut bar.db, NOW + 86_400_000).unwrap();
    assert_eq!(first, second);
}

#[test]
fn a_delivery_line_always_agrees_with_its_own_invoice_total() {
    let mut bar = bar();
    receive(bar.beer, Milli::from_units(7), Money::from_minor(10_000), &mut bar);
    assert_eq!(
        stock::on_hand(&bar.db, bar.beer).unwrap(),
        Milli::from_units(7)
    );
}

#[test]
fn the_average_cost_blends_the_old_shelf_with_the_new_crate() {
    // 4 on the shelf at 100.00, then 4 more for 800.00 — an average of 150.00.
    let mut bar = bar();
    stock_up(&mut bar.db, bar.beer, 4_000, bar.owner);
    receive(bar.beer, Milli::from_units(4), Money::from_minor(80_000), &mut bar);
    assert_eq!(cost_of(bar.beer, &mut bar), 15_000);
}

#[test]
fn the_first_delivery_sets_the_cost_outright() {
    // Nothing on the shelf to blend against, so the crate's own rate stands.
    let mut bar = bar();
    receive(bar.gin, Milli::from_units(10), Money::from_minor(50_000), &mut bar);
    assert_eq!(cost_of(bar.gin, &mut bar), 5_000);
}

#[test]
fn a_delivery_may_not_post_the_same_product_twice() {
    let mut bar = bar();
    let supplier = purchases::house(&mut bar.db, NOW).unwrap();
    let delivery = purchases::open(
        &mut bar.db,
        supplier,
        Money::from_minor(10_000),
        None,
        NOW,
        bar.owner,
    )
    .unwrap();
    purchases::add_line(
        &mut bar.db,
        delivery,
        bar.beer,
        Milli::from_units(5),
        Money::from_minor(10_000),
    )
    .unwrap();
    let twice = purchases::add_line(
        &mut bar.db,
        delivery,
        bar.beer,
        Milli::from_units(5),
        Money::from_minor(10_000),
    );
    assert!(twice.is_err());
}

#[test]
fn a_delivery_of_nothing_is_refused() {
    let mut bar = bar();
    assert!(purchases::unit_rate(Money::from_minor(10_000), Milli::zero()).is_err());
    let supplier = purchases::house(&mut bar.db, NOW).unwrap();
    let delivery = purchases::open(
        &mut bar.db,
        supplier,
        Money::zero(),
        None,
        NOW,
        bar.owner,
    )
    .unwrap();
    assert!(
        purchases::add_line(&mut bar.db, delivery, bar.beer, Milli::zero(), Money::zero()).is_err(),
    );
}

#[test]
fn a_delivery_is_never_edited_or_removed() {
    let mut bar = bar();
    receive(bar.beer, Milli::from_units(5), Money::from_minor(10_000), &mut bar);
    let delivery = bar.db.purchases[0].clone();
    let line = bar.db.purchase_lines[0];

    receive(bar.gin, Milli::from_units(1), Money::from_minor(1), &mut bar);
    assert_eq!(bar.db.purchases[0], delivery);
    assert_eq!(bar.db.purchase_lines[0], line);
}

#[test]
fn recent_deliveries_come_back_newest_first() {
    let mut bar = bar();
    receive(bar.beer, Milli::from_units(5), Money::from_minor(10_000), &mut bar);
    let supplier = purchases::house(&mut bar.db, NOW).unwrap();
    let later = purchases::open(
        &mut bar.db,
        supplier,
        Money::from_minor(20_000),
        None,
        NOW + 3_600_000,
        bar.owner,
    )
    .unwrap();
    purchases::add_line(
        &mut bar.db,
        later,
        bar.gin,
        Milli::from_units(24),
        Money::from_minor(20_000),
    )
    .unwrap();

    let history = purchases::recent(&bar.db, 10);
    assert_eq!(history.len(), 2);
    assert_eq!(history[0].product_id, bar.gin);
    assert_eq!(history[1].product_id, bar.beer);
}

#[test]
fn a_waiter_may_not_be_given_a_pin() {
    // A waiter with a PIN implies a login that does not exist, and would
    // put someone who never operates the till into the sign-in list.
    let mut bar = bar();
    let err =
        staff::add(
            &mut bar.db,
            "WTR-9",
            "Hana",
            staff::Role::Waiter,
            Some(("salt", "hash")),
            NOW,
        )
        .unwrap_err();
    assert!(err.message().contains("only owners and cashiers"), "got: {err:?}");
}

#[test]
fn a_cashier_without_a_pin_is_refused() {
    let mut bar = bar();
    let err = staff::add(
        &mut bar.db,
        "CSH-9",
        "Meron",
        staff::Role::Cashier,
        None,
        NOW,
    )
    .unwrap_err();
    assert!(err.message().contains("needs a PIN"), "got: {err:?}");
}

#[test]
fn the_last_owner_cannot_be_taken_off_the_books() {
    let mut bar = bar();
    let err = staff::set_active(&mut bar.db, bar.owner, false, NOW).unwrap_err();
    assert!(err.message().contains("last active owner"), "got: {err:?}");
}

#[test]
fn waiters_are_listed_for_opening_tabs() {
    let bar = bar();
    let found = staff::waiters(&bar.db);
    let names: Vec<&str> = found.iter().map(|p| p.name.as_str()).collect();
    assert_eq!(names, ["Dawit", "Sara"]);
}

#[test]
fn a_deactivated_waiter_disappears_from_the_list_but_not_the_records() {
    let mut bar = bar();
    staff::set_active(&mut bar.db, bar.sara, false, NOW).unwrap();
    assert_eq!(staff::waiters(&bar.db).len(), 1);
    assert_eq!(staff::find(&bar.db, bar.sara).unwrap().name, "Sara");
}

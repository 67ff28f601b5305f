//! What holds across calls, on concrete nights.

use servepoint::ledger::{self, Event};
use servepoint::money::{Milli, Money};
use servepoint::repo::seq::Counter;
use servepoint::repo::{
    cash, catalogue, orders, purchases, receipts, shifts, staff, stock, tabs,
};
use servepoint::report;
use servepoint::settings::{self, keys, SettingRow};
use servepoint::settlement;
use servepoint::store::Store;
use servepoint::trading;

const NOW: i64 = 1_754_000_000_000; // 2025-08-01, mid-evening UTC

struct Bar {
    db: Store,
    owner: i64,
    cashier: i64,
    sara: i64,
    dawit: i64,
    /// Beer: one base unit per pack, sold as a bottle.
    beer: i64,
    beer_bottle: i64,
    /// Gin: 24 shots per bottle, sold as a shot and inside a cocktail.
    gin: i64,
    gin_shot: i64,
    gin_tonic: i64,
    tonic: i64,
}

/// A till with the settings it is shipped with and nothing else in it.
fn fresh() -> Store {
    let mut db = Store::new();
    for (key, value) in [
        (keys::TAX_ENABLED, "0"),
        (keys::TAX_RATE_BP, "1500"),
        (keys::TAX_INCLUSIVE, "0"),
        (keys::SERVICE_ENABLED, "1"),
        (keys::SERVICE_RATE_BP, "1000"),
        (keys::DAY_START, "18:00"),
        (keys::DAY_END, "06:00"),
        (keys::TABS_REFERENCE_MODE, "TABLE"),
        (keys::TABS_AGE_WARNING_DAYS, "7"),
        (keys::TABS_ASK_CUSTOMER_TIN, "0"),
        (keys::COMPS_ENABLED, "0"),
        (keys::PARTIAL_ENABLED, "1"),
        (keys::BANK_ACCOUNTS, ""),
        (keys::QR_ENABLED, "0"),
        (keys::PRINT_REPORT, "0"),
        (keys::PRINT_CUSTOMER_RECEIPT, "1"),
        (keys::SHOW_COST, "0"),
        (keys::BUSINESS_NAME, ""),
        (keys::ADDRESS, ""),
        (keys::PHONE, ""),
        (keys::TIN, ""),
        (keys::FOOTER, ""),
        (keys::CHARS_PER_LINE, "32"),
        (keys::CURRENCY_CODE, ""),
        (keys::ROUNDING, "NONE"),
        (keys::SETUP_COMPLETED, "0"),
    ] {
        db.settings.push(SettingRow {
            key: key.to_owned(),
            value: value.to_owned(),
            updated_at: 0,
            updated_by: None,
        });
    }
    db
}

/// A venue with just enough in it to trade.
fn bar() -> Bar {
    let mut db = fresh();

    let owner = staff_member(&mut db, "OWN-1", "Selam", "OWNER");
    let cashier = staff_member(&mut db, "CSH-1", "Abel", "CASHIER");
    let sara = staff_member(&mut db, "WTR-1", "Sara", "WAITER");
    let dawit = staff_member(&mut db, "WTR-2", "Dawit", "WAITER");

    let beer = product(&mut db, "P-BEER", "Beer", "BOTTLE", 1_000);
    let gin = product(&mut db, "P-GIN", "Gin", "SHOT", 24_000);
    let tonic = product(&mut db, "P-TONIC", "Tonic", "BOTTLE", 1_000);

    let beer_bottle = sale_item(&mut db, "S-BEER", "Beer", "Bottles", 5_000);
    let gin_shot = sale_item(&mut db, "S-GIN", "Gin shot", "Shots", 8_000);
    let gin_tonic = sale_item(&mut db, "S-GT", "Gin & Tonic", "Cocktails", 15_000);

    recipe(&mut db, beer_bottle, &[(beer, 1_000)]);
    recipe(&mut db, gin_shot, &[(gin, 1_000)]);
    // Two measures written as two lines, deliberately.
    recipe(
        &mut db,
        gin_tonic,
        &[(gin, 1_000), (gin, 1_000), (tonic, 500)],
    );

    Bar {
        db,
        owner,
        cashier,
        sara,
        dawit,
        beer,
        beer_bottle,
        gin,
        gin_shot,
        gin_tonic,
        tonic,
    }
}

fn staff_member(db: &mut Store, code: &str, name: &str, role: &str) -> i64 {
    let role = staff::Role::parse(role).unwrap();
    let pin = if role.authenticates() {
        Some(("salt", "hash"))
    } else {
        None
    };
    staff::add(db, code, name, role, pin, NOW).unwrap()
}

fn product(db: &mut Store, code: &str, name: &str, unit: &str, per_pack: i64) -> i64 {
    let id = catalogue::add_product(
        db,
        &catalogue::NewProduct {
            code,
            name,
            category: "",
            base_unit: unit,
            base_units_per_pack: Milli::from_thousandths(per_pack),
            units_per_purchase_pack: 1,
            low_stock_threshold: Milli::from_thousandths(3_000),
            tracks_inventory: true,
            destination: "BAR",
            content_measure: "NONE",
            content_per_unit: Milli::zero(),
        },
        NOW,
    )
    .unwrap();
    product_mut(db, id).avg_cost = Money::from_minor(10_000);
    id
}

fn sale_item(db: &mut Store, code: &str, name: &str, category: &str, price: i64) -> i64 {
    let new = catalogue::NewSaleItem {
        code,
        name,
        category,
    };
    let id = catalogue::add_sale_item(db, &new, NOW).unwrap();
    let price_id = db.prices.len() as i64 + 1;
    db.prices.push(catalogue::Price {
        id: price_id,
        sale_item_id: id,
        price: Money::from_minor(price),
        effective_from: NOW,
        effective_to: None,
        created_by: None,
    });
    id
}

fn recipe(db: &mut Store, sale_item_id: i64, lines: &[(i64, i64)]) -> i64 {
    let id = db.recipes.len() as i64 + 1;
    db.recipes.push(catalogue::Recipe {
        id,
        sale_item_id,
        version: 1,
        effective_from: NOW,
        effective_to: None,
        created_by: None,
    });
    for (product_id, quantity) in lines {
        db.recipe_lines.push(catalogue::RecipeLine {
            recipe_id: id,
            product_id: *product_id,
            quantity: Milli::from_thousandths(*quantity),
        });
    }
    id
}

/// Put stock on the shelf without going through a purchase.
fn stock_up(db: &mut Store, product_id: i64, milli: i64, by: i64) {
    stock::post(
        db,
        &stock::Movement::new(
            product_id,
            stock::Kind::StockCorrection,
            Milli::from_thousandths(milli),
            NOW,
            by,
        )
        .because("opening count"),
    )
    .unwrap();
}

fn product_mut(db: &mut Store, id: i64) -> &mut catalogue::Product {
    let row = db.products.iter_mut().find(|row| row.product.id == id);
    &mut row.unwrap().product
}

fn open_recipe(db: &Store, sale_item_id: i64) -> i64 {
    db.recipes
        .iter()
        .find(|recipe| recipe.sale_item_id == sale_item_id && recipe.effective_to.is_none())
        .unwrap()
        .id
}

fn audited(db: &Store, action: &str, order: i64) -> i64 {
    db.audit
        .iter()
        .filter(|entry| {
            entry.action == action
                && entry.entity_type == "order"
                && entry.entity_id == Some(order)
        })
        .count() as i64
}

fn sales_of(db: &Store, order: i64) -> i64 {
    db.movements
        .iter()
        .filter(|m| m.order_id == Some(order) && m.kind == stock::Kind::Sale)
        .count() as i64
}

struct Floor {
    bar: Bar,
    shift_id: i64,
    tab_id: i64,
}

/// A night that trades, with one tab open at table 7.
fn floor(beers: i64) -> Floor {
    let mut bar = bar();
    stock_up(&mut bar.db, bar.beer, beers * 1_000, bar.owner);
    let shift = shifts::open(
        &mut bar.db,
        &shifts::NewShift {
            business_date: "2025-08-01",
            opened_at: NOW,
            opened_by: bar.cashier,
            opening_float: Money::from_minor(10_000),
            expected_end_at: NOW + 43_200_000,
        },
    )
    .unwrap();
    let tab = tabs::open(
        &mut bar.db,
        &tabs::NewTab {
            opened_shift_id: shift.id,
            waiter_id: bar.sara,
            reference: tabs::Reference::table("7"),
            opened_at: NOW,
            opened_by: bar.cashier,
        },
    )
    .unwrap();
    Floor {
        bar,
        shift_id: shift.id,
        tab_id: tab.id,
    }
}

fn beers(floor: &mut Floor, count: i64) -> i64 {
    let order = orders::create(
        &mut floor.bar.db,
        orders::NewDraft {
            tab_id: floor.tab_id,
            shift_id: floor.shift_id,
            cashier_id: floor.bar.cashier,
            created_at: NOW,
        },
    )
    .unwrap();
    let bottle = floor.bar.beer_bottle;
    orders::add_line(
        &mut floor.bar.db,
        order.id,
        bottle,
        Milli::from_units(count),
    )
    .unwrap();
    order.id
}

fn close(floor: &mut Floor, comp_reason: Option<&str>) -> settlement::ClosedTab {
    settlement::close_tab(
        &mut floor.bar.db,
        &settlement::CloseTab {
            tab_id: floor.tab_id,
            shift_id: floor.shift_id,
            cashier_id: floor.bar.cashier,
            comp_reason,
            customer_tin: None,
            closed_at: NOW + 5,
        },
    )
    .unwrap()
}

#[test]
fn what_is_printing_stays_on_the_shelf_for_it() {
    let mut floor = floor(3);
    let cashier = floor.bar.cashier;
    let first = beers(&mut floor, 2);
    let second = beers(&mut floor, 2);
    let third = beers(&mut floor, 1);

    trading::prepare_issue(&mut floor.bar.db, first, cashier, NOW + 1).unwrap();
    // Three stand on the shelf, but two of them are spoken for.
    let refused =
        trading::prepare_issue(&mut floor.bar.db, second, cashier, NOW + 1).unwrap_err();
    assert!(refused.message().contains("Beer"), "{refused:?}");
    trading::prepare_issue(&mut floor.bar.db, third, cashier, NOW + 1).unwrap();

    trading::confirm_issued(&mut floor.bar.db, first, cashier, NOW + 2).unwrap();
    assert_eq!(
        stock::on_hand(&floor.bar.db, floor.bar.beer).unwrap(),
        Milli::one()
    );
    trading::confirm_issued(&mut floor.bar.db, third, cashier, NOW + 2).unwrap();
    assert_eq!(
        stock::on_hand(&floor.bar.db, floor.bar.beer).unwrap(),
        Milli::zero()
    );
}

#[test]
fn an_issue_is_written_down_once_however_often_it_is_asked_for() {
    let mut floor = floor(5);
    let cashier = floor.bar.cashier;
    let order = beers(&mut floor, 1);
    trading::prepare_issue(&mut floor.bar.db, order, cashier, NOW + 1).unwrap();
    trading::confirm_issued(&mut floor.bar.db, order, cashier, NOW + 2).unwrap();
    let again = trading::confirm_issued(&mut floor.bar.db, order, cashier, NOW + 3).unwrap();
    assert_eq!(again.order.issued_at, Some(NOW + 2));
    assert_eq!(sales_of(&floor.bar.db, order), 1);
    assert_eq!(audited(&floor.bar.db, "ORDER_ISSUED", order), 1);
}

#[test]
fn a_print_that_never_came_out_is_given_up_once() {
    let mut floor = floor(5);
    let cashier = floor.bar.cashier;
    let order = beers(&mut floor, 1);
    trading::prepare_issue(&mut floor.bar.db, order, cashier, NOW + 1).unwrap();
    let draft = trading::confirm_non_print(&mut floor.bar.db, order, cashier, NOW + 2).unwrap();
    assert_eq!(draft.status, orders::Status::Draft);
    trading::confirm_non_print(&mut floor.bar.db, order, cashier, NOW + 3).unwrap();
    assert_eq!(audited(&floor.bar.db, "PRINT_ABANDONED", order), 1);

    // The draft can be printed again, under a number of its own.
    let retried = trading::prepare_issue(&mut floor.bar.db, order, cashier, NOW + 4).unwrap();
    assert_eq!(retried.receipts[0].receipt_number, "BR-000002");
    let done = trading::confirm_issued(&mut floor.bar.db, order, cashier, NOW + 5).unwrap();
    assert_eq!(done.order.status, orders::Status::Issued);
    assert_eq!(sales_of(&floor.bar.db, order), 1);
    let ended: Vec<(&str, receipts::Status)> = floor
        .bar
        .db
        .receipts
        .iter()
        .map(|slip| (slip.receipt_number.as_str(), slip.status))
        .collect();
    assert_eq!(
        ended,
        [
            ("BR-000001", receipts::Status::Void),
            ("BR-000002", receipts::Status::Printed)
        ]
    );
}

#[test]
fn only_the_cashier_who_rang_a_draft_may_issue_it() {
    let mut floor = floor(5);
    let other = staff_member(&mut floor.bar.db, "CSH-2", "Meron", "CASHIER");
    let order = beers(&mut floor, 1);
    let refused = trading::prepare_issue(&mut floor.bar.db, order, other, NOW + 1).unwrap_err();
    assert_eq!(
        refused.message(),
        "only the cashier who rang the draft may issue it"
    );
}

#[test]
fn closing_a_tab_charges_the_waiter_and_leaves_the_drawer_alone() {
    let mut floor = floor(5);
    let cashier = floor.bar.cashier;
    let order = beers(&mut floor, 1);
    trading::prepare_issue(&mut floor.bar.db, order, cashier, NOW + 1).unwrap();
    trading::confirm_issued(&mut floor.bar.db, order, cashier, NOW + 2).unwrap();

    let closed = close(&mut floor, None);
    assert_eq!(closed.payment.liability, Money::from_minor(5_500));
    assert_eq!(
        cash::held_balance(&floor.bar.db, floor.bar.sara).unwrap(),
        Money::from_minor(5_500)
    );
    assert_eq!(
        cash::held_balance(&floor.bar.db, floor.bar.dawit).unwrap(),
        Money::zero()
    );
    assert_eq!(
        cash::expected_cash(&floor.bar.db, floor.shift_id).unwrap(),
        Money::from_minor(10_000)
    );

    // It closes once.
    let again = settlement::close_tab(
        &mut floor.bar.db,
        &settlement::CloseTab {
            tab_id: floor.tab_id,
            shift_id: floor.shift_id,
            cashier_id: cashier,
            comp_reason: None,
            customer_tin: None,
            closed_at: NOW + 6,
        },
    );
    assert_eq!(
        again.unwrap_err().message(),
        "only an open tab can be closed"
    );
}

#[test]
fn a_complimentary_tab_owes_nothing() {
    let mut floor = floor(5);
    let cashier = floor.bar.cashier;
    settings::put(&mut floor.bar.db, keys::COMPS_ENABLED, "1", None, NOW).unwrap();
    let order = beers(&mut floor, 1);
    trading::prepare_issue(&mut floor.bar.db, order, cashier, NOW + 1).unwrap();
    trading::confirm_issued(&mut floor.bar.db, order, cashier, NOW + 2).unwrap();

    let closed = close(&mut floor, Some("birthday"));
    assert_eq!(closed.payment.total, Money::from_minor(5_500));
    assert_eq!(closed.payment.liability, Money::zero());
    assert_eq!(
        cash::held_balance(&floor.bar.db, floor.bar.sara).unwrap(),
        Money::zero()
    );
}

#[test]
fn a_movement_moves_one_shelf_and_no_other() {
    let mut bar = bar();
    stock_up(&mut bar.db, bar.beer, 4_000, bar.owner);
    stock::post(
        &mut bar.db,
        &stock::Movement::new(
            bar.beer,
            stock::Kind::Damage,
            Milli::from_thousandths(-500),
            NOW,
            bar.owner,
        )
        .because("dropped"),
    )
    .unwrap();
    assert_eq!(
        stock::on_hand(&bar.db, bar.beer).unwrap(),
        Milli::from_thousandths(3_500)
    );
    assert_eq!(stock::on_hand(&bar.db, bar.gin).unwrap(), Milli::zero());
}

#[test]
fn a_revision_leaves_what_was_sold_alone() {
    let mut bar = bar();
    let old = open_recipe(&bar.db, bar.beer_bottle);
    let before = catalogue::expand(&bar.db, old, Milli::one()).unwrap();
    let new = catalogue::revise_recipe(
        &mut bar.db,
        bar.beer_bottle,
        &[(bar.beer, Milli::from_units(2))],
        NOW + 1,
        bar.owner,
    )
    .unwrap();
    assert_eq!(open_recipe(&bar.db, bar.beer_bottle), new);
    assert_eq!(
        catalogue::expand(&bar.db, old, Milli::one()).unwrap(),
        before
    );
    let drawn = catalogue::expand(&bar.db, new, Milli::one()).unwrap();
    assert_eq!(drawn[0].quantity, Milli::from_units(2));
}

#[test]
fn a_new_price_is_the_price() {
    let mut bar = bar();
    catalogue::reprice(
        &mut bar.db,
        bar.beer_bottle,
        Money::from_minor(6_000),
        NOW + 1,
        bar.owner,
    )
    .unwrap();
    let item = catalogue::menu_item(&bar.db, bar.beer_bottle).unwrap();
    assert_eq!(item.price, Money::from_minor(6_000));
}

#[test]
fn an_even_measure_reads_back_as_it_was_poured() {
    let bottle = Milli::from_units(750);
    let poured = Milli::from_units(30);
    let units = catalogue::measure_to_units(poured, bottle).unwrap();
    assert_eq!(units, Milli::from_thousandths(40));
    assert_eq!(catalogue::units_to_measure(units, bottle), poured);
}

#[test]
fn an_empty_shelf_takes_the_crates_own_rate() {
    let mut bar = bar();
    let rate = purchases::reaverage(
        &mut bar.db,
        bar.beer,
        Milli::from_units(24),
        Money::from_minor(48_000),
    )
    .unwrap();
    assert_eq!(rate, Money::from_minor(2_000));
    // Half as much again, at twice the rate, pulls the average up.
    stock_up(&mut bar.db, bar.beer, 24_000, bar.owner);
    let rate = purchases::reaverage(
        &mut bar.db,
        bar.beer,
        Milli::from_units(12),
        Money::from_minor(48_000),
    )
    .unwrap();
    assert_eq!(rate, Money::from_minor(2_667));
}

#[test]
fn the_house_supplies_every_delivery() {
    let mut bar = bar();
    let house = purchases::house(&mut bar.db, NOW).unwrap();
    assert_eq!(purchases::house(&mut bar.db, NOW + 1).unwrap(), house);
    assert_eq!(bar.db.suppliers.len(), 1);
}

#[test]
fn the_last_owner_stays() {
    let mut bar = bar();
    assert!(staff::set_active(&mut bar.db, bar.owner, false, NOW).is_err());
    let second = staff_member(&mut bar.db, "OWN-2", "Hanna", "OWNER");
    staff::set_active(&mut bar.db, bar.owner, false, NOW).unwrap();
    assert!(staff::set_active(&mut bar.db, second, false, NOW).is_err());
}

#[test]
fn one_label_names_one_open_tab() {
    let mut floor = floor(1);
    let refused = tabs::open(
        &mut floor.bar.db,
        &tabs::NewTab {
            opened_shift_id: floor.shift_id,
            waiter_id: floor.bar.dawit,
            reference: tabs::Reference::table("7"),
            opened_at: NOW + 1,
            opened_by: floor.bar.cashier,
        },
    );
    assert!(refused.is_err());
}

#[test]
fn a_night_has_a_date_of_the_calendar_and_trades_once() {
    let mut bar = bar();
    let night = |date: &'static str, at: i64, cashier: i64| shifts::NewShift {
        business_date: date,
        opened_at: at,
        opened_by: cashier,
        opening_float: Money::zero(),
        expected_end_at: at + 1_000,
    };
    assert!(shifts::open(&mut bar.db, &night("2025-02-30", NOW, bar.cashier)).is_err());
    let first = shifts::open(&mut bar.db, &night("2025-07-31", NOW, bar.cashier)).unwrap();
    shifts::begin_closing(&mut bar.db, first.id, bar.cashier).unwrap();
    shifts::close(&mut bar.db, first.id, Money::zero(), bar.cashier, NOW + 1).unwrap();
    assert!(shifts::open(&mut bar.db, &night("2025-07-31", NOW + 2, bar.cashier)).is_err());
    shifts::open(&mut bar.db, &night("2025-08-01", NOW + 2, bar.cashier)).unwrap();
}

#[test]
fn a_reason_is_kept_without_the_blanks_around_it() {
    let mut floor = floor(1);
    tabs::transfer(
        &mut floor.bar.db,
        &tabs::Transfer {
            tab_id: floor.tab_id,
            to_waiter_id: floor.bar.dawit,
            shift_id: floor.shift_id,
            transferred_at: NOW + 1,
            transferred_by: floor.bar.cashier,
            reason: " \tend of her shift\u{a0}\n",
        },
    )
    .unwrap();
    assert_eq!(floor.bar.db.transfers[0].reason, "end of her shift");

    let blank = cash::record_adjustment(
        &mut floor.bar.db,
        floor.shift_id,
        Money::from_minor(1),
        " \t ",
        floor.bar.cashier,
        NOW + 1,
    );
    assert!(blank.is_err());
}

#[test]
fn a_setting_reads_back_as_it_was_written() {
    let mut db = fresh();
    settings::put(&mut db, keys::BUSINESS_NAME, "Addis Nights", None, NOW).unwrap();
    let loaded = settings::Settings::load(&db);
    assert_eq!(loaded.text(keys::BUSINESS_NAME), "Addis Nights");
    assert_eq!(loaded.text(keys::DAY_START), "18:00");
}

#[test]
fn trading_hours_that_cannot_be_read_are_an_error() {
    let mut db = fresh();
    for row in db.settings.iter_mut() {
        if row.key == keys::DAY_END {
            row.value = "dawn".to_owned();
        }
    }
    assert!(matches!(
        settings::Settings::load(&db).calendar(),
        Err(settings::SettingsError::BadCalendar(_))
    ));
}

#[test]
fn a_count_over_the_drawer_is_over_and_not_short() {
    let mut floor = floor(1);
    let cashier = floor.bar.cashier;
    let order = beers(&mut floor, 1);
    trading::prepare_issue(&mut floor.bar.db, order, cashier, NOW + 1).unwrap();
    trading::confirm_issued(&mut floor.bar.db, order, cashier, NOW + 2).unwrap();
    close(&mut floor, None);
    let draft = cash::create_reconciliation(
        &mut floor.bar.db,
        &cash::NewReconciliation {
            waiter_id: floor.bar.sara,
            cashier_id: cashier,
            expected: Money::from_minor(5_500),
            cash: Money::from_minor(5_500),
            non_cash: Money::zero(),
            written_off: Money::zero(),
            write_off_reason: None,
            shift_id: floor.shift_id,
            created_at: NOW + 6,
        },
    )
    .unwrap();
    cash::allocate_tab(&mut floor.bar.db, draft.id, floor.tab_id, cashier).unwrap();
    // A draft settles nothing yet.
    assert_eq!(
        cash::held_balance(&floor.bar.db, floor.bar.sara).unwrap(),
        Money::from_minor(5_500)
    );
    cash::finalize_reconciliation(&mut floor.bar.db, draft.id, cashier, NOW + 7).unwrap();
    shifts::begin_closing(&mut floor.bar.db, floor.shift_id, cashier).unwrap();
    shifts::close(
        &mut floor.bar.db,
        floor.shift_id,
        Money::from_minor(15_600),
        cashier,
        NOW + 8,
    )
    .unwrap();
    let clocks = report::Clocks {
        opened_at: "18:00",
        closed_at: "03:30",
    };
    let night = report::compile(&floor.bar.db, floor.shift_id, clocks).unwrap();
    assert!(night.over && !night.balanced);
    assert_eq!(night.variance, "1.00");
    assert_eq!(night.expected_cash, "155.00");
    let paper = report::render(&night);
    assert!(paper.contains("OVER: 1.00"), "{paper}");
    assert!(!paper.contains("SHORT"));
}

#[test]
fn there_is_always_one_more_number_until_there_is_not() {
    let mut db = fresh();
    db.sequences.tab = i64::MAX;
    let refused = servepoint::repo::seq::next(&mut db, Counter::Tab);
    assert!(refused.is_err());
    assert_eq!(db.sequences.peek(Counter::Tab), i64::MAX);
    assert_eq!(
        servepoint::repo::seq::next(&mut db, Counter::Shift).unwrap(),
        (1, "SHIFT-000001".to_owned())
    );
}

#[test]
fn a_drink_says_what_it_pours_and_where_it_still_sits() {
    let mut floor = floor(5);
    assert_eq!(
        catalogue::poured_into(&floor.bar.db, floor.bar.beer).as_deref(),
        Some("Beer")
    );
    assert!(!catalogue::on_an_open_tab(
        &floor.bar.db,
        floor.bar.beer_bottle
    ));
    beers(&mut floor, 1);
    assert!(catalogue::on_an_open_tab(
        &floor.bar.db,
        floor.bar.beer_bottle
    ));
    catalogue::set_sale_item_active(&mut floor.bar.db, floor.bar.beer_bottle, false).unwrap();
    assert_eq!(
        catalogue::poured_into(&floor.bar.db, floor.bar.beer),
        None
    );
    assert_eq!(catalogue::every_product(&floor.bar.db).len(), 3);
}

#[test]
fn a_twin_is_found_from_its_product() {
    let mut bar = bar();
    assert_eq!(catalogue::twin_of(&bar.db, bar.beer), None);
    catalogue::link_twin(&mut bar.db, bar.beer_bottle, bar.beer).unwrap();
    assert_eq!(
        catalogue::twin_of(&bar.db, bar.beer),
        Some(bar.beer_bottle)
    );
    assert!(catalogue::link_twin(&mut bar.db, 9_999, bar.gin).is_err());
}

#[test]
fn unresolved_paper_is_work_for_recovery() {
    let mut floor = floor(5);
    let cashier = floor.bar.cashier;
    assert!(shifts::recovery_complete(&floor.bar.db));
    let order = beers(&mut floor, 1);
    trading::prepare_issue(&mut floor.bar.db, order, cashier, NOW + 1).unwrap();
    assert!(!shifts::recovery_complete(&floor.bar.db));
    trading::authorize_handwritten(&mut floor.bar.db, order, cashier, NOW + 2).unwrap();
    assert!(shifts::recovery_complete(&floor.bar.db));
}

#[test]
fn a_night_without_a_date_is_refused() {
    let mut bar = bar();
    let night = shifts::NewShift {
        business_date: "tonight",
        opened_at: NOW,
        opened_by: bar.cashier,
        opening_float: Money::zero(),
        expected_end_at: NOW + 1_000,
    };
    let refused = shifts::open_dated(&mut bar.db, &night, false).unwrap_err();
    assert_eq!(
        refused.message(),
        "a business date must be written as YYYY-MM-DD"
    );
    assert_eq!(bar.db.shifts.len(), 0);
}

#[test]
fn a_replacement_that_never_printed_lets_its_original_go() {
    let mut floor = floor(5);
    let cashier = floor.bar.cashier;
    let order = beers(&mut floor, 1);
    trading::prepare_issue(&mut floor.bar.db, order, cashier, NOW + 1).unwrap();
    trading::confirm_issued(&mut floor.bar.db, order, cashier, NOW + 2).unwrap();
    let replacement =
        orders::create_replacement(&mut floor.bar.db, order, cashier, NOW + 3).unwrap();
    assert_eq!(replacement.replaces_order_id, Some(order));
    orders::detach_replacement(&mut floor.bar.db, replacement.id).unwrap();
    let released = orders::find(&floor.bar.db, replacement.id).unwrap();
    assert_eq!(released.replaces_order_id, None);
    assert!(orders::detach_replacement(&mut floor.bar.db, replacement.id).is_err());
}

#[test]
fn the_audit_log_keeps_what_it_is_told_in_order() {
    let mut db = fresh();
    let event = Event::new("PRICE_CHANGED", "sale_item", NOW)
        .about(7)
        .changed("price=1", "price=2")
        .done_by(3)
        .during(Some(4));
    assert_eq!(ledger::append(&mut db, &event).unwrap(), 1);
    let note = Event::new("NOTE", "venue", NOW + 1).recording("quiet");
    assert_eq!(ledger::append(&mut db, &note).unwrap(), 2);
    let first = &db.audit[0];
    assert_eq!(first.entity_id, Some(7));
    assert_eq!(first.old_value.as_deref(), Some("price=1"));
    assert_eq!(first.new_value.as_deref(), Some("price=2"));
    assert_eq!((first.staff_id, first.shift_id), (Some(3), Some(4)));
    assert_eq!(db.audit[1].new_value.as_deref(), Some("quiet"));
    assert_eq!(db.audit[1].old_value, None);
}

#[test]
fn what_never_printed_is_free_for_somebody_else() {
    let mut floor = floor(3);
    let cashier = floor.bar.cashier;
    let first = beers(&mut floor, 2);
    let second = beers(&mut floor, 3);
    trading::prepare_issue(&mut floor.bar.db, first, cashier, NOW + 1).unwrap();
    assert!(trading::prepare_issue(&mut floor.bar.db, second, cashier, NOW + 2).is_err());
    trading::confirm_non_print(&mut floor.bar.db, first, cashier, NOW + 3).unwrap();
    trading::prepare_issue(&mut floor.bar.db, second, cashier, NOW + 4).unwrap();
}

#[test]
fn the_ledgers_only_grow() {
    let mut floor = floor(5);
    let cashier = floor.bar.cashier;
    let order = beers(&mut floor, 1);
    let (moved, cash_then, audit_then) = (
        floor.bar.db.movements.clone(),
        floor.bar.db.cash.clone(),
        floor.bar.db.audit.clone(),
    );
    trading::prepare_issue(&mut floor.bar.db, order, cashier, NOW + 1).unwrap();
    trading::confirm_issued(&mut floor.bar.db, order, cashier, NOW + 2).unwrap();
    close(&mut floor, None);
    cash::record_payout(
        &mut floor.bar.db,
        floor.shift_id,
        Money::from_minor(100),
        "supplies",
        "ice",
        cashier,
        NOW + 6,
    )
    .unwrap();
    let db = &floor.bar.db;
    assert_eq!(db.movements[..moved.len()], moved[..]);
    assert_eq!(db.movements.len(), moved.len() + 1);
    assert_eq!(db.cash[..cash_then.len()], cash_then[..]);
    assert_eq!(db.cash.len(), cash_then.len() + 1);
    assert_eq!(db.audit[..audit_then.len()], audit_then[..]);
}

#[test]
fn a_tab_is_billed_once_and_the_answer_carries_that_bill() {
    let mut floor = floor(5);
    let cashier = floor.bar.cashier;
    let order = beers(&mut floor, 1);
    trading::prepare_issue(&mut floor.bar.db, order, cashier, NOW + 1).unwrap();
    trading::confirm_issued(&mut floor.bar.db, order, cashier, NOW + 2).unwrap();
    assert!(cash::payment_for_tab(&floor.bar.db, floor.tab_id).is_err());
    let closed = close(&mut floor, None);
    assert_eq!(floor.bar.db.payments.last(), Some(&closed.payment));
    let own = floor
        .bar
        .db
        .payments
        .iter()
        .filter(|bill| bill.tab_id == floor.tab_id)
        .count();
    assert_eq!(own, 1);
}

#[test]
fn a_list_is_in_order_and_level_rows_stay_as_written() {
    let mut db = fresh();
    let wine = product(&mut db, "P-1", "Wine", "BOTTLE", 1_000);
    let first = product(&mut db, "P-2", "Ale", "BOTTLE", 1_000);
    let second = product(&mut db, "P-3", "Ale", "BOTTLE", 1_000);
    let listed: Vec<i64> = catalogue::every_product(&db)
        .iter()
        .map(|product| product.id)
        .collect();
    assert_eq!(listed, [first, second, wine]);
}

#[test]
fn a_write_answers_with_what_was_read_before() {
    let mut db = fresh();
    let before = settings::Settings::load(&db);
    let replaced = settings::put(&mut db, keys::DAY_START, "17:30", None, NOW).unwrap();
    assert_eq!(replaced, before.text(keys::DAY_START));
    let after = settings::Settings::load(&db);
    assert_eq!(after.text(keys::DAY_START), "17:30");
    for entry in before.iter() {
        if entry.key != keys::DAY_START {
            assert_eq!(after.text(&entry.key), entry.value);
        }
    }
    assert_eq!(settings::Settings::default().text(keys::DAY_START), "");
}

#[test]
fn only_a_draft_is_added_to() {
    let mut floor = floor(5);
    let cashier = floor.bar.cashier;
    let bottle = floor.bar.beer_bottle;
    let order = beers(&mut floor, 1);
    let refusal = "only a draft can be given another line";

    trading::prepare_issue(&mut floor.bar.db, order, cashier, NOW + 1).unwrap();
    let printing =
        orders::add_line(&mut floor.bar.db, order, bottle, Milli::one()).unwrap_err();
    assert_eq!(printing.message(), refusal);

    trading::confirm_issued(&mut floor.bar.db, order, cashier, NOW + 2).unwrap();
    let sold = orders::lines(&floor.bar.db, order);
    let issued = orders::add_line(&mut floor.bar.db, order, bottle, Milli::one()).unwrap_err();
    assert_eq!(issued.message(), refusal);
    assert_eq!(orders::lines(&floor.bar.db, order), sold);

    // What cannot be totalled is told first; an order that is not there takes
    // nothing either.
    let nothing = orders::add_line(&mut floor.bar.db, order, bottle, Milli::zero()).unwrap_err();
    assert_eq!(
        nothing.message(),
        "an order-line quantity must be greater than zero"
    );
    let absent = orders::add_line(&mut floor.bar.db, 99, bottle, Milli::one()).unwrap_err();
    assert_eq!(absent.message(), refusal);
    assert_eq!(floor.bar.db.order_lines.len(), 1);
}

#[test]
fn a_replacement_takes_lines_until_it_prints() {
    let mut floor = floor(5);
    let cashier = floor.bar.cashier;
    let order = beers(&mut floor, 2);
    trading::prepare_issue(&mut floor.bar.db, order, cashier, NOW + 1).unwrap();
    trading::confirm_issued(&mut floor.bar.db, order, cashier, NOW + 2).unwrap();
    let original = orders::lines(&floor.bar.db, order).remove(0);

    let replacement =
        orders::create_replacement(&mut floor.bar.db, order, cashier, NOW + 3).unwrap();
    let copied = orders::add_line_from_original(
        &mut floor.bar.db,
        replacement.id,
        original.id,
        Milli::one(),
    )
    .unwrap();
    assert_eq!(copied.unit_price, original.unit_price);
    trading::prepare_issue(&mut floor.bar.db, replacement.id, cashier, NOW + 4).unwrap();
    let refused = orders::add_line_from_original(
        &mut floor.bar.db,
        replacement.id,
        original.id,
        Milli::one(),
    )
    .unwrap_err();
    assert_eq!(refused.message(), "only a draft can be given another line");
}

#[test]
fn what_was_sold_is_never_changed() {
    let mut floor = floor(5);
    let cashier = floor.bar.cashier;
    let order = beers(&mut floor, 2);
    trading::prepare_issue(&mut floor.bar.db, order, cashier, NOW + 1).unwrap();
    trading::confirm_issued(&mut floor.bar.db, order, cashier, NOW + 2).unwrap();
    let sold = orders::lines(&floor.bar.db, order);

    let (bottle, owner) = (floor.bar.beer_bottle, floor.bar.owner);
    catalogue::reprice(
        &mut floor.bar.db,
        bottle,
        Money::from_minor(9_900),
        NOW + 3,
        owner,
    )
    .unwrap();
    beers(&mut floor, 1);
    let next = orders::lines(&floor.bar.db, order);
    assert_eq!(next, sold);
    assert_eq!(next[0].unit_price, Money::from_minor(5_000));
    assert_eq!(
        floor.bar.db.order_lines.last().unwrap().unit_price,
        Money::from_minor(9_900)
    );
}

#[test]
fn a_delivery_names_a_supplier_and_its_stock_names_a_delivery() {
    let mut bar = bar();
    let cost = Money::from_minor(10_000);
    let unknown = purchases::open(&mut bar.db, 7, cost, None, NOW, bar.owner).unwrap_err();
    assert_eq!(unknown.message(), "FOREIGN KEY constraint failed");
    assert!(bar.db.purchases.is_empty());

    let movement = stock::Movement::new(
        bar.beer,
        stock::Kind::Purchase,
        Milli::from_units(5),
        NOW,
        bar.owner,
    );
    let unnamed = stock::post(&mut bar.db, &movement.clone().for_purchase(1)).unwrap_err();
    assert_eq!(unnamed.message(), "FOREIGN KEY constraint failed");

    let house = purchases::house(&mut bar.db, NOW).unwrap();
    let delivery = purchases::open(&mut bar.db, house, cost, None, NOW, bar.owner).unwrap();
    assert_eq!(bar.db.purchases[0].supplier_id, house);
    stock::post(&mut bar.db, &movement.for_purchase(delivery)).unwrap();
    assert_eq!(bar.db.movements[0].purchase_id, Some(delivery));
}

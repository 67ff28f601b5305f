//! Nights, tabs and the bill at the end.

use servepoint::money::{Milli, Money};
use servepoint::repo::{catalogue, orders, shifts, staff, tabs};
use servepoint::settings::{self, keys, SettingRow};
use servepoint::settlement;
use servepoint::store::Store;

const NOW: i64 = 1_754_000_000_000; // 2025-08-01, mid-evening UTC

struct Bar {
    db: Store,
    owner: i64,
    cashier: i64,
    sara: i64,
    dawit: i64,
    /// Beer: one base unit per pack, sold as a bottle.
    beer: i64,
    beer_bottle: i64,
    /// Gin: 24 shots per bottle, sold as a shot and inside a cocktail.
    gin: i64,
    gin_shot: i64,
    gin_tonic: i64,
    tonic: i64,
}

/// A till with the settings it is shipped with and nothing else in it.
fn fresh() -> Store {
    let mut db = Store::new();
    for (key, value) in [
        (keys::TAX_ENABLED, "0"),
        (keys::TAX_RATE_BP, "1500"),
        (keys::TAX_INCLUSIVE, "0"),
        (keys::SERVICE_ENABLED, "1"),
        (keys::SERVICE_RATE_BP, "1000"),
        (keys::DAY_START, "18:00"),
        (keys::DAY_END, "06:00"),
        (keys::TABS_REFERENCE_MODE, "TABLE"),
        (keys::TABS_AGE_WARNING_DAYS, "7"),
        (keys::TABS_ASK_CUSTOMER_TIN, "0"),
        (keys::COMPS_ENABLED, "0"),
        (keys::PARTIAL_ENABLED, "1"),
        (keys::BANK_ACCOUNTS, ""),
        (keys::QR_ENABLED, "0"),
        (keys::PRINT_REPORT, "0"),
        (keys::PRINT_CUSTOMER_RECEIPT, "1"),
        (keys::SHOW_COST, "0"),
        (keys::BUSINESS_NAME, ""),
        (keys::ADDRESS, ""),
        (keys::PHONE, ""),
        (keys::TIN, ""),
        (keys::FOOTER, ""),
        (keys::CHARS_PER_LINE, "32"),
        (keys::CURRENCY_CODE, ""),
        (keys::ROUNDING, "NONE"),
        (keys::SETUP_COMPLETED, "0"),
    ] {
        db.settings.push(SettingRow {
            key: key.to_owned(),
            value: value.to_owned(),
            updated_at: 0,
            updated_by: None,
        });
    }
    db
}

/// A venue with just enough in it to trade.
fn bar() -> Bar {
    let mut db = fresh();

    let owner = staff_member(&mut db, "OWN-1", "Selam", "OWNER");
    let cashier = staff_member(&mut db, "CSH-1", "Abel", "CASHIER");
    let sara = staff_member(&mut db, "WTR-1", "Sara", "WAITER");
    let dawit = staff_member(&mut db, "WTR-2", "Dawit", "WAITER");

    let beer = product(&mut db, "P-BEER", "Beer", "BOTTLE", 1_000);
    let gin = product(&mut db, "P-GIN", "Gin", "SHOT", 24_000);
    let tonic = product(&mut db, "P-TONIC", "Tonic", "BOTTLE", 1_000);

    let beer_bottle = sale_item(&mut db, "S-BEER", "Beer", "Bottles", 5_000);
    let gin_shot = sale_item(&mut db, "S-GIN", "Gin shot", "Shots", 8_000);
    let gin_tonic = sale_item(&mut db, "S-GT", "Gin & Tonic", "Cocktails", 15_000);

    recipe(&mut db, beer_bottle, &[(beer, 1_000)]);
    recipe(&mut db, gin_shot, &[(gin, 1_000)]);
    // Two measures written as two lines, deliberately.
    recipe(
        &mut db,
        gin_tonic,
        &[(gin, 1_000), (gin, 1_000), (tonic, 500)],
    );

    Bar {
        db,
        owner,
        cashier,
        sara,
        dawit,
        beer,
        beer_bottle,
        gin,
        gin_shot,
        gin_tonic,
        tonic,
    }
}

fn staff_member(db: &mut Store, code: &str, name: &str, role: &str) -> i64 {
    let role = staff::Role::parse(role).unwrap();
    let pin = if role.authenticates() {
        Some(("salt", "hash"))
    } else {
        None
    };
    staff::add(db, code, name, role, pin, NOW).unwrap()
}

fn product(db: &mut Store, code: &str, name: &str, unit: &str, per_pack: i64) -> i64 {
    let id = catalogue::add_product(
        db,
        &catalogue::NewProduct {
            code,
            name,
            category: "",
            base_unit: unit,
            base_units_per_pack: Milli::from_thousandths(per_pack),
            units_per_purchase_pack: 1,
            low_stock_threshold: Milli::from_thousandths(3_000),
            tracks_inventory: true,
            destination: "BAR",
            content_measure: "NONE",
            content_per_unit: Milli::zero(),
        },
        NOW,
    )
    .unwrap();
    product_mut(db, id).avg_cost = Money::from_minor(10_000);
    id
}

fn sale_item(db: &mut Store, code: &str, name: &str, category: &str, price: i64) -> i64 {
    let new = catalogue::NewSaleItem {
        code,
        name,
        category,
    };
    let id = catalogue::add_sale_item(db, &new, NOW).unwrap();
    let price_id = db.prices.len() as i64 + 1;
    db.prices.push(catalogue::Price {
        id: price_id,
        sale_item_id: id,
        price: Money::from_minor(price),
        effective_from: NOW,
        effective_to: None,
        created_by: None,
    });
    id
}

fn recipe(db: &mut Store, sale_item_id: i64, lines: &[(i64, i64)]) -> i64 {
    let id = db.recipes.len() as i64 + 1;
    db.recipes.push(catalogue::Recipe {
        id,
        sale_item_id,
        version: 1,
        effective_from: NOW,
        effective_to: None,
        created_by: None,
    });
    for (product_id, quantity) in lines {
        db.recipe_lines.push(catalogue::RecipeLine {
            recipe_id: id,
            product_id: *product_id,
            quantity: Milli::from_thousandths(*quantity),
        });
    }
    id
}

fn product_mut(db: &mut Store, id: i64) -> &mut catalogue::Product {
    let row = db.products.iter_mut().find(|row| row.product.id == id);
    &mut row.unwrap().product
}

fn order_mut(db: &mut Store, id: i64) -> &mut orders::Order {
    db.orders.iter_mut().find(|order| order.id == id).unwrap()
}

fn tab_mut(db: &mut Store, id: i64) -> &mut tabs::Tab {
    db.tabs.iter_mut().find(|tab| tab.id == id).unwrap()
}

fn shift_mut(db: &mut Store, id: i64) -> &mut shifts::Shift {
    db.shifts.iter_mut().find(|shift| shift.id == id).unwrap()
}

fn open_recipe(db: &Store, sale_item_id: i64) -> i64 {
    db.recipes
        .iter()
        .find(|recipe| recipe.sale_item_id == sale_item_id && recipe.effective_to.is_none())
        .unwrap()
        .id
}

fn insert_tab(
    db: &mut Store,
    code: &str,
    shift: i64,
    waiter: i64,
    table_no: &str,
    label: &str,
    tin: Option<&str>,
    cashier: i64,
) -> i64 {
    let id = db.tabs.len() as i64 + 1;
    db.tabs.push(tabs::Tab {
        id,
        code: code.to_owned(),
        opened_shift_id: shift,
        waiter_id: waiter,
        reference_mode: tabs::ReferenceMode::Table,
        table_no: Some(table_no.to_owned()),
        customer_name: None,
        customer_phone: None,
        custom_ref: None,
        display_label: label.to_owned(),
        customer_tin: tin.map(str::to_owned),
        status: tabs::Status::Open,
        opened_at: NOW,
        opened_by: cashier,
        closed_shift_id: None,
        closed_at: None,
        closed_by: None,
        is_comped: false,
    });
    id
}

fn insert_order(db: &mut Store, tab: i64, shift: i64, waiter: i64, cashier: i64) -> i64 {
    let id = db.orders.len() as i64 + 1;
    db.orders.push(orders::Order {
        id,
        tab_id: tab,
        shift_id: shift,
        waiter_id: waiter,
        cashier_id: cashier,
        status: orders::Status::Draft,
        created_at: NOW,
        issued_at: None,
        replaces_order_id: None,
        root_order_id: None,
        void_reason: None,
        voided_at: None,
        voided_by: None,
    });
    id
}

fn insert_line(db: &mut Store, order: i64, item: i64, recipe: i64, price: i64) {
    let id = db.order_lines.len() as i64 + 1;
    db.order_lines.push(orders::Line {
        id,
        order_id: order,
        sale_item_id: item,
        sale_item_name: "Beer".to_owned(),
        recipe_id: recipe,
        quantity: Milli::from_thousandths(1000),
        unit_price: Money::from_minor(price),
        line_total: Money::from_minor(price),
    });
}

fn issue_order_row(db: &mut Store, order: i64, at: i64) {
    let order = order_mut(db, order);
    order.status = orders::Status::Issued;
    order.issued_at = Some(at);
}

fn close_tab_row(db: &mut Store, tab: i64, shift: i64, at: i64, by: i64) {
    let tab = tab_mut(db, tab);
    tab.status = tabs::Status::Closed;
    tab.closed_shift_id = Some(shift);
    tab.closed_at = Some(at);
    tab.closed_by = Some(by);
}

fn close_shift_row(db: &mut Store, shift: i64, at: i64, by: i64) {
    let shift = shift_mut(db, shift);
    shift.status = shifts::Status::Closed;
    shift.closed_at = Some(at);
    shift.closed_by = Some(by);
    shift.counted_cash = Some(Money::zero());
}

const END: i64 = NOW + 8 * 60 * 60 * 1_000;

fn request<'a>(business_date: &'a str, cashier: i64, float: i64) -> shifts::NewShift<'a> {
    shifts::NewShift {
        business_date,
        opened_at: NOW,
        opened_by: cashier,
        opening_float: Money::from_minor(float),
        expected_end_at: END,
    }
}

#[test]
fn open_freezes_the_business_date_end_and_opening_float() {
    let mut bar = bar();
    let shift = shifts::open(&mut bar.db, &request("2025-07-31", bar.cashier, 25_000)).unwrap();

    assert_eq!(shift.code, "SHIFT-000001");
    assert_eq!(shift.business_date, "2025-07-31");
    assert_eq!(shift.expected_end_at, END);
    assert_eq!(shift.opening_float, Money::from_minor(25_000));
    assert_eq!(shift.status, shifts::Status::Open);

    let movement: (String, i64, i64, i64) = {
        let entry = bar
            .db
            .cash
            .iter()
            .find(|movement| movement.shift_id == shift.id)
            .unwrap();
        (
            entry.movement_type.as_str().to_owned(),
            entry.amount.minor(),
            entry.created_by,
            entry.created_at,
        )
    };
    assert_eq!(movement, ("OPENING_FLOAT".into(), 25_000, bar.cashier, NOW));
    assert!(!shifts::is_overdue(&shift, END));
    assert!(shifts::is_overdue(&shift, END + 1));
}

#[test]
fn a_zero_float_does_not_invent_a_cash_movement() {
    let mut bar = bar();
    let shift = shifts::open(&mut bar.db, &request("2025-07-31", bar.cashier, 0)).unwrap();
    let count: i64 = bar.db
        .cash
        .iter()
        .filter(|movement| movement.shift_id == shift.id)
        .count() as i64;
    assert_eq!(count, 0);
}

#[test]
fn only_an_active_cashier_can_operate_a_shift() {
    let mut bar = bar();
    for actor in [bar.owner, bar.sara] {
        let err = shifts::open(&mut bar.db, &request("2025-07-31", actor, 0)).unwrap_err();
        assert!(err.message().contains("active cashier"), "got: {err:?}");
    }

    staff::set_active(&mut bar.db, bar.cashier, false, NOW).unwrap();
    let err = shifts::open(&mut bar.db, &request("2025-07-31", bar.cashier, 0)).unwrap_err();
    assert!(err.message().contains("active cashier"), "got: {err:?}");
}

#[test]
fn invalid_or_negative_opening_facts_do_not_consume_a_number() {
    let mut bar = bar();
    for date in ["31-07-2025", "2025-19-39", "2025-02-29"] {
        let bad_date = shifts::open(&mut bar.db, &request(date, bar.cashier, 0)).unwrap_err();
        assert!(
            bad_date.message().contains("YYYY-MM-DD"),
            "got: {bad_date:?}"
        );
    }
    let negative = shifts::open(&mut bar.db, &request("2025-07-31", bar.cashier, -1)).unwrap_err();
    assert!(
        negative.message().contains("cannot be negative"),
        "got: {negative:?}"
    );

    let shift = shifts::open(&mut bar.db, &request("2025-07-31", bar.cashier, 0)).unwrap();
    assert_eq!(shift.code, "SHIFT-000001");
}

#[test]
fn a_closing_shift_is_still_active_and_a_business_date_never_repeats() {
    let mut bar = bar();
    let first = shifts::open(&mut bar.db, &request("2025-07-31", bar.cashier, 0)).unwrap();
    shifts::begin_closing(&mut bar.db, first.id, bar.cashier).unwrap();

    let err = shifts::open(&mut bar.db, &request("2025-08-01", bar.cashier, 0)).unwrap_err();
    assert!(err.message().contains("active shift"), "got: {err:?}");

    close_shift_row(&mut bar.db, first.id, NOW + 1, bar.cashier);
    let duplicate = shifts::open(&mut bar.db, &request("2025-07-31", bar.cashier, 0)).unwrap_err();
    assert!(
        duplicate.message().contains("already traded"),
        "got: {duplicate:?}"
    );

    let second = shifts::open(&mut bar.db, &request("2025-08-01", bar.cashier, 0)).unwrap();
    assert_eq!(second.code, "SHIFT-000002");
}

#[test]
fn unresolved_printing_blocks_closing_before_trading_stops() {
    let mut bar = bar();
    let shift = shifts::open(&mut bar.db, &request("2025-07-31", bar.cashier, 0)).unwrap();
    let tab_id = insert_tab(
        &mut bar.db,
        "TAB-TEST",
        shift.id,
        bar.sara,
        "1",
        "Table 1",
        None,
        bar.cashier,
    );
    let order_id = insert_order(&mut bar.db, tab_id, shift.id, bar.sara, bar.cashier);
    order_mut(&mut bar.db, order_id).status = orders::Status::Printing;

    let err = shifts::begin_closing(&mut bar.db, shift.id, bar.cashier).unwrap_err();
    assert!(err.message().contains("print attempt"), "got: {err:?}");
    assert_eq!(shifts::find(&bar.db, shift.id).unwrap().status, shifts::Status::Open);

    order_mut(&mut bar.db, order_id).status = orders::Status::Draft;
    assert_eq!(
        shifts::begin_closing(&mut bar.db, shift.id, bar.cashier)
            .unwrap()
            .status,
        shifts::Status::Closing
    );
    let again = shifts::begin_closing(&mut bar.db, shift.id, bar.cashier).unwrap_err();
    assert!(
        again.message().contains("only an open shift"),
        "got: {again:?}"
    );
}

#[test]
fn owner_cannot_begin_end_of_day() {
    let mut bar = bar();
    let shift = shifts::open(&mut bar.db, &request("2025-07-31", bar.cashier, 0)).unwrap();
    let err = shifts::begin_closing(&mut bar.db, shift.id, bar.owner).unwrap_err();
    assert!(err.message().contains("active cashier"), "got: {err:?}");
    assert_eq!(shifts::find(&bar.db, shift.id).unwrap().status, shifts::Status::Open);
}

fn open_shift(date: &str, at: i64, bar: &mut Bar) -> shifts::Shift {
    shifts::open(
        &mut bar.db,
        &shifts::NewShift {
            business_date: date,
            opened_at: at,
            opened_by: bar.cashier,
            opening_float: Money::zero(),
            expected_end_at: at + (END - NOW),
        },
    )
    .unwrap()
}

fn new_tab<'a>(
    shift: i64,
    waiter: i64,
    reference: tabs::Reference<'a>,
    cashier: i64,
) -> tabs::NewTab<'a> {
    tabs::NewTab {
        opened_shift_id: shift,
        waiter_id: waiter,
        reference,
        opened_at: NOW,
        opened_by: cashier,
    }
}

#[test]
fn open_freezes_both_tab_identities_and_separate_reference_fields() {
    let mut bar = bar();
    let shift = open_shift("2025-07-31", NOW, &mut bar);
    let reference = tabs::Reference::customer_phone("  Marta  ", Some(" 0911 22 33 "))
        .with_customer_tin("  TIN-77  ");
    let tab = tabs::open(
        &mut bar.db,
        &new_tab(shift.id, bar.sara, reference, bar.cashier),
    )
    .unwrap();

    assert_eq!(tab.code, "TAB-000001");
    assert_eq!(tab.reference_mode, tabs::ReferenceMode::CustomerPhone);
    assert_eq!(tab.customer_name.as_deref(), Some("Marta"));
    assert_eq!(tab.customer_phone.as_deref(), Some("0911 22 33"));
    assert_eq!(tab.customer_tin.as_deref(), Some("TIN-77"));
    assert_eq!(tab.display_label, "Marta (0911 22 33)");

    // Whatever happens to it later, a tab stays who it is.
    let moved = tabs::transfer(
        &mut bar.db,
        &tabs::Transfer {
            tab_id: tab.id,
            to_waiter_id: bar.dawit,
            shift_id: shift.id,
            transferred_at: NOW + 1,
            transferred_by: bar.cashier,
            reason: "",
        },
    )
    .unwrap();
    assert_eq!(moved.code, tab.code);
    assert_eq!(moved.display_label, tab.display_label);
}

#[test]
fn each_reference_mode_builds_the_documented_label() {
    let mut bar = bar();
    let shift = open_shift("2025-07-31", NOW, &mut bar);
    let cases = [
        (tabs::Reference::table(" 7 "), "Table 7"),
        (tabs::Reference::customer_name(" Liya "), "Liya"),
        (tabs::Reference::customer_phone("Marta", None), "Marta"),
        (tabs::Reference::custom(" VIP East "), "VIP East"),
    ];
    for (reference, expected) in cases {
        let tab = tabs::open(
            &mut bar.db,
            &new_tab(shift.id, bar.sara, reference, bar.cashier),
        )
        .unwrap();
        assert_eq!(tab.display_label, expected);
    }
}

#[test]
fn open_labels_are_unique_and_bad_reference_or_roles_are_refused() {
    let mut bar = bar();
    let shift = open_shift("2025-07-31", NOW, &mut bar);
    tabs::open(
        &mut bar.db,
        &new_tab(shift.id, bar.sara, tabs::Reference::table("4"), bar.cashier),
    )
    .unwrap();
    let duplicate = tabs::open(
        &mut bar.db,
        &new_tab(shift.id, bar.dawit, tabs::Reference::table("4"), bar.cashier),
    )
    .unwrap_err();
    assert!(
        duplicate.message().contains("already uses"),
        "got: {duplicate:?}"
    );

    tabs::open(
        &mut bar.db,
        &new_tab(
            shift.id,
            bar.sara,
            tabs::Reference::customer_name("Marta"),
            bar.cashier,
        ),
    )
    .unwrap();
    let case_only_duplicate = tabs::open(
        &mut bar.db,
        &new_tab(
            shift.id,
            bar.dawit,
            tabs::Reference::customer_name("marta"),
            bar.cashier,
        ),
    )
    .unwrap_err();
    assert!(
        case_only_duplicate.message().contains("already uses"),
        "got: {case_only_duplicate:?}"
    );

    let bad_reference = tabs::open(
        &mut bar.db,
        &new_tab(shift.id, bar.sara, tabs::Reference::custom("  "), bar.cashier),
    )
    .unwrap_err();
    assert!(
        bad_reference.message().contains("needs a reference"),
        "got: {bad_reference:?}"
    );

    let bad_waiter = tabs::open(
        &mut bar.db,
        &new_tab(shift.id, bar.cashier, tabs::Reference::table("5"), bar.cashier),
    )
    .unwrap_err();
    assert!(
        bad_waiter.message().contains("active waiter"),
        "got: {bad_waiter:?}"
    );
    let owner_operating = tabs::open(
        &mut bar.db,
        &new_tab(shift.id, bar.sara, tabs::Reference::table("6"), bar.owner),
    )
    .unwrap_err();
    assert!(
        owner_operating.message().contains("active cashier"),
        "got: {owner_operating:?}"
    );
}

#[test]
fn search_covers_every_reference_waiter_and_internal_code() {
    let mut bar = bar();
    let shift = open_shift("2025-07-31", NOW, &mut bar);
    let table = tabs::open(
        &mut bar.db,
        &new_tab(shift.id, bar.sara, tabs::Reference::table("12"), bar.cashier),
    )
    .unwrap();
    let name = tabs::open(
        &mut bar.db,
        &new_tab(
            shift.id,
            bar.dawit,
            tabs::Reference::customer_name("Liya Gebre"),
            bar.cashier,
        ),
    )
    .unwrap();
    let phone = tabs::open(
        &mut bar.db,
        &new_tab(
            shift.id,
            bar.sara,
            tabs::Reference::customer_phone("Marta", Some("0911223344")),
            bar.cashier,
        ),
    )
    .unwrap();
    let custom = tabs::open(
        &mut bar.db,
        &new_tab(
            shift.id,
            bar.dawit,
            tabs::Reference::custom("VIP East"),
            bar.cashier,
        ),
    )
    .unwrap();

    for (query, expected) in [
        ("12", table.id),
        ("geb", name.id),
        ("091122", phone.id),
        ("east", custom.id),
        ("Sara", phone.id),
        (custom.code.as_str(), custom.id),
    ] {
        let found = tabs::search(&bar.db, query).unwrap();
        assert!(found.iter().any(|tab| tab.id == expected), "query: {query}");
    }
    assert!(tabs::search(&bar.db, "   ")
        .unwrap_err()
        .message()
        .contains("type a tab"));
}

#[test]
fn running_total_counts_issued_lines_only() {
    let mut bar = bar();
    let shift = open_shift("2025-07-31", NOW, &mut bar);
    let tab = tabs::open(
        &mut bar.db,
        &new_tab(shift.id, bar.sara, tabs::Reference::table("3"), bar.cashier),
    )
    .unwrap();
    let recipe_id: i64 = open_recipe(&bar.db, bar.beer_bottle);

    let mut add_order = |price: i64| {
        let order_id = insert_order(&mut bar.db, tab.id, shift.id, bar.sara, bar.cashier);
        insert_line(&mut bar.db, order_id, bar.beer_bottle, recipe_id, price);
        order_id
    };

    let issued = add_order(5_000);
    let _draft = add_order(9_000);
    order_mut(&mut bar.db, issued).status = orders::Status::Printing;
    issue_order_row(&mut bar.db, issued, NOW + 1);

    assert_eq!(
        tabs::running_total(&bar.db, tab.id).unwrap(),
        Money::from_minor(5_000)
    );
}

#[test]
fn transfer_changes_responsibility_not_the_original_order() {
    let mut bar = bar();
    let shift = open_shift("2025-07-31", NOW, &mut bar);
    let tab = tabs::open(
        &mut bar.db,
        &new_tab(shift.id, bar.sara, tabs::Reference::table("8"), bar.cashier),
    )
    .unwrap();
    let order_id = insert_order(&mut bar.db, tab.id, shift.id, bar.sara, bar.cashier);
    order_mut(&mut bar.db, order_id).status = orders::Status::Printing;
    issue_order_row(&mut bar.db, order_id, NOW + 1);

    let moved = tabs::transfer(
        &mut bar.db,
        &tabs::Transfer {
            tab_id: tab.id,
            to_waiter_id: bar.dawit,
            shift_id: shift.id,
            transferred_at: NOW + 2,
            transferred_by: bar.cashier,
            reason: "shift handover",
        },
    )
    .unwrap();
    assert_eq!(moved.waiter_id, bar.dawit);
    let order_waiter: i64 = order_mut(&mut bar.db, order_id).waiter_id;
    assert_eq!(order_waiter, bar.sara);
    let logged: (i64, i64, String) = {
        let entry = bar
            .db
            .transfers
            .iter()
            .find(|transfer| transfer.tab_id == tab.id)
            .unwrap();
        (entry.from_waiter_id, entry.to_waiter_id, entry.reason.clone())
    };
    assert_eq!(logged, (bar.sara, bar.dawit, "shift handover".into()));
}

#[test]
fn transfer_refuses_wrong_roles_same_waiter_closed_tab_and_closed_shift() {
    let mut bar = bar();
    let shift = open_shift("2025-07-31", NOW, &mut bar);
    let tab = tabs::open(
        &mut bar.db,
        &new_tab(shift.id, bar.sara, tabs::Reference::table("9"), bar.cashier),
    )
    .unwrap();
    let request = |to_waiter_id, transferred_by| tabs::Transfer {
        tab_id: tab.id,
        to_waiter_id,
        shift_id: shift.id,
        transferred_at: NOW + 1,
        transferred_by,
        reason: "",
    };
    assert!(tabs::transfer(&mut bar.db, &request(bar.sara, bar.cashier))
        .unwrap_err()
        .message()
        .contains("already assigned"));
    assert!(tabs::transfer(&mut bar.db, &request(bar.cashier, bar.cashier))
        .unwrap_err()
        .message()
        .contains("active waiter"));
    assert!(tabs::transfer(&mut bar.db, &request(bar.dawit, bar.owner))
        .unwrap_err()
        .message()
        .contains("active cashier"));

    close_tab_row(&mut bar.db, tab.id, shift.id, NOW + 2, bar.cashier);
    assert!(tabs::transfer(&mut bar.db, &request(bar.dawit, bar.cashier))
        .unwrap_err()
        .message()
        .contains("only an open tab"));
    assert_eq!(tabs::find(&bar.db, tab.id).unwrap().status, tabs::Status::Closed);
}

#[test]
fn an_open_tab_crosses_nights_and_can_transfer_in_the_new_shift() {
    let mut bar = bar();
    let first = open_shift("2025-07-31", NOW, &mut bar);
    let tab = tabs::open(
        &mut bar.db,
        &new_tab(
            first.id,
            bar.sara,
            tabs::Reference::custom("Late party"),
            bar.cashier,
        ),
    )
    .unwrap();
    shifts::begin_closing(&mut bar.db, first.id, bar.cashier).unwrap();
    close_shift_row(&mut bar.db, first.id, NOW + 10, bar.cashier);

    assert_eq!(tabs::find(&bar.db, tab.id).unwrap().status, tabs::Status::Open);
    let second = open_shift("2025-08-01", NOW + 24 * 60 * 60 * 1_000, &mut bar);
    let moved = tabs::transfer(
        &mut bar.db,
        &tabs::Transfer {
            tab_id: tab.id,
            to_waiter_id: bar.dawit,
            shift_id: second.id,
            transferred_at: NOW + 24 * 60 * 60 * 1_000 + 1,
            transferred_by: bar.cashier,
            reason: "carried into the new night",
        },
    )
    .unwrap();

    assert_eq!(moved.opened_shift_id, first.id);
    assert_eq!(moved.waiter_id, bar.dawit);
    let transfer_shift: i64 = bar.db
        .transfers
        .iter()
        .find(|transfer| transfer.tab_id == tab.id)
        .unwrap()
        .shift_id;
    assert_eq!(transfer_shift, second.id);
    assert!(tabs::search(&bar.db, "Late party")
        .unwrap()
        .iter()
        .any(|found| found.id == tab.id));
}

#[test]
fn a_closing_shift_cannot_open_another_tab() {
    let mut bar = bar();
    let shift = open_shift("2025-07-31", NOW, &mut bar);
    shifts::begin_closing(&mut bar.db, shift.id, bar.cashier).unwrap();
    let err = tabs::open(
        &mut bar.db,
        &new_tab(shift.id, bar.sara, tabs::Reference::table("10"), bar.cashier),
    )
    .unwrap_err();
    assert!(err.message().contains("open shift"), "got: {err:?}");
}

const CLOSED_AT: i64 = NOW + 10_000;

struct Trading {
    bar: Bar,
    shift_id: i64,
    tab_id: i64,
}

fn trading() -> Trading {
    let mut bar = bar();
    let shift = shifts::open(
        &mut bar.db,
        &shifts::NewShift {
            business_date: "2025-08-01",
            opened_at: NOW,
            opened_by: bar.cashier,
            opening_float: Money::zero(),
            expected_end_at: NOW + 43_200_000,
        },
    )
    .unwrap();
    let tab = tabs::open(
        &mut bar.db,
        &tabs::NewTab {
            opened_shift_id: shift.id,
            waiter_id: bar.sara,
            reference: tabs::Reference::table("9"),
            opened_at: NOW,
            opened_by: bar.cashier,
        },
    )
    .unwrap();
    Trading {
        bar,
        shift_id: shift.id,
        tab_id: tab.id,
    }
}

fn issued_order(t: &mut Trading) {
    let order = orders::create(
        &mut t.bar.db,
        orders::NewDraft {
            tab_id: t.tab_id,
            shift_id: t.shift_id,
            cashier_id: t.bar.cashier,
            created_at: NOW,
        },
    )
    .unwrap();
    orders::add_line(&mut t.bar.db, order.id, t.bar.beer_bottle, Milli::one()).unwrap();
    order_mut(&mut t.bar.db, order.id).status = orders::Status::Printing;
    issue_order_row(&mut t.bar.db, order.id, NOW + 1);
}

#[test]
fn close_freezes_the_derived_bill_and_audit_in_one_commit() {
    let mut t = trading();
    issued_order(&mut t);
    let closed = settlement::close_tab(
        &mut t.bar.db,
        &settlement::CloseTab {
            tab_id: t.tab_id,
            shift_id: t.shift_id,
            cashier_id: t.bar.cashier,
            comp_reason: None,
            customer_tin: None,
            closed_at: CLOSED_AT,
        },
    )
    .unwrap();

    assert_eq!(closed.tab.status, tabs::Status::Closed);
    assert_eq!(closed.payment.total, Money::from_minor(5_500));
    let audit: (String, i64) = {
        let entry = t.bar.db.audit.last().unwrap();
        (entry.action.clone(), entry.entity_id.unwrap())
    };
    assert_eq!(audit, ("TAB_CLOSED".into(), t.tab_id));
}

#[test]
fn a_refusal_rolls_back_the_tab_bill_tin_and_audit() {
    let mut t = trading();
    let before_audit: i64 = t.bar.db.audit.len() as i64;
    let error = settlement::close_tab(
        &mut t.bar.db,
        &settlement::CloseTab {
            tab_id: t.tab_id,
            shift_id: t.shift_id,
            cashier_id: t.bar.cashier,
            comp_reason: None,
            customer_tin: Some("TIN-123"),
            closed_at: CLOSED_AT,
        },
    )
    .unwrap_err();
    assert!(error.message().contains("issued order"), "got: {error:?}");
    let tab = tabs::find(&t.bar.db, t.tab_id).unwrap();
    assert_eq!(tab.status, tabs::Status::Open);
    assert!(tab.customer_tin.is_none());
    let payments: i64 = t.bar.db.payments.len() as i64;
    let audit: i64 = t.bar.db.audit.len() as i64;
    assert_eq!((payments, audit), (0, before_audit));
}

#[test]
fn an_authorised_comp_freezes_zero_liability_and_its_reason() {
    let mut t = trading();
    issued_order(&mut t);
    settings::put(
        &mut t.bar.db,
        keys::COMPS_ENABLED,
        "1",
        Some(t.bar.owner),
        CLOSED_AT - 1,
    )
    .unwrap();

    let closed = settlement::close_tab(
        &mut t.bar.db,
        &settlement::CloseTab {
            tab_id: t.tab_id,
            shift_id: t.shift_id,
            cashier_id: t.bar.cashier,
            comp_reason: Some("  service recovery  "),
            customer_tin: None,
            closed_at: CLOSED_AT,
        },
    )
    .unwrap();

    assert!(closed.tab.is_comped);
    assert_eq!(closed.payment.total, Money::from_minor(5_500));
    assert_eq!(closed.payment.liability, Money::zero());
    assert_eq!(
        closed.payment.comp_reason.as_deref(),
        Some("service recovery")
    );
    let action: String = t.bar.db.audit.last().unwrap().action.clone();
    assert_eq!(action, "TAB_COMPED");
}

#[test]
fn close_time_tin_is_captured_only_when_the_tax_prompt_is_enabled() {
    let mut refused = trading();
    issued_order(&mut refused);
    let error = settlement::close_tab(
        &mut refused.bar.db,
        &settlement::CloseTab {
            tab_id: refused.tab_id,
            shift_id: refused.shift_id,
            cashier_id: refused.bar.cashier,
            comp_reason: None,
            customer_tin: Some("  CUST-TIN-7  "),
            closed_at: CLOSED_AT,
        },
    )
    .unwrap_err();
    assert!(error.message().contains("tax and the TIN prompt"));
    assert_eq!(
        tabs::find(&refused.bar.db, refused.tab_id)
            .unwrap()
            .status,
        tabs::Status::Open
    );

    let mut enabled = trading();
    issued_order(&mut enabled);
    for key in [keys::TAX_ENABLED, keys::TABS_ASK_CUSTOMER_TIN] {
        settings::put(
            &mut enabled.bar.db,
            key,
            "1",
            Some(enabled.bar.owner),
            CLOSED_AT - 1,
        )
        .unwrap();
    }
    let closed = settlement::close_tab(
        &mut enabled.bar.db,
        &settlement::CloseTab {
            tab_id: enabled.tab_id,
            shift_id: enabled.shift_id,
            cashier_id: enabled.bar.cashier,
            comp_reason: None,
            customer_tin: Some("  CUST-TIN-7  "),
            closed_at: CLOSED_AT,
        },
    )
    .unwrap();
    assert_eq!(closed.tab.customer_tin.as_deref(), Some("CUST-TIN-7"));
}

#[test]
fn unfinished_drafts_block_close_without_freezing_any_money() {
    let mut t = trading();
    issued_order(&mut t);
    let draft = orders::create(
        &mut t.bar.db,
        orders::NewDraft {
            tab_id: t.tab_id,
            shift_id: t.shift_id,
            cashier_id: t.bar.cashier,
            created_at: NOW + 2,
        },
    )
    .unwrap();
    orders::add_line(&mut t.bar.db, draft.id, t.bar.beer_bottle, Milli::one()).unwrap();

    let error = settlement::close_tab(
        &mut t.bar.db,
        &settlement::CloseTab {
            tab_id: t.tab_id,
            shift_id: t.shift_id,
            cashier_id: t.bar.cashier,
            comp_reason: None,
            customer_tin: None,
            closed_at: CLOSED_AT,
        },
    )
    .unwrap_err();
    assert!(error.message().contains("resolve every draft"));
    assert_eq!(
        tabs::find(&t.bar.db, t.tab_id).unwrap().status,
        tabs::Status::Open
    );
    let payments: i64 = t.bar.db.payments.len() as i64;
    assert_eq!(payments, 0);
}

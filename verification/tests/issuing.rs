//! From a draft to drinks on the bar.

use servepoint::money::{Milli, Money};
use servepoint::ledger::AuditEntry;
use servepoint::repo::seq::Counter;
use servepoint::repo::{catalogue, orders, receipts, shifts, staff, stock, tabs};
use servepoint::settings::{keys, SettingRow};
use servepoint::store::Store;
use servepoint::trading;

const NOW: i64 = 1_754_000_000_000; // 2025-08-01, mid-evening UTC

struct Bar {
    db: Store,
    owner: i64,
    cashier: i64,
    sara: i64,
    dawit: i64,
    /// Beer: one base unit per pack, sold as a bottle.
    beer: i64,
    beer_bottle: i64,
    /// Gin: 24 shots per bottle, sold as a shot and inside a cocktail.
    gin: i64,
    gin_shot: i64,
    gin_tonic: i64,
    tonic: i64,
}

/// A till with the settings it is shipped with and nothing else in it.
fn fresh() -> Store {
    let mut db = Store::new();
    for (key, value) in [
        (keys::TAX_ENABLED, "0"),
        (keys::TAX_RATE_BP, "1500"),
        (keys::TAX_INCLUSIVE, "0"),
        (keys::SERVICE_ENABLED, "1"),
        (keys::SERVICE_RATE_BP, "1000"),
        (keys::DAY_START, "18:00"),
        (keys::DAY_END, "06:00"),
        (keys::TABS_REFERENCE_MODE, "TABLE"),
        (keys::TABS_AGE_WARNING_DAYS, "7"),
        (keys::TABS_ASK_CUSTOMER_TIN, "0"),
        (keys::COMPS_ENABLED, "0"),
        (keys::PARTIAL_ENABLED, "1"),
        (keys::BANK_ACCOUNTS, ""),
        (keys::QR_ENABLED, "0"),
        (keys::PRINT_REPORT, "0"),
        (keys::PRINT_CUSTOMER_RECEIPT, "1"),
        (keys::SHOW_COST, "0"),
        (keys::BUSINESS_NAME, ""),
        (keys::ADDRESS, ""),
        (keys::PHONE, ""),
        (keys::TIN, ""),
        (keys::FOOTER, ""),
        (keys::CHARS_PER_LINE, "32"),
        (keys::CURRENCY_CODE, ""),
        (keys::ROUNDING, "NONE"),
        (keys::SETUP_COMPLETED, "0"),
    ] {
        db.settings.push(SettingRow {
            key: key.to_owned(),
            value: value.to_owned(),
            updated_at: 0,
            updated_by: None,
        });
    }
    db
}

/// A venue with just enough in it to trade.
fn bar() -> Bar {
    let mut db = fresh();

    let owner = staff_member(&mut db, "OWN-1", "Selam", "OWNER");
    let cashier = staff_member(&mut db, "CSH-1", "Abel", "CASHIER");
    let sara = staff_member(&mut db, "WTR-1", "Sara", "WAITER");
    let dawit = staff_member(&mut db, "WTR-2", "Dawit", "WAITER");

    let beer = product(&mut db, "P-BEER", "Beer", "BOTTLE", 1_000);
    let gin = product(&mut db, "P-GIN", "Gin", "SHOT", 24_000);
    let tonic = product(&mut db, "P-TONIC", "Tonic", "BOTTLE", 1_000);

    let beer_bottle = sale_item(&mut db, "S-BEER", "Beer", "Bottles", 5_000);
    let gin_shot = sale_item(&mut db, "S-GIN", "Gin shot", "Shots", 8_000);
    let gin_tonic = sale_item(&mut db, "S-GT", "Gin & Tonic", "Cocktails", 15_000);

    recipe(&mut db, beer_bottle, &[(beer, 1_000)]);
    recipe(&mut db, gin_shot, &[(gin, 1_000)]);
    // Two measures written as two lines, deliberately.
    recipe(
        &mut db,
        gin_tonic,
        &[(gin, 1_000), (gin, 1_000), (tonic, 500)],
    );

    Bar {
        db,
        owner,
        cashier,
        sara,
        dawit,
        beer,
        beer_bottle,
        gin,
        gin_shot,
        gin_tonic,
        tonic,
    }
}

fn staff_member(db: &mut Store, code: &str, name: &str, role: &str) -> i64 {
    let role = staff::Role::parse(role).unwrap();
    let pin = if role.authenticates() {
        Some(("salt", "hash"))
    } else {
        None
    };
    staff::add(db, code, name, role, pin, NOW).unwrap()
}

fn product(db: &mut Store, code: &str, name: &str, unit: &str, per_pack: i64) -> i64 {
    let id = catalogue::add_product(
        db,
        &catalogue::NewProduct {
            code,
            name,
            category: "",
            base_unit: unit,
            base_units_per_pack: Milli::from_thousandths(per_pack),
            units_per_purchase_pack: 1,
            low_stock_threshold: Milli::from_thousandths(3_000),
            tracks_inventory: true,
            destination: "BAR",
            content_measure: "NONE",
            content_per_unit: Milli::zero(),
        },
        NOW,
    )
    .unwrap();
    product_mut(db, id).avg_cost = Money::from_minor(10_000);
    id
}

fn sale_item(db: &mut Store, code: &str, name: &str, category: &str, price: i64) -> i64 {
    let new = catalogue::NewSaleItem {
        code,
        name,
        category,
    };
    let id = catalogue::add_sale_item(db, &new, NOW).unwrap();
    let price_id = db.prices.len() as i64 + 1;
    db.prices.push(catalogue::Price {
        id: price_id,
        sale_item_id: id,
        price: Money::from_minor(price),
        effective_from: NOW,
        effective_to: None,
        created_by: None,
    });
    id
}

fn recipe(db: &mut Store, sale_item_id: i64, lines: &[(i64, i64)]) -> i64 {
    let id = db.recipes.len() as i64 + 1;
    db.recipes.push(catalogue::Recipe {
        id,
        sale_item_id,
        version: 1,
        effective_from: NOW,
        effective_to: None,
        created_by: None,
    });
    for (product_id, quantity) in lines {
        db.recipe_lines.push(catalogue::RecipeLine {
            recipe_id: id,
            product_id: *product_id,
            quantity: Milli::from_thousandths(*quantity),
        });
    }
    id
}

/// Put stock on the shelf without going through a purchase.
fn stock_up(db: &mut Store, product_id: i64, milli: i64, by: i64) {
    stock::post(
        db,
        &stock::Movement::new(
            product_id,
            stock::Kind::StockCorrection,
            Milli::from_thousandths(milli),
            NOW,
            by,
        )
        .because("opening count"),
    )
    .unwrap();
}

fn product_mut(db: &mut Store, id: i64) -> &mut catalogue::Product {
    let row = db.products.iter_mut().find(|row| row.product.id == id);
    &mut row.unwrap().product
}

/// Leaves no number for another line of the audit log.
fn exhaust_audit(db: &mut Store) {
    db.audit.push(AuditEntry {
        sequence_no: i64::MAX,
        action: "FULL".to_owned(),
        entity_type: "log".to_owned(),
        entity_id: None,
        old_value: None,
        new_value: None,
        staff_id: None,
        shift_id: None,
        created_at: NOW,
    });
}

fn audited(db: &Store, action: &str, order: i64) -> i64 {
    db.audit
        .iter()
        .filter(|entry| {
            entry.action == action
                && entry.entity_type == "order"
                && entry.entity_id == Some(order)
        })
        .count() as i64
}

fn sales_of(db: &Store, order: i64) -> i64 {
    db.movements
        .iter()
        .filter(|m| m.order_id == Some(order) && m.kind == stock::Kind::Sale)
        .count() as i64
}

const LATER: i64 = NOW + 1_000;

struct Trading {
    bar: Bar,
    shift_id: i64,
    tab_id: i64,
}

fn trading(stock_milli: i64) -> Trading {
    let mut bar = bar();
    if stock_milli != 0 {
        stock_up(&mut bar.db, bar.beer, stock_milli, bar.owner);
    }
    let shift = shifts::open(
        &mut bar.db,
        &shifts::NewShift {
            business_date: "2025-08-01",
            opened_at: NOW,
            opened_by: bar.cashier,
            opening_float: Money::zero(),
            expected_end_at: NOW + 43_200_000,
        },
    )
    .unwrap();
    let tab = tabs::open(
        &mut bar.db,
        &tabs::NewTab {
            opened_shift_id: shift.id,
            waiter_id: bar.sara,
            reference: tabs::Reference::table("7"),
            opened_at: NOW,
            opened_by: bar.cashier,
        },
    )
    .unwrap();
    Trading {
        bar,
        shift_id: shift.id,
        tab_id: tab.id,
    }
}

fn beer_draft(t: &mut Trading) -> orders::Order {
    let order = orders::create(
        &mut t.bar.db,
        orders::NewDraft {
            tab_id: t.tab_id,
            shift_id: t.shift_id,
            cashier_id: t.bar.cashier,
            created_at: NOW,
        },
    )
    .unwrap();
    orders::add_line(&mut t.bar.db, order.id, t.bar.beer_bottle, Milli::one()).unwrap();
    order
}

#[test]
fn a_durable_printing_order_reserves_stock_before_a_second_number_is_burned() {
    let mut t = trading(1_000);
    let first = beer_draft(&mut t);
    let second = beer_draft(&mut t);

    let prepared = trading::prepare_issue(&mut t.bar.db, first.id, t.bar.cashier, LATER).unwrap();
    assert_eq!(prepared.receipts.len(), 1);

    let refused =
        trading::prepare_issue(&mut t.bar.db, second.id, t.bar.cashier, LATER + 1).unwrap_err();
    assert!(
        refused.message().contains("Not enough stock"),
        "got: {refused:?}"
    );

    let second = orders::find(&t.bar.db, second.id).unwrap();
    assert_eq!(second.status, orders::Status::Draft);
    let next: i64 = t.bar.db.sequences.peek(Counter::IssueReceipt);
    assert_eq!(next, 2, "the refused order did not consume BR-000002");
}

#[test]
fn confirming_printed_issues_every_destination_and_posts_stock_and_audit_once() {
    let mut t = trading(1_000);
    let order = beer_draft(&mut t);
    let prepared = trading::prepare_issue(&mut t.bar.db, order.id, t.bar.cashier, LATER).unwrap();

    let completed =
        trading::confirm_issued(&mut t.bar.db, order.id, t.bar.cashier, LATER + 1).unwrap();
    assert_eq!(completed.order.status, orders::Status::Issued);
    assert_eq!(completed.receipts[0].status, receipts::Status::Printed);
    assert_eq!(
        receipts::attempts(&t.bar.db, prepared.receipts[0].id)
            .iter()
            .map(|attempt| attempt.outcome)
            .collect::<Vec<_>>(),
        vec![receipts::Outcome::Success]
    );
    assert_eq!(
        stock::on_hand(&t.bar.db, t.bar.beer).unwrap(),
        Milli::zero()
    );

    trading::confirm_issued(&mut t.bar.db, order.id, t.bar.cashier, LATER + 2).unwrap();
    let (sales, audits): (i64, i64) = (
        sales_of(&t.bar.db, order.id),
        audited(&t.bar.db, "ORDER_ISSUED", order.id),
    );
    assert_eq!((sales, audits), (1, 1));
}

#[test]
fn confirmed_non_print_voids_every_number_and_returns_the_order_to_draft_atomically() {
    let mut t = trading(1_000);
    let order = beer_draft(&mut t);
    let prepared = trading::prepare_issue(&mut t.bar.db, order.id, t.bar.cashier, LATER).unwrap();

    let recovered =
        trading::confirm_non_print(&mut t.bar.db, order.id, t.bar.cashier, LATER + 1).unwrap();
    assert_eq!(recovered.status, orders::Status::Draft);
    assert_eq!(
        receipts::find(&t.bar.db, prepared.receipts[0].id)
            .unwrap()
            .status,
        receipts::Status::Void
    );
    assert_eq!(stock::on_hand(&t.bar.db, t.bar.beer).unwrap(), Milli::one());
    let audit_count: i64 = audited(&t.bar.db, "PRINT_ABANDONED", order.id);
    assert_eq!(audit_count, 1);

    trading::confirm_non_print(&mut t.bar.db, order.id, t.bar.cashier, LATER + 2).unwrap();
    let audit_count: i64 = audited(&t.bar.db, "PRINT_ABANDONED", order.id);
    assert_eq!(audit_count, 1);
}

#[test]
fn handwritten_authorisation_is_durable_and_issues_stock_normally() {
    let mut t = trading(1_000);
    let order = beer_draft(&mut t);
    let prepared = trading::prepare_issue(&mut t.bar.db, order.id, t.bar.cashier, LATER).unwrap();

    let completed =
        trading::authorize_handwritten(&mut t.bar.db, order.id, t.bar.cashier, LATER + 1).unwrap();
    assert_eq!(completed.order.status, orders::Status::Issued);
    assert_eq!(completed.receipts[0].status, receipts::Status::Failed);
    let attempts = receipts::attempts(&t.bar.db, prepared.receipts[0].id);
    assert_eq!(attempts.len(), 1);
    assert_eq!(attempts[0].outcome, receipts::Outcome::Failed);
    assert_eq!(attempts[0].reason, trading::HANDWRITTEN_REASON);
    assert_eq!(
        stock::on_hand(&t.bar.db, t.bar.beer).unwrap(),
        Milli::zero()
    );

    trading::authorize_handwritten(&mut t.bar.db, order.id, t.bar.cashier, LATER + 2).unwrap();
    let (sales, audits): (i64, i64) = (
        sales_of(&t.bar.db, order.id),
        audited(&t.bar.db, "ORDER_ISSUED_HANDWRITTEN", order.id),
    );
    assert_eq!((sales, audits), (1, 1));
}

#[test]
fn a_transaction_two_failure_is_reported_as_ambiguous_and_rolls_every_side_effect_back() {
    let mut t = trading(1_000);
    let order = beer_draft(&mut t);
    let prepared = trading::prepare_issue(&mut t.bar.db, order.id, t.bar.cashier, LATER).unwrap();
    exhaust_audit(&mut t.bar.db);

    let error =
        trading::confirm_issued(&mut t.bar.db, order.id, t.bar.cashier, LATER + 1).unwrap_err();
    assert!(matches!(
        error,
        trading::TradingError::IssuePrintPending { order_id, .. } if order_id == order.id
    ));
    assert_eq!(
        orders::find(&t.bar.db, order.id).unwrap().status,
        orders::Status::Printing
    );
    assert_eq!(
        receipts::find(&t.bar.db, prepared.receipts[0].id)
            .unwrap()
            .status,
        receipts::Status::Pending
    );
    assert!(receipts::attempts(&t.bar.db, prepared.receipts[0].id)
        .is_empty());
    assert_eq!(stock::on_hand(&t.bar.db, t.bar.beer).unwrap(), Milli::one());
    let (sales, audits): (i64, i64) = (
        sales_of(&t.bar.db, order.id),
        audited(&t.bar.db, "ORDER_ISSUED", order.id),
    );
    assert_eq!((sales, audits), (0, 0));
}

#[test]
fn transaction_two_resolves_all_destinations_and_posts_one_aggregated_sale_per_product() {
    let mut t = trading(0);
    stock_up(&mut t.bar.db, t.bar.gin, 2_000, t.bar.owner);
    stock_up(&mut t.bar.db, t.bar.tonic, 500, t.bar.owner);
    product_mut(&mut t.bar.db, t.bar.tonic).destination = "KITCHEN".to_owned();
    let order = orders::create(
        &mut t.bar.db,
        orders::NewDraft {
            tab_id: t.tab_id,
            shift_id: t.shift_id,
            cashier_id: t.bar.cashier,
            created_at: NOW,
        },
    )
    .unwrap();
    orders::add_line(&mut t.bar.db, order.id, t.bar.gin_tonic, Milli::one()).unwrap();
    trading::prepare_issue(&mut t.bar.db, order.id, t.bar.cashier, LATER).unwrap();

    let completed =
        trading::confirm_issued(&mut t.bar.db, order.id, t.bar.cashier, LATER + 1).unwrap();
    assert_eq!(completed.receipts.len(), 2);
    assert!(completed
        .receipts
        .iter()
        .all(|receipt| receipt.status == receipts::Status::Printed));

    // The cocktail is split by product destination, and every slip carries
    // the number the correction path makes the cashier type back.
    for receipt in &completed.receipts {
        let text = receipt.rendered_text.as_deref().unwrap();
        assert!(
            text.contains(&receipt.receipt_number),
            "slip has no BR number: {text}"
        );
        assert!(text.contains("Tab: TAB-000001 — Table 7"));
        assert!(text.contains("Waiter: Sara"));
        match receipt.destination.unwrap() {
            receipts::Destination::Bar => {
                assert!(text.contains("Gin x2") && !text.contains("Tonic"))
            }
            receipts::Destination::Kitchen => {
                assert!(text.contains("Tonic x0.5") && !text.contains("Gin"))
            }
        }
    }
    let movements: Vec<(i64, i64)> = t
        .bar
        .db
        .movements
        .iter()
        .filter(|m| m.order_id == Some(order.id) && m.kind == stock::Kind::Sale)
        .map(|m| (m.product_id, m.quantity.thousandths()))
        .collect();
    assert_eq!(movements, vec![(t.bar.gin, -2_000), (t.bar.tonic, -500)]);
}

#[test]
fn two_connections_cannot_both_reserve_the_last_bottle() {
    let mut db = fresh();
    let owner = staff_member(&mut db, "OWN-C", "Owner", "OWNER");
    let cashier = staff_member(&mut db, "CSH-C", "Cashier", "CASHIER");
    let waiter = staff_member(&mut db, "WTR-C", "Waiter", "WAITER");
    let last = product(&mut db, "P-LAST", "Last beer", "BOTTLE", 1_000);
    let item = sale_item(&mut db, "S-LAST", "Last beer", "Beer", 5_000);
    recipe(&mut db, item, &[(last, 1_000)]);
    stock_up(&mut db, last, 1_000, owner);
    let shift = shifts::open(
        &mut db,
        &shifts::NewShift {
            business_date: "2025-08-01",
            opened_at: NOW,
            opened_by: cashier,
            opening_float: Money::zero(),
            expected_end_at: NOW + 43_200_000,
        },
    )
    .unwrap();
    let tab = tabs::open(
        &mut db,
        &tabs::NewTab {
            opened_shift_id: shift.id,
            waiter_id: waiter,
            reference: tabs::Reference::table("88"),
            opened_at: NOW,
            opened_by: cashier,
        },
    )
    .unwrap();
    let mut make_draft = || {
        let order = orders::create(
            &mut db,
            orders::NewDraft {
                tab_id: tab.id,
                shift_id: shift.id,
                cashier_id: cashier,
                created_at: NOW,
            },
        )
        .unwrap();
        orders::add_line(&mut db, order.id, item, Milli::one()).unwrap();
        order
    };
    let first = make_draft();
    let second = make_draft();

    trading::prepare_issue(&mut db, first.id, cashier, LATER).unwrap();
    let refused = trading::prepare_issue(&mut db, second.id, cashier, LATER + 1).unwrap_err();
    assert!(refused.message().contains("Not enough stock"));
    assert_eq!(
        orders::find(&db, second.id).unwrap().status,
        orders::Status::Draft
    );
    assert_eq!(db.sequences.peek(Counter::IssueReceipt), 2);
}

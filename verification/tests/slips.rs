//! Orders, their corrections, and the paper they leave.

use servepoint::money::{BasisPoints, Milli, Money};
use servepoint::repo::seq::Counter;
use servepoint::repo::{cash, catalogue, orders, receipts, shifts, staff, tabs};
use servepoint::settings::{keys, SettingRow};
use servepoint::store::Store;

const NOW: i64 = 1_754_000_000_000; // 2025-08-01, mid-evening UTC

struct Bar {
    db: Store,
    owner: i64,
    cashier: i64,
    sara: i64,
    dawit: i64,
    /// Beer: one base unit per pack, sold as a bottle.
    beer: i64,
    beer_bottle: i64,
    /// Gin: 24 shots per bottle, sold as a shot and inside a cocktail.
    gin: i64,
    gin_shot: i64,
    gin_tonic: i64,
    tonic: i64,
}

/// A till with the settings it is shipped with and nothing else in it.
fn fresh() -> Store {
    let mut db = Store::new();
    for (key, value) in [
        (keys::TAX_ENABLED, "0"),
        (keys::TAX_RATE_BP, "1500"),
        (keys::TAX_INCLUSIVE, "0"),
        (keys::SERVICE_ENABLED, "1"),
        (keys::SERVICE_RATE_BP, "1000"),
        (keys::DAY_START, "18:00"),
        (keys::DAY_END, "06:00"),
        (keys::TABS_REFERENCE_MODE, "TABLE"),
        (keys::TABS_AGE_WARNING_DAYS, "7"),
        (keys::TABS_ASK_CUSTOMER_TIN, "0"),
        (keys::COMPS_ENABLED, "0"),
        (keys::PARTIAL_ENABLED, "1"),
        (keys::BANK_ACCOUNTS, ""),
        (keys::QR_ENABLED, "0"),
        (keys::PRINT_REPORT, "0"),
        (keys::PRINT_CUSTOMER_RECEIPT, "1"),
        (keys::SHOW_COST, "0"),
        (keys::BUSINESS_NAME, ""),
        (keys::ADDRESS, ""),
        (keys::PHONE, ""),
        (keys::TIN, ""),
        (keys::FOOTER, ""),
        (keys::CHARS_PER_LINE, "32"),
        (keys::CURRENCY_CODE, ""),
        (keys::ROUNDING, "NONE"),
        (keys::SETUP_COMPLETED, "0"),
    ] {
        db.settings.push(SettingRow {
            key: key.to_owned(),
            value: value.to_owned(),
            updated_at: 0,
            updated_by: None,
        });
    }
    db
}

/// A venue with just enough in it to trade.
fn bar() -> Bar {
    let mut db = fresh();

    let owner = staff_member(&mut db, "OWN-1", "Selam", "OWNER");
    let cashier = staff_member(&mut db, "CSH-1", "Abel", "CASHIER");
    let sara = staff_member(&mut db, "WTR-1", "Sara", "WAITER");
    let dawit = staff_member(&mut db, "WTR-2", "Dawit", "WAITER");

    let beer = product(&mut db, "P-BEER", "Beer", "BOTTLE", 1_000);
    let gin = product(&mut db, "P-GIN", "Gin", "SHOT", 24_000);
    let tonic = product(&mut db, "P-TONIC", "Tonic", "BOTTLE", 1_000);

    let beer_bottle = sale_item(&mut db, "S-BEER", "Beer", "Bottles", 5_000);
    let gin_shot = sale_item(&mut db, "S-GIN", "Gin shot", "Shots", 8_000);
    let gin_tonic = sale_item(&mut db, "S-GT", "Gin & Tonic", "Cocktails", 15_000);

    recipe(&mut db, beer_bottle, &[(beer, 1_000)]);
    recipe(&mut db, gin_shot, &[(gin, 1_000)]);
    // Two measures written as two lines, deliberately.
    recipe(
        &mut db,
        gin_tonic,
        &[(gin, 1_000), (gin, 1_000), (tonic, 500)],
    );

    Bar {
        db,
        owner,
        cashier,
        sara,
        dawit,
        beer,
        beer_bottle,
        gin,
        gin_shot,
        gin_tonic,
        tonic,
    }
}

fn staff_member(db: &mut Store, code: &str, name: &str, role: &str) -> i64 {
    let role = staff::Role::parse(role).unwrap();
    let pin = if role.authenticates() {
        Some(("salt", "hash"))
    } else {
        None
    };
    staff::add(db, code, name, role, pin, NOW).unwrap()
}

fn product(db: &mut Store, code: &str, name: &str, unit: &str, per_pack: i64) -> i64 {
    let id = catalogue::add_product(
        db,
        &catalogue::NewProduct {
            code,
            name,
            category: "",
            base_unit: unit,
            base_units_per_pack: Milli::from_thousandths(per_pack),
            units_per_purchase_pack: 1,
            low_stock_threshold: Milli::from_thousandths(3_000),
            tracks_inventory: true,
            destination: "BAR",
            content_measure: "NONE",
            content_per_unit: Milli::zero(),
        },
        NOW,
    )
    .unwrap();
    product_mut(db, id).avg_cost = Money::from_minor(10_000);
    id
}

fn sale_item(db: &mut Store, code: &str, name: &str, category: &str, price: i64) -> i64 {
    let new = catalogue::NewSaleItem {
        code,
        name,
        category,
    };
    let id = catalogue::add_sale_item(db, &new, NOW).unwrap();
    let price_id = db.prices.len() as i64 + 1;
    db.prices.push(catalogue::Price {
        id: price_id,
        sale_item_id: id,
        price: Money::from_minor(price),
        effective_from: NOW,
        effective_to: None,
        created_by: None,
    });
    id
}

fn recipe(db: &mut Store, sale_item_id: i64, lines: &[(i64, i64)]) -> i64 {
    let id = db.recipes.len() as i64 + 1;
    db.recipes.push(catalogue::Recipe {
        id,
        sale_item_id,
        version: 1,
        effective_from: NOW,
        effective_to: None,
        created_by: None,
    });
    for (product_id, quantity) in lines {
        db.recipe_lines.push(catalogue::RecipeLine {
            recipe_id: id,
            product_id: *product_id,
            quantity: Milli::from_thousandths(*quantity),
        });
    }
    id
}

fn product_mut(db: &mut Store, id: i64) -> &mut catalogue::Product {
    let row = db.products.iter_mut().find(|row| row.product.id == id);
    &mut row.unwrap().product
}

fn tab_mut(db: &mut Store, id: i64) -> &mut tabs::Tab {
    db.tabs.iter_mut().find(|tab| tab.id == id).unwrap()
}

fn shift_mut(db: &mut Store, id: i64) -> &mut shifts::Shift {
    db.shifts.iter_mut().find(|shift| shift.id == id).unwrap()
}

fn person_mut(db: &mut Store, id: i64) -> &mut staff::Person {
    let row = db.staff.iter_mut().find(|row| row.person.id == id);
    &mut row.unwrap().person
}

fn insert_tab(
    db: &mut Store,
    code: &str,
    shift: i64,
    waiter: i64,
    table_no: &str,
    label: &str,
    tin: Option<&str>,
    cashier: i64,
) -> i64 {
    let id = db.tabs.len() as i64 + 1;
    db.tabs.push(tabs::Tab {
        id,
        code: code.to_owned(),
        opened_shift_id: shift,
        waiter_id: waiter,
        reference_mode: tabs::ReferenceMode::Table,
        table_no: Some(table_no.to_owned()),
        customer_name: None,
        customer_phone: None,
        custom_ref: None,
        display_label: label.to_owned(),
        customer_tin: tin.map(str::to_owned),
        status: tabs::Status::Open,
        opened_at: NOW,
        opened_by: cashier,
        closed_shift_id: None,
        closed_at: None,
        closed_by: None,
        is_comped: false,
    });
    id
}

fn insert_shift(db: &mut Store, cashier: i64) -> i64 {
    let id = db.shifts.len() as i64 + 1;
    db.shifts.push(shifts::Shift {
        id,
        code: "SHIFT-000001".to_owned(),
        business_date: "2025-08-01".to_owned(),
        status: shifts::Status::Open,
        opened_at: NOW,
        opened_by: cashier,
        opening_float: Money::zero(),
        expected_end_at: NOW + 43_200_000,
        closed_at: None,
        closed_by: None,
        counted_cash: None,
    });
    id
}

fn close_tab_row(db: &mut Store, tab: i64, shift: i64, at: i64, by: i64) {
    let tab = tab_mut(db, tab);
    tab.status = tabs::Status::Closed;
    tab.closed_shift_id = Some(shift);
    tab.closed_at = Some(at);
    tab.closed_by = Some(by);
}

const LATER: i64 = NOW + 1_000;

struct Trading {
    bar: Bar,
    shift: i64,
    tab: i64,
}

fn trading() -> Trading {
    let mut bar = bar();
    let shift = insert_shift(&mut bar.db, bar.cashier);
    let tab = insert_tab(
        &mut bar.db,
        "TAB-000001",
        shift,
        bar.sara,
        "7",
        "Table 7",
        None,
        bar.cashier,
    );
    Trading { bar, shift, tab }
}

fn draft(t: &mut Trading) -> orders::Order {
    orders::create(
        &mut t.bar.db,
        orders::NewDraft {
            tab_id: t.tab,
            shift_id: t.shift,
            cashier_id: t.bar.cashier,
            created_at: NOW,
        },
    )
    .unwrap()
}

fn issued(sale_item_id: i64, t: &mut Trading) -> (orders::Order, receipts::Receipt) {
    let order = draft(t);
    orders::add_line(&mut t.bar.db, order.id, sale_item_id, Milli::one()).unwrap();
    let receipt = receipts::create_issue(
        &mut t.bar.db,
        order.id,
        receipts::Destination::Bar,
        NOW,
    )
    .unwrap();
    orders::mark_printing(&mut t.bar.db, order.id).unwrap();
    receipts::freeze_rendered_text(&mut t.bar.db, receipt.id, "BR test bytes").unwrap();
    receipts::record_first_issue_attempt(
        &mut t.bar.db,
        receipt.id,
        receipts::FinalOutcome::Success,
        "",
        t.shift,
        t.bar.cashier,
        LATER,
    )
    .unwrap();
    receipts::mark_printed(&mut t.bar.db, receipt.id, LATER).unwrap();
    orders::mark_issued(&mut t.bar.db, order.id, LATER).unwrap();
    (
        orders::find(&t.bar.db, order.id).unwrap(),
        receipts::find(&t.bar.db, receipt.id).unwrap(),
    )
}

fn frozen_beer_correction(
    t: &mut Trading,
) -> (orders::Order, orders::Order, orders::PendingCorrection) {
    let (original, receipt) = issued(t.bar.beer_bottle, t);
    let replacement =
        orders::create_replacement(&mut t.bar.db, original.id, t.bar.cashier, LATER).unwrap();
    let original_line = orders::lines(&t.bar.db, original.id).remove(0);
    orders::add_line_from_original(
        &mut t.bar.db,
        replacement.id,
        original_line.id,
        Milli::from_thousandths(500),
    )
    .unwrap();
    let delta = orders::CorrectionDelta::new(
        t.bar.beer,
        Milli::one(),
        Milli::from_thousandths(500),
        Milli::zero(),
        "not returned",
    )
    .unwrap();
    let frozen = orders::freeze_correction(
        &mut t.bar.db,
        orders::NewCorrection {
            original_order_id: original.id,
            replacement_order_id: replacement.id,
            issue_receipt_number: &receipt.receipt_number,
            reason: "wrong quantity",
            shift_id: t.shift,
            created_by: t.bar.cashier,
            created_at: LATER,
        },
        &[delta],
    )
    .unwrap();
    (original, replacement, frozen)
}

fn issue_existing(order_id: i64, created_at: i64, t: &mut Trading) -> receipts::Receipt {
    let receipt = receipts::create_issue(
        &mut t.bar.db,
        order_id,
        receipts::Destination::Bar,
        created_at,
    )
    .unwrap();
    orders::mark_printing(&mut t.bar.db, order_id).unwrap();
    receipts::freeze_rendered_text(&mut t.bar.db, receipt.id, "BR test bytes").unwrap();
    receipts::record_first_issue_attempt(
        &mut t.bar.db,
        receipt.id,
        receipts::FinalOutcome::Success,
        "",
        t.shift,
        t.bar.cashier,
        created_at + 1,
    )
    .unwrap();
    receipts::mark_printed(&mut t.bar.db, receipt.id, created_at + 1).unwrap();
    orders::mark_issued(&mut t.bar.db, order_id, created_at + 1).unwrap();
    receipts::find(&t.bar.db, receipt.id).unwrap()
}

fn untracked_sale_item(t: &mut Trading) -> i64 {
    let product = product(&mut t.bar.db, "P-SERVICE", "Service", "UNIT", 1_000);
    product_mut(&mut t.bar.db, product).tracks_inventory = false;
    let item = sale_item(&mut t.bar.db, "S-SERVICE", "Cover service", "Services", 2_000);
    recipe(&mut t.bar.db, item, &[(product, 1_000)]);
    item
}

#[test]
fn a_draft_stamps_the_tabs_current_waiter_and_lines_snapshot_catalogue_facts() {
    let mut t = trading();
    let order = draft(&mut t);
    assert_eq!(order.status, orders::Status::Draft);
    assert_eq!(order.waiter_id, t.bar.sara);

    let line = orders::add_line(
        &mut t.bar.db,
        order.id,
        t.bar.beer_bottle,
        Milli::from_units(2),
    )
    .unwrap();
    assert_eq!(line.sale_item_name, "Beer");
    assert_eq!(line.unit_price, Money::from_minor(5_000));
    assert_eq!(line.line_total, Money::from_minor(10_000));

    catalogue::update_sale_item(
        &mut t.bar.db,
        t.bar.beer_bottle,
        &catalogue::NewSaleItem {
            code: "S-BEER",
            name: "Lager",
            category: "Bottles",
        },
        true,
    )
    .unwrap();
    catalogue::reprice(
        &mut t.bar.db,
        t.bar.beer_bottle,
        Money::from_minor(6_000),
        LATER,
        t.bar.owner,
    )
    .unwrap();
    let stored = orders::lines(&t.bar.db, order.id);
    assert_eq!(stored[0].sale_item_name, "Beer");
    assert_eq!(stored[0].unit_price, Money::from_minor(5_000));
    assert_eq!(stored[0].line_total, Money::from_minor(10_000));
}

#[test]
fn replacement_lines_copy_the_original_snapshot_not_todays_catalogue() {
    let mut t = trading();
    let (original, _) = issued(t.bar.beer_bottle, &mut t);
    let original_line = orders::lines(&t.bar.db, original.id).remove(0);
    catalogue::reprice(
        &mut t.bar.db,
        t.bar.beer_bottle,
        Money::from_minor(9_000),
        LATER + 1,
        t.bar.owner,
    )
    .unwrap();

    let replacement =
        orders::create_replacement(&mut t.bar.db, original.id, t.bar.cashier, LATER).unwrap();
    let bypass = orders::add_line(
        &mut t.bar.db,
        replacement.id,
        t.bar.beer_bottle,
        Milli::from_units(2),
    )
    .unwrap_err();
    assert!(bypass.message().contains("original recipe and price"));
    let copied = orders::add_line_from_original(
        &mut t.bar.db,
        replacement.id,
        original_line.id,
        Milli::from_units(2),
    )
    .unwrap();
    assert_eq!(copied.recipe_id, original_line.recipe_id);
    assert_eq!(copied.unit_price, Money::from_minor(5_000));
    assert_eq!(copied.line_total, Money::from_minor(10_000));
}

#[test]
fn a_confirmed_non_print_keeps_the_number_and_returns_only_to_draft() {
    let mut t = trading();
    let order = draft(&mut t);
    orders::add_line(&mut t.bar.db, order.id, t.bar.beer_bottle, Milli::one()).unwrap();
    let receipt = receipts::create_issue(
        &mut t.bar.db,
        order.id,
        receipts::Destination::Bar,
        NOW,
    )
    .unwrap();
    orders::mark_printing(&mut t.bar.db, order.id).unwrap();
    assert_eq!(orders::stranded_prints(&t.bar.db)[0].id, order.id);
    assert!(orders::return_to_draft(&mut t.bar.db, order.id).is_err());

    receipts::mark_void(&mut t.bar.db, receipt.id).unwrap();
    orders::return_to_draft(&mut t.bar.db, order.id).unwrap();
    assert_eq!(orders::find(&t.bar.db, order.id).unwrap().status, orders::Status::Draft);
    assert_eq!(
        receipts::find(&t.bar.db, receipt.id).unwrap().status,
        receipts::Status::Void
    );
}

#[test]
fn printed_or_failed_authorisation_can_never_be_resurrected_as_a_draft() {
    let mut t = trading();
    for (index, outcome) in [
        receipts::FinalOutcome::Success,
        receipts::FinalOutcome::Failed,
    ]
    .into_iter()
    .enumerate()
    {
        let order = draft(&mut t);
        orders::add_line(&mut t.bar.db, order.id, t.bar.beer_bottle, Milli::one()).unwrap();
        let receipt = receipts::create_issue(
            &mut t.bar.db,
            order.id,
            receipts::Destination::Bar,
            NOW + index as i64,
        )
        .unwrap();
        orders::mark_printing(&mut t.bar.db, order.id).unwrap();
        receipts::freeze_rendered_text(&mut t.bar.db, receipt.id, "authorising bytes").unwrap();
        receipts::record_first_issue_attempt(
            &mut t.bar.db,
            receipt.id,
            outcome,
            if outcome == receipts::FinalOutcome::Failed {
                "handwritten chit authorised"
            } else {
                ""
            },
            t.shift,
            t.bar.cashier,
            LATER + index as i64,
        )
        .unwrap();
        match outcome {
            receipts::FinalOutcome::Success => {
                receipts::mark_printed(&mut t.bar.db, receipt.id, LATER + index as i64).unwrap()
            }
            receipts::FinalOutcome::Failed => {
                receipts::mark_failed(&mut t.bar.db, receipt.id).unwrap()
            }
        }
        let error = orders::return_to_draft(&mut t.bar.db, order.id).unwrap_err();
        assert!(error.message().contains("must be void"));
        assert_eq!(
            orders::find(&t.bar.db, order.id).unwrap().status,
            orders::Status::Printing
        );
    }
}

#[test]
fn printing_and_issue_require_exact_receipt_destination_coverage() {
    let mut t = trading();
    product_mut(&mut t.bar.db, t.bar.tonic).destination = "KITCHEN".to_owned();
    let order = draft(&mut t);
    orders::add_line(&mut t.bar.db, order.id, t.bar.gin_tonic, Milli::one()).unwrap();
    let bar_receipt = receipts::create_issue(
        &mut t.bar.db,
        order.id,
        receipts::Destination::Bar,
        NOW,
    )
    .unwrap();
    assert!(orders::mark_printing(&mut t.bar.db, order.id).is_err());
    let kitchen_receipt = receipts::create_issue(
        &mut t.bar.db,
        order.id,
        receipts::Destination::Kitchen,
        NOW,
    )
    .unwrap();
    orders::mark_printing(&mut t.bar.db, order.id).unwrap();

    for receipt in [&bar_receipt, &kitchen_receipt] {
        receipts::freeze_rendered_text(&mut t.bar.db, receipt.id, "destination bytes").unwrap();
        receipts::record_first_issue_attempt(
            &mut t.bar.db,
            receipt.id,
            receipts::FinalOutcome::Success,
            "",
            t.shift,
            t.bar.cashier,
            LATER,
        )
        .unwrap();
    }
    receipts::mark_printed(&mut t.bar.db, bar_receipt.id, LATER).unwrap();
    assert!(orders::mark_issued(&mut t.bar.db, order.id, LATER).is_err());
    receipts::mark_printed(&mut t.bar.db, kitchen_receipt.id, LATER).unwrap();
    orders::mark_issued(&mut t.bar.db, order.id, LATER).unwrap();
}

#[test]
fn terminal_order_states_cannot_be_reopened() {
    let mut t = trading();
    let order = draft(&mut t);
    orders::abandon(&mut t.bar.db, order.id).unwrap();
    let err = orders::carry_draft(&mut t.bar.db, order.id, t.shift).unwrap_err();
    assert!(err.message().contains("abandoned"), "got: {err:?}");
}

#[test]
fn correction_disposition_is_computed_and_invalid_returns_are_refused() {
    let reduced = orders::CorrectionDelta::new(
        7,
        Milli::from_units(5),
        Milli::from_units(2),
        Milli::one(),
        "one sealed bottle",
    )
    .unwrap();
    assert_eq!(reduced.delta, Milli::from_units(-3));
    assert_eq!(reduced.written_off, Milli::from_units(2));

    assert!(
        orders::CorrectionDelta::new(7, Milli::one(), Milli::from_units(2), Milli::one(), "").is_err(),
    );
    assert!(
        orders::CorrectionDelta::new(
            7,
            Milli::one(),
            Milli::zero(),
            Milli::from_units(2),
            "",
        )
        .is_err()
    );
}

#[test]
fn frozen_correction_intent_copies_exactly_to_append_only_history() {
    let mut t = trading();
    let (original, receipt) = issued(t.bar.beer_bottle, &mut t);
    let replacement =
        orders::create_replacement(&mut t.bar.db, original.id, t.bar.cashier, LATER).unwrap();
    let original_line = orders::lines(&t.bar.db, original.id).remove(0);
    orders::add_line_from_original(
        &mut t.bar.db,
        replacement.id,
        original_line.id,
        Milli::from_thousandths(500),
    )
    .unwrap();
    let delta = orders::CorrectionDelta::new(
        t.bar.beer,
        Milli::one(),
        Milli::from_thousandths(500),
        Milli::from_thousandths(250),
        "half returned",
    )
    .unwrap();
    let pending = orders::freeze_correction(
        &mut t.bar.db,
        orders::NewCorrection {
            original_order_id: original.id,
            replacement_order_id: replacement.id,
            issue_receipt_number: &receipt.receipt_number,
            reason: "wrong quantity",
            shift_id: t.shift,
            created_by: t.bar.cashier,
            created_at: LATER,
        },
        std::slice::from_ref(&delta),
    )
    .unwrap();
    assert_eq!(pending.lines, [delta.clone()]);
    assert_eq!(orders::pending_corrections(&t.bar.db).len(), 1);

    let replacement_receipt = receipts::create_issue(
        &mut t.bar.db,
        replacement.id,
        receipts::Destination::Bar,
        LATER,
    )
    .unwrap();
    orders::mark_printing(&mut t.bar.db, replacement.id).unwrap();
    receipts::freeze_rendered_text(&mut t.bar.db, replacement_receipt.id, "replacement BR bytes")
        .unwrap();
    receipts::record_first_issue_attempt(
        &mut t.bar.db,
        replacement_receipt.id,
        receipts::FinalOutcome::Success,
        "",
        t.shift,
        t.bar.cashier,
        LATER + 1,
    )
    .unwrap();
    receipts::mark_printed(&mut t.bar.db, replacement_receipt.id, LATER + 1).unwrap();
    orders::mark_issued(&mut t.bar.db, replacement.id, LATER + 1).unwrap();

    let applied = orders::apply_pending_correction(&mut t.bar.db, pending.id).unwrap();
    assert_eq!(applied.kind, orders::CorrectionKind::Correction);
    assert_eq!(applied.lines, [delta]);
    orders::mark_replaced(&mut t.bar.db, original.id).unwrap();
    orders::clear_pending_correction(&mut t.bar.db, pending.id).unwrap();
    assert!(orders::pending_corrections(&t.bar.db).is_empty());
    assert_eq!(
        orders::find(&t.bar.db, original.id).unwrap().status,
        orders::Status::Replaced
    );
}

#[test]
fn pending_correction_cannot_be_cleared_before_completion_or_abandonment() {
    for state in [orders::Status::Draft, orders::Status::Printing, orders::Status::Issued] {
        let mut t = trading();
        let (_, replacement, frozen) = frozen_beer_correction(&mut t);

        if state != orders::Status::Draft {
            let receipt = receipts::create_issue(
                &mut t.bar.db,
                replacement.id,
                receipts::Destination::Bar,
                LATER,
            )
            .unwrap();
            orders::mark_printing(&mut t.bar.db, replacement.id).unwrap();
            if state == orders::Status::Issued {
                receipts::freeze_rendered_text(&mut t.bar.db, receipt.id, "replacement BR bytes")
                    .unwrap();
                receipts::record_first_issue_attempt(
                    &mut t.bar.db,
                    receipt.id,
                    receipts::FinalOutcome::Success,
                    "",
                    t.shift,
                    t.bar.cashier,
                    LATER + 1,
                )
                .unwrap();
                receipts::mark_printed(&mut t.bar.db, receipt.id, LATER + 1).unwrap();
                orders::mark_issued(&mut t.bar.db, replacement.id, LATER + 1).unwrap();
            }
        }

        let error = orders::clear_pending_correction(&mut t.bar.db, frozen.id).unwrap_err();
        assert!(
            error
                .message()
                .contains("fully applied or safely abandoned"),
            "state {state:?}: got {error:?}"
        );
        assert_eq!(orders::pending(&t.bar.db, frozen.id).unwrap(), frozen);
    }
}

#[test]
fn correction_with_only_an_untracked_bill_change_needs_no_stock_deltas() {
    let mut t = trading();
    let service_item = untracked_sale_item(&mut t);
    let original = draft(&mut t);
    orders::add_line(&mut t.bar.db, original.id, t.bar.beer_bottle, Milli::one()).unwrap();
    orders::add_line(&mut t.bar.db, original.id, service_item, Milli::one()).unwrap();
    let original_receipt = issue_existing(original.id, NOW, &mut t);

    let replacement =
        orders::create_replacement(&mut t.bar.db, original.id, t.bar.cashier, LATER).unwrap();
    for original_line in orders::lines(&t.bar.db, original.id) {
        let quantity = if original_line.sale_item_id == service_item {
            Milli::from_units(2)
        } else {
            original_line.quantity
        };
        orders::add_line_from_original(&mut t.bar.db, replacement.id, original_line.id, quantity)
            .unwrap();
    }

    let frozen = orders::freeze_correction(
        &mut t.bar.db,
        orders::NewCorrection {
            original_order_id: original.id,
            replacement_order_id: replacement.id,
            issue_receipt_number: &original_receipt.receipt_number,
            reason: "service quantity",
            shift_id: t.shift,
            created_by: t.bar.cashier,
            created_at: LATER,
        },
        &[],
    )
    .unwrap();
    assert!(frozen.lines.is_empty());

    issue_existing(replacement.id, LATER + 1, &mut t);
    let applied = orders::apply_pending_correction(&mut t.bar.db, frozen.id).unwrap();
    assert!(applied.lines.is_empty());
    orders::mark_replaced(&mut t.bar.db, original.id).unwrap();
    orders::clear_pending_correction(&mut t.bar.db, frozen.id).unwrap();
    assert_eq!(
        orders::find(&t.bar.db, original.id).unwrap().status,
        orders::Status::Replaced
    );
}

#[test]
fn correction_cannot_omit_a_changed_tracked_product_delta() {
    let mut t = trading();
    let (original, receipt) = issued(t.bar.beer_bottle, &mut t);
    let replacement =
        orders::create_replacement(&mut t.bar.db, original.id, t.bar.cashier, LATER).unwrap();
    let original_line = orders::lines(&t.bar.db, original.id).remove(0);
    orders::add_line_from_original(
        &mut t.bar.db,
        replacement.id,
        original_line.id,
        Milli::from_thousandths(500),
    )
    .unwrap();

    let error = orders::freeze_correction(
        &mut t.bar.db,
        orders::NewCorrection {
            original_order_id: original.id,
            replacement_order_id: replacement.id,
            issue_receipt_number: &receipt.receipt_number,
            reason: "wrong quantity",
            shift_id: t.shift,
            created_by: t.bar.cashier,
            created_at: LATER,
        },
        &[],
    )
    .unwrap_err();
    assert!(
        error.message().contains("cover every product"),
        "got: {error:?}"
    );
}

#[test]
fn correction_freeze_rejects_unrelated_replacements_and_forged_deltas() {
    let mut t = trading();
    let (first, first_receipt) = issued(t.bar.beer_bottle, &mut t);
    let (second, second_receipt) = issued(t.bar.beer_bottle, &mut t);
    let replacement = orders::create_replacement(
        &mut t.bar.db,
        first.id,
        t.bar.cashier,
        LATER,
    )
    .unwrap();
    let first_line = orders::lines(&t.bar.db, first.id).remove(0);
    orders::add_line_from_original(
        &mut t.bar.db,
        replacement.id,
        first_line.id,
        Milli::from_thousandths(500),
    )
    .unwrap();
    let delta = orders::CorrectionDelta::new(
        t.bar.beer,
        Milli::one(),
        Milli::from_thousandths(500),
        Milli::zero(),
        "not returned",
    )
    .unwrap();

    let unrelated = orders::freeze_correction(
        &mut t.bar.db,
        orders::NewCorrection {
            original_order_id: second.id,
            replacement_order_id: replacement.id,
            issue_receipt_number: &second_receipt.receipt_number,
            reason: "wrong quantity",
            shift_id: t.shift,
            created_by: t.bar.cashier,
            created_at: LATER,
        },
        std::slice::from_ref(&delta),
    )
    .unwrap_err();
    assert!(unrelated.message().contains("linked draft replacement"));

    let mut forged = delta.clone();
    forged.before = Milli::from_units(9);
    let forged_error = orders::freeze_correction(
        &mut t.bar.db,
        orders::NewCorrection {
            original_order_id: first.id,
            replacement_order_id: replacement.id,
            issue_receipt_number: &first_receipt.receipt_number,
            reason: "wrong quantity",
            shift_id: t.shift,
            created_by: t.bar.cashier,
            created_at: LATER,
        },
        &[forged],
    )
    .unwrap_err();
    assert!(forged_error.message().contains("frozen order recipes"));

    let duplicate_error = orders::freeze_correction(
        &mut t.bar.db,
        orders::NewCorrection {
            original_order_id: first.id,
            replacement_order_id: replacement.id,
            issue_receipt_number: &first_receipt.receipt_number,
            reason: "wrong quantity",
            shift_id: t.shift,
            created_by: t.bar.cashier,
            created_at: LATER,
        },
        &[delta.clone(), delta],
    )
    .unwrap_err();
    assert!(duplicate_error.message().contains("exactly one delta"));
}

#[test]
fn a_void_persists_its_typed_receipt_and_physical_disposition() {
    let mut t = trading();
    let (order, receipt) = issued(t.bar.beer_bottle, &mut t);
    let delta = orders::CorrectionDelta::new(
        t.bar.beer,
        Milli::one(),
        Milli::zero(),
        Milli::from_thousandths(750),
        "sealed return",
    )
    .unwrap();
    let stored = orders::record_void(
        &mut t.bar.db,
        orders::NewVoid {
            original_order_id: order.id,
            issue_receipt_number: &receipt.receipt_number,
            reason: "duplicate round",
            shift_id: t.shift,
            created_by: t.bar.cashier,
            created_at: LATER + 2,
        },
        &[delta],
    )
    .unwrap();
    let mismatched = orders::mark_voided(
        &mut t.bar.db,
        order.id,
        "different reason",
        LATER + 2,
        t.bar.cashier,
    )
    .unwrap_err();
    assert!(mismatched
        .message()
        .contains("record the void correction"));
    orders::mark_voided(
        &mut t.bar.db,
        order.id,
        "duplicate round",
        LATER + 2,
        t.bar.cashier,
    )
    .unwrap();
    assert_eq!(stored.kind, orders::CorrectionKind::Void);
    assert_eq!(stored.replacement_order_id, None);
    assert_eq!(stored.lines[0].written_off, Milli::from_thousandths(250));
    assert_eq!(orders::find(&t.bar.db, order.id).unwrap().status, orders::Status::Voided);
}

#[test]
fn voiding_an_untracked_bill_needs_no_stock_deltas() {
    let mut t = trading();
    let service_item = untracked_sale_item(&mut t);
    let (order, receipt) = issued(service_item, &mut t);

    let stored = orders::record_void(
        &mut t.bar.db,
        orders::NewVoid {
            original_order_id: order.id,
            issue_receipt_number: &receipt.receipt_number,
            reason: "service cancelled",
            shift_id: t.shift,
            created_by: t.bar.cashier,
            created_at: LATER + 2,
        },
        &[],
    )
    .unwrap();
    assert!(stored.lines.is_empty());

    orders::mark_voided(
        &mut t.bar.db,
        order.id,
        "service cancelled",
        LATER + 2,
        t.bar.cashier,
    )
    .unwrap();
    assert_eq!(orders::find(&t.bar.db, order.id).unwrap().status, orders::Status::Voided);
}

#[test]
fn a_closed_tab_cannot_be_voided_or_restate_its_frozen_bill() {
    let mut t = trading();
    let (order, receipt) = issued(t.bar.beer_bottle, &mut t);
    close_tab_row(&mut t.bar.db, t.tab, t.shift, LATER, t.bar.cashier);
    let delta = orders::CorrectionDelta::new(
        t.bar.beer,
        Milli::one(),
        Milli::zero(),
        Milli::zero(),
        "not returned",
    )
    .unwrap();
    let error = orders::record_void(
        &mut t.bar.db,
        orders::NewVoid {
            original_order_id: order.id,
            issue_receipt_number: &receipt.receipt_number,
            reason: "too late",
            shift_id: t.shift,
            created_by: t.bar.cashier,
            created_at: LATER,
        },
        &[delta],
    )
    .unwrap_err();
    assert!(error.message().contains("open tab and shift"));
    assert_eq!(orders::find(&t.bar.db, order.id).unwrap().status, orders::Status::Issued);
}

#[test]
fn till_order_operations_require_an_active_cashier() {
    let mut t = trading();
    let create_as_owner = orders::create(
        &mut t.bar.db,
        orders::NewDraft {
            tab_id: t.tab,
            shift_id: t.shift,
            cashier_id: t.bar.owner,
            created_at: NOW,
        },
    )
    .unwrap_err();
    assert!(create_as_owner.message().contains("active cashier"));

    let (original, receipt) = issued(t.bar.beer_bottle, &mut t);
    let replacement_as_owner =
        orders::create_replacement(&mut t.bar.db, original.id, t.bar.owner, LATER).unwrap_err();
    assert!(replacement_as_owner.message().contains("active cashier"));
    let replacement =
        orders::create_replacement(&mut t.bar.db, original.id, t.bar.cashier, LATER).unwrap();
    let delta = orders::CorrectionDelta::new(
        t.bar.beer,
        Milli::one(),
        Milli::zero(),
        Milli::zero(),
        "not returned",
    )
    .unwrap();

    let freeze_as_owner = orders::freeze_correction(
        &mut t.bar.db,
        orders::NewCorrection {
            original_order_id: original.id,
            replacement_order_id: replacement.id,
            issue_receipt_number: &receipt.receipt_number,
            reason: "wrong round",
            shift_id: t.shift,
            created_by: t.bar.owner,
            created_at: LATER,
        },
        std::slice::from_ref(&delta),
    )
    .unwrap_err();
    assert!(freeze_as_owner.message().contains("active cashier"));

    let void_as_owner = orders::record_void(
        &mut t.bar.db,
        orders::NewVoid {
            original_order_id: original.id,
            issue_receipt_number: &receipt.receipt_number,
            reason: "wrong round",
            shift_id: t.shift,
            created_by: t.bar.owner,
            created_at: LATER,
        },
        std::slice::from_ref(&delta),
    )
    .unwrap_err();
    assert!(void_as_owner.message().contains("active cashier"));

    let mark_as_owner =
        orders::mark_voided(
            &mut t.bar.db,
            original.id,
            "wrong round",
            LATER,
            t.bar.owner,
        )
        .unwrap_err();
    assert!(mark_as_owner.message().contains("active cashier"));

    person_mut(&mut t.bar.db, t.bar.cashier).active = false;
    let create_as_inactive = orders::create(
        &mut t.bar.db,
        orders::NewDraft {
            tab_id: t.tab,
            shift_id: t.shift,
            cashier_id: t.bar.cashier,
            created_at: LATER,
        },
    )
    .unwrap_err();
    assert!(create_as_inactive.message().contains("active cashier"));
}

fn insert_payment(db: &mut Store, tab: i64, waiter: i64, shift: i64, by: i64, at: i64) {
    let id = db.payments.len() as i64 + 1;
    db.payments.push(cash::TabPayment {
        id,
        tab_id: tab,
        waiter_id: waiter,
        subtotal: Money::from_minor(10000),
        service_charge: Money::from_minor(1000),
        tax: Money::from_minor(1500),
        total: Money::from_minor(12500),
        liability: Money::from_minor(12500),
        is_comped: false,
        comp_reason: None,
        tax_rate: BasisPoints(1500),
        service_rate: BasisPoints(1000),
        tax_inclusive: false,
        charge_rates_known: true,
        shift_id: shift,
        created_by: by,
        created_at: at,
    });
}

struct Billing {
    bar: Bar,
    shift: i64,
    tab: i64,
}

fn billing() -> Billing {
    let mut bar = bar();
    let shift = insert_shift(&mut bar.db, bar.cashier);
    let tab = insert_tab(
        &mut bar.db,
        "TAB-000001",
        shift,
        bar.sara,
        "8",
        "Table 8",
        Some("TIN-123"),
        bar.cashier,
    );
    Billing { bar, shift, tab }
}

fn draft_with_line(t: &mut Billing) -> orders::Order {
    let order = orders::create(
        &mut t.bar.db,
        orders::NewDraft {
            tab_id: t.tab,
            shift_id: t.shift,
            cashier_id: t.bar.cashier,
            created_at: NOW,
        },
    )
    .unwrap();
    orders::add_line(&mut t.bar.db, order.id, t.bar.beer_bottle, Milli::one()).unwrap();
    order
}

fn close_with_bill(t: &mut Billing) {
    close_tab_row(&mut t.bar.db, t.tab, t.shift, LATER, t.bar.cashier);
    insert_payment(&mut t.bar.db, t.tab, t.bar.sara, t.shift, t.bar.cashier, LATER);
}

fn printed_issue(t: &mut Billing) -> (orders::Order, receipts::Receipt) {
    let order = draft_with_line(t);
    let receipt = receipts::create_issue(
        &mut t.bar.db,
        order.id,
        receipts::Destination::Bar,
        NOW,
    )
    .unwrap();
    orders::mark_printing(&mut t.bar.db, order.id).unwrap();
    receipts::freeze_rendered_text(&mut t.bar.db, receipt.id, "BR immutable bytes\n").unwrap();
    receipts::record_first_issue_attempt(
        &mut t.bar.db,
        receipt.id,
        receipts::FinalOutcome::Success,
        "",
        t.shift,
        t.bar.cashier,
        LATER,
    )
    .unwrap();
    receipts::mark_printed(&mut t.bar.db, receipt.id, LATER).unwrap();
    orders::mark_issued(&mut t.bar.db, order.id, LATER).unwrap();
    (
        orders::find(&t.bar.db, order.id).unwrap(),
        receipts::find(&t.bar.db, receipt.id).unwrap(),
    )
}

#[test]
fn issue_identity_and_sequence_are_consumed_in_the_callers_transaction() {
    let mut t = billing();
    let order = draft_with_line(&mut t);
    {
        // What is done to a copy that is never kept leaves no trace.
        let mut scratch = billing();
        let order = draft_with_line(&mut scratch);
        let receipt =
            receipts::create_issue(&mut scratch.bar.db, order.id, receipts::Destination::Bar, NOW)
                .unwrap();
        assert_eq!(
            (receipt.sequence_no, receipt.receipt_number.as_str()),
            (1, "BR-000001")
        );
    }
    let next_value: i64 = t.bar.db.sequences.peek(Counter::IssueReceipt);
    let count: i64 = t.bar.db.receipts.len() as i64;
    assert_eq!(
        (next_value, count),
        (1, 0),
        "number and receipt roll back together"
    );

    let receipt = receipts::create_issue(
        &mut t.bar.db,
        order.id,
        receipts::Destination::Bar,
        NOW,
    )
    .unwrap();
    assert_eq!(receipt.receipt_number, "BR-000001");
    assert!(
        receipts::create_issue(&mut t.bar.db, order.id, receipts::Destination::Bar, NOW).is_err(),
    );
    receipts::mark_void(&mut t.bar.db, receipt.id).unwrap();
    let replacement_number =
        receipts::create_issue(&mut t.bar.db, order.id, receipts::Destination::Bar, LATER).unwrap();
    assert_eq!(replacement_number.receipt_number, "BR-000002");
    assert_eq!(
        receipts::find_by_number(&t.bar.db, "BR-000001").unwrap().status,
        receipts::Status::Void
    );
}

#[test]
fn customer_receipt_copies_the_frozen_bill_and_has_its_own_identity() {
    let mut t = billing();
    close_with_bill(&mut t);
    let printing_cashier = staff_member(&mut t.bar.db, "CSH-2", "Marta", "CASHIER");
    let receipt = receipts::create_customer(&mut t.bar.db, t.tab, printing_cashier, LATER).unwrap();
    assert_eq!(receipt.kind, receipts::Kind::Customer);
    assert_eq!(receipt.receipt_number, "CR-000001");
    assert_eq!(receipt.waiter_name, "Sara");
    // Abel closed and froze the bill. Marta happens to print it later;
    // that must not rewrite who actually closed the tab.
    assert_eq!(receipt.cashier_name.as_deref(), Some("Abel"));
    assert_eq!(receipt.customer_tin.as_deref(), Some("TIN-123"));
    assert_eq!(receipt.subtotal, Some(Money::from_minor(10_000)));
    assert_eq!(receipt.service_charge, Some(Money::from_minor(1_000)));
    assert_eq!(receipt.tax, Some(Money::from_minor(1_500)));
    assert_eq!(receipt.total, Some(Money::from_minor(12_500)));
    assert_eq!(receipt.tax_rate, Some(BasisPoints(1_500)));
    assert_eq!(receipt.service_rate, Some(BasisPoints(1_000)));
    assert_eq!(receipt.tax_inclusive, Some(false));
    assert!(receipts::create_customer(&mut t.bar.db, t.tab, t.bar.cashier, LATER + 1).is_err());
    assert_eq!(receipts::for_tab(&t.bar.db, t.tab).unwrap().id, receipt.id);
    tab_mut(&mut t.bar.db, t.tab).customer_tin = Some("TIN-CHANGED".to_owned());
    assert_eq!(
        receipts::find(&t.bar.db, receipt.id)
            .unwrap()
            .customer_tin
            .as_deref(),
        Some("TIN-123"),
        "the fiscal identity is frozen"
    );
    let next_customer: i64 = t.bar.db.sequences.peek(Counter::CustomerReceipt);
    assert_eq!(
        next_customer, 2,
        "a known duplicate refusal burns no CR number"
    );
}

#[test]
fn rendered_text_and_receipt_identity_are_immutable() {
    let mut t = billing();
    let (_, receipt) = printed_issue(&mut t);
    assert_eq!(
        receipt.rendered_text.as_deref(),
        Some("BR immutable bytes\n")
    );
    assert!(receipts::freeze_rendered_text(&mut t.bar.db, receipt.id, "changed bytes").is_err());
    person_mut(&mut t.bar.db, t.bar.sara).name = "Someone else".to_owned();
    assert_eq!(receipts::find(&t.bar.db, receipt.id).unwrap(), receipt);
    assert_eq!(receipts::find(&t.bar.db, receipt.id).unwrap().waiter_name, "Sara");
}

#[test]
fn customer_attempt_is_unknown_before_io_and_can_be_answered_once() {
    let mut t = billing();
    close_with_bill(&mut t);
    let receipt = receipts::create_customer(&mut t.bar.db, t.tab, t.bar.cashier, LATER).unwrap();
    receipts::freeze_rendered_text(&mut t.bar.db, receipt.id, "CR immutable bytes").unwrap();
    let attempt =
        receipts::begin_attempt(
            &mut t.bar.db,
            receipt.id,
            "",
            t.shift,
            t.bar.cashier,
            LATER,
        )
        .unwrap();
    assert_eq!((attempt.print_no, attempt.outcome), (1, receipts::Outcome::Unknown));
    assert_eq!(receipts::unresolved_attempts(&t.bar.db), [attempt.clone()]);
    assert!(receipts::begin_attempt(
        &mut t.bar.db,
        receipt.id,
        "duplicate",
        t.shift,
        t.bar.cashier,
        LATER
    )
    .is_err());

    let resolved = receipts::resolve_attempt(
        &mut t.bar.db,
        attempt.id,
        receipts::FinalOutcome::Success,
    )
    .unwrap();
    assert_eq!(resolved.outcome, receipts::Outcome::Success);
    assert!(
        receipts::resolve_attempt(&mut t.bar.db, attempt.id, receipts::FinalOutcome::Failed).is_err(),
    );
    receipts::mark_printed(&mut t.bar.db, receipt.id, LATER + 1).unwrap();
    assert_eq!(
        receipts::find(&t.bar.db, receipt.id).unwrap().status,
        receipts::Status::Printed
    );
}

#[test]
fn failed_first_customer_print_retries_the_same_cr_number() {
    let mut t = billing();
    close_with_bill(&mut t);
    let receipt = receipts::create_customer(&mut t.bar.db, t.tab, t.bar.cashier, LATER).unwrap();
    receipts::freeze_rendered_text(&mut t.bar.db, receipt.id, "CR retry bytes").unwrap();

    let first =
        receipts::begin_attempt(
            &mut t.bar.db,
            receipt.id,
            "",
            t.shift,
            t.bar.cashier,
            LATER,
        )
        .unwrap();
    receipts::resolve_attempt(&mut t.bar.db, first.id, receipts::FinalOutcome::Failed).unwrap();
    receipts::mark_failed(&mut t.bar.db, receipt.id).unwrap();

    let retry = receipts::begin_attempt(
        &mut t.bar.db,
        receipt.id,
        "first print failed",
        t.shift,
        t.bar.cashier,
        LATER + 1,
    )
    .unwrap();
    assert_eq!((retry.print_no, retry.outcome), (2, receipts::Outcome::Unknown));
    assert_eq!(
        receipts::find(&t.bar.db, receipt.id).unwrap().receipt_number,
        "CR-000001"
    );
    receipts::resolve_attempt(&mut t.bar.db, retry.id, receipts::FinalOutcome::Success).unwrap();
    receipts::mark_printed(&mut t.bar.db, receipt.id, LATER + 2).unwrap();

    let final_receipt = receipts::find(&t.bar.db, receipt.id).unwrap();
    assert_eq!(final_receipt.status, receipts::Status::Printed);
    assert_eq!(final_receipt.receipt_number, "CR-000001");
    assert_eq!(receipts::attempts(&t.bar.db, receipt.id).len(), 2);
    let next_cr: i64 = t.bar.db.sequences.peek(Counter::CustomerReceipt);
    assert_eq!(next_cr, 2, "retrying the first print allocates no new CR");
}

#[test]
fn reprints_keep_receipt_identity_and_require_a_reason() {
    let mut t = billing();
    let (_, receipt) = printed_issue(&mut t);
    assert!(receipts::begin_attempt(
        &mut t.bar.db,
        receipt.id,
        "",
        t.shift,
        t.bar.cashier,
        LATER + 1
    )
    .is_err());
    let reprint = receipts::begin_attempt(
        &mut t.bar.db,
        receipt.id,
        "customer copy damaged",
        t.shift,
        t.bar.cashier,
        LATER + 1,
    )
    .unwrap();
    assert_eq!((reprint.print_no, reprint.outcome), (2, receipts::Outcome::Unknown));
    receipts::resolve_attempt(&mut t.bar.db, reprint.id, receipts::FinalOutcome::Failed).unwrap();
    assert_eq!(
        receipts::find(&t.bar.db, receipt.id).unwrap().receipt_number,
        receipt.receipt_number
    );
    assert_eq!(receipts::attempts(&t.bar.db, receipt.id).len(), 2);
}

#[test]
fn failed_issue_attempts_require_reason_and_permit_the_handwritten_path() {
    let mut t = billing();
    let order = draft_with_line(&mut t);
    let receipt = receipts::create_issue(
        &mut t.bar.db,
        order.id,
        receipts::Destination::Bar,
        NOW,
    )
    .unwrap();
    orders::mark_printing(&mut t.bar.db, order.id).unwrap();
    receipts::freeze_rendered_text(&mut t.bar.db, receipt.id, "BR failed bytes").unwrap();
    assert!(receipts::record_first_issue_attempt(
        &mut t.bar.db,
        receipt.id,
        receipts::FinalOutcome::Failed,
        "",
        t.shift,
        t.bar.cashier,
        LATER
    )
    .is_err());
    receipts::record_first_issue_attempt(
        &mut t.bar.db,
        receipt.id,
        receipts::FinalOutcome::Failed,
        "Printer failed; handwritten chit authorised",
        t.shift,
        t.bar.cashier,
        LATER,
    )
    .unwrap();
    receipts::mark_failed(&mut t.bar.db, receipt.id).unwrap();
    orders::mark_issued(&mut t.bar.db, order.id, LATER).unwrap();
    assert_eq!(
        receipts::find(&t.bar.db, receipt.id).unwrap().status,
        receipts::Status::Failed
    );
    assert_eq!(
        orders::find(&t.bar.db, order.id).unwrap().status,
        orders::Status::Issued
    );
}

#[test]
fn no_attempt_can_be_recorded_before_exact_rendered_text_is_frozen() {
    let mut t = billing();
    let issue_order = draft_with_line(&mut t);
    let issue =
        receipts::create_issue(
            &mut t.bar.db,
            issue_order.id,
            receipts::Destination::Bar,
            NOW,
        )
        .unwrap();
    orders::mark_printing(&mut t.bar.db, issue_order.id).unwrap();
    let issue_error = receipts::record_first_issue_attempt(
        &mut t.bar.db,
        issue.id,
        receipts::FinalOutcome::Success,
        "",
        t.shift,
        t.bar.cashier,
        LATER,
    )
    .unwrap_err();
    assert!(issue_error
        .message()
        .contains("first pending issue attempt"));

    close_with_bill(&mut t);
    let customer = receipts::create_customer(&mut t.bar.db, t.tab, t.bar.cashier, LATER).unwrap();
    let customer_error =
        receipts::begin_attempt(
            &mut t.bar.db,
            customer.id,
            "",
            t.shift,
            t.bar.cashier,
            LATER,
        )
        .unwrap_err();
    assert!(customer_error
        .message()
        .contains("freeze the receipt text"));
    assert!(receipts::attempts(&t.bar.db, issue.id).is_empty());
    assert!(receipts::attempts(&t.bar.db, customer.id).is_empty());
}

#[test]
fn till_operations_refuse_owner_and_inactive_cashier_identities() {
    let mut t = billing();
    close_with_bill(&mut t);
    let owner = receipts::create_customer(&mut t.bar.db, t.tab, t.bar.owner, LATER).unwrap_err();
    assert!(owner.message().contains("active cashier"), "got: {owner:?}");

    person_mut(&mut t.bar.db, t.bar.cashier).active = false;
    let inactive = receipts::create_customer(
        &mut t.bar.db,
        t.tab,
        t.bar.cashier,
        LATER,
    )
    .unwrap_err();
    assert!(
        inactive.message().contains("active cashier"),
        "got: {inactive:?}"
    );
}

#[test]
fn customer_receipt_requires_a_trading_shift_before_allocating_cr() {
    let mut t = billing();
    close_with_bill(&mut t);
    shift_mut(&mut t.bar.db, t.shift).status = shifts::Status::Closing;
    let error = receipts::create_customer(&mut t.bar.db, t.tab, t.bar.cashier, LATER).unwrap_err();
    assert!(error.message().contains("shift is open"), "got: {error:?}");
    let next_value: i64 = t.bar.db.sequences.peek(Counter::CustomerReceipt);
    assert_eq!(next_value, 1, "a closed-venue refusal burns no CR number");
}

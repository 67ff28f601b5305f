//! What waiters hold, what the drawer holds, and what a night came to.

use servepoint::money::{Milli, Money};
use servepoint::repo::{
    cash, catalogue, orders, reports, shifts, staff, stock, tabs, RepoError,
};
use servepoint::report;
use servepoint::settings::{self, keys, SettingRow};
use servepoint::settlement;
use servepoint::state::Session;
use servepoint::store::Store;
use servepoint::trading;

const NOW: i64 = 1_754_000_000_000; // 2025-08-01, mid-evening UTC

struct Bar {
    db: Store,
    owner: i64,
    cashier: i64,
    sara: i64,
    dawit: i64,
    /// Beer: one base unit per pack, sold as a bottle.
    beer: i64,
    beer_bottle: i64,
    /// Gin: 24 shots per bottle, sold as a shot and inside a cocktail.
    gin: i64,
    gin_shot: i64,
    gin_tonic: i64,
    tonic: i64,
}

/// A till with the settings it is shipped with and nothing else in it.
fn fresh() -> Store {
    let mut db = Store::new();
    for (key, value) in [
        (keys::TAX_ENABLED, "0"),
        (keys::TAX_RATE_BP, "1500"),
        (keys::TAX_INCLUSIVE, "0"),
        (keys::SERVICE_ENABLED, "1"),
        (keys::SERVICE_RATE_BP, "1000"),
        (keys::DAY_START, "18:00"),
        (keys::DAY_END, "06:00"),
        (keys::TABS_REFERENCE_MODE, "TABLE"),
        (keys::TABS_AGE_WARNING_DAYS, "7"),
        (keys::TABS_ASK_CUSTOMER_TIN, "0"),
        (keys::COMPS_ENABLED, "0"),
        (keys::PARTIAL_ENABLED, "1"),
        (keys::BANK_ACCOUNTS, ""),
        (keys::QR_ENABLED, "0"),
        (keys::PRINT_REPORT, "0"),
        (keys::PRINT_CUSTOMER_RECEIPT, "1"),
        (keys::SHOW_COST, "0"),
        (keys::BUSINESS_NAME, ""),
        (keys::ADDRESS, ""),
        (keys::PHONE, ""),
        (keys::TIN, ""),
        (keys::FOOTER, ""),
        (keys::CHARS_PER_LINE, "32"),
        (keys::CURRENCY_CODE, ""),
        (keys::ROUNDING, "NONE"),
        (keys::SETUP_COMPLETED, "0"),
    ] {
        db.settings.push(SettingRow {
            key: key.to_owned(),
            value: value.to_owned(),
            updated_at: 0,
            updated_by: None,
        });
    }
    db
}

/// A venue with just enough in it to trade.
fn bar() -> Bar {
    let mut db = fresh();

    let owner = staff_member(&mut db, "OWN-1", "Selam", "OWNER");
    let cashier = staff_member(&mut db, "CSH-1", "Abel", "CASHIER");
    let sara = staff_member(&mut db, "WTR-1", "Sara", "WAITER");
    let dawit = staff_member(&mut db, "WTR-2", "Dawit", "WAITER");

    let beer = product(&mut db, "P-BEER", "Beer", "BOTTLE", 1_000);
    let gin = product(&mut db, "P-GIN", "Gin", "SHOT", 24_000);
    let tonic = product(&mut db, "P-TONIC", "Tonic", "BOTTLE", 1_000);

    let beer_bottle = sale_item(&mut db, "S-BEER", "Beer", "Bottles", 5_000);
    let gin_shot = sale_item(&mut db, "S-GIN", "Gin shot", "Shots", 8_000);
    let gin_tonic = sale_item(&mut db, "S-GT", "Gin & Tonic", "Cocktails", 15_000);

    recipe(&mut db, beer_bottle, &[(beer, 1_000)]);
    recipe(&mut db, gin_shot, &[(gin, 1_000)]);
    // Two measures written as two lines, deliberately.
    recipe(
        &mut db,
        gin_tonic,
        &[(gin, 1_000), (gin, 1_000), (tonic, 500)],
    );

    Bar {
        db,
        owner,
        cashier,
        sara,
        dawit,
        beer,
        beer_bottle,
        gin,
        gin_shot,
        gin_tonic,
        tonic,
    }
}

fn staff_member(db: &mut Store, code: &str, name: &str, role: &str) -> i64 {
    let role = staff::Role::parse(role).unwrap();
    let pin = if role.authenticates() {
        Some(("salt", "hash"))
    } else {
        None
    };
    staff::add(db, code, name, role, pin, NOW).unwrap()
}

fn product(db: &mut Store, code: &str, name: &str, unit: &str, per_pack: i64) -> i64 {
    let id = catalogue::add_product(
        db,
        &catalogue::NewProduct {
            code,
            name,
            category: "",
            base_unit: unit,
            base_units_per_pack: Milli::from_thousandths(per_pack),
            units_per_purchase_pack: 1,
            low_stock_threshold: Milli::from_thousandths(3_000),
            tracks_inventory: true,
            destination: "BAR",
            content_measure: "NONE",
            content_per_unit: Milli::zero(),
        },
        NOW,
    )
    .unwrap();
    product_mut(db, id).avg_cost = Money::from_minor(10_000);
    id
}

fn sale_item(db: &mut Store, code: &str, name: &str, category: &str, price: i64) -> i64 {
    let new = catalogue::NewSaleItem {
        code,
        name,
        category,
    };
    let id = catalogue::add_sale_item(db, &new, NOW).unwrap();
    let price_id = db.prices.len() as i64 + 1;
    db.prices.push(catalogue::Price {
        id: price_id,
        sale_item_id: id,
        price: Money::from_minor(price),
        effective_from: NOW,
        effective_to: None,
        created_by: None,
    });
    id
}

fn recipe(db: &mut Store, sale_item_id: i64, lines: &[(i64, i64)]) -> i64 {
    let id = db.recipes.len() as i64 + 1;
    db.recipes.push(catalogue::Recipe {
        id,
        sale_item_id,
        version: 1,
        effective_from: NOW,
        effective_to: None,
        created_by: None,
    });
    for (product_id, quantity) in lines {
        db.recipe_lines.push(catalogue::RecipeLine {
            recipe_id: id,
            product_id: *product_id,
            quantity: Milli::from_thousandths(*quantity),
        });
    }
    id
}

/// Put stock on the shelf without going through a purchase.
fn stock_up(db: &mut Store, product_id: i64, milli: i64, by: i64) {
    stock::post(
        db,
        &stock::Movement::new(
            product_id,
            stock::Kind::StockCorrection,
            Milli::from_thousandths(milli),
            NOW,
            by,
        )
        .because("opening count"),
    )
    .unwrap();
}

fn product_mut(db: &mut Store, id: i64) -> &mut catalogue::Product {
    let row = db.products.iter_mut().find(|row| row.product.id == id);
    &mut row.unwrap().product
}

fn order_mut(db: &mut Store, id: i64) -> &mut orders::Order {
    db.orders.iter_mut().find(|order| order.id == id).unwrap()
}

fn tab_mut(db: &mut Store, id: i64) -> &mut tabs::Tab {
    db.tabs.iter_mut().find(|tab| tab.id == id).unwrap()
}

fn open_recipe(db: &Store, sale_item_id: i64) -> i64 {
    db.recipes
        .iter()
        .find(|recipe| recipe.sale_item_id == sale_item_id && recipe.effective_to.is_none())
        .unwrap()
        .id
}

fn insert_tab(
    db: &mut Store,
    code: &str,
    shift: i64,
    waiter: i64,
    table_no: &str,
    label: &str,
    tin: Option<&str>,
    cashier: i64,
) -> i64 {
    let id = db.tabs.len() as i64 + 1;
    db.tabs.push(tabs::Tab {
        id,
        code: code.to_owned(),
        opened_shift_id: shift,
        waiter_id: waiter,
        reference_mode: tabs::ReferenceMode::Table,
        table_no: Some(table_no.to_owned()),
        customer_name: None,
        customer_phone: None,
        custom_ref: None,
        display_label: label.to_owned(),
        customer_tin: tin.map(str::to_owned),
        status: tabs::Status::Open,
        opened_at: NOW,
        opened_by: cashier,
        closed_shift_id: None,
        closed_at: None,
        closed_by: None,
        is_comped: false,
    });
    id
}

fn insert_order(db: &mut Store, tab: i64, shift: i64, waiter: i64, cashier: i64) -> i64 {
    let id = db.orders.len() as i64 + 1;
    db.orders.push(orders::Order {
        id,
        tab_id: tab,
        shift_id: shift,
        waiter_id: waiter,
        cashier_id: cashier,
        status: orders::Status::Draft,
        created_at: NOW,
        issued_at: None,
        replaces_order_id: None,
        root_order_id: None,
        void_reason: None,
        voided_at: None,
        voided_by: None,
    });
    id
}

fn insert_line(db: &mut Store, order: i64, item: i64, recipe: i64, price: i64) {
    let id = db.order_lines.len() as i64 + 1;
    db.order_lines.push(orders::Line {
        id,
        order_id: order,
        sale_item_id: item,
        sale_item_name: "Beer".to_owned(),
        recipe_id: recipe,
        quantity: Milli::from_thousandths(1000),
        unit_price: Money::from_minor(price),
        line_total: Money::from_minor(price),
    });
}

fn issue_order_row(db: &mut Store, order: i64, at: i64) {
    let order = order_mut(db, order);
    order.status = orders::Status::Issued;
    order.issued_at = Some(at);
}

fn close_tab_row(db: &mut Store, tab: i64, shift: i64, at: i64, by: i64) {
    let tab = tab_mut(db, tab);
    tab.status = tabs::Status::Closed;
    tab.closed_shift_id = Some(shift);
    tab.closed_at = Some(at);
    tab.closed_by = Some(by);
}

const LATER: i64 = NOW + 1_000;
const END: i64 = NOW + 8 * 60 * 60 * 1_000;

fn open_shift(float: i64, bar: &mut Bar) -> shifts::Shift {
    shifts::open(
        &mut bar.db,
        &shifts::NewShift {
            business_date: "2025-07-31",
            opened_at: NOW,
            opened_by: bar.cashier,
            opening_float: Money::from_minor(float),
            expected_end_at: END,
        },
    )
    .unwrap()
}

fn close_tab_with_payment(
    shift: i64,
    waiter: i64,
    suffix: &str,
    liability: i64,
    bar: &mut Bar,
) -> i64 {
    let tab_id = insert_tab(
        &mut bar.db,
        &format!("TAB-{suffix}"),
        shift,
        waiter,
        suffix,
        &format!("Table {suffix}"),
        None,
        bar.cashier,
    );
    let order_id = insert_order(&mut bar.db, tab_id, shift, waiter, bar.cashier);
    let recipe_id: i64 = open_recipe(&bar.db, bar.beer_bottle);
    insert_line(&mut bar.db, order_id, bar.beer_bottle, recipe_id, liability);
    order_mut(&mut bar.db, order_id).status = orders::Status::Printing;
    issue_order_row(&mut bar.db, order_id, LATER);
    close_tab_row(&mut bar.db, tab_id, shift, LATER, bar.cashier);
    cash::freeze_payment(
        &mut bar.db,
        &cash::NewTabPayment {
            tab_id,
            comp_reason: None,
            shift_id: shift,
            created_by: bar.cashier,
            created_at: LATER,
        },
    )
    .unwrap();
    tab_id
}

fn reconciliation<'a>(
    waiter: i64,
    cashier: i64,
    shift: i64,
    expected: i64,
    cash: i64,
    non_cash: i64,
) -> cash::NewReconciliation<'a> {
    cash::NewReconciliation {
        waiter_id: waiter,
        cashier_id: cashier,
        expected: Money::from_minor(expected),
        cash: Money::from_minor(cash),
        non_cash: Money::from_minor(non_cash),
        written_off: Money::zero(),
        write_off_reason: None,
        shift_id: shift,
        created_at: LATER + 1,
    }
}

fn disable_charges(bar: &mut Bar) {
    settings::put(&mut bar.db, keys::SERVICE_ENABLED, "0", Some(bar.owner), NOW).unwrap();
    settings::put(&mut bar.db, keys::TAX_ENABLED, "0", Some(bar.owner), NOW).unwrap();
}

#[test]
fn a_frozen_bill_is_derived_in_all_four_charge_modes() {
    let modes = [
        (false, false, false, 10_000, 0, 0, 10_000),
        (false, false, true, 10_000, 1_000, 0, 11_000),
        (true, false, true, 10_000, 1_000, 1_650, 12_650),
        (true, true, true, 8_696, 870, 1_435, 11_001),
    ];
    for (index, (tax, inclusive, service, net, charge, vat, total)) in
        modes.into_iter().enumerate()
    {
        let mut bar = bar();
        settings::put(
            &mut bar.db,
            keys::TAX_ENABLED,
            if tax { "1" } else { "0" },
            Some(bar.owner),
            NOW,
        )
        .unwrap();
        settings::put(
            &mut bar.db,
            keys::TAX_INCLUSIVE,
            if inclusive { "1" } else { "0" },
            Some(bar.owner),
            NOW,
        )
        .unwrap();
        settings::put(&mut bar.db, keys::TAX_RATE_BP, "1500", Some(bar.owner), NOW).unwrap();
        settings::put(
            &mut bar.db,
            keys::SERVICE_ENABLED,
            if service { "1" } else { "0" },
            Some(bar.owner),
            NOW,
        )
        .unwrap();
        settings::put(
            &mut bar.db,
            keys::SERVICE_RATE_BP,
            "1000",
            Some(bar.owner),
            NOW,
        )
        .unwrap();
        let shift = open_shift(0, &mut bar);
        let tab =
            close_tab_with_payment(shift.id, bar.sara, &(index + 20).to_string(), 10_000, &mut bar);
        let frozen = cash::payment_for_tab(&bar.db, tab).unwrap();
        assert_eq!(frozen.subtotal.minor(), net);
        assert_eq!(frozen.service_charge.minor(), charge);
        assert_eq!(frozen.tax.minor(), vat);
        assert_eq!(frozen.total.minor(), total);
        assert_eq!(frozen.liability, frozen.total);
    }
}

#[test]
fn a_tab_payment_is_read_back_and_database_frozen() {
    let mut bar = bar();
    disable_charges(&mut bar);
    let shift = open_shift(0, &mut bar);
    let tab = close_tab_with_payment(shift.id, bar.sara, "1", 12_500, &mut bar);

    let payment = cash::payment_for_tab(&bar.db, tab).unwrap();
    assert_eq!(payment.waiter_id, bar.sara);
    assert_eq!(payment.total, Money::from_minor(12_500));
    assert_eq!(payment.liability, payment.total);
    assert!(payment.charge_rates_known);
    assert_eq!(cash::held_balance(&bar.db, bar.sara).unwrap(), payment.total);

    // What was frozen stays, whatever is frozen after it.
    close_tab_with_payment(shift.id, bar.sara, "2", 1_000, &mut bar);
    assert_eq!(cash::payment_for_tab(&bar.db, tab).unwrap(), payment);
}

#[test]
fn finalized_partial_cash_reduces_held_and_credits_only_cash() {
    let mut bar = bar();
    disable_charges(&mut bar);
    let shift = open_shift(5_000, &mut bar);
    let first = close_tab_with_payment(shift.id, bar.sara, "1", 12_000, &mut bar);
    close_tab_with_payment(shift.id, bar.sara, "2", 8_000, &mut bar);

    let draft = cash::create_reconciliation(
        &mut bar.db,
        &reconciliation(bar.sara, bar.cashier, shift.id, 12_000, 10_000, 0),
    )
    .unwrap();
    let allocation = cash::allocate_tab(&mut bar.db, draft.id, first, bar.cashier).unwrap();
    assert_eq!(allocation.amount, Money::from_minor(12_000));
    assert_eq!(
        cash::held_balance(&bar.db, bar.sara).unwrap(),
        Money::from_minor(20_000),
        "a draft reconciliation never changes held balance"
    );

    let finalised =
        cash::finalize_reconciliation(&mut bar.db, draft.id, bar.cashier, LATER + 2).unwrap();
    assert_eq!(finalised.shortfall, Money::from_minor(2_000));
    assert_eq!(
        cash::held_balance(&bar.db, bar.sara).unwrap(),
        Money::from_minor(10_000)
    );
    assert_eq!(
        cash::expected_cash(&bar.db, shift.id).unwrap(),
        Money::from_minor(15_000)
    );
    assert_eq!(
        tabs::find(&bar.db, first).unwrap().status,
        tabs::Status::Reconciled
    );
}

#[test]
fn non_cash_clears_liability_without_entering_the_drawer() {
    let mut bar = bar();
    disable_charges(&mut bar);
    let shift = open_shift(2_000, &mut bar);
    let tab = close_tab_with_payment(shift.id, bar.sara, "1", 7_500, &mut bar);
    let draft =
        cash::create_reconciliation(
            &mut bar.db,
            &reconciliation(bar.sara, bar.cashier, shift.id, 7_500, 0, 7_500),
        )
            .unwrap();
    cash::allocate_tab(&mut bar.db, draft.id, tab, bar.cashier).unwrap();
    cash::finalize_reconciliation(&mut bar.db, draft.id, bar.cashier, LATER + 2).unwrap();

    assert_eq!(cash::held_balance(&bar.db, bar.sara).unwrap(), Money::zero());
    assert_eq!(
        cash::expected_cash(&bar.db, shift.id).unwrap(),
        Money::from_minor(2_000)
    );
    assert_eq!(cash::movements(&bar.db, shift.id).unwrap().len(), 1);
}

#[test]
fn reconciliation_cash_cannot_be_committed_before_its_settlement_is_finalized() {
    let mut bar = bar();
    disable_charges(&mut bar);
    let shift = open_shift(0, &mut bar);
    let tab = close_tab_with_payment(shift.id, bar.sara, "cash-ordering", 7_500, &mut bar);
    let new = reconciliation(bar.sara, bar.cashier, shift.id, 7_500, 7_500, 0);
    let draft = cash::create_reconciliation(&mut bar.db, &new).unwrap();
    cash::allocate_tab(&mut bar.db, draft.id, tab, bar.cashier).unwrap();

    let finalized_at = LATER + 2;
    let premature =
        cash::record_reconciliation_cash(&mut bar.db, draft.id, bar.cashier, finalized_at)
            .unwrap_err();
    assert!(
        premature.message().contains("finalized"),
        "got: {premature:?}"
    );
    let before = bar
        .db
        .cash
        .iter()
        .filter(|movement| movement.reconciliation_id == Some(draft.id))
        .count();
    assert_eq!(before, 0);

    // With no number left for a drawer entry, nothing is finalized either.
    insert_adjustment(&mut bar.db, shift.id, 1, "last number", bar.cashier, LATER);
    bar.db.cash.last_mut().unwrap().id = i64::MAX;
    cash::finalize_reconciliation(&mut bar.db, draft.id, bar.cashier, finalized_at).unwrap_err();
    assert_eq!(
        cash::find_reconciliation(&bar.db, draft.id)
            .unwrap()
            .finalized_at,
        None,
    );
    bar.db.cash.pop();

    // Finalization and the matching drawer entry now stand together.
    let finalized =
        cash::finalize_reconciliation(&mut bar.db, draft.id, bar.cashier, finalized_at).unwrap();
    assert_eq!(finalized.finalized_at, Some(finalized_at));
    let settlements = &bar.db.reconciliations;
    let violations = bar
        .db
        .cash
        .iter()
        .filter(|movement| {
            settlements.iter().any(|settlement| {
                movement.reconciliation_id == Some(settlement.id)
                    && settlement.finalized_at != Some(movement.created_at)
            })
        })
        .count();
    assert_eq!(violations, 0);

    let wrong_time =
        cash::record_reconciliation_cash(&mut bar.db, draft.id, bar.cashier, finalized_at + 1)
            .unwrap_err();
    assert!(wrong_time.message().contains("exact finalization time"));
}

#[test]
fn payouts_and_adjustments_are_itemised_checked_cash_movements() {
    let mut bar = bar();
    let shift = open_shift(10_000, &mut bar);

    let payout = cash::record_payout(
        &mut bar.db,
        shift.id,
        Money::from_minor(2_500),
        "supplies",
        "ice",
        bar.cashier,
        LATER,
    )
    .unwrap();
    assert_eq!(payout.amount, Money::from_minor(-2_500));
    cash::record_adjustment(
        &mut bar.db,
        shift.id,
        Money::from_minor(300),
        "count correction",
        bar.cashier,
        LATER + 1,
    )
    .unwrap();
    assert_eq!(
        cash::expected_cash(&bar.db, shift.id).unwrap(),
        Money::from_minor(7_800)
    );

    let missing_category = cash::record_payout(
        &mut bar.db,
        shift.id,
        Money::from_minor(1),
        " ",
        "anything",
        bar.cashier,
        LATER,
    )
    .unwrap_err();
    assert!(missing_category.message().contains("category"));

    let owner = cash::record_adjustment(
        &mut bar.db,
        shift.id,
        Money::from_minor(1),
        "not an operator",
        bar.owner,
        LATER,
    )
    .unwrap_err();
    assert!(owner.message().contains("active cashier"), "got: {owner:?}");
}

#[test]
fn expected_cash_refuses_overflow_instead_of_wrapping() {
    let mut bar = bar();
    let shift = open_shift(0, &mut bar);
    insert_adjustment(&mut bar.db, shift.id, i64::MAX, "large test amount", bar.cashier, LATER);
    insert_adjustment(&mut bar.db, shift.id, 1, "overflow edge", bar.cashier, LATER);

    let error = cash::expected_cash(&bar.db, shift.id).unwrap_err();
    assert!(error.message().contains("overflowed"), "got: {error:?}");
}

#[test]
fn reconciliation_rejects_split_tender_and_wrong_allocations() {
    let mut bar = bar();
    disable_charges(&mut bar);
    let shift = open_shift(0, &mut bar);
    let sara = close_tab_with_payment(shift.id, bar.sara, "1", 1_000, &mut bar);
    let dawit = close_tab_with_payment(shift.id, bar.dawit, "2", 1_000, &mut bar);

    let split = cash::create_reconciliation(
        &mut bar.db,
        &cash::NewReconciliation {
            cash: Money::from_minor(500),
            non_cash: Money::from_minor(500),
            ..reconciliation(bar.sara, bar.cashier, shift.id, 1_000, 0, 0)
        },
    )
    .unwrap_err();
    assert!(split.message().contains("split tender"), "got: {split:?}");

    let draft =
        cash::create_reconciliation(
            &mut bar.db,
            &reconciliation(bar.sara, bar.cashier, shift.id, 1_000, 1_000, 0),
        )
            .unwrap();
    let wrong = cash::allocate_tab(&mut bar.db, draft.id, dawit, bar.cashier).unwrap_err();
    assert!(
        wrong.message().contains("different waiter"),
        "got: {wrong:?}"
    );
    cash::allocate_tab(&mut bar.db, draft.id, sara, bar.cashier).unwrap();
    cash::finalize_reconciliation(&mut bar.db, draft.id, bar.cashier, LATER + 2).unwrap();
}

fn insert_adjustment(db: &mut Store, shift: i64, amount: i64, reason: &str, by: i64, at: i64) {
    let id = db.cash.len() as i64 + 1;
    db.cash.push(cash::CashMovement {
        id,
        shift_id: shift,
        movement_type: cash::MovementType::Adjustment,
        amount: Money::from_minor(amount),
        category: None,
        reason: reason.to_owned(),
        reconciliation_id: None,
        created_by: by,
        created_at: at,
    });
}

fn open_night(db: &mut Store, cashier: i64) -> i64 {
    shifts::open(
        db,
        &shifts::NewShift {
            business_date: "2025-07-31",
            opened_at: NOW,
            opened_by: cashier,
            opening_float: Money::zero(),
            expected_end_at: NOW + 8 * 60 * 60 * 1_000,
        },
    )
    .unwrap()
    .id
}

fn closed_night(db: &mut Store, cashier: i64) -> i64 {
    let id = open_night(db, cashier);
    shifts::begin_closing(db, id, cashier).unwrap();
    shifts::close(db, id, Money::zero(), cashier, NOW + 1).unwrap();
    id
}

fn stored(
    db: &mut Store,
    shift_id: i64,
    by: i64,
    provisional: bool,
) -> Result<reports::Stored, RepoError> {
    reports::store(
        db,
        &reports::NewReport {
            shift_id,
            is_provisional: provisional,
            report_json: r#"{"totalBilled":"55.00"}"#,
            rendered_text: "SHIFT REPORT\nTOTAL: 55.00\n",
            generated_at: NOW,
            generated_by: by,
        },
    )
}

#[test]
fn a_stored_report_reads_back_byte_for_byte() {
    let mut bar = bar();
    let shift = closed_night(&mut bar.db, bar.cashier);
    let written = stored(&mut bar.db, shift, bar.cashier, false).unwrap();

    let found = reports::final_for(&bar.db, shift).unwrap();
    assert_eq!(found.id, written.id);
    assert_eq!(found.rendered_text, "SHIFT REPORT\nTOTAL: 55.00\n");
    assert_eq!(found.report_json, r#"{"totalBilled":"55.00"}"#);
    assert!(!found.is_provisional);
}

#[test]
fn a_night_that_never_closed_has_no_report_to_read() {
    let mut bar = bar();
    let shift = open_night(&mut bar.db, bar.cashier);
    assert!(reports::final_for(&bar.db, shift).is_none());
}

#[test]
fn a_second_final_report_for_one_night_is_refused() {
    // The paper the owner signed is the report. Two of them for one night
    // means one is wrong and nobody can say which.
    let mut bar = bar();
    let shift = closed_night(&mut bar.db, bar.cashier);
    stored(&mut bar.db, shift, bar.cashier, false).unwrap();
    assert!(stored(&mut bar.db, shift, bar.cashier, false).is_err());
}

#[test]
fn a_final_report_cannot_describe_a_night_still_trading() {
    let mut bar = bar();
    let shift = open_night(&mut bar.db, bar.cashier);
    let refused = stored(&mut bar.db, shift, bar.cashier, false).unwrap_err();
    assert!(
        matches!(&refused, RepoError::Refused(message) if message.contains("closed shift")),
        "{refused:?}"
    );
}

#[test]
fn several_provisional_reports_may_exist_for_one_night() {
    let mut bar = bar();
    let shift = open_night(&mut bar.db, bar.cashier);
    stored(&mut bar.db, shift, bar.cashier, true).unwrap();
    stored(&mut bar.db, shift, bar.cashier, true).unwrap();
    assert!(reports::final_for(&bar.db, shift).is_none());
}

#[test]
fn a_stored_report_can_never_be_edited_or_deleted() {
    let mut bar = bar();
    let shift = closed_night(&mut bar.db, bar.cashier);
    let written = stored(&mut bar.db, shift, bar.cashier, false).unwrap();

    // Neither another reading of the night nor a refused one touches it.
    stored(&mut bar.db, shift, bar.cashier, true).unwrap();
    assert!(stored(&mut bar.db, shift, bar.cashier, false).is_err());
    assert_eq!(reports::final_for(&bar.db, shift), Some(written));
}

struct Night {
    db: Store,
    owner: i64,
    cashier: i64,
    waiter: i64,
    shift: i64,
    tab: i64,
}

fn owner_session(night: &Night) -> Option<Session> {
    Some(Session {
        staff_id: night.owner,
        code: "OWN-R".into(),
        name: "Selam".into(),
        role: "OWNER".into(),
    })
}

const CLOCKS: report::Clocks<'static> = report::Clocks {
    opened_at: "18:00",
    closed_at: "03:30",
};

/// One beer sold and settled: the smallest night there is, before the waiter
/// squares up.
fn night() -> Night {
    let mut db = fresh();
    let owner = staff_member(&mut db, "OWN-R", "Selam", "OWNER");
    let cashier = staff_member(&mut db, "CSH-R", "Abel", "CASHIER");
    let waiter = staff_member(&mut db, "WTR-R", "Sara", "WAITER");
    let beer = product(&mut db, "P-BEER", "Beer", "BOTTLE", 1_000);
    let bottle = sale_item(&mut db, "S-BEER", "Beer", "Bottles", 5_000);
    recipe(&mut db, bottle, &[(beer, 1_000)]);
    stock_up(&mut db, beer, 5_000, owner);

    let shift = shifts::open(
        &mut db,
        &shifts::NewShift {
            business_date: "2025-08-01",
            opened_at: NOW,
            opened_by: cashier,
            opening_float: Money::parse("500").unwrap(),
            expected_end_at: NOW + 43_200_000,
        },
    )
    .unwrap()
    .id;
    let tab = tabs::open(
        &mut db,
        &tabs::NewTab {
            opened_shift_id: shift,
            waiter_id: waiter,
            reference: tabs::Reference::table("7"),
            opened_at: NOW,
            opened_by: cashier,
        },
    )
    .unwrap()
    .id;
    let order = orders::create(
        &mut db,
        orders::NewDraft {
            tab_id: tab,
            shift_id: shift,
            cashier_id: cashier,
            created_at: NOW,
        },
    )
    .unwrap()
    .id;
    orders::add_line(&mut db, order, bottle, Milli::one()).unwrap();
    trading::prepare_issue(&mut db, order, cashier, NOW + 1).unwrap();
    trading::confirm_issued(&mut db, order, cashier, NOW + 2).unwrap();
    settlement::close_tab(
        &mut db,
        &settlement::CloseTab {
            tab_id: tab,
            shift_id: shift,
            cashier_id: cashier,
            comp_reason: None,
            customer_tin: None,
            closed_at: NOW + 3,
        },
    )
    .unwrap();
    Night {
        db,
        owner,
        cashier,
        waiter,
        shift,
        tab,
    }
}

/// The waiter squares up, the drawer is counted and the night is sealed with
/// its report.
fn seal(night: &mut Night, counted: &str) -> report::ShiftReport {
    let handed_over = Money::parse("55").unwrap();
    let draft = cash::create_reconciliation(
        &mut night.db,
        &cash::NewReconciliation {
            waiter_id: night.waiter,
            cashier_id: night.cashier,
            expected: handed_over,
            cash: handed_over,
            non_cash: Money::zero(),
            written_off: Money::zero(),
            write_off_reason: None,
            shift_id: night.shift,
            created_at: NOW + 4,
        },
    )
    .unwrap();
    cash::allocate_tab(&mut night.db, draft.id, night.tab, night.cashier).unwrap();
    cash::finalize_reconciliation(&mut night.db, draft.id, night.cashier, NOW + 5).unwrap();
    shifts::begin_closing(&mut night.db, night.shift, night.cashier).unwrap();
    let counted = Money::parse(counted).unwrap();
    shifts::close(&mut night.db, night.shift, counted, night.cashier, NOW + 6).unwrap();

    let report = report::compile(&night.db, night.shift, CLOCKS).unwrap();
    let figures = format!("{report:?}");
    report::freeze(
        &mut night.db,
        night.shift,
        CLOCKS,
        &figures,
        night.cashier,
        NOW + 6,
    )
    .unwrap();
    report
}

#[test]
fn closing_a_night_freezes_its_report_and_the_screen_reads_it_back() {
    let mut night = night();
    let report = seal(&mut night, "555");

    let view = report::reports_view(&night.db, &owner_session(&night), None).unwrap();
    assert_eq!(view.nights.len(), 1);
    assert_eq!(view.showing_shift_id, Some(night.shift));
    let shown = view.showing.expect("a closed night has a report");
    assert_eq!(shown, format!("{report:?}"));

    // 50.00 of beer, plus this venue's default 10% service charge.
    assert_eq!(report.gross_sales, "50.00");
    assert_eq!(report.service_charge, "5.00");
    assert_eq!(report.total_billed, "55.00");
    assert_eq!(report.tabs_settled, 1);

    // The float, plus what Sara handed over.
    assert_eq!(report.opening_float, "500.00");
    assert_eq!(report.cash_from_waiters, "55.00");
    assert_eq!(report.expected_cash, "555.00");
    assert_eq!(report.counted_cash, "555.00");
    assert!(report.balanced);

    assert_eq!(report.waiters[0].name, "Sara");
    assert_eq!(report.waiters[0].cash, "55.00");
    assert_eq!(report.items[0].name, "Beer");
    assert_eq!(report.items[0].quantity, "1");
    assert_eq!(report.items[0].value, "50.00");

    assert!(view.rendered_text.unwrap().contains("SHIFT REPORT"));
}

#[test]
fn a_short_drawer_is_named_on_the_paper_rather_than_signed() {
    let mut night = night();
    let report = seal(&mut night, "540");

    let view = report::reports_view(&night.db, &owner_session(&night), None).unwrap();
    assert!(!report.balanced && !report.over);
    assert_eq!(report.variance, "15.00");
    assert!(view.rendered_text.unwrap().contains("SHORT: 15.00"));
}

#[test]
fn a_report_is_read_back_and_never_recompiled() {
    // Change what the figures would compile to, then read the night again. A
    // recalculating report would follow the setting.
    let mut night = night();
    seal(&mut night, "555");
    let before = report::reports_view(&night.db, &owner_session(&night), None).unwrap();

    settings::put(&mut night.db, keys::CURRENCY_CODE, "ETB", None, 0).unwrap();

    let after = report::reports_view(&night.db, &owner_session(&night), None).unwrap();
    assert_eq!(
        before.showing.unwrap(),
        after.showing.unwrap(),
        "a stored report must not follow a setting changed afterwards"
    );
    assert_eq!(before.rendered_text, after.rendered_text);
    let live = report::compile(&night.db, night.shift, CLOCKS).unwrap();
    assert_eq!(live.total_billed, "55.00 ETB");
}

#[test]
fn only_the_owner_may_read_a_report() {
    let mut night = night();
    seal(&mut night, "555");
    let cashier = Some(Session {
        staff_id: night.cashier,
        code: "CSH-R".into(),
        name: "Abel".into(),
        role: "CASHIER".into(),
    });
    let refused = report::reports_view(&night.db, &cashier, None).unwrap_err();
    assert_eq!(refused.kind(), "NOT_PERMITTED");
    let nobody = report::reports_view(&night.db, &None, None).unwrap_err();
    assert_eq!(nobody.kind(), "NOT_SIGNED_IN");
}

#[test]
fn a_night_that_never_closed_cannot_be_asked_for() {
    let mut night = night();
    seal(&mut night, "555");
    let refused =
        report::reports_view(&night.db, &owner_session(&night), Some(9_999)).unwrap_err();
    assert_eq!(refused.kind(), "REFUSED");
}

#[test]
fn a_venue_that_has_never_closed_a_night_gets_an_empty_screen_not_an_error() {
    let night = night();
    let view = report::reports_view(&night.db, &owner_session(&night), None).unwrap();
    assert!(view.nights.is_empty());
    assert!(view.showing.is_none());
    assert!(view.rendered_text.is_none());
}

//! Document numbers, settings, and the figures they shape.

use servepoint::calendar::TimeOfDay;
use servepoint::money::{BasisPoints, Money};
use servepoint::repo::seq::Counter;
use servepoint::settings::{self, keys, SettingRow, Settings, SettingsError, TabReference};
use servepoint::settings_form::{describe, FieldKind, SettingGroup};
use servepoint::store::Store;

/// A till with the settings it is shipped with and nothing else in it.
fn fresh() -> Store {
    let mut db = Store::new();
    for (key, value) in [
        (keys::TAX_ENABLED, "0"),
        (keys::TAX_RATE_BP, "1500"),
        (keys::TAX_INCLUSIVE, "0"),
        (keys::SERVICE_ENABLED, "1"),
        (keys::SERVICE_RATE_BP, "1000"),
        (keys::DAY_START, "18:00"),
        (keys::DAY_END, "06:00"),
        (keys::TABS_REFERENCE_MODE, "TABLE"),
        (keys::TABS_AGE_WARNING_DAYS, "7"),
        (keys::TABS_ASK_CUSTOMER_TIN, "0"),
        (keys::COMPS_ENABLED, "0"),
        (keys::PARTIAL_ENABLED, "1"),
        (keys::BANK_ACCOUNTS, ""),
        (keys::QR_ENABLED, "0"),
        (keys::PRINT_REPORT, "0"),
        (keys::PRINT_CUSTOMER_RECEIPT, "1"),
        (keys::SHOW_COST, "0"),
        (keys::BUSINESS_NAME, ""),
        (keys::ADDRESS, ""),
        (keys::PHONE, ""),
        (keys::TIN, ""),
        (keys::FOOTER, ""),
        (keys::CHARS_PER_LINE, "32"),
        (keys::CURRENCY_CODE, ""),
        (keys::ROUNDING, "NONE"),
        (keys::SETUP_COMPLETED, "0"),
    ] {
        db.settings.push(SettingRow {
            key: key.to_owned(),
            value: value.to_owned(),
            updated_at: 0,
            updated_by: None,
        });
    }
    db
}

#[test]
fn a_number_is_never_handed_out_twice() {
    let mut db = fresh();
    let (first, _) = servepoint::repo::seq::next(&mut db, Counter::IssueReceipt).unwrap();
    let (second, _) = servepoint::repo::seq::next(&mut db, Counter::IssueReceipt).unwrap();
    assert_eq!((first, second), (1, 2));
}

#[test]
fn the_four_counters_are_independent() {
    // A busy night must not push tab numbers along because receipts were
    // printed — they are different documents and get counted separately.
    let mut db = fresh();
    servepoint::repo::seq::next(&mut db, Counter::IssueReceipt).unwrap();
    servepoint::repo::seq::next(&mut db, Counter::IssueReceipt).unwrap();
    let (tab, printed) = servepoint::repo::seq::next(&mut db, Counter::Tab).unwrap();
    assert_eq!((tab, printed.as_str()), (1, "TAB-000001"));
}

#[test]
fn numbers_are_padded_for_reading() {
    assert_eq!(servepoint::repo::seq::format(Counter::Shift, 1), "SHIFT-000001");
    assert_eq!(servepoint::repo::seq::format(Counter::CustomerReceipt, 45), "CR-000045");
}

#[test]
fn a_number_past_the_padding_gets_wider_rather_than_wrapping() {
    // After a million slips the prefix must still identify one unique
    // document. Truncating to six digits would reissue BR-000001.
    assert_eq!(servepoint::repo::seq::format(Counter::IssueReceipt, 1_234_567), "BR-1234567");
}

#[test]
fn the_shipped_defaults_describe_no_particular_venue() {
    let settings = Settings::load(&fresh());
    assert_eq!(settings.text(keys::BUSINESS_NAME), "");
    assert_eq!(settings.text(keys::TIN), "");
    assert_eq!(settings.currency_code(), "");
    assert!(!settings.setup_completed());
}

#[test]
fn printing_a_report_is_off_until_somebody_asks_for_it() {
    // The owner reads reports on screen. Thermal paper is opt-in.
    let settings = Settings::load(&fresh());
    assert!(!settings.flag(keys::PRINT_REPORT));
    assert!(settings.flag(keys::PRINT_CUSTOMER_RECEIPT));
}

#[test]
fn the_default_charge_config_taxes_nothing() {
    let settings = Settings::load(&fresh());
    let config = settings.charge_config();
    assert!(!config.tax_enabled);
    assert_eq!(config.effective_tax_rate(), BasisPoints::zero());
    // ...but the rate is remembered, so switching tax on does not also ask
    // the owner to retype 15%.
    assert_eq!(config.tax_rate, BasisPoints(1500));
}

#[test]
fn the_trading_day_reads_back_as_a_calendar() {
    let calendar = Settings::load(&fresh()).calendar().unwrap();
    assert_eq!(calendar.day_start, TimeOfDay::new(18, 0));
    assert_eq!(calendar.day_end, TimeOfDay::new(6, 0));
}

#[test]
fn money_is_grouped_and_carries_the_venues_currency() {
    let mut db = fresh();
    settings::put(&mut db, keys::CURRENCY_CODE, "ETB", None, 0).unwrap();
    let settings = Settings::load(&db);
    assert_eq!(
        settings.format_money(Money::from_minor(288_200)),
        "2,882.00 ETB"
    );
    assert_eq!(settings.format_money(Money::from_minor(5)), "0.05 ETB");
    assert_eq!(
        settings.format_money(Money::from_minor(100_000_000)),
        "1,000,000.00 ETB"
    );
    assert_eq!(
        settings.format_money(Money::from_minor(-25_000)),
        "-250.00 ETB"
    );
}

#[test]
fn money_formats_without_a_currency_before_setup() {
    let settings = Settings::load(&fresh());
    assert_eq!(
        settings.format_money(Money::from_minor(288_200)),
        "2,882.00"
    );
}

#[test]
fn a_write_returns_what_it_replaced() {
    let mut db = fresh();
    let previous = settings::put(
        &mut db,
        keys::TAX_ENABLED,
        "1",
        Some(1),
        1_786_500_000_000,
    )
    .unwrap();
    assert_eq!(previous, "0");
    assert!(Settings::load(&db).flag(keys::TAX_ENABLED));
}

#[test]
fn a_key_this_version_does_not_know_is_refused() {
    let mut db = fresh();
    let err = settings::put(
        &mut db,
        "inventory.stock_policy",
        "ALLOW_NEGATIVE",
        None,
        0,
    )
    .unwrap_err();
    assert!(matches!(err, SettingsError::UnknownKey(_)), "got: {err:?}");
}

#[test]
fn nonsense_values_are_refused_with_a_sentence() {
    let mut db = fresh();
    for (key, value) in [
        (keys::TAX_ENABLED, "yes"),
        (keys::TAX_RATE_BP, "-100"),
        (keys::TAX_RATE_BP, "20000"),
        (keys::DAY_START, "half six"),
        (keys::TABS_REFERENCE_MODE, "SEAT"),
        (keys::CHARS_PER_LINE, "4"),
        (keys::CURRENCY_CODE, "birr"),
    ] {
        let err = settings::put(&mut db, key, value, None, 0).unwrap_err();
        assert!(
            matches!(err, SettingsError::Invalid { .. }),
            "{key}={value} should have been refused, got: {err:?}"
        );
    }
}

#[test]
fn a_blank_currency_is_allowed_because_that_is_the_shipped_state() {
    let mut db = fresh();
    assert!(settings::put(&mut db, keys::CURRENCY_CODE, "", None, 0).is_ok());
}

#[test]
fn the_reference_mode_names_its_own_field() {
    assert_eq!(TabReference::Table.prompt(), "Table number");
    assert_eq!(TabReference::CustomerPhone.prompt(), "Customer phone");
    assert_eq!(
        TabReference::parse("CUSTOMER_NAME"),
        TabReference::CustomerName
    );
    // Anything unrecognised falls back to tables rather than panicking at
    // the till.
    assert_eq!(TabReference::parse("SEAT"), TabReference::Table);
}

#[test]
fn every_shipped_key_is_writable() {
    let db = fresh();
    let loaded = Settings::load(&db);
    for entry in loaded.iter() {
        assert!(
            settings::value_type_of(&entry.key).is_some(),
            "{} is seeded but cannot be written",
            entry.key
        );
    }
}

fn form() -> Vec<SettingGroup> {
    describe(&Settings::load(&fresh()))
}

#[test]
fn every_field_carries_its_current_value() {
    let groups = form();
    let tax_rate = groups
        .iter()
        .flat_map(|g| &g.fields)
        .find(|f| f.key == keys::TAX_RATE_BP)
        .expect("the VAT rate must be on the form");
    assert_eq!(tax_rate.value, "1500");
    assert_eq!(tax_rate.kind, FieldKind::Rate);
}

#[test]
fn every_field_explains_itself() {
    // A setting with no explanation gets set wrong once and then blamed
    // for months.
    for group in form() {
        for field in group.fields {
            assert!(!field.label.is_empty(), "{} has no label", field.key);
            assert!(field.help.len() > 20, "{} needs a real explanation", field.key);
        }
    }
}

#[test]
fn a_key_appears_at_most_once() {
    let groups = form();
    let mut seen: Vec<&str> = groups.iter().flat_map(|g| &g.fields).map(|f| f.key).collect();
    let total = seen.len();
    seen.sort_unstable();
    seen.dedup();
    assert_eq!(seen.len(), total, "a setting is on the form twice");
}

#[test]
fn every_choice_field_offers_its_current_value() {
    // A dropdown that cannot represent what is already stored shows the
    // wrong thing and silently changes it on the next save.
    for group in form() {
        for field in group.fields {
            if field.kind == FieldKind::Choice {
                assert!(
                    field.choices.iter().any(|c| c.value == field.value),
                    "{} = '{}' is not among its own choices",
                    field.key,
                    field.value
                );
            }
        }
    }
}

#[test]
fn the_settings_that_run_the_business_are_all_reachable() {
    let groups = form();
    let keys_on_form: Vec<&str> =
        groups.iter().flat_map(|g| &g.fields).map(|f| f.key).collect();
    for required in [
        keys::TAX_ENABLED,
        keys::TAX_RATE_BP,
        keys::TAX_INCLUSIVE,
        keys::SERVICE_ENABLED,
        keys::SERVICE_RATE_BP,
        keys::DAY_START,
        keys::DAY_END,
        keys::TABS_REFERENCE_MODE,
        keys::PRINT_REPORT,
        keys::PRINT_CUSTOMER_RECEIPT,
        keys::BUSINESS_NAME,
        keys::TIN,
        keys::CURRENCY_CODE,
    ] {
        assert!(keys_on_form.contains(&required), "{required} is not reachable from Settings");
    }
}

#[test]
fn there_is_no_control_for_letting_stock_go_negative() {
    let groups = form();
    assert!(!groups
        .iter()
        .flat_map(|g| &g.fields)
        .any(|f| f.key.starts_with("inventory.")));
}

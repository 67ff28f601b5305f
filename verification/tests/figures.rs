//! Amounts, texts, times and words, on exact values.

use servepoint::bill::{Bill, ChargeConfig};
use servepoint::calendar::{self, CalendarError, Date, TimeOfDay};
use servepoint::commands::{self, CommandError};
use servepoint::commissioning::{BaseUnit, Measure};
use servepoint::money::{self, BasisPoints, Milli, Money, MoneyError};
use servepoint::printing;
use servepoint::repo::{
    self, cash, orders, receipts, shifts, staff, stock, tabs, RepoError, SqlError,
};
use servepoint::resolution::{resolution_for, ReachableNonTerminalState, ResolutionCommand};
use servepoint::settings::{SettingsError, TabReference, ValueType};
use servepoint::state::{Session, Throttle};
use servepoint::text;

fn charges(tax: bool, inclusive: bool, service: bool) -> ChargeConfig {
    ChargeConfig {
        tax_enabled: tax,
        tax_rate: BasisPoints(1_500),
        tax_inclusive: inclusive,
        service_enabled: service,
        service_rate: BasisPoints(1_000),
    }
}

#[test]
fn a_bill_carries_every_figure_it_was_worked_out_from() {
    let bill = Bill::calculate(Money::from_minor(10_000), &charges(true, true, true)).unwrap();
    assert_eq!(bill.net.minor(), 8_696);
    assert_eq!(bill.service_charge.minor(), 870);
    assert_eq!(bill.tax.minor(), 1_435);
    assert_eq!(bill.total.minor(), 11_001);
    assert_eq!(bill.tax_rate, BasisPoints(1_500));
    assert_eq!(bill.service_rate, BasisPoints(1_000));
    assert!(bill.tax_inclusive);
}

#[test]
fn a_venue_without_charges_bills_only_the_drinks() {
    let bill = Bill::calculate(Money::from_minor(12_345), &charges(false, true, false)).unwrap();
    assert_eq!(bill.total.minor(), 12_345);
    assert_eq!(bill.tax, Money::zero());
    assert_eq!(bill.service_charge, Money::zero());
}

#[test]
fn a_bill_that_does_not_fit_is_refused() {
    let refused = Bill::calculate(Money::from_minor(i64::MAX), &charges(true, false, true));
    assert_eq!(refused.unwrap_err(), MoneyError::Overflow);
}

#[test]
fn an_amount_reads_back_as_it_was_shown() {
    for minor in [0, 5, 99, 100, 12_345, -1, -25_000, i64::MAX, i64::MIN] {
        let amount = Money::from_minor(minor);
        assert_eq!(Money::parse(&amount.to_display()), Ok(amount));
    }
    assert_eq!(Money::from_minor(-25_005).to_display(), "-250.05");
}

#[test]
fn amounts_are_read_as_they_are_typed() {
    assert_eq!(Money::parse("50"), Ok(Money::from_minor(5_000)));
    assert_eq!(Money::parse("12.5"), Ok(Money::from_minor(1_250)));
    assert_eq!(Money::parse(""), Err(MoneyError::Unreadable));
    assert_eq!(Money::parse("ten"), Err(MoneyError::Unreadable));
    assert_eq!(Money::parse("1.234"), Err(MoneyError::Unreadable));
    assert_eq!(
        Money::parse("92233720368547758.08"),
        Err(MoneyError::Overflow)
    );
    assert_eq!(MoneyError::Overflow.message(), "that amount is too large");
    assert_eq!(
        MoneyError::Unreadable.message(),
        "that is not an amount of money"
    );
}

#[test]
fn sums_that_do_not_fit_are_errors() {
    let most = Money::from_minor(i64::MAX);
    let one = Money::from_minor(1);
    assert_eq!(most.checked_add(one), Err(MoneyError::Overflow));
    assert_eq!(most.checked_sub(one), Ok(Money::from_minor(i64::MAX - 1)));
    assert_eq!(
        Money::from_minor(i64::MIN).checked_sub(one),
        Err(MoneyError::Overflow)
    );
    let shelf = Milli::from_thousandths(i64::MAX);
    assert_eq!(shelf.checked_add(Milli::one()), Err(MoneyError::Overflow));
    assert_eq!(
        Milli::zero().checked_sub(Milli::one()),
        Ok(Milli::from_units(-1))
    );
}

#[test]
fn quantities_are_shown_without_idle_zeros() {
    assert_eq!(Milli::from_units(3).to_display(), "3");
    assert_eq!(Milli::from_thousandths(1_500).to_display(), "1.5");
    assert_eq!(Milli::from_thousandths(40).to_display(), "0.04");
    assert_eq!(Milli::from_thousandths(-250).to_display(), "-0.25");
}

#[test]
fn halves_are_rounded_away_from_zero() {
    assert_eq!(money::divide_nearest(5, 2), 3);
    assert_eq!(money::divide_nearest(-5, 2), -3);
    assert_eq!(money::divide_nearest(7, 3), 2);
    assert_eq!(money::divide_cut(-7, 2), -3);
    assert_eq!(money::narrow(1_i128 << 63), None);
    assert_eq!(money::narrow(-(1_i128 << 63)), Some(i64::MIN));
}

#[test]
fn a_time_is_written_with_two_digits_twice() {
    assert_eq!(TimeOfDay::parse("18:00"), Ok(TimeOfDay::new(18, 0)));
    assert_eq!(TimeOfDay::parse("00:59"), Ok(TimeOfDay::new(0, 59)));
    for wrong in ["24:00", "18:60", "8:00", "18.00", "half six", ""] {
        assert_eq!(
            TimeOfDay::parse(wrong),
            Err(CalendarError::UnreadableTime),
            "{wrong}"
        );
    }
    assert_eq!(
        CalendarError::UnreadableTime.message(),
        "expected a time like 18:00"
    );
}

#[test]
fn a_business_date_is_a_day_of_the_calendar() {
    assert_eq!(
        calendar::read_business_date("2024-02-29"),
        Some(Date {
            year: 2024,
            month: 2,
            day: 29
        })
    );
    assert_eq!(calendar::read_business_date("2025-02-29"), None);
    assert_eq!(calendar::read_business_date("2025-13-01"), None);
    assert_eq!(calendar::read_business_date("31/07/2025"), None);
    let night = calendar::read_business_date("2025-07-31").unwrap();
    assert_eq!(calendar::describe(night), "31 July 2025");
}

#[test]
fn texts_are_compared_the_way_the_till_searches() {
    assert!(text::same("Gin", "Gin") && !text::same("Gin", "gin"));
    assert!(text::same_nocase("Gin", "gIN") && !text::same_nocase("Gin", "Gins"));
    assert!(text::contains_nocase("Table 12", "LE 1"));
    assert!(!text::contains_nocase("Table 12", "13"));
    assert!(text::contains_nocase("anything", ""));
    assert!(text::sorts_before("Beer", "Gin") && !text::sorts_before("Gin", "Gin"));
    assert!(text::sorts_before("Gin", "Gin shot"));
    assert_eq!(text::join3("a", "", "b"), "ab");
    assert_eq!(text::join2("a", "b"), "ab");
    assert_eq!(text::chars_of("é1"), vec!['é', '1']);
}

#[test]
fn numbers_are_written_and_read_in_full() {
    assert_eq!(text::number_text(0), "0");
    assert_eq!(text::number_text(i64::MIN), "-9223372036854775808");
    assert_eq!(text::magnitude(i64::MIN), 9_223_372_036_854_775_808);
    let mut out = "n=".to_owned();
    text::push_nat(&mut out, u64::MAX);
    assert_eq!(out, "n=18446744073709551615");
    assert_eq!(text::parse_number("-9223372036854775808"), Some(i64::MIN));
    assert_eq!(text::parse_number("+12"), Some(12));
    assert_eq!(text::parse_number("9223372036854775808"), None);
    assert_eq!(text::parse_number("12a"), None);
    assert_eq!(text::parse_number(""), None);
}

#[test]
fn a_slip_starts_with_its_own_number() {
    let lines = vec![("Beer".to_owned(), 2_000), ("Gin shot".to_owned(), 500)];
    let paper = printing::render_issue(
        "BR-000007",
        receipts::Destination::Bar,
        "TAB-000001",
        "Table 7",
        "Sara",
        &lines,
    );
    assert_eq!(
        paper,
        "BR-000007\nBAR\nTab: TAB-000001 — Table 7\nWaiter: Sara\nBeer x2\nGin shot x0.5"
    );
}

#[test]
fn every_stored_word_reads_back() {
    for role in [
        staff::Role::Owner,
        staff::Role::Cashier,
        staff::Role::Waiter,
        staff::Role::Bartender,
    ] {
        assert_eq!(staff::Role::parse(role.as_str()).unwrap(), role);
    }
    for status in [
        orders::Status::Draft,
        orders::Status::Printing,
        orders::Status::Issued,
        orders::Status::Replaced,
        orders::Status::Voided,
        orders::Status::Abandoned,
    ] {
        assert_eq!(orders::Status::parse(status.as_str()).unwrap(), status);
    }
    for status in [
        shifts::Status::Open,
        shifts::Status::Closing,
        shifts::Status::Closed,
    ] {
        assert_eq!(shifts::Status::parse(status.as_str()).unwrap(), status);
    }
    for status in [
        tabs::Status::Open,
        tabs::Status::Closed,
        tabs::Status::Reconciled,
    ] {
        assert_eq!(tabs::Status::parse(status.as_str()).unwrap(), status);
    }
    for mode in [
        TabReference::Table,
        TabReference::CustomerName,
        TabReference::CustomerPhone,
        TabReference::Custom,
    ] {
        assert_eq!(TabReference::parse(mode.as_str()), mode);
    }
    for kind in [
        cash::MovementType::OpeningFloat,
        cash::MovementType::Reconciliation,
        cash::MovementType::Payout,
        cash::MovementType::Adjustment,
    ] {
        assert_eq!(cash::MovementType::parse(kind.as_str()).unwrap(), kind);
    }
    for kind in [stock::Kind::Sale, stock::Kind::StockCorrection] {
        assert_eq!(stock::Kind::parse(kind.as_str()), Some(kind));
    }
    assert_eq!(stock::Kind::parse("GIFT"), None);
    assert_eq!(
        (Measure::Whole.as_str(), Measure::Ml.as_str()),
        ("NONE", "ML")
    );
    assert_eq!(BaseUnit::Shot.as_str(), "SHOT");
}

#[test]
fn a_word_that_nothing_stands_for_is_an_error() {
    assert!(staff::Role::parse("CHEF").is_err());
    assert!(shifts::Status::parse("PAUSED").is_err());
    assert!(matches!(
        orders::Status::parse("LOST"),
        Err(RepoError::Sqlite(_))
    ));
    assert!(receipts::Outcome::parse("PERHAPS").is_err());
    let unknown = cash::MovementType::parse("TIP").unwrap_err();
    assert_eq!(
        unknown.message(),
        "'TIP' is not a cash movement type this build knows"
    );
}

#[test]
fn an_error_says_what_is_wrong() {
    assert_eq!(
        RepoError::Missing { what: "tab" }.message(),
        "that tab no longer exists"
    );
    assert_eq!(repo::refused("not tonight").message(), "not tonight");
    let raised = SqlError::Constraint(Some("only an open tab can move".to_owned()));
    assert_eq!(
        repo::humanise(raised).message(),
        "only an open tab can move"
    );
    let unknown = SettingsError::UnknownKey("bar.colour".to_owned());
    assert_eq!(
        unknown.message(),
        "'bar.colour' is not a setting this version of ServePoint knows"
    );
    let hours = SettingsError::BadCalendar(CalendarError::UnreadableTime);
    assert_eq!(
        hours.message(),
        "the trading hours are not readable: expected a time like 18:00"
    );
}

#[test]
fn a_command_answers_with_a_kind_and_a_sentence() {
    let answers = [
        (CommandError::refused("no"), "REFUSED", "no"),
        (CommandError::database("odd"), "DATABASE", "odd"),
        (
            CommandError::Money(MoneyError::Overflow),
            "REFUSED",
            "that amount is too large",
        ),
        (CommandError::NotSignedIn, "NOT_SIGNED_IN", "Sign in first."),
        (
            CommandError::NotPermitted,
            "NOT_PERMITTED",
            "Only the owner may do that.",
        ),
        (CommandError::Repo(repo::refused("full")), "REFUSED", "full"),
    ];
    for (answer, kind, message) in answers {
        assert_eq!(answer.kind(), kind);
        assert_eq!(answer.message(), message);
    }
    let missing = CommandError::Repo(RepoError::Missing { what: "tab" });
    assert_eq!(missing.kind(), "MISSING");
    let broken = CommandError::Repo(RepoError::Sqlite(SqlError::Overflow));
    assert_eq!(broken.kind(), "DATABASE");
}

#[test]
fn only_the_owner_passes_for_the_owner() {
    let cashier = Some(Session {
        staff_id: 2,
        code: "CSH-1".into(),
        name: "Abel".into(),
        role: "CASHIER".into(),
    });
    assert_eq!(commands::require_session(&cashier).unwrap().staff_id, 2);
    assert_eq!(
        commands::require_owner(&cashier).unwrap_err().kind(),
        "NOT_PERMITTED"
    );
    assert_eq!(
        commands::require_session(&None).unwrap_err().kind(),
        "NOT_SIGNED_IN"
    );
}

#[test]
fn every_unfinished_state_has_its_own_way_out() {
    let states = ReachableNonTerminalState::all();
    assert_eq!(states.len(), 12);
    let mut ways: Vec<&str> = states
        .iter()
        .map(|state| resolution_for(*state).command.as_str())
        .collect();
    ways.sort_unstable();
    ways.dedup();
    assert_eq!(ways.len(), 12);
    let printing = resolution_for(ReachableNonTerminalState::PrintingOrder);
    assert_eq!(printing.command, ResolutionCommand::ResolveOrderPrint);
    assert_eq!(
        printing.purpose,
        "confirm print, handwritten issue, or confirmed non-print"
    );
}

#[test]
fn another_wrong_pin_never_costs_less() {
    let mut throttle = Throttle::default();
    let mut before: i64 = 0;
    for _ in 0..50 {
        let now = throttle.record_failure(0);
        assert!(now >= before);
        before = now;
    }
    assert_eq!(before, 300_000);
}

#[test]
fn a_setting_has_one_kind_of_value() {
    assert_eq!(
        servepoint::settings::value_type_of("tax.rate_bp"),
        Some(ValueType::Rate)
    );
    assert_eq!(servepoint::settings::value_type_of("tax.colour"), None);
}

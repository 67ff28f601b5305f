//! What a venue can say of itself, and what comes of it.

use vstd::prelude::*;

use super::writing::{is_in_digits, place_value};
use crate::calendar::{read_time, BusinessCalendar};
use crate::settings::{
    charges_of, currency_of, flag_of, hours_of, is_set_up, mode_of, put_refusal, rate_of, setting,
    setting_changed, settings_map, SettingRow, TabReference,
};

verus! {

// ---------------------------------------------------------------------------
// What a setting says
// ---------------------------------------------------------------------------

/// Whether a setting is set to a value: the last row with its key has it.
pub open spec fn is_set_to(rows: Seq<SettingRow>, key: Seq<char>, value: Seq<char>) -> bool {
    exists|i: int| #[trigger] is_last_word(rows, key, i) && rows[i].value@ == value
}

/// Whether a row is the last with its key.
pub open spec fn is_last_word(rows: Seq<SettingRow>, key: Seq<char>, i: int) -> bool {
    &&& 0 <= i < rows.len()
    &&& rows[i].key@ == key
    &&& forall|k: int| i < k < rows.len() ==> (#[trigger] rows[k]).key@ != key
}

/// Whether no row has a key.
pub open spec fn is_not_set(rows: Seq<SettingRow>, key: Seq<char>) -> bool {
    forall|i: int| 0 <= i < rows.len() ==> (#[trigger] rows[i]).key@ != key
}

/// A setting is there exactly when some row has its key, and says what the last
/// of them says; one that is not there says nothing.
pub proof fn a_setting_says_what_its_row_says(
    rows: Seq<SettingRow>,
    key: Seq<char>,
    value: Seq<char>,
)
    ensures
        settings_map(rows).contains_key(key) <==> !is_not_set(rows, key),
        is_set_to(rows, key, value) <==> settings_map(rows).contains_key(key) && setting(
            settings_map(rows),
            key,
        ) == value,
        is_not_set(rows, key) ==> setting(settings_map(rows), key).len() == 0,
    decreases rows.len(),
{
    if rows.len() > 0 {
        let front = rows.drop_last();
        a_setting_says_what_its_row_says(front, key, value);
        assert forall|i: int| 0 <= i < front.len() implies #[trigger] rows[i] == front[i] by {}
        let last = rows.len() - 1;
        if rows[last].key@ == key {
            assert(is_last_word(rows, key, last));
            if is_set_to(rows, key, value) {
                let i = choose|i: int| #[trigger]
                    is_last_word(rows, key, i) && rows[i].value@ == value;
                assert(i == last);
            }
        } else {
            if is_set_to(front, key, value) {
                let i = choose|i: int| #[trigger]
                    is_last_word(front, key, i) && front[i].value@ == value;
                assert(is_last_word(rows, key, i)) by {
                    assert forall|k: int| i < k < rows.len() implies (#[trigger] rows[k]).key@
                        != key by {
                        if k < last {
                            assert(front[k].key@ != key);
                        }
                    }
                }
            }
            if is_set_to(rows, key, value) {
                let i = choose|i: int| #[trigger]
                    is_last_word(rows, key, i) && rows[i].value@ == value;
                assert(i < last);
                assert(is_last_word(front, key, i)) by {
                    assert forall|k: int| i < k < front.len() implies (#[trigger] front[k]).key@
                        != key by {
                        assert(rows[k].key@ != key);
                    }
                }
            }
            if is_not_set(front, key) {
                assert forall|i: int| 0 <= i < rows.len() implies (#[trigger] rows[i]).key@
                    != key by {
                    if i < last {
                        assert(front[i].key@ != key);
                    }
                }
            }
            if is_not_set(rows, key) {
                assert forall|i: int| 0 <= i < front.len() implies (#[trigger] front[i]).key@
                    != key by {
                    assert(rows[i].key@ != key);
                }
            }
        }
    }
}

/// A switch is on exactly when it is set to one.
pub proof fn a_switch_is_on_when_it_says_one(rows: Seq<SettingRow>, key: Seq<char>)
    ensures
        flag_of(settings_map(rows), key) <==> is_set_to(rows, key, "1"@),
{
    reveal_strlit("1");
    a_setting_says_what_its_row_says(rows, key, "1"@);
}

/// Whether a rate is what a setting says, in hundredths of a percent.
pub open spec fn is_rate(rate: int, rows: Seq<SettingRow>, key: Seq<char>) -> bool {
    &&& 0 <= rate <= 10_000
    &&& forall|text: Seq<char>| #[trigger]
        is_set_to(rows, key, text) && is_in_digits(text) && place_value(text) <= 10_000 ==> rate
            == place_value(text)
    &&& is_not_set(rows, key) ==> rate == 0
}

proof fn a_rate_is_what_is_set(rows: Seq<SettingRow>, key: Seq<char>)
    ensures
        is_rate(rate_of(settings_map(rows), key).0 as int, rows, key),
{
    assert forall|text: Seq<char>| #[trigger]
        is_set_to(rows, key, text) && is_in_digits(text) && place_value(text)
            <= 10_000 implies rate_of(settings_map(rows), key).0 == place_value(text) by {
        a_setting_says_what_its_row_says(rows, key, text);
        super::writing::a_number_in_digits_is_read(text);
        super::writing::digits_are_read_alike(text);
    }
    if is_not_set(rows, key) {
        a_setting_says_what_its_row_says(rows, key, Seq::empty());
    }
}

/// What a bill is charged is what the settings say: value added tax, whether it
/// is inside the prices, and the service charge.
pub proof fn the_charges_are_what_the_venue_set(rows: Seq<SettingRow>)
    ensures
        charges_of(settings_map(rows)).tax_enabled <==> is_set_to(rows, "tax.enabled"@, "1"@),
        charges_of(settings_map(rows)).tax_inclusive <==> is_set_to(rows, "tax.inclusive"@, "1"@),
        charges_of(settings_map(rows)).service_enabled <==> is_set_to(
            rows,
            "service_charge.enabled"@,
            "1"@,
        ),
        is_rate(charges_of(settings_map(rows)).tax_rate.0 as int, rows, "tax.rate_bp"@),
        is_rate(
            charges_of(settings_map(rows)).service_rate.0 as int,
            rows,
            "service_charge.rate_bp"@,
        ),
{
    a_switch_is_on_when_it_says_one(rows, "tax.enabled"@);
    a_switch_is_on_when_it_says_one(rows, "tax.inclusive"@);
    a_switch_is_on_when_it_says_one(rows, "service_charge.enabled"@);
    a_rate_is_what_is_set(rows, "tax.rate_bp"@);
    a_rate_is_what_is_set(rows, "service_charge.rate_bp"@);
}

/// How a venue names its tabs, whether it was set up, its currency and its hours
/// are what the settings of that name say.
pub proof fn the_venue_is_what_its_settings_say(rows: Seq<SettingRow>)
    ensures
        mode_of(settings_map(rows)) == TabReference::CustomerName <==> is_set_to(
            rows,
            "tabs.reference_mode"@,
            "CUSTOMER_NAME"@,
        ),
        mode_of(settings_map(rows)) == TabReference::CustomerPhone <==> is_set_to(
            rows,
            "tabs.reference_mode"@,
            "CUSTOMER_PHONE"@,
        ),
        mode_of(settings_map(rows)) == TabReference::Custom <==> is_set_to(
            rows,
            "tabs.reference_mode"@,
            "CUSTOM"@,
        ),
        is_set_up(settings_map(rows)) <==> is_set_to(rows, "setup.completed"@, "1"@),
        forall|code: Seq<char>| #[trigger]
            is_set_to(rows, "locale.currency_code"@, code) ==> currency_of(settings_map(rows))
                == code,
        is_not_set(rows, "locale.currency_code"@) ==> currency_of(settings_map(rows)).len() == 0,
        forall|start: Seq<char>, end: Seq<char>|
            #![trigger is_set_to(rows, "shift.day_start"@, start), is_set_to(rows, "shift.day_end"@, end)]
            is_set_to(rows, "shift.day_start"@, start) && is_set_to(rows, "shift.day_end"@, end)
                ==> (match (read_time(start), read_time(end)) {
                (Some(day_start), Some(day_end)) => hours_of(settings_map(rows)) == Some(
                    BusinessCalendar { day_start, day_end },
                ),
                _ => hours_of(settings_map(rows)) is None,
            }),
{
    reveal_strlit("CUSTOMER_NAME");
    reveal_strlit("CUSTOMER_PHONE");
    reveal_strlit("CUSTOM");
    assert("CUSTOMER_NAME"@.len() == 13);
    assert("CUSTOMER_PHONE"@.len() == 14);
    assert("CUSTOM"@.len() == 6);
    a_setting_says_what_its_row_says(rows, "tabs.reference_mode"@, "CUSTOMER_NAME"@);
    a_setting_says_what_its_row_says(rows, "tabs.reference_mode"@, "CUSTOMER_PHONE"@);
    a_setting_says_what_its_row_says(rows, "tabs.reference_mode"@, "CUSTOM"@);
    a_switch_is_on_when_it_says_one(rows, "setup.completed"@);
    assert forall|code: Seq<char>| #[trigger]
        is_set_to(rows, "locale.currency_code"@, code) implies currency_of(settings_map(rows))
        == code by {
        a_setting_says_what_its_row_says(rows, "locale.currency_code"@, code);
    }
    if is_not_set(rows, "locale.currency_code"@) {
        a_setting_says_what_its_row_says(rows, "locale.currency_code"@, Seq::empty());
    }
    assert forall|start: Seq<char>, end: Seq<char>|
        #![trigger is_set_to(rows, "shift.day_start"@, start), is_set_to(rows, "shift.day_end"@, end)]
        is_set_to(rows, "shift.day_start"@, start) && is_set_to(
            rows,
            "shift.day_end"@,
            end,
        ) implies (match (read_time(start), read_time(end)) {
        (Some(day_start), Some(day_end)) => hours_of(settings_map(rows)) == Some(
            BusinessCalendar { day_start, day_end },
        ),
        _ => hours_of(settings_map(rows)) is None,
    }) by {
        a_setting_says_what_its_row_says(rows, "shift.day_start"@, start);
        a_setting_says_what_its_row_says(rows, "shift.day_end"@, end);
    }
}

// ---------------------------------------------------------------------------
// Changing a setting
// ---------------------------------------------------------------------------

/// The switches.
pub open spec fn is_a_switch(key: Seq<char>) -> bool {
    ||| key == "tax.enabled"@
    ||| key == "tax.inclusive"@
    ||| key == "service_charge.enabled"@
    ||| key == "tabs.ask_customer_tin"@
    ||| key == "payments.comps_enabled"@
    ||| key == "payments.partial_enabled"@
    ||| key == "payments.qr_enabled"@
    ||| key == "printing.report_enabled"@
    ||| key == "printing.customer_receipt_enabled"@
    ||| key == "reporting.show_cost"@
    ||| key == "setup.completed"@
}

/// The rates.
pub open spec fn is_a_rate(key: Seq<char>) -> bool {
    key == "tax.rate_bp"@ || key == "service_charge.rate_bp"@
}

/// What is free text.
pub open spec fn is_a_text(key: Seq<char>) -> bool {
    ||| key == "payments.bank_accounts"@
    ||| key == "receipt.business_name"@
    ||| key == "receipt.address"@
    ||| key == "receipt.phone"@
    ||| key == "receipt.tin"@
    ||| key == "receipt.footer"@
    ||| key == "locale.rounding"@
}

proof fn the_keys_differ(key: Seq<char>)
    ensures
        is_a_switch(key) ==> !is_a_rate(key) && !is_a_text(key) && key != "tabs.reference_mode"@
            && key != "receipt.chars_per_line"@ && key != "locale.currency_code"@ && key
            != "tabs.age_warning_days"@ && key != "shift.day_start"@ && key != "shift.day_end"@,
        is_a_rate(key) ==> !is_a_text(key) && key != "tabs.reference_mode"@ && key
            != "receipt.chars_per_line"@ && key != "locale.currency_code"@ && key
            != "tabs.age_warning_days"@ && key != "shift.day_start"@ && key != "shift.day_end"@,
        is_a_text(key) ==> key != "tabs.reference_mode"@ && key != "receipt.chars_per_line"@ && key
            != "locale.currency_code"@ && key != "tabs.age_warning_days"@ && key
            != "shift.day_start"@ && key != "shift.day_end"@,
        key == "tabs.reference_mode"@ ==> key != "receipt.chars_per_line"@ && key
            != "locale.currency_code"@ && key != "tabs.age_warning_days"@ && key
            != "shift.day_start"@ && key != "shift.day_end"@,
        key == "receipt.chars_per_line"@ ==> key != "locale.currency_code"@ && key
            != "tabs.age_warning_days"@ && key != "shift.day_start"@ && key != "shift.day_end"@,
        key == "locale.currency_code"@ ==> key != "tabs.age_warning_days"@ && key
            != "shift.day_start"@ && key != "shift.day_end"@,
        key == "tabs.age_warning_days"@ ==> key != "shift.day_start"@ && key != "shift.day_end"@,
        "shift.day_start"@ != "shift.day_end"@,
{
    reveal_strlit("tax.enabled");
    reveal_strlit("tax.inclusive");
    reveal_strlit("service_charge.enabled");
    reveal_strlit("tabs.ask_customer_tin");
    reveal_strlit("payments.comps_enabled");
    reveal_strlit("payments.partial_enabled");
    reveal_strlit("payments.qr_enabled");
    reveal_strlit("printing.report_enabled");
    reveal_strlit("printing.customer_receipt_enabled");
    reveal_strlit("reporting.show_cost");
    reveal_strlit("setup.completed");
    reveal_strlit("tax.rate_bp");
    reveal_strlit("service_charge.rate_bp");
    reveal_strlit("payments.bank_accounts");
    reveal_strlit("receipt.business_name");
    reveal_strlit("receipt.address");
    reveal_strlit("receipt.phone");
    reveal_strlit("receipt.tin");
    reveal_strlit("receipt.footer");
    reveal_strlit("locale.rounding");
    reveal_strlit("tabs.reference_mode");
    reveal_strlit("receipt.chars_per_line");
    reveal_strlit("locale.currency_code");
    reveal_strlit("tabs.age_warning_days");
    reveal_strlit("shift.day_start");
    reveal_strlit("shift.day_end");
    assert("tax.enabled"@.len() == 11);
    assert("tax.inclusive"@.len() == 13);
    assert("service_charge.enabled"@.len() == 22);
    assert("tabs.ask_customer_tin"@.len() == 21);
    assert("payments.comps_enabled"@.len() == 22);
    assert("payments.partial_enabled"@.len() == 24);
    assert("payments.qr_enabled"@.len() == 19);
    assert("printing.report_enabled"@.len() == 23);
    assert("printing.customer_receipt_enabled"@.len() == 33);
    assert("reporting.show_cost"@.len() == 19);
    assert("setup.completed"@.len() == 15);
    assert("tax.rate_bp"@.len() == 11);
    assert("service_charge.rate_bp"@.len() == 22);
    assert("payments.bank_accounts"@.len() == 22);
    assert("receipt.business_name"@.len() == 21);
    assert("receipt.address"@.len() == 15);
    assert("receipt.phone"@.len() == 13);
    assert("receipt.tin"@.len() == 11);
    assert("receipt.footer"@.len() == 14);
    assert("locale.rounding"@.len() == 15);
    assert("tabs.reference_mode"@.len() == 19);
    assert("receipt.chars_per_line"@.len() == 22);
    assert("locale.currency_code"@.len() == 20);
    assert("tabs.age_warning_days"@.len() == 21);
    assert("shift.day_start"@.len() == 15);
    assert("shift.day_end"@.len() == 13);
    assert("locale.rounding"@[0] == 'l');
    assert("payments.bank_accounts"@[0] == 'p');
    assert("payments.bank_accounts"@[9] == 'b');
    assert("payments.comps_enabled"@[0] == 'p');
    assert("payments.comps_enabled"@[9] == 'c');
    assert("payments.qr_enabled"@[0] == 'p');
    assert("receipt.address"@[0] == 'r');
    assert("receipt.business_name"@[0] == 'r');
    assert("receipt.chars_per_line"@[0] == 'r');
    assert("receipt.phone"@[0] == 'r');
    assert("receipt.tin"@[0] == 'r');
    assert("reporting.show_cost"@[0] == 'r');
    assert("service_charge.enabled"@[0] == 's');
    assert("service_charge.enabled"@[15] == 'e');
    assert("service_charge.rate_bp"@[0] == 's');
    assert("service_charge.rate_bp"@[15] == 'r');
    assert("setup.completed"@[0] == 's');
    assert("setup.completed"@[1] == 'e');
    assert("shift.day_end"@[0] == 's');
    assert("shift.day_start"@[0] == 's');
    assert("shift.day_start"@[1] == 'h');
    assert("tabs.age_warning_days"@[0] == 't');
    assert("tabs.age_warning_days"@[6] == 'g');
    assert("tabs.ask_customer_tin"@[0] == 't');
    assert("tabs.ask_customer_tin"@[6] == 's');
    assert("tabs.reference_mode"@[0] == 't');
    assert("tax.enabled"@[0] == 't');
    assert("tax.enabled"@[4] == 'e');
    assert("tax.inclusive"@[0] == 't');
    assert("tax.rate_bp"@[0] == 't');
    assert("tax.rate_bp"@[4] == 'r');
}

/// Whether a letter is a capital of the Latin alphabet.
pub open spec fn is_a_capital(letter: char) -> bool {
    65 <= letter as int <= 90
}

/// Whether a setting can have a value.
pub open spec fn can_be(key: Seq<char>, value: Seq<char>) -> bool {
    ||| is_a_switch(key) && (value == "0"@ || value == "1"@)
    ||| is_a_rate(key) && is_in_digits(value) && place_value(value) <= 10_000
    ||| key == "tabs.age_warning_days"@ && is_in_digits(value)
    ||| key == "receipt.chars_per_line"@ && is_in_digits(value) && 24 <= place_value(value) <= 96
    ||| (key == "shift.day_start"@ || key == "shift.day_end"@) && read_time(value) is Some
    ||| key == "tabs.reference_mode"@ && (value == "TABLE"@ || value == "CUSTOMER_NAME"@ || value
        == "CUSTOMER_PHONE"@ || value == "CUSTOM"@)
    ||| key == "locale.currency_code"@ && (value.len() == 0 || (value.len() == 3 && is_a_capital(
        value[0],
    ) && is_a_capital(value[1]) && is_a_capital(value[2])))
    ||| is_a_text(key)
}

/// A setting is changed exactly when it is one that the venue has and the value
/// is one that it can have.
pub proof fn when_a_setting_can_be_changed(
    rows: Seq<SettingRow>,
    key: Seq<char>,
    value: Seq<char>,
)
    ensures
        put_refusal(rows, key, value) is None <==> can_be(key, value) && !is_not_set(rows, key),
{
    the_keys_differ(key);
    a_setting_says_what_its_row_says(rows, key, value);
    super::writing::digits_are_read_alike(value);
    if is_in_digits(value) && place_value(value) <= 10_000 {
        super::writing::a_number_in_digits_is_read(value);
    }
}

/// A changed setting says the new value, who changed it and when; every other
/// setting says what it said.
pub proof fn a_changed_setting_says_the_new_value(
    before: Seq<SettingRow>,
    after: Seq<SettingRow>,
    key: Seq<char>,
    value: Seq<char>,
    staff_id: Option<i64>,
    at: i64,
)
    requires
        put_refusal(before, key, value) is None,
        setting_changed(before, after, key, value, staff_id, at),
    ensures
        is_set_to(after, key, value),
        forall|other: Seq<char>, said: Seq<char>|
            other != key ==> (#[trigger] is_set_to(after, other, said) <==> is_set_to(
                before,
                other,
                said,
            )),
        after.len() == before.len(),
        forall|i: int|
            0 <= i < after.len() ==> {
                &&& (#[trigger] after[i]).key@ == before[i].key@
                &&& before[i].key@ == key ==> after[i].updated_by == staff_id && after[i].updated_at
                    == at
                &&& before[i].key@ != key ==> after[i] == before[i]
            },
{
    crate::settings::a_setting_reads_back(before, after, key, value, staff_id, at, key);
    a_setting_says_what_its_row_says(after, key, value);
    a_setting_says_what_its_row_says(before, key, value);
    assert forall|other: Seq<char>, said: Seq<char>| other != key implies (
    #[trigger] is_set_to(after, other, said) <==> is_set_to(before, other, said)) by {
        crate::settings::a_setting_reads_back(before, after, key, value, staff_id, at, other);
        a_setting_says_what_its_row_says(after, other, said);
        a_setting_says_what_its_row_says(before, other, said);
    }
}

} // verus!

//! What the Settings screen looks like.
//!
//! The screen is generated from this description. One list decides which keys
//! are editable, what each is called in plain language, and what kind of
//! control it gets, so that no setting is ever stored where nobody can reach
//! it.

use vstd::prelude::*;

use crate::settings::{keys, kind_of, objection, setting, Settings};

pub mod wording;

verus! {

/// The control a setting gets on screen.
#[derive(Debug, Clone, Copy, PartialEq, Eq, Structural)]
pub enum FieldKind {
    /// On or off.
    Toggle,
    /// A percentage, stored in basis points and shown as `15%`.
    Rate,
    Integer,
    /// `HH:mm`.
    Time,
    Text,
    /// Free text over several lines: bank account details, receipt footers.
    Multiline,
    /// One of a fixed set.
    Choice,
}

/// One of the values that a choice offers.
#[derive(Debug, Clone, Copy)]
pub struct Choice {
    pub value: &'static str,
    pub label: &'static str,
}

/// One control, and what it stands at.
#[derive(Debug, Clone)]
pub struct SettingField {
    pub key: &'static str,
    pub value: String,
    pub kind: FieldKind,
    pub label: &'static str,
    /// One sentence saying what changes if this is changed.
    pub help: &'static str,
    pub choices: Vec<Choice>,
    /// Only meaningful for a toggle: the keys hidden while it is off.
    pub reveals: Vec<&'static str>,
}

/// Controls that belong together.
#[derive(Debug, Clone)]
pub struct SettingGroup {
    pub id: &'static str,
    pub title: &'static str,
    pub blurb: &'static str,
    pub fields: Vec<SettingField>,
}

// ---------------------------------------------------------------------------
// The description
// ---------------------------------------------------------------------------

/// What the screen says of one setting, whatever it stands at.
pub struct FieldSpec {
    pub key: Seq<char>,
    pub kind: FieldKind,
    pub label: Seq<char>,
    pub help: Seq<char>,
    /// The values on offer, each with its label.
    pub choices: Seq<(Seq<char>, Seq<char>)>,
    pub reveals: Seq<Seq<char>>,
}

/// What the screen says of one group.
pub struct GroupSpec {
    pub id: Seq<char>,
    pub title: Seq<char>,
    pub blurb: Seq<char>,
    pub fields: Seq<FieldSpec>,
}

/// A control that offers nothing and hides nothing.
pub open spec fn plain(key: &str, kind: FieldKind, label: &str, help: &str) -> FieldSpec {
    FieldSpec {
        key: key@,
        kind,
        label: label@,
        help: help@,
        choices: Seq::empty(),
        reveals: Seq::empty(),
    }
}

/// Whether the price list has the tax in it.
pub open spec fn tax_modes() -> Seq<(Seq<char>, Seq<char>)> {
    seq![("1"@, wording::TAX_IN_PRICE@), ("0"@, wording::TAX_ON_TOP@)]
}

/// What a tab can be identified by.
pub open spec fn reference_modes() -> Seq<(Seq<char>, Seq<char>)> {
    seq![
        ("TABLE"@, wording::BY_TABLE@),
        ("CUSTOMER_NAME"@, wording::BY_NAME@),
        ("CUSTOMER_PHONE"@, wording::BY_PHONE@),
        ("CUSTOM"@, wording::BY_CUSTOM@),
    ]
}

/// Choices, over characters.
pub open spec fn choices_in(choices: Seq<Choice>) -> Seq<(Seq<char>, Seq<char>)> {
    choices.map_values(|c: Choice| (c.value@, c.label@))
}

/// Keys, over characters.
pub open spec fn keys_in(listed: Seq<&'static str>) -> Seq<Seq<char>> {
    listed.map_values(|k: &'static str| k@)
}

/// Whether a control is that setting's, standing at its value.
pub open spec fn field_says(
    field: SettingField,
    said: FieldSpec,
    values: Map<Seq<char>, Seq<char>>,
) -> bool {
    &&& field.key@ == said.key
    &&& field.value@ == setting(values, said.key)
    &&& field.kind == said.kind
    &&& field.label@ == said.label
    &&& field.help@ == said.help
    &&& choices_in(field.choices@) == said.choices
    &&& keys_in(field.reveals@) == said.reveals
}

/// Whether a group on screen is that group.
pub open spec fn group_says(
    group: SettingGroup,
    said: GroupSpec,
    values: Map<Seq<char>, Seq<char>>,
) -> bool {
    &&& group.id@ == said.id
    &&& group.title@ == said.title
    &&& group.blurb@ == said.blurb
    &&& group.fields@.len() == said.fields.len()
    &&& forall|i: int|
        0 <= i < said.fields.len() ==> field_says(
            #[trigger] group.fields@[i],
            said.fields[i],
            values,
        )
}

fn field(
    settings: &Settings,
    key: &'static str,
    kind: FieldKind,
    label: &'static str,
    help: &'static str,
) -> (result: SettingField)
    ensures
        field_says(result, plain(key, kind, label, help), settings@),
        result.choices@.len() == 0,
        result.reveals@.len() == 0,
{
    let result: SettingField = SettingField {
        key,
        value: settings.text(key).to_owned(),
        kind,
        label,
        help,
        choices: Vec::new(),
        reveals: Vec::new(),
    };
    assert(choices_in(result.choices@) =~= Seq::empty());
    assert(keys_in(result.reveals@) =~= Seq::empty());
    result
}

fn tax_modes_list() -> (result: Vec<Choice>)
    ensures
        choices_in(result@) == tax_modes(),
{
    let mut result: Vec<Choice> = Vec::new();
    result.push(Choice { value: "1", label: wording::TAX_IN_PRICE });
    result.push(Choice { value: "0", label: wording::TAX_ON_TOP });
    assert(choices_in(result@) =~= tax_modes());
    result
}

fn reference_modes_list() -> (result: Vec<Choice>)
    ensures
        choices_in(result@) == reference_modes(),
{
    let mut result: Vec<Choice> = Vec::new();
    result.push(Choice { value: "TABLE", label: wording::BY_TABLE });
    result.push(Choice { value: "CUSTOMER_NAME", label: wording::BY_NAME });
    result.push(Choice { value: "CUSTOMER_PHONE", label: wording::BY_PHONE });
    result.push(Choice { value: "CUSTOM", label: wording::BY_CUSTOM });
    assert(choices_in(result@) =~= reference_modes());
    result
}

/// The "VAT and service charge" group.
pub open spec fn charges_group() -> GroupSpec {
    GroupSpec {
        id: "charges"@,
        title: wording::CHARGES_TITLE@,
        blurb: wording::CHARGES_BLURB@,
        fields: seq![
            FieldSpec {
                reveals: seq![keys::TAX_RATE_BP@, keys::TAX_INCLUSIVE@],
                ..plain(
                    keys::TAX_ENABLED,
                    FieldKind::Toggle,
                    wording::TAX_ENABLED_LABEL,
                    wording::TAX_ENABLED_HELP,
                )
            },
            plain(
                keys::TAX_RATE_BP,
                FieldKind::Rate,
                wording::TAX_RATE_BP_LABEL,
                wording::TAX_RATE_BP_HELP,
            ),
            FieldSpec {
                choices: tax_modes(),
                ..plain(
                    keys::TAX_INCLUSIVE,
                    FieldKind::Choice,
                    wording::TAX_INCLUSIVE_LABEL,
                    wording::TAX_INCLUSIVE_HELP,
                )
            },
            FieldSpec {
                reveals: seq![keys::SERVICE_RATE_BP@],
                ..plain(
                    keys::SERVICE_ENABLED,
                    FieldKind::Toggle,
                    wording::SERVICE_ENABLED_LABEL,
                    wording::SERVICE_ENABLED_HELP,
                )
            },
            plain(
                keys::SERVICE_RATE_BP,
                FieldKind::Rate,
                wording::SERVICE_RATE_BP_LABEL,
                wording::SERVICE_RATE_BP_HELP,
            ),
        ],
    }
}

fn charges(settings: &Settings) -> (result: SettingGroup)
    ensures
        group_says(result, charges_group(), settings@),
{
    let mut fields: Vec<SettingField> = Vec::new();
    let mut tax_enabled: SettingField = field(
        settings,
        keys::TAX_ENABLED,
        FieldKind::Toggle,
        wording::TAX_ENABLED_LABEL,
        wording::TAX_ENABLED_HELP,
    );
    tax_enabled.reveals.push(keys::TAX_RATE_BP);
    tax_enabled.reveals.push(keys::TAX_INCLUSIVE);
    assert(keys_in(tax_enabled.reveals@) =~= seq![keys::TAX_RATE_BP@, keys::TAX_INCLUSIVE@]);
    fields.push(tax_enabled);
    fields.push(
        field(
            settings,
            keys::TAX_RATE_BP,
            FieldKind::Rate,
            wording::TAX_RATE_BP_LABEL,
            wording::TAX_RATE_BP_HELP,
        ),
    );
    let mut tax_inclusive: SettingField = field(
        settings,
        keys::TAX_INCLUSIVE,
        FieldKind::Choice,
        wording::TAX_INCLUSIVE_LABEL,
        wording::TAX_INCLUSIVE_HELP,
    );
    tax_inclusive.choices = tax_modes_list();
    fields.push(tax_inclusive);
    let mut service_enabled: SettingField = field(
        settings,
        keys::SERVICE_ENABLED,
        FieldKind::Toggle,
        wording::SERVICE_ENABLED_LABEL,
        wording::SERVICE_ENABLED_HELP,
    );
    service_enabled.reveals.push(keys::SERVICE_RATE_BP);
    assert(keys_in(service_enabled.reveals@) =~= seq![keys::SERVICE_RATE_BP@]);
    fields.push(service_enabled);
    fields.push(
        field(
            settings,
            keys::SERVICE_RATE_BP,
            FieldKind::Rate,
            wording::SERVICE_RATE_BP_LABEL,
            wording::SERVICE_RATE_BP_HELP,
        ),
    );
    SettingGroup {
        id: "charges",
        title: wording::CHARGES_TITLE,
        blurb: wording::CHARGES_BLURB,
        fields,
    }
}

/// The "The trading day" group.
pub open spec fn trading_day_group() -> GroupSpec {
    GroupSpec {
        id: "trading-day"@,
        title: wording::TRADING_DAY_TITLE@,
        blurb: wording::TRADING_DAY_BLURB@,
        fields: seq![
            plain(
                keys::DAY_START,
                FieldKind::Time,
                wording::DAY_START_LABEL,
                wording::DAY_START_HELP,
            ),
            plain(keys::DAY_END, FieldKind::Time, wording::DAY_END_LABEL, wording::DAY_END_HELP),
        ],
    }
}

fn trading_day(settings: &Settings) -> (result: SettingGroup)
    ensures
        group_says(result, trading_day_group(), settings@),
{
    let mut fields: Vec<SettingField> = Vec::new();
    fields.push(
        field(
            settings,
            keys::DAY_START,
            FieldKind::Time,
            wording::DAY_START_LABEL,
            wording::DAY_START_HELP,
        ),
    );
    fields.push(
        field(
            settings,
            keys::DAY_END,
            FieldKind::Time,
            wording::DAY_END_LABEL,
            wording::DAY_END_HELP,
        ),
    );
    SettingGroup {
        id: "trading-day",
        title: wording::TRADING_DAY_TITLE,
        blurb: wording::TRADING_DAY_BLURB,
        fields,
    }
}

/// The "Tabs" group.
pub open spec fn tabs_group() -> GroupSpec {
    GroupSpec {
        id: "tabs"@,
        title: wording::TABS_TITLE@,
        blurb: wording::TABS_BLURB@,
        fields: seq![
            FieldSpec {
                choices: reference_modes(),
                ..plain(
                    keys::TABS_REFERENCE_MODE,
                    FieldKind::Choice,
                    wording::TABS_REFERENCE_MODE_LABEL,
                    wording::TABS_REFERENCE_MODE_HELP,
                )
            },
            plain(
                keys::TABS_AGE_WARNING_DAYS,
                FieldKind::Integer,
                wording::TABS_AGE_WARNING_DAYS_LABEL,
                wording::TABS_AGE_WARNING_DAYS_HELP,
            ),
            plain(
                keys::TABS_ASK_CUSTOMER_TIN,
                FieldKind::Toggle,
                wording::TABS_ASK_CUSTOMER_TIN_LABEL,
                wording::TABS_ASK_CUSTOMER_TIN_HELP,
            ),
        ],
    }
}

fn tabs(settings: &Settings) -> (result: SettingGroup)
    ensures
        group_says(result, tabs_group(), settings@),
{
    let mut fields: Vec<SettingField> = Vec::new();
    let mut tabs_reference_mode: SettingField = field(
        settings,
        keys::TABS_REFERENCE_MODE,
        FieldKind::Choice,
        wording::TABS_REFERENCE_MODE_LABEL,
        wording::TABS_REFERENCE_MODE_HELP,
    );
    tabs_reference_mode.choices = reference_modes_list();
    fields.push(tabs_reference_mode);
    fields.push(
        field(
            settings,
            keys::TABS_AGE_WARNING_DAYS,
            FieldKind::Integer,
            wording::TABS_AGE_WARNING_DAYS_LABEL,
            wording::TABS_AGE_WARNING_DAYS_HELP,
        ),
    );
    fields.push(
        field(
            settings,
            keys::TABS_ASK_CUSTOMER_TIN,
            FieldKind::Toggle,
            wording::TABS_ASK_CUSTOMER_TIN_LABEL,
            wording::TABS_ASK_CUSTOMER_TIN_HELP,
        ),
    );
    SettingGroup { id: "tabs", title: wording::TABS_TITLE, blurb: wording::TABS_BLURB, fields }
}

/// The "Settling up" group.
pub open spec fn payments_group() -> GroupSpec {
    GroupSpec {
        id: "payments"@,
        title: wording::PAYMENTS_TITLE@,
        blurb: wording::PAYMENTS_BLURB@,
        fields: seq![
            plain(
                keys::COMPS_ENABLED,
                FieldKind::Toggle,
                wording::COMPS_ENABLED_LABEL,
                wording::COMPS_ENABLED_HELP,
            ),
            plain(
                keys::PARTIAL_ENABLED,
                FieldKind::Toggle,
                wording::PARTIAL_ENABLED_LABEL,
                wording::PARTIAL_ENABLED_HELP,
            ),
            plain(
                keys::BANK_ACCOUNTS,
                FieldKind::Multiline,
                wording::BANK_ACCOUNTS_LABEL,
                wording::BANK_ACCOUNTS_HELP,
            ),
            plain(
                keys::QR_ENABLED,
                FieldKind::Toggle,
                wording::QR_ENABLED_LABEL,
                wording::QR_ENABLED_HELP,
            ),
        ],
    }
}

fn payments(settings: &Settings) -> (result: SettingGroup)
    ensures
        group_says(result, payments_group(), settings@),
{
    let mut fields: Vec<SettingField> = Vec::new();
    fields.push(
        field(
            settings,
            keys::COMPS_ENABLED,
            FieldKind::Toggle,
            wording::COMPS_ENABLED_LABEL,
            wording::COMPS_ENABLED_HELP,
        ),
    );
    fields.push(
        field(
            settings,
            keys::PARTIAL_ENABLED,
            FieldKind::Toggle,
            wording::PARTIAL_ENABLED_LABEL,
            wording::PARTIAL_ENABLED_HELP,
        ),
    );
    fields.push(
        field(
            settings,
            keys::BANK_ACCOUNTS,
            FieldKind::Multiline,
            wording::BANK_ACCOUNTS_LABEL,
            wording::BANK_ACCOUNTS_HELP,
        ),
    );
    fields.push(
        field(
            settings,
            keys::QR_ENABLED,
            FieldKind::Toggle,
            wording::QR_ENABLED_LABEL,
            wording::QR_ENABLED_HELP,
        ),
    );
    SettingGroup {
        id: "payments",
        title: wording::PAYMENTS_TITLE,
        blurb: wording::PAYMENTS_BLURB,
        fields,
    }
}

/// The "Printing" group.
pub open spec fn printing_group() -> GroupSpec {
    GroupSpec {
        id: "printing"@,
        title: wording::PRINTING_TITLE@,
        blurb: wording::PRINTING_BLURB@,
        fields: seq![
            plain(
                keys::PRINT_CUSTOMER_RECEIPT,
                FieldKind::Toggle,
                wording::PRINT_CUSTOMER_RECEIPT_LABEL,
                wording::PRINT_CUSTOMER_RECEIPT_HELP,
            ),
            plain(
                keys::PRINT_REPORT,
                FieldKind::Toggle,
                wording::PRINT_REPORT_LABEL,
                wording::PRINT_REPORT_HELP,
            ),
            plain(
                keys::CHARS_PER_LINE,
                FieldKind::Integer,
                wording::CHARS_PER_LINE_LABEL,
                wording::CHARS_PER_LINE_HELP,
            ),
        ],
    }
}

fn printing(settings: &Settings) -> (result: SettingGroup)
    ensures
        group_says(result, printing_group(), settings@),
{
    let mut fields: Vec<SettingField> = Vec::new();
    fields.push(
        field(
            settings,
            keys::PRINT_CUSTOMER_RECEIPT,
            FieldKind::Toggle,
            wording::PRINT_CUSTOMER_RECEIPT_LABEL,
            wording::PRINT_CUSTOMER_RECEIPT_HELP,
        ),
    );
    fields.push(
        field(
            settings,
            keys::PRINT_REPORT,
            FieldKind::Toggle,
            wording::PRINT_REPORT_LABEL,
            wording::PRINT_REPORT_HELP,
        ),
    );
    fields.push(
        field(
            settings,
            keys::CHARS_PER_LINE,
            FieldKind::Integer,
            wording::CHARS_PER_LINE_LABEL,
            wording::CHARS_PER_LINE_HELP,
        ),
    );
    SettingGroup {
        id: "printing",
        title: wording::PRINTING_TITLE,
        blurb: wording::PRINTING_BLURB,
        fields,
    }
}

/// The "What is printed at the top" group.
pub open spec fn receipt_group() -> GroupSpec {
    GroupSpec {
        id: "receipt"@,
        title: wording::RECEIPT_TITLE@,
        blurb: wording::RECEIPT_BLURB@,
        fields: seq![
            plain(
                keys::BUSINESS_NAME,
                FieldKind::Text,
                wording::BUSINESS_NAME_LABEL,
                wording::BUSINESS_NAME_HELP,
            ),
            plain(keys::ADDRESS, FieldKind::Text, wording::ADDRESS_LABEL, wording::ADDRESS_HELP),
            plain(keys::PHONE, FieldKind::Text, wording::PHONE_LABEL, wording::PHONE_HELP),
            plain(keys::TIN, FieldKind::Text, wording::TIN_LABEL, wording::TIN_HELP),
            plain(keys::FOOTER, FieldKind::Multiline, wording::FOOTER_LABEL, wording::FOOTER_HELP),
        ],
    }
}

fn receipt(settings: &Settings) -> (result: SettingGroup)
    ensures
        group_says(result, receipt_group(), settings@),
{
    let mut fields: Vec<SettingField> = Vec::new();
    fields.push(
        field(
            settings,
            keys::BUSINESS_NAME,
            FieldKind::Text,
            wording::BUSINESS_NAME_LABEL,
            wording::BUSINESS_NAME_HELP,
        ),
    );
    fields.push(
        field(
            settings,
            keys::ADDRESS,
            FieldKind::Text,
            wording::ADDRESS_LABEL,
            wording::ADDRESS_HELP,
        ),
    );
    fields.push(
        field(
            settings,
            keys::PHONE,
            FieldKind::Text,
            wording::PHONE_LABEL,
            wording::PHONE_HELP,
        ),
    );
    fields.push(field(settings, keys::TIN, FieldKind::Text, wording::TIN_LABEL, wording::TIN_HELP));
    fields.push(
        field(
            settings,
            keys::FOOTER,
            FieldKind::Multiline,
            wording::FOOTER_LABEL,
            wording::FOOTER_HELP,
        ),
    );
    SettingGroup {
        id: "receipt",
        title: wording::RECEIPT_TITLE,
        blurb: wording::RECEIPT_BLURB,
        fields,
    }
}

/// The "Money and reporting" group.
pub open spec fn locale_group() -> GroupSpec {
    GroupSpec {
        id: "locale"@,
        title: wording::LOCALE_TITLE@,
        blurb: wording::LOCALE_BLURB@,
        fields: seq![
            plain(
                keys::CURRENCY_CODE,
                FieldKind::Text,
                wording::CURRENCY_CODE_LABEL,
                wording::CURRENCY_CODE_HELP,
            ),
            plain(
                keys::SHOW_COST,
                FieldKind::Toggle,
                wording::SHOW_COST_LABEL,
                wording::SHOW_COST_HELP,
            ),
        ],
    }
}

fn locale(settings: &Settings) -> (result: SettingGroup)
    ensures
        group_says(result, locale_group(), settings@),
{
    let mut fields: Vec<SettingField> = Vec::new();
    fields.push(
        field(
            settings,
            keys::CURRENCY_CODE,
            FieldKind::Text,
            wording::CURRENCY_CODE_LABEL,
            wording::CURRENCY_CODE_HELP,
        ),
    );
    fields.push(
        field(
            settings,
            keys::SHOW_COST,
            FieldKind::Toggle,
            wording::SHOW_COST_LABEL,
            wording::SHOW_COST_HELP,
        ),
    );
    SettingGroup {
        id: "locale",
        title: wording::LOCALE_TITLE,
        blurb: wording::LOCALE_BLURB,
        fields,
    }
}
/// The Settings screen, whatever it stands at.
pub open spec fn form() -> Seq<GroupSpec> {
    seq![
        charges_group(),
        trading_day_group(),
        tabs_group(),
        payments_group(),
        printing_group(),
        receipt_group(),
        locale_group(),
    ]
}

/// Build the Settings screen against the current values.
pub fn describe(settings: &Settings) -> (result: Vec<SettingGroup>)
    ensures
        result@.len() == form().len(),
        forall|i: int|
            0 <= i < form().len() ==> group_says(#[trigger] result@[i], form()[i], settings@),
{
    let mut result: Vec<SettingGroup> = Vec::new();
    result.push(charges(settings));
    result.push(trading_day(settings));
    result.push(tabs(settings));
    result.push(payments(settings));
    result.push(printing(settings));
    result.push(receipt(settings));
    result.push(locale(settings));
    result
}

// ---------------------------------------------------------------------------
// Laws
// ---------------------------------------------------------------------------

/// Every setting on the screen, group after group.
pub open spec fn every_field() -> Seq<FieldSpec> {
    charges_group().fields + trading_day_group().fields + tabs_group().fields
        + payments_group().fields + printing_group().fields + receipt_group().fields
        + locale_group().fields
}

/// Where a setting stands on the screen; nowhere, where it is not there.
pub open spec fn stands_at(key: Seq<char>) -> Option<int> {
    if key == keys::TAX_ENABLED@ {
        Some(0)
    } else if key == keys::TAX_RATE_BP@ {
        Some(1)
    } else if key == keys::TAX_INCLUSIVE@ {
        Some(2)
    } else if key == keys::SERVICE_ENABLED@ {
        Some(3)
    } else if key == keys::SERVICE_RATE_BP@ {
        Some(4)
    } else if key == keys::DAY_START@ {
        Some(5)
    } else if key == keys::DAY_END@ {
        Some(6)
    } else if key == keys::TABS_REFERENCE_MODE@ {
        Some(7)
    } else if key == keys::TABS_AGE_WARNING_DAYS@ {
        Some(8)
    } else if key == keys::TABS_ASK_CUSTOMER_TIN@ {
        Some(9)
    } else if key == keys::COMPS_ENABLED@ {
        Some(10)
    } else if key == keys::PARTIAL_ENABLED@ {
        Some(11)
    } else if key == keys::BANK_ACCOUNTS@ {
        Some(12)
    } else if key == keys::QR_ENABLED@ {
        Some(13)
    } else if key == keys::PRINT_CUSTOMER_RECEIPT@ {
        Some(14)
    } else if key == keys::PRINT_REPORT@ {
        Some(15)
    } else if key == keys::CHARS_PER_LINE@ {
        Some(16)
    } else if key == keys::BUSINESS_NAME@ {
        Some(17)
    } else if key == keys::ADDRESS@ {
        Some(18)
    } else if key == keys::PHONE@ {
        Some(19)
    } else if key == keys::TIN@ {
        Some(20)
    } else if key == keys::FOOTER@ {
        Some(21)
    } else if key == keys::CURRENCY_CODE@ {
        Some(22)
    } else if key == keys::SHOW_COST@ {
        Some(23)
    } else {
        None
    }
}

/// What the keys on the screen are, one by one.
proof fn keys_are_apart()
    ensures
        every_field().len() == 24,
        forall|i: int|
            0 <= i < every_field().len() ==> stands_at(#[trigger] every_field()[i].key) == Some(i),
        forall|i: int|
            0 <= i < every_field().len() ==> #[trigger] every_field()[i].key.len() > 0
                && every_field()[i].key[0] != 'i',
{
    reveal_strlit("tax.enabled");
    reveal_strlit("tax.rate_bp");
    reveal_strlit("tax.inclusive");
    reveal_strlit("service_charge.enabled");
    reveal_strlit("service_charge.rate_bp");
    reveal_strlit("shift.day_start");
    reveal_strlit("shift.day_end");
    reveal_strlit("tabs.reference_mode");
    reveal_strlit("tabs.age_warning_days");
    reveal_strlit("tabs.ask_customer_tin");
    reveal_strlit("payments.comps_enabled");
    reveal_strlit("payments.partial_enabled");
    reveal_strlit("payments.bank_accounts");
    reveal_strlit("payments.qr_enabled");
    reveal_strlit("printing.customer_receipt_enabled");
    reveal_strlit("printing.report_enabled");
    reveal_strlit("receipt.chars_per_line");
    reveal_strlit("receipt.business_name");
    reveal_strlit("receipt.address");
    reveal_strlit("receipt.phone");
    reveal_strlit("receipt.tin");
    reveal_strlit("receipt.footer");
    reveal_strlit("locale.currency_code");
    reveal_strlit("reporting.show_cost");
    assert("payments.bank_accounts"@[0] == 'p');
    assert("payments.bank_accounts"@[9] == 'b');
    assert("payments.comps_enabled"@[0] == 'p');
    assert("payments.comps_enabled"@[9] == 'c');
    assert("payments.qr_enabled"@[0] == 'p');
    assert("receipt.address"@[0] == 'r');
    assert("receipt.business_name"@[0] == 'r');
    assert("receipt.chars_per_line"@[0] == 'r');
    assert("receipt.phone"@[0] == 'r');
    assert("receipt.tin"@[0] == 'r');
    assert("reporting.show_cost"@[0] == 'r');
    assert("service_charge.enabled"@[0] == 's');
    assert("service_charge.enabled"@[15] == 'e');
    assert("service_charge.rate_bp"@[0] == 's');
    assert("service_charge.rate_bp"@[15] == 'r');
    assert("shift.day_end"@[0] == 's');
    assert("shift.day_start"@[0] == 's');
    assert("tabs.age_warning_days"@[0] == 't');
    assert("tabs.age_warning_days"@[6] == 'g');
    assert("tabs.ask_customer_tin"@[0] == 't');
    assert("tabs.ask_customer_tin"@[6] == 's');
    assert("tabs.reference_mode"@[0] == 't');
    assert("tax.enabled"@[0] == 't');
    assert("tax.enabled"@[4] == 'e');
    assert("tax.inclusive"@[0] == 't');
    assert("tax.rate_bp"@[0] == 't');
    assert("tax.rate_bp"@[4] == 'r');
    assert("payments.partial_enabled"@[0] == 'p');
    assert("printing.customer_receipt_enabled"@[0] == 'p');
    assert("printing.report_enabled"@[0] == 'p');
    assert("receipt.footer"@[0] == 'r');
    assert("locale.currency_code"@[0] == 'l');
    let all = every_field();
    assert(all[0].key == keys::TAX_ENABLED@ && stands_at(keys::TAX_ENABLED@) == Some(0int));
    assert(all[1].key == keys::TAX_RATE_BP@ && stands_at(keys::TAX_RATE_BP@) == Some(1int));
    assert(all[2].key == keys::TAX_INCLUSIVE@ && stands_at(keys::TAX_INCLUSIVE@) == Some(2int));
    assert(all[3].key == keys::SERVICE_ENABLED@ && stands_at(keys::SERVICE_ENABLED@) == Some(3int));
    assert(all[4].key == keys::SERVICE_RATE_BP@ && stands_at(keys::SERVICE_RATE_BP@) == Some(4int));
    assert(all[5].key == keys::DAY_START@ && stands_at(keys::DAY_START@) == Some(5int));
    assert(all[6].key == keys::DAY_END@ && stands_at(keys::DAY_END@) == Some(6int));
    assert(all[7].key == keys::TABS_REFERENCE_MODE@ && stands_at(keys::TABS_REFERENCE_MODE@)
        == Some(7int));
    assert(all[8].key == keys::TABS_AGE_WARNING_DAYS@ && stands_at(keys::TABS_AGE_WARNING_DAYS@)
        == Some(8int));
    assert(all[9].key == keys::TABS_ASK_CUSTOMER_TIN@ && stands_at(keys::TABS_ASK_CUSTOMER_TIN@)
        == Some(9int));
    assert(all[10].key == keys::COMPS_ENABLED@ && stands_at(keys::COMPS_ENABLED@) == Some(10int));
    assert(all[11].key == keys::PARTIAL_ENABLED@ && stands_at(keys::PARTIAL_ENABLED@)
        == Some(11int));
    assert(all[12].key == keys::BANK_ACCOUNTS@ && stands_at(keys::BANK_ACCOUNTS@) == Some(12int));
    assert(all[13].key == keys::QR_ENABLED@ && stands_at(keys::QR_ENABLED@) == Some(13int));
    assert(all[14].key == keys::PRINT_CUSTOMER_RECEIPT@ && stands_at(keys::PRINT_CUSTOMER_RECEIPT@)
        == Some(14int));
    assert(all[15].key == keys::PRINT_REPORT@ && stands_at(keys::PRINT_REPORT@) == Some(15int));
    assert(all[16].key == keys::CHARS_PER_LINE@ && stands_at(keys::CHARS_PER_LINE@) == Some(16int));
    assert(all[17].key == keys::BUSINESS_NAME@ && stands_at(keys::BUSINESS_NAME@) == Some(17int));
    assert(all[18].key == keys::ADDRESS@ && stands_at(keys::ADDRESS@) == Some(18int));
    assert(all[19].key == keys::PHONE@ && stands_at(keys::PHONE@) == Some(19int));
    assert(all[20].key == keys::TIN@ && stands_at(keys::TIN@) == Some(20int));
    assert(all[21].key == keys::FOOTER@ && stands_at(keys::FOOTER@) == Some(21int));
    assert(all[22].key == keys::CURRENCY_CODE@ && stands_at(keys::CURRENCY_CODE@) == Some(22int));
    assert(all[23].key == keys::SHOW_COST@ && stands_at(keys::SHOW_COST@) == Some(23int));
}

/// A setting is on the screen at most once.
pub proof fn a_key_appears_once(i: int, j: int)
    requires
        0 <= i < every_field().len(),
        0 <= j < every_field().len(),
        every_field()[i].key == every_field()[j].key,
    ensures
        i == j,
{
    keys_are_apart();
}

/// No control lets stock go negative: nothing about the inventory is on the
/// screen at all.
pub proof fn nothing_offers_negative_stock(i: int)
    requires
        0 <= i < every_field().len(),
    ensures
        !"inventory."@.is_prefix_of(every_field()[i].key),
{
    keys_are_apart();
    reveal_strlit("inventory.");
    let key = every_field()[i].key;
    if "inventory."@.is_prefix_of(key) {
        assert(key.subrange(0, "inventory."@.len() as int)[0] == 'i');
    }
}

/// Every setting that this version knows can be reached from the screen, but
/// for the two that are nobody's to choose.
pub proof fn every_setting_can_be_reached(key: Seq<char>)
    requires
        kind_of(key) is Some,
        key != keys::ROUNDING@,
        key != keys::SETUP_COMPLETED@,
    ensures
        exists|i: int| 0 <= i < every_field().len() && #[trigger] every_field()[i].key == key,
{
    keys_are_apart();
    let all = every_field();
    assert(all[0].key == keys::TAX_ENABLED@);
    assert(all[1].key == keys::TAX_RATE_BP@);
    assert(all[2].key == keys::TAX_INCLUSIVE@);
    assert(all[3].key == keys::SERVICE_ENABLED@);
    assert(all[4].key == keys::SERVICE_RATE_BP@);
    assert(all[5].key == keys::DAY_START@);
    assert(all[6].key == keys::DAY_END@);
    assert(all[7].key == keys::TABS_REFERENCE_MODE@);
    assert(all[8].key == keys::TABS_AGE_WARNING_DAYS@);
    assert(all[9].key == keys::TABS_ASK_CUSTOMER_TIN@);
    assert(all[10].key == keys::COMPS_ENABLED@);
    assert(all[11].key == keys::PARTIAL_ENABLED@);
    assert(all[12].key == keys::BANK_ACCOUNTS@);
    assert(all[13].key == keys::QR_ENABLED@);
    assert(all[14].key == keys::PRINT_CUSTOMER_RECEIPT@);
    assert(all[15].key == keys::PRINT_REPORT@);
    assert(all[16].key == keys::CHARS_PER_LINE@);
    assert(all[17].key == keys::BUSINESS_NAME@);
    assert(all[18].key == keys::ADDRESS@);
    assert(all[19].key == keys::PHONE@);
    assert(all[20].key == keys::TIN@);
    assert(all[21].key == keys::FOOTER@);
    assert(all[22].key == keys::CURRENCY_CODE@);
    assert(all[23].key == keys::SHOW_COST@);
}

/// Everything on the screen is a setting that this version knows.
pub proof fn every_control_is_a_setting(i: int)
    requires
        0 <= i < every_field().len(),
    ensures
        kind_of(every_field()[i].key) is Some,
{
    keys_are_apart();
}

/// A choice offers whatever the setting can be stored as, so that no screen
/// shows one thing and saves another.
pub proof fn a_choice_offers_whatever_is_stored(i: int, value: Seq<char>)
    requires
        0 <= i < every_field().len(),
        every_field()[i].kind == FieldKind::Choice,
        kind_of(every_field()[i].key) matches Some(kind) && objection(
            every_field()[i].key,
            value,
            kind,
        ) is None,
    ensures
        exists|c: int|
            0 <= c < every_field()[i].choices.len() && (#[trigger] every_field()[i].choices[c]).0
                == value,
{
    keys_are_apart();
    let said = every_field()[i];
    assert(tax_modes()[0].0 == "1"@ && tax_modes()[1].0 == "0"@);
    let modes = reference_modes();
    assert(modes[0].0 == "TABLE"@ && modes[1].0 == "CUSTOMER_NAME"@);
    assert(modes[2].0 == "CUSTOMER_PHONE"@ && modes[3].0 == "CUSTOM"@);
    if said.key == keys::TAX_INCLUSIVE@ {
        assert(said.choices == tax_modes());
    } else {
        assert(said.key == keys::TABS_REFERENCE_MODE@);
        assert(said.choices == reference_modes());
    }
}

} // verus!

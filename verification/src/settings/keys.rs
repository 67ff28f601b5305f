//! Every key that the till reads, named once and never typed as a literal
//! anywhere else.

use vstd::prelude::*;

verus! {

pub const TAX_ENABLED: &'static str = "tax.enabled";

pub const TAX_RATE_BP: &'static str = "tax.rate_bp";

pub const TAX_INCLUSIVE: &'static str = "tax.inclusive";

pub const SERVICE_ENABLED: &'static str = "service_charge.enabled";

pub const SERVICE_RATE_BP: &'static str = "service_charge.rate_bp";

pub const DAY_START: &'static str = "shift.day_start";

pub const DAY_END: &'static str = "shift.day_end";

pub const TABS_REFERENCE_MODE: &'static str = "tabs.reference_mode";

pub const TABS_AGE_WARNING_DAYS: &'static str = "tabs.age_warning_days";

pub const TABS_ASK_CUSTOMER_TIN: &'static str = "tabs.ask_customer_tin";

pub const COMPS_ENABLED: &'static str = "payments.comps_enabled";

pub const PARTIAL_ENABLED: &'static str = "payments.partial_enabled";

pub const BANK_ACCOUNTS: &'static str = "payments.bank_accounts";

pub const QR_ENABLED: &'static str = "payments.qr_enabled";

pub const PRINT_REPORT: &'static str = "printing.report_enabled";

pub const PRINT_CUSTOMER_RECEIPT: &'static str = "printing.customer_receipt_enabled";

pub const SHOW_COST: &'static str = "reporting.show_cost";

pub const BUSINESS_NAME: &'static str = "receipt.business_name";

pub const ADDRESS: &'static str = "receipt.address";

pub const PHONE: &'static str = "receipt.phone";

pub const TIN: &'static str = "receipt.tin";

pub const FOOTER: &'static str = "receipt.footer";

pub const CHARS_PER_LINE: &'static str = "receipt.chars_per_line";

pub const CURRENCY_CODE: &'static str = "locale.currency_code";

pub const ROUNDING: &'static str = "locale.rounding";

pub const SETUP_COMPLETED: &'static str = "setup.completed";

} // verus!

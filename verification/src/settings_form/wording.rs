//! What the Settings screen says, in words that a bar owner can answer.

use vstd::prelude::*;

verus! {

pub const CHARGES_TITLE: &'static str = "VAT and service charge";

pub const CHARGES_BLURB: &'static str = "Both are optional. Turn either off and it disappears from every bill and every receipt — nothing is left showing zero.";

pub const TAX_ENABLED_LABEL: &'static str = "Charge VAT";

pub const TAX_ENABLED_HELP: &'static str = "Off for a venue that is not VAT registered. When it is off, no VAT line is printed at all.";

pub const TAX_RATE_BP_LABEL: &'static str = "VAT rate";

pub const TAX_RATE_BP_HELP: &'static str = "Set this to 0 and the VAT line stops appearing on printouts.";

pub const TAX_INCLUSIVE_LABEL: &'static str = "Menu prices";

pub const TAX_INCLUSIVE_HELP: &'static str = "This is a fact about the venue's price list, not a preference. Get it wrong and every total is out by the VAT rate while looking perfectly normal.";

pub const SERVICE_ENABLED_LABEL: &'static str = "Add a service charge";

pub const SERVICE_ENABLED_HELP: &'static str = "Added to the bill before VAT is worked out, because a service charge is itself taxable.";

pub const SERVICE_RATE_BP_LABEL: &'static str = "Service charge";

pub const SERVICE_RATE_BP_HELP: &'static str = "A percentage of the drinks total.";

pub const TRADING_DAY_TITLE: &'static str = "The trading day";

pub const TRADING_DAY_BLURB: &'static str = "A club sells past midnight, so the calendar day is the wrong unit. Everything sold before the start time below counts towards the night before.";

pub const DAY_START_LABEL: &'static str = "A new trading night starts at";

pub const DAY_START_HELP: &'static str = "A sale at 02:00 belongs to the night that began the previous evening. This single setting decides that for every sale, report and reconciliation.";

pub const DAY_END_LABEL: &'static str = "and should be closed by";

pub const DAY_END_HELP: &'static str = "Only used to warn that a shift was left open. It never changes which night a sale belongs to.";

pub const TABS_TITLE: &'static str = "Tabs";

pub const TABS_BLURB: &'static str = "How drinks are attached to a customer before they pay.";

pub const TABS_REFERENCE_MODE_LABEL: &'static str = "A tab is identified by";

pub const TABS_REFERENCE_MODE_HELP: &'static str = "Changes what staff are asked for when they open a tab.";

pub const TABS_AGE_WARNING_DAYS_LABEL: &'static str = "Warn about tabs older than";

pub const TABS_AGE_WARNING_DAYS_HELP: &'static str = "In days. An old open tab is usually a forgotten one, and forgotten tabs are how money goes missing.";

pub const TABS_ASK_CUSTOMER_TIN_LABEL: &'static str = "Ask for a customer TIN";

pub const TABS_ASK_CUSTOMER_TIN_HELP: &'static str = "For customers who need the receipt for their own books. Always optional at the till, never required to close a tab.";

pub const PAYMENTS_TITLE: &'static str = "Settling up";

pub const PAYMENTS_BLURB: &'static str = "What the till will accept at the end of the night.";

pub const COMPS_ENABLED_LABEL: &'static str = "Allow comped tabs";

pub const COMPS_ENABLED_HELP: &'static str = "A tab written off in full. Always requires a reason, and always shows separately in the shift report.";

pub const PARTIAL_ENABLED_LABEL: &'static str = "Allow part payment";

pub const PARTIAL_ENABLED_HELP: &'static str = "Lets a waiter hand over less than they owe, with the shortfall recorded against them.";

pub const BANK_ACCOUNTS_LABEL: &'static str = "Bank accounts printed on receipts";

pub const BANK_ACCOUNTS_HELP: &'static str = "One per line, exactly as it should appear. Leave blank to print nothing.";

pub const QR_ENABLED_LABEL: &'static str = "Print a payment QR code";

pub const QR_ENABLED_HELP: &'static str = "A static code for transfers. It cannot tell whether a bill has been paid — it only saves the customer typing an account number.";

pub const PRINTING_TITLE: &'static str = "Printing";

pub const PRINTING_BLURB: &'static str = "Reports are read on screen. Paper is opt-in.";

pub const PRINT_CUSTOMER_RECEIPT_LABEL: &'static str = "Print a customer receipt when a tab is closed";

pub const PRINT_CUSTOMER_RECEIPT_HELP: &'static str = "The bar's own issue slip always prints — that one is how drinks leave the bar.";

pub const PRINT_REPORT_LABEL: &'static str = "Also print the shift report on the till printer";

pub const PRINT_REPORT_HELP: &'static str = "Off by default. The full report is on the Reports screen, where it is readable and can be looked at again later.";

pub const CHARS_PER_LINE_LABEL: &'static str = "Receipt width";

pub const CHARS_PER_LINE_HELP: &'static str = "In characters. 32 for a 58mm printer, 48 for an 80mm one.";

pub const RECEIPT_TITLE: &'static str = "What is printed at the top";

pub const RECEIPT_BLURB: &'static str = "Left blank, receipts print without a header. That is deliberate — better an obviously unfinished receipt than somebody else's business details on a tax document.";

pub const BUSINESS_NAME_LABEL: &'static str = "Business name";

pub const BUSINESS_NAME_HELP: &'static str = "Printed first, in bold.";

pub const ADDRESS_LABEL: &'static str = "Address";

pub const ADDRESS_HELP: &'static str = "Printed under the name.";

pub const PHONE_LABEL: &'static str = "Phone";

pub const PHONE_HELP: &'static str = "Printed under the address.";

pub const TIN_LABEL: &'static str = "TIN";

pub const TIN_HELP: &'static str = "The venue's own tax identification number.";

pub const FOOTER_LABEL: &'static str = "Footer";

pub const FOOTER_HELP: &'static str = "Printed at the very bottom, under the bank details.";

pub const LOCALE_TITLE: &'static str = "Money and reporting";

pub const LOCALE_BLURB: &'static str = "";

pub const CURRENCY_CODE_LABEL: &'static str = "Currency code";

pub const CURRENCY_CODE_HELP: &'static str = "Three letters, such as ETB or KES. Printed after every amount.";

pub const SHOW_COST_LABEL: &'static str = "Show cost and margin in reports";

pub const SHOW_COST_HELP: &'static str = "Only the owner ever sees these screens, but a shoulder is a shoulder.";

pub const TAX_ON_TOP: &'static str = "VAT is added on top of menu prices";

pub const TAX_IN_PRICE: &'static str = "Menu prices already include VAT";

pub const BY_TABLE: &'static str = "Table number";

pub const BY_NAME: &'static str = "Customer name";

pub const BY_PHONE: &'static str = "Customer phone";

pub const BY_CUSTOM: &'static str = "Something else";

} // verus!

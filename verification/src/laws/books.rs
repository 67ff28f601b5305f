//! Numbers, the trail, and what stands on paper.

use vstd::prelude::*;

use super::writing::{a_number_is_written_in_digits, is_in_digits, place_value};
use super::{a_row_is_found_where_there_is_one, comes_first, there_is};
use crate::ledger::{appended, AuditEntry, Event};
use crate::money::milli_text;
use crate::printing::{slip_head, slip_text};
use crate::repo::receipts::Destination;
use crate::repo::reports::{final_report, is_final_of, store_refusal, stored_as, NewReport, Stored};
use crate::repo::seq::{number_taken, padded, printed, zeros, Counter, Sequences};
use crate::repo::shifts;
use crate::report::{
    count_text, drawer_text, exceptions_text, head_text, items_text, pair_text, part_text,
    report_text, sales_text, settled_text, sold_text, waiters_text, ItemLine, ShiftReport,
    WaiterLine,
};
use crate::store::Store;
use crate::table::{fresh_id, row, Row};
use crate::text::{is_blank, nat_text, trimmed};

verus! {

// ---------------------------------------------------------------------------
// Numbers
// ---------------------------------------------------------------------------

/// A number is taken off its own counter, which moves on by one; the other
/// counters stay where they are.
pub proof fn a_number_is_taken_off_its_counter(
    before: Store,
    after: Store,
    counter: Counter,
    value: i64,
    text: Seq<char>,
)
    requires
        number_taken(before, after, counter, value, text),
    ensures
        match counter {
            Counter::Tab => value == before.sequences.tab && after.sequences == (Sequences {
                tab: after.sequences.tab,
                ..before.sequences
            }) && after.sequences.tab == value + 1,
            Counter::Shift => value == before.sequences.shift && after.sequences == (Sequences {
                shift: after.sequences.shift,
                ..before.sequences
            }) && after.sequences.shift == value + 1,
            Counter::IssueReceipt => value == before.sequences.issue && after.sequences == (
            Sequences { issue: after.sequences.issue, ..before.sequences })
                && after.sequences.issue == value + 1,
            Counter::CustomerReceipt => value == before.sequences.customer && after.sequences == (
            Sequences { customer: after.sequences.customer, ..before.sequences })
                && after.sequences.customer == value + 1,
        },
        after == (Store { sequences: after.sequences, ..before }),
        text == printed(counter, value),
{
}

/// What the numbers of a counter start with.
pub open spec fn starts_with(counter: Counter) -> Seq<char> {
    match counter {
        Counter::Tab => "TAB-"@,
        Counter::Shift => "SHIFT-"@,
        Counter::IssueReceipt => "BR-"@,
        Counter::CustomerReceipt => "CR-"@,
    }
}

/// A number is printed as the letters of its counter and at least six digits,
/// with zeros in front where it needs them.
pub proof fn a_number_is_printed_in_six_digits(counter: Counter, value: i64)
    requires
        value >= 0,
    ensures
        exists|digits: Seq<char>|
            #![trigger place_value(digits)]
            printed(counter, value) == starts_with(counter) + digits && is_in_digits(digits)
                && place_value(digits) == value && digits.len() >= 6 && (digits.len() > 6
                ==> digits[0] != '0'),
{
    let plain = nat_text(value as nat);
    a_number_is_written_in_digits(value as int);
    let digits = padded(plain, 6);
    if plain.len() < 6 {
        zeros_are_worth_nothing((6 - plain.len()) as nat, plain);
    }
    assert(printed(counter, value) =~= starts_with(counter) + digits);
    assert(place_value(digits) == value);
}

proof fn zeros_are_worth_nothing(count: nat, digits: Seq<char>)
    requires
        is_in_digits(digits) || digits.len() == 0,
    ensures
        place_value(zeros(count) + digits) == place_value(digits),
        forall|i: int|
            0 <= i < (zeros(count) + digits).len() ==> 48 <= (#[trigger] (zeros(count)
                + digits)[i]) as int <= 57,
    decreases count + digits.len(),
{
    let all = zeros(count) + digits;
    assert forall|i: int| 0 <= i < all.len() implies 48 <= (#[trigger] all[i]) as int <= 57 by {
        if i >= count {
            assert(all[i] == digits[i - count]);
            assert(48 <= digits[i - count] as int <= 57);
        }
    }
    if digits.len() > 0 {
        let front = digits.drop_last();
        assert forall|i: int| 0 <= i < front.len() implies 48 <= (#[trigger] front[i]) as int
            <= 57 by {
            assert(48 <= digits[i] as int <= 57);
        }
        zeros_are_worth_nothing(count, front);
        assert(all.drop_last() =~= zeros(count) + front);
    } else if count > 0 {
        zeros_are_worth_nothing((count - 1) as nat, digits);
        assert(all.drop_last() =~= zeros((count - 1) as nat) + digits);
        assert(all.last() == '0');
    }
}

// ---------------------------------------------------------------------------
// The trail
// ---------------------------------------------------------------------------

/// An event is written at the end of the trail as it happened, under a number
/// that no entry had; nothing written before is touched.
pub proof fn an_event_is_written_at_the_end(
    before: Seq<AuditEntry>,
    after: Seq<AuditEntry>,
    event: Event<'_>,
)
    requires
        appended(before, after, event),
    ensures
        after.len() == before.len() + 1,
        forall|i: int| 0 <= i < before.len() ==> #[trigger] after[i] == before[i],
        forall|i: int|
            0 <= i < before.len() ==> (#[trigger] before[i]).sequence_no < after.last().sequence_no,
        after.last().action@ == event.action@,
        after.last().entity_type@ == event.entity_type@,
        after.last().entity_id == event.entity_id,
        after.last().staff_id == event.staff_id,
        after.last().shift_id == event.shift_id,
        after.last().created_at == event.at,
        (after.last().old_value is Some) == (event.old_value is Some),
        event.old_value is Some ==> after.last().old_value->0@ == event.old_value->0@,
        (after.last().new_value is Some) == (event.new_value is Some),
        event.new_value is Some ==> after.last().new_value->0@ == event.new_value->0@,
{
    assert forall|i: int| 0 <= i < before.len() implies #[trigger] after[i] == before[i] by {
        assert(after.drop_last()[i] == after[i]);
    }
    crate::table::largest_bounds(before);
    assert forall|i: int| 0 <= i < before.len() implies (#[trigger] before[i]).sequence_no
        < after.last().sequence_no by {
        assert(before[i].key() == before[i].sequence_no);
    }
}

// ---------------------------------------------------------------------------
// Reports
// ---------------------------------------------------------------------------

/// A night has at most one final report, and only once it is closed; reports
/// before that can be made at any time.
pub proof fn a_night_has_one_final_report(db: Store, new: NewReport<'_>, report: Stored)
    ensures
        store_refusal(db, new) is None <==> {
            &&& fresh_id(db.reports@) is Some
            &&& !new.is_provisional ==> (row(db.shifts@, new.shift_id) matches Some(night)
                && night.status == shifts::Status::Closed)
            &&& !new.is_provisional ==> !there_is(
                db.reports@,
                |s: Stored| s.shift_id == new.shift_id && !s.is_provisional,
            )
        },
        stored_as(report, new) ==> {
            &&& report.shift_id == new.shift_id
            &&& report.is_provisional == new.is_provisional
            &&& report.report_json@ == new.report_json@
            &&& report.rendered_text@ == new.rendered_text@
            &&& report.generated_at == new.generated_at
            &&& report.generated_by == new.generated_by
        },
        final_report(db, new.shift_id) matches Some(found) ==> comes_first(
            found,
            db.reports@,
            |s: Stored| s.shift_id == new.shift_id && !s.is_provisional,
        ),
        final_report(db, new.shift_id) is Some <==> there_is(
            db.reports@,
            |s: Stored| s.shift_id == new.shift_id && !s.is_provisional,
        ),
{
    let wanted = |s: Stored| s.shift_id == new.shift_id && !s.is_provisional;
    a_row_is_found_where_there_is_one(db.reports@, is_final_of(new.shift_id), wanted);
    super::the_first_chosen_comes_first(db.reports@, is_final_of(new.shift_id), wanted);
    crate::table::chosen_meet_the_condition(db.reports@, is_final_of(new.shift_id));
}

// ---------------------------------------------------------------------------
// Slips
// ---------------------------------------------------------------------------

/// A slip starts with its number, where it goes, the tab and the waiter.
pub proof fn a_slip_says_where_it_goes(
    number: Seq<char>,
    destination: Destination,
    tab_code: Seq<char>,
    tab_label: Seq<char>,
    waiter: Seq<char>,
)
    ensures
        slip_text(
            slip_head(number, destination, tab_code, tab_label, waiter),
            Seq::empty(),
        ) == number + "\n"@ + (match destination {
            Destination::Bar => "BAR"@,
            Destination::Kitchen => "KITCHEN"@,
        }) + "\nTab: "@ + tab_code + " — "@ + tab_label + "\nWaiter: "@ + waiter,
{
}

/// Every line of a slip stands under the last, with its quantity.
pub proof fn a_slip_lists_its_lines(
    head: Seq<char>,
    lines: Seq<(Seq<char>, int)>,
    name: Seq<char>,
    thousandths: int,
)
    ensures
        slip_text(head, Seq::empty()) == head,
        slip_text(head, lines.push((name, thousandths))) == slip_text(head, lines) + "\n"@ + name
            + " x"@ + milli_text(thousandths),
{
    assert(lines.push((name, thousandths)).drop_last() =~= lines);
    assert(slip_text(head, lines.push((name, thousandths))) =~= slip_text(head, lines) + "\n"@
        + name + " x"@ + milli_text(thousandths));
}

// ---------------------------------------------------------------------------
// The report on paper
// ---------------------------------------------------------------------------

/// Whether some words stand in a text.
pub open spec fn stands_in(part: Seq<char>, text: Seq<char>) -> bool {
    exists|before: Seq<char>, after: Seq<char>| #[trigger] (before + part + after) == text
}

proof fn a_text_stands_in_itself(part: Seq<char>)
    ensures
        stands_in(part, part),
{
    let none = Seq::<char>::empty();
    assert(none + part + none =~= part);
}

proof fn what_stands_in_a_part_stands_in_the_whole(
    part: Seq<char>,
    text: Seq<char>,
    front: Seq<char>,
    back: Seq<char>,
)
    requires
        stands_in(part, text),
    ensures
        stands_in(part, front + text + back),
{
    let (before, after) = choose|before: Seq<char>, after: Seq<char>|
        #[trigger] (before + part + after) == text;
    assert((front + before) + part + (after + back) =~= front + text + back);
}

proof fn it_stands_in_what_follows(part: Seq<char>, text: Seq<char>, after: Seq<char>)
    requires
        stands_in(part, text),
    ensures
        stands_in(part, text + after),
{
    let none = Seq::<char>::empty();
    what_stands_in_a_part_stands_in_the_whole(part, text, none, after);
    assert(none + text + after =~= text + after);
}

proof fn it_stands_behind_what_was_before(part: Seq<char>, before: Seq<char>, text: Seq<char>)
    requires
        stands_in(part, text),
    ensures
        stands_in(part, before + text),
{
    let none = Seq::<char>::empty();
    what_stands_in_a_part_stands_in_the_whole(part, text, before, none);
    assert(before + text + none =~= before + text);
}

proof fn five_lines_stand_under_a_title(
    title: Seq<char>,
    a: Seq<char>,
    b: Seq<char>,
    c: Seq<char>,
    d: Seq<char>,
    e: Seq<char>,
)
    ensures
        stands_in(a, title + a + b + c + d + e),
        stands_in(b, title + a + b + c + d + e),
        stands_in(c, title + a + b + c + d + e),
        stands_in(d, title + a + b + c + d + e),
        stands_in(e, title + a + b + c + d + e),
{
    a_text_stands_in_itself(a);
    a_text_stands_in_itself(b);
    a_text_stands_in_itself(c);
    a_text_stands_in_itself(d);
    a_text_stands_in_itself(e);
    let one = title + a;
    let two = one + b;
    let three = two + c;
    let four = three + d;
    it_stands_behind_what_was_before(a, title, a);
    it_stands_behind_what_was_before(b, one, b);
    it_stands_behind_what_was_before(c, two, c);
    it_stands_behind_what_was_before(d, three, d);
    it_stands_behind_what_was_before(e, four, e);
    it_stands_in_what_follows(a, one, b);
    it_stands_in_what_follows(a, two, c);
    it_stands_in_what_follows(b, two, c);
    it_stands_in_what_follows(a, three, d);
    it_stands_in_what_follows(b, three, d);
    it_stands_in_what_follows(c, three, d);
    it_stands_in_what_follows(a, four, e);
    it_stands_in_what_follows(b, four, e);
    it_stands_in_what_follows(c, four, e);
    it_stands_in_what_follows(d, four, e);
}

proof fn a_part_of_the_report_stands_on_it(line: Seq<char>, report: ShiftReport)
    requires
        stands_in(line, head_text(report)) || stands_in(line, sales_text(report)) || stands_in(
            line,
            drawer_text(report),
        ) || stands_in(line, settled_text(report)) || stands_in(line, sold_text(report))
            || stands_in(line, exceptions_text(report)),
    ensures
        stands_in(line, report_text(report)),
{
    let one = head_text(report);
    let two = one + sales_text(report);
    let three = two + drawer_text(report);
    let four = three + settled_text(report);
    let five = four + sold_text(report);
    if stands_in(line, one) {
        it_stands_in_what_follows(line, one, sales_text(report));
    } else if stands_in(line, sales_text(report)) {
        it_stands_behind_what_was_before(line, one, sales_text(report));
    }
    if stands_in(line, two) {
        it_stands_in_what_follows(line, two, drawer_text(report));
    } else if stands_in(line, drawer_text(report)) {
        it_stands_behind_what_was_before(line, two, drawer_text(report));
    }
    if stands_in(line, three) {
        it_stands_in_what_follows(line, three, settled_text(report));
    } else if stands_in(line, settled_text(report)) {
        it_stands_behind_what_was_before(line, three, settled_text(report));
    }
    if stands_in(line, four) {
        it_stands_in_what_follows(line, four, sold_text(report));
    } else if stands_in(line, sold_text(report)) {
        it_stands_behind_what_was_before(line, four, sold_text(report));
    }
    if stands_in(line, five) {
        it_stands_in_what_follows(line, five, exceptions_text(report));
    } else {
        it_stands_behind_what_was_before(line, five, exceptions_text(report));
    }
}

/// What was sold stands on the report under its name.
pub proof fn the_report_says_what_was_billed(report: ShiftReport)
    ensures
        stands_in("Tabs settled: "@ + nat_text(report.tabs_settled as nat) + "\n"@, report_text(report)),
        stands_in("Gross sales: "@ + report.gross_sales@ + "\n"@, report_text(report)),
        stands_in("Service: "@ + report.service_charge@ + "\n"@, report_text(report)),
        stands_in("Tax: "@ + report.tax@ + "\n"@, report_text(report)),
        stands_in("Total billed: "@ + report.total_billed@ + "\n"@, report_text(report)),
{
    reveal_strlit(": ");
    reveal_strlit("Tabs settled");
    reveal_strlit("Tabs settled: ");
    assert("Tabs settled"@ + ": "@ =~= "Tabs settled: "@);
    reveal_strlit("Gross sales");
    reveal_strlit("Gross sales: ");
    assert("Gross sales"@ + ": "@ =~= "Gross sales: "@);
    reveal_strlit("Service");
    reveal_strlit("Service: ");
    assert("Service"@ + ": "@ =~= "Service: "@);
    reveal_strlit("Tax");
    reveal_strlit("Tax: ");
    assert("Tax"@ + ": "@ =~= "Tax: "@);
    reveal_strlit("Total billed");
    reveal_strlit("Total billed: ");
    assert("Total billed"@ + ": "@ =~= "Total billed: "@);
    let part = sales_text(report);
    let line_1 = "Tabs settled: "@ + nat_text(report.tabs_settled as nat) + "\n"@;
    let line_2 = "Gross sales: "@ + report.gross_sales@ + "\n"@;
    let line_3 = "Service: "@ + report.service_charge@ + "\n"@;
    let line_4 = "Tax: "@ + report.tax@ + "\n"@;
    let line_5 = "Total billed: "@ + report.total_billed@ + "\n"@;
    let title = part_text("SALES"@);
    assert(pair_text("Tabs settled"@, nat_text(report.tabs_settled as nat)) =~= line_1);
    assert(pair_text("Gross sales"@, report.gross_sales@) =~= line_2);
    assert(pair_text("Service"@, report.service_charge@) =~= line_3);
    assert(pair_text("Tax"@, report.tax@) =~= line_4);
    assert(pair_text("Total billed"@, report.total_billed@) =~= line_5);
    assert(part =~= title + line_1 + line_2 + line_3 + line_4 + line_5);
    five_lines_stand_under_a_title(title, line_1, line_2, line_3, line_4, line_5);
    a_part_of_the_report_stands_on_it(line_1, report);
    a_part_of_the_report_stands_on_it(line_2, report);
    a_part_of_the_report_stands_on_it(line_3, report);
    a_part_of_the_report_stands_on_it(line_4, report);
    a_part_of_the_report_stands_on_it(line_5, report);
}

/// What was in the drawer stands on the report under its name, and whether it was
/// over, short or right.
pub proof fn the_report_says_what_was_in_the_drawer(report: ShiftReport)
    ensures
        stands_in("Opening float: "@ + report.opening_float@ + "\n"@, report_text(report)),
        stands_in("Cash from waiters: "@ + report.cash_from_waiters@ + "\n"@, report_text(report)),
        stands_in("Other movements: "@ + report.other_movements@ + "\n"@, report_text(report)),
        stands_in("Expected: "@ + report.expected_cash@ + "\n"@, report_text(report)),
        stands_in("Counted: "@ + report.counted_cash@ + "\n"@, report_text(report)),
        report.balanced ==> stands_in("Balanced\n"@, report_text(report)),
        !report.balanced && report.over ==> stands_in(
            "OVER: "@ + report.variance@ + "\n"@,
            report_text(report),
        ),
        !report.balanced && !report.over ==> stands_in(
            "SHORT: "@ + report.variance@ + "\n"@,
            report_text(report),
        ),
{
    reveal_strlit(": ");
    reveal_strlit("Opening float");
    reveal_strlit("Opening float: ");
    assert("Opening float"@ + ": "@ =~= "Opening float: "@);
    reveal_strlit("Cash from waiters");
    reveal_strlit("Cash from waiters: ");
    assert("Cash from waiters"@ + ": "@ =~= "Cash from waiters: "@);
    reveal_strlit("Other movements");
    reveal_strlit("Other movements: ");
    assert("Other movements"@ + ": "@ =~= "Other movements: "@);
    reveal_strlit("Expected");
    reveal_strlit("Expected: ");
    assert("Expected"@ + ": "@ =~= "Expected: "@);
    reveal_strlit("Counted");
    reveal_strlit("Counted: ");
    assert("Counted"@ + ": "@ =~= "Counted: "@);
    reveal_strlit("OVER");
    reveal_strlit("OVER: ");
    assert("OVER"@ + ": "@ =~= "OVER: "@);
    reveal_strlit("SHORT");
    reveal_strlit("SHORT: ");
    assert("SHORT"@ + ": "@ =~= "SHORT: "@);
    let part = drawer_text(report);
    let line_1 = "Opening float: "@ + report.opening_float@ + "\n"@;
    let line_2 = "Cash from waiters: "@ + report.cash_from_waiters@ + "\n"@;
    let line_3 = "Other movements: "@ + report.other_movements@ + "\n"@;
    let line_4 = "Expected: "@ + report.expected_cash@ + "\n"@;
    let line_5 = "Counted: "@ + report.counted_cash@ + "\n"@;
    let verdict = count_text(report);
    let title = part_text("DRAWER"@);
    assert(pair_text("Opening float"@, report.opening_float@) =~= line_1);
    assert(pair_text("Cash from waiters"@, report.cash_from_waiters@) =~= line_2);
    assert(pair_text("Other movements"@, report.other_movements@) =~= line_3);
    assert(pair_text("Expected"@, report.expected_cash@) =~= line_4);
    assert(pair_text("Counted"@, report.counted_cash@) =~= line_5);
    assert(part =~= title + line_1 + line_2 + line_3 + line_4 + line_5 + verdict);
    five_lines_stand_under_a_title(title, line_1, line_2, line_3, line_4, line_5);
    let five = title + line_1 + line_2 + line_3 + line_4 + line_5;
    it_stands_in_what_follows(line_1, five, verdict);
    it_stands_in_what_follows(line_2, five, verdict);
    it_stands_in_what_follows(line_3, five, verdict);
    it_stands_in_what_follows(line_4, five, verdict);
    it_stands_in_what_follows(line_5, five, verdict);
    a_text_stands_in_itself(verdict);
    it_stands_behind_what_was_before(verdict, five, verdict);
    a_part_of_the_report_stands_on_it(line_1, report);
    a_part_of_the_report_stands_on_it(line_2, report);
    a_part_of_the_report_stands_on_it(line_3, report);
    a_part_of_the_report_stands_on_it(line_4, report);
    a_part_of_the_report_stands_on_it(line_5, report);
    a_part_of_the_report_stands_on_it(verdict, report);
    if !report.balanced {
        assert(verdict =~= (if report.over {
            "OVER: "@
        } else {
            "SHORT: "@
        }) + report.variance@ + "\n"@);
    }
}

/// What went otherwise stands on the report under its name.
pub proof fn the_report_says_what_went_otherwise(report: ShiftReport)
    ensures
        stands_in("Corrections: "@ + nat_text(report.corrections as nat) + "\n"@, report_text(report)),
        stands_in("Voids: "@ + nat_text(report.voids as nat) + "\n"@, report_text(report)),
        stands_in("Comped tabs: "@ + nat_text(report.comped_tabs as nat) + " ("@ + report.comped_value@ + ")\n"@, report_text(report)),
        stands_in("Written off: "@ + report.written_off@ + "\n"@, report_text(report)),
        stands_in("Non-cash: "@ + report.non_cash@ + "\n"@, report_text(report)),
{
    reveal_strlit(": ");
    reveal_strlit("Corrections");
    reveal_strlit("Corrections: ");
    assert("Corrections"@ + ": "@ =~= "Corrections: "@);
    reveal_strlit("Voids");
    reveal_strlit("Voids: ");
    assert("Voids"@ + ": "@ =~= "Voids: "@);
    reveal_strlit("Written off");
    reveal_strlit("Written off: ");
    assert("Written off"@ + ": "@ =~= "Written off: "@);
    reveal_strlit("Non-cash");
    reveal_strlit("Non-cash: ");
    assert("Non-cash"@ + ": "@ =~= "Non-cash: "@);
    let part = exceptions_text(report);
    let line_1 = "Corrections: "@ + nat_text(report.corrections as nat) + "\n"@;
    let line_2 = "Voids: "@ + nat_text(report.voids as nat) + "\n"@;
    let line_3 = "Comped tabs: "@ + nat_text(report.comped_tabs as nat) + " ("@ + report.comped_value@ + ")\n"@;
    let line_4 = "Written off: "@ + report.written_off@ + "\n"@;
    let line_5 = "Non-cash: "@ + report.non_cash@ + "\n"@;
    let title = part_text("EXCEPTIONS"@);
    assert(pair_text("Corrections"@, nat_text(report.corrections as nat)) =~= line_1);
    assert(pair_text("Voids"@, nat_text(report.voids as nat)) =~= line_2);
    assert(pair_text("Written off"@, report.written_off@) =~= line_4);
    assert(pair_text("Non-cash"@, report.non_cash@) =~= line_5);
    assert(part =~= title + line_1 + line_2 + line_3 + line_4 + line_5);
    five_lines_stand_under_a_title(title, line_1, line_2, line_3, line_4, line_5);
    a_part_of_the_report_stands_on_it(line_1, report);
    a_part_of_the_report_stands_on_it(line_2, report);
    a_part_of_the_report_stands_on_it(line_3, report);
    a_part_of_the_report_stands_on_it(line_4, report);
    a_part_of_the_report_stands_on_it(line_5, report);
}

/// Whether a waiter stands in a text, with what they owed and paid in cash.
pub open spec fn waiter_stands_in(line: WaiterLine, text: Seq<char>) -> bool {
    stands_in(
        line.name@ + ": expected "@ + line.expected@ + ", cash "@ + line.cash@ + "\n"@,
        text,
    )
}

/// Whether an item stands in a text, with its quantity and its value.
pub open spec fn item_stands_in(line: ItemLine, text: Seq<char>) -> bool {
    stands_in(line.name@ + " x"@ + line.quantity@ + "  "@ + line.value@ + "\n"@, text)
}

proof fn every_waiter_is_written(lines: Seq<WaiterLine>, i: int)
    requires
        0 <= i < lines.len(),
    ensures
        waiter_stands_in(lines[i], waiters_text(lines)),
    decreases lines.len(),
{
    let line = lines[i];
    let words = line.name@ + ": expected "@ + line.expected@ + ", cash "@ + line.cash@ + "\n"@;
    let none = Seq::<char>::empty();
    if i < lines.len() - 1 {
        every_waiter_is_written(lines.drop_last(), i);
        let last = lines.last();
        let tail = last.name@ + ": expected "@ + last.expected@ + ", cash "@ + last.cash@ + "\n"@;
        what_stands_in_a_part_stands_in_the_whole(words, waiters_text(lines.drop_last()), none, tail);
        assert(none + waiters_text(lines.drop_last()) + tail =~= waiters_text(lines));
    } else {
        a_text_stands_in_itself(words);
        what_stands_in_a_part_stands_in_the_whole(words, words, waiters_text(lines.drop_last()), none);
        assert(waiters_text(lines.drop_last()) + words + none =~= waiters_text(lines));
    }
}

proof fn every_item_is_written(lines: Seq<ItemLine>, i: int)
    requires
        0 <= i < lines.len(),
    ensures
        item_stands_in(lines[i], items_text(lines)),
    decreases lines.len(),
{
    let line = lines[i];
    let words = line.name@ + " x"@ + line.quantity@ + "  "@ + line.value@ + "\n"@;
    let none = Seq::<char>::empty();
    if i < lines.len() - 1 {
        every_item_is_written(lines.drop_last(), i);
        let last = lines.last();
        let tail = last.name@ + " x"@ + last.quantity@ + "  "@ + last.value@ + "\n"@;
        what_stands_in_a_part_stands_in_the_whole(words, items_text(lines.drop_last()), none, tail);
        assert(none + items_text(lines.drop_last()) + tail =~= items_text(lines));
    } else {
        a_text_stands_in_itself(words);
        what_stands_in_a_part_stands_in_the_whole(words, words, items_text(lines.drop_last()), none);
        assert(items_text(lines.drop_last()) + words + none =~= items_text(lines));
    }
}

/// Every waiter who settled and everything that was sold stands on the report,
/// which names the venue, the night, and who opened and closed it.
pub proof fn the_report_names_everybody_and_everything(report: ShiftReport)
    ensures
        forall|i: int|
            0 <= i < report.waiters@.len() ==> waiter_stands_in(
                #[trigger] report.waiters@[i],
                report_text(report),
            ),
        forall|i: int|
            0 <= i < report.items@.len() ==> item_stands_in(
                #[trigger] report.items@[i],
                report_text(report),
            ),
        !is_blank(report.venue_name@) ==> stands_in(
            trimmed(report.venue_name@) + "\n"@,
            report_text(report),
        ),
        stands_in(
            report.shift_code@ + "  "@ + report.business_date_label@ + "\nOpened "@
                + report.opened_at_label@ + " by "@ + report.opened_by@ + "\nClosed "@
                + report.closed_at_label@ + " by "@ + report.closed_by@ + "\n"@,
            report_text(report),
        ),
{
    let none = Seq::<char>::empty();
    assert forall|i: int| 0 <= i < report.waiters@.len() implies waiter_stands_in(
        #[trigger] report.waiters@[i],
        report_text(report),
    ) by {
        every_waiter_is_written(report.waiters@, i);
        let line = report.waiters@[i];
        let words = line.name@ + ": expected "@ + line.expected@ + ", cash "@ + line.cash@ + "\n"@;
        it_stands_behind_what_was_before(
            words,
            part_text("WAITERS"@),
            waiters_text(report.waiters@),
        );
        a_part_of_the_report_stands_on_it(words, report);
    }
    assert forall|i: int| 0 <= i < report.items@.len() implies item_stands_in(
        #[trigger] report.items@[i],
        report_text(report),
    ) by {
        every_item_is_written(report.items@, i);
        let line = report.items@[i];
        let words = line.name@ + " x"@ + line.quantity@ + "  "@ + line.value@ + "\n"@;
        it_stands_behind_what_was_before(words, part_text("SOLD"@), items_text(report.items@));
        a_part_of_the_report_stands_on_it(words, report);
    }
    let night = report.shift_code@ + "  "@ + report.business_date_label@ + "\nOpened "@
        + report.opened_at_label@ + " by "@ + report.opened_by@ + "\nClosed "@
        + report.closed_at_label@ + " by "@ + report.closed_by@ + "\n"@;
    let venue = if is_blank(report.venue_name@) {
        none
    } else {
        trimmed(report.venue_name@) + "\n"@
    };
    let title = "SHIFT REPORT\n"@;
    assert(head_text(report) =~= venue + title + night);
    a_text_stands_in_itself(venue);
    a_text_stands_in_itself(night);
    it_stands_in_what_follows(venue, venue, title);
    it_stands_in_what_follows(venue, venue + title, night);
    it_stands_behind_what_was_before(night, venue + title, night);
    a_part_of_the_report_stands_on_it(venue, report);
    a_part_of_the_report_stands_on_it(night, report);
}

/// A frozen report is the final one of its night, says who froze it and when, and
/// keeps the words that were printed.
pub proof fn a_frozen_report_keeps_its_words(
    stored: Stored,
    report: ShiftReport,
    shift_id: i64,
    report_json: Seq<char>,
    by: i64,
    at: i64,
)
    requires
        crate::report::frozen_as(stored, report, shift_id, report_json, by, at),
    ensures
        stored.shift_id == shift_id,
        !stored.is_provisional,
        stored.report_json@ == report_json,
        stored.rendered_text@ == report_text(report),
        stored.generated_at == at,
        stored.generated_by == by,
{
}

} // verus!

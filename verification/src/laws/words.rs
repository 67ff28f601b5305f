//! How texts are read: blank space, capitals, and the alphabet.

use vstd::prelude::*;

use super::says;
use crate::repo::tabs::{cleaned, label_of, Reference, ReferenceMode};
use crate::repo::{cash, orders, receipts, shifts, staff, stock, tabs};
use crate::text::{
    holds, holds_at, is_white, lower_char, lowered, skip_white, skip_white_back, text_before,
    trimmed,
};

verus! {

/// Whether two characters are the same letter, capital or small.
pub open spec fn same_letter(a: char, b: char) -> bool {
    ||| a == b
    ||| 'A' <= a <= 'Z' && b as int == a as int + 32
    ||| 'A' <= b <= 'Z' && a as int == b as int + 32
}

/// Whether two texts are the same, capitals aside.
pub open spec fn same_words(a: Seq<char>, b: Seq<char>) -> bool {
    &&& a.len() == b.len()
    &&& forall|i: int| 0 <= i < a.len() ==> same_letter(#[trigger] a[i], b[i])
}

/// Whether a text is written in another from some place on, capitals aside.
pub open spec fn written_at(whole: Seq<char>, part: Seq<char>, at: int) -> bool {
    &&& 0 <= at
    &&& at + part.len() <= whole.len()
    &&& forall|i: int| 0 <= i < part.len() ==> same_letter(#[trigger] whole[at + i], part[i])
}

/// Whether a text is written somewhere in another, capitals aside.
pub open spec fn written_in(whole: Seq<char>, part: Seq<char>) -> bool {
    exists|at: int| #[trigger] written_at(whole, part, at)
}

/// Letters are compared capitals aside, and nothing else is.
pub proof fn only_capitals_are_set_aside(a: char, b: char)
    ensures
        lower_char(a) == lower_char(b) <==> same_letter(a, b),
{
    assert('A' <= a <= 'Z' ==> lower_char(a) as int == a as int + 32);
    assert('A' <= b <= 'Z' ==> lower_char(b) as int == b as int + 32);
}

/// Texts are compared capitals aside.
pub proof fn texts_are_compared_capitals_aside(a: Seq<char>, b: Seq<char>)
    ensures
        lowered(a) == lowered(b) <==> same_words(a, b),
{
    if lowered(a) == lowered(b) {
        assert(lowered(a).len() == lowered(b).len());
        assert forall|i: int| 0 <= i < a.len() implies same_letter(#[trigger] a[i], b[i]) by {
            assert(lowered(a)[i] == lowered(b)[i]);
            only_capitals_are_set_aside(a[i], b[i]);
        }
    }
    if same_words(a, b) {
        assert forall|i: int| 0 <= i < a.len() implies lowered(a)[i] == lowered(b)[i] by {
            only_capitals_are_set_aside(a[i], b[i]);
        }
        assert(lowered(a) =~= lowered(b));
    }
}

/// A text is found in another where it is written there, capitals aside.
pub proof fn a_search_finds_what_is_written(whole: Seq<char>, part: Seq<char>)
    ensures
        holds(whole, part) <==> written_in(whole, part),
{
    assert forall|at: int| #[trigger] holds_at(whole, part, at) == written_at(whole, part, at) by {
        if 0 <= at && at + part.len() <= whole.len() {
            let window = whole.subrange(at, at + part.len());
            texts_are_compared_capitals_aside(window, part);
            if same_words(window, part) {
                assert forall|i: int| 0 <= i < part.len() implies same_letter(
                    #[trigger] whole[at + i],
                    part[i],
                ) by {
                    assert(window[i] == whole[at + i]);
                }
            }
            if written_at(whole, part, at) {
                assert forall|i: int| 0 <= i < window.len() implies same_letter(
                    #[trigger] window[i],
                    part[i],
                ) by {
                    assert(window[i] == whole[at + i]);
                }
            }
        }
    }
    if holds(whole, part) {
        let at = choose|at: int| #[trigger] holds_at(whole, part, at);
        assert(written_at(whole, part, at));
    }
    if written_in(whole, part) {
        let at = choose|at: int| #[trigger] written_at(whole, part, at);
        assert(holds_at(whole, part, at));
    }
}

proof fn front_is_cut(s: Seq<char>) -> (n: int)
    ensures
        0 <= n <= s.len(),
        skip_white(s) == s.skip(n),
        forall|i: int| 0 <= i < n ==> is_white(#[trigger] s[i]),
        n < s.len() ==> !is_white(s[n]),
    decreases s.len(),
{
    if s.len() > 0 && is_white(s[0]) {
        let rest = s.drop_first();
        let m = front_is_cut(rest);
        assert(rest.skip(m) =~= s.skip(m + 1));
        assert forall|i: int| 0 <= i < m + 1 implies is_white(#[trigger] s[i]) by {
            if i > 0 {
                assert(rest[i - 1] == s[i]);
            }
        }
        if m < rest.len() {
            assert(rest[m] == s[m + 1]);
        }
        m + 1
    } else {
        assert(s.skip(0) =~= s);
        0
    }
}

proof fn back_is_cut(s: Seq<char>) -> (n: int)
    ensures
        0 <= n <= s.len(),
        skip_white_back(s) == s.take(n),
        forall|i: int| n <= i < s.len() ==> is_white(#[trigger] s[i]),
        n > 0 ==> !is_white(s[n - 1]),
    decreases s.len(),
{
    if s.len() > 0 && is_white(s.last()) {
        let rest = s.drop_last();
        let m = back_is_cut(rest);
        assert(rest.take(m) =~= s.take(m));
        assert forall|i: int| m <= i < s.len() implies is_white(#[trigger] s[i]) by {
            if i < rest.len() {
                assert(rest[i] == s[i]);
            }
        }
        if m > 0 {
            assert(rest[m - 1] == s[m - 1]);
        }
        m
    } else {
        assert(s.take(s.len() as int) =~= s);
        s.len() as int
    }
}

/// Trimming cuts blank space off both ends and nothing else: what is left is a
/// part of the text that neither starts nor ends blank, and all that was cut
/// was blank.
pub proof fn trimming_cuts_blanks_off_the_ends(s: Seq<char>)
    ensures
        exists|from: int, to: int|
            0 <= from <= to <= s.len() && trimmed(s) == #[trigger] s.subrange(from, to) && (forall|
                i: int,
            |
                0 <= i < from || to <= i < s.len() ==> is_white(#[trigger] s[i])),
        trimmed(s).len() > 0 ==> !is_white(trimmed(s)[0]) && !is_white(trimmed(s).last()),
        trimmed(s).len() > 0 <==> says(s),
{
    let from = front_is_cut(s);
    let front = s.skip(from);
    let n = back_is_cut(front);
    let to = from + n;
    assert(front.take(n) =~= s.subrange(from, to));
    assert forall|i: int| 0 <= i < from || to <= i < s.len() implies is_white(#[trigger] s[i]) by {
        if to <= i {
            assert(front[i - from] == s[i]);
        }
    }
    if n > 0 {
        assert(front[0] == s[from]);
        if is_white(s[from]) {
            assert(from < s.len());
        }
        assert(trimmed(s)[0] == s[from]);
        assert(trimmed(s).last() == front[n - 1]);
        assert(!is_white(s[from]));
    }
    super::a_text_that_is_not_blank_says_something(s);
}

/// The order of texts is that of the dictionary: the first place where two texts
/// differ decides, and a text comes before whatever it is the start of.
pub proof fn texts_are_ordered_like_a_dictionary(a: Seq<char>, b: Seq<char>)
    ensures
        text_before(a, b) <==> exists|n: int|
            0 <= n <= a.len() && n <= b.len() && #[trigger] a.take(n) == b.take(n) && ((n
                == a.len() && n < b.len()) || (n < a.len() && n < b.len() && a[n] < b[n])),
    decreases a.len(),
{
    if a.len() > 0 && b.len() > 0 && a[0] == b[0] {
        let x = a.drop_first();
        let y = b.drop_first();
        texts_are_ordered_like_a_dictionary(x, y);
        if text_before(x, y) {
            let n = choose|n: int|
                0 <= n <= x.len() && n <= y.len() && #[trigger] x.take(n) == y.take(n) && ((n
                    == x.len() && n < y.len()) || (n < x.len() && n < y.len() && x[n] < y[n]));
            let one = a.take(n + 1);
            let other = b.take(n + 1);
            assert forall|i: int| 0 <= i < n + 1 implies one[i] == other[i] by {
                if i > 0 {
                    assert(x.take(n)[i - 1] == y.take(n)[i - 1]);
                }
            }
            assert(one =~= other);
        }
        if exists|n: int|
            0 <= n <= a.len() && n <= b.len() && #[trigger] a.take(n) == b.take(n) && ((n
                == a.len() && n < b.len()) || (n < a.len() && n < b.len() && a[n] < b[n])) {
            let n = choose|n: int|
                0 <= n <= a.len() && n <= b.len() && #[trigger] a.take(n) == b.take(n) && ((n
                    == a.len() && n < b.len()) || (n < a.len() && n < b.len() && a[n] < b[n]));
            assert(n > 0);
            let one = x.take(n - 1);
            let other = y.take(n - 1);
            assert forall|i: int| 0 <= i < n - 1 implies one[i] == other[i] by {
                assert(a.take(n)[i + 1] == b.take(n)[i + 1]);
            }
            assert(one =~= other);
        }
    } else {
        if text_before(a, b) {
            assert(a.take(0) =~= b.take(0));
        }
        if exists|n: int|
            0 <= n <= a.len() && n <= b.len() && #[trigger] a.take(n) == b.take(n) && ((n
                == a.len() && n < b.len()) || (n < a.len() && n < b.len() && a[n] < b[n])) {
            let n = choose|n: int|
                0 <= n <= a.len() && n <= b.len() && #[trigger] a.take(n) == b.take(n) && ((n
                    == a.len() && n < b.len()) || (n < a.len() && n < b.len() && a[n] < b[n]));
            if n > 0 {
                assert(a.take(n)[0] == b.take(n)[0]);
            }
        }
    }
}

/// What is left of an optional text: itself without the blanks around it, or
/// nothing where it says nothing.
pub open spec fn left_of(text: Option<&str>) -> Seq<char> {
    match text {
        Some(text) => trimmed(text@),
        None => Seq::empty(),
    }
}

/// A tab is called after what it is kept under: its table, its customer, the
/// customer and the number to call, or whatever was agreed. It has a name exactly
/// when what it is kept under says something.
pub proof fn a_tab_is_called_after_its_reference(reference: Reference<'_>)
    ensures
        label_of(reference) is Ok <==> left_of(
            match reference.mode {
                ReferenceMode::Table => reference.table_no,
                ReferenceMode::CustomerName => reference.customer_name,
                ReferenceMode::CustomerPhone => reference.customer_name,
                ReferenceMode::Custom => reference.custom_ref,
            },
        ).len() > 0,
        label_of(reference) matches Ok(label) ==> label == (match reference.mode {
            ReferenceMode::Table => "Table "@ + left_of(reference.table_no),
            ReferenceMode::CustomerName => left_of(reference.customer_name),
            ReferenceMode::CustomerPhone => if left_of(reference.customer_phone).len() > 0 {
                left_of(reference.customer_name) + " ("@ + left_of(reference.customer_phone)
                    + ")"@
            } else {
                left_of(reference.customer_name)
            },
            ReferenceMode::Custom => left_of(reference.custom_ref),
        }),
{
}

/// A field of a reference is kept without the blanks around it, and left out
/// where it says nothing.
pub proof fn a_field_is_kept_where_it_says_something(value: Option<&str>)
    ensures
        cleaned(value) matches Some(kept) ==> kept == left_of(value) && kept.len() > 0,
        cleaned(value) is None ==> left_of(value).len() == 0,
{
}

/// The words under which things are kept. What was written once is read for as
/// long as the venue trades, so they never change.
pub proof fn the_words_that_are_kept()
    ensures
        cash::MovementType::OpeningFloat.word() == "OPENING_FLOAT"@,
        cash::MovementType::Reconciliation.word() == "RECONCILIATION"@,
        cash::MovementType::Payout.word() == "PAYOUT"@,
        cash::MovementType::Adjustment.word() == "ADJUSTMENT"@,
        orders::Status::Draft.word() == "DRAFT"@,
        orders::Status::Printing.word() == "PRINTING"@,
        orders::Status::Issued.word() == "ISSUED"@,
        orders::Status::Replaced.word() == "REPLACED"@,
        orders::Status::Voided.word() == "VOIDED"@,
        orders::Status::Abandoned.word() == "ABANDONED"@,
        orders::CorrectionKind::Correction.word() == "CORRECTION"@,
        orders::CorrectionKind::Void.word() == "VOID"@,
        receipts::Kind::Issue.word() == "ISSUE"@,
        receipts::Kind::Customer.word() == "CUSTOMER"@,
        receipts::Destination::Bar.word() == "BAR"@,
        receipts::Destination::Kitchen.word() == "KITCHEN"@,
        receipts::Status::Pending.word() == "PENDING"@,
        receipts::Status::Printed.word() == "PRINTED"@,
        receipts::Status::Failed.word() == "FAILED"@,
        receipts::Status::Void.word() == "VOID"@,
        receipts::Outcome::Unknown.word() == "UNKNOWN"@,
        receipts::Outcome::Success.word() == "SUCCESS"@,
        receipts::Outcome::Failed.word() == "FAILED"@,
        shifts::Status::Open.word() == "OPEN"@,
        shifts::Status::Closing.word() == "CLOSING"@,
        shifts::Status::Closed.word() == "CLOSED"@,
        staff::Role::Owner.word() == "OWNER"@,
        staff::Role::Cashier.word() == "CASHIER"@,
        staff::Role::Waiter.word() == "WAITER"@,
        staff::Role::Bartender.word() == "BARTENDER"@,
        stock::Kind::Sale.word() == "SALE"@,
        stock::Kind::Return.word() == "RETURN"@,
        stock::Kind::Purchase.word() == "PURCHASE"@,
        stock::Kind::Adjustment.word() == "ADJUSTMENT"@,
        stock::Kind::Damage.word() == "DAMAGE"@,
        stock::Kind::Loss.word() == "LOSS"@,
        stock::Kind::StockCorrection.word() == "STOCK_CORRECTION"@,
        tabs::ReferenceMode::Table.word() == "TABLE"@,
        tabs::ReferenceMode::CustomerName.word() == "CUSTOMER_NAME"@,
        tabs::ReferenceMode::CustomerPhone.word() == "CUSTOMER_PHONE"@,
        tabs::ReferenceMode::Custom.word() == "CUSTOM"@,
        tabs::Status::Open.word() == "OPEN"@,
        tabs::Status::Closed.word() == "CLOSED"@,
        tabs::Status::Reconciled.word() == "RECONCILED"@,
{
}

} // verus!

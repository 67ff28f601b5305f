//! How numbers, amounts, times and dates are written, and read back.

use vstd::prelude::*;

use crate::calendar::{date_label, read_time, Date, TimeOfDay};
use crate::money::{milli_text, money_text, size_of_int, typed_amount};
use crate::settings::{grouped, money_label};
use crate::text::{
    all_digits, digits_of_a_number, digits_value, int_text, is_digit, nat_text, parsed_number,
};

verus! {

/// Whether a text is written in digits, at least one.
pub open spec fn is_in_digits(text: Seq<char>) -> bool {
    text.len() > 0 && (forall|i: int|
        0 <= i < text.len() ==> 48 <= (#[trigger] text[i]) as int <= 57)
}

/// What a text in digits is worth, each place ten times the next.
pub open spec fn place_value(text: Seq<char>) -> int
    decreases text.len(),
{
    if text.len() == 0 {
        0
    } else {
        place_value(text.drop_last()) * 10 + (text.last() as int - 48)
    }
}

pub(crate) proof fn digits_are_read_alike(text: Seq<char>)
    ensures
        is_in_digits(text) <==> text.len() > 0 && all_digits(text),
        all_digits(text) ==> digits_value(text) == place_value(text) && place_value(text) >= 0,
    decreases text.len(),
{
    if text.len() > 0 {
        let front = text.drop_last();
        digits_are_read_alike(front);
        if all_digits(text) {
            assert forall|i: int| 0 <= i < front.len() implies is_digit(#[trigger] front[i]) by {
                assert(is_digit(text[i]));
            }
            assert(is_digit(text[text.len() - 1]));
            assert forall|i: int| 0 <= i < text.len() implies 48 <= (#[trigger] text[i]) as int
                <= 57 by {
                assert(is_digit(text[i]));
            }
        }
        if is_in_digits(text) {
            assert forall|i: int| 0 <= i < text.len() implies is_digit(#[trigger] text[i]) by {
                assert(48 <= text[i] as int <= 57);
            }
        }
    }
}

/// A text in digits is read as the number that it is worth, where that fits.
pub proof fn a_number_in_digits_is_read(text: Seq<char>)
    requires
        is_in_digits(text),
    ensures
        place_value(text) <= i64::MAX ==> parsed_number(text) == Some(place_value(text) as i64),
        place_value(text) > i64::MAX ==> parsed_number(text) is None,
{
    digits_are_read_alike(text);
    assert(48 <= text[0] as int <= 57);
}

/// A number is written in digits that are worth it, and never with a zero in
/// front; one below zero has its sign in front.
pub proof fn a_number_is_written_in_digits(n: int)
    ensures
        n >= 0 ==> is_in_digits(int_text(n)) && place_value(int_text(n)) == n && (
        int_text(n).len() > 1 ==> int_text(n)[0] != '0'),
        n < 0 ==> int_text(n)[0] == '-' && is_in_digits(int_text(n).drop_first()) && place_value(
            int_text(n).drop_first(),
        ) == -n && int_text(n)[1] != '0',
{
    let size = size_of_int(n);
    digits_of_a_number(size);
    digits_are_read_alike(nat_text(size));
    no_zero_stands_in_front(size);
    if n < 0 {
        assert(int_text(n).drop_first() =~= nat_text(size));
    }
}

proof fn no_zero_stands_in_front(n: nat)
    ensures
        nat_text(n).len() > 0,
        n > 0 ==> nat_text(n)[0] != '0',
        nat_text(n).len() > 1 ==> n > 0,
    decreases n,
{
    if n >= 10 {
        no_zero_stands_in_front(n / 10);
    }
}

/// The sign in front of an amount.
pub open spec fn sign(n: int) -> Seq<char> {
    if n < 0 {
        seq!['-']
    } else {
        Seq::empty()
    }
}

// ---------------------------------------------------------------------------
// Money
// ---------------------------------------------------------------------------

proof fn two_digits_are_worth(a: char, b: char)
    ensures
        place_value(seq![a, b]) == (a as int - 48) * 10 + (b as int - 48),
        place_value(seq![a]) == a as int - 48,
{
    reveal_with_fuel(place_value, 3);
    assert(seq![a, b].drop_last() =~= seq![a]);
    assert(seq![a].drop_last() =~= Seq::<char>::empty());
}

/// An amount is written as its sign, its whole part in digits, a point and two
/// digits; together the digits are worth the amount in minor units.
pub proof fn an_amount_is_written_with_two_decimals(minor: int)
    ensures
        exists|whole: Seq<char>, cents: Seq<char>|
            #![trigger place_value(whole), place_value(cents)]
            money_text(minor) == sign(minor) + whole + seq!['.'] + cents && is_in_digits(whole)
                && is_in_digits(cents) && cents.len() == 2 && place_value(whole) * 100
                + place_value(cents) == (if minor < 0 {
                -minor
            } else {
                minor
            }) && (whole.len() > 1 ==> whole[0] != '0'),
{
    let size = size_of_int(minor);
    let whole = nat_text(size / 100);
    let a = crate::text::digit((size / 10 % 10) as int);
    let b = crate::text::digit((size % 10) as int);
    let cents = seq![a, b];
    digits_of_a_number(size / 100);
    digits_are_read_alike(whole);
    no_zero_stands_in_front(size / 100);
    two_digits_are_worth(a, b);
    assert(a as int == 48 + (size / 10 % 10));
    assert(b as int == 48 + (size % 10));
    assert(money_text(minor) =~= sign(minor) + whole + seq!['.'] + cents);
    assert(place_value(whole) * 100 + place_value(cents) == size);
}

proof fn the_point_ends_the_whole_part(whole: Seq<char>, rest: Seq<char>)
    requires
        is_in_digits(whole) || whole.len() == 0,
        rest.len() > 0 ==> rest[0] == '.',
    ensures
        crate::money::before_point(whole + rest) == whole,
    decreases whole.len(),
{
    let all = whole + rest;
    if whole.len() > 0 {
        assert(48 <= whole[0] as int <= 57);
        let tail = whole.drop_first();
        assert forall|i: int| 0 <= i < tail.len() implies 48 <= (#[trigger] tail[i]) as int
            <= 57 by {
            assert(48 <= whole[i + 1] as int <= 57);
        }
        the_point_ends_the_whole_part(tail, rest);
        assert(all.drop_first() =~= tail + rest);
        assert(seq![all[0]] + tail =~= whole);
    } else {
        assert(all =~= rest);
        assert(crate::money::before_point(all) =~= whole);
    }
}

/// What is typed is read as an amount: whole units, with one or two decimals
/// where there is a point, and a minus in front where it is owed.
pub proof fn what_is_typed_is_read_as_an_amount(whole: Seq<char>, cents: Seq<char>)
    requires
        is_in_digits(whole),
        cents.len() > 0 ==> is_in_digits(cents),
    ensures
        typed_amount(whole) == Some(place_value(whole) * 100),
        cents.len() == 1 ==> typed_amount(whole + seq!['.'] + cents) == Some(
            place_value(whole) * 100 + place_value(cents) * 10,
        ),
        cents.len() == 2 ==> typed_amount(whole + seq!['.'] + cents) == Some(
            place_value(whole) * 100 + place_value(cents),
        ),
        cents.len() == 0 || cents.len() > 2 ==> typed_amount(whole + seq!['.'] + cents) is None,
        typed_amount(seq!['-'] + whole) == Some(-(place_value(whole) * 100)),
        cents.len() == 2 ==> typed_amount(seq!['-'] + (whole + seq!['.'] + cents)) == Some(
            -(place_value(whole) * 100 + place_value(cents)),
        ),
{
    digits_are_read_alike(whole);
    digits_are_read_alike(cents);
    assert(48 <= whole[0] as int <= 57);
    let rest = seq!['.'] + cents;
    let all = whole + seq!['.'] + cents;
    assert(all =~= whole + rest);
    the_point_ends_the_whole_part(whole, rest);
    the_point_ends_the_whole_part(whole, Seq::empty());
    assert(whole + Seq::<char>::empty() =~= whole);
    assert(all.skip(whole.len() as int) =~= rest);
    assert(rest.drop_first() =~= cents);
    assert(whole.skip(whole.len() as int) =~= Seq::<char>::empty());
    assert((seq!['-'] + whole).drop_first() =~= whole);
    assert((seq!['-'] + all).drop_first() =~= all);
    assert(all[0] == whole[0]);
}

proof fn the_whole_part_is_taken_from_the_text(s: Seq<char>)
    ensures
        crate::money::before_point(s).len() <= s.len(),
        forall|i: int|
            0 <= i < crate::money::before_point(s).len() ==> #[trigger] crate::money::before_point(
                s,
            )[i] == s[i],
        crate::money::before_point(s).len() < s.len() ==> s[crate::money::before_point(s).len() as int]
            == '.',
    decreases s.len(),
{
    if s.len() > 0 && s[0] != '.' {
        the_whole_part_is_taken_from_the_text(s.drop_first());
        let rest = crate::money::before_point(s.drop_first());
        assert forall|i: int| 0 <= i < crate::money::before_point(s).len() implies
            #[trigger] crate::money::before_point(s)[i] == s[i] by {
            if i > 0 {
                assert(rest[i - 1] == s.drop_first()[i - 1]);
            }
        }
    }
}

/// Nothing but digits, a point and a minus in front is read as an amount.
pub proof fn only_digits_are_read_as_an_amount(s: Seq<char>)
    requires
        typed_amount(s) is Some,
    ensures
        s.len() > 0,
        forall|i: int|
            0 <= i < s.len() ==> 48 <= (#[trigger] s[i]) as int <= 57 || s[i] == '.' || (i == 0
                && s[i] == '-'),
{
    let body = if s[0] == '-' {
        s.drop_first()
    } else {
        s
    };
    let whole = crate::money::before_point(body);
    let rest = body.skip(whole.len() as int);
    let cents = rest.drop_first();
    the_whole_part_is_taken_from_the_text(body);
    assert forall|i: int| 0 <= i < body.len() implies is_digit(#[trigger] body[i]) || body[i]
        == '.' by {
        if i < whole.len() {
            assert(is_digit(whole[i]));
        } else if i > whole.len() {
            assert(is_digit(cents[i - whole.len() - 1]));
        }
    }
    assert forall|i: int| 0 <= i < s.len() implies 48 <= (#[trigger] s[i]) as int <= 57 || s[i]
        == '.' || (i == 0 && s[i] == '-') by {
        if s[0] == '-' {
            if i > 0 {
                assert(is_digit(body[i - 1]) || body[i - 1] == '.');
            }
        } else {
            assert(is_digit(body[i]) || body[i] == '.');
        }
    }
}

// ---------------------------------------------------------------------------
// Quantities
// ---------------------------------------------------------------------------

/// A quantity is written as its sign and its whole part, and, where there is a
/// fraction, a point and up to three digits of it without a zero at the end.
pub proof fn a_quantity_is_written_without_needless_zeros(thousandths: int)
    ensures
        ({
            let size = if thousandths < 0 {
                -thousandths
            } else {
                thousandths
            };
            &&& size % 1_000 == 0 ==> milli_text(thousandths) == sign(thousandths) + nat_text(
                (size / 1_000) as nat,
            )
            &&& size % 1_000 != 0 ==> exists|part: Seq<char>|
                #![trigger place_value(part)]
                milli_text(thousandths) == sign(thousandths) + nat_text((size / 1_000) as nat)
                    + seq!['.'] + part && is_in_digits(part) && part.last() != '0' && ((part.len()
                    == 1 && place_value(part) * 100 == size % 1_000) || (part.len() == 2
                    && place_value(part) * 10 == size % 1_000) || (part.len() == 3 && place_value(
                    part,
                ) == size % 1_000))
        }),
{
    let size = size_of_int(thousandths);
    let part = (size % 1_000) as int;
    let a = crate::text::digit(part / 100);
    let b = crate::text::digit(part / 10 % 10);
    let c = crate::text::digit(part % 10);
    assert(a as int == 48 + part / 100);
    assert(b as int == 48 + part / 10 % 10);
    assert(c as int == 48 + part % 10);
    two_digits_are_worth(a, b);
    let head = sign(thousandths) + nat_text((size / 1_000) as nat);
    if part == 0 {
        assert(milli_text(thousandths) =~= head);
    } else if part % 100 == 0 {
        assert(milli_text(thousandths) =~= head + seq!['.'] + seq![a]);
        assert(place_value(seq![a]) * 100 == part);
    } else if part % 10 == 0 {
        assert(milli_text(thousandths) =~= head + seq!['.'] + seq![a, b]);
        assert(place_value(seq![a, b]) * 10 == part);
    } else {
        let all = seq![a, b, c];
        assert(all.drop_last() =~= seq![a, b]);
        assert(milli_text(thousandths) =~= head + seq!['.'] + all);
        assert(place_value(all) == part);
    }
}

// ---------------------------------------------------------------------------
// Amounts on paper
// ---------------------------------------------------------------------------

/// A text without its commas.
pub open spec fn without_commas(text: Seq<char>) -> Seq<char>
    decreases text.len(),
{
    if text.len() == 0 {
        text
    } else if text.last() == ',' {
        without_commas(text.drop_last())
    } else {
        without_commas(text.drop_last()).push(text.last())
    }
}

proof fn commas_go_from_both_parts(a: Seq<char>, b: Seq<char>)
    ensures
        without_commas(a + b) == without_commas(a) + without_commas(b),
    decreases b.len(),
{
    if b.len() == 0 {
        assert(a + b =~= a);
        assert(without_commas(a) + without_commas(b) =~= without_commas(a));
    } else {
        commas_go_from_both_parts(a, b.drop_last());
        assert((a + b).drop_last() =~= a + b.drop_last());
        if b.last() != ',' {
            assert(without_commas(a) + without_commas(b.drop_last()).push(b.last()) =~= (
            without_commas(a) + without_commas(b.drop_last())).push(b.last()));
        }
    }
}

proof fn digits_have_no_commas(text: Seq<char>)
    requires
        is_in_digits(text) || text.len() == 0,
    ensures
        without_commas(text) == text,
    decreases text.len(),
{
    if text.len() > 0 {
        let front = text.drop_last();
        assert forall|i: int| 0 <= i < front.len() implies 48 <= (#[trigger] front[i]) as int
            <= 57 by {
            assert(48 <= text[i] as int <= 57);
        }
        digits_have_no_commas(front);
        assert(48 <= text[text.len() - 1] as int <= 57);
        assert(front.push(text.last()) =~= text);
    }
}

/// Thousands are set apart by commas, and nothing else changes: without them the
/// digits are the same, and a comma stands before every third digit from the
/// right, but never in front.
pub proof fn thousands_are_set_apart(text: Seq<char>)
    requires
        is_in_digits(text),
    ensures
        without_commas(grouped(text)) == text,
        grouped(text).len() == text.len() + (text.len() - 1) / 3,
        grouped(text)[0] != ',',
        forall|i: int|
            0 <= i < grouped(text).len() ==> ((#[trigger] grouped(text)[i] == ',') <==> (
            grouped(text).len() - i) % 4 == 0),
    decreases text.len(),
{
    if text.len() <= 3 {
        digits_have_no_commas(text);
        assert forall|i: int| 0 <= i < text.len() implies #[trigger] text[i] != ',' by {
            assert(48 <= text[i] as int <= 57);
        }
    } else {
        let front = text.take(text.len() - 3);
        let back = text.skip(text.len() - 3);
        assert forall|i: int| 0 <= i < front.len() implies 48 <= (#[trigger] front[i]) as int
            <= 57 by {
            assert(48 <= text[i] as int <= 57);
        }
        assert forall|i: int| 0 <= i < back.len() implies 48 <= (#[trigger] back[i]) as int
            <= 57 by {
            assert(48 <= text[text.len() - 3 + i] as int <= 57);
        }
        thousands_are_set_apart(front);
        let head = grouped(front);
        let all = head + seq![','] + back;
        assert(grouped(text) == all);
        digits_have_no_commas(back);
        commas_go_from_both_parts(head + seq![','], back);
        commas_go_from_both_parts(head, seq![',']);
        assert(without_commas(seq![',']) =~= Seq::<char>::empty()) by {
            reveal_with_fuel(without_commas, 2);
            assert(seq![','].drop_last() =~= Seq::<char>::empty());
        }
        assert(front + Seq::<char>::empty() + back =~= text);
        assert forall|i: int| 0 <= i < all.len() implies ((#[trigger] all[i] == ',') <==> (
        all.len() - i) % 4 == 0) by {
            if i < head.len() {
                assert(all[i] == head[i]);
                assert((head[i] == ',') <==> (head.len() - i) % 4 == 0);
            } else if i > head.len() {
                assert(all[i] == back[i - head.len() - 1]);
            }
        }
    }
}

/// An amount on paper is the amount as it is written, with its thousands set
/// apart, and the currency after it where the venue has one.
pub proof fn an_amount_on_paper_is_the_amount(minor: int, code: Seq<char>)
    ensures
        without_commas(money_label(minor, Seq::empty())) == money_text(minor),
        code.len() > 0 ==> money_label(minor, code) == money_label(minor, Seq::empty()) + seq![' ']
            + code,
{
    let size = size_of_int(minor);
    let whole = nat_text(size / 100);
    let a = crate::text::digit((size / 10 % 10) as int);
    let b = crate::text::digit((size % 10) as int);
    let tail = seq!['.', a, b];
    assert(a as int == 48 + (size / 10 % 10));
    assert(b as int == 48 + (size % 10));
    digits_of_a_number(size / 100);
    digits_are_read_alike(whole);
    thousands_are_set_apart(whole);
    commas_go_from_both_parts(sign(minor) + grouped(whole), tail);
    commas_go_from_both_parts(sign(minor), grouped(whole));
    assert(without_commas(sign(minor)) =~= sign(minor)) by {
        reveal_with_fuel(without_commas, 2);
        if minor < 0 {
            assert(seq!['-'].drop_last() =~= Seq::<char>::empty());
        }
    }
    assert(without_commas(tail) =~= tail) by {
        reveal_with_fuel(without_commas, 4);
        assert(tail.drop_last() =~= seq!['.', a]);
        assert(seq!['.', a].drop_last() =~= seq!['.']);
        assert(seq!['.'].drop_last() =~= Seq::<char>::empty());
    }
    assert(money_label(minor, Seq::empty()) =~= sign(minor) + grouped(whole) + tail);
    assert(money_text(minor) =~= sign(minor) + whole + tail);
    reveal_strlit(" ");
    assert(" "@ =~= seq![' ']);
}

// ---------------------------------------------------------------------------
// Times and dates
// ---------------------------------------------------------------------------

/// A time is read from two digits of the hour, a colon and two digits of the
/// minute, and from nothing else.
pub proof fn a_time_is_read_from_hours_and_minutes(s: Seq<char>, hour: u8, minute: u8)
    ensures
        read_time(s) == Some(TimeOfDay { hour, minute }) <==> {
            &&& s.len() == 5
            &&& is_in_digits(s.take(2))
            &&& s[2] == ':'
            &&& is_in_digits(s.skip(3))
            &&& place_value(s.take(2)) == hour
            &&& place_value(s.skip(3)) == minute
            &&& hour < 24
            &&& minute < 60
        },
{
    if s.len() == 5 {
        assert(s.take(2) =~= seq![s[0], s[1]]);
        assert(s.skip(3) =~= seq![s[3], s[4]]);
        two_digits_are_worth(s[0], s[1]);
        two_digits_are_worth(s[3], s[4]);
        let h = s.take(2);
        let m = s.skip(3);
        if is_in_digits(h) && is_in_digits(m) {
            assert(48 <= h[0] as int <= 57 && 48 <= h[1] as int <= 57);
            assert(48 <= m[0] as int <= 57 && 48 <= m[1] as int <= 57);
        }
    }
}

/// A date is written as its day, the name of its month and its year.
pub proof fn a_date_is_written_in_words(date: Date)
    requires
        1 <= date.month <= 12,
    ensures
        date_label(date) == int_text(date.day as int) + (if date.month == 1 {
            " January "@
        } else if date.month == 2 {
            " February "@
        } else if date.month == 3 {
            " March "@
        } else if date.month == 4 {
            " April "@
        } else if date.month == 5 {
            " May "@
        } else if date.month == 6 {
            " June "@
        } else if date.month == 7 {
            " July "@
        } else if date.month == 8 {
            " August "@
        } else if date.month == 9 {
            " September "@
        } else if date.month == 10 {
            " October "@
        } else if date.month == 11 {
            " November "@
        } else {
            " December "@
        }) + int_text(date.year as int),
{
    reveal_strlit(" ");
    reveal_strlit("January");
    reveal_strlit(" January ");
    assert(" "@ + "January"@ + " "@ =~= " January "@);
    reveal_strlit("February");
    reveal_strlit(" February ");
    assert(" "@ + "February"@ + " "@ =~= " February "@);
    reveal_strlit("March");
    reveal_strlit(" March ");
    assert(" "@ + "March"@ + " "@ =~= " March "@);
    reveal_strlit("April");
    reveal_strlit(" April ");
    assert(" "@ + "April"@ + " "@ =~= " April "@);
    reveal_strlit("May");
    reveal_strlit(" May ");
    assert(" "@ + "May"@ + " "@ =~= " May "@);
    reveal_strlit("June");
    reveal_strlit(" June ");
    assert(" "@ + "June"@ + " "@ =~= " June "@);
    reveal_strlit("July");
    reveal_strlit(" July ");
    assert(" "@ + "July"@ + " "@ =~= " July "@);
    reveal_strlit("August");
    reveal_strlit(" August ");
    assert(" "@ + "August"@ + " "@ =~= " August "@);
    reveal_strlit("September");
    reveal_strlit(" September ");
    assert(" "@ + "September"@ + " "@ =~= " September "@);
    reveal_strlit("October");
    reveal_strlit(" October ");
    assert(" "@ + "October"@ + " "@ =~= " October "@);
    reveal_strlit("November");
    reveal_strlit(" November ");
    assert(" "@ + "November"@ + " "@ =~= " November "@);
    reveal_strlit("December");
    reveal_strlit(" December ");
    assert(" "@ + "December"@ + " "@ =~= " December "@);
    let day = int_text(date.day as int);
    let month = crate::calendar::spec_month_name(date.month);
    assert(day + " "@ + month + " "@ =~= day + (" "@ + month + " "@));
}

} // verus!

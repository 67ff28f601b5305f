//! Human-facing numbers.
//!
//! Four counters, four prefixes: `SHIFT-000001`, `TAB-000421`, `BR-000123`,
//! `CR-000045`. A number is taken and used up in one step, so that no two
//! customers walk out holding paper with the same number on it.

use vstd::prelude::*;

use super::{RepoError, SqlError, SqlWhy, Why};
use crate::store::{ledgers_kept, Store};
use crate::text::{
    all_digits, digits_of_a_number, digits_value, is_digit, magnitude, nat_text, push_nat,
};

verus! {

/// The number that each counter hands out next.
#[derive(Clone, Copy, Debug, PartialEq, Eq, Structural)]
pub struct Sequences {
    pub tab: i64,
    pub shift: i64,
    pub issue: i64,
    pub customer: i64,
}

#[derive(Clone, Copy, Debug, PartialEq, Eq, Structural)]
pub enum Counter {
    Tab,
    Shift,
    IssueReceipt,
    CustomerReceipt,
}

/// Zero-padding width. A number that outgrows it simply gets wider: padding is
/// for reading, not for identity.
pub const WIDTH: usize = 6;

impl Counter {
    /// The name that this counter is stored under.
    pub open spec fn word(self) -> Seq<char> {
        match self {
            Counter::Tab => "TAB"@,
            Counter::Shift => "SHIFT"@,
            Counter::IssueReceipt => "ISSUE_RECEIPT"@,
            Counter::CustomerReceipt => "CUSTOMER_RECEIPT"@,
        }
    }

    /// The name that this counter is stored under.
    pub fn row(self) -> (result: &'static str)
        ensures
            result@ == self.word(),
    {
        match self {
            Counter::Tab => "TAB",
            Counter::Shift => "SHIFT",
            Counter::IssueReceipt => "ISSUE_RECEIPT",
            Counter::CustomerReceipt => "CUSTOMER_RECEIPT",
        }
    }

    /// What its numbers start with.
    pub open spec fn start(self) -> Seq<char> {
        match self {
            Counter::Tab => "TAB-"@,
            Counter::Shift => "SHIFT-"@,
            Counter::IssueReceipt => "BR-"@,
            Counter::CustomerReceipt => "CR-"@,
        }
    }

    /// What its numbers start with.
    pub fn prefix(self) -> (result: &'static str)
        ensures
            result@ == self.start(),
    {
        match self {
            Counter::Tab => "TAB-",
            Counter::Shift => "SHIFT-",
            Counter::IssueReceipt => "BR-",
            Counter::CustomerReceipt => "CR-",
        }
    }
}

impl Sequences {
    /// The number that a counter hands out next.
    pub open spec fn upcoming(self, counter: Counter) -> i64 {
        match counter {
            Counter::Tab => self.tab,
            Counter::Shift => self.shift,
            Counter::IssueReceipt => self.issue,
            Counter::CustomerReceipt => self.customer,
        }
    }

    /// The counters after one of them handed out a number.
    pub open spec fn after(self, counter: Counter) -> Sequences {
        match counter {
            Counter::Tab => Sequences { tab: (self.tab + 1) as i64, ..self },
            Counter::Shift => Sequences { shift: (self.shift + 1) as i64, ..self },
            Counter::IssueReceipt => Sequences { issue: (self.issue + 1) as i64, ..self },
            Counter::CustomerReceipt => Sequences { customer: (self.customer + 1) as i64, ..self },
        }
    }

    /// Whether a counter has a number left to hand out.
    pub open spec fn has_next(self, counter: Counter) -> bool {
        self.upcoming(counter) < i64::MAX
    }

    /// Looks at the number that a counter hands out next.
    pub fn peek(&self, counter: Counter) -> (result: i64)
        ensures
            result == self.upcoming(counter),
    {
        match counter {
            Counter::Tab => self.tab,
            Counter::Shift => self.shift,
            Counter::IssueReceipt => self.issue,
            Counter::CustomerReceipt => self.customer,
        }
    }
}

/// `count` zeros.
pub open spec fn zeros(count: nat) -> Seq<char> {
    Seq::new(count, |i: int| '0')
}

/// Digits with zeros before them up to a width.
pub open spec fn padded(digits: Seq<char>, width: int) -> Seq<char> {
    if digits.len() < width {
        zeros((width - digits.len()) as nat) + digits
    } else {
        digits
    }
}

/// A number as it is printed. A minus sign takes one place of the width.
pub open spec fn printed(counter: Counter, value: i64) -> Seq<char> {
    if value < 0 {
        counter.start() + seq!['-'] + padded(nat_text((-value) as nat), WIDTH - 1)
    } else {
        counter.start() + padded(nat_text(value as nat), WIDTH as int)
    }
}

fn digit_count(n: u64) -> (result: usize)
    ensures
        result == nat_text(n as nat).len(),
        1 <= result <= 20,
{
    let mut rest: u64 = n;
    let mut count: usize = 1;
    while rest >= 10
        invariant
            nat_text(n as nat).len() == nat_text(rest as nat).len() + count - 1,
            rest * scale(count as int - 1) <= n,
            1 <= count <= 20,
        decreases rest,
    {
        proof {
            let before = rest as int;
            let s = scale(count as int - 1);
            assert(s >= 1) by {
                scale_positive(count as int - 1);
            }
            assert((before / 10) * (10 * s) <= before * s) by (nonlinear_arith)
                requires
                    s >= 1,
                    before >= 10,
            ;
            assert((before / 10) * scale(count as int) <= n) by {
                assert(scale(count as int) == 10 * s);
            }
            if count == 20 {
                assert(scale(19) == 10_000_000_000_000_000_000) by {
                    reveal_with_fuel(scale, 20);
                }
                assert(before * 10_000_000_000_000_000_000 <= n);
            }
        }
        rest = rest / 10;
        count = count + 1;
    }
    count
}

spec fn scale(places: int) -> int
    decreases places,
{
    if places <= 0 {
        1
    } else {
        10 * scale(places - 1)
    }
}

proof fn scale_positive(places: int)
    ensures
        scale(places) >= 1,
    decreases places,
{
    if places > 0 {
        scale_positive(places - 1);
    }
}

fn push_padded(out: &mut String, n: u64, width: usize)
    requires
        width <= 6,
    ensures
        final(out)@ == old(out)@ + padded(nat_text(n as nat), width as int),
{
    let ghost before = out@;
    let digits: usize = digit_count(n);
    let missing: usize = if digits < width {
        width - digits
    } else {
        0
    };
    let mut i: usize = 0;
    assert(before + zeros(0) =~= before);
    while i < missing
        invariant
            i <= missing,
            out@ == before + zeros(i as nat),
        decreases missing - i,
    {
        out.push('0');
        i = i + 1;
        assert(out@ =~= before + zeros(i as nat));
    }
    push_nat(out, n);
    assert(out@ =~= before + padded(nat_text(n as nat), width as int));
}

/// A number as it is printed.
pub fn format(counter: Counter, value: i64) -> (result: String)
    ensures
        result@ == printed(counter, value),
{
    let mut out: String = counter.prefix().to_owned();
    if value < 0 {
        out.push('-');
        push_padded(&mut out, magnitude(value), WIDTH - 1);
        assert(out@ =~= printed(counter, value));
    } else {
        push_padded(&mut out, magnitude(value), WIDTH);
        assert(out@ =~= printed(counter, value));
    }
    out
}

/// Whether a store is another after one number was handed out.
pub open spec fn number_taken(
    before: Store,
    after: Store,
    counter: Counter,
    value: i64,
    text: Seq<char>,
) -> bool {
    &&& before.sequences.has_next(counter)
    &&& value == before.sequences.upcoming(counter)
    &&& text == printed(counter, value)
    &&& after == (Store {
        sequences: before.sequences.after(counter),
        ..before
    })
}

/// Take the next number, returning both the raw sequence value and the printed
/// form. Both are stored: reports order by the integer, humans read the text.
pub fn next(db: &mut Store, counter: Counter) -> (result: Result<(i64, String), RepoError>)
    ensures
        ledgers_kept(*old(db), *final(db)),
        match result {
            Ok((value, text)) => {
                &&& number_taken(*old(db), *final(db), counter, value, text@)
            },
            Err(error) => {
                &&& *final(db) == *old(db)
                &&& !old(db).sequences.has_next(counter)
                &&& error@ == Why::Sqlite(SqlWhy::Overflow)
            },
        },
{
    let value: i64 = db.sequences.peek(counter);
    if value == i64::MAX {
        return Err(RepoError::Sqlite(SqlError::Overflow));
    }
    match counter {
        Counter::Tab => {
            db.sequences.tab = value + 1;
        },
        Counter::Shift => {
            db.sequences.shift = value + 1;
        },
        Counter::IssueReceipt => {
            db.sequences.issue = value + 1;
        },
        Counter::CustomerReceipt => {
            db.sequences.customer = value + 1;
        },
    }
    Ok((value, format(counter, value)))
}

/// A counter that handed out a number hands out a larger one next, and no
/// other counter moves.
pub proof fn a_number_is_never_handed_out_twice(
    sequences: Sequences,
    taken: Counter,
    other: Counter,
)
    requires
        sequences.has_next(taken),
    ensures
        sequences.after(taken).upcoming(taken) > sequences.upcoming(taken),
        other != taken ==> sequences.after(taken).upcoming(other) == sequences.upcoming(other),
{
}

proof fn digits_after_zeros(count: nat, digits: Seq<char>)
    requires
        all_digits(digits),
    ensures
        all_digits(zeros(count) + digits),
        digits_value(zeros(count) + digits) == digits_value(digits),
    decreases count + digits.len(),
{
    let whole = zeros(count) + digits;
    assert forall|i: int| 0 <= i < whole.len() implies is_digit(#[trigger] whole[i]) by {
        if i >= count {
            assert(whole[i] == digits[i - count]);
        }
    }
    if digits.len() > 0 {
        assert(whole.drop_last() =~= zeros(count) + digits.drop_last());
        assert(forall|i: int|
            0 <= i < digits.drop_last().len() ==> #[trigger] digits.drop_last()[i] == digits[i]);
        digits_after_zeros(count, digits.drop_last());
    } else if count > 0 {
        assert(whole.drop_last() =~= zeros((count - 1) as nat) + digits);
        assert(whole.last() == '0');
        digits_after_zeros((count - 1) as nat, digits);
    } else {
        assert(whole =~= digits);
    }
}

proof fn padded_value(n: nat, width: int)
    ensures
        padded(nat_text(n), width).len() > 0,
        all_digits(padded(nat_text(n), width)),
        digits_value(padded(nat_text(n), width)) == n,
{
    digits_of_a_number(n);
    if nat_text(n).len() < width {
        digits_after_zeros((width - nat_text(n).len()) as nat, nat_text(n));
    }
}

/// Two numbers of one counter that print alike are the same number: padding
/// never makes two documents share a name.
pub proof fn a_printed_number_names_one_document(counter: Counter, a: i64, b: i64)
    requires
        printed(counter, a) == printed(counter, b),
    ensures
        a == b,
{
    let start = counter.start();
    let n = start.len() as int;
    let rest_a = printed(counter, a).skip(n);
    let rest_b = printed(counter, b).skip(n);
    padded_value(if a < 0 { (-a) as nat } else { a as nat }, if a < 0 { WIDTH - 1 } else { WIDTH as int });
    padded_value(if b < 0 { (-b) as nat } else { b as nat }, if b < 0 { WIDTH - 1 } else { WIDTH as int });
    if a < 0 {
        assert(rest_a =~= seq!['-'] + padded(nat_text((-a) as nat), WIDTH - 1));
        assert(rest_a.skip(1) =~= padded(nat_text((-a) as nat), WIDTH - 1));
    } else {
        assert(rest_a =~= padded(nat_text(a as nat), WIDTH as int));
        assert(is_digit(rest_a[0]));
    }
    if b < 0 {
        assert(rest_b =~= seq!['-'] + padded(nat_text((-b) as nat), WIDTH - 1));
        assert(rest_b.skip(1) =~= padded(nat_text((-b) as nat), WIDTH - 1));
    } else {
        assert(rest_b =~= padded(nat_text(b as nat), WIDTH as int));
        assert(is_digit(rest_b[0]));
    }
    assert(rest_a == rest_b);
    assert(rest_a[0] == rest_b[0]);
}

} // verus!

//! Amounts of money and quantities of stock.
//!
//! Both are whole numbers of their smallest part: cents for money, thousandths
//! of a counted unit for stock. Nothing here rounds, and nothing wraps: an
//! amount that 64 bits cannot hold is an error.

use vstd::prelude::*;

use crate::text::{
    all_digits, chars_of, digit, digits_of_a_number, digits_value, is_digit, nat_text, push_nat,
};

verus! {

/// Why an amount of money could not be worked out or read.
#[derive(Clone, Copy, Debug, PartialEq, Eq, Structural)]
pub enum MoneyError {
    /// The amount does not fit in 64 bits.
    Overflow,
    /// The text is not an amount.
    Unreadable,
}

impl MoneyError {
    /// The error in words.
    pub fn message(self) -> (result: &'static str)
        ensures
            result@ == self.spec_message(),
    {
        match self {
            MoneyError::Overflow => "that amount is too large",
            MoneyError::Unreadable => "that is not an amount of money",
        }
    }

    pub open spec fn spec_message(self) -> Seq<char> {
        match self {
            MoneyError::Overflow => "that amount is too large"@,
            MoneyError::Unreadable => "that is not an amount of money"@,
        }
    }
}

/// Whether a number fits in 64 bits.
pub open spec fn fits(n: int) -> bool {
    i64::MIN <= n <= i64::MAX
}

/// The distance from zero.
pub open spec fn size_of_int(n: int) -> nat {
    if n < 0 {
        (-n) as nat
    } else {
        n as nat
    }
}

/// `n / d` to the nearest whole number, halves away from zero.
pub open spec fn nearest(n: int, d: int) -> int {
    if n < 0 {
        -((-n + d / 2) / d)
    } else {
        (n + d / 2) / d
    }
}

/// `n / d` to the nearest whole number, halves away from zero.
pub fn divide_nearest(n: i128, d: i128) -> (result: i128)
    requires
        0 < d <= 0x1_0000_0000_0000_0000,
        -0x4000_0000_0000_0000_0000_0000_0000_0000 <= n,
        n <= 0x4000_0000_0000_0000_0000_0000_0000_0000,
    ensures
        result == nearest(n as int, d as int),
{
    if n < 0 {
        let up: i128 = -n + d / 2;
        -(up / d)
    } else {
        (n + d / 2) / d
    }
}

/// `n / d` without what comes after the point.
pub open spec fn cut(n: int, d: int) -> int {
    if n < 0 {
        -((-n) / d)
    } else {
        n / d
    }
}

/// `n / d` without what comes after the point.
pub fn divide_cut(n: i128, d: i128) -> (result: i128)
    requires
        0 < d,
        i128::MIN < n,
    ensures
        result == cut(n as int, d as int),
{
    if n < 0 {
        -((-n) / d)
    } else {
        n / d
    }
}

/// A number that fits in 64 bits, or nothing.
pub fn narrow(n: i128) -> (result: Option<i64>)
    ensures
        match result {
            Some(small) => small == n && fits(n as int),
            None => !fits(n as int),
        },
{
    if -9_223_372_036_854_775_808i128 <= n && n <= 9_223_372_036_854_775_807i128 {
        Some(n as i64)
    } else {
        None
    }
}

// ---------------------------------------------------------------------------
// Money
// ---------------------------------------------------------------------------

/// An amount of money, in its smallest part.
#[derive(Clone, Copy, Debug, PartialEq, Eq, Structural, PartialOrd, Ord, Hash)]
pub struct Money {
    pub minor: i64,
}

/// An amount as it is typed and read back: `1200.00`, `0.05`, `-250.00`.
pub open spec fn money_text(minor: int) -> Seq<char> {
    let size = size_of_int(minor);
    (if minor < 0 {
        seq!['-']
    } else {
        Seq::empty()
    }) + nat_text(size / 100) + seq![
        '.',
        digit((size / 10 % 10) as int),
        digit((size % 10) as int),
    ]
}

/// The digits before the point.
pub open spec fn before_point(s: Seq<char>) -> Seq<char>
    decreases s.len(),
{
    if s.len() == 0 || s[0] == '.' {
        Seq::empty()
    } else {
        seq![s[0]] + before_point(s.drop_first())
    }
}

/// What an unsigned amount comes to, if it is one: digits, and perhaps a point
/// with one or two digits after it.
pub open spec fn unsigned_amount(s: Seq<char>) -> Option<nat> {
    let whole = before_point(s);
    let rest = s.skip(whole.len() as int);
    let cents = rest.drop_first();
    if whole.len() == 0 || !all_digits(whole) {
        None
    } else if rest.len() == 0 {
        Some(digits_value(whole) * 100)
    } else if cents.len() == 1 && all_digits(cents) {
        Some(digits_value(whole) * 100 + digits_value(cents) * 10)
    } else if cents.len() == 2 && all_digits(cents) {
        Some(digits_value(whole) * 100 + digits_value(cents))
    } else {
        None
    }
}

/// What a typed amount comes to, if it is one.
pub open spec fn typed_amount(s: Seq<char>) -> Option<int> {
    if s.len() > 0 && s[0] == '-' {
        match unsigned_amount(s.drop_first()) {
            Some(size) => Some(-(size as int)),
            None => None,
        }
    } else {
        match unsigned_amount(s) {
            Some(size) => Some(size as int),
            None => None,
        }
    }
}

impl Money {
    /// No money at all.
    pub fn zero() -> (result: Money)
        ensures
            result.minor == 0,
    {
        Money { minor: 0 }
    }

    pub fn from_minor(minor: i64) -> (result: Money)
        ensures
            result.minor == minor,
    {
        Money { minor }
    }

    pub fn minor(self) -> (result: i64)
        ensures
            result == self.minor,
    {
        self.minor
    }

    pub fn is_zero(self) -> (result: bool)
        ensures
            result == (self.minor == 0),
    {
        self.minor == 0
    }

    pub fn is_negative(self) -> (result: bool)
        ensures
            result == (self.minor < 0),
    {
        self.minor < 0
    }

    pub fn checked_add(self, other: Money) -> (result: Result<Money, MoneyError>)
        ensures
            match result {
                Ok(sum) => sum.minor == self.minor + other.minor,
                Err(error) => !fits(self.minor + other.minor) && error == MoneyError::Overflow,
            },
    {
        match self.minor.checked_add(other.minor) {
            Some(minor) => Ok(Money { minor }),
            None => Err(MoneyError::Overflow),
        }
    }

    pub fn checked_sub(self, other: Money) -> (result: Result<Money, MoneyError>)
        ensures
            match result {
                Ok(rest) => rest.minor == self.minor - other.minor,
                Err(error) => !fits(self.minor - other.minor) && error == MoneyError::Overflow,
            },
    {
        match self.minor.checked_sub(other.minor) {
            Some(minor) => Ok(Money { minor }),
            None => Err(MoneyError::Overflow),
        }
    }

    /// The amount in the form that [`Money::parse`] reads back.
    pub fn to_display(self) -> (result: String)
        ensures
            result@ == money_text(self.minor as int),
    {
        let size: u64 = crate::text::magnitude(self.minor);
        let mut out: String = String::new();
        if self.minor < 0 {
            out.push('-');
        }
        push_nat(&mut out, size / 100);
        out.push('.');
        out.push((48 + (size / 10 % 10) as u8) as char);
        out.push((48 + (size % 10) as u8) as char);
        assert(out@ =~= money_text(self.minor as int));
        out
    }

    /// Reads an amount that somebody typed.
    #[verifier::spinoff_prover]
    #[verifier::rlimit(60)]
    pub fn parse(text: &str) -> (result: Result<Money, MoneyError>)
        ensures
            match typed_amount(text@) {
                None => result == Err::<Money, MoneyError>(MoneyError::Unreadable),
                Some(value) => if fits(value) {
                    result == Ok::<Money, MoneyError>(Money { minor: value as i64 })
                } else {
                    result == Err::<Money, MoneyError>(MoneyError::Overflow)
                },
            },
    {
        let chars: Vec<char> = chars_of(text);
        let negative: bool = chars.len() > 0 && chars[0] == '-';
        let start: usize = if negative {
            1
        } else {
            0
        };
        let ghost body = text@.skip(start as int);
        assert(body =~= if negative {
            text@.drop_first()
        } else {
            text@
        });
        let mut point: usize = start;
        let mut whole: Option<i128> = Some(0);
        assert(body.skip(0) =~= body);
        assert(body.take(0) =~= Seq::<char>::empty());
        while point < chars.len() && chars[point] != '.'
            invariant
                start <= point <= chars.len(),
                chars@ == text@,
                body == text@.skip(start as int),
                before_point(body) == body.take(point - start) + before_point(
                    body.skip(point - start),
                ),
                whole is Some ==> all_digits(body.take(point - start)),
                whole is Some ==> whole->0 == capped(digits_value(body.take(point - start))),
                whole is None ==> !all_digits(body.take(point - start)),
            decreases chars.len() - point,
        {
            let c: char = chars[point];
            let ghost seen = body.take(point - start);
            let ghost more = body.take(point + 1 - start);
            proof {
                assert(c == body[point - start]);
                assert(more.drop_last() =~= seen);
                assert(body.skip(point - start).drop_first() =~= body.skip(point + 1 - start));
                assert(body.take(point - start) + before_point(body.skip(point - start))
                    =~= more + before_point(body.skip(point + 1 - start)));
                assert(forall|i: int| 0 <= i < seen.len() ==> more[i] == seen[i]);
                assert(more[point - start] == c);
            }
            whole = match whole {
                Some(value) => if '0' <= c && c <= '9' {
                    let next: i128 = value * 10 + (c as i128 - 48);
                    if next > 100_000_000_000_000_000_000 {
                        Some(100_000_000_000_000_000_000)
                    } else {
                        Some(next)
                    }
                } else {
                    None
                },
                None => {
                    assert(!all_digits(more)) by {
                        let k = choose|k: int| 0 <= k < seen.len() && !is_digit(#[trigger] seen[k]);
                        assert(!is_digit(more[k]));
                    }
                    None
                },
            };
            point = point + 1;
        }
        let ghost digits = body.take(point - start);
        let ghost rest = body.skip(point - start);
        proof {
            assert(before_point(rest) =~= Seq::<char>::empty());
            assert(before_point(body) =~= digits);
        }
        if point == start {
            return Err(MoneyError::Unreadable);
        }
        let hundreds: i128 = match whole {
            Some(value) => value * 100,
            None => {
                return Err(MoneyError::Unreadable);
            },
        };
        let size: i128 = if point == chars.len() {
            hundreds
        } else {
            let ghost cents = rest.drop_first();
            assert(rest.len() > 0);
            let left: usize = chars.len() - point - 1;
            if left == 1 {
                let tens: char = chars[point + 1];
                assert(cents[0] == tens);
                if !('0' <= tens && tens <= '9') {
                    assert(!is_digit(cents[0]));
                    return Err(MoneyError::Unreadable);
                }
                assert(cents.drop_last() =~= Seq::<char>::empty());
                reveal_with_fuel(digits_value, 2);
                hundreds + (tens as i128 - 48) * 10
            } else if left == 2 {
                let tens: char = chars[point + 1];
                let ones: char = chars[point + 2];
                assert(cents[0] == tens);
                assert(cents[1] == ones);
                if !('0' <= tens && tens <= '9' && '0' <= ones && ones <= '9') {
                    assert(!is_digit(cents[0]) || !is_digit(cents[1]));
                    return Err(MoneyError::Unreadable);
                }
                assert(cents.drop_last().drop_last() =~= Seq::<char>::empty());
                reveal_with_fuel(digits_value, 3);
                hundreds + (tens as i128 - 48) * 10 + (ones as i128 - 48)
            } else {
                return Err(MoneyError::Unreadable);
            }
        };
        let signed: i128 = if negative {
            -size
        } else {
            size
        };
        match narrow(signed) {
            Some(minor) => Ok(Money { minor }),
            None => Err(MoneyError::Overflow),
        }
    }
}

/// A count that stops growing once no amount of money could hold it.
spec fn capped(n: nat) -> nat {
    if n > 100_000_000_000_000_000_000 {
        100_000_000_000_000_000_000
    } else {
        n
    }
}

proof fn point_after_digits(whole: Seq<char>, rest: Seq<char>)
    requires
        all_digits(whole),
        rest.len() == 0 || rest[0] == '.',
    ensures
        before_point(whole + rest) == whole,
    decreases whole.len(),
{
    if whole.len() == 0 {
        assert(whole + rest =~= rest);
        assert(before_point(rest) =~= whole);
    } else {
        assert(is_digit(whole[0]));
        assert((whole + rest).drop_first() =~= whole.drop_first() + rest);
        assert(forall|i: int|
            0 <= i < whole.drop_first().len() ==> whole.drop_first()[i] == whole[i + 1]);
        point_after_digits(whole.drop_first(), rest);
        assert(seq![whole[0]] + whole.drop_first() =~= whole);
    }
}

/// What an edit box is filled with reads back as the same amount.
pub proof fn an_amount_reads_back_as_itself(amount: Money)
    ensures
        typed_amount(money_text(amount.minor as int)) == Some(amount.minor as int),
{
    let minor = amount.minor as int;
    let size = size_of_int(minor);
    let whole = nat_text(size / 100);
    let tail = seq!['.', digit((size / 10 % 10) as int), digit((size % 10) as int)];
    let body = whole + tail;
    digits_of_a_number(size / 100);
    point_after_digits(whole, tail);
    assert(body.skip(whole.len() as int) =~= tail);
    let cents = tail.drop_first();
    assert(cents =~= seq![digit((size / 10 % 10) as int), digit((size % 10) as int)]);
    assert(all_digits(cents));
    assert(cents.drop_last() =~= seq![cents[0]]);
    assert(cents.drop_last().drop_last() =~= Seq::<char>::empty());
    reveal_with_fuel(digits_value, 3);
    assert(digits_value(cents) == size / 10 % 10 * 10 + size % 10);
    assert(unsigned_amount(body) == Some(size));
    if minor < 0 {
        assert(money_text(minor).drop_first() =~= body);
    } else {
        assert(money_text(minor) =~= body);
        assert(is_digit(body[0])) by {
            assert(is_digit(whole[0]));
        }
    }
}

// ---------------------------------------------------------------------------
// Quantities
// ---------------------------------------------------------------------------

/// A quantity of stock, in thousandths of one counted unit.
#[derive(Clone, Copy, Debug, PartialEq, Eq, Structural, PartialOrd, Ord, Hash)]
pub struct Milli {
    pub thousandths: i64,
}

/// The part of a quantity after the point, without trailing zeros.
pub open spec fn thousandths_text(part: int) -> Seq<char> {
    if part == 0 {
        Seq::empty()
    } else if part % 100 == 0 {
        seq!['.', digit(part / 100)]
    } else if part % 10 == 0 {
        seq!['.', digit(part / 100), digit(part / 10 % 10)]
    } else {
        seq!['.', digit(part / 100), digit(part / 10 % 10), digit(part % 10)]
    }
}

/// A quantity as it is shown: `2`, `0.5`, `-1.25`.
pub open spec fn milli_text(thousandths: int) -> Seq<char> {
    let size = size_of_int(thousandths);
    (if thousandths < 0 {
        seq!['-']
    } else {
        Seq::empty()
    }) + nat_text(size / 1000) + thousandths_text((size % 1000) as int)
}

impl Milli {
    /// Nothing.
    pub fn zero() -> (result: Milli)
        ensures
            result.thousandths == 0,
    {
        Milli { thousandths: 0 }
    }

    /// One counted unit.
    pub fn one() -> (result: Milli)
        ensures
            result.thousandths == 1_000,
    {
        Milli { thousandths: 1_000 }
    }

    pub fn from_thousandths(thousandths: i64) -> (result: Milli)
        ensures
            result.thousandths == thousandths,
    {
        Milli { thousandths }
    }

    /// A whole number of counted units.
    pub fn from_units(units: i64) -> (result: Milli)
        requires
            fits(units * 1_000),
        ensures
            result.thousandths == units * 1_000,
    {
        Milli { thousandths: units * 1_000 }
    }

    pub fn thousandths(self) -> (result: i64)
        ensures
            result == self.thousandths,
    {
        self.thousandths
    }

    pub fn is_zero(self) -> (result: bool)
        ensures
            result == (self.thousandths == 0),
    {
        self.thousandths == 0
    }

    pub fn is_negative(self) -> (result: bool)
        ensures
            result == (self.thousandths < 0),
    {
        self.thousandths < 0
    }

    pub fn checked_add(self, other: Milli) -> (result: Result<Milli, MoneyError>)
        ensures
            match result {
                Ok(sum) => sum.thousandths == self.thousandths + other.thousandths,
                Err(error) => !fits(self.thousandths + other.thousandths) && error
                    == MoneyError::Overflow,
            },
    {
        match self.thousandths.checked_add(other.thousandths) {
            Some(thousandths) => Ok(Milli { thousandths }),
            None => Err(MoneyError::Overflow),
        }
    }

    pub fn checked_sub(self, other: Milli) -> (result: Result<Milli, MoneyError>)
        ensures
            match result {
                Ok(rest) => rest.thousandths == self.thousandths - other.thousandths,
                Err(error) => !fits(self.thousandths - other.thousandths) && error
                    == MoneyError::Overflow,
            },
    {
        match self.thousandths.checked_sub(other.thousandths) {
            Some(thousandths) => Ok(Milli { thousandths }),
            None => Err(MoneyError::Overflow),
        }
    }

    /// The quantity as it is shown on paper and on the screen.
    pub fn to_display(self) -> (result: String)
        ensures
            result@ == milli_text(self.thousandths as int),
    {
        let size: u64 = crate::text::magnitude(self.thousandths);
        let mut out: String = String::new();
        if self.thousandths < 0 {
            out.push('-');
        }
        push_nat(&mut out, size / 1_000);
        let part: u64 = size % 1_000;
        if part != 0 {
            out.push('.');
            out.push((48 + (part / 100) as u8) as char);
            if part % 100 != 0 {
                out.push((48 + (part / 10 % 10) as u8) as char);
                if part % 10 != 0 {
                    out.push((48 + (part % 10) as u8) as char);
                }
            }
        }
        assert(out@ =~= milli_text(self.thousandths as int));
        out
    }
}

impl Default for Milli {
    fn default() -> (result: Self)
        ensures
            result.thousandths == 0,
    {
        Milli { thousandths: 0 }
    }
}

/// A rate in hundredths of a percent.
#[derive(Clone, Copy, Debug, PartialEq, Eq, Structural, PartialOrd, Ord, Hash)]
pub struct BasisPoints(pub u32);

impl BasisPoints {
    /// No charge.
    pub fn zero() -> (result: BasisPoints)
        ensures
            result.0 == 0,
    {
        BasisPoints(0)
    }
}

} // verus!

//! Text as the till reads and writes it.
//!
//! Every sentence shown at the counter, every number on a receipt and every
//! search the floor makes goes through the few functions here, so that what a
//! contract says of a piece of text is said over its characters alone.

use vstd::prelude::*;

verus! {

// ---------------------------------------------------------------------------
// Blank space
// ---------------------------------------------------------------------------

/// The characters with Unicode's `White_Space` property.
pub open spec fn is_white(c: char) -> bool {
    ||| '\u{9}' <= c <= '\u{d}'
    ||| c == '\u{20}'
    ||| c == '\u{85}'
    ||| c == '\u{a0}'
    ||| c == '\u{1680}'
    ||| '\u{2000}' <= c <= '\u{200a}'
    ||| c == '\u{2028}'
    ||| c == '\u{2029}'
    ||| c == '\u{202f}'
    ||| c == '\u{205f}'
    ||| c == '\u{3000}'
}

/// `s` without the blank space it starts with.
pub open spec fn skip_white(s: Seq<char>) -> Seq<char>
    decreases s.len(),
{
    if s.len() > 0 && is_white(s[0]) {
        skip_white(s.drop_first())
    } else {
        s
    }
}

/// `s` without the blank space it ends with.
pub open spec fn skip_white_back(s: Seq<char>) -> Seq<char>
    decreases s.len(),
{
    if s.len() > 0 && is_white(s.last()) {
        skip_white_back(s.drop_last())
    } else {
        s
    }
}

/// `s` without blank space on either side.
pub open spec fn trimmed(s: Seq<char>) -> Seq<char> {
    skip_white_back(skip_white(s))
}

/// Whether nothing but blank space is written in `s`.
pub open spec fn is_blank(s: Seq<char>) -> bool {
    trimmed(s).len() == 0
}

/// A text with a visible character in it is not blank.
pub proof fn a_mark_is_not_blank(s: Seq<char>, at: int)
    requires
        0 <= at < s.len(),
        !is_white(s[at]),
    ensures
        !is_blank(s),
{
    front_keeps_marks(s, at);
    let front = skip_white(s);
    let there = choose|i: int| 0 <= i < front.len() && !is_white(#[trigger] front[i]);
    back_keeps_marks(front, there);
}

proof fn front_keeps_marks(s: Seq<char>, at: int)
    requires
        0 <= at < s.len(),
        !is_white(s[at]),
    ensures
        exists|i: int| 0 <= i < skip_white(s).len() && !is_white(#[trigger] skip_white(s)[i]),
    decreases s.len(),
{
    if is_white(s[0]) {
        assert(s.drop_first()[at - 1] == s[at]);
        let rest = s.drop_first();
        front_keeps_marks(rest, at - 1);
        let i = choose|i: int| 0 <= i < skip_white(rest).len() && !is_white(#[trigger] skip_white(rest)[i]);
        assert(skip_white(s) == skip_white(rest));
        assert(!is_white(skip_white(s)[i]));
    } else {
        assert(!is_white(skip_white(s)[0]));
    }
}

proof fn back_keeps_marks(s: Seq<char>, at: int)
    requires
        0 <= at < s.len(),
        !is_white(s[at]),
    ensures
        skip_white_back(s).len() > 0,
    decreases s.len(),
{
    if is_white(s.last()) {
        assert(s.drop_last()[at] == s[at]);
        back_keeps_marks(s.drop_last(), at);
    }
}

/// A text that neither starts nor ends in blank space stays as it is.
pub proof fn a_bare_text_stays(s: Seq<char>)
    requires
        s.len() > 0,
        !is_white(s[0]),
        !is_white(s.last()),
    ensures
        trimmed(s) == s,
        !is_blank(s),
{
}

/// `str::trim`: the text without leading and trailing characters that have
/// Unicode's `White_Space` property.
pub assume_specification[ str::trim ](s: &str) -> (result: &str)
    ensures
        result@ == trimmed(s@),
;

/// `String::push`: the character is appended to the text.
pub assume_specification[ String::push ](s: &mut String, c: char)
    ensures
        final(s)@ == old(s)@.push(c),
;

// ---------------------------------------------------------------------------
// Comparing
// ---------------------------------------------------------------------------

/// Whether two texts are the same, character for character.
pub fn same(a: &str, b: &str) -> (result: bool)
    ensures
        result == (a@ == b@),
{
    a.to_owned() == b.to_owned()
}

/// The characters of a text.
pub fn chars_of(s: &str) -> (result: Vec<char>)
    ensures
        result@ == s@,
{
    let mut result: Vec<char> = Vec::new();
    for c in it: s.chars()
        invariant
            result@ == it.seq().take(it.index() as int),
            it.seq() == s@,
    {
        result.push(c);
    }
    result
}

/// A copy of a text that may be absent.
pub fn copy_text(text: &Option<String>) -> (result: Option<String>)
    ensures
        result == *text,
{
    match text {
        Some(value) => Some(value.clone()),
        None => None,
    }
}

/// Joins two pieces of text.
pub fn join2(a: &str, b: &str) -> (result: String)
    ensures
        result@ == a@ + b@,
{
    let mut out: String = a.to_owned();
    out.append(b);
    out
}

/// Joins three pieces of text.
pub fn join3(a: &str, b: &str, c: &str) -> (result: String)
    ensures
        result@ == a@ + b@ + c@,
{
    let mut out: String = a.to_owned();
    out.append(b);
    out.append(c);
    out
}

/// The order of two texts by code point, the one `ORDER BY` uses.
pub open spec fn text_before(a: Seq<char>, b: Seq<char>) -> bool
    decreases a.len(),
{
    if b.len() == 0 {
        false
    } else if a.len() == 0 {
        true
    } else if a[0] == b[0] {
        text_before(a.drop_first(), b.drop_first())
    } else {
        a[0] < b[0]
    }
}

/// Texts have an order: none comes before itself, what comes before a text comes
/// before everything behind it, and of two different texts one comes first.
pub proof fn text_before_is_an_order(a: Seq<char>, b: Seq<char>, c: Seq<char>)
    ensures
        !text_before(a, a),
        text_before(a, b) && text_before(b, c) ==> text_before(a, c),
        a != b ==> text_before(a, b) || text_before(b, a),
    decreases a.len(),
{
    if a.len() > 0 {
        text_before_is_an_order(a.drop_first(), b.drop_first(), c.drop_first());
    }
    if a.len() == 0 && b.len() == 0 {
        assert(a =~= b);
    }
    if a.len() > 0 && b.len() > 0 && a[0] == b[0] && a.drop_first() == b.drop_first() {
        assert(a =~= seq![a[0]] + a.drop_first());
        assert(b =~= seq![b[0]] + b.drop_first());
    }
}

/// Whether `a` sorts strictly before `b`.
pub fn sorts_before(a: &str, b: &str) -> (result: bool)
    ensures
        result == text_before(a@, b@),
{
    let left: Vec<char> = chars_of(a);
    let right: Vec<char> = chars_of(b);
    let mut i: usize = 0;
    assert(left@.skip(0) =~= a@);
    assert(right@.skip(0) =~= b@);
    while i < left.len() && i < right.len() && left[i] == right[i]
        invariant
            i <= left.len(),
            i <= right.len(),
            text_before(a@, b@) == text_before(left@.skip(i as int), right@.skip(i as int)),
        decreases left.len() - i,
    {
        proof {
            assert(left@.skip(i as int).drop_first() =~= left@.skip(i + 1));
            assert(right@.skip(i as int).drop_first() =~= right@.skip(i + 1));
        }
        i = i + 1;
    }
    if i >= right.len() {
        false
    } else if i >= left.len() {
        true
    } else {
        left[i] < right[i]
    }
}

/// A capital ASCII letter as its small one; anything else as it is.
pub open spec fn lower_char(c: char) -> char {
    if 'A' <= c <= 'Z' {
        ((c as u32) + 32) as char
    } else {
        c
    }
}

/// `s` with its ASCII capitals made small.
pub open spec fn lowered(s: Seq<char>) -> Seq<char> {
    s.map_values(|c: char| lower_char(c))
}

fn lower(c: char) -> (result: char)
    ensures
        result == lower_char(c),
{
    if 'A' <= c && c <= 'Z' {
        let code: u32 = c as u32;
        ((code + 32) as u8) as char
    } else {
        c
    }
}

/// Whether `whole` holds `part` at position `at`, capitals aside.
pub open spec fn holds_at(whole: Seq<char>, part: Seq<char>, at: int) -> bool {
    &&& 0 <= at
    &&& at + part.len() <= whole.len()
    &&& lowered(whole.subrange(at, at + part.len())) == lowered(part)
}

/// Whether `part` is somewhere in `whole`, capitals aside.
pub open spec fn holds(whole: Seq<char>, part: Seq<char>) -> bool {
    exists|at: int| #[trigger] holds_at(whole, part, at)
}

/// Whether `part` is somewhere in `whole`, capitals aside.
pub fn contains_nocase(whole: &str, part: &str) -> (result: bool)
    ensures
        result == holds(whole@, part@),
{
    let text: Vec<char> = chars_of(whole);
    let wanted: Vec<char> = chars_of(part);
    if wanted.len() > text.len() {
        return false;
    }
    let mut at: usize = 0;
    let last: usize = text.len() - wanted.len();
    while at <= last
        invariant
            text@ == whole@,
            wanted@ == part@,
            wanted.len() + last == text.len(),
            at <= last + 1,
            forall|k: int| 0 <= k < at ==> !#[trigger] holds_at(whole@, part@, k),
        decreases last + 1 - at,
    {
        let mut i: usize = 0;
        while i < wanted.len() && lower(text[at + i]) == lower(wanted[i])
            invariant
                i <= wanted.len(),
                at + wanted.len() <= text.len(),
                forall|k: int|
                    0 <= k < i ==> lower_char(#[trigger] text@[at + k]) == lower_char(wanted@[k]),
            decreases wanted.len() - i,
        {
            i = i + 1;
        }
        let ghost window = text@.subrange(at as int, at + wanted.len());
        if i == wanted.len() {
            proof {
                assert forall|k: int| 0 <= k < wanted.len() implies #[trigger] lowered(window)[k]
                    == lowered(wanted@)[k] by {
                    assert(window[k] == text@[at + k]);
                }
                assert(lowered(window) =~= lowered(wanted@));
                assert(holds_at(whole@, part@, at as int));
            }
            return true;
        }
        proof {
            assert(window[i as int] == text@[at + i]);
            assert(lowered(window)[i as int] != lowered(wanted@)[i as int]);
            assert(!holds_at(whole@, part@, at as int));
        }
        if at == last {
            proof {
                assert forall|k: int| !#[trigger] holds_at(whole@, part@, k) by {}
            }
            return false;
        }
        at = at + 1;
    }
    proof {
        assert forall|k: int| !#[trigger] holds_at(whole@, part@, k) by {}
    }
    false
}

/// Whether two texts are the same, capitals aside.
pub fn same_nocase(a: &str, b: &str) -> (result: bool)
    ensures
        result == (lowered(a@) == lowered(b@)),
{
    let left: Vec<char> = chars_of(a);
    let right: Vec<char> = chars_of(b);
    if left.len() != right.len() {
        assert(lowered(a@).len() != lowered(b@).len());
        return false;
    }
    let mut i: usize = 0;
    while i < left.len()
        invariant
            i <= left.len(),
            left@ == a@,
            right@ == b@,
            left.len() == right.len(),
            forall|k: int| 0 <= k < i ==> #[trigger] lowered(a@)[k] == lowered(b@)[k],
        decreases left.len() - i,
    {
        if lower(left[i]) != lower(right[i]) {
            assert(lowered(a@)[i as int] != lowered(b@)[i as int]);
            return false;
        }
        i = i + 1;
    }
    assert(lowered(a@) =~= lowered(b@));
    true
}

// ---------------------------------------------------------------------------
// Numbers
// ---------------------------------------------------------------------------

/// The digit that stands for `d`.
pub open spec fn digit(d: int) -> char {
    (48 + d) as char
}

/// A number in decimal digits, without leading zeros.
pub open spec fn nat_text(n: nat) -> Seq<char>
    decreases n,
{
    if n < 10 {
        seq![digit(n as int)]
    } else {
        nat_text(n / 10).push(digit((n % 10) as int))
    }
}

/// A number in decimal digits, with a minus sign where it needs one.
pub open spec fn int_text(n: int) -> Seq<char> {
    if n < 0 {
        seq!['-'] + nat_text((-n) as nat)
    } else {
        nat_text(n as nat)
    }
}

/// Writes a number at the end of a text.
pub fn push_nat(out: &mut String, n: u64)
    ensures
        final(out)@ == old(out)@ + nat_text(n as nat),
    decreases n,
{
    let ghost before = out@;
    if n < 10 {
        out.push((48 + n as u8) as char);
        assert(out@ =~= before + nat_text(n as nat));
    } else {
        push_nat(out, n / 10);
        out.push((48 + (n % 10) as u8) as char);
        assert(out@ =~= before + nat_text(n as nat));
    }
}

/// How far a number is from zero.
pub fn magnitude(n: i64) -> (result: u64)
    ensures
        result == (if n < 0 {
            -n
        } else {
            n as int
        }),
{
    if n == i64::MIN {
        9_223_372_036_854_775_808u64
    } else if n < 0 {
        (-n) as u64
    } else {
        n as u64
    }
}

/// Writes a number as text.
pub fn number_text(n: i64) -> (result: String)
    ensures
        result@ == int_text(n as int),
{
    let mut out: String = String::new();
    if n < 0 {
        out.push('-');
    }
    push_nat(&mut out, magnitude(n));
    assert(out@ =~= int_text(n as int));
    out
}

/// Whether a character is one of the ten decimal digits.
pub open spec fn is_digit(c: char) -> bool {
    '0' <= c <= '9'
}

/// Whether a text is digits from end to end.
pub open spec fn all_digits(s: Seq<char>) -> bool {
    forall|i: int| 0 <= i < s.len() ==> is_digit(#[trigger] s[i])
}

/// The number that a text of digits writes down.
pub open spec fn digits_value(s: Seq<char>) -> nat
    decreases s.len(),
{
    if s.len() == 0 {
        0
    } else {
        digits_value(s.drop_last()) * 10 + (s.last() as nat - '0' as nat) as nat
    }
}

/// A number is written in digits, at least one, that say that number.
pub proof fn digits_of_a_number(n: nat)
    ensures
        nat_text(n).len() > 0,
        all_digits(nat_text(n)),
        digits_value(nat_text(n)) == n,
    decreases n,
{
    if n < 10 {
        assert(nat_text(n).drop_last() =~= Seq::<char>::empty());
        reveal_with_fuel(digits_value, 2);
    } else {
        digits_of_a_number(n / 10);
        assert(nat_text(n).drop_last() =~= nat_text(n / 10));
        assert(forall|i: int|
            0 <= i < nat_text(n / 10).len() ==> nat_text(n)[i] == nat_text(n / 10)[i]);
    }
}

/// The whole number that a text writes down: digits, with a sign before them
/// if there is one. Nothing else is a number, and neither is one that a
/// 64-bit word cannot hold.
pub open spec fn parsed_number(s: Seq<char>) -> Option<i64> {
    let negative = s.len() > 0 && s[0] == '-';
    let digits = if s.len() > 0 && (s[0] == '-' || s[0] == '+') {
        s.drop_first()
    } else {
        s
    };
    let value = if negative {
        -(digits_value(digits) as int)
    } else {
        digits_value(digits) as int
    };
    if digits.len() > 0 && all_digits(digits) && i64::MIN <= value <= i64::MAX {
        Some(value as i64)
    } else {
        None
    }
}

/// Reads a run of digits, from `start` on.
fn read_digits(text: &Vec<char>, start: usize) -> (result: Option<u128>)
    requires
        start <= text.len(),
    ensures
        match result {
            Some(value) => {
                &&& start < text.len()
                &&& all_digits(text@.skip(start as int))
                &&& value == digits_value(text@.skip(start as int))
            },
            None => {
                ||| start == text.len()
                ||| !all_digits(text@.skip(start as int))
                ||| digits_value(text@.skip(start as int)) > 18_446_744_073_709_551_615
            },
        },
{
    let ghost rest = text@.skip(start as int);
    if start == text.len() {
        return None;
    }
    let mut i: usize = start;
    let mut value: u128 = 0;
    let mut too_large: bool = false;
    while i < text.len()
        invariant
            start <= i <= text.len(),
            rest == text@.skip(start as int),
            forall|k: int| 0 <= k < i - start ==> is_digit(#[trigger] rest[k]),
            !too_large ==> value == digits_value(rest.take(i - start)),
            !too_large ==> value <= 18_446_744_073_709_551_615,
            too_large ==> digits_value(rest.take(i - start)) > 18_446_744_073_709_551_615,
        decreases text.len() - i,
    {
        let c: char = text[i];
        assert(c == rest[i - start]);
        if !('0' <= c && c <= '9') {
            return None;
        }
        assert(rest.take(i + 1 - start).drop_last() =~= rest.take(i - start));
        if !too_large {
            value = value * 10 + (c as u128 - 48);
            if value > 18_446_744_073_709_551_615 {
                too_large = true;
            }
        }
        i = i + 1;
    }
    assert(rest.take(rest.len() as int) =~= rest);
    if too_large {
        None
    } else {
        Some(value)
    }
}

/// Reads a whole number, with or without a sign.
pub fn parse_number(s: &str) -> (result: Option<i64>)
    ensures
        result == parsed_number(s@),
{
    let text: Vec<char> = chars_of(s);
    if text.len() == 0 {
        return None;
    }
    if text[0] == '-' {
        assert(text@.skip(1) =~= s@.drop_first());
        match read_digits(&text, 1) {
            Some(value) => {
                if value <= 9_223_372_036_854_775_807 {
                    let small: i64 = value as i64;
                    Some(-small)
                } else if value == 9_223_372_036_854_775_808 {
                    Some(i64::MIN)
                } else {
                    None
                }
            },
            None => None,
        }
    } else if text[0] == '+' {
        assert(text@.skip(1) =~= s@.drop_first());
        match read_digits(&text, 1) {
            Some(value) => if value <= 9_223_372_036_854_775_807 {
                Some(value as i64)
            } else {
                None
            },
            None => None,
        }
    } else {
        assert(text@.skip(0) =~= s@);
        match read_digits(&text, 0) {
            Some(value) => if value <= 9_223_372_036_854_775_807 {
                Some(value as i64)
            } else {
                None
            },
            None => None,
        }
    }
}

} // verus!

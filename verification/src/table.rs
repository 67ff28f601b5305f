//! Rows, and the few questions the till asks of a table of them.
//!
//! A table is a vector in the order its rows were written. Every question is
//! put in words twice: once as a predicate over rows, which contracts speak
//! of, and once as the closure that computes it.

use vstd::prelude::*;

use crate::money::fits;

verus! {

/// A row with an identity of its own.
pub trait Row: Sized {
    /// The identity that other rows refer to.
    spec fn key(&self) -> i64;

    fn id(&self) -> (result: i64)
        ensures
            result == self.key(),
    ;

    fn copy_row(&self) -> (result: Self)
        ensures
            result == *self,
    ;
}

// ---------------------------------------------------------------------------
// One row
// ---------------------------------------------------------------------------

/// Where the first row with that identity stands, from `from` on.
pub open spec fn place_from<T: Row>(rows: Seq<T>, id: i64, from: int) -> Option<int>
    decreases rows.len() - from,
{
    if from < 0 || from >= rows.len() {
        None
    } else if rows[from].key() == id {
        Some(from)
    } else {
        place_from(rows, id, from + 1)
    }
}

/// Where the row with that identity stands.
pub open spec fn place<T: Row>(rows: Seq<T>, id: i64) -> Option<int> {
    place_from(rows, id, 0)
}

/// The row with that identity.
pub open spec fn row<T: Row>(rows: Seq<T>, id: i64) -> Option<T> {
    match place(rows, id) {
        Some(at) => Some(rows[at]),
        None => None,
    }
}

/// Finds where a row stands.
pub fn find_place<T: Row>(rows: &Vec<T>, id: i64) -> (result: Option<usize>)
    ensures
        match result {
            Some(at) => {
                &&& place(rows@, id) == Some(at as int)
                &&& at < rows.len()
                &&& rows@[at as int].key() == id
                &&& row(rows@, id) == Some(rows@[at as int])
            },
            None => place(rows@, id) is None && row(rows@, id) is None,
        },
{
    let mut at: usize = 0;
    while at < rows.len()
        invariant
            at <= rows.len(),
            place(rows@, id) == place_from(rows@, id, at as int),
        decreases rows.len() - at,
    {
        if rows[at].id() == id {
            return Some(at);
        }
        at = at + 1;
    }
    None
}

/// Finds a row and hands out a copy.
pub fn find_row<T: Row>(rows: &Vec<T>, id: i64) -> (result: Option<T>)
    ensures
        result == row(rows@, id),
{
    match find_place(rows, id) {
        Some(at) => Some(rows[at].copy_row()),
        None => None,
    }
}

/// What `place` says of the rows it looks at.
pub proof fn place_is_first<T: Row>(rows: Seq<T>, id: i64)
    ensures
        match place(rows, id) {
            Some(at) => 0 <= at < rows.len() && rows[at].key() == id && (forall|i: int|
                0 <= i < at ==> #[trigger] rows[i].key() != id),
            None => forall|i: int| 0 <= i < rows.len() ==> #[trigger] rows[i].key() != id,
        },
{
    place_from_is_first(rows, id, 0);
}

proof fn place_from_is_first<T: Row>(rows: Seq<T>, id: i64, from: int)
    requires
        0 <= from,
    ensures
        match place_from(rows, id, from) {
            Some(at) => from <= at < rows.len() && rows[at].key() == id && (forall|i: int|
                from <= i < at ==> #[trigger] rows[i].key() != id),
            None => forall|i: int| from <= i < rows.len() ==> #[trigger] rows[i].key() != id,
        },
    decreases rows.len() - from,
{
    if from < rows.len() && rows[from].key() != id {
        place_from_is_first(rows, id, from + 1);
    }
}

/// A row keeps its place when others are written after it, and a new row is
/// found where it was written.
pub proof fn writing_keeps_places<T: Row>(rows: Seq<T>, new: T, id: i64)
    ensures
        place(rows, id) is Some ==> place(rows.push(new), id) == place(rows, id) && row(
            rows.push(new),
            id,
        ) == row(rows, id),
        place(rows, id) is None && new.key() != id ==> place(rows.push(new), id) is None,
        place(rows, id) is None && new.key() == id ==> row(rows.push(new), id) == Some(new),
{
    place_is_first(rows, id);
    place_is_first(rows.push(new), id);
    let longer = rows.push(new);
    assert(forall|i: int| 0 <= i < rows.len() ==> longer[i] == rows[i]);
    assert(longer[rows.len() as int] == new);
    if place(longer, id) is Some && place(rows, id) is Some {
        let a = place(rows, id)->0;
        let b = place(longer, id)->0;
        if b < a {
            assert(longer[b] == rows[b]);
        }
        if a < b {
            assert(longer[a] == rows[a]);
        }
    }
    if place(rows, id) is Some && place(longer, id) is None {
        assert(longer[place(rows, id)->0].key() == id);
    }
    if place(rows, id) is None && place(longer, id) is Some {
        let b = place(longer, id)->0;
        if b < rows.len() {
            assert(rows[b].key() == id);
        }
    }
    if place(rows, id) is None && new.key() == id && place(longer, id) is None {
        assert(longer[rows.len() as int].key() == id);
    }
}

/// Changing a row without changing its identity changes what is found under
/// that identity, and under no other.
pub proof fn changing_keeps_places<T: Row>(rows: Seq<T>, at: int, new: T, id: i64)
    requires
        0 <= at < rows.len(),
        new.key() == rows[at].key(),
    ensures
        place(rows.update(at, new), id) == place(rows, id),
        place(rows, id) == Some(at) ==> row(rows.update(at, new), id) == Some(new),
        place(rows, id) != Some(at) ==> row(rows.update(at, new), id) == row(rows, id),
{
    let changed = rows.update(at, new);
    place_is_first(rows, id);
    place_is_first(changed, id);
    assert(forall|i: int| 0 <= i < rows.len() ==> #[trigger] changed[i].key() == rows[i].key());
    match (place(rows, id), place(changed, id)) {
        (Some(a), Some(b)) => {
            assert(changed[a].key() == rows[a].key());
            assert(changed[b].key() == rows[b].key());
        },
        (Some(a), None) => {
            assert(changed[a].key() == rows[a].key());
        },
        (None, Some(b)) => {
            assert(changed[b].key() == rows[b].key());
        },
        (None, None) => {},
    }
}

// ---------------------------------------------------------------------------
// A new identity
// ---------------------------------------------------------------------------

/// The largest identity in use, or zero.
pub open spec fn largest_id<T: Row>(rows: Seq<T>) -> i64
    decreases rows.len(),
{
    if rows.len() == 0 {
        0
    } else {
        let before = largest_id(rows.drop_last());
        if rows.last().key() > before {
            rows.last().key()
        } else {
            before
        }
    }
}

/// The identity that the next row gets: one past the largest in use, and none
/// once there is no larger number.
pub open spec fn fresh_id<T: Row>(rows: Seq<T>) -> Option<i64> {
    if largest_id(rows) == i64::MAX {
        None
    } else {
        Some((largest_id(rows) + 1) as i64)
    }
}

/// Works out the identity that the next row gets.
pub fn next_id<T: Row>(rows: &Vec<T>) -> (result: Option<i64>)
    ensures
        result == fresh_id(rows@),
{
    let mut largest: i64 = 0;
    let mut i: usize = 0;
    while i < rows.len()
        invariant
            i <= rows.len(),
            largest == largest_id(rows@.take(i as int)),
        decreases rows.len() - i,
    {
        assert(rows@.take(i + 1).drop_last() =~= rows@.take(i as int));
        let id: i64 = rows[i].id();
        if id > largest {
            largest = id;
        }
        i = i + 1;
    }
    assert(rows@.take(rows@.len() as int) =~= rows@);
    if largest == i64::MAX {
        None
    } else {
        Some(largest + 1)
    }
}

/// No row has an identity above the largest.
pub proof fn largest_bounds<T: Row>(rows: Seq<T>)
    ensures
        largest_id(rows) >= 0,
        forall|i: int| 0 <= i < rows.len() ==> #[trigger] rows[i].key() <= largest_id(rows),
    decreases rows.len(),
{
    if rows.len() > 0 {
        largest_bounds(rows.drop_last());
        assert forall|i: int| 0 <= i < rows.len() implies #[trigger] rows[i].key() <= largest_id(
            rows,
        ) by {
            if i < rows.len() - 1 {
                assert(rows.drop_last()[i] == rows[i]);
            }
        }
    }
}

/// A new row never takes an identity that another row has.
pub proof fn a_fresh_id_is_unused<T: Row>(rows: Seq<T>)
    ensures
        fresh_id(rows) is Some ==> place(rows, fresh_id(rows)->0) is None && fresh_id(rows)->0 > 0,
{
    largest_bounds(rows);
    if fresh_id(rows) is Some {
        place_is_first(rows, fresh_id(rows)->0);
    }
}

/// Whether there are identities left for `n` more rows.
pub open spec fn room_for<T: Row>(rows: Seq<T>, n: int) -> bool {
    largest_id(rows) + n <= i64::MAX
}

/// Whether there are identities left for `n` more rows.
pub fn has_room<T: Row>(rows: &Vec<T>, n: usize) -> (result: bool)
    ensures
        result == room_for(rows@, n as int),
{
    proof {
        largest_bounds(rows@);
    }
    match next_id(rows) {
        None => n == 0,
        Some(next) => (next - 1) as i128 + n as i128 <= i64::MAX as i128,
    }
}

/// A new row takes one identity.
pub proof fn writing_takes_one_identity<T: Row>(rows: Seq<T>, new: T)
    requires
        fresh_id(rows) == Some(new.key()),
    ensures
        largest_id(rows.push(new)) == largest_id(rows) + 1,
{
    assert(rows.push(new).drop_last() =~= rows);
}

// ---------------------------------------------------------------------------
// Many rows
// ---------------------------------------------------------------------------

/// Whether some row meets a condition.
pub open spec fn any<T>(rows: Seq<T>, wanted: spec_fn(T) -> bool) -> bool {
    exists|i: int| 0 <= i < rows.len() && #[trigger] wanted(rows[i])
}

/// Whether some row meets a condition.
pub fn any_row<T, F: Fn(&T) -> bool>(
    rows: &Vec<T>,
    test: F,
    Ghost(wanted): Ghost<spec_fn(T) -> bool>,
) -> (result: bool)
    requires
        forall|r: T| #[trigger] test.requires((&r,)),
        forall|r: T, b: bool| #[trigger] test.ensures((&r,), b) ==> b == wanted(r),
    ensures
        result == any(rows@, wanted),
{
    let mut i: usize = 0;
    while i < rows.len()
        invariant
            i <= rows.len(),
            forall|r: T| #[trigger] test.requires((&r,)),
            forall|r: T, b: bool| #[trigger] test.ensures((&r,), b) ==> b == wanted(r),
            forall|k: int| 0 <= k < i ==> !wanted(#[trigger] rows@[k]),
        decreases rows.len() - i,
    {
        if test(&rows[i]) {
            assert(wanted(rows@[i as int]));
            return true;
        }
        i = i + 1;
    }
    false
}

/// The rows that meet a condition, in the order they were written.
pub open spec fn chosen<T>(rows: Seq<T>, wanted: spec_fn(T) -> bool) -> Seq<T>
    decreases rows.len(),
{
    if rows.len() == 0 {
        Seq::empty()
    } else {
        let before = chosen(rows.drop_last(), wanted);
        if wanted(rows.last()) {
            before.push(rows.last())
        } else {
            before
        }
    }
}

/// Copies of the rows that meet a condition.
pub fn choose_rows<T: Row, F: Fn(&T) -> bool>(
    rows: &Vec<T>,
    test: F,
    Ghost(wanted): Ghost<spec_fn(T) -> bool>,
) -> (result: Vec<T>)
    requires
        forall|r: T| #[trigger] test.requires((&r,)),
        forall|r: T, b: bool| #[trigger] test.ensures((&r,), b) ==> b == wanted(r),
    ensures
        result@ == chosen(rows@, wanted),
{
    let mut result: Vec<T> = Vec::new();
    let mut i: usize = 0;
    while i < rows.len()
        invariant
            i <= rows.len(),
            forall|r: T| #[trigger] test.requires((&r,)),
            forall|r: T, b: bool| #[trigger] test.ensures((&r,), b) ==> b == wanted(r),
            result@ == chosen(rows@.take(i as int), wanted),
        decreases rows.len() - i,
    {
        assert(rows@.take(i + 1).drop_last() =~= rows@.take(i as int));
        if test(&rows[i]) {
            result.push(rows[i].copy_row());
        }
        i = i + 1;
    }
    assert(rows@.take(rows@.len() as int) =~= rows@);
    result
}

/// What is true of a chosen row.
pub proof fn chosen_meet_the_condition<T>(rows: Seq<T>, wanted: spec_fn(T) -> bool)
    ensures
        forall|i: int|
            0 <= i < chosen(rows, wanted).len() ==> wanted(#[trigger] chosen(rows, wanted)[i]),
        any(rows, wanted) <==> chosen(rows, wanted).len() > 0,
    decreases rows.len(),
{
    if rows.len() > 0 {
        let before = rows.drop_last();
        chosen_meet_the_condition(before, wanted);
        if any(rows, wanted) {
            let i = choose|i: int| 0 <= i < rows.len() && #[trigger] wanted(rows[i]);
            if i < rows.len() - 1 {
                assert(wanted(before[i]));
            }
        }
        if chosen(rows, wanted).len() > 0 {
            if wanted(rows.last()) {
                assert(wanted(rows[rows.len() - 1]));
            } else {
                let i = choose|i: int| 0 <= i < before.len() && #[trigger] wanted(before[i]);
                assert(wanted(rows[i]));
            }
        }
    }
}

// ---------------------------------------------------------------------------
// Sums
// ---------------------------------------------------------------------------

/// The sum of a figure over the rows that have one.
pub open spec fn sum<T>(rows: Seq<T>, figure: spec_fn(T) -> Option<i64>) -> int
    decreases rows.len(),
{
    if rows.len() == 0 {
        0
    } else {
        sum(rows.drop_last(), figure) + (match figure(rows.last()) {
            Some(value) => value as int,
            None => 0,
        })
    }
}

/// The same sum, kept as it goes: none once it leaves 64 bits, even where a
/// later row would bring it back.
pub open spec fn running_sum<T>(rows: Seq<T>, figure: spec_fn(T) -> Option<i64>) -> Option<i64>
    decreases rows.len(),
{
    if rows.len() == 0 {
        Some(0)
    } else {
        match running_sum(rows.drop_last(), figure) {
            None => None,
            Some(before) => match figure(rows.last()) {
                None => Some(before),
                Some(value) => if fits(before + value) {
                    Some((before + value) as i64)
                } else {
                    None
                },
            },
        }
    }
}

/// Sums a figure over the rows that have one.
pub fn sum_rows<T, F: Fn(&T) -> Option<i64>>(
    rows: &Vec<T>,
    read: F,
    Ghost(figure): Ghost<spec_fn(T) -> Option<i64>>,
) -> (result: Option<i64>)
    requires
        forall|r: T| #[trigger] read.requires((&r,)),
        forall|r: T, v: Option<i64>| #[trigger] read.ensures((&r,), v) ==> v == figure(r),
    ensures
        result == running_sum(rows@, figure),
{
    let mut total: Option<i64> = Some(0);
    let mut i: usize = 0;
    while i < rows.len()
        invariant
            i <= rows.len(),
            forall|r: T| #[trigger] read.requires((&r,)),
            forall|r: T, v: Option<i64>| #[trigger] read.ensures((&r,), v) ==> v == figure(r),
            total == running_sum(rows@.take(i as int), figure),
        decreases rows.len() - i,
    {
        assert(rows@.take(i + 1).drop_last() =~= rows@.take(i as int));
        if let Some(before) = total {
            if let Some(value) = read(&rows[i]) {
                total = before.checked_add(value);
            }
        }
        i = i + 1;
    }
    assert(rows@.take(rows@.len() as int) =~= rows@);
    total
}

/// A sum that was kept as it went is the sum.
pub proof fn running_sum_is_the_sum<T>(rows: Seq<T>, figure: spec_fn(T) -> Option<i64>)
    ensures
        running_sum(rows, figure) is Some ==> running_sum(rows, figure)->0 == sum(rows, figure),
    decreases rows.len(),
{
    if rows.len() > 0 {
        running_sum_is_the_sum(rows.drop_last(), figure);
    }
}

/// How many rows meet a condition.
pub open spec fn count<T>(rows: Seq<T>, wanted: spec_fn(T) -> bool) -> nat
    decreases rows.len(),
{
    if rows.len() == 0 {
        0
    } else {
        count(rows.drop_last(), wanted) + (if wanted(rows.last()) {
            1nat
        } else {
            0nat
        })
    }
}

/// Counts the rows that meet a condition.
pub fn count_rows<T, F: Fn(&T) -> bool>(
    rows: &Vec<T>,
    test: F,
    Ghost(wanted): Ghost<spec_fn(T) -> bool>,
) -> (result: usize)
    requires
        forall|r: T| #[trigger] test.requires((&r,)),
        forall|r: T, b: bool| #[trigger] test.ensures((&r,), b) ==> b == wanted(r),
    ensures
        result == count(rows@, wanted),
        result <= rows.len(),
{
    let mut result: usize = 0;
    let mut i: usize = 0;
    while i < rows.len()
        invariant
            result <= i <= rows.len(),
            forall|r: T| #[trigger] test.requires((&r,)),
            forall|r: T, b: bool| #[trigger] test.ensures((&r,), b) ==> b == wanted(r),
            result == count(rows@.take(i as int), wanted),
        decreases rows.len() - i,
    {
        assert(rows@.take(i + 1).drop_last() =~= rows@.take(i as int));
        if test(&rows[i]) {
            result = result + 1;
        }
        i = i + 1;
    }
    assert(rows@.take(rows@.len() as int) =~= rows@);
    result
}

/// Where no row meets a condition, none is counted.
pub proof fn nothing_to_count<T>(rows: Seq<T>, wanted: spec_fn(T) -> bool)
    requires
        !any(rows, wanted),
    ensures
        count(rows, wanted) == 0,
    decreases rows.len(),
{
    if rows.len() > 0 {
        let before = rows.drop_last();
        assert(!any(before, wanted)) by {
            if any(before, wanted) {
                let i = choose|i: int| 0 <= i < before.len() && #[trigger] wanted(before[i]);
                assert(wanted(rows[i]));
            }
        }
        nothing_to_count(before, wanted);
        assert(!wanted(rows[rows.len() - 1]));
    }
}

// ---------------------------------------------------------------------------
// Order
// ---------------------------------------------------------------------------

/// Puts a row into its place among rows that are in order: behind everything
/// that it does not come before.
pub open spec fn slotted<T>(rows: Seq<T>, new: T, before: spec_fn(T, T) -> bool) -> Seq<T>
    decreases rows.len(),
{
    if rows.len() > 0 && before(new, rows.last()) {
        slotted(rows.drop_last(), new, before).push(rows.last())
    } else {
        rows.push(new)
    }
}

/// The rows in order; rows that neither comes before the other stay as they
/// were written.
pub open spec fn in_order<T>(rows: Seq<T>, before: spec_fn(T, T) -> bool) -> Seq<T>
    decreases rows.len(),
{
    if rows.len() == 0 {
        Seq::empty()
    } else {
        slotted(in_order(rows.drop_last(), before), rows.last(), before)
    }
}

proof fn slotted_splits<T>(
    front: Seq<T>,
    back: Seq<T>,
    new: T,
    before: spec_fn(T, T) -> bool,
)
    requires
        front.len() == 0 || !before(new, front.last()),
        forall|i: int| 0 <= i < back.len() ==> before(new, #[trigger] back[i]),
    ensures
        slotted(front + back, new, before) == front.push(new) + back,
    decreases back.len(),
{
    if back.len() == 0 {
        assert(front + back =~= front);
        assert(front.push(new) + back =~= front.push(new));
    } else {
        let whole = front + back;
        assert(whole.last() == back[back.len() - 1]);
        assert(whole.drop_last() =~= front + back.drop_last());
        assert(forall|i: int|
            0 <= i < back.drop_last().len() ==> #[trigger] back.drop_last()[i] == back[i]);
        slotted_splits(front, back.drop_last(), new, before);
        assert((front.push(new) + back.drop_last()).push(back.last()) =~= front.push(new) + back);
    }
}

/// Sorts rows.
pub fn sort_rows<T: Row, F: Fn(&T, &T) -> bool>(
    rows: &Vec<T>,
    test: F,
    Ghost(before): Ghost<spec_fn(T, T) -> bool>,
) -> (result: Vec<T>)
    requires
        forall|a: T, b: T| #[trigger] test.requires((&a, &b)),
        forall|a: T, b: T, r: bool| #[trigger] test.ensures((&a, &b), r) ==> r == before(a, b),
    ensures
        result@ == in_order(rows@, before),
{
    let mut result: Vec<T> = Vec::new();
    let mut i: usize = 0;
    while i < rows.len()
        invariant
            i <= rows.len(),
            forall|a: T, b: T| #[trigger] test.requires((&a, &b)),
            forall|a: T, b: T, r: bool| #[trigger] test.ensures((&a, &b), r) ==> r == before(a, b),
            result@ == in_order(rows@.take(i as int), before),
            result.len() == i,
        decreases rows.len() - i,
    {
        assert(rows@.take(i + 1).drop_last() =~= rows@.take(i as int));
        let ghost so_far = result@;
        let new: T = rows[i].copy_row();
        let mut at: usize = result.len();
        while at > 0 && test(&new, &result[at - 1])
            invariant
                at <= result.len(),
                result@ == so_far,
                forall|a: T, b: T| #[trigger] test.requires((&a, &b)),
                forall|a: T, b: T, r: bool| #[trigger] test.ensures((&a, &b), r) ==> r == before(
                    a,
                    b,
                ),
                forall|k: int| at <= k < so_far.len() ==> before(new, #[trigger] so_far[k]),
            decreases at,
        {
            at = at - 1;
        }
        proof {
            let front = so_far.take(at as int);
            let back = so_far.skip(at as int);
            assert(so_far =~= front + back);
            if front.len() > 0 {
                assert(front.last() == so_far[at - 1]);
            }
            assert(forall|k: int| 0 <= k < back.len() ==> #[trigger] back[k] == so_far[at + k]);
            slotted_splits(front, back, new, before);
            assert(so_far.insert(at as int, new) =~= front.push(new) + back);
        }
        result.insert(at, new);
        proof {
            slotted_len(so_far, rows@[i as int], before);
        }
        i = i + 1;
    }
    assert(rows@.take(rows@.len() as int) =~= rows@);
    result
}

proof fn slotted_len<T>(rows: Seq<T>, new: T, before: spec_fn(T, T) -> bool)
    ensures
        slotted(rows, new, before).len() == rows.len() + 1,
        slotted(rows, new, before).to_multiset() == rows.to_multiset().insert(new),
    decreases rows.len(),
{
    broadcast use vstd::seq_lib::group_to_multiset_ensures;

    if rows.len() > 0 && before(new, rows.last()) {
        slotted_len(rows.drop_last(), new, before);
        assert(rows.drop_last().push(rows.last()) =~= rows);
        assert(rows.to_multiset() =~= rows.drop_last().to_multiset().insert(rows.last()));
        assert(slotted(rows, new, before).to_multiset() =~= rows.to_multiset().insert(new));
    }
}

/// Putting rows in order neither loses one nor makes one up.
pub proof fn ordering_keeps_every_row<T>(rows: Seq<T>, before: spec_fn(T, T) -> bool)
    ensures
        in_order(rows, before).to_multiset() == rows.to_multiset(),
    decreases rows.len(),
{
    broadcast use vstd::seq_lib::group_to_multiset_ensures;

    if rows.len() > 0 {
        ordering_keeps_every_row(rows.drop_last(), before);
        slotted_len(in_order(rows.drop_last(), before), rows.last(), before);
        assert(rows.drop_last().push(rows.last()) =~= rows);
    }
}

/// What is chosen out of rows, and put in order, is among them.
pub proof fn what_is_listed_is_there<T>(
    rows: Seq<T>,
    wanted: spec_fn(T) -> bool,
    before: spec_fn(T, T) -> bool,
)
    ensures
        forall|i: int|
            0 <= i < chosen(rows, wanted).len() ==> rows.contains(#[trigger] chosen(rows, wanted)[i]),
        forall|i: int|
            0 <= i < in_order(rows, before).len() ==> rows.contains(
                #[trigger] in_order(rows, before)[i],
            ),
    decreases rows.len(),
{
    broadcast use vstd::seq_lib::group_to_multiset_ensures;

    if rows.len() > 0 {
        let front = rows.drop_last();
        what_is_listed_is_there(front, wanted, before);
        assert forall|i: int| 0 <= i < chosen(rows, wanted).len() implies rows.contains(
            #[trigger] chosen(rows, wanted)[i],
        ) by {
            if i < chosen(front, wanted).len() {
                let k = choose|k: int| 0 <= k < front.len() && front[k] == chosen(front, wanted)[i];
                assert(rows[k] == chosen(rows, wanted)[i]);
            } else {
                assert(rows[rows.len() - 1] == chosen(rows, wanted)[i]);
            }
        }
    }
    ordering_keeps_every_row(rows, before);
    let sorted = in_order(rows, before);
    assert forall|i: int| 0 <= i < sorted.len() implies rows.contains(#[trigger] sorted[i]) by {
        assert(sorted.contains(sorted[i]));
        assert(sorted.to_multiset().count(sorted[i]) > 0);
    }
}

/// Whether a comparison can put rows in order: no row comes both before and
/// behind another, and of two rows that are apart, a third is apart from one of
/// them on the same side.
pub open spec fn ranks<T>(before: spec_fn(T, T) -> bool) -> bool {
    &&& forall|a: T, b: T| #[trigger] before(a, b) ==> !before(b, a)
    &&& forall|a: T, b: T, c: T|
        #![trigger before(a, b), before(a, c)]
        #![trigger before(a, b), before(c, b)]
        before(a, b) ==> before(a, c) || before(c, b)
}

proof fn slotting_keeps_order<T>(rows: Seq<T>, new: T, before: spec_fn(T, T) -> bool)
    requires
        ranks(before),
        forall|i: int, j: int|
            0 <= i < j < rows.len() ==> !before(#[trigger] rows[j], #[trigger] rows[i]),
    ensures
        ({
            let result = slotted(rows, new, before);
            &&& forall|i: int, j: int|
                0 <= i < j < result.len() ==> !before(#[trigger] result[j], #[trigger] result[i])
            &&& forall|i: int|
                0 <= i < result.len() ==> (#[trigger] result[i] == new || rows.contains(result[i]))
        }),
    decreases rows.len(),
{
    let result = slotted(rows, new, before);
    if rows.len() > 0 && before(new, rows.last()) {
        let front = rows.drop_last();
        slotting_keeps_order(front, new, before);
        let inner = slotted(front, new, before);
        assert forall|i: int| 0 <= i < result.len() implies (#[trigger] result[i] == new
            || rows.contains(result[i])) by {
            if i < inner.len() {
                assert(result[i] == inner[i]);
                if inner[i] != new {
                    let k = choose|k: int| 0 <= k < front.len() && front[k] == inner[i];
                    assert(rows[k] == result[i]);
                }
            } else {
                assert(result[i] == rows[rows.len() - 1]);
            }
        }
        assert forall|i: int, j: int| 0 <= i < j < result.len() implies !before(
            #[trigger] result[j],
            #[trigger] result[i],
        ) by {
            assert(result[i] == inner[i]);
            if j < inner.len() {
                assert(result[j] == inner[j]);
            } else {
                assert(result[j] == rows.last());
                if inner[i] != new {
                    let k = choose|k: int| 0 <= k < front.len() && front[k] == inner[i];
                    assert(rows[k] == inner[i]);
                    assert(!before(rows[rows.len() - 1], rows[k]));
                }
            }
        }
    } else {
        assert forall|i: int, j: int| 0 <= i < j < result.len() implies !before(
            #[trigger] result[j],
            #[trigger] result[i],
        ) by {
            assert(result[i] == rows[i]);
            if j < rows.len() {
                assert(result[j] == rows[j]);
            } else {
                assert(result[j] == new);
                let last = rows[rows.len() - 1];
                assert(!before(new, last));
                if before(new, rows[i]) && i < rows.len() - 1 {
                    assert(!before(last, rows[i]));
                }
            }
        }
        assert forall|i: int| 0 <= i < result.len() implies (#[trigger] result[i] == new
            || rows.contains(result[i])) by {
            if i < rows.len() {
                assert(result[i] == rows[i]);
            }
        }
    }
}

/// Rows that were put in order are in order: no later one comes before an
/// earlier one.
pub proof fn ordering_puts_in_order<T>(rows: Seq<T>, before: spec_fn(T, T) -> bool)
    requires
        ranks(before),
    ensures
        forall|i: int, j: int|
            0 <= i < j < in_order(rows, before).len() ==> !before(
                #[trigger] in_order(rows, before)[j],
                #[trigger] in_order(rows, before)[i],
            ),
    decreases rows.len(),
{
    if rows.len() > 0 {
        ordering_puts_in_order(rows.drop_last(), before);
        slotting_keeps_order(in_order(rows.drop_last(), before), rows.last(), before);
    }
}

/// The rows that a comparison does not tell apart from one row.
pub open spec fn level_with<T>(row: T, before: spec_fn(T, T) -> bool) -> spec_fn(T) -> bool {
    |other: T| !before(row, other) && !before(other, row)
}

proof fn slotting_keeps_level_rows<T>(
    rows: Seq<T>,
    new: T,
    before: spec_fn(T, T) -> bool,
    row: T,
)
    requires
        ranks(before),
    ensures
        chosen(slotted(rows, new, before), level_with(row, before)) == chosen(
            rows.push(new),
            level_with(row, before),
        ),
    decreases rows.len(),
{
    let level = level_with(row, before);
    assert(rows.push(new).drop_last() =~= rows);
    if rows.len() > 0 && before(new, rows.last()) {
        let front = rows.drop_last();
        let inner = slotted(front, new, before);
        slotting_keeps_level_rows(front, new, before, row);
        assert(front.push(new).drop_last() =~= front);
        assert(slotted(rows, new, before) == inner.push(rows.last()));
        assert(inner.push(rows.last()).drop_last() =~= inner);
        assert(chosen(front.push(new), level) == if level(new) {
            chosen(front, level).push(new)
        } else {
            chosen(front, level)
        });
        assert(chosen(rows, level) == if level(rows.last()) {
            chosen(front, level).push(rows.last())
        } else {
            chosen(front, level)
        });
        assert(!(level(new) && level(rows.last()))) by {
            if level(new) && level(rows.last()) {
                assert(before(new, row) || before(row, rows.last()));
            }
        }
    }
}

/// Rows that a comparison does not tell apart stay as they were written.
pub proof fn ordering_keeps_level_rows<T>(rows: Seq<T>, before: spec_fn(T, T) -> bool, row: T)
    requires
        ranks(before),
    ensures
        chosen(in_order(rows, before), level_with(row, before)) == chosen(
            rows,
            level_with(row, before),
        ),
    decreases rows.len(),
{
    if rows.len() > 0 {
        let front = rows.drop_last();
        let sorted = in_order(front, before);
        ordering_keeps_level_rows(front, before, row);
        slotting_keeps_level_rows(sorted, rows.last(), before, row);
        assert(sorted.push(rows.last()).drop_last() =~= sorted);
    }
}

} // verus!

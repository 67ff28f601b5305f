//! What the till promises, in the terms of the people who use it.
//!
//! Every law here speaks of what is written in the tables: a status, an amount,
//! who and when. It names an operation by the words of its contract, and says
//! what an answer must satisfy, or how the answers before and after an action
//! relate. The words below are for counting, adding up and listing rows, and
//! belong to the laws alone.

use vstd::prelude::*;

use crate::money::fits;
use crate::repo::shifts;
use crate::repo::staff::Role;
use crate::store::Store;
use crate::table::{
    any, chosen, chosen_meet_the_condition, count, in_order, ordering_keeps_every_row,
    ordering_puts_in_order, ranks, row, running_sum, what_is_listed_is_there,
};
use crate::text::{a_mark_is_not_blank, is_blank, is_white, skip_white, trimmed};

pub mod books;
pub mod cash;
pub mod closing;
pub mod corrections;
pub mod figures;
pub mod floor;
pub mod night;
pub mod owner;
pub mod people;
pub mod printer;
pub mod receipts;
pub mod rounds;
pub mod screens;
pub mod settings;
pub mod shelf;
pub mod words;
pub mod writing;

verus! {

// ---------------------------------------------------------------------------
// Who and when
// ---------------------------------------------------------------------------

/// Whether somebody is a cashier who works here.
pub open spec fn is_cashier(db: Store, id: i64) -> bool {
    row(db.staff@, id) matches Some(found) && found.person.active && found.person.role
        == Role::Cashier
}

/// Whether somebody is, or was, a waiter.
pub open spec fn is_waiter(db: Store, id: i64) -> bool {
    row(db.staff@, id) matches Some(found) && found.person.role == Role::Waiter
}

/// Whether somebody is a waiter who works here.
pub open spec fn serves(db: Store, id: i64) -> bool {
    is_waiter(db, id) && row(db.staff@, id)->0.person.active
}

/// Whether a night is open for trade.
pub open spec fn trades(db: Store, shift_id: i64) -> bool {
    row(db.shifts@, shift_id) matches Some(night) && night.status == shifts::Status::Open
}

/// Whether something is written in a text besides blank space.
pub open spec fn says(text: Seq<char>) -> bool {
    exists|i: int| 0 <= i < text.len() && !is_white(#[trigger] text[i])
}

// ---------------------------------------------------------------------------
// Finding
// ---------------------------------------------------------------------------

/// Whether some row meets a condition.
pub open spec fn there_is<T>(rows: Seq<T>, wanted: spec_fn(T) -> bool) -> bool {
    exists|i: int| 0 <= i < rows.len() && wanted(#[trigger] rows[i])
}

/// Looking for a row finds one exactly where there is one.
pub proof fn a_row_is_found_where_there_is_one<T>(
    rows: Seq<T>,
    picked: spec_fn(T) -> bool,
    wanted: spec_fn(T) -> bool,
)
    requires
        forall|i: int| 0 <= i < rows.len() ==> picked(#[trigger] rows[i]) == wanted(rows[i]),
    ensures
        any(rows, picked) <==> there_is(rows, wanted),
{
    if any(rows, picked) {
        let i = choose|i: int| 0 <= i < rows.len() && #[trigger] picked(rows[i]);
        assert(wanted(rows[i]));
    }
    if there_is(rows, wanted) {
        let i = choose|i: int| 0 <= i < rows.len() && wanted(#[trigger] rows[i]);
        assert(picked(rows[i]));
    }
}

// ---------------------------------------------------------------------------
// Adding up
// ---------------------------------------------------------------------------

/// What a figure comes to over some rows.
pub open spec fn total<T>(rows: Seq<T>, worth: spec_fn(T) -> int) -> int
    decreases rows.len(),
{
    if rows.len() == 0 {
        0
    } else {
        total(rows.drop_last(), worth) + worth(rows.last())
    }
}

/// How many rows meet a condition.
pub open spec fn how_many<T>(rows: Seq<T>, wanted: spec_fn(T) -> bool) -> int {
    total(
        rows,
        |r: T|
            if wanted(r) {
                1
            } else {
                0
            },
    )
}

/// Figures that agree on every row come to the same.
pub proof fn the_same_figures_come_to_the_same<T>(
    rows: Seq<T>,
    one: spec_fn(T) -> int,
    other: spec_fn(T) -> int,
)
    requires
        forall|i: int| 0 <= i < rows.len() ==> one(#[trigger] rows[i]) == other(rows[i]),
    ensures
        total(rows, one) == total(rows, other),
    decreases rows.len(),
{
    if rows.len() > 0 {
        let front = rows.drop_last();
        assert forall|i: int| 0 <= i < front.len() implies one(#[trigger] front[i]) == other(
            front[i],
        ) by {
            assert(front[i] == rows[i]);
        }
        the_same_figures_come_to_the_same(front, one, other);
        assert(one(rows[rows.len() - 1]) == other(rows[rows.len() - 1]));
    }
}

/// A new row adds its own figure and nothing else.
pub proof fn a_new_row_adds_its_figure<T>(rows: Seq<T>, new: T, worth: spec_fn(T) -> int)
    ensures
        total(rows.push(new), worth) == total(rows, worth) + worth(new),
{
    assert(rows.push(new).drop_last() =~= rows);
}

/// A row that changes moves a total by the difference of its figures.
pub proof fn a_changed_row_moves_the_total<T>(
    rows: Seq<T>,
    at: int,
    new: T,
    worth: spec_fn(T) -> int,
)
    requires
        0 <= at < rows.len(),
    ensures
        total(rows.update(at, new), worth) == total(rows, worth) - worth(rows[at]) + worth(new),
    decreases rows.len(),
{
    let changed = rows.update(at, new);
    if at == rows.len() - 1 {
        assert(changed.drop_last() =~= rows.drop_last());
    } else {
        assert(changed.drop_last() =~= rows.drop_last().update(at, new));
        a_changed_row_moves_the_total(rows.drop_last(), at, new, worth);
    }
}

/// Two totals over the same rows come to the total of what they add.
pub proof fn totals_add<T>(
    rows: Seq<T>,
    one: spec_fn(T) -> int,
    other: spec_fn(T) -> int,
    both: spec_fn(T) -> int,
)
    requires
        forall|r: T| #[trigger] both(r) == one(r) + other(r),
    ensures
        total(rows, both) == total(rows, one) + total(rows, other),
    decreases rows.len(),
{
    if rows.len() > 0 {
        totals_add(rows.drop_last(), one, other, both);
    }
}

/// A checked sum is the total of its figures. It is refused only where the
/// total leaves 64 bits on the way.
pub proof fn a_checked_sum_is_the_total<T>(
    rows: Seq<T>,
    figure: spec_fn(T) -> Option<i64>,
    worth: spec_fn(T) -> int,
)
    requires
        forall|r: T|
            #[trigger] worth(r) == (match figure(r) {
                Some(value) => value as int,
                None => 0,
            }),
    ensures
        running_sum(rows, figure) matches Some(value) ==> value == total(rows, worth),
        running_sum(rows, figure) is None ==> exists|n: int|
            0 <= n <= rows.len() && !fits(total(#[trigger] rows.take(n), worth)),
    decreases rows.len(),
{
    if rows.len() > 0 {
        let front = rows.drop_last();
        a_checked_sum_is_the_total(front, figure, worth);
        assert(worth(rows.last()) == worth(rows.last()));
        if running_sum(rows, figure) is None {
            if running_sum(front, figure) is None {
                let n = choose|n: int|
                    0 <= n <= front.len() && !fits(total(#[trigger] front.take(n), worth));
                assert(rows.take(n) =~= front.take(n));
            } else {
                assert(rows.take(rows.len() as int) =~= rows);
                assert(!fits(total(rows.take(rows.len() as int), worth)));
            }
        }
    }
}

/// What the chosen rows come to is what the table comes to where only they
/// count.
pub proof fn the_chosen_come_to_what_counts<T>(
    rows: Seq<T>,
    picked: spec_fn(T) -> bool,
    worth: spec_fn(T) -> int,
    counted: spec_fn(T) -> int,
)
    requires
        forall|r: T|
            #[trigger] counted(r) == (if picked(r) {
                worth(r)
            } else {
                0
            }),
    ensures
        total(chosen(rows, picked), worth) == total(rows, counted),
    decreases rows.len(),
{
    if rows.len() > 0 {
        the_chosen_come_to_what_counts(rows.drop_last(), picked, worth, counted);
        assert(counted(rows.last()) == counted(rows.last()));
        if picked(rows.last()) {
            assert(chosen(rows, picked).drop_last() =~= chosen(rows.drop_last(), picked));
        }
    }
}

/// A count is how many rows there are.
pub proof fn a_count_is_how_many<T>(
    rows: Seq<T>,
    counted: spec_fn(T) -> bool,
    wanted: spec_fn(T) -> bool,
)
    requires
        forall|r: T| #[trigger] wanted(r) == counted(r),
    ensures
        count(rows, counted) == how_many(rows, wanted),
    decreases rows.len(),
{
    if rows.len() > 0 {
        a_count_is_how_many(rows.drop_last(), counted, wanted);
        assert(wanted(rows.last()) == counted(rows.last()));
    }
}

// ---------------------------------------------------------------------------
// Listing
// ---------------------------------------------------------------------------

/// Whether a list holds the wanted rows of a table, each as often as it is
/// there, and none that should come before an earlier one.
pub open spec fn lists_exactly<T>(
    list: Seq<T>,
    rows: Seq<T>,
    wanted: spec_fn(T) -> bool,
    before: spec_fn(T, T) -> bool,
) -> bool {
    &&& forall|i: int| 0 <= i < list.len() ==> rows.contains(#[trigger] list[i]) && wanted(list[i])
    &&& forall|i: int|
        0 <= i < rows.len() && wanted(#[trigger] rows[i]) ==> list.contains(rows[i])
    &&& list.len() == how_many(rows, wanted)
    &&& forall|i: int, j: int|
        0 <= i < j < list.len() ==> !before(#[trigger] list[j], #[trigger] list[i])
}

/// What is chosen is what was there and meets the condition.
pub(crate) proof fn what_is_chosen_was_there<T>(rows: Seq<T>, wanted: spec_fn(T) -> bool, r: T)
    ensures
        chosen(rows, wanted).contains(r) <==> rows.contains(r) && wanted(r),
    decreases rows.len(),
{
    if rows.len() > 0 {
        let front = rows.drop_last();
        what_is_chosen_was_there(front, wanted, r);
        assert(rows =~= front.push(rows.last()));
        if rows.contains(r) && r != rows.last() {
            let i = choose|i: int| 0 <= i < rows.len() && rows[i] == r;
            assert(front[i] == r);
        }
        if front.contains(r) {
            let i = choose|i: int| 0 <= i < front.len() && front[i] == r;
            assert(rows[i] == r);
        }
        assert(rows[rows.len() - 1] == rows.last());
        let before = chosen(front, wanted);
        if wanted(rows.last()) {
            assert(before.push(rows.last())[before.len() as int] == rows.last());
            if before.contains(r) {
                let i = choose|i: int| 0 <= i < before.len() && before[i] == r;
                assert(before.push(rows.last())[i] == r);
            }
            if before.push(rows.last()).contains(r) && r != rows.last() {
                let i = choose|i: int|
                    0 <= i < before.push(rows.last()).len() && before.push(rows.last())[i] == r;
                assert(before[i] == r);
            }
        }
    }
}

pub(crate) proof fn choosing_is_complete<T>(
    rows: Seq<T>,
    picked: spec_fn(T) -> bool,
    wanted: spec_fn(T) -> bool,
)
    requires
        forall|r: T| #[trigger] wanted(r) == picked(r),
    ensures
        chosen(rows, picked).len() == how_many(rows, wanted),
        forall|i: int|
            0 <= i < rows.len() && wanted(#[trigger] rows[i]) ==> chosen(rows, picked).contains(
                rows[i],
            ),
    decreases rows.len(),
{
    if rows.len() > 0 {
        let front = rows.drop_last();
        choosing_is_complete(front, picked, wanted);
        assert(wanted(rows.last()) == picked(rows.last()));
        let found = chosen(rows, picked);
        assert forall|i: int| 0 <= i < rows.len() && wanted(#[trigger] rows[i]) implies found.contains(
            rows[i],
        ) by {
            if i < front.len() {
                assert(front[i] == rows[i]);
                let k = choose|k: int|
                    0 <= k < chosen(front, picked).len() && chosen(front, picked)[k] == front[i];
                assert(found[k] == rows[i]);
            } else {
                assert(found[found.len() - 1] == rows[i]);
            }
        }
    }
}

/// What is chosen and put in order is an exact list.
pub proof fn a_list_is_exact<T>(
    rows: Seq<T>,
    picked: spec_fn(T) -> bool,
    ranked: spec_fn(T, T) -> bool,
    wanted: spec_fn(T) -> bool,
    before: spec_fn(T, T) -> bool,
)
    requires
        ranks(ranked),
        forall|r: T| #[trigger] wanted(r) == picked(r),
        forall|a: T, b: T| #[trigger] before(a, b) == ranked(a, b),
    ensures
        lists_exactly(in_order(chosen(rows, picked), ranked), rows, wanted, before),
{
    broadcast use vstd::seq_lib::group_to_multiset_ensures;

    let some = chosen(rows, picked);
    let list = in_order(some, ranked);
    chosen_meet_the_condition(rows, picked);
    what_is_listed_is_there(rows, picked, ranked);
    what_is_listed_is_there(some, picked, ranked);
    choosing_is_complete(rows, picked, wanted);
    ordering_keeps_every_row(some, ranked);
    ordering_puts_in_order(some, ranked);
    assert(list.len() == list.to_multiset().len());
    assert(some.len() == some.to_multiset().len());
    assert forall|i: int| 0 <= i < list.len() implies rows.contains(#[trigger] list[i]) && wanted(
        list[i],
    ) by {
        assert(some.contains(list[i]));
        let k = choose|k: int| 0 <= k < some.len() && some[k] == list[i];
        assert(picked(some[k]));
        assert(wanted(list[i]) == picked(list[i]));
    }
    assert forall|i: int| 0 <= i < rows.len() && wanted(#[trigger] rows[i]) implies list.contains(
        rows[i],
    ) by {
        assert(some.contains(rows[i]));
        assert(some.to_multiset().count(rows[i]) > 0);
        assert(list.to_multiset().count(rows[i]) > 0);
    }
    assert forall|i: int, j: int| 0 <= i < j < list.len() implies !before(
        #[trigger] list[j],
        #[trigger] list[i],
    ) by {
        assert(before(list[j], list[i]) == ranked(list[j], list[i]));
    }
}

/// Putting rows in order that differ in some respect keeps all of them, and
/// keeps them apart.
pub proof fn sorting_keeps_rows_apart<T, K>(
    rows: Seq<T>,
    before: spec_fn(T, T) -> bool,
    respect: spec_fn(T) -> K,
)
    requires
        forall|i: int, j: int|
            0 <= i < j < rows.len() ==> respect(#[trigger] rows[i]) != respect(#[trigger] rows[j]),
    ensures
        in_order(rows, before).len() == rows.len(),
        forall|i: int|
            0 <= i < rows.len() ==> rows.contains(#[trigger] in_order(rows, before)[i]),
        forall|i: int| 0 <= i < rows.len() ==> in_order(rows, before).contains(#[trigger] rows[i]),
        forall|i: int, j: int|
            0 <= i < j < rows.len() ==> respect(#[trigger] in_order(rows, before)[i]) != respect(
                #[trigger] in_order(rows, before)[j],
            ),
{
    broadcast use vstd::seq_lib::group_to_multiset_ensures;

    let list = in_order(rows, before);
    ordering_keeps_every_row(rows, before);
    assert(list.len() == list.to_multiset().len());
    assert(rows.len() == rows.to_multiset().len());
    assert forall|i: int, j: int| 0 <= i < j < rows.len() implies rows[i] != rows[j] by {
        assert(respect(rows[i]) != respect(rows[j]));
    }
    assert(rows.no_duplicates());
    rows.lemma_multiset_has_no_duplicates();
    list.lemma_multiset_has_no_duplicates_conv();
    assert forall|i: int| 0 <= i < rows.len() implies rows.contains(#[trigger] list[i]) by {
        assert(list.contains(list[i]));
        assert(list.to_multiset().count(list[i]) > 0);
        assert(rows.to_multiset().count(list[i]) > 0);
    }
    assert forall|i: int| 0 <= i < rows.len() implies list.contains(#[trigger] rows[i]) by {
        assert(rows.contains(rows[i]));
        assert(rows.to_multiset().count(rows[i]) > 0);
        assert(list.to_multiset().count(rows[i]) > 0);
    }
    assert forall|i: int, j: int| 0 <= i < j < rows.len() implies respect(#[trigger] list[i])
        != respect(#[trigger] list[j]) by {
        let k = choose|k: int| 0 <= k < rows.len() && rows[k] == list[i];
        let n = choose|n: int| 0 <= n < rows.len() && rows[n] == list[j];
        assert(list[i] != list[j]);
        if k < n {
            assert(respect(rows[k]) != respect(rows[n]));
        } else {
            assert(respect(rows[n]) != respect(rows[k]));
        }
    }
}

/// A text says something unless it is blank: nothing but what is seen counts.
pub proof fn a_text_that_is_not_blank_says_something(text: Seq<char>)
    ensures
        says(text) == !is_blank(text),
{
    if says(text) {
        let i = choose|i: int| 0 <= i < text.len() && !is_white(#[trigger] text[i]);
        a_mark_is_not_blank(text, i);
    } else {
        blanks_are_skipped(text);
    }
}

proof fn blanks_are_skipped(text: Seq<char>)
    requires
        !says(text),
    ensures
        skip_white(text).len() == 0,
        trimmed(text).len() == 0,
    decreases text.len(),
{
    if text.len() > 0 {
        assert(is_white(text[0]));
        let rest = text.drop_first();
        assert forall|i: int| 0 <= i < rest.len() implies is_white(#[trigger] rest[i]) by {
            assert(rest[i] == text[i + 1]);
        }
        blanks_are_skipped(rest);
    }
}

/// Whether a row is the first wanted one of a table.
pub open spec fn comes_first<T>(found: T, rows: Seq<T>, wanted: spec_fn(T) -> bool) -> bool {
    exists|i: int|
        0 <= i < rows.len() && #[trigger] rows[i] == found && wanted(rows[i]) && (forall|k: int|
            0 <= k < i ==> !wanted(#[trigger] rows[k]))
}

/// The first of the chosen rows comes first.
pub proof fn the_first_chosen_comes_first<T>(
    rows: Seq<T>,
    picked: spec_fn(T) -> bool,
    wanted: spec_fn(T) -> bool,
)
    requires
        forall|r: T| #[trigger] wanted(r) == picked(r),
    ensures
        chosen(rows, picked).len() > 0 ==> comes_first(chosen(rows, picked)[0], rows, wanted),
        chosen(rows, picked).len() == 0 ==> forall|i: int|
            0 <= i < rows.len() ==> !wanted(#[trigger] rows[i]),
    decreases rows.len(),
{
    if rows.len() > 0 {
        let front = rows.drop_last();
        the_first_chosen_comes_first(front, picked, wanted);
        assert(wanted(rows.last()) == picked(rows.last()));
        if chosen(front, picked).len() > 0 {
            let found = chosen(front, picked)[0];
            assert(chosen(rows, picked)[0] == found);
            let i = choose|i: int|
                0 <= i < front.len() && #[trigger] front[i] == found && wanted(front[i]) && (forall|
                    k: int,
                |
                    0 <= k < i ==> !wanted(#[trigger] front[k]));
            assert(rows[i] == found);
            assert forall|k: int| 0 <= k < i implies !wanted(#[trigger] rows[k]) by {
                assert(front[k] == rows[k]);
            }
        } else {
            assert forall|k: int| 0 <= k < rows.len() - 1 implies !wanted(#[trigger] rows[k]) by {
                assert(front[k] == rows[k]);
            }
            if picked(rows.last()) {
                assert(rows[rows.len() - 1] == chosen(rows, picked)[0]);
            }
        }
    }
}

} // verus!

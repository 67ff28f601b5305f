//! How lists are ordered.
//!
//! Every list that the till shows is a table put in order by one of these
//! comparisons. Each of them ranks, so [`crate::table::ordering_puts_in_order`],
//! [`crate::table::ordering_keeps_level_rows`] and
//! [`crate::table::ordering_keeps_every_row`] say of every list that it is in
//! order, that rows which are level stay as they were written, and that no row
//! is lost or made up.

use vstd::prelude::*;

use crate::repo::{cash, catalogue, orders, purchases, receipts, shifts, staff, stock, tabs};
use crate::report;
use crate::table::ranks;
use crate::text::{text_before, text_before_is_an_order};
use crate::venue;

verus! {

proof fn texts_rank()
    ensures
        forall|a: Seq<char>, b: Seq<char>| #[trigger] text_before(a, b) ==> !text_before(b, a),
        forall|a: Seq<char>, b: Seq<char>, c: Seq<char>|
            #![trigger text_before(a, b), text_before(a, c)]
            #![trigger text_before(a, b), text_before(c, b)]
            text_before(a, b) ==> text_before(a, c) || text_before(c, b),
        forall|a: Seq<char>, b: Seq<char>|
            #![trigger text_before(a, b)]
            a != b ==> text_before(a, b) || text_before(b, a),
{
    assert forall|a: Seq<char>, b: Seq<char>| #[trigger] text_before(a, b) implies !text_before(
        b,
        a,
    ) by {
        text_before_is_an_order(a, b, a);
    }
    assert forall|a: Seq<char>, b: Seq<char>, c: Seq<char>|
        #![trigger text_before(a, b), text_before(a, c)]
        #![trigger text_before(a, b), text_before(c, b)]
        text_before(a, b) implies text_before(a, c) || text_before(c, b) by {
        text_before_is_an_order(a, c, b);
        text_before_is_an_order(c, a, b);
    }
    assert forall|a: Seq<char>, b: Seq<char>|
        #![trigger text_before(a, b)]
        a != b implies text_before(a, b) || text_before(b, a) by {
        text_before_is_an_order(a, b, b);
    }
}

/// Everything that is listed by a moment or a number ranks: shifts, tabs,
/// orders and their lines, frozen corrections, receipts and their attempts,
/// allocations, drawer entries, deliveries, and what runs low.
pub proof fn what_is_listed_by_number_ranks()
    ensures
        ranks(shifts::opened_later()),
        ranks(tabs::shown_before()),
        ranks(orders::rung_before()),
        ranks(orders::written_before()),
        ranks(orders::frozen_before()),
        ranks(receipts::numbered_before()),
        ranks(receipts::created_before()),
        ranks(receipts::tried_before()),
        ranks(receipts::attempted_before()),
        ranks(cash::allocated_before()),
        ranks(cash::entered_before()),
        ranks(purchases::received_later()),
        ranks(stock::scarcer()),
{
}

/// Everything that is listed by name ranks: people, products, the menu, and
/// what a night's report lists.
pub proof fn what_is_listed_by_name_ranks()
    ensures
        ranks(staff::listed_before()),
        ranks(catalogue::shelved_before()),
        ranks(catalogue::offered_before()),
        ranks(venue::shown_before()),
        ranks(venue::entered_before()),
        ranks(report::named_before()),
        ranks(report::worth_more()),
{
    texts_rank();
}

} // verus!

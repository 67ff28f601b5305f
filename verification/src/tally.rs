//! Amounts per product, in the order of the product's identity.
//!
//! A tally is what a whole order, a whole correction or a whole night comes to
//! once the same product has been added up wherever it appears.

use vstd::prelude::*;

verus! {

/// One product and how much of it there is.
#[derive(Clone, Copy, Debug, PartialEq, Eq, Structural)]
pub struct Tallied {
    pub product_id: i64,
    pub amount: i128,
}

/// A tally, over numbers.
pub open spec fn figures(entries: Seq<Tallied>) -> Seq<(i64, int)> {
    entries.map_values(|e: Tallied| (e.product_id, e.amount as int))
}

/// A tally with some more of one product. Products stand in ascending order.
pub open spec fn added(entries: Seq<(i64, int)>, product_id: i64, amount: int) -> Seq<(i64, int)>
    decreases entries.len(),
{
    if entries.len() == 0 {
        seq![(product_id, amount)]
    } else if entries[0].0 == product_id {
        seq![(product_id, entries[0].1 + amount)] + entries.drop_first()
    } else if product_id < entries[0].0 {
        seq![(product_id, amount)] + entries
    } else {
        seq![entries[0]] + added(entries.drop_first(), product_id, amount)
    }
}

/// How much of a product a tally holds; nothing, where it is not in it.
pub open spec fn amount_of(entries: Seq<(i64, int)>, product_id: i64) -> int
    decreases entries.len(),
{
    if entries.len() == 0 {
        0
    } else if entries[0].0 == product_id {
        entries[0].1
    } else {
        amount_of(entries.drop_first(), product_id)
    }
}

/// Whether a product is in a tally.
pub open spec fn lists(entries: Seq<(i64, int)>, product_id: i64) -> bool {
    exists|i: int| 0 <= i < entries.len() && (#[trigger] entries[i]).0 == product_id
}

/// Whether products stand in ascending order, each once.
pub open spec fn ascending(entries: Seq<(i64, int)>) -> bool {
    forall|i: int, j: int|
        0 <= i < j < entries.len() ==> (#[trigger] entries[i]).0 < (#[trigger] entries[j]).0
}

/// Whether 128 bits hold a number.
pub open spec fn fits_wide(n: int) -> bool {
    i128::MIN <= n <= i128::MAX
}

/// How much of a product a tally holds.
pub fn amount(entries: &Vec<Tallied>, product_id: i64) -> (result: i128)
    ensures
        result == amount_of(figures(entries@), product_id),
{
    let mut i: usize = 0;
    let ghost all = figures(entries@);
    assert(all.skip(0) =~= all);
    while i < entries.len()
        invariant
            i <= entries.len(),
            all == figures(entries@),
            amount_of(all, product_id) == amount_of(all.skip(i as int), product_id),
        decreases entries.len() - i,
    {
        assert(all.skip(i as int)[0] == all[i as int]);
        if entries[i].product_id == product_id {
            return entries[i].amount;
        }
        assert(all.skip(i as int).drop_first() =~= all.skip(i + 1));
        i = i + 1;
    }
    0
}

/// Adds to a tally, unless the amount would leave 128 bits.
pub fn tally(entries: &mut Vec<Tallied>, product_id: i64, amount: i128) -> (result: bool)
    ensures
        result ==> figures(final(entries)@) == added(
            figures(old(entries)@),
            product_id,
            amount as int,
        ),
        !result ==> final(entries)@ == old(entries)@,
        ascending(figures(old(entries)@)) ==> result == fits_wide(
            amount_of(figures(old(entries)@), product_id) + amount,
        ),
{
    let ghost all = figures(entries@);
    let mut at: usize = 0;
    assert(all.skip(0) =~= all);
    assert(all.take(0) =~= Seq::<(i64, int)>::empty());
    assert(added(all, product_id, amount as int) =~= all.take(0) + added(
        all.skip(0),
        product_id,
        amount as int,
    ));
    while at < entries.len() && entries[at].product_id < product_id
        invariant
            at <= entries.len(),
            entries@ == old(entries)@,
            all == figures(entries@),
            added(all, product_id, amount as int) == all.take(at as int) + added(
                all.skip(at as int),
                product_id,
                amount as int,
            ),
            amount_of(all, product_id) == amount_of(all.skip(at as int), product_id),
        decreases entries.len() - at,
    {
        proof {
            let rest = all.skip(at as int);
            assert(rest[0] == all[at as int]);
            assert(rest.drop_first() =~= all.skip(at + 1));
            assert(all.take(at as int) + (seq![rest[0]] + added(
                all.skip(at + 1),
                product_id,
                amount as int,
            )) =~= all.take(at + 1) + added(all.skip(at + 1), product_id, amount as int));
        }
        at = at + 1;
    }
    let ghost rest = all.skip(at as int);
    if at < entries.len() && entries[at].product_id == product_id {
        assert(rest[0] == all[at as int]);
        let so_far: i128 = entries[at].amount;
        match so_far.checked_add(amount) {
            Some(total) => {
                entries.set(at, Tallied { product_id, amount: total });
                assert(figures(entries@) =~= all.take(at as int) + (seq![
                    (product_id, so_far + amount),
                ] + rest.drop_first()));
                true
            },
            None => false,
        }
    } else {
        proof {
            if at < all.len() {
                assert(rest[0] == all[at as int]);
            }
            if ascending(all) {
                not_listed_after(rest, product_id);
            }
        }
        entries.insert(at, Tallied { product_id, amount });
        assert(figures(entries@) =~= all.take(at as int) + (seq![(product_id, amount as int)]
            + rest));
        assert(rest.len() == 0 ==> seq![(product_id, amount as int)] + rest =~= seq![
            (product_id, amount as int),
        ]);
        true
    }
}

proof fn not_listed_after(rest: Seq<(i64, int)>, product_id: i64)
    requires
        ascending(rest),
        rest.len() > 0 ==> product_id < rest[0].0,
    ensures
        amount_of(rest, product_id) == 0,
    decreases rest.len(),
{
    if rest.len() > 0 {
        let next = rest.drop_first();
        assert(forall|i: int| 0 <= i < next.len() ==> #[trigger] next[i] == rest[i + 1]);
        if next.len() > 0 {
            assert(next[0] == rest[1]);
        }
        not_listed_after(next, product_id);
    }
}

/// Adding to one product adds that much to it, and nothing to any other.
pub proof fn adding_adds(entries: Seq<(i64, int)>, product_id: i64, amount: int, other: i64)
    requires
        ascending(entries),
    ensures
        amount_of(added(entries, product_id, amount), other) == amount_of(entries, other) + (
        if other == product_id {
            amount
        } else {
            0
        }),
        lists(added(entries, product_id, amount), other) <==> lists(entries, other) || other
            == product_id,
        ascending(added(entries, product_id, amount)),
    decreases entries.len(),
{
    let after = added(entries, product_id, amount);
    if entries.len() == 0 {
        reveal_with_fuel(amount_of, 2);
        assert(after.drop_first() =~= Seq::<(i64, int)>::empty());
        assert(after[0].0 == product_id);
    } else {
        let rest = entries.drop_first();
        assert(forall|i: int| 0 <= i < rest.len() ==> #[trigger] rest[i] == entries[i + 1]);
        if entries[0].0 == product_id {
            assert(after.drop_first() =~= rest);
            assert(after[0].0 == product_id);
            assert(forall|i: int| 1 <= i < after.len() ==> #[trigger] after[i] == entries[i]);
            if other == product_id {
            } else {
                if lists(entries, other) {
                    let i = choose|i: int|
                        0 <= i < entries.len() && (#[trigger] entries[i]).0 == other;
                    assert(after[i].0 == other);
                }
                if lists(after, other) {
                    let i = choose|i: int| 0 <= i < after.len() && (#[trigger] after[i]).0 == other;
                    assert(entries[i].0 == other);
                }
            }
        } else if product_id < entries[0].0 {
            not_listed_after(entries, product_id);
            assert(after.drop_first() =~= entries);
            assert(after[0].0 == product_id);
            assert(forall|i: int| 1 <= i < after.len() ==> #[trigger] after[i] == entries[i - 1]);
            if lists(entries, other) {
                let i = choose|i: int|
                    0 <= i < entries.len() && (#[trigger] entries[i]).0 == other;
                assert(after[i + 1].0 == other);
            }
            if lists(after, other) && other != product_id {
                let i = choose|i: int| 0 <= i < after.len() && (#[trigger] after[i]).0 == other;
                assert(entries[i - 1].0 == other);
            }
        } else {
            adding_adds(rest, product_id, amount, other);
            adding_adds(rest, product_id, amount, product_id);
            let more = added(rest, product_id, amount);
            assert(after.drop_first() =~= more);
            assert(after[0] == entries[0]);
            assert(forall|i: int| 1 <= i < after.len() ==> #[trigger] after[i] == more[i - 1]);
            assert forall|i: int| 0 <= i < more.len() implies entries[0].0 < (
            #[trigger] more[i]).0 by {
                adding_adds(rest, product_id, amount, more[i].0);
                assert(lists(more, more[i].0));
                if more[i].0 != product_id {
                    let k = choose|k: int|
                        0 <= k < rest.len() && (#[trigger] rest[k]).0 == more[i].0;
                    assert(rest[k] == entries[k + 1]);
                }
            }
            if lists(entries, other) {
                let i = choose|i: int|
                    0 <= i < entries.len() && (#[trigger] entries[i]).0 == other;
                if i == 0 {
                    assert(after[0].0 == other);
                } else {
                    assert(rest[i - 1].0 == other);
                    let k = choose|k: int| 0 <= k < more.len() && (#[trigger] more[k]).0 == other;
                    assert(after[k + 1].0 == other);
                }
            }
            if other == product_id {
                let k = choose|k: int| 0 <= k < more.len() && (#[trigger] more[k]).0 == other;
                assert(after[k + 1].0 == other);
            }
            if lists(after, other) && other != product_id {
                let i = choose|i: int| 0 <= i < after.len() && (#[trigger] after[i]).0 == other;
                if i == 0 {
                    assert(entries[0].0 == other);
                } else {
                    assert(more[i - 1].0 == other);
                    let k = choose|k: int| 0 <= k < rest.len() && (#[trigger] rest[k]).0 == other;
                    assert(entries[k + 1].0 == other);
                }
            }
        }
    }
}

} // verus!

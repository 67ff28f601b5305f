//! The risky parts of trading, each all or nothing.
//!
//! A numbered issue slip is prepared before the printer is asked for anything,
//! and what follows from its print, stock and audit, is written together. An
//! action that is refused leaves the store as it was.

use vstd::prelude::*;

use crate::ledger::{self, AuditEntry, Event};
use crate::money::{fits, Milli};
use crate::printing::{a_slip_starts_with_its_number, render_issue, slip_head, slip_text, slip_view};
use crate::repo::catalogue;
use crate::repo::orders::{
    self, expanded_products, issuing_refusal, join, joined, order_products, printing_refusal,
    return_refusal, takes_orders, tidy, undecided, Order,
};
use crate::repo::receipts::{
    self, attempts_refusal, attempts_written, check_attempts, check_slip, every_slip_belongs,
    is_part, issuable, of_receipt, receipts_of, resolve_slips, route, route_at, routed,
    slip_belongs, slip_for, slip_refusal, slips_are_right, slips_match, slips_resolved, waits,
    write_attempts, Destination, FinalOutcome, Receipt, Stage,
};
use crate::repo::seq::{printed, Counter};
use crate::repo::staff::{self, is_active_cashier, person};
use crate::repo::stock::{
    self, shortage_message, shortage_sentence, shortfall_of, shorts, Movement, Shortage,
    StockMovement,
};
use crate::repo::tabs::{self, chars_in, tab, Tab};
use crate::repo::{refused, RepoError, SqlError, SqlWhy, Why};
use crate::store::{ledgers_kept, Store};
use crate::table::{
    any, any_row, changing_keeps_places, count, count_rows, find_place, fresh_id, has_room,
    largest_id, next_id, place, room_for, row, writing_keeps_places, writing_takes_one_identity,
    Row,
};
use crate::tally::{adding_adds, amount_of, ascending, figures, Tallied};
use crate::text::{a_mark_is_not_blank, int_text, join2, join3, number_text, same};

verus! {

/// What a handwritten chit is recorded with.
pub const HANDWRITTEN_REASON: &'static str = "Printer failed; handwritten chit authorised";

/// An order that went to print, with its slips.
#[derive(Debug, PartialEq, Eq)]
pub struct PreparedIssue {
    pub order: Order,
    pub receipts: Vec<Receipt>,
}

/// An order that was issued, with its slips.
#[derive(Debug, PartialEq, Eq)]
pub struct CompletedIssue {
    pub order: Order,
    pub receipts: Vec<Receipt>,
}

/// Why an action was refused.
#[derive(Debug)]
pub enum TradingError {
    Repo(RepoError),
    Audit(RepoError),
    /// Paper may already authorise a pour, while nothing was written down. This
    /// is deliberately not an ordinary error to try again: the order still
    /// prints, and must go through recovery first.
    IssuePrintPending { order_id: i64, reason: String },
}

/// [`TradingError`], over characters.
pub enum TradingWhy {
    Repo(Why),
    Audit(Why),
    IssuePrintPending { order_id: i64, reason: Seq<char> },
}

impl View for TradingError {
    type V = TradingWhy;

    open spec fn view(&self) -> TradingWhy {
        match self {
            TradingError::Repo(error) => TradingWhy::Repo(error@),
            TradingError::Audit(error) => TradingWhy::Audit(error@),
            TradingError::IssuePrintPending { order_id, reason } => TradingWhy::IssuePrintPending {
                order_id: *order_id,
                reason: reason@,
            },
        }
    }
}

impl TradingWhy {
    pub open spec fn message(self) -> Seq<char> {
        match self {
            TradingWhy::Repo(why) => why.message(),
            TradingWhy::Audit(why) => "audit: "@ + why.message(),
            TradingWhy::IssuePrintPending { order_id, reason } => "issue print for order "@
                + int_text(order_id as int) + " remains pending: "@ + reason,
        }
    }
}

impl TradingError {
    /// What the till shows.
    pub fn message(&self) -> (result: String)
        ensures
            result@ == self@.message(),
    {
        match self {
            TradingError::Repo(error) => error.message(),
            TradingError::Audit(error) => join2("audit: ", error.message().as_str()),
            TradingError::IssuePrintPending { order_id, reason } => {
                let start: String = join3(
                    "issue print for order ",
                    number_text(*order_id).as_str(),
                    " remains pending: ",
                );
                join2(start.as_str(), reason.as_str())
            },
        }
    }
}

fn reject<T>(message: &str) -> (result: Result<T, TradingError>)
    ensures
        result matches Err(error) && error@ == TradingWhy::Repo(Why::Refused(message@)),
{
    Err(TradingError::Repo(refused(message)))
}

fn issue_print_pending(order_id: i64, error: TradingError) -> (result: TradingError)
    ensures
        result@ == (TradingWhy::IssuePrintPending { order_id, reason: error@.message() }),
{
    TradingError::IssuePrintPending { order_id, reason: error.message() }
}

// ---------------------------------------------------------------------------
// Availability
// ---------------------------------------------------------------------------

/// What is wanted, together with what every printing order has reserved.
pub open spec fn with_reserved(db: Store, wanted: Seq<(i64, int)>, orders: Seq<Order>) -> Result<
    Seq<(i64, int)>,
    Why,
>
    decreases orders.len(),
{
    if orders.len() == 0 {
        Ok(wanted)
    } else {
        match with_reserved(db, wanted, orders.drop_last()) {
            Err(why) => Err(why),
            Ok(so_far) => if orders.last().status != orders::Status::Printing {
                Ok(so_far)
            } else {
                match order_products(db, orders.last().id) {
                    Err(why) => Err(why),
                    Ok(more) => match joined(so_far, more) {
                        Some(entries) => Ok(entries),
                        None => Err(
                            Why::Refused("reserved stock is too large to total safely"@),
                        ),
                    },
                }
            },
        }
    }
}

/// The products of a tally that are wanted at all.
pub open spec fn claims(entries: Seq<(i64, int)>) -> Seq<(i64, Milli)>
    decreases entries.len(),
{
    if entries.len() == 0 {
        Seq::empty()
    } else {
        let before = claims(entries.drop_last());
        if entries.last().1 == 0 {
            before
        } else {
            before.push((entries.last().0, Milli { thousandths: entries.last().1 as i64 }))
        }
    }
}

/// Why what is wanted cannot be had; nothing, where the shelf covers it and
/// everything that is reserved.
pub open spec fn availability_refusal(db: Store, wanted: Seq<(i64, int)>) -> Option<Why> {
    match with_reserved(db, wanted, db.orders@) {
        Err(why) => Some(why),
        Ok(entries) => match shortfall_of(db, claims(entries)) {
            Err(why) => Some(why),
            Ok(found) => if found.len() > 0 {
                Some(Why::Refused(shortage_sentence(found)))
            } else {
                None
            },
        },
    }
}

proof fn reserving_fails_onward(db: Store, wanted: Seq<(i64, int)>, orders: Seq<Order>, n: int)
    requires
        0 <= n <= orders.len(),
    ensures
        with_reserved(db, wanted, orders.take(n)) matches Err(why) ==> with_reserved(
            db,
            wanted,
            orders,
        ) == Err::<Seq<(i64, int)>, Why>(why),
    decreases orders.len() - n,
{
    if n == orders.len() {
        assert(orders.take(n) =~= orders);
    } else {
        assert(orders.take(n + 1).drop_last() =~= orders.take(n));
        reserving_fails_onward(db, wanted, orders, n + 1);
    }
}

fn claimed(entries: &Vec<Tallied>) -> (result: Vec<(i64, Milli)>)
    requires
        tidy(figures(entries@)),
    ensures
        result@ == claims(figures(entries@)),
{
    let ghost all = figures(entries@);
    let mut result: Vec<(i64, Milli)> = Vec::new();
    let mut i: usize = 0;
    while i < entries.len()
        invariant
            i <= entries.len(),
            all == figures(entries@),
            tidy(all),
            result@ == claims(all.take(i as int)),
        decreases entries.len() - i,
    {
        assert(all.take(i + 1).drop_last() =~= all.take(i as int));
        assert(all.take(i + 1).last() == all[i as int]);
        assert(fits(all[i as int].1));
        if entries[i].amount != 0 {
            result.push(
                (entries[i].product_id, Milli::from_thousandths(entries[i].amount as i64)),
            );
        }
        i = i + 1;
    }
    assert(all.take(all.len() as int) =~= all);
    result
}

/// Holds what is wanted, and what every printing order has reserved, against
/// the shelf.
pub(crate) fn ensure_available_with_printing(db: &Store, wanted: Vec<Tallied>) -> (result: Result<
    (),
    RepoError,
>)
    requires
        tidy(figures(wanted@)),
    ensures
        match availability_refusal(*db, figures(wanted@)) {
            None => result is Ok,
            Some(why) => result matches Err(error) && error@ == why,
        },
{
    let ghost start = figures(wanted@);
    let mut totals: Vec<Tallied> = wanted;
    let mut i: usize = 0;
    assert(db.orders@.take(0) =~= Seq::<Order>::empty());
    while i < db.orders.len()
        invariant
            i <= db.orders.len(),
            start == figures(wanted@),
            tidy(figures(totals@)),
            with_reserved(*db, start, db.orders@.take(i as int)) == Ok::<Seq<(i64, int)>, Why>(
                figures(totals@),
            ),
        decreases db.orders.len() - i,
    {
        proof {
            assert(db.orders@.take(i + 1).drop_last() =~= db.orders@.take(i as int));
            assert(db.orders@.take(i + 1).last() == db.orders@[i as int]);
            reserving_fails_onward(*db, start, db.orders@, i + 1);
        }
        if db.orders[i].status == orders::Status::Printing {
            match expanded_products(db, db.orders[i].id) {
                Ok(more) => {
                    if !join(&mut totals, &more) {
                        return Err(refused("reserved stock is too large to total safely"));
                    }
                },
                Err(error) => {
                    return Err(error);
                },
            }
        }
        i = i + 1;
    }
    assert(db.orders@.take(db.orders@.len() as int) =~= db.orders@);
    let claims: Vec<(i64, Milli)> = claimed(&totals);
    let found: Vec<Shortage> = match stock::shortages(db, claims.as_slice()) {
        Ok(found) => found,
        Err(error) => {
            return Err(error);
        },
    };
    assert(shorts(found@).len() == found@.len());
    if found.len() > 0 {
        return Err(refused(shortage_message(found.as_slice()).as_str()));
    }
    Ok(())
}

// ---------------------------------------------------------------------------
// Slips
// ---------------------------------------------------------------------------

/// Why the products of an order cannot be put on slips; nothing, where they
/// can.
pub open spec fn grouping_refusal(db: Store, entries: Seq<(i64, int)>, n: int) -> Option<Why>
    decreases n,
{
    if n <= 0 {
        None
    } else {
        match grouping_refusal(db, entries, n - 1) {
            Some(why) => Some(why),
            None => if entries[n - 1].1 == 0 {
                None
            } else {
                match row(db.products@, entries[n - 1].0) {
                    None => Some(Why::Missing("product"@)),
                    Some(listed) => if listed.product.destination@ == "BAR"@
                        || listed.product.destination@ == "KITCHEN"@ {
                        None
                    } else {
                        Some(
                            Why::Refused(
                                "product "@ + listed.product.code@ + " has an unknown destination "@
                                    + listed.product.destination@,
                            ),
                        )
                    },
                }
            },
        }
    }
}

/// What a destination hands over for a tally: its own products, in order, but
/// for a measure that rounds away.
pub open spec fn handed_over(db: Store, entries: Seq<(i64, int)>, word: Seq<char>) -> Seq<
    (Seq<char>, int),
>
    decreases entries.len(),
{
    if entries.len() == 0 {
        Seq::empty()
    } else {
        let before = handed_over(db, entries.drop_last(), word);
        let (product_id, quantity) = entries.last();
        match row(db.products@, product_id) {
            Some(listed) => if quantity != 0 && listed.product.destination@ == word {
                before.push((listed.product.name@, quantity))
            } else {
                before
            },
            None => before,
        }
    }
}

/// What goes on the slips of an order.
pub struct Slips {
    pub bar: Vec<(String, i64)>,
    pub kitchen: Vec<(String, i64)>,
}

/// Why the slips of an order cannot be made out; nothing, where they can.
pub open spec fn slips_refusal(db: Store, order_id: i64) -> Option<Why> {
    match order_products(db, order_id) {
        Err(why) => Some(why),
        Ok(entries) => match grouping_refusal(db, entries, entries.len() as int) {
            Some(why) => Some(why),
            None => if handed_over(db, entries, "BAR"@).len() == 0 && handed_over(
                db,
                entries,
                "KITCHEN"@,
            ).len() == 0 {
                Some(Why::Refused("an issue needs at least one order line"@))
            } else {
                None
            },
        },
    }
}

proof fn grouping_fails_onward(db: Store, entries: Seq<(i64, int)>, n: int, m: int)
    requires
        0 <= n <= m,
    ensures
        grouping_refusal(db, entries, n) is Some ==> grouping_refusal(db, entries, m)
            == grouping_refusal(db, entries, n),
    decreases m - n,
{
    if n < m {
        grouping_fails_onward(db, entries, n, m - 1);
    }
}

/// One slip per destination that actually has something to hand over, listing
/// the products that destination pours or plates.
fn destination_slips(db: &Store, order_id: i64) -> (result: Result<Slips, RepoError>)
    ensures
        match slips_refusal(*db, order_id) {
            Some(why) => result matches Err(error) && error@ == why,
            None => result matches Ok(slips) && (order_products(*db, order_id) matches Ok(entries)
                && slip_view(slips.bar@) == handed_over(*db, entries, "BAR"@) && slip_view(
                slips.kitchen@,
            ) == handed_over(*db, entries, "KITCHEN"@)),
        },
{
    let products: Vec<Tallied> = match expanded_products(db, order_id) {
        Ok(products) => products,
        Err(error) => {
            return Err(error);
        },
    };
    let ghost all = figures(products@);
    let mut bar: Vec<(String, i64)> = Vec::new();
    let mut kitchen: Vec<(String, i64)> = Vec::new();
    let mut i: usize = 0;
    proof {
        reveal_strlit("BAR");
        reveal_strlit("KITCHEN");
        assert("BAR"@.len() != "KITCHEN"@.len());
        assert(all.take(0) =~= Seq::<(i64, int)>::empty());
        assert(slip_view(bar@) =~= Seq::<(Seq<char>, int)>::empty());
        assert(slip_view(kitchen@) =~= Seq::<(Seq<char>, int)>::empty());
    }
    while i < products.len()
        invariant
            i <= products.len(),
            all == figures(products@),
            tidy(all),
            "BAR"@ != "KITCHEN"@,
            order_products(*db, order_id) == Ok::<Seq<(i64, int)>, Why>(all),
            grouping_refusal(*db, all, i as int) is None,
            slip_view(bar@) == handed_over(*db, all.take(i as int), "BAR"@),
            slip_view(kitchen@) == handed_over(*db, all.take(i as int), "KITCHEN"@),
        decreases products.len() - i,
    {
        proof {
            assert(all.take(i + 1).drop_last() =~= all.take(i as int));
            assert(all.take(i + 1).last() == all[i as int]);
            assert(fits(all[i as int].1));
            grouping_fails_onward(*db, all, i + 1, all.len() as int);
        }
        if products[i].amount != 0 {
            let p: usize = match find_place(&db.products, products[i].product_id) {
                Some(p) => p,
                None => {
                    return Err(RepoError::Missing { what: "product" });
                },
            };
            let line: (String, i64) = (
                db.products[p].product.name.clone(),
                products[i].amount as i64,
            );
            let destination: &str = db.products[p].product.destination.as_str();
            let ghost bar_before = slip_view(bar@);
            let ghost kitchen_before = slip_view(kitchen@);
            let ghost shown = (line.0@, line.1 as int);
            if same(destination, "BAR") {
                bar.push(line);
                assert(slip_view(bar@) =~= bar_before.push(shown));
            } else if same(destination, "KITCHEN") {
                kitchen.push(line);
                assert(slip_view(kitchen@) =~= kitchen_before.push(shown));
            } else {
                let start: String = join3(
                    "product ",
                    db.products[p].product.code.as_str(),
                    " has an unknown destination ",
                );
                return Err(refused(join2(start.as_str(), destination).as_str()));
            }
        }
        i = i + 1;
    }
    assert(all.take(all.len() as int) =~= all);
    assert(slip_view(bar@).len() == bar@.len());
    assert(slip_view(kitchen@).len() == kitchen@.len());
    if bar.len() == 0 && kitchen.len() == 0 {
        return Err(refused("an issue needs at least one order line"));
    }
    Ok(Slips { bar, kitchen })
}

// ---------------------------------------------------------------------------
// Before the printer
// ---------------------------------------------------------------------------

/// Whether a destination has its slip: one that waits already, or one that is
/// being made.
pub open spec fn slip_at_hand(
    db: Store,
    order_id: i64,
    word: Seq<char>,
    bar: bool,
    kitchen: bool,
) -> bool {
    ||| bar && word == "BAR"@
    ||| kitchen && word == "KITCHEN"@
    ||| any(db.receipts@, slip_for(order_id, word, Stage::Waiting))
}

/// Whether the slips of an order, with those that are being made, are exactly
/// the ones it needs.
pub open spec fn slips_will_match(db: Store, order_id: i64, bar: bool, kitchen: bool) -> bool {
    &&& forall|i: int, j: int|
        (#[trigger] route(db, order_id, i, j)) is Some ==> slip_at_hand(
            db,
            order_id,
            route(db, order_id, i, j)->0,
            bar,
            kitchen,
        )
    &&& every_slip_belongs(db, order_id, Stage::Waiting)
}

fn slips_are_coming(db: &Store, order_id: i64, bar: bool, kitchen: bool) -> (result: bool)
    ensures
        result == slips_will_match(*db, order_id, bar, kitchen),
{
    let mut i: usize = 0;
    while i < db.order_lines.len()
        invariant
            i <= db.order_lines.len(),
            forall|a: int, b: int|
                0 <= a < i && (#[trigger] route(*db, order_id, a, b)) is Some ==> slip_at_hand(
                    *db,
                    order_id,
                    route(*db, order_id, a, b)->0,
                    bar,
                    kitchen,
                ),
        decreases db.order_lines.len() - i,
    {
        let mut j: usize = 0;
        while j < db.recipe_lines.len()
            invariant
                i < db.order_lines.len(),
                j <= db.recipe_lines.len(),
                forall|b: int|
                    0 <= b < j && (#[trigger] route(*db, order_id, i as int, b)) is Some
                        ==> slip_at_hand(
                        *db,
                        order_id,
                        route(*db, order_id, i as int, b)->0,
                        bar,
                        kitchen,
                    ),
            decreases db.recipe_lines.len() - j,
        {
            if let Some(word) = route_at(db, order_id, i, j) {
                let coming: bool = (bar && same(word.as_str(), "BAR")) || (kitchen && same(
                    word.as_str(),
                    "KITCHEN",
                ));
                if !coming && !receipts::has_slip(db, order_id, word.as_str(), Stage::Waiting) {
                    assert(route(*db, order_id, i as int, j as int) == Some(word@));
                    return false;
                }
            }
            j = j + 1;
        }
        i = i + 1;
    }
    receipts::slips_belong(db, order_id, Stage::Waiting)
}

/// Why the paper of an order cannot be prepared; nothing, where it can.
pub open spec fn paper_refusal(db: Store, order_id: i64, bar: bool, kitchen: bool) -> Option<Why> {
    let first = if bar {
        slip_refusal(db, order_id, Destination::Bar, 0)
    } else {
        None
    };
    let second = if kitchen {
        slip_refusal(
            db,
            order_id,
            Destination::Kitchen,
            if bar {
                1
            } else {
                0
            },
        )
    } else {
        None
    };
    if first is Some {
        first
    } else if second is Some {
        second
    } else if !slips_will_match(db, order_id, bar, kitchen) {
        Some(Why::Refused("printing needs an open tab and a pending issue receipt"@))
    } else {
        None
    }
}

/// What the bar hands over for an order.
pub open spec fn bar_lines(db: Store, order_id: i64) -> Seq<(Seq<char>, int)> {
    handed_over(db, order_products(db, order_id)->Ok_0, "BAR"@)
}

/// What the kitchen hands over for an order.
pub open spec fn kitchen_lines(db: Store, order_id: i64) -> Seq<(Seq<char>, int)> {
    handed_over(db, order_products(db, order_id)->Ok_0, "KITCHEN"@)
}

/// Why a draft cannot be prepared for printing; nothing, where it can.
pub open spec fn prepare_refusal(db: Store, order_id: i64, cashier_id: i64) -> Option<Why> {
    match row(db.orders@, order_id) {
        None => Some(Why::Missing("order"@)),
        Some(order) => if order.cashier_id != cashier_id {
            Some(Why::Refused("only the cashier who rang the draft may issue it"@))
        } else if order.status != orders::Status::Draft {
            Some(Why::Refused("only a draft can be prepared for printing"@))
        } else {
            match order_products(db, order_id) {
                Err(why) => Some(why),
                Ok(entries) => match availability_refusal(db, entries) {
                    Some(why) => Some(why),
                    None => match slips_refusal(db, order_id) {
                        Some(why) => Some(why),
                        None => if tab(db, order.tab_id) is None {
                            Some(Why::Missing("tab"@))
                        } else if person(db, order.waiter_id) is None {
                            Some(Why::Missing("person"@))
                        } else {
                            paper_refusal(
                                db,
                                order_id,
                                bar_lines(db, order_id).len() > 0,
                                kitchen_lines(db, order_id).len() > 0,
                            )
                        },
                    },
                },
            }
        },
    }
}

/// Whether a receipt is the `nth` slip that was made for an order, with its
/// text frozen.
pub open spec fn slip_says(
    receipt: Receipt,
    db: Store,
    order: Order,
    destination: Destination,
    lines: Seq<(Seq<char>, int)>,
    nth: int,
    at: i64,
) -> bool {
    let number = db.sequences.upcoming(Counter::IssueReceipt) + nth;
    &&& receipt.id == largest_id(db.receipts@) + 1 + nth
    &&& receipt.kind == receipts::Kind::Issue
    &&& receipt.sequence_no == number
    &&& receipt.receipt_number@ == printed(Counter::IssueReceipt, number as i64)
    &&& receipt.order_id == Some(order.id)
    &&& receipt.tab_id is None
    &&& receipt.destination == Some(destination)
    &&& receipt.status == receipts::Status::Pending
    &&& tab(db, order.tab_id) matches Some(found) && (person(db, order.waiter_id) matches Some(
        waiter,
    ) && ({
        &&& receipt.waiter_name == waiter.name
        &&& chars_in(receipt.rendered_text) == Some(
            slip_text(
                slip_head(
                    receipt.receipt_number@,
                    destination,
                    found.code@,
                    found.display_label@,
                    waiter.name@,
                ),
                lines,
            ),
        )
    }))
    &&& receipt.cashier_name is None
    &&& receipt.customer_tin is None
    &&& receipt.subtotal is None
    &&& receipt.service_charge is None
    &&& receipt.tax is None
    &&& receipt.total is None
    &&& receipt.tax_rate is None
    &&& receipt.service_rate is None
    &&& receipt.tax_inclusive is None
    &&& !receipt.is_comped
    &&& receipt.shift_id == order.shift_id
    &&& receipt.created_at == at
    &&& receipt.printed_at is None
}

/// Makes one slip: takes its number, renders it, freezes its text.
fn make_slip(
    db: &mut Store,
    order: &Order,
    destination: Destination,
    found: &Tab,
    waiter: &str,
    lines: &Vec<(String, i64)>,
    at: i64,
) -> (result: Result<Receipt, RepoError>)
    requires
        slip_refusal(*old(db), order.id, destination, 0) is None,
        row(old(db).orders@, order.id) == Some(*order),
        tab(*old(db), order.tab_id) == Some(*found),
        person(*old(db), order.waiter_id) is Some,
        person(*old(db), order.waiter_id)->0.name@ == waiter@,
    ensures
        result matches Ok(receipt) && ({
            &&& slip_says(receipt, *old(db), *order, destination, slip_view(lines@), 0, at)
            &&& final(db).receipts@ == old(db).receipts@.push(receipt)
            &&& *final(db) == (Store {
                receipts: final(db).receipts,
                sequences: old(db).sequences.after(Counter::IssueReceipt),
                ..*old(db)
            })
        }),
{
    let ghost before = db.receipts@;
    let receipt: Receipt = match receipts::create_issue(db, order.id, destination, at) {
        Ok(receipt) => receipt,
        Err(error) => {
            return Err(error);
        },
    };
    let text: String = render_issue(
        receipt.receipt_number.as_str(),
        destination,
        found.code.as_str(),
        found.display_label.as_str(),
        waiter,
        lines,
    );
    proof {
        let number = receipt.receipt_number@;
        reveal_strlit("BR-");
        assert(number[0] == 'B');
        a_slip_starts_with_its_number(
            number,
            destination,
            found.code@,
            found.display_label@,
            waiter@,
            slip_view(lines@),
        );
        assert(text@.take(number.len() as int)[0] == text@[0]);
        a_mark_is_not_blank(text@, 0);
        crate::table::a_fresh_id_is_unused(before);
        writing_keeps_places(before, receipt, receipt.id);
        crate::table::place_is_first(db.receipts@, receipt.id);
        crate::table::place_is_first(before, receipt.id);
        let p = place(db.receipts@, receipt.id)->0;
        if p < before.len() {
            assert(before[p].key() == receipt.id);
        }
    }
    match receipts::freeze_rendered_text(db, receipt.id, text.as_str()) {
        Ok(_) => {},
        Err(error) => {
            return Err(error);
        },
    }
    let last: usize = db.receipts.len() - 1;
    let frozen: Receipt = db.receipts[last].clone();
    assert(db.receipts@ =~= before.push(frozen));
    Ok(frozen)
}

/// The slips of an order, in the order they are made.
pub open spec fn slips_of(db: Store, order_id: i64) -> Seq<(Destination, Seq<(Seq<char>, int)>)> {
    let bar = bar_lines(db, order_id);
    let kitchen = kitchen_lines(db, order_id);
    let first = if bar.len() > 0 {
        seq![(Destination::Bar, bar)]
    } else {
        Seq::empty()
    };
    if kitchen.len() > 0 {
        first.push((Destination::Kitchen, kitchen))
    } else {
        first
    }
}

/// Whether a store is another with an order gone to print: one frozen slip for
/// each of its destinations, under the next numbers, and nothing else changed.
pub open spec fn issue_prepared(
    before: Store,
    after: Store,
    order_id: i64,
    at: i64,
    prepared: PreparedIssue,
) -> bool {
    let slips = slips_of(before, order_id);
    &&& row(before.orders@, order_id) matches Some(order) && ({
        &&& prepared.receipts@.len() == slips.len()
        &&& forall|k: int|
            0 <= k < slips.len() ==> slip_says(
                #[trigger] prepared.receipts@[k],
                before,
                order,
                slips[k].0,
                slips[k].1,
                k,
                at,
            )
    })
    &&& after.receipts@ == before.receipts@ + prepared.receipts@
    &&& after.sequences.issue == before.sequences.issue + slips.len()
    &&& after.sequences == (crate::repo::seq::Sequences {
        issue: after.sequences.issue,
        ..before.sequences
    })
    &&& place(before.orders@, order_id) matches Some(p) && after.orders@ == before.orders@.update(
        p,
        Order { status: orders::Status::Printing, ..before.orders@[p] },
    )
    &&& row(after.orders@, order_id) == Some(prepared.order)
    &&& after == (Store {
        receipts: after.receipts,
        sequences: after.sequences,
        orders: after.orders,
        ..before
    })
}

/// The slips that were made are the slips that were missing.
proof fn made_slips_match(
    before: Store,
    after: Store,
    order: Order,
    made: Seq<Receipt>,
    bar: bool,
    kitchen: bool,
)
    requires
        bar || kitchen,
        bar ==> routed(before, order.id, "BAR"@),
        kitchen ==> routed(before, order.id, "KITCHEN"@),
        slips_will_match(before, order.id, bar, kitchen),
        made.len() == (if bar && kitchen {
            2int
        } else {
            1
        }),
        forall|k: int|
            0 <= k < made.len() ==> {
                &&& (#[trigger] made[k]).order_id == Some(order.id)
                &&& made[k].kind == receipts::Kind::Issue
                &&& made[k].status == receipts::Status::Pending
            },
        bar ==> made[0].destination == Some(Destination::Bar),
        kitchen ==> made[made.len() - 1].destination == Some(Destination::Kitchen),
        after.receipts@ == before.receipts@ + made,
        after.order_lines == before.order_lines,
        after.recipe_lines == before.recipe_lines,
        after.products == before.products,
    ensures
        slips_match(after, order.id, Stage::Waiting),
{
    let id = order.id;
    let n = before.receipts@.len();
    assert forall|i: int, j: int| #[trigger] route(after, id, i, j) == route(before, id, i, j) by {}
    assert forall|word: Seq<char>| routed(before, id, word) implies #[trigger] routed(
        after,
        id,
        word,
    ) by {
        let (i, j) = choose|i: int, j: int| #[trigger] route(before, id, i, j) == Some(word);
        assert(route(after, id, i, j) == Some(word));
    }
    let word = if bar {
        "BAR"@
    } else {
        "KITCHEN"@
    };
    let (a, b) = choose|i: int, j: int| #[trigger] route(before, id, i, j) == Some(word);
    assert(is_part(after, id, a, b));
    assert forall|i: int, j: int| (#[trigger] route(after, id, i, j)) is Some implies any(
        after.receipts@,
        slip_for(id, route(after, id, i, j)->0, Stage::Waiting),
    ) by {
        let word = route(before, id, i, j)->0;
        let wanted = slip_for(id, word, Stage::Waiting);
        if bar && word == "BAR"@ {
            assert(after.receipts@[n as int] == made[0]);
            assert(wanted(after.receipts@[n as int]));
        } else if kitchen && word == "KITCHEN"@ {
            let last = n + made.len() - 1;
            assert(after.receipts@[last] == made[made.len() - 1]);
            assert(wanted(after.receipts@[last]));
        } else {
            let k = choose|k: int|
                0 <= k < before.receipts@.len() && #[trigger] wanted(before.receipts@[k]);
            assert(after.receipts@[k] == before.receipts@[k]);
            assert(wanted(after.receipts@[k]));
        }
    }
    assert forall|k: int| 0 <= k < after.receipts@.len() implies slip_belongs(
        after,
        #[trigger] after.receipts@[k],
        id,
        Stage::Waiting,
    ) by {
        if k < n {
            assert(after.receipts@[k] == before.receipts@[k]);
            assert(slip_belongs(before, before.receipts@[k], id, Stage::Waiting));
        } else {
            assert(after.receipts@[k] == made[k - n]);
        }
    }
}

/// Prepare every destination slip and send the order to print.
///
/// Slip text is rendered after the number was taken, so that a slip cannot
/// exist without the number that a correction makes the cashier type back.
/// The printer is asked only afterwards. What is available leaves out what
/// every other printing order has reserved.
pub fn prepare_issue(db: &mut Store, order_id: i64, cashier_id: i64, at: i64) -> (result: Result<
    PreparedIssue,
    TradingError,
>)
    ensures
        ledgers_kept(*old(db), *final(db)),
        match result {
            Ok(prepared) => {
                &&& prepare_refusal(*old(db), order_id, cashier_id) is None
                &&& issue_prepared(*old(db), *final(db), order_id, at, prepared)
            },
            Err(error) => {
                &&& *final(db) == *old(db)
                &&& prepare_refusal(*old(db), order_id, cashier_id) matches Some(why) && error@
                    == TradingWhy::Repo(why)
            },
        },
{
    let order: Order = match orders::find(db, order_id) {
        Ok(order) => order,
        Err(error) => {
            return Err(TradingError::Repo(error));
        },
    };
    if order.cashier_id != cashier_id {
        return reject("only the cashier who rang the draft may issue it");
    }
    if order.status != orders::Status::Draft {
        return reject("only a draft can be prepared for printing");
    }
    let wanted: Vec<Tallied> = match expanded_products(db, order_id) {
        Ok(wanted) => wanted,
        Err(error) => {
            return Err(TradingError::Repo(error));
        },
    };
    match ensure_available_with_printing(db, wanted) {
        Ok(_) => {},
        Err(error) => {
            return Err(TradingError::Repo(error));
        },
    }
    let slips: Slips = match destination_slips(db, order_id) {
        Ok(slips) => slips,
        Err(error) => {
            return Err(TradingError::Repo(error));
        },
    };
    let found: Tab = match tabs::find(db, order.tab_id) {
        Ok(found) => found,
        Err(error) => {
            return Err(TradingError::Repo(error));
        },
    };
    let waiter: String = match staff::find(db, order.waiter_id) {
        Ok(waiter) => waiter.name,
        Err(error) => {
            return Err(TradingError::Repo(error));
        },
    };
    assert(slip_view(slips.bar@).len() == slips.bar@.len());
    assert(slip_view(slips.kitchen@).len() == slips.kitchen@.len());
    let bar: bool = slips.bar.len() > 0;
    let kitchen: bool = slips.kitchen.len() > 0;
    if bar {
        match check_slip(db, order_id, Destination::Bar, 0) {
            Ok(_) => {},
            Err(error) => {
                return Err(TradingError::Repo(error));
            },
        }
    }
    if kitchen {
        match check_slip(
            db,
            order_id,
            Destination::Kitchen,
            if bar {
                1
            } else {
                0
            },
        ) {
            Ok(_) => {},
            Err(error) => {
                return Err(TradingError::Repo(error));
            },
        }
    }
    if !slips_are_coming(db, order_id, bar, kitchen) {
        return reject("printing needs an open tab and a pending issue receipt");
    }
    let mut made: Vec<Receipt> = Vec::new();
    proof {
        crate::table::place_is_first(db.orders@, order_id);
        assert(db.receipts@ =~= old(db).receipts@ + made@);
    }
    if bar {
        match make_slip(
            db,
            &order,
            Destination::Bar,
            &found,
            waiter.as_str(),
            &slips.bar,
            at,
        ) {
            Ok(receipt) => {
                proof {
                    writing_takes_one_identity(old(db).receipts@, receipt);
                    assert(db.receipts@ =~= old(db).receipts@ + seq![receipt]);
                }
                made.push(receipt);
                assert(made@ =~= seq![receipt]);
            },
            Err(error) => {
                return Err(TradingError::Repo(error));
            },
        }
    }
    if kitchen {
        proof {
            second_slip_can_be_made(*old(db), *db, order_id, bar, made@);
        }
        match make_slip(
            db,
            &order,
            Destination::Kitchen,
            &found,
            waiter.as_str(),
            &slips.kitchen,
            at,
        ) {
            Ok(receipt) => {
                made.push(receipt);
                assert(db.receipts@ =~= old(db).receipts@ + made@);
            },
            Err(error) => {
                return Err(TradingError::Repo(error));
            },
        }
    }
    proof {
        made_slips_match(*old(db), *db, order, made@, bar, kitchen);
        assert(printing_refusal(*db, order_id) is None);
    }
    match orders::mark_printing(db, order_id) {
        Ok(_) => {},
        Err(error) => {
            return Err(TradingError::Repo(error));
        },
    }
    proof {
        let p = place(old(db).orders@, order_id)->0;
        changing_keeps_places(
            old(db).orders@,
            p,
            Order { status: orders::Status::Printing, ..old(db).orders@[p] },
            order_id,
        );
    }
    match orders::find(db, order_id) {
        Ok(printing) => Ok(PreparedIssue { order: printing, receipts: made }),
        Err(error) => Err(TradingError::Repo(error)),
    }
}

/// Making the first slip of an order does not stand in the way of the second.
proof fn second_slip_can_be_made(
    before: Store,
    after: Store,
    order_id: i64,
    bar: bool,
    made: Seq<Receipt>,
)
    requires
        slip_refusal(
            before,
            order_id,
            Destination::Kitchen,
            if bar {
                1
            } else {
                0
            },
        ) is None,
        after.receipts@ == before.receipts@ + made,
        !bar ==> made.len() == 0 && after == before,
        bar ==> made.len() == 1 && made[0].destination == Some(Destination::Bar) && largest_id(
            after.receipts@,
        ) == largest_id(before.receipts@) + 1 && after.sequences == before.sequences.after(
            Counter::IssueReceipt,
        ),
        after == (Store { receipts: after.receipts, sequences: after.sequences, ..before }),
    ensures
        slip_refusal(after, order_id, Destination::Kitchen, 0) is None,
{
    if bar {
        let wanted = receipts::live_slip(order_id, Destination::Kitchen);
        if any(after.receipts@, wanted) {
            let k = choose|k: int|
                0 <= k < after.receipts@.len() && #[trigger] wanted(after.receipts@[k]);
            if k < before.receipts@.len() {
                assert(wanted(before.receipts@[k]));
            } else {
                assert(after.receipts@[k] == made[0]);
            }
        }
        let word = Destination::Kitchen.word();
        let (i, j) = choose|i: int, j: int| #[trigger] route(before, order_id, i, j) == Some(word);
        assert(route(after, order_id, i, j) == Some(word));
        assert(issuable(after, order_id) == issuable(before, order_id));
    }
}

// ---------------------------------------------------------------------------
// What an issue leaves behind
// ---------------------------------------------------------------------------

/// A receipt of that order that was not voided and does not wait; where it has
/// to be an issue slip, one that is not.
pub open spec fn astray(order_id: i64, strict: bool) -> spec_fn(Receipt) -> bool {
    |r: Receipt|
        r.order_id == Some(order_id) && r.status != receipts::Status::Void && (r.status
            != receipts::Status::Pending || (strict && r.kind != receipts::Kind::Issue))
}

/// Whether an order has receipts, and every one that was not voided waits.
pub open spec fn all_waiting(db: Store, order_id: i64, strict: bool) -> bool {
    any(db.receipts@, orders::live_receipt_of(order_id)) && !any(
        db.receipts@,
        astray(order_id, strict),
    )
}

fn are_all_waiting(db: &Store, order_id: i64, strict: bool) -> (result: bool)
    ensures
        result == all_waiting(*db, order_id, strict),
{
    orders::has_live_receipt(db, order_id) && !any_row(
        &db.receipts,
        |r: &Receipt| -> (b: bool)
            ensures
                b == (r.order_id == Some(order_id) && r.status != receipts::Status::Void && (
                r.status != receipts::Status::Pending || (strict && r.kind
                    != receipts::Kind::Issue)))
            {
                r.order_id == Some(order_id) && r.status != receipts::Status::Void && (r.status
                    != receipts::Status::Pending || (strict && r.kind != receipts::Kind::Issue))
            },
        Ghost(astray(order_id, strict)),
    )
}

pub open spec fn is_live() -> spec_fn(Receipt) -> bool {
    |r: Receipt| r.status != receipts::Status::Void
}

/// The slips of an order that were not voided, in the order of their numbers.
pub open spec fn live_slips(db: Store, order_id: i64) -> Seq<Receipt> {
    crate::table::chosen(receipts_of(db, order_id), is_live())
}

fn live(db: &Store, order_id: i64) -> (result: Vec<Receipt>)
    ensures
        result@ == live_slips(*db, order_id),
{
    let all: Vec<Receipt> = receipts::for_order(db, order_id);
    crate::table::choose_rows(
        &all,
        |r: &Receipt| -> (b: bool)
            ensures
                b == (r.status != receipts::Status::Void)
            { r.status != receipts::Status::Void },
        Ghost(is_live()),
    )
}

/// A line of the audit log about that order.
pub open spec fn logged(order_id: i64, action: Seq<char>) -> spec_fn(AuditEntry) -> bool {
    |a: AuditEntry|
        a.action@ == action && a.entity_type@ == "order"@ && a.entity_id == Some(order_id)
}

fn is_logged(db: &Store, order_id: i64, action: &str) -> (result: bool)
    ensures
        result == any(db.audit@, logged(order_id, action@)),
{
    any_row(
        &db.audit,
        |a: &AuditEntry| -> (b: bool)
            ensures
                b == (a.action@ == action@ && a.entity_type@ == "order"@ && a.entity_id == Some(
                    order_id,
                ))
            {
                same(a.action.as_str(), action) && same(a.entity_type.as_str(), "order")
                    && a.entity_id == Some(order_id)
            },
        Ghost(logged(order_id, action@)),
    )
}

/// A movement of stock for that order.
pub open spec fn moved_for(order_id: i64) -> spec_fn(StockMovement) -> bool {
    |m: StockMovement| m.order_id == Some(order_id)
}

/// Whether an order has already taken stock or was already logged as issued.
pub open spec fn left_traces(db: Store, order_id: i64) -> bool {
    ||| any(db.movements@, moved_for(order_id))
    ||| any(db.audit@, logged(order_id, "ORDER_ISSUED"@))
    ||| any(db.audit@, logged(order_id, "ORDER_ISSUED_HANDWRITTEN"@))
}

fn has_left_traces(db: &Store, order_id: i64) -> (result: bool)
    ensures
        result == left_traces(*db, order_id),
{
    let moved: bool = any_row(
        &db.movements,
        |m: &StockMovement| -> (b: bool)
            ensures
                b == (m.order_id == Some(order_id))
            { m.order_id == Some(order_id) },
        Ghost(moved_for(order_id)),
    );
    moved || is_logged(db, order_id, "ORDER_ISSUED") || is_logged(
        db,
        order_id,
        "ORDER_ISSUED_HANDWRITTEN",
    )
}

/// Why what an order consumes cannot be posted as sales; nothing, where it can.
pub open spec fn sales_refusal(db: Store, entries: Seq<(i64, int)>, n: int) -> Option<Why>
    decreases n,
{
    if n <= 0 {
        None
    } else {
        match sales_refusal(db, entries, n - 1) {
            Some(why) => Some(why),
            None => {
                let (product_id, quantity) = entries[n - 1];
                if row(db.products@, product_id) is None {
                    Some(Why::Missing("product"@))
                } else if !fits(-quantity) {
                    Some(Why::Refused("that order is too large to post safely"@))
                } else if quantity == 0 {
                    Some(Why::Refused("a movement of nothing is not an event"@))
                } else if quantity < 0 {
                    Some(Why::Refused("a sale cannot put stock on the shelf"@))
                } else if !room_for(db.movements@, n) {
                    Some(Why::Sqlite(SqlWhy::Full))
                } else {
                    None
                }
            },
        }
    }
}

proof fn sales_fail_onward(db: Store, entries: Seq<(i64, int)>, n: int, m: int)
    requires
        0 <= n <= m,
    ensures
        sales_refusal(db, entries, n) is Some ==> sales_refusal(db, entries, m) == sales_refusal(
            db,
            entries,
            n,
        ),
    decreases m - n,
{
    if n < m {
        sales_fail_onward(db, entries, n, m - 1);
    }
}

fn check_sales(db: &Store, entries: &Vec<Tallied>) -> (result: Result<(), RepoError>)
    requires
        tidy(figures(entries@)),
    ensures
        match sales_refusal(*db, figures(entries@), entries@.len() as int) {
            None => result is Ok && room_for(db.movements@, entries@.len() as int),
            Some(why) => result matches Err(error) && error@ == why,
        },
{
    let ghost all = figures(entries@);
    let mut i: usize = 0;
    proof {
        crate::table::largest_bounds(db.movements@);
    }
    while i < entries.len()
        invariant
            i <= entries.len(),
            all == figures(entries@),
            tidy(all),
            room_for(db.movements@, i as int),
            sales_refusal(*db, all, i as int) is None,
        decreases entries.len() - i,
    {
        proof {
            sales_fail_onward(*db, all, i + 1, all.len() as int);
            assert(fits(all[i as int].1));
        }
        if find_place(&db.products, entries[i].product_id).is_none() {
            return Err(RepoError::Missing { what: "product" });
        }
        if entries[i].amount == i64::MIN as i128 {
            return Err(refused("that order is too large to post safely"));
        }
        if entries[i].amount == 0 {
            return Err(refused("a movement of nothing is not an event"));
        }
        if entries[i].amount < 0 {
            return Err(refused("a sale cannot put stock on the shelf"));
        }
        if !has_room(&db.movements, i + 1) {
            return Err(RepoError::Sqlite(SqlError::Full));
        }
        i = i + 1;
    }
    Ok(())
}

/// Why an order cannot be finished once its slips are resolved; nothing, where
/// it can.
pub open spec fn finish_refusal(db: Store, order: Order) -> Option<TradingWhy> {
    if left_traces(db, order.id) {
        Some(
            TradingWhy::Repo(
                Why::Refused(
                    "that printing order already has issue side effects and needs manual review"@,
                ),
            ),
        )
    } else if !(takes_orders(db, order.tab_id) && slips_match(db, order.id, Stage::Waiting) && !any(
        db.prints@,
        undecided(db, order.id),
    )) {
        Some(
            TradingWhy::Repo(
                Why::Refused("issuing needs an open tab and every issue receipt resolved"@),
            ),
        )
    } else {
        match order_products(db, order.id) {
            Err(why) => Some(TradingWhy::Repo(why)),
            Ok(entries) => match sales_refusal(db, entries, entries.len() as int) {
                Some(why) => Some(TradingWhy::Repo(why)),
                None => if fresh_id(db.audit@) is None {
                    Some(TradingWhy::Audit(Why::Sqlite(SqlWhy::Full)))
                } else {
                    None
                },
            },
        }
    }
}

fn check_finish(db: &Store, order: &Order) -> (result: Result<Vec<Tallied>, TradingError>)
    ensures
        match finish_refusal(*db, *order) {
            None => result matches Ok(entries) && tidy(figures(entries@)) && order_products(
                *db,
                order.id,
            ) == Ok::<Seq<(i64, int)>, Why>(figures(entries@)) && room_for(
                db.movements@,
                entries@.len() as int,
            ),
            Some(why) => result matches Err(error) && error@ == why,
        },
{
    if has_left_traces(db, order.id) {
        return reject("that printing order already has issue side effects and needs manual review");
    }
    if !(orders::tab_takes_orders(db, order.tab_id) && slips_are_right(
        db,
        order.id,
        Stage::Waiting,
    ) && !orders::has_undecided(db, order.id)) {
        return reject("issuing needs an open tab and every issue receipt resolved");
    }
    let entries: Vec<Tallied> = match expanded_products(db, order.id) {
        Ok(entries) => entries,
        Err(error) => {
            return Err(TradingError::Repo(error));
        },
    };
    match check_sales(db, &entries) {
        Ok(_) => {},
        Err(error) => {
            return Err(TradingError::Repo(error));
        },
    }
    if next_id(&db.audit).is_none() {
        return Err(TradingError::Audit(RepoError::Sqlite(SqlError::Full)));
    }
    Ok(entries)
}

/// Whether a movement is the sale of what an order consumes of one product.
pub open spec fn sale_says(
    movement: StockMovement,
    db: Store,
    order: Order,
    entry: (i64, int),
    nth: int,
    by: i64,
    at: i64,
) -> bool {
    &&& movement.id == largest_id(db.movements@) + 1 + nth
    &&& movement.product_id == entry.0
    &&& movement.kind == stock::Kind::Sale
    &&& movement.quantity.thousandths == -entry.1
    &&& row(db.products@, entry.0) matches Some(listed) && movement.unit_cost
        == listed.product.avg_cost
    &&& movement.reason@ == ""@
    &&& movement.order_id == Some(order.id)
    &&& movement.purchase_id is None
    &&& movement.stock_count_id is None
    &&& movement.shift_id == Some(order.shift_id)
    &&& movement.created_at == at
    &&& movement.created_by == by
}

/// Whether one sale per product was posted for an order, and nothing else.
pub open spec fn sales_posted(
    db: Store,
    after: Seq<StockMovement>,
    order: Order,
    entries: Seq<(i64, int)>,
    by: i64,
    at: i64,
) -> bool {
    let before = db.movements@;
    &&& after.len() == before.len() + entries.len()
    &&& after.take(before.len() as int) == before
    &&& forall|k: int|
        0 <= k < entries.len() ==> sale_says(
            #[trigger] after[before.len() + k],
            db,
            order,
            entries[k],
            k,
            by,
            at,
        )
}

/// Posts one sale per product.
fn post_sales(db: &mut Store, order: &Order, entries: &Vec<Tallied>, by: i64, at: i64) -> (result:
    Result<(), RepoError>)
    requires
        tidy(figures(entries@)),
        sales_refusal(*old(db), figures(entries@), entries@.len() as int) is None,
        room_for(old(db).movements@, entries@.len() as int),
    ensures
        result is Ok,
        sales_posted(*old(db), final(db).movements@, *order, figures(entries@), by, at),
        *final(db) == (Store { movements: final(db).movements, ..*old(db) }),
{
    let ghost all = figures(entries@);
    let ghost before = db.movements@;
    let mut i: usize = 0;
    assert(before.take(before.len() as int) =~= before);
    while i < entries.len()
        invariant
            i <= entries.len(),
            all == figures(entries@),
            tidy(all),
            before == old(db).movements@,
            sales_refusal(*old(db), all, all.len() as int) is None,
            room_for(before, entries@.len() as int),
            largest_id(db.movements@) == largest_id(before) + i,
            sales_posted(*old(db), db.movements@, *order, all.take(i as int), by, at),
            *db == (Store { movements: db.movements, ..*old(db) }),
        decreases entries.len() - i,
    {
        let ghost so_far = db.movements@;
        proof {
            sales_fail_onward(*old(db), all, i + 1, all.len() as int);
            assert(fits(all[i as int].1));
        }
        let cost: crate::money::Money = match catalogue::product(db, entries[i].product_id) {
            Ok(product) => product.avg_cost,
            Err(error) => {
                return Err(error);
            },
        };
        let movement: Movement<'_> = Movement::new(
            entries[i].product_id,
            stock::Kind::Sale,
            Milli::from_thousandths(-(entries[i].amount as i64)),
            at,
            by,
        ).for_order(order.id).during(order.shift_id).costing(cost);
        match stock::post(db, &movement) {
            Ok(_) => {},
            Err(error) => {
                return Err(error);
            },
        }
        proof {
            let new = db.movements@.last();
            let after = db.movements@;
            let upto = all.take(i + 1);
            assert(after =~= so_far.push(new));
            writing_takes_one_identity(so_far, new);
            assert(after.take(before.len() as int) =~= so_far.take(before.len() as int));
            assert forall|k: int| 0 <= k < upto.len() implies sale_says(
                #[trigger] after[before.len() + k],
                *old(db),
                *order,
                upto[k],
                k,
                by,
                at,
            ) by {
                if k < i {
                    assert(after[before.len() + k] == so_far[before.len() + k]);
                    assert(all.take(i as int)[k] == upto[k]);
                }
            }
        }
        i = i + 1;
    }
    assert(all.take(all.len() as int) =~= all);
    Ok(())
}

/// Whether a line of the audit log records that an order went from one state to
/// another.
pub open spec fn logs_step(
    entry: AuditEntry,
    action: Seq<char>,
    order: Order,
    from: Seq<char>,
    to: Seq<char>,
    by: i64,
    at: i64,
) -> bool {
    &&& entry.action@ == action
    &&& entry.entity_type@ == "order"@
    &&& entry.entity_id == Some(order.id)
    &&& chars_in(entry.old_value) == Some(from)
    &&& chars_in(entry.new_value) == Some(to)
    &&& entry.staff_id == Some(by)
    &&& entry.shift_id == Some(order.shift_id)
    &&& entry.created_at == at
}

/// Whether one line was added to an audit log.
pub open spec fn one_line_added(before: Seq<AuditEntry>, after: Seq<AuditEntry>) -> bool {
    &&& after.len() == before.len() + 1
    &&& after.drop_last() == before
    &&& fresh_id(before) == Some(after.last().sequence_no)
}

/// Whether a store is another with an order issued: its waiting slips resolved,
/// one attempt written for each, one sale per product, one line of audit, and
/// nothing else changed.
pub open spec fn issue_completed(
    before: Store,
    after: Store,
    order: Order,
    outcome: FinalOutcome,
    by: i64,
    at: i64,
) -> bool {
    let printed = outcome == FinalOutcome::Success;
    &&& attempts_written(
        before.prints@,
        after.prints@,
        live_slips(before, order.id),
        outcome,
        if printed {
            ""@
        } else {
            HANDWRITTEN_REASON@
        },
        order.shift_id,
        by,
        at,
    )
    &&& slips_resolved(
        before.receipts@,
        after.receipts@,
        order.id,
        if printed {
            receipts::Status::Printed
        } else {
            receipts::Status::Failed
        },
        if printed {
            Some(at)
        } else {
            None
        },
    )
    &&& place(before.orders@, order.id) matches Some(p) && after.orders@ == before.orders@.update(
        p,
        Order { status: orders::Status::Issued, issued_at: Some(at), ..order },
    )
    &&& order_products(before, order.id) matches Ok(entries) && sales_posted(
        before,
        after.movements@,
        order,
        entries,
        by,
        at,
    )
    &&& one_line_added(before.audit@, after.audit@)
    &&& logs_step(
        after.audit@.last(),
        if printed {
            "ORDER_ISSUED"@
        } else {
            "ORDER_ISSUED_HANDWRITTEN"@
        },
        order,
        "PRINTING"@,
        "ISSUED"@,
        by,
        at,
    )
    &&& after == (Store {
        prints: after.prints,
        receipts: after.receipts,
        orders: after.orders,
        movements: after.movements,
        audit: after.audit,
        ..before
    })
}

/// Once the waiting slips of an order are resolved, the order can be issued.
proof fn resolved_slips_match(
    before: Store,
    after: Store,
    order: Order,
    outcome: FinalOutcome,
    slips: Seq<Receipt>,
    status: receipts::Status,
    printed_at: Option<i64>,
    reason: Seq<char>,
    shift_id: i64,
    by: i64,
    at: i64,
)
    requires
        row(before.orders@, order.id) == Some(order),
        order.status == orders::Status::Printing,
        takes_orders(before, order.tab_id),
        slips_match(before, order.id, Stage::Waiting),
        !any(before.prints@, undecided(before, order.id)),
        !any(before.receipts@, astray(order.id, false)),
        status == receipts::Status::Printed || status == receipts::Status::Failed,
        slips_resolved(before.receipts@, after.receipts@, order.id, status, printed_at),
        attempts_written(
            before.prints@,
            after.prints@,
            slips,
            outcome,
            reason,
            shift_id,
            by,
            at,
        ),
        after == (Store { prints: after.prints, receipts: after.receipts, ..before }),
    ensures
        issuing_refusal(after, order.id) is None,
{
    let id = order.id;
    assert forall|i: int, j: int| #[trigger] route(after, id, i, j) == route(before, id, i, j) by {}
    assert forall|word: Seq<char>| routed(before, id, word) implies #[trigger] routed(
        after,
        id,
        word,
    ) by {
        let (i, j) = choose|i: int, j: int| #[trigger] route(before, id, i, j) == Some(word);
        assert(route(after, id, i, j) == Some(word));
    }
    let (a, b) = choose|i: int, j: int| #[trigger] is_part(before, id, i, j);
    assert(is_part(after, id, a, b));
    assert forall|i: int, j: int| (#[trigger] route(after, id, i, j)) is Some implies any(
        after.receipts@,
        slip_for(id, route(after, id, i, j)->0, Stage::Resolved),
    ) by {
        let word = route(before, id, i, j)->0;
        let waiting = slip_for(id, word, Stage::Waiting);
        let k = choose|k: int|
            0 <= k < before.receipts@.len() && #[trigger] waiting(before.receipts@[k]);
        assert(waits(before.receipts@[k], id));
        let done = slip_for(id, word, Stage::Resolved);
        assert(done(after.receipts@[k]));
    }
    assert forall|k: int| 0 <= k < after.receipts@.len() implies slip_belongs(
        after,
        #[trigger] after.receipts@[k],
        id,
        Stage::Resolved,
    ) by {
        let was = before.receipts@[k];
        assert(slip_belongs(before, was, id, Stage::Waiting));
        if was.order_id == Some(id) && was.status != receipts::Status::Void {
            assert(!astray(id, false)(was));
            assert(waits(was, id));
        }
    }
    if any(after.prints@, undecided(after, id)) {
        let wanted = undecided(after, id);
        let k = choose|k: int| 0 <= k < after.prints@.len() && #[trigger] wanted(after.prints@[k]);
        let n = before.prints@.len();
        if k < n {
            assert(after.prints@.take(n as int)[k] == after.prints@[k]);
            let attempt = before.prints@[k];
            same_places(before.receipts@, after.receipts@, attempt.receipt_id);
            assert(undecided(before, id)(before.prints@[k]));
        } else {
            assert(after.prints@[n + (k - n)].outcome == outcome.outcome());
        }
    }
}

/// Resolving slips changes neither where a receipt stands nor whose it is.
proof fn same_places(before: Seq<Receipt>, after: Seq<Receipt>, id: i64)
    requires
        after.len() == before.len(),
        forall|i: int|
            0 <= i < before.len() ==> (#[trigger] after[i]).id == before[i].id && after[i].order_id
                == before[i].order_id,
    ensures
        place(after, id) == place(before, id),
        row(after, id) is Some ==> row(before, id) is Some && row(after, id)->0.order_id == row(
            before,
            id,
        )->0.order_id,
{
    crate::table::place_is_first(before, id);
    crate::table::place_is_first(after, id);
    assert(forall|i: int| 0 <= i < before.len() ==> #[trigger] after[i].key() == before[i].key());
    match (place(before, id), place(after, id)) {
        (Some(a), Some(b)) => {
            assert(after[a].key() == before[a].key());
            assert(after[b].key() == before[b].key());
        },
        (Some(a), None) => {
            assert(after[a].key() == before[a].key());
        },
        (None, Some(b)) => {
            assert(after[b].key() == before[b].key());
        },
        (None, None) => {},
    }
}

/// Why a printing order cannot be issued; nothing, where it can.
pub open spec fn issue_refusal(
    db: Store,
    order: Order,
    outcome: FinalOutcome,
    by: i64,
) -> Option<TradingWhy> {
    let printed = outcome == FinalOutcome::Success;
    let slips = live_slips(db, order.id);
    if !all_waiting(db, order.id, printed) {
        Some(
            TradingWhy::Repo(
                Why::Refused(
                    if printed {
                        "every destination receipt must still be pending before confirming issue"@
                    } else {
                        "handwritten issue requires every live destination receipt to be pending"@
                    },
                ),
            ),
        )
    } else {
        match attempts_refusal(
            db,
            slips,
            outcome,
            if printed {
                ""@
            } else {
                HANDWRITTEN_REASON@
            },
            order.shift_id,
            by,
            slips.len() as int,
        ) {
            Some(why) => Some(TradingWhy::Repo(why)),
            None => finish_refusal(db, order),
        }
    }
}

/// Resolves the waiting slips of an order and issues it.
fn issue(db: &mut Store, order: &Order, outcome: FinalOutcome, by: i64, at: i64) -> (result: Result<
    (),
    TradingError,
>)
    requires
        row(old(db).orders@, order.id) == Some(*order),
        order.status == orders::Status::Printing,
    ensures
        match result {
            Ok(_) => {
                &&& issue_refusal(*old(db), *order, outcome, by) is None
                &&& issue_completed(*old(db), *final(db), *order, outcome, by, at)
            },
            Err(error) => {
                &&& *final(db) == *old(db)
                &&& issue_refusal(*old(db), *order, outcome, by) == Some(error@)
            },
        },
{
    let printed: bool = outcome == FinalOutcome::Success;
    if !are_all_waiting(db, order.id, printed) {
        return reject(
            if printed {
                "every destination receipt must still be pending before confirming issue"
            } else {
                "handwritten issue requires every live destination receipt to be pending"
            },
        );
    }
    let reason: &str = if printed {
        ""
    } else {
        HANDWRITTEN_REASON
    };
    let slips: Vec<Receipt> = live(db, order.id);
    match check_attempts(db, &slips, outcome, reason, order.shift_id, by) {
        Ok(_) => {},
        Err(error) => {
            return Err(TradingError::Repo(error));
        },
    }
    let entries: Vec<Tallied> = match check_finish(db, order) {
        Ok(entries) => entries,
        Err(error) => {
            return Err(error);
        },
    };
    let status: receipts::Status = if printed {
        receipts::Status::Printed
    } else {
        receipts::Status::Failed
    };
    let printed_at: Option<i64> = if printed {
        Some(at)
    } else {
        None
    };
    write_attempts(db, &slips, outcome, reason, order.shift_id, by, at);
    resolve_slips(db, order.id, status, printed_at);
    proof {
        if any(old(db).receipts@, astray(order.id, false)) {
            let wanted = astray(order.id, false);
            let k = choose|k: int|
                0 <= k < old(db).receipts@.len() && #[trigger] wanted(old(db).receipts@[k]);
            assert(astray(order.id, printed)(old(db).receipts@[k]));
        }
        resolved_slips_match(
            *old(db),
            *db,
            *order,
            outcome,
            slips@,
            status,
            printed_at,
            reason@,
            order.shift_id,
            by,
            at,
        );
        crate::table::place_is_first(old(db).orders@, order.id);
    }
    match orders::mark_issued(db, order.id, at) {
        Ok(_) => {},
        Err(error) => {
            return Err(TradingError::Repo(error));
        },
    }
    let ghost issued = *db;
    proof {
        sales_do_not_care(*old(db), issued, figures(entries@), entries@.len() as int);
    }
    match post_sales(db, order, &entries, by, at) {
        Ok(_) => {},
        Err(error) => {
            return Err(TradingError::Repo(error));
        },
    }
    let action: &str = if printed {
        "ORDER_ISSUED"
    } else {
        "ORDER_ISSUED_HANDWRITTEN"
    };
    let event: Event<'_> = Event::new(action, "order", at).about(order.id).changed(
        "PRINTING",
        "ISSUED",
    ).done_by(by).during(Some(order.shift_id));
    match ledger::append(db, &event) {
        Ok(_) => {},
        Err(error) => {
            return Err(TradingError::Audit(error));
        },
    }
    proof {
        let all = figures(entries@);
        assert forall|k: int| 0 <= k < all.len() implies sale_says(
            #[trigger] db.movements@[old(db).movements@.len() + k],
            *old(db),
            *order,
            all[k],
            k,
            by,
            at,
        ) by {
            assert(sale_says(
                db.movements@[issued.movements@.len() + k],
                issued,
                *order,
                all[k],
                k,
                by,
                at,
            ));
        }
    }
    Ok(())
}

/// Only the shelf and the products decide whether sales can be posted.
proof fn sales_do_not_care(before: Store, after: Store, entries: Seq<(i64, int)>, n: int)
    requires
        after.products == before.products,
        after.movements == before.movements,
    ensures
        sales_refusal(after, entries, n) == sales_refusal(before, entries, n),
    decreases n,
{
    if n > 0 {
        sales_do_not_care(before, after, entries, n - 1);
    }
}

// ---------------------------------------------------------------------------
// After the printer
// ---------------------------------------------------------------------------

/// A receipt of that order that was not voided and ended otherwise.
pub open spec fn ended_otherwise(order_id: i64, status: receipts::Status) -> spec_fn(
    Receipt,
) -> bool {
    |r: Receipt|
        r.order_id == Some(order_id) && r.status != receipts::Status::Void && r.status != status
}

/// Whether an issued order came out that way: its slips say so, and the audit
/// log says so once.
pub open spec fn came_out_as(
    db: Store,
    order_id: i64,
    status: receipts::Status,
    action: Seq<char>,
) -> bool {
    &&& any(db.receipts@, receipts::of_order(order_id))
    &&& !any(db.receipts@, ended_otherwise(order_id, status))
    &&& count(db.audit@, logged(order_id, action)) == 1
}

fn did_come_out_as(db: &Store, order_id: i64, status: receipts::Status, action: &str) -> (result:
    bool)
    ensures
        result == came_out_as(*db, order_id, status, action@),
{
    let some: bool = any_row(
        &db.receipts,
        |r: &Receipt| -> (b: bool)
            ensures
                b == (r.order_id == Some(order_id))
            { r.order_id == Some(order_id) },
        Ghost(receipts::of_order(order_id)),
    );
    let otherwise: bool = any_row(
        &db.receipts,
        |r: &Receipt| -> (b: bool)
            ensures
                b == (r.order_id == Some(order_id) && r.status != receipts::Status::Void && r.status
                    != status)
            {
                r.order_id == Some(order_id) && r.status != receipts::Status::Void && r.status
                    != status
            },
        Ghost(ended_otherwise(order_id, status)),
    );
    let times: usize = count_rows(
        &db.audit,
        |a: &AuditEntry| -> (b: bool)
            ensures
                b == (a.action@ == action@ && a.entity_type@ == "order"@ && a.entity_id == Some(
                    order_id,
                ))
            {
                same(a.action.as_str(), action) && same(a.entity_type.as_str(), "order")
                    && a.entity_id == Some(order_id)
            },
        Ghost(logged(order_id, action@)),
    );
    some && !otherwise && times == 1
}

/// Whether this is what there is of an order and its slips.
pub open spec fn shows(completed: CompletedIssue, db: Store, order_id: i64) -> bool {
    &&& row(db.orders@, order_id) == Some(completed.order)
    &&& completed.receipts@ == receipts_of(db, order_id)
}

fn completed_issue(db: &Store, order_id: i64) -> (result: Result<CompletedIssue, TradingError>)
    ensures
        match row(db.orders@, order_id) {
            Some(_) => result matches Ok(completed) && shows(completed, *db, order_id),
            None => result matches Err(error) && error@ == TradingWhy::Repo(Why::Missing("order"@)),
        },
{
    match orders::find(db, order_id) {
        Ok(order) => Ok(CompletedIssue { order, receipts: receipts::for_order(db, order_id) }),
        Err(error) => Err(TradingError::Repo(error)),
    }
}

/// The refusal of an issued order that came out another way.
pub open spec fn needs_review() -> TradingWhy {
    TradingWhy::Repo(
        Why::Refused(
            "the issued order does not match this recovery outcome and needs manual review"@,
        ),
    )
}

fn completed_issue_with(db: &Store, order_id: i64, status: receipts::Status, action: &str) -> (result:
    Result<CompletedIssue, TradingError>)
    requires
        row(db.orders@, order_id) is Some,
    ensures
        if came_out_as(*db, order_id, status, action@) {
            result matches Ok(completed) && shows(completed, *db, order_id)
        } else {
            result matches Err(error) && error@ == needs_review()
        },
{
    if !did_come_out_as(db, order_id, status, action) {
        return reject(
            "the issued order does not match this recovery outcome and needs manual review",
        );
    }
    completed_issue(db, order_id)
}

/// Why a print cannot be confirmed; nothing, where it can or already was.
pub open spec fn confirm_refusal(db: Store, order_id: i64, cashier_id: i64) -> Option<TradingWhy> {
    match row(db.orders@, order_id) {
        None => Some(TradingWhy::Repo(Why::Missing("order"@))),
        Some(order) => if order.cashier_id != cashier_id {
            Some(
                TradingWhy::Repo(
                    Why::Refused("only the cashier who rang the order may confirm its issue"@),
                ),
            )
        } else if order.status == orders::Status::Issued {
            if came_out_as(db, order_id, receipts::Status::Printed, "ORDER_ISSUED"@) {
                None
            } else {
                Some(needs_review())
            }
        } else if order.status != orders::Status::Printing {
            Some(
                TradingWhy::Repo(
                    Why::Refused("only a printing order can be confirmed as issued"@),
                ),
            )
        } else {
            match issue_refusal(db, order, FinalOutcome::Success, cashier_id) {
                Some(why) => Some(
                    TradingWhy::IssuePrintPending { order_id, reason: why.message() },
                ),
                None => None,
            }
        },
    }
}

/// Issue an order after its paper is known to have emerged.
///
/// Slips, order, one sale per product and the audit line are written together.
/// Asking again is a success that changes nothing. A refusal leaves the order
/// printing, for recovery to resolve. Numbers that an earlier confirmed
/// non-print voided stay void and do not stand in the way.
pub fn confirm_issued(db: &mut Store, order_id: i64, cashier_id: i64, at: i64) -> (result: Result<
    CompletedIssue,
    TradingError,
>)
    ensures
        ledgers_kept(*old(db), *final(db)),
        match result {
            Ok(completed) => {
                &&& confirm_refusal(*old(db), order_id, cashier_id) is None
                &&& row(old(db).orders@, order_id) matches Some(order) && if order.status
                    == orders::Status::Issued {
                    *final(db) == *old(db)
                } else {
                    issue_completed(
                        *old(db),
                        *final(db),
                        order,
                        FinalOutcome::Success,
                        cashier_id,
                        at,
                    )
                }
                &&& shows(completed, *final(db), order_id)
            },
            Err(error) => {
                &&& *final(db) == *old(db)
                &&& confirm_refusal(*old(db), order_id, cashier_id) == Some(error@)
            },
        },
{
    let order: Order = match orders::find(db, order_id) {
        Ok(order) => order,
        Err(error) => {
            return Err(TradingError::Repo(error));
        },
    };
    proof {
        crate::table::place_is_first(db.orders@, order_id);
    }
    if order.cashier_id != cashier_id {
        return reject("only the cashier who rang the order may confirm its issue");
    }
    if order.status == orders::Status::Issued {
        return completed_issue_with(db, order_id, receipts::Status::Printed, "ORDER_ISSUED");
    }
    if order.status != orders::Status::Printing {
        return reject("only a printing order can be confirmed as issued");
    }
    match issue(db, &order, FinalOutcome::Success, cashier_id, at) {
        Ok(_) => {},
        Err(error) => {
            return Err(issue_print_pending(order_id, error));
        },
    }
    proof {
        let p = place(old(db).orders@, order_id)->0;
        let issued = Order { status: orders::Status::Issued, issued_at: Some(at), ..order };
        changing_keeps_places(old(db).orders@, p, issued, order_id);
        orders::changing_keeps_rung(old(db).orders@, p, issued);
    }
    completed_issue(db, order_id)
}

/// What keeps somebody from resolving a print; nothing, where they may.
pub open spec fn resolver_refusal(db: Store, cashier_id: i64) -> Option<TradingWhy> {
    match person(db, cashier_id) {
        None => Some(TradingWhy::Repo(Why::Missing("cashier"@))),
        Some(actor) => if is_active_cashier(actor) {
            None
        } else {
            Some(
                TradingWhy::Repo(
                    Why::Refused("only an active cashier may resolve an issue print"@),
                ),
            )
        },
    }
}

fn require_active_cashier(db: &Store, cashier_id: i64) -> (result: Result<(), TradingError>)
    ensures
        match resolver_refusal(*db, cashier_id) {
            None => result is Ok,
            Some(why) => result matches Err(error) && error@ == why,
        },
{
    match staff::find(db, cashier_id) {
        Ok(actor) => {
            if !actor.active || actor.role != staff::Role::Cashier {
                return reject("only an active cashier may resolve an issue print");
            }
            Ok(())
        },
        Err(_) => Err(TradingError::Repo(RepoError::Missing { what: "cashier" })),
    }
}

/// Why a handwritten chit cannot be authorised; nothing, where it can or
/// already was.
pub open spec fn handwritten_refusal(db: Store, order_id: i64, cashier_id: i64) -> Option<
    TradingWhy,
> {
    match resolver_refusal(db, cashier_id) {
        Some(why) => Some(why),
        None => match row(db.orders@, order_id) {
            None => Some(TradingWhy::Repo(Why::Missing("order"@))),
            Some(order) => if order.status == orders::Status::Issued {
                if came_out_as(
                    db,
                    order_id,
                    receipts::Status::Failed,
                    "ORDER_ISSUED_HANDWRITTEN"@,
                ) {
                    None
                } else {
                    Some(needs_review())
                }
            } else if order.status != orders::Status::Printing {
                Some(
                    TradingWhy::Repo(
                        Why::Refused(
                            "only a printing order can be authorised with a handwritten chit"@,
                        ),
                    ),
                )
            } else {
                issue_refusal(db, order, FinalOutcome::Failed, cashier_id)
            },
        },
    }
}

/// Resolve a dead printer by recording the explicit handwritten substitute.
///
/// The cashier has confirmed that no slip emerged and has written the chit. The
/// failed attempts stay as evidence, while stock posts exactly as it does for a
/// printed issue. Asking again is a success that changes nothing.
pub fn authorize_handwritten(db: &mut Store, order_id: i64, cashier_id: i64, at: i64) -> (result:
    Result<CompletedIssue, TradingError>)
    ensures
        ledgers_kept(*old(db), *final(db)),
        match result {
            Ok(completed) => {
                &&& handwritten_refusal(*old(db), order_id, cashier_id) is None
                &&& row(old(db).orders@, order_id) matches Some(order) && if order.status
                    == orders::Status::Issued {
                    *final(db) == *old(db)
                } else {
                    issue_completed(
                        *old(db),
                        *final(db),
                        order,
                        FinalOutcome::Failed,
                        cashier_id,
                        at,
                    )
                }
                &&& shows(completed, *final(db), order_id)
            },
            Err(error) => {
                &&& *final(db) == *old(db)
                &&& handwritten_refusal(*old(db), order_id, cashier_id) == Some(error@)
            },
        },
{
    match require_active_cashier(db, cashier_id) {
        Ok(_) => {},
        Err(error) => {
            return Err(error);
        },
    }
    let order: Order = match orders::find(db, order_id) {
        Ok(order) => order,
        Err(error) => {
            return Err(TradingError::Repo(error));
        },
    };
    proof {
        crate::table::place_is_first(db.orders@, order_id);
    }
    if order.status == orders::Status::Issued {
        return completed_issue_with(
            db,
            order_id,
            receipts::Status::Failed,
            "ORDER_ISSUED_HANDWRITTEN",
        );
    }
    if order.status != orders::Status::Printing {
        return reject("only a printing order can be authorised with a handwritten chit");
    }
    match issue(db, &order, FinalOutcome::Failed, cashier_id, at) {
        Ok(_) => {},
        Err(error) => {
            return Err(error);
        },
    }
    proof {
        let p = place(old(db).orders@, order_id)->0;
        let issued = Order { status: orders::Status::Issued, issued_at: Some(at), ..order };
        changing_keeps_places(old(db).orders@, p, issued, order_id);
        orders::changing_keeps_rung(old(db).orders@, p, issued);
    }
    completed_issue(db, order_id)
}

/// A receipt of that order that is anything but a voided issue slip.
pub open spec fn not_a_void_slip(order_id: i64) -> spec_fn(Receipt) -> bool {
    |r: Receipt|
        r.order_id == Some(order_id) && (r.kind != receipts::Kind::Issue || r.status
            != receipts::Status::Void)
}

/// Whether a print of that order was already resolved as a non-print.
pub open spec fn was_abandoned(db: Store, order_id: i64) -> bool {
    &&& any(db.receipts@, receipts::of_order(order_id))
    &&& !any(db.receipts@, not_a_void_slip(order_id))
    &&& any(db.audit@, logged(order_id, "PRINT_ABANDONED"@))
}

fn is_completed_non_print(db: &Store, order_id: i64) -> (result: bool)
    ensures
        result == was_abandoned(*db, order_id),
{
    let some: bool = any_row(
        &db.receipts,
        |r: &Receipt| -> (b: bool)
            ensures
                b == (r.order_id == Some(order_id))
            { r.order_id == Some(order_id) },
        Ghost(receipts::of_order(order_id)),
    );
    let otherwise: bool = any_row(
        &db.receipts,
        |r: &Receipt| -> (b: bool)
            ensures
                b == (r.order_id == Some(order_id) && (r.kind != receipts::Kind::Issue || r.status
                    != receipts::Status::Void))
            {
                r.order_id == Some(order_id) && (r.kind != receipts::Kind::Issue || r.status
                    != receipts::Status::Void)
            },
        Ghost(not_a_void_slip(order_id)),
    );
    some && !otherwise && is_logged(db, order_id, "PRINT_ABANDONED")
}

/// A waiting receipt of that order that cannot be voided: it is no issue slip,
/// or somebody tried to print it.
pub open spec fn beyond_voiding(db: Store, order_id: i64) -> spec_fn(Receipt) -> bool {
    |r: Receipt|
        waits(r, order_id) && (r.kind != receipts::Kind::Issue || any(db.prints@, of_receipt(r.id)))
}

fn has_beyond_voiding(db: &Store, order_id: i64) -> (result: bool)
    ensures
        result == any(db.receipts@, beyond_voiding(*db, order_id)),
{
    any_row(
        &db.receipts,
        |r: &Receipt| -> (b: bool)
            ensures
                b == (waits(*r, order_id) && (r.kind != receipts::Kind::Issue || any(
                    db.prints@,
                    of_receipt(r.id),
                )))
            {
                r.order_id == Some(order_id) && r.status == receipts::Status::Pending && (r.kind
                    != receipts::Kind::Issue || receipts::was_attempted(db, r.id))
            },
        Ghost(beyond_voiding(*db, order_id)),
    )
}

/// Why a non-print cannot be confirmed; nothing, where it can or already was.
pub open spec fn non_print_refusal(db: Store, order_id: i64, cashier_id: i64) -> Option<
    TradingWhy,
> {
    match resolver_refusal(db, cashier_id) {
        Some(why) => Some(why),
        None => match row(db.orders@, order_id) {
            None => Some(TradingWhy::Repo(Why::Missing("order"@))),
            Some(order) => if order.status == orders::Status::Draft && was_abandoned(db, order_id) {
                None
            } else if order.status != orders::Status::Printing {
                Some(
                    TradingWhy::Repo(
                        Why::Refused(
                            "only a printing order can be resolved as a confirmed non-print"@,
                        ),
                    ),
                )
            } else if !all_waiting(db, order_id, false) {
                Some(
                    TradingWhy::Repo(
                        Why::Refused(
                            "confirmed non-print requires every live issue receipt to be unattempted and pending"@,
                        ),
                    ),
                )
            } else if any(db.receipts@, beyond_voiding(db, order_id)) {
                Some(
                    TradingWhy::Repo(
                        Why::Refused(
                            "only an unattempted pending issue receipt can be voided; the receipt is pending"@,
                        ),
                    ),
                )
            } else if fresh_id(db.audit@) is None {
                Some(TradingWhy::Audit(Why::Sqlite(SqlWhy::Full)))
            } else {
                None
            },
        },
    }
}

/// Whether a store is another with a print given up: every waiting slip void,
/// the order a draft again, one line of audit, and nothing else changed.
pub open spec fn print_abandoned(
    before: Store,
    after: Store,
    order: Order,
    by: i64,
    at: i64,
) -> bool {
    &&& slips_resolved(
        before.receipts@,
        after.receipts@,
        order.id,
        receipts::Status::Void,
        None,
    )
    &&& place(before.orders@, order.id) matches Some(p) && after.orders@ == before.orders@.update(
        p,
        Order { status: orders::Status::Draft, ..order },
    )
    &&& one_line_added(before.audit@, after.audit@)
    &&& logs_step(
        after.audit@.last(),
        "PRINT_ABANDONED"@,
        order,
        "PRINTING"@,
        "DRAFT"@,
        by,
        at,
    )
    &&& after == (Store {
        receipts: after.receipts,
        orders: after.orders,
        audit: after.audit,
        ..before
    })
}

/// Once every waiting slip is void, the order can return to draft.
proof fn voided_slips_release(before: Store, after: Store, order: Order)
    requires
        row(before.orders@, order.id) == Some(order),
        order.status == orders::Status::Printing,
        all_waiting(before, order.id, false),
        !any(before.receipts@, beyond_voiding(before, order.id)),
        slips_resolved(
            before.receipts@,
            after.receipts@,
            order.id,
            receipts::Status::Void,
            None,
        ),
        after == (Store { receipts: after.receipts, ..before }),
    ensures
        return_refusal(after, order.id) is None,
{
    let id = order.id;
    let alive = orders::live_receipt_of(id);
    let k = choose|k: int| 0 <= k < before.receipts@.len() && #[trigger] alive(before.receipts@[k]);
    assert(!astray(id, false)(before.receipts@[k]));
    assert(!beyond_voiding(before, id)(before.receipts@[k]));
    assert(orders::slip_of(id)(after.receipts@[k]));
    if any(after.receipts@, orders::live_slip_of(id)) {
        let wanted = orders::live_slip_of(id);
        let n = choose|n: int|
            0 <= n < after.receipts@.len() && #[trigger] wanted(after.receipts@[n]);
        assert(!astray(id, false)(before.receipts@[n]));
    }
}

/// Resolve a definite non-print without ever reusing its numbers.
///
/// Every live slip becomes void, the order returns to draft, and the audit log
/// says so. The draft can then be tried again under new numbers, or explicitly
/// abandoned. Asking again is a success that changes nothing.
pub fn confirm_non_print(db: &mut Store, order_id: i64, cashier_id: i64, at: i64) -> (result: Result<
    Order,
    TradingError,
>)
    ensures
        ledgers_kept(*old(db), *final(db)),
        match result {
            Ok(order) => {
                &&& non_print_refusal(*old(db), order_id, cashier_id) is None
                &&& row(old(db).orders@, order_id) matches Some(before) && if before.status
                    == orders::Status::Draft {
                    *final(db) == *old(db)
                } else {
                    print_abandoned(*old(db), *final(db), before, cashier_id, at)
                }
                &&& row(final(db).orders@, order_id) == Some(order)
            },
            Err(error) => {
                &&& *final(db) == *old(db)
                &&& non_print_refusal(*old(db), order_id, cashier_id) == Some(error@)
            },
        },
{
    match require_active_cashier(db, cashier_id) {
        Ok(_) => {},
        Err(error) => {
            return Err(error);
        },
    }
    let order: Order = match orders::find(db, order_id) {
        Ok(order) => order,
        Err(error) => {
            return Err(TradingError::Repo(error));
        },
    };
    proof {
        crate::table::place_is_first(db.orders@, order_id);
    }
    if order.status == orders::Status::Draft && is_completed_non_print(db, order_id) {
        return Ok(order);
    }
    if order.status != orders::Status::Printing {
        return reject("only a printing order can be resolved as a confirmed non-print");
    }
    if !are_all_waiting(db, order_id, false) {
        return reject(
            "confirmed non-print requires every live issue receipt to be unattempted and pending",
        );
    }
    if has_beyond_voiding(db, order_id) {
        return reject(
            "only an unattempted pending issue receipt can be voided; the receipt is pending",
        );
    }
    if next_id(&db.audit).is_none() {
        return Err(TradingError::Audit(RepoError::Sqlite(SqlError::Full)));
    }
    resolve_slips(db, order_id, receipts::Status::Void, None);
    proof {
        voided_slips_release(*old(db), *db, order);
    }
    match orders::return_to_draft(db, order_id) {
        Ok(_) => {},
        Err(error) => {
            return Err(TradingError::Repo(error));
        },
    }
    let event: Event<'_> = Event::new("PRINT_ABANDONED", "order", at).about(order_id).changed(
        "PRINTING",
        "DRAFT",
    ).done_by(cashier_id).during(Some(order.shift_id));
    match ledger::append(db, &event) {
        Ok(_) => {},
        Err(error) => {
            return Err(TradingError::Audit(error));
        },
    }
    proof {
        let p = place(old(db).orders@, order_id)->0;
        changing_keeps_places(
            old(db).orders@,
            p,
            Order { status: orders::Status::Draft, ..order },
            order_id,
        );
    }
    match orders::find(db, order_id) {
        Ok(draft) => Ok(draft),
        Err(error) => Err(TradingError::Repo(error)),
    }
}

// ---------------------------------------------------------------------------
// Laws
// ---------------------------------------------------------------------------

/// What a screen asks for a second time, because the answer was lost, it gets
/// again, and nothing is posted or logged twice: an issue that was confirmed
/// or written by hand answers the same question with the same success.
pub proof fn an_issue_can_be_asked_for_again(
    before: Store,
    after: Store,
    order: Order,
    outcome: FinalOutcome,
    by: i64,
    at: i64,
)
    requires
        row(before.orders@, order.id) == Some(order),
        order.status == orders::Status::Printing,
        order.cashier_id == by,
        resolver_refusal(before, by) is None,
        issue_refusal(before, order, outcome, by) is None,
        issue_completed(before, after, order, outcome, by, at),
    ensures
        row(after.orders@, order.id) matches Some(issued) && issued.status
            == orders::Status::Issued,
        outcome == FinalOutcome::Success ==> confirm_refusal(after, order.id, by) is None,
        outcome == FinalOutcome::Failed ==> handwritten_refusal(after, order.id, by) is None,
{
    let id = order.id;
    let printed = outcome == FinalOutcome::Success;
    let status = if printed {
        receipts::Status::Printed
    } else {
        receipts::Status::Failed
    };
    let action = if printed {
        "ORDER_ISSUED"@
    } else {
        "ORDER_ISSUED_HANDWRITTEN"@
    };
    crate::table::place_is_first(before.orders@, id);
    changing_keeps_places(
        before.orders@,
        place(before.orders@, id)->0,
        Order { status: orders::Status::Issued, issued_at: Some(at), ..order },
        id,
    );
    let alive = orders::live_receipt_of(id);
    let k = choose|k: int| 0 <= k < before.receipts@.len() && #[trigger] alive(before.receipts@[k]);
    assert(receipts::of_order(id)(after.receipts@[k]));
    if any(after.receipts@, ended_otherwise(id, status)) {
        let wanted = ended_otherwise(id, status);
        let n = choose|n: int|
            0 <= n < after.receipts@.len() && #[trigger] wanted(after.receipts@[n]);
        assert(!astray(id, printed)(before.receipts@[n]));
    }
    let said = logged(id, action);
    crate::table::nothing_to_count(before.audit@, said);
    assert(said(after.audit@.last()));
    assert(count(after.audit@, said) == 1);
}

/// A non-print that was confirmed can be confirmed again, and nothing is voided
/// or logged twice. Only issue slips belong to an order.
pub proof fn a_non_print_can_be_asked_for_again(
    before: Store,
    after: Store,
    order: Order,
    by: i64,
    at: i64,
)
    requires
        row(before.orders@, order.id) == Some(order),
        order.status == orders::Status::Printing,
        forall|n: int|
            0 <= n < before.receipts@.len() && (#[trigger] before.receipts@[n]).order_id is Some
                ==> before.receipts@[n].kind == receipts::Kind::Issue,
        non_print_refusal(before, order.id, by) is None,
        print_abandoned(before, after, order, by, at),
    ensures
        row(after.orders@, order.id) matches Some(draft) && draft.status == orders::Status::Draft,
        was_abandoned(after, order.id),
        non_print_refusal(after, order.id, by) is None,
{
    let id = order.id;
    crate::table::place_is_first(before.orders@, id);
    changing_keeps_places(
        before.orders@,
        place(before.orders@, id)->0,
        Order { status: orders::Status::Draft, ..order },
        id,
    );
    let alive = orders::live_receipt_of(id);
    let k = choose|k: int| 0 <= k < before.receipts@.len() && #[trigger] alive(before.receipts@[k]);
    assert(receipts::of_order(id)(after.receipts@[k]));
    assert(after.audit@[after.audit@.len() - 1] == after.audit@.last());
    assert(logged(id, "PRINT_ABANDONED"@)(after.audit@[after.audit@.len() - 1]));
    if any(after.receipts@, not_a_void_slip(id)) {
        let wanted = not_a_void_slip(id);
        let n = choose|n: int|
            0 <= n < after.receipts@.len() && #[trigger] wanted(after.receipts@[n]);
        assert(!astray(id, false)(before.receipts@[n]));
    }
}

/// How much of a product printing orders have reserved.
pub open spec fn reserved_for(db: Store, orders: Seq<Order>, product_id: i64) -> int
    decreases orders.len(),
{
    if orders.len() == 0 {
        0
    } else {
        reserved_for(db, orders.drop_last(), product_id) + (if orders.last().status
            == orders::Status::Printing {
            orders::total_of(order_products(db, orders.last().id)->Ok_0, product_id)
        } else {
            0
        })
    }
}

proof fn reserving_adds(db: Store, wanted: Seq<(i64, int)>, orders: Seq<Order>, product_id: i64)
    requires
        tidy(wanted),
    ensures
        with_reserved(db, wanted, orders) matches Ok(entries) ==> tidy(entries)
            && amount_of(entries, product_id) == amount_of(
            wanted,
            product_id,
        ) + reserved_for(db, orders, product_id),
    decreases orders.len(),
{
    if orders.len() > 0 && with_reserved(db, wanted, orders) is Ok {
        reserving_adds(db, wanted, orders.drop_last(), product_id);
        if orders.last().status == orders::Status::Printing {
            let so_far = with_reserved(db, wanted, orders.drop_last())->Ok_0;
            let more = order_products(db, orders.last().id)->Ok_0;
            orders::consumption_is_tidy(db, orders::lines_of(db, orders.last().id));
            orders::joining_adds(so_far, more, product_id);
        }
    }
}

/// How much of a product is claimed.
spec fn claimed_of(wanted: Seq<(i64, Milli)>, product_id: i64) -> int
    decreases wanted.len(),
{
    if wanted.len() == 0 {
        0
    } else {
        claimed_of(wanted.drop_last(), product_id) + (if wanted.last().0 == product_id {
            wanted.last().1.thousandths as int
        } else {
            0
        })
    }
}

proof fn claims_claim_it_all(entries: Seq<(i64, int)>, product_id: i64)
    requires
        orders::within(entries),
    ensures
        claimed_of(claims(entries), product_id) == orders::total_of(entries, product_id),
    decreases entries.len(),
{
    if entries.len() > 0 {
        let before = entries.drop_last();
        assert(forall|i: int| 0 <= i < before.len() ==> #[trigger] before[i] == entries[i]);
        claims_claim_it_all(before, product_id);
        assert(fits(entries[entries.len() - 1].1));
        if entries.last().1 != 0 {
            assert(claims(entries).drop_last() =~= claims(before));
        }
    }
}

proof fn total_is_amount(entries: Seq<(i64, int)>, product_id: i64)
    requires
        ascending(entries),
    ensures
        orders::total_of(entries, product_id) == amount_of(entries, product_id),
        forall|i: int|
            0 <= i < entries.len() && (#[trigger] entries[i]).0 == product_id ==> entries[i].1
                == amount_of(entries, product_id),
    decreases entries.len(),
{
    if entries.len() > 0 {
        let before = entries.drop_last();
        assert(forall|i: int| 0 <= i < before.len() ==> #[trigger] before[i] == entries[i]);
        total_is_amount(before, product_id);
        amount_of_the_last(entries, product_id);
        assert forall|i: int|
            0 <= i < entries.len() && (#[trigger] entries[i]).0 == product_id implies entries[i].1
            == amount_of(entries, product_id) by {
            if i < before.len() {
                assert(before[i] == entries[i]);
                assert(entries[i].0 < entries[entries.len() - 1].0);
            }
        }
    }
}

proof fn amount_of_the_last(entries: Seq<(i64, int)>, product_id: i64)
    requires
        ascending(entries),
        entries.len() > 0,
    ensures
        entries.last().0 == product_id ==> amount_of(entries, product_id)
            == entries.last().1 && amount_of(entries.drop_last(), product_id) == 0,
        entries.last().0 != product_id ==> amount_of(entries, product_id)
            == amount_of(entries.drop_last(), product_id),
    decreases entries.len(),
{
    reveal_with_fuel(amount_of, 2);
    if entries.len() == 1 {
        assert(entries.drop_first() =~= Seq::<(i64, int)>::empty());
        assert(entries.drop_last() =~= Seq::<(i64, int)>::empty());
    } else {
        let rest = entries.drop_first();
        assert(forall|i: int| 0 <= i < rest.len() ==> #[trigger] rest[i] == entries[i + 1]);
        amount_of_the_last(rest, product_id);
        assert(rest.drop_last() =~= entries.drop_last().drop_first());
        assert(rest.last() == entries.last());
        assert(entries.drop_last()[0] == entries[0]);
        assert(entries[0].0 < entries[entries.len() - 1].0);
    }
}

proof fn requirement_is_what_is_claimed(wanted: Seq<(i64, Milli)>, product_id: i64)
    ensures
        stock::requirement(wanted) matches Ok(totals) ==> amount_of(
            totals,
            product_id,
        ) == claimed_of(wanted, product_id),
    decreases wanted.len(),
{
    if wanted.len() > 0 && stock::requirement(wanted) is Ok {
        requirement_is_what_is_claimed(wanted.drop_last(), product_id);
        stock::requirement_ascends(wanted.drop_last());
        adding_adds(
            stock::requirement(wanted.drop_last())->Ok_0,
            wanted.last().0,
            wanted.last().1.thousandths as int,
            product_id,
        );
    }
}

proof fn nothing_missing_means_enough(db: Store, totals: Seq<(i64, int)>, i: int)
    requires
        stock::missing_for(db, totals) matches Ok(found) && found.len() == 0,
        0 <= i < totals.len(),
        row(db.products@, totals[i].0) matches Some(listed) && listed.product.tracks_inventory,
    ensures
        stock::shelf(db, totals[i].0) matches Some(available) && available >= totals[i].1,
    decreases totals.len(),
{
    if i < totals.len() - 1 {
        assert(totals.drop_last()[i] == totals[i]);
        nothing_missing_means_enough(db, totals.drop_last(), i);
    }
}

/// Whatever is let through is on the shelf, together with everything that
/// orders in print have reserved. So no two orders can both have the last
/// bottle.
pub proof fn what_is_available_is_on_the_shelf(
    db: Store,
    wanted: Seq<(i64, int)>,
    product_id: i64,
)
    requires
        tidy(wanted),
        availability_refusal(db, wanted) is None,
        row(db.products@, product_id) matches Some(listed) && listed.product.tracks_inventory,
        amount_of(wanted, product_id) + reserved_for(db, db.orders@, product_id) != 0,
    ensures
        stock::shelf(db, product_id) matches Some(available) && available
            >= amount_of(wanted, product_id) + reserved_for(
            db,
            db.orders@,
            product_id,
        ),
{
    let entries = with_reserved(db, wanted, db.orders@)->Ok_0;
    reserving_adds(db, wanted, db.orders@, product_id);
    let asked = claims(entries);
    claims_claim_it_all(entries, product_id);
    total_is_amount(entries, product_id);
    requirement_is_what_is_claimed(asked, product_id);
    let totals = stock::requirement(asked)->Ok_0;
    stock::amount_is_listed(totals, product_id);
    let i = choose|i: int|
        0 <= i < totals.len() && (#[trigger] totals[i]).1 == amount_of(
            totals,
            product_id,
        ) && totals[i].0 == product_id;
    nothing_missing_means_enough(db, totals, i);
}

proof fn printing_reserves(
    before: Store,
    after: Store,
    orders: Seq<Order>,
    p: int,
    product_id: i64,
)
    requires
        0 <= p < orders.len(),
        orders[p].status == orders::Status::Draft,
        after.products == before.products,
        after.recipe_lines == before.recipe_lines,
        after.order_lines == before.order_lines,
    ensures
        reserved_for(
            after,
            orders.update(p, Order { status: orders::Status::Printing, ..orders[p] }),
            product_id,
        ) == reserved_for(before, orders, product_id) + orders::total_of(
            order_products(before, orders[p].id)->Ok_0,
            product_id,
        ),
    decreases orders.len(),
{
    let changed = orders.update(p, Order { status: orders::Status::Printing, ..orders[p] });
    orders::same_lines_same_consumption(
        before,
        after,
        orders::lines_of(before, orders.last().id),
    );
    if p == orders.len() - 1 {
        assert(changed.drop_last() =~= orders.drop_last());
        still_reserved(before, after, orders.drop_last(), product_id);
    } else {
        assert(changed.drop_last() =~= orders.drop_last().update(
            p,
            Order { status: orders::Status::Printing, ..orders[p] },
        ));
        printing_reserves(before, after, orders.drop_last(), p, product_id);
    }
}

proof fn still_reserved(before: Store, after: Store, orders: Seq<Order>, product_id: i64)
    requires
        after.products == before.products,
        after.recipe_lines == before.recipe_lines,
        after.order_lines == before.order_lines,
    ensures
        reserved_for(after, orders, product_id) == reserved_for(before, orders, product_id),
    decreases orders.len(),
{
    if orders.len() > 0 {
        still_reserved(before, after, orders.drop_last(), product_id);
        orders::same_lines_same_consumption(
            before,
            after,
            orders::lines_of(before, orders.last().id),
        );
    }
}

/// An order that was prepared is reserved until its print is resolved: exactly
/// what it consumes is set aside.
pub proof fn a_prepared_order_is_reserved(
    before: Store,
    after: Store,
    order_id: i64,
    cashier_id: i64,
    at: i64,
    prepared: PreparedIssue,
    product_id: i64,
)
    requires
        prepare_refusal(before, order_id, cashier_id) is None,
        issue_prepared(before, after, order_id, at, prepared),
    ensures
        reserved_for(after, after.orders@, product_id) == reserved_for(
            before,
            before.orders@,
            product_id,
        ) + amount_of(order_products(before, order_id)->Ok_0, product_id),
{
    crate::table::place_is_first(before.orders@, order_id);
    let p = place(before.orders@, order_id)->0;
    printing_reserves(before, after, before.orders@, p, product_id);
    orders::consumption_is_tidy(before, orders::lines_of(before, order_id));
    total_is_amount(order_products(before, order_id)->Ok_0, product_id);
}

proof fn sales_empty_the_shelf(
    db: Store,
    after: Seq<StockMovement>,
    order: Order,
    entries: Seq<(i64, int)>,
    by: i64,
    at: i64,
    n: int,
    product_id: i64,
)
    requires
        sales_posted(db, after, order, entries, by, at),
        0 <= n <= entries.len(),
    ensures
        crate::table::sum(after.take(db.movements@.len() + n), stock::moved(product_id))
            == crate::table::sum(db.movements@, stock::moved(product_id)) - orders::total_of(
            entries.take(n),
            product_id,
        ),
    decreases n,
{
    let len = db.movements@.len();
    if n == 0 {
        assert(entries.take(0) =~= Seq::<(i64, int)>::empty());
    } else {
        sales_empty_the_shelf(db, after, order, entries, by, at, n - 1, product_id);
        assert(after.take(len + n).drop_last() =~= after.take(len + n - 1));
        assert(after.take(len + n).last() == after[len + (n - 1)]);
        assert(entries.take(n).drop_last() =~= entries.take(n - 1));
        assert(sale_says(after[len + (n - 1)], db, order, entries[n - 1], n - 1, by, at));
    }
}

/// Issuing an order takes off each shelf exactly what the recipes on the order
/// consume, however its print was resolved.
pub proof fn an_issue_takes_what_the_recipes_say(
    before: Store,
    after: Store,
    order: Order,
    outcome: FinalOutcome,
    by: i64,
    at: i64,
    product_id: i64,
)
    requires
        issue_completed(before, after, order, outcome, by, at),
    ensures
        order_products(before, order.id) matches Ok(entries) && crate::table::sum(
            after.movements@,
            stock::moved(product_id),
        ) == crate::table::sum(before.movements@, stock::moved(product_id))
            - amount_of(entries, product_id),
{
    let entries = order_products(before, order.id)->Ok_0;
    let n = entries.len() as int;
    sales_empty_the_shelf(before, after.movements@, order, entries, by, at, n, product_id);
    assert(after.movements@.take(before.movements@.len() + n) =~= after.movements@);
    assert(entries.take(n) =~= entries);
    orders::consumption_is_tidy(before, orders::lines_of(before, order.id));
    total_is_amount(entries, product_id);
}

proof fn resolving_releases(
    before: Store,
    after: Store,
    orders: Seq<Order>,
    p: int,
    changed: Order,
    product_id: i64,
)
    requires
        0 <= p < orders.len(),
        orders[p].status == orders::Status::Printing,
        changed.status != orders::Status::Printing,
        after.products == before.products,
        after.recipe_lines == before.recipe_lines,
        after.order_lines == before.order_lines,
    ensures
        reserved_for(after, orders.update(p, changed), product_id) == reserved_for(
            before,
            orders,
            product_id,
        ) - orders::total_of(order_products(before, orders[p].id)->Ok_0, product_id),
    decreases orders.len(),
{
    let resolved = orders.update(p, changed);
    if p == orders.len() - 1 {
        assert(resolved.drop_last() =~= orders.drop_last());
        still_reserved(before, after, orders.drop_last(), product_id);
    } else {
        assert(resolved.drop_last() =~= orders.drop_last().update(p, changed));
        resolving_releases(before, after, orders.drop_last(), p, changed, product_id);
        orders::same_lines_same_consumption(
            before,
            after,
            orders::lines_of(before, orders.last().id),
        );
    }
}

/// Whether the shelf holds all that printing orders have reserved of a product.
pub open spec fn covered(db: Store, product_id: i64) -> bool {
    crate::table::sum(db.movements@, stock::moved(product_id)) >= reserved_for(
        db,
        db.orders@,
        product_id,
    )
}

/// Insufficient stock always blocks the sale: an order is only prepared where
/// the shelf covers it together with every order that is still printing.
pub proof fn a_prepared_order_is_covered(
    before: Store,
    after: Store,
    order_id: i64,
    cashier_id: i64,
    at: i64,
    prepared: PreparedIssue,
    product_id: i64,
)
    requires
        prepare_refusal(before, order_id, cashier_id) is None,
        issue_prepared(before, after, order_id, at, prepared),
        row(before.products@, product_id) matches Some(listed) && listed.product.tracks_inventory,
        reserved_for(after, after.orders@, product_id) != 0,
    ensures
        covered(after, product_id),
{
    let wanted = order_products(before, order_id)->Ok_0;
    a_prepared_order_is_reserved(
        before,
        after,
        order_id,
        cashier_id,
        at,
        prepared,
        product_id,
    );
    orders::consumption_is_tidy(before, orders::lines_of(before, order_id));
    what_is_available_is_on_the_shelf(before, wanted, product_id);
    crate::table::running_sum_is_the_sum(before.movements@, stock::moved(product_id));
}

/// A sale never takes what another order has reserved: where the shelf covered
/// every printing order, it still covers the rest once one of them is issued.
pub proof fn an_issue_leaves_the_rest_covered(
    before: Store,
    after: Store,
    order: Order,
    outcome: FinalOutcome,
    by: i64,
    at: i64,
    product_id: i64,
)
    requires
        row(before.orders@, order.id) == Some(order),
        order.status == orders::Status::Printing,
        issue_completed(before, after, order, outcome, by, at),
        covered(before, product_id),
    ensures
        covered(after, product_id),
{
    crate::table::place_is_first(before.orders@, order.id);
    let p = place(before.orders@, order.id)->0;
    let issued = Order { status: orders::Status::Issued, issued_at: Some(at), ..order };
    resolving_releases(before, after, before.orders@, p, issued, product_id);
    an_issue_takes_what_the_recipes_say(before, after, order, outcome, by, at, product_id);
    orders::consumption_is_tidy(before, orders::lines_of(before, order.id));
    total_is_amount(order_products(before, order.id)->Ok_0, product_id);
}

/// A print that never came out gives back what it had set aside: exactly what
/// the order consumes is free again.
pub proof fn a_non_print_frees_what_it_reserved(
    before: Store,
    after: Store,
    order: Order,
    by: i64,
    at: i64,
    product_id: i64,
)
    requires
        row(before.orders@, order.id) == Some(order),
        order.status == orders::Status::Printing,
        order_products(before, order.id) is Ok,
        print_abandoned(before, after, order, by, at),
    ensures
        reserved_for(after, after.orders@, product_id) == reserved_for(
            before,
            before.orders@,
            product_id,
        ) - amount_of(order_products(before, order.id)->Ok_0, product_id),
        after.movements == before.movements,
{
    crate::table::place_is_first(before.orders@, order.id);
    let p = place(before.orders@, order.id)->0;
    let draft = Order { status: orders::Status::Draft, ..order };
    resolving_releases(before, after, before.orders@, p, draft, product_id);
    orders::consumption_is_tidy(before, orders::lines_of(before, order.id));
    total_is_amount(order_products(before, order.id)->Ok_0, product_id);
}

/// Whether every attempt is at a receipt whose identity was given out.
pub open spec fn attempts_are_placed(db: Store) -> bool {
    forall|i: int|
        0 <= i < db.prints@.len() ==> (#[trigger] db.prints@[i]).receipt_id <= largest_id(
            db.receipts@,
        )
}

proof fn attempts_can_be_written(
    db: Store,
    slips: Seq<Receipt>,
    reason: Seq<char>,
    shift_id: i64,
    by: i64,
    n: int,
)
    requires
        0 <= n <= slips.len(),
        room_for(db.prints@, slips.len() as int),
        forall|k: int|
            0 <= k < slips.len() ==> receipts::first_attempt_objection(
                db,
                (#[trigger] slips[k]).id,
                FinalOutcome::Success,
                reason,
                shift_id,
                by,
            ) is None,
    ensures
        attempts_refusal(db, slips, FinalOutcome::Success, reason, shift_id, by, n) is None,
    decreases n,
{
    if n > 0 {
        attempts_can_be_written(db, slips, reason, shift_id, by, n - 1);
        assert(receipts::first_attempt_objection(
            db,
            slips[n - 1].id,
            FinalOutcome::Success,
            reason,
            shift_id,
            by,
        ) is None);
    }
}

proof fn sales_can_be_posted(before: Store, after: Store, entries: Seq<(i64, int)>, n: int)
    requires
        0 <= n <= entries.len(),
        tidy(entries),
        grouping_refusal(before, entries, entries.len() as int) is None,
        forall|k: int| 0 <= k < entries.len() ==> (#[trigger] entries[k]).1 > 0,
        after.products == before.products,
        room_for(after.movements@, entries.len() as int),
    ensures
        sales_refusal(after, entries, n) is None,
    decreases n,
{
    if n > 0 {
        sales_can_be_posted(before, after, entries, n - 1);
        grouping_fails_onward(before, entries, n, entries.len() as int);
        assert(grouping_refusal(before, entries, n) is None);
        assert(fits(entries[n - 1].1));
    }
}

/// A slip that was just made stands under its own identity, and nobody has
/// tried to print it.
proof fn a_new_slip_is_a_first_try(
    before: Store,
    after: Store,
    order: Order,
    made: Seq<Receipt>,
    k: int,
)
    requires
        0 <= k < made.len(),
        after.receipts@ == before.receipts@ + made,
        after.prints == before.prints,
        attempts_are_placed(before),
        forall|i: int|
            0 <= i < made.len() ==> (#[trigger] made[i]).id == largest_id(before.receipts@) + 1 + i,
        made[k].kind == receipts::Kind::Issue,
        made[k].status == receipts::Status::Pending,
        made[k].rendered_text is Some,
        made[k].shift_id == order.shift_id,
    ensures
        receipts::first_try(after, made[k].id, order.shift_id),
{
    let n = before.receipts@.len();
    let id = made[k].id;
    crate::table::largest_bounds(before.receipts@);
    crate::table::place_is_first(after.receipts@, id);
    assert(after.receipts@[n + k] == made[k]);
    assert(after.receipts@[n + k].key() == id);
    let p = place(after.receipts@, id)->0;
    if p < n {
        assert(after.receipts@[p] == before.receipts@[p]);
        assert(before.receipts@[p].key() <= largest_id(before.receipts@));
    } else {
        assert(after.receipts@[p] == made[p - n]);
    }
    if any(after.prints@, of_receipt(id)) {
        let wanted = of_receipt(id);
        let i = choose|i: int| 0 <= i < after.prints@.len() && #[trigger] wanted(after.prints@[i]);
        assert(before.prints@[i].receipt_id <= largest_id(before.receipts@));
    }
}

/// New receipts do not change whose receipt an older identity is.
proof fn older_receipts_stay(before: Store, after: Store, made: Seq<Receipt>, id: i64)
    requires
        after.receipts@ == before.receipts@ + made,
        id <= largest_id(before.receipts@),
        forall|i: int|
            0 <= i < made.len() ==> (#[trigger] made[i]).id == largest_id(before.receipts@) + 1 + i,
    ensures
        row(after.receipts@, id) == row(before.receipts@, id),
{
    let n = before.receipts@.len();
    crate::table::place_is_first(before.receipts@, id);
    crate::table::place_is_first(after.receipts@, id);
    assert(forall|i: int| 0 <= i < n ==> #[trigger] after.receipts@[i] == before.receipts@[i]);
    if let Some(p) = place(before.receipts@, id) {
        assert(after.receipts@[p].key() == id);
        let q = place(after.receipts@, id)->0;
        assert(before.receipts@[q].key() == id);
    } else if let Some(q) = place(after.receipts@, id) {
        if q < n {
            assert(before.receipts@[q].key() == id);
        } else {
            assert(after.receipts@[q] == made[q - n]);
        }
    }
}

/// A live slip of an order is one of its receipts, and not void.
proof fn a_live_slip_is_a_receipt(db: Store, order_id: i64, k: int)
    requires
        0 <= k < live_slips(db, order_id).len(),
    ensures
        db.receipts@.contains(live_slips(db, order_id)[k]),
        live_slips(db, order_id)[k].order_id == Some(order_id),
        live_slips(db, order_id)[k].status != receipts::Status::Void,
{
    let own = crate::table::chosen(db.receipts@, receipts::of_order(order_id));
    let listed = receipts_of(db, order_id);
    let slip = live_slips(db, order_id)[k];
    crate::table::what_is_listed_is_there(
        db.receipts@,
        receipts::of_order(order_id),
        receipts::numbered_before(),
    );
    crate::table::what_is_listed_is_there(
        own,
        receipts::of_order(order_id),
        receipts::numbered_before(),
    );
    crate::table::what_is_listed_is_there(listed, is_live(), receipts::numbered_before());
    crate::table::chosen_meet_the_condition(db.receipts@, receipts::of_order(order_id));
    crate::table::chosen_meet_the_condition(listed, is_live());
    assert(listed.contains(slip));
    let i = choose|i: int| 0 <= i < listed.len() && listed[i] == slip;
    assert(own.contains(listed[i]));
    let j = choose|j: int| 0 <= j < own.len() && own[j] == slip;
    assert(receipts::of_order(order_id)(own[j]));
}

/// Whether nothing stands in the way of finishing an order, beyond what
/// preparing it asks for: no earlier slip that is not void, no trace of an
/// earlier issue, no attempt that nobody answered, no amount that rounds away,
/// and no table that is full.
pub open spec fn can_be_finished(db: Store, order_id: i64) -> bool {
    &&& attempts_are_placed(db)
    &&& !any(db.receipts@, orders::live_receipt_of(order_id))
    &&& !left_traces(db, order_id)
    &&& !any(db.prints@, undecided(db, order_id))
    &&& order_products(db, order_id) matches Ok(entries) && room_for(
        db.movements@,
        entries.len() as int,
    ) && (forall|k: int| 0 <= k < entries.len() ==> (#[trigger] entries[k]).1 > 0)
    &&& fresh_id(db.audit@) is Some
}

/// An order that was prepared can be confirmed: once the paper is out, nothing
/// that the preparation let through stands in the way.
pub proof fn a_prepared_order_can_be_confirmed(
    before: Store,
    after: Store,
    order_id: i64,
    cashier_id: i64,
    at: i64,
    prepared: PreparedIssue,
)
    requires
        prepare_refusal(before, order_id, cashier_id) is None,
        issue_prepared(before, after, order_id, at, prepared),
        can_be_finished(before, order_id),
        room_for(after.prints@, live_slips(after, order_id).len() as int),
    ensures
        confirm_refusal(after, order_id, cashier_id) is None,
{
    let id = order_id;
    let made = prepared.receipts@;
    let n = before.receipts@.len();
    let slips = slips_of(before, id);
    let bar = bar_lines(before, id).len() > 0;
    let kitchen = kitchen_lines(before, id).len() > 0;
    crate::table::place_is_first(before.orders@, id);
    let p = place(before.orders@, id)->0;
    let order = before.orders@[p];
    let printing = Order { status: orders::Status::Printing, ..order };
    changing_keeps_places(before.orders@, p, printing, id);
    assert(paper_refusal(before, id, bar, kitchen) is None);
    assert(issuable(before, id) is Some);
    assert forall|k: int| 0 <= k < made.len() implies slip_says(
        #[trigger] made[k],
        before,
        order,
        slips[k].0,
        slips[k].1,
        k,
        at,
    ) by {}
    made_slips_match(before, after, order, made, bar, kitchen);
    assert(after.receipts@[n as int] == made[0]);
    assert(orders::live_receipt_of(id)(after.receipts@[n as int]));
    if any(after.receipts@, astray(id, true)) {
        let wanted = astray(id, true);
        let i = choose|i: int|
            0 <= i < after.receipts@.len() && #[trigger] wanted(after.receipts@[i]);
        if i < n {
            assert(orders::live_receipt_of(id)(before.receipts@[i]));
        } else {
            assert(after.receipts@[i] == made[i - n]);
        }
    }
    let live = live_slips(after, id);
    assert forall|k: int| 0 <= k < live.len() implies receipts::first_attempt_objection(
        after,
        (#[trigger] live[k]).id,
        FinalOutcome::Success,
        ""@,
        order.shift_id,
        cashier_id,
    ) is None by {
        a_live_slip_is_a_receipt(after, id, k);
        let i = choose|i: int| 0 <= i < after.receipts@.len() && after.receipts@[i] == live[k];
        if i < n {
            assert(orders::live_receipt_of(id)(before.receipts@[i]));
        }
        assert(live[k] == made[i - n]);
        a_new_slip_is_a_first_try(before, after, order, made, i - n);
    }
    attempts_can_be_written(after, live, ""@, order.shift_id, cashier_id, live.len() as int);
    if any(after.prints@, undecided(after, id)) {
        let wanted = undecided(after, id);
        let i = choose|i: int| 0 <= i < after.prints@.len() && #[trigger] wanted(after.prints@[i]);
        older_receipts_stay(before, after, made, before.prints@[i].receipt_id);
        assert(undecided(before, id)(before.prints@[i]));
    }
    orders::consumption_is_tidy(before, orders::lines_of(before, id));
    orders::same_lines_same_consumption(before, after, orders::lines_of(before, id));
    let entries = order_products(before, id)->Ok_0;
    sales_can_be_posted(before, after, entries, entries.len() as int);
}

/// A print that never came out can be retried under new numbers: once the order
/// was prepared again it can be confirmed, and then the order is issued, the
/// slips of the first try stay void and those of the second are printed.
pub proof fn a_non_print_can_be_printed_again(
    printing: Store,
    draft: Store,
    again: Store,
    order: Order,
    by: i64,
    given_up_at: i64,
    at: i64,
    prepared: PreparedIssue,
)
    requires
        row(printing.orders@, order.id) == Some(order),
        order.status == orders::Status::Printing,
        non_print_refusal(printing, order.id, by) is None,
        print_abandoned(printing, draft, order, by, given_up_at),
        prepare_refusal(draft, order.id, by) is None,
        issue_prepared(draft, again, order.id, at, prepared),
        attempts_are_placed(printing),
        !left_traces(printing, order.id),
        !any(printing.prints@, undecided(printing, order.id)),
        order_products(printing, order.id) matches Ok(entries) && room_for(
            printing.movements@,
            entries.len() as int,
        ) && (forall|k: int| 0 <= k < entries.len() ==> (#[trigger] entries[k]).1 > 0),
        room_for(printing.prints@, live_slips(again, order.id).len() as int),
        fresh_id(draft.audit@) is Some,
    ensures
        confirm_refusal(again, order.id, by) is None,
        forall|after: Store, confirmed_at: i64|
            #[trigger] issue_completed(
                again,
                after,
                prepared.order,
                FinalOutcome::Success,
                by,
                confirmed_at,
            ) ==> {
                &&& row(after.orders@, order.id) matches Some(issued) && issued.status
                    == orders::Status::Issued
                &&& after.receipts@.len() == printing.receipts@.len() + prepared.receipts@.len()
                &&& forall|i: int|
                    0 <= i < printing.receipts@.len() && waits(printing.receipts@[i], order.id)
                        ==> (#[trigger] after.receipts@[i]).status == receipts::Status::Void
                &&& forall|i: int|
                    printing.receipts@.len() <= i < after.receipts@.len() ==> (
                    #[trigger] after.receipts@[i]).status == receipts::Status::Printed
            },
{
    let id = order.id;
    let n = printing.receipts@.len();
    // Giving up leaves no live slip, no trace of an issue and no open question.
    crate::table::place_is_first(printing.orders@, id);
    let p = place(printing.orders@, id)->0;
    let back = Order { status: orders::Status::Draft, ..order };
    changing_keeps_places(printing.orders@, p, back, id);
    if any(draft.receipts@, orders::live_receipt_of(id)) {
        let wanted = orders::live_receipt_of(id);
        let i = choose|i: int|
            0 <= i < draft.receipts@.len() && #[trigger] wanted(draft.receipts@[i]);
        assert(!astray(id, false)(printing.receipts@[i]));
    }
    nothing_was_issued(printing, draft, order, by, given_up_at);
    if any(draft.prints@, undecided(draft, id)) {
        let wanted = undecided(draft, id);
        let i = choose|i: int| 0 <= i < draft.prints@.len() && #[trigger] wanted(draft.prints@[i]);
        same_places(printing.receipts@, draft.receipts@, printing.prints@[i].receipt_id);
        assert(undecided(printing, id)(printing.prints@[i]));
    }
    same_identities(printing.receipts@, draft.receipts@);
    orders::same_lines_same_consumption(printing, draft, orders::lines_of(printing, id));
    a_prepared_order_can_be_confirmed(draft, again, id, by, at, prepared);
    assert forall|after: Store, confirmed_at: i64|
        #[trigger] issue_completed(
            again,
            after,
            prepared.order,
            FinalOutcome::Success,
            by,
            confirmed_at,
        ) implies {
        &&& row(after.orders@, id) matches Some(issued) && issued.status == orders::Status::Issued
        &&& after.receipts@.len() == n + prepared.receipts@.len()
        &&& forall|i: int|
            0 <= i < n && waits(printing.receipts@[i], id) ==> (
            #[trigger] after.receipts@[i]).status == receipts::Status::Void
        &&& forall|i: int|
            n <= i < after.receipts@.len() ==> (#[trigger] after.receipts@[i]).status
                == receipts::Status::Printed
    } by {
        crate::table::place_is_first(again.orders@, id);
        let q = place(again.orders@, id)->0;
        let issued = Order {
            status: orders::Status::Issued,
            issued_at: Some(confirmed_at),
            ..prepared.order
        };
        changing_keeps_places(again.orders@, q, issued, id);
        assert forall|i: int| 0 <= i < n && waits(printing.receipts@[i], id) implies (
        #[trigger] after.receipts@[i]).status == receipts::Status::Void by {
            assert(draft.receipts@[i].status == receipts::Status::Void);
            assert(again.receipts@[i] == draft.receipts@[i]);
        }
        assert forall|i: int| n <= i < after.receipts@.len() implies (
        #[trigger] after.receipts@[i]).status == receipts::Status::Printed by {
            assert(again.receipts@[i] == prepared.receipts@[i - n]);
            assert(waits(again.receipts@[i], id));
        }
    }
}

proof fn nothing_was_issued(before: Store, after: Store, order: Order, by: i64, at: i64)
    requires
        print_abandoned(before, after, order, by, at),
        !left_traces(before, order.id),
    ensures
        !left_traces(after, order.id),
{
    reveal_strlit("PRINT_ABANDONED");
    reveal_strlit("ORDER_ISSUED");
    reveal_strlit("ORDER_ISSUED_HANDWRITTEN");
    assert("PRINT_ABANDONED"@.len() != "ORDER_ISSUED"@.len());
    assert("PRINT_ABANDONED"@.len() != "ORDER_ISSUED_HANDWRITTEN"@.len());
    let n = before.audit@.len();
    assert forall|action: Seq<char>|
        !any(before.audit@, #[trigger] logged(order.id, action)) && action
            != "PRINT_ABANDONED"@ implies !any(after.audit@, logged(order.id, action)) by {
        let wanted = logged(order.id, action);
        if any(after.audit@, wanted) {
            let i = choose|i: int|
                0 <= i < after.audit@.len() && #[trigger] wanted(after.audit@[i]);
            if i < n {
                assert(after.audit@.drop_last()[i] == after.audit@[i]);
                assert(wanted(before.audit@[i]));
            }
        }
    }
}

proof fn same_identities(before: Seq<Receipt>, after: Seq<Receipt>)
    requires
        after.len() == before.len(),
        forall|i: int| 0 <= i < before.len() ==> (#[trigger] after[i]).id == before[i].id,
    ensures
        largest_id(after) == largest_id(before),
    decreases before.len(),
{
    if before.len() > 0 {
        assert(forall|i: int|
            0 <= i < before.len() - 1 ==> (#[trigger] after.drop_last()[i]).id
                == before.drop_last()[i].id);
        same_identities(before.drop_last(), after.drop_last());
    }
}

} // verus!

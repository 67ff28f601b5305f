//! What a night came to, frozen at the moment it closed.
//!
//! Every other view is a live sum over the ledgers. A shift report is the
//! deliberate exception: it is the night's fraud-control document, and a
//! document that recalculates itself is not evidence. So the figures are
//! computed once, here, and stored twice: as figures and as the exact text
//! that goes on paper. Money in it is already formatted, so that a report read
//! next year still matches the paper that was signed.

use vstd::prelude::*;

use crate::calendar::{business_date, date_label, describe, read_business_date, Date};
use crate::commands::{owner_refusal, require_owner, CommandError, CommandWhy};
use crate::money::{fits, milli_text, Milli, Money, MoneyError};
use crate::repo::cash::{self, drawer, CashMovement, MovementType, Reconciliation, TabPayment};
use crate::repo::orders::{self, CorrectionKind, CorrectionRow, Line};
use crate::repo::reports::{self, final_report, NewReport, Stored};
use crate::repo::shifts::{self, closed_nights, shift, Shift};
use crate::repo::staff::{self, person};
use crate::repo::{RepoError, SqlError, SqlWhy, Why};
use crate::settings::{keys, setting, settings_map, shown, Settings};
use crate::state::Session;
use crate::store::{grown, ledgers_kept, Store};
use crate::table::{
    choose_rows, chosen, count, count_rows, find_place, fresh_id, in_order, row, running_sum,
    sort_rows, sum_rows, Row,
};
use crate::tally::{added, figures, tally, Tallied};
use crate::text::{is_blank, nat_text, push_nat, same, sorts_before, text_before, trimmed};

verus! {

/// What one waiter settled over a night.
#[derive(Debug, Clone, PartialEq, Eq)]
pub struct WaiterLine {
    pub name: String,
    pub expected: String,
    pub cash: String,
    pub non_cash: String,
    pub written_off: String,
    pub shortfall: String,
}

/// What one drink came to over a night.
#[derive(Debug, Clone, PartialEq, Eq)]
pub struct ItemLine {
    pub name: String,
    pub quantity: String,
    pub value: String,
}

/// One night, whole.
///
/// What was billed is never added to the drawer figures: they answer different
/// questions, and summing them counts the night twice. What never reached the
/// drawer, settled otherwise or forgiven, is on the report precisely because it
/// is not there to be counted.
#[derive(Debug, Clone, PartialEq, Eq)]
pub struct ShiftReport {
    pub venue_name: String,
    pub shift_code: String,
    pub business_date: String,
    pub business_date_label: String,
    pub opened_at_label: String,
    pub opened_by: String,
    pub closed_at_label: String,
    pub closed_by: String,
    pub tabs_settled: usize,
    pub gross_sales: String,
    pub service_charge: String,
    pub tax: String,
    pub total_billed: String,
    pub opening_float: String,
    pub cash_from_waiters: String,
    pub other_movements: String,
    pub expected_cash: String,
    pub counted_cash: String,
    pub variance: String,
    pub over: bool,
    pub balanced: bool,
    pub non_cash: String,
    pub written_off: String,
    pub waiters: Vec<WaiterLine>,
    pub items: Vec<ItemLine>,
    pub comped_tabs: usize,
    pub comped_value: String,
    pub corrections: usize,
    pub voids: usize,
}

/// The clock on the wall when a night opened and closed, as it is shown.
#[derive(Clone, Copy, Debug)]
pub struct Clocks<'a> {
    pub opened_at: &'a str,
    pub closed_at: &'a str,
}

/// The refusal of a sum that leaves 64 bits.
pub open spec fn unsummable() -> CommandWhy {
    CommandWhy::Repo(Why::Sqlite(SqlWhy::Overflow))
}

fn overflow() -> (result: CommandError)
    ensures
        result@ == unsummable(),
{
    CommandError::Repo(RepoError::Sqlite(SqlError::Overflow))
}

// ---------------------------------------------------------------------------
// What was billed
// ---------------------------------------------------------------------------

/// A figure on a frozen bill.
#[derive(Clone, Copy, Debug, PartialEq, Eq, Structural)]
pub enum Charge {
    Subtotal,
    Service,
    Tax,
    Total,
    /// The whole bill of a tab that the house paid for.
    Comped,
}

impl Charge {
    pub open spec fn on(self, payment: TabPayment) -> i64 {
        match self {
            Charge::Subtotal => payment.subtotal.minor,
            Charge::Service => payment.service_charge.minor,
            Charge::Tax => payment.tax.minor,
            Charge::Total => payment.total.minor,
            Charge::Comped => if payment.is_comped {
                payment.total.minor
            } else {
                0
            },
        }
    }

    fn read(self, payment: &TabPayment) -> (result: i64)
        ensures
            result == self.on(*payment),
    {
        match self {
            Charge::Subtotal => payment.subtotal.minor,
            Charge::Service => payment.service_charge.minor,
            Charge::Tax => payment.tax.minor,
            Charge::Total => payment.total.minor,
            Charge::Comped => if payment.is_comped {
                payment.total.minor
            } else {
                0
            },
        }
    }
}

pub open spec fn charged(shift_id: i64, charge: Charge) -> spec_fn(TabPayment) -> Option<i64> {
    |p: TabPayment|
        if p.shift_id == shift_id {
            Some(charge.on(p))
        } else {
            None
        }
}

/// What a charge comes to over a night.
pub open spec fn billed(db: Store, shift_id: i64, charge: Charge) -> Option<i64> {
    running_sum(db.payments@, charged(shift_id, charge))
}

fn sum_charge(db: &Store, shift_id: i64, charge: Charge) -> (result: Option<i64>)
    ensures
        result == billed(*db, shift_id, charge),
{
    sum_rows(
        &db.payments,
        |p: &TabPayment| -> (v: Option<i64>)
            ensures
                v == (if p.shift_id == shift_id {
                    Some(charge.on(*p))
                } else {
                    None
                })
            {
                if p.shift_id == shift_id {
                    Some(charge.read(p))
                } else {
                    None
                }
            },
        Ghost(charged(shift_id, charge)),
    )
}

pub open spec fn billed_in(shift_id: i64) -> spec_fn(TabPayment) -> bool {
    |p: TabPayment| p.shift_id == shift_id
}

pub open spec fn comped_in(shift_id: i64) -> spec_fn(TabPayment) -> bool {
    |p: TabPayment| p.shift_id == shift_id && p.is_comped
}

// ---------------------------------------------------------------------------
// The drawer
// ---------------------------------------------------------------------------

/// Where money in the drawer came from.
#[derive(Clone, Copy, Debug, PartialEq, Eq, Structural)]
pub enum Origin {
    Float,
    Waiters,
    Other,
}

impl Origin {
    pub open spec fn covers(self, kind: MovementType) -> bool {
        match self {
            Origin::Float => kind == MovementType::OpeningFloat,
            Origin::Waiters => kind == MovementType::Reconciliation,
            Origin::Other => kind == MovementType::Payout || kind == MovementType::Adjustment,
        }
    }

    fn is_for(self, kind: MovementType) -> (result: bool)
        ensures
            result == self.covers(kind),
    {
        match self {
            Origin::Float => kind == MovementType::OpeningFloat,
            Origin::Waiters => kind == MovementType::Reconciliation,
            Origin::Other => kind == MovementType::Payout || kind == MovementType::Adjustment,
        }
    }
}

pub open spec fn put_in(shift_id: i64, origin: Origin) -> spec_fn(CashMovement) -> Option<i64> {
    |m: CashMovement|
        if m.shift_id == shift_id && origin.covers(m.movement_type) {
            Some(m.amount.minor)
        } else {
            None
        }
}

/// What came into the drawer from there over a night.
pub open spec fn came_in(db: Store, shift_id: i64, origin: Origin) -> Option<i64> {
    running_sum(db.cash@, put_in(shift_id, origin))
}

fn sum_origin(db: &Store, shift_id: i64, origin: Origin) -> (result: Option<i64>)
    ensures
        result == came_in(*db, shift_id, origin),
{
    sum_rows(
        &db.cash,
        |m: &CashMovement| -> (v: Option<i64>)
            ensures
                v == (if m.shift_id == shift_id && origin.covers(m.movement_type) {
                    Some(m.amount.minor)
                } else {
                    None
                })
            {
                if m.shift_id == shift_id && origin.is_for(m.movement_type) {
                    Some(m.amount.minor)
                } else {
                    None
                }
            },
        Ghost(put_in(shift_id, origin)),
    )
}

/// What was counted at the close; nothing, where nobody has counted.
pub open spec fn counted(night: Shift) -> Money {
    match night.counted_cash {
        Some(money) => money,
        None => Money { minor: 0 },
    }
}

/// How far the drawer is out, in either direction.
pub open spec fn out_by(counted: Money, expected: Money) -> int {
    if counted.minor >= expected.minor {
        counted.minor - expected.minor
    } else {
        expected.minor - counted.minor
    }
}

// ---------------------------------------------------------------------------
// What waiters settled
// ---------------------------------------------------------------------------

/// What one waiter settled over a night, in figures.
#[derive(Debug, PartialEq, Eq)]
pub struct WaiterSum {
    pub waiter_id: i64,
    pub name: String,
    pub expected: i64,
    pub cash: i64,
    pub non_cash: i64,
    pub written_off: i64,
    pub shortfall: i64,
}

impl Clone for WaiterSum {
    fn clone(&self) -> (result: Self)
        ensures
            result == *self,
    {
        WaiterSum {
            waiter_id: self.waiter_id,
            name: self.name.clone(),
            expected: self.expected,
            cash: self.cash,
            non_cash: self.non_cash,
            written_off: self.written_off,
            shortfall: self.shortfall,
        }
    }
}

impl Row for WaiterSum {
    open spec fn key(&self) -> i64 {
        self.waiter_id
    }

    fn id(&self) -> (result: i64) {
        self.waiter_id
    }

    fn copy_row(&self) -> (result: Self) {
        self.clone()
    }
}

/// A figure of a settlement.
#[derive(Clone, Copy, Debug, PartialEq, Eq, Structural)]
pub enum Share {
    Expected,
    Cash,
    NonCash,
    WrittenOff,
    Shortfall,
}

impl Share {
    pub open spec fn of(self, r: Reconciliation) -> i64 {
        match self {
            Share::Expected => r.expected.minor,
            Share::Cash => r.cash.minor,
            Share::NonCash => r.non_cash.minor,
            Share::WrittenOff => r.written_off.minor,
            Share::Shortfall => r.shortfall.minor,
        }
    }

    fn read(self, r: &Reconciliation) -> (result: i64)
        ensures
            result == self.of(*r),
    {
        match self {
            Share::Expected => r.expected.minor,
            Share::Cash => r.cash.minor,
            Share::NonCash => r.non_cash.minor,
            Share::WrittenOff => r.written_off.minor,
            Share::Shortfall => r.shortfall.minor,
        }
    }
}

/// Whether a settlement was finalized in that night.
pub open spec fn settled_in(r: Reconciliation, shift_id: i64) -> bool {
    r.shift_id == shift_id && r.finalized_at is Some
}

pub open spec fn share_of(shift_id: i64, waiter_id: i64, share: Share) -> spec_fn(
    Reconciliation,
) -> Option<i64> {
    |r: Reconciliation|
        if settled_in(r, shift_id) && r.waiter_id == waiter_id {
            Some(share.of(r))
        } else {
            None
        }
}

/// What a waiter's settlements of a night come to.
pub open spec fn shared(db: Store, shift_id: i64, waiter_id: i64, share: Share) -> Option<i64> {
    running_sum(db.reconciliations@, share_of(shift_id, waiter_id, share))
}

fn sum_share(db: &Store, shift_id: i64, waiter_id: i64, share: Share) -> (result: Option<i64>)
    ensures
        result == shared(*db, shift_id, waiter_id, share),
{
    sum_rows(
        &db.reconciliations,
        |r: &Reconciliation| -> (v: Option<i64>)
            ensures
                v == (if settled_in(*r, shift_id) && r.waiter_id == waiter_id {
                    Some(share.of(*r))
                } else {
                    None
                })
            {
                if r.shift_id == shift_id && r.finalized_at.is_some() && r.waiter_id == waiter_id {
                    Some(share.read(r))
                } else {
                    None
                }
            },
        Ghost(share_of(shift_id, waiter_id, share)),
    )
}

/// Every waiter who settled in a night, each once, with nothing to their name
/// yet.
pub open spec fn settlers(db: Store, rows: Seq<Reconciliation>, shift_id: i64) -> Seq<(i64, int)>
    decreases rows.len(),
{
    if rows.len() == 0 {
        Seq::empty()
    } else {
        let before = settlers(db, rows.drop_last(), shift_id);
        if settled_in(rows.last(), shift_id) && person(db, rows.last().waiter_id) is Some {
            added(before, rows.last().waiter_id, 0)
        } else {
            before
        }
    }
}

/// What a waiter settled, unless a sum leaves 64 bits.
pub open spec fn waiter_sum(db: Store, shift_id: i64, waiter_id: i64) -> Option<WaiterSum> {
    match (
        shared(db, shift_id, waiter_id, Share::Expected),
        shared(db, shift_id, waiter_id, Share::Cash),
        shared(db, shift_id, waiter_id, Share::NonCash),
        shared(db, shift_id, waiter_id, Share::WrittenOff),
        shared(db, shift_id, waiter_id, Share::Shortfall),
    ) {
        (Some(expected), Some(cash), Some(non_cash), Some(written_off), Some(shortfall)) => Some(
            WaiterSum {
                waiter_id,
                name: person(db, waiter_id)->0.name,
                expected,
                cash,
                non_cash,
                written_off,
                shortfall,
            },
        ),
        _ => None,
    }
}

/// What those waiters settled, unless a sum leaves 64 bits.
pub open spec fn waiter_sums(db: Store, shift_id: i64, who: Seq<(i64, int)>) -> Option<
    Seq<WaiterSum>,
>
    decreases who.len(),
{
    if who.len() == 0 {
        Some(Seq::empty())
    } else {
        match (
            waiter_sums(db, shift_id, who.drop_last()),
            waiter_sum(db, shift_id, who.last().0),
        ) {
            (Some(before), Some(sum)) => Some(before.push(sum)),
            _ => None,
        }
    }
}

pub open spec fn named_before() -> spec_fn(WaiterSum, WaiterSum) -> bool {
    |a: WaiterSum, b: WaiterSum| text_before(a.name@, b.name@)
}

/// What every waiter settled over a night, by name.
pub open spec fn settlements(db: Store, shift_id: i64) -> Option<Seq<WaiterSum>> {
    match waiter_sums(db, shift_id, settlers(db, db.reconciliations@, shift_id)) {
        Some(sums) => Some(in_order(sums, named_before())),
        None => None,
    }
}

proof fn settlers_ascend(db: Store, rows: Seq<Reconciliation>, shift_id: i64)
    ensures
        crate::tally::ascending(settlers(db, rows, shift_id)),
        forall|i: int|
            0 <= i < settlers(db, rows, shift_id).len() ==> {
                &&& person(db, (#[trigger] settlers(db, rows, shift_id)[i]).0) is Some
                &&& settlers(db, rows, shift_id)[i].1 == 0
            },
    decreases rows.len(),
{
    if rows.len() > 0 {
        settlers_ascend(db, rows.drop_last(), shift_id);
        let before = settlers(db, rows.drop_last(), shift_id);
        let id = rows.last().waiter_id;
        if settled_in(rows.last(), shift_id) && person(db, id) is Some {
            crate::tally::adding_adds(before, id, 0, id);
            let after = added(before, id, 0);
            zero_stays_zero(before, id);
            assert forall|i: int| 0 <= i < after.len() implies person(
                db,
                (#[trigger] after[i]).0,
            ) is Some by {
                crate::tally::adding_adds(before, id, 0, after[i].0);
                assert(crate::tally::lists(after, after[i].0));
                if after[i].0 != id {
                    let k = choose|k: int|
                        0 <= k < before.len() && (#[trigger] before[k]).0 == after[i].0;
                    assert(person(db, before[k].0) is Some);
                }
            }
        }
    }
}

proof fn zero_stays_zero(entries: Seq<(i64, int)>, id: i64)
    requires
        forall|i: int| 0 <= i < entries.len() ==> (#[trigger] entries[i]).1 == 0,
    ensures
        forall|i: int| 0 <= i < added(entries, id, 0).len() ==> (#[trigger] added(entries, id, 0)[i]).1 == 0,
        crate::tally::amount_of(entries, id) == 0,
    decreases entries.len(),
{
    if entries.len() > 0 {
        let rest = entries.drop_first();
        assert(forall|i: int| 0 <= i < rest.len() ==> #[trigger] rest[i] == entries[i + 1]);
        zero_stays_zero(rest, id);
        let after = added(entries, id, 0);
        assert forall|i: int| 0 <= i < after.len() implies (#[trigger] after[i]).1 == 0 by {
            if entries[0].0 == id {
                if i > 0 {
                    assert(after[i] == rest[i - 1]);
                }
            } else if id < entries[0].0 {
                if i > 0 {
                    assert(after[i] == entries[i - 1]);
                }
            } else if i > 0 {
                assert(after[i] == added(rest, id, 0)[i - 1]);
            }
        }
    }
}

fn find_settlers(db: &Store, shift_id: i64) -> (result: Vec<Tallied>)
    ensures
        figures(result@) == settlers(*db, db.reconciliations@, shift_id),
{
    let mut who: Vec<Tallied> = Vec::new();
    let mut i: usize = 0;
    assert(figures(who@) =~= Seq::<(i64, int)>::empty());
    assert(db.reconciliations@.take(0) =~= Seq::<Reconciliation>::empty());
    while i < db.reconciliations.len()
        invariant
            i <= db.reconciliations.len(),
            figures(who@) == settlers(*db, db.reconciliations@.take(i as int), shift_id),
        decreases db.reconciliations.len() - i,
    {
        let r: &Reconciliation = &db.reconciliations[i];
        proof {
            let upto = db.reconciliations@.take(i + 1);
            assert(upto.drop_last() =~= db.reconciliations@.take(i as int));
            assert(upto.last() == *r);
            settlers_ascend(*db, upto.drop_last(), shift_id);
            zero_stays_zero(figures(who@), r.waiter_id);
        }
        if r.shift_id == shift_id && r.finalized_at.is_some() && staff::find(
            db,
            r.waiter_id,
        ).is_ok() {
            let kept: bool = tally(&mut who, r.waiter_id, 0);
            assert(kept);
        }
        i = i + 1;
    }
    assert(db.reconciliations@.take(db.reconciliations@.len() as int) =~= db.reconciliations@);
    who
}

fn sum_waiter(db: &Store, shift_id: i64, waiter_id: i64) -> (result: Option<WaiterSum>)
    requires
        person(*db, waiter_id) is Some,
    ensures
        result == waiter_sum(*db, shift_id, waiter_id),
{
    let name: String = match staff::find(db, waiter_id) {
        Ok(found) => found.name,
        Err(_) => String::new(),
    };
    match (
        sum_share(db, shift_id, waiter_id, Share::Expected),
        sum_share(db, shift_id, waiter_id, Share::Cash),
        sum_share(db, shift_id, waiter_id, Share::NonCash),
        sum_share(db, shift_id, waiter_id, Share::WrittenOff),
        sum_share(db, shift_id, waiter_id, Share::Shortfall),
    ) {
        (Some(expected), Some(cash), Some(non_cash), Some(written_off), Some(shortfall)) => Some(
            WaiterSum { waiter_id, name, expected, cash, non_cash, written_off, shortfall },
        ),
        _ => None,
    }
}

proof fn waiters_fail_onward(db: Store, shift_id: i64, who: Seq<(i64, int)>, n: int)
    requires
        0 <= n <= who.len(),
        waiter_sums(db, shift_id, who.take(n)) is None,
    ensures
        waiter_sums(db, shift_id, who) is None,
    decreases who.len() - n,
{
    if n == who.len() {
        assert(who.take(n) =~= who);
    } else {
        assert(who.take(n + 1).drop_last() =~= who.take(n));
        waiters_fail_onward(db, shift_id, who, n + 1);
    }
}

fn sum_waiters(db: &Store, shift_id: i64) -> (result: Option<Vec<WaiterSum>>)
    ensures
        match settlements(*db, shift_id) {
            Some(sums) => result matches Some(list) && list@ == sums,
            None => result is None,
        },
{
    let who: Vec<Tallied> = find_settlers(db, shift_id);
    let ghost all = figures(who@);
    let mut sums: Vec<WaiterSum> = Vec::new();
    let mut i: usize = 0;
    proof {
        settlers_ascend(*db, db.reconciliations@, shift_id);
        assert(all.take(0) =~= Seq::<(i64, int)>::empty());
    }
    while i < who.len()
        invariant
            i <= who.len(),
            all == figures(who@),
            all == settlers(*db, db.reconciliations@, shift_id),
            forall|k: int| 0 <= k < all.len() ==> person(*db, (#[trigger] all[k]).0) is Some,
            waiter_sums(*db, shift_id, all.take(i as int)) == Some(sums@),
        decreases who.len() - i,
    {
        proof {
            assert(all.take(i + 1).drop_last() =~= all.take(i as int));
            assert(all.take(i + 1).last() == all[i as int]);
        }
        match sum_waiter(db, shift_id, who[i].product_id) {
            Some(sum) => {
                sums.push(sum);
            },
            None => {
                proof {
                    waiters_fail_onward(*db, shift_id, all, i + 1);
                }
                return None;
            },
        }
        i = i + 1;
    }
    assert(all.take(all.len() as int) =~= all);
    let sorted: Vec<WaiterSum> = sort_rows(
        &sums,
        |a: &WaiterSum, b: &WaiterSum| -> (r: bool)
            ensures
                r == (text_before(a.name@, b.name@))
            { sorts_before(a.name.as_str(), b.name.as_str()) },
        Ghost(named_before()),
    );
    Some(sorted)
}

pub open spec fn non_cash_of() -> spec_fn(WaiterSum) -> Option<i64> {
    |s: WaiterSum| Some(s.non_cash)
}

pub open spec fn written_off_of() -> spec_fn(WaiterSum) -> Option<i64> {
    |s: WaiterSum| Some(s.written_off)
}

// ---------------------------------------------------------------------------
// What was sold
// ---------------------------------------------------------------------------

/// What one drink came to over a night, in figures, under its first line.
#[derive(Debug, PartialEq, Eq)]
pub struct ItemSum {
    pub line_id: i64,
    pub name: String,
    pub quantity: i64,
    pub value: i64,
}

impl Clone for ItemSum {
    fn clone(&self) -> (result: Self)
        ensures
            result == *self,
    {
        ItemSum {
            line_id: self.line_id,
            name: self.name.clone(),
            quantity: self.quantity,
            value: self.value,
        }
    }
}

impl Row for ItemSum {
    open spec fn key(&self) -> i64 {
        self.line_id
    }

    fn id(&self) -> (result: i64) {
        self.line_id
    }

    fn copy_row(&self) -> (result: Self) {
        self.clone()
    }
}

/// A line that was issued in that night. A corrected round is counted as its
/// replacement, and a voided one not at all: that is what left the bar.
pub open spec fn sold_in(db: Store, shift_id: i64) -> spec_fn(Line) -> bool {
    |l: Line|
        row(db.orders@, l.order_id) matches Some(order) && order.shift_id == shift_id
            && order.status == orders::Status::Issued
}

/// The lines that were issued in a night.
pub open spec fn sold(db: Store, shift_id: i64) -> Seq<Line> {
    chosen(db.order_lines@, sold_in(db, shift_id))
}

fn find_sold(db: &Store, shift_id: i64) -> (result: Vec<Line>)
    ensures
        result@ == sold(*db, shift_id),
{
    choose_rows(
        &db.order_lines,
        |l: &Line| -> (b: bool)
            ensures
                b == (row(db.orders@, l.order_id) matches Some(order) && order.shift_id == shift_id
                    && order.status == orders::Status::Issued)
            {
                match find_place(&db.orders, l.order_id) {
                    Some(at) => db.orders[at].shift_id == shift_id && db.orders[at].status
                        == orders::Status::Issued,
                    None => false,
                }
            },
        Ghost(sold_in(*db, shift_id)),
    )
}

/// Whether one of the first `n` lines sold the same drink.
pub open spec fn came_before(lines: Seq<Line>, n: int, name: Seq<char>) -> bool {
    exists|k: int| 0 <= k < n && (#[trigger] lines[k]).sale_item_name@ == name
}

pub open spec fn quantity_of(name: Seq<char>) -> spec_fn(Line) -> Option<i64> {
    |l: Line|
        if l.sale_item_name@ == name {
            Some(l.quantity.thousandths)
        } else {
            None
        }
}

pub open spec fn value_of(name: Seq<char>) -> spec_fn(Line) -> Option<i64> {
    |l: Line|
        if l.sale_item_name@ == name {
            Some(l.line_total.minor)
        } else {
            None
        }
}

/// What the drink on a line came to over all the lines, unless a sum leaves 64
/// bits.
pub open spec fn item_sum(lines: Seq<Line>, first: Line) -> Option<ItemSum> {
    match (
        running_sum(lines, quantity_of(first.sale_item_name@)),
        running_sum(lines, value_of(first.sale_item_name@)),
    ) {
        (Some(quantity), Some(value)) => Some(
            ItemSum { line_id: first.id, name: first.sale_item_name, quantity, value },
        ),
        _ => None,
    }
}

/// What every drink among the first `n` lines came to over all of them.
pub open spec fn item_sums(lines: Seq<Line>, n: int) -> Option<Seq<ItemSum>>
    decreases n,
{
    if n <= 0 {
        Some(Seq::empty())
    } else {
        match item_sums(lines, n - 1) {
            None => None,
            Some(before) => if came_before(lines, n - 1, lines[n - 1].sale_item_name@) {
                Some(before)
            } else {
                match item_sum(lines, lines[n - 1]) {
                    Some(sum) => Some(before.push(sum)),
                    None => None,
                }
            },
        }
    }
}

pub open spec fn worth_more() -> spec_fn(ItemSum, ItemSum) -> bool {
    |a: ItemSum, b: ItemSum|
        a.value > b.value || (a.value == b.value && text_before(a.name@, b.name@))
}

/// What every drink came to over a night, the most valuable first.
pub open spec fn items_sold(db: Store, shift_id: i64) -> Option<Seq<ItemSum>> {
    let lines = sold(db, shift_id);
    match item_sums(lines, lines.len() as int) {
        Some(sums) => Some(in_order(sums, worth_more())),
        None => None,
    }
}

fn was_seen(lines: &Vec<Line>, n: usize) -> (result: bool)
    requires
        n < lines@.len(),
    ensures
        result == came_before(lines@, n as int, lines@[n as int].sale_item_name@),
{
    let mut i: usize = 0;
    while i < n
        invariant
            i <= n < lines@.len(),
            forall|k: int|
                0 <= k < i ==> (#[trigger] lines@[k]).sale_item_name@
                    != lines@[n as int].sale_item_name@,
        decreases n - i,
    {
        if same(lines[i].sale_item_name.as_str(), lines[n].sale_item_name.as_str()) {
            return true;
        }
        i = i + 1;
    }
    false
}

fn sum_item(lines: &Vec<Line>, first: &Line) -> (result: Option<ItemSum>)
    ensures
        result == item_sum(lines@, *first),
{
    let name: &str = first.sale_item_name.as_str();
    let quantity: Option<i64> = sum_rows(
        lines,
        |l: &Line| -> (v: Option<i64>)
            ensures
                v == (if l.sale_item_name@ == name@ {
                    Some(l.quantity.thousandths)
                } else {
                    None
                })
            {
                if same(l.sale_item_name.as_str(), name) {
                    Some(l.quantity.thousandths)
                } else {
                    None
                }
            },
        Ghost(quantity_of(name@)),
    );
    let value: Option<i64> = sum_rows(
        lines,
        |l: &Line| -> (v: Option<i64>)
            ensures
                v == (if l.sale_item_name@ == name@ {
                    Some(l.line_total.minor)
                } else {
                    None
                })
            {
                if same(l.sale_item_name.as_str(), name) {
                    Some(l.line_total.minor)
                } else {
                    None
                }
            },
        Ghost(value_of(name@)),
    );
    match (quantity, value) {
        (Some(quantity), Some(value)) => Some(
            ItemSum { line_id: first.id, name: first.sale_item_name.clone(), quantity, value },
        ),
        _ => None,
    }
}

proof fn items_fail_onward(lines: Seq<Line>, n: int, m: int)
    requires
        0 <= n <= m,
        item_sums(lines, n) is None,
    ensures
        item_sums(lines, m) is None,
    decreases m - n,
{
    if n < m {
        items_fail_onward(lines, n, m - 1);
    }
}

fn sum_items(db: &Store, shift_id: i64) -> (result: Option<Vec<ItemSum>>)
    ensures
        match items_sold(*db, shift_id) {
            Some(sums) => result matches Some(list) && list@ == sums,
            None => result is None,
        },
{
    let lines: Vec<Line> = find_sold(db, shift_id);
    let mut sums: Vec<ItemSum> = Vec::new();
    let mut i: usize = 0;
    while i < lines.len()
        invariant
            i <= lines.len(),
            lines@ == sold(*db, shift_id),
            item_sums(lines@, i as int) == Some(sums@),
        decreases lines.len() - i,
    {
        if !was_seen(&lines, i) {
            match sum_item(&lines, &lines[i]) {
                Some(sum) => {
                    sums.push(sum);
                },
                None => {
                    proof {
                        items_fail_onward(lines@, i + 1, lines@.len() as int);
                    }
                    return None;
                },
            }
        }
        i = i + 1;
    }
    let sorted: Vec<ItemSum> = sort_rows(
        &sums,
        |a: &ItemSum, b: &ItemSum| -> (r: bool)
            ensures
                r == (a.value > b.value || (a.value == b.value && text_before(a.name@, b.name@)))
            {
                a.value > b.value || (a.value == b.value && sorts_before(
                    a.name.as_str(),
                    b.name.as_str(),
                ))
            },
        Ghost(worth_more()),
    );
    Some(sorted)
}

pub open spec fn corrected_in(shift_id: i64, kind: CorrectionKind) -> spec_fn(CorrectionRow) -> bool {
    |c: CorrectionRow| c.shift_id == shift_id && c.kind == kind
}

fn count_corrections(db: &Store, shift_id: i64, kind: CorrectionKind) -> (result: usize)
    ensures
        result == count(db.corrections@, corrected_in(shift_id, kind)),
{
    count_rows(
        &db.corrections,
        |c: &CorrectionRow| -> (b: bool)
            ensures
                b == (c.shift_id == shift_id && c.kind == kind)
            { c.shift_id == shift_id && c.kind == kind },
        Ghost(corrected_in(shift_id, kind)),
    )
}

// ---------------------------------------------------------------------------
// The whole night
// ---------------------------------------------------------------------------

/// Why a night cannot be reported; nothing, where it can.
pub open spec fn compile_refusal(db: Store, shift_id: i64) -> Option<CommandWhy> {
    match shift(db, shift_id) {
        None => Some(CommandWhy::Repo(Why::Missing("shift"@))),
        Some(night) => if billed(db, shift_id, Charge::Subtotal) is None || billed(
            db,
            shift_id,
            Charge::Service,
        ) is None || billed(db, shift_id, Charge::Tax) is None || billed(
            db,
            shift_id,
            Charge::Total,
        ) is None || billed(db, shift_id, Charge::Comped) is None || came_in(
            db,
            shift_id,
            Origin::Float,
        ) is None || came_in(db, shift_id, Origin::Waiters) is None || came_in(
            db,
            shift_id,
            Origin::Other,
        ) is None {
            Some(unsummable())
        } else {
            match drawer(db, shift_id) {
                Err(why) => Some(CommandWhy::Repo(why)),
                Ok(expected) => if !fits(out_by(counted(night), expected)) {
                    Some(CommandWhy::Money(MoneyError::Overflow))
                } else {
                    match settlements(db, shift_id) {
                        None => Some(unsummable()),
                        Some(sums) => if running_sum(sums, non_cash_of()) is None || running_sum(
                            sums,
                            written_off_of(),
                        ) is None || items_sold(db, shift_id) is None {
                            Some(unsummable())
                        } else if business_date(night.business_date@) is None {
                            Some(CommandWhy::Database("that night has no readable date"@))
                        } else if person(db, night.opened_by) is None || (night.closed_by is Some
                            && person(db, night.closed_by->0) is None) {
                            Some(CommandWhy::Repo(Why::Missing("person"@)))
                        } else {
                            None
                        },
                    }
                },
            }
        },
    }
}

/// Whether a line of the report is what a waiter settled.
pub open spec fn waiter_says(line: WaiterLine, db: Store, sum: WaiterSum) -> bool {
    &&& line.name == sum.name
    &&& line.expected@ == shown(db, sum.expected as int)
    &&& line.cash@ == shown(db, sum.cash as int)
    &&& line.non_cash@ == shown(db, sum.non_cash as int)
    &&& line.written_off@ == shown(db, sum.written_off as int)
    &&& line.shortfall@ == shown(db, sum.shortfall as int)
}

/// Whether a line of the report is what a drink came to.
pub open spec fn item_says(line: ItemLine, db: Store, sum: ItemSum) -> bool {
    &&& line.name == sum.name
    &&& line.quantity@ == milli_text(sum.quantity as int)
    &&& line.value@ == shown(db, sum.value as int)
}

/// Who somebody is on the report.
pub open spec fn called(db: Store, id: Option<i64>) -> Seq<char> {
    match id {
        Some(id) => person(db, id)->0.name@,
        None => Seq::empty(),
    }
}

/// Whether a report says what a night came to.
pub open spec fn report_says(
    report: ShiftReport,
    db: Store,
    night: Shift,
    clocks: Clocks<'_>,
) -> bool {
    let id = night.id;
    let expected = drawer(db, id)->Ok_0;
    let sums = settlements(db, id)->0;
    let items = items_sold(db, id)->0;
    &&& report.venue_name@ == setting(settings_map(db.settings@), keys::BUSINESS_NAME@)
    &&& report.shift_code == night.code
    &&& report.business_date == night.business_date
    &&& business_date(night.business_date@) matches Some(date) && report.business_date_label@
        == date_label(date)
    &&& report.opened_at_label@ == clocks.opened_at@
    &&& report.opened_by@ == called(db, Some(night.opened_by))
    &&& report.closed_at_label@ == (if night.closed_at is Some {
        clocks.closed_at@
    } else {
        Seq::empty()
    })
    &&& report.closed_by@ == called(db, night.closed_by)
    &&& report.tabs_settled == count(db.payments@, billed_in(id))
    &&& report.gross_sales@ == shown(db, billed(db, id, Charge::Subtotal)->0 as int)
    &&& report.service_charge@ == shown(db, billed(db, id, Charge::Service)->0 as int)
    &&& report.tax@ == shown(db, billed(db, id, Charge::Tax)->0 as int)
    &&& report.total_billed@ == shown(db, billed(db, id, Charge::Total)->0 as int)
    &&& report.opening_float@ == shown(db, came_in(db, id, Origin::Float)->0 as int)
    &&& report.cash_from_waiters@ == shown(db, came_in(db, id, Origin::Waiters)->0 as int)
    &&& report.other_movements@ == shown(db, came_in(db, id, Origin::Other)->0 as int)
    &&& report.expected_cash@ == shown(db, expected.minor as int)
    &&& report.counted_cash@ == shown(db, counted(night).minor as int)
    &&& report.variance@ == shown(db, out_by(counted(night), expected))
    &&& report.over == (counted(night).minor >= expected.minor)
    &&& report.balanced == (counted(night).minor == expected.minor)
    &&& report.non_cash@ == shown(db, running_sum(sums, non_cash_of())->0 as int)
    &&& report.written_off@ == shown(db, running_sum(sums, written_off_of())->0 as int)
    &&& report.waiters@.len() == sums.len()
    &&& forall|i: int| 0 <= i < sums.len() ==> waiter_says(#[trigger] report.waiters@[i], db, sums[i])
    &&& report.items@.len() == items.len()
    &&& forall|i: int| 0 <= i < items.len() ==> item_says(#[trigger] report.items@[i], db, items[i])
    &&& report.comped_tabs == count(db.payments@, comped_in(id))
    &&& report.comped_value@ == shown(db, billed(db, id, Charge::Comped)->0 as int)
    &&& report.corrections == count(db.corrections@, corrected_in(id, CorrectionKind::Correction))
    &&& report.voids == count(db.corrections@, corrected_in(id, CorrectionKind::Void))
}

fn waiter_lines(db: &Store, settings: &Settings, sums: &Vec<WaiterSum>) -> (result: Vec<WaiterLine>)
    requires
        settings@ == settings_map(db.settings@),
    ensures
        result@.len() == sums@.len(),
        forall|i: int| 0 <= i < sums@.len() ==> waiter_says(#[trigger] result@[i], *db, sums@[i]),
{
    let mut result: Vec<WaiterLine> = Vec::new();
    let mut i: usize = 0;
    while i < sums.len()
        invariant
            i <= sums.len(),
            settings@ == settings_map(db.settings@),
            result@.len() == i,
            forall|k: int| 0 <= k < i ==> waiter_says(#[trigger] result@[k], *db, sums@[k]),
        decreases sums.len() - i,
    {
        let line: WaiterLine = WaiterLine {
            name: sums[i].name.clone(),
            expected: settings.format_money(Money::from_minor(sums[i].expected)),
            cash: settings.format_money(Money::from_minor(sums[i].cash)),
            non_cash: settings.format_money(Money::from_minor(sums[i].non_cash)),
            written_off: settings.format_money(Money::from_minor(sums[i].written_off)),
            shortfall: settings.format_money(Money::from_minor(sums[i].shortfall)),
        };
        result.push(line);
        i = i + 1;
    }
    result
}

fn item_lines(db: &Store, settings: &Settings, sums: &Vec<ItemSum>) -> (result: Vec<ItemLine>)
    requires
        settings@ == settings_map(db.settings@),
    ensures
        result@.len() == sums@.len(),
        forall|i: int| 0 <= i < sums@.len() ==> item_says(#[trigger] result@[i], *db, sums@[i]),
{
    let mut result: Vec<ItemLine> = Vec::new();
    let mut i: usize = 0;
    while i < sums.len()
        invariant
            i <= sums.len(),
            settings@ == settings_map(db.settings@),
            result@.len() == i,
            forall|k: int| 0 <= k < i ==> item_says(#[trigger] result@[k], *db, sums@[k]),
        decreases sums.len() - i,
    {
        let line: ItemLine = ItemLine {
            name: sums[i].name.clone(),
            quantity: Milli::from_thousandths(sums[i].quantity).to_display(),
            value: settings.format_money(Money::from_minor(sums[i].value)),
        };
        result.push(line);
        i = i + 1;
    }
    result
}

fn name_of(db: &Store, id: Option<i64>) -> (result: Result<String, CommandError>)
    ensures
        if id is Some && person(*db, id->0) is None {
            result matches Err(error) && error@ == CommandWhy::Repo(Why::Missing("person"@))
        } else {
            result matches Ok(name) && name@ == called(*db, id)
        },
{
    match id {
        Some(id) => match staff::find(db, id) {
            Ok(found) => Ok(found.name),
            Err(error) => Err(CommandError::Repo(error)),
        },
        None => Ok(String::new()),
    }
}

fn sum_of_sums(sums: &Vec<WaiterSum>) -> (result: Option<(i64, i64)>)
    ensures
        match result {
            Some((non_cash, written_off)) => running_sum(sums@, non_cash_of()) == Some(non_cash)
                && running_sum(sums@, written_off_of()) == Some(written_off),
            None => running_sum(sums@, non_cash_of()) is None || running_sum(
                sums@,
                written_off_of(),
            ) is None,
        },
{
    let non_cash: Option<i64> = sum_rows(
        sums,
        |s: &WaiterSum| -> (v: Option<i64>)
            ensures
                v == (Some(s.non_cash))
            { Some(s.non_cash) },
        Ghost(non_cash_of()),
    );
    let written_off: Option<i64> = sum_rows(
        sums,
        |s: &WaiterSum| -> (v: Option<i64>)
            ensures
                v == (Some(s.written_off))
            { Some(s.written_off) },
        Ghost(written_off_of()),
    );
    match (non_cash, written_off) {
        (Some(non_cash), Some(written_off)) => Some((non_cash, written_off)),
        _ => None,
    }
}

/// Read every figure for a night out of the ledgers.
pub fn compile(db: &Store, shift_id: i64, clocks: Clocks<'_>) -> (result: Result<
    ShiftReport,
    CommandError,
>)
    ensures
        match result {
            Ok(report) => {
                &&& compile_refusal(*db, shift_id) is None
                &&& shift(*db, shift_id) matches Some(night) && report_says(
                    report,
                    *db,
                    night,
                    clocks,
                )
            },
            Err(error) => compile_refusal(*db, shift_id) == Some(error@),
        },
{
    let settings: Settings = Settings::load(db);
    let night: Shift = match shifts::find(db, shift_id) {
        Ok(night) => night,
        Err(error) => {
            return Err(CommandError::Repo(error));
        },
    };
    proof {
        crate::table::place_is_first(db.shifts@, shift_id);
    }
    let (gross, service, tax, total, comped_value): (i64, i64, i64, i64, i64) = match (
        sum_charge(db, shift_id, Charge::Subtotal),
        sum_charge(db, shift_id, Charge::Service),
        sum_charge(db, shift_id, Charge::Tax),
        sum_charge(db, shift_id, Charge::Total),
        sum_charge(db, shift_id, Charge::Comped),
    ) {
        (Some(gross), Some(service), Some(tax), Some(total), Some(comped)) => {
            (gross, service, tax, total, comped)
        },
        _ => {
            return Err(overflow());
        },
    };
    let (float, from_waiters, other): (i64, i64, i64) = match (
        sum_origin(db, shift_id, Origin::Float),
        sum_origin(db, shift_id, Origin::Waiters),
        sum_origin(db, shift_id, Origin::Other),
    ) {
        (Some(float), Some(waiters), Some(other)) => (float, waiters, other),
        _ => {
            return Err(overflow());
        },
    };
    let expected: Money = match cash::expected_cash(db, shift_id) {
        Ok(expected) => expected,
        Err(error) => {
            return Err(CommandError::Repo(error));
        },
    };
    let counted: Money = match night.counted_cash {
        Some(money) => money,
        None => Money::zero(),
    };
    let over: bool = counted.minor >= expected.minor;
    let variance: Money = match if over {
        counted.checked_sub(expected)
    } else {
        expected.checked_sub(counted)
    } {
        Ok(variance) => variance,
        Err(error) => {
            return Err(CommandError::Money(error));
        },
    };
    let sums: Vec<WaiterSum> = match sum_waiters(db, shift_id) {
        Some(sums) => sums,
        None => {
            return Err(overflow());
        },
    };
    let (non_cash, written_off): (i64, i64) = match sum_of_sums(&sums) {
        Some(both) => both,
        None => {
            return Err(overflow());
        },
    };
    let items: Vec<ItemSum> = match sum_items(db, shift_id) {
        Some(items) => items,
        None => {
            return Err(overflow());
        },
    };
    let date: Date = match read_business_date(night.business_date.as_str()) {
        Some(date) => date,
        None => {
            return Err(CommandError::database("that night has no readable date"));
        },
    };
    let opened_by: String = match name_of(db, Some(night.opened_by)) {
        Ok(name) => name,
        Err(error) => {
            return Err(error);
        },
    };
    let closed_by: String = match name_of(db, night.closed_by) {
        Ok(name) => name,
        Err(error) => {
            return Err(error);
        },
    };
    let tabs_settled: usize = count_rows(
        &db.payments,
        |p: &TabPayment| -> (b: bool)
            ensures
                b == (p.shift_id == shift_id)
            { p.shift_id == shift_id },
        Ghost(billed_in(shift_id)),
    );
    let comped_tabs: usize = count_rows(
        &db.payments,
        |p: &TabPayment| -> (b: bool)
            ensures
                b == (p.shift_id == shift_id && p.is_comped)
            { p.shift_id == shift_id && p.is_comped },
        Ghost(comped_in(shift_id)),
    );
    let closed_at_label: String = if night.closed_at.is_some() {
        clocks.closed_at.to_owned()
    } else {
        String::new()
    };
    Ok(
        ShiftReport {
            venue_name: settings.text(keys::BUSINESS_NAME).to_owned(),
            shift_code: night.code.clone(),
            business_date: night.business_date.clone(),
            business_date_label: describe(date),
            opened_at_label: clocks.opened_at.to_owned(),
            opened_by,
            closed_at_label,
            closed_by,
            tabs_settled,
            gross_sales: settings.format_money(Money::from_minor(gross)),
            service_charge: settings.format_money(Money::from_minor(service)),
            tax: settings.format_money(Money::from_minor(tax)),
            total_billed: settings.format_money(Money::from_minor(total)),
            opening_float: settings.format_money(Money::from_minor(float)),
            cash_from_waiters: settings.format_money(Money::from_minor(from_waiters)),
            other_movements: settings.format_money(Money::from_minor(other)),
            expected_cash: settings.format_money(expected),
            counted_cash: settings.format_money(counted),
            variance: settings.format_money(variance),
            over,
            balanced: variance.is_zero(),
            non_cash: settings.format_money(Money::from_minor(non_cash)),
            written_off: settings.format_money(Money::from_minor(written_off)),
            waiters: waiter_lines(db, &settings, &sums),
            items: item_lines(db, &settings, &items),
            comped_tabs,
            comped_value: settings.format_money(Money::from_minor(comped_value)),
            corrections: count_corrections(db, shift_id, CorrectionKind::Correction),
            voids: count_corrections(db, shift_id, CorrectionKind::Void),
        },
    )
}

// ---------------------------------------------------------------------------
// The paper
// ---------------------------------------------------------------------------

/// The divider between the parts of a report.
const RULE: &'static str = "--------------------------------";

/// A label and what it says, on a line of its own.
pub open spec fn pair_text(label: Seq<char>, value: Seq<char>) -> Seq<char> {
    label + ": "@ + value + "\n"@
}

fn pair(out: &mut String, label: &str, value: &str)
    ensures
        final(out)@ == old(out)@ + pair_text(label@, value@),
{
    let ghost before = out@;
    out.append(label);
    out.append(": ");
    out.append(value);
    out.append("\n");
    assert(out@ =~= before + pair_text(label@, value@));
}

/// What a part of a report starts with.
pub open spec fn part_text(title: Seq<char>) -> Seq<char> {
    "--------------------------------"@ + "\n"@ + title + "\n"@
}

fn part(out: &mut String, title: &str)
    ensures
        final(out)@ == old(out)@ + part_text(title@),
{
    let ghost before = out@;
    out.append(RULE);
    out.append("\n");
    out.append(title);
    out.append("\n");
    assert(out@ =~= before + part_text(title@));
}

fn number(n: usize) -> (result: String)
    ensures
        result@ == nat_text(n as nat),
{
    let mut out: String = String::new();
    push_nat(&mut out, n as u64);
    assert(out@ =~= nat_text(n as nat));
    out
}

/// The head of a report: the venue, where it has a name, and the night.
pub open spec fn head_text(report: ShiftReport) -> Seq<char> {
    (if is_blank(report.venue_name@) {
        Seq::<char>::empty()
    } else {
        trimmed(report.venue_name@) + "\n"@
    }) + "SHIFT REPORT\n"@ + report.shift_code@ + "  "@ + report.business_date_label@
        + "\nOpened "@ + report.opened_at_label@ + " by "@ + report.opened_by@ + "\nClosed "@
        + report.closed_at_label@ + " by "@ + report.closed_by@ + "\n"@
}

fn put_head(out: &mut String, report: &ShiftReport)
    ensures
        final(out)@ == old(out)@ + head_text(*report),
{
    let ghost before = out@;
    let venue: &str = report.venue_name.as_str().trim();
    if !venue.is_empty() {
        out.append(venue);
        out.append("\n");
    }
    out.append("SHIFT REPORT\n");
    out.append(report.shift_code.as_str());
    out.append("  ");
    out.append(report.business_date_label.as_str());
    out.append("\nOpened ");
    out.append(report.opened_at_label.as_str());
    out.append(" by ");
    out.append(report.opened_by.as_str());
    out.append("\nClosed ");
    out.append(report.closed_at_label.as_str());
    out.append(" by ");
    out.append(report.closed_by.as_str());
    out.append("\n");
    assert(out@ =~= before + head_text(*report));
}

/// What was billed.
pub open spec fn sales_text(report: ShiftReport) -> Seq<char> {
    part_text("SALES"@) + pair_text("Tabs settled"@, nat_text(report.tabs_settled as nat))
        + pair_text("Gross sales"@, report.gross_sales@) + pair_text(
        "Service"@,
        report.service_charge@,
    ) + pair_text("Tax"@, report.tax@) + pair_text("Total billed"@, report.total_billed@)
}

fn put_sales(out: &mut String, report: &ShiftReport)
    ensures
        final(out)@ == old(out)@ + sales_text(*report),
{
    let ghost before = out@;
    part(out, "SALES");
    pair(out, "Tabs settled", number(report.tabs_settled).as_str());
    pair(out, "Gross sales", report.gross_sales.as_str());
    pair(out, "Service", report.service_charge.as_str());
    pair(out, "Tax", report.tax.as_str());
    pair(out, "Total billed", report.total_billed.as_str());
    assert(out@ =~= before + sales_text(*report));
}

/// How the count came out, named rather than signed.
pub open spec fn count_text(report: ShiftReport) -> Seq<char> {
    if report.balanced {
        "Balanced\n"@
    } else if report.over {
        pair_text("OVER"@, report.variance@)
    } else {
        pair_text("SHORT"@, report.variance@)
    }
}

/// What the drawer should hold, and what was in it.
pub open spec fn drawer_text(report: ShiftReport) -> Seq<char> {
    part_text("DRAWER"@) + pair_text("Opening float"@, report.opening_float@) + pair_text(
        "Cash from waiters"@,
        report.cash_from_waiters@,
    ) + pair_text("Other movements"@, report.other_movements@) + pair_text(
        "Expected"@,
        report.expected_cash@,
    ) + pair_text("Counted"@, report.counted_cash@) + count_text(report)
}

fn put_drawer(out: &mut String, report: &ShiftReport)
    ensures
        final(out)@ == old(out)@ + drawer_text(*report),
{
    let ghost before = out@;
    part(out, "DRAWER");
    pair(out, "Opening float", report.opening_float.as_str());
    pair(out, "Cash from waiters", report.cash_from_waiters.as_str());
    pair(out, "Other movements", report.other_movements.as_str());
    pair(out, "Expected", report.expected_cash.as_str());
    pair(out, "Counted", report.counted_cash.as_str());
    if report.balanced {
        out.append("Balanced\n");
    } else if report.over {
        pair(out, "OVER", report.variance.as_str());
    } else {
        pair(out, "SHORT", report.variance.as_str());
    }
    assert(out@ =~= before + drawer_text(*report));
}

/// One line for each waiter.
pub open spec fn waiters_text(lines: Seq<WaiterLine>) -> Seq<char>
    decreases lines.len(),
{
    if lines.len() == 0 {
        Seq::empty()
    } else {
        waiters_text(lines.drop_last()) + lines.last().name@ + ": expected "@
            + lines.last().expected@ + ", cash "@ + lines.last().cash@ + "\n"@
    }
}

/// What waiters settled, where any did.
pub open spec fn settled_text(report: ShiftReport) -> Seq<char> {
    if report.waiters@.len() == 0 {
        Seq::empty()
    } else {
        part_text("WAITERS"@) + waiters_text(report.waiters@)
    }
}

fn put_settled(out: &mut String, report: &ShiftReport)
    ensures
        final(out)@ == old(out)@ + settled_text(*report),
{
    let ghost before = out@;
    if report.waiters.len() == 0 {
        assert(out@ =~= before + settled_text(*report));
        return;
    }
    part(out, "WAITERS");
    let mut i: usize = 0;
    assert(report.waiters@.take(0) =~= Seq::<WaiterLine>::empty());
    assert(out@ =~= before + part_text("WAITERS"@) + waiters_text(report.waiters@.take(0)));
    while i < report.waiters.len()
        invariant
            i <= report.waiters.len(),
            out@ == before + part_text("WAITERS"@) + waiters_text(report.waiters@.take(i as int)),
        decreases report.waiters.len() - i,
    {
        let ghost upto = report.waiters@.take(i + 1);
        assert(upto.drop_last() =~= report.waiters@.take(i as int));
        out.append(report.waiters[i].name.as_str());
        out.append(": expected ");
        out.append(report.waiters[i].expected.as_str());
        out.append(", cash ");
        out.append(report.waiters[i].cash.as_str());
        out.append("\n");
        assert(out@ =~= before + part_text("WAITERS"@) + waiters_text(upto));
        i = i + 1;
    }
    assert(report.waiters@.take(report.waiters@.len() as int) =~= report.waiters@);
    assert(out@ =~= before + settled_text(*report));
}

/// One line for each drink.
pub open spec fn items_text(lines: Seq<ItemLine>) -> Seq<char>
    decreases lines.len(),
{
    if lines.len() == 0 {
        Seq::empty()
    } else {
        items_text(lines.drop_last()) + lines.last().name@ + " x"@ + lines.last().quantity@ + "  "@
            + lines.last().value@ + "\n"@
    }
}

/// What was sold, where anything was.
pub open spec fn sold_text(report: ShiftReport) -> Seq<char> {
    if report.items@.len() == 0 {
        Seq::empty()
    } else {
        part_text("SOLD"@) + items_text(report.items@)
    }
}

fn put_sold(out: &mut String, report: &ShiftReport)
    ensures
        final(out)@ == old(out)@ + sold_text(*report),
{
    let ghost before = out@;
    if report.items.len() == 0 {
        assert(out@ =~= before + sold_text(*report));
        return;
    }
    part(out, "SOLD");
    let mut i: usize = 0;
    assert(report.items@.take(0) =~= Seq::<ItemLine>::empty());
    assert(out@ =~= before + part_text("SOLD"@) + items_text(report.items@.take(0)));
    while i < report.items.len()
        invariant
            i <= report.items.len(),
            out@ == before + part_text("SOLD"@) + items_text(report.items@.take(i as int)),
        decreases report.items.len() - i,
    {
        let ghost upto = report.items@.take(i + 1);
        assert(upto.drop_last() =~= report.items@.take(i as int));
        out.append(report.items[i].name.as_str());
        out.append(" x");
        out.append(report.items[i].quantity.as_str());
        out.append("  ");
        out.append(report.items[i].value.as_str());
        out.append("\n");
        assert(out@ =~= before + part_text("SOLD"@) + items_text(upto));
        i = i + 1;
    }
    assert(report.items@.take(report.items@.len() as int) =~= report.items@);
    assert(out@ =~= before + sold_text(*report));
}

/// What somebody has to be able to answer for.
pub open spec fn exceptions_text(report: ShiftReport) -> Seq<char> {
    part_text("EXCEPTIONS"@) + pair_text("Corrections"@, nat_text(report.corrections as nat))
        + pair_text("Voids"@, nat_text(report.voids as nat)) + "Comped tabs: "@ + nat_text(
        report.comped_tabs as nat,
    ) + " ("@ + report.comped_value@ + ")\n"@ + pair_text("Written off"@, report.written_off@)
        + pair_text("Non-cash"@, report.non_cash@)
}

fn put_exceptions(out: &mut String, report: &ShiftReport)
    ensures
        final(out)@ == old(out)@ + exceptions_text(*report),
{
    let ghost before = out@;
    part(out, "EXCEPTIONS");
    pair(out, "Corrections", number(report.corrections).as_str());
    pair(out, "Voids", number(report.voids).as_str());
    out.append("Comped tabs: ");
    out.append(number(report.comped_tabs).as_str());
    out.append(" (");
    out.append(report.comped_value.as_str());
    out.append(")\n");
    pair(out, "Written off", report.written_off.as_str());
    pair(out, "Non-cash", report.non_cash.as_str());
    assert(out@ =~= before + exceptions_text(*report));
}

/// A report as it is printed.
pub open spec fn report_text(report: ShiftReport) -> Seq<char> {
    head_text(report) + sales_text(report) + drawer_text(report) + settled_text(report) + sold_text(
        report,
    ) + exceptions_text(report)
}

/// The paper, in plain text and in the same shape as the receipts.
pub fn render(report: &ShiftReport) -> (result: String)
    ensures
        result@ == report_text(*report),
{
    let mut out: String = String::new();
    put_head(&mut out, report);
    put_sales(&mut out, report);
    put_drawer(&mut out, report);
    put_settled(&mut out, report);
    put_sold(&mut out, report);
    put_exceptions(&mut out, report);
    assert(out@ =~= report_text(*report));
    out
}

/// Why the report of a night cannot be frozen; nothing, where it can.
pub open spec fn freeze_refusal(db: Store, shift_id: i64) -> Option<CommandWhy> {
    match compile_refusal(db, shift_id) {
        Some(why) => Some(why),
        None => if !(shift(db, shift_id) matches Some(night) && night.status
            == shifts::Status::Closed) {
            Some(CommandWhy::Repo(Why::Refused("a final report describes a closed shift"@)))
        } else if crate::table::any(db.reports@, reports::is_final_of(shift_id)) {
            Some(
                CommandWhy::Repo(
                    Why::Refused("UNIQUE constraint failed: shift_reports.shift_id"@),
                ),
            )
        } else if fresh_id(db.reports@) is None {
            Some(CommandWhy::Repo(Why::Sqlite(SqlWhy::Full)))
        } else {
            None
        },
    }
}

/// Whether a stored report is the paper of that night, with the figures that
/// were handed in beside it.
pub open spec fn frozen_as(
    stored: Stored,
    report: ShiftReport,
    shift_id: i64,
    report_json: Seq<char>,
    by: i64,
    at: i64,
) -> bool {
    &&& stored.shift_id == shift_id
    &&& !stored.is_provisional
    &&& stored.report_json@ == report_json
    &&& stored.rendered_text@ == report_text(report)
    &&& stored.generated_at == at
    &&& stored.generated_by == by
}

/// Compile and freeze a night's report. The figures come written out, as they
/// are to be stored beside the paper.
pub fn freeze(
    db: &mut Store,
    shift_id: i64,
    clocks: Clocks<'_>,
    report_json: &str,
    by: i64,
    at: i64,
) -> (result: Result<Stored, CommandError>)
    ensures
        ledgers_kept(*old(db), *final(db)),
        match result {
            Ok(stored) => {
                &&& freeze_refusal(*old(db), shift_id) is None
                &&& exists|report: ShiftReport|
                    #![trigger report_text(report)]
                    report_says(report, *old(db), shift(*old(db), shift_id)->0, clocks)
                        && frozen_as(stored, report, shift_id, report_json@, by, at)
                &&& fresh_id(old(db).reports@) == Some(stored.id)
                &&& final(db).reports@ == old(db).reports@.push(stored)
                &&& *final(db) == (Store { reports: final(db).reports, ..*old(db) })
            },
            Err(error) => {
                &&& *final(db) == *old(db)
                &&& freeze_refusal(*old(db), shift_id) == Some(error@)
            },
        },
{
    let report: ShiftReport = match compile(db, shift_id, clocks) {
        Ok(report) => report,
        Err(error) => {
            return Err(error);
        },
    };
    let rendered: String = render(&report);
    match reports::store(
        db,
        &NewReport {
            shift_id,
            is_provisional: false,
            report_json,
            rendered_text: rendered.as_str(),
            generated_at: at,
            generated_by: by,
        },
    ) {
        Ok(stored) => {
            assert(frozen_as(stored, report, shift_id, report_json@, by, at));
            Ok(stored)
        },
        Err(error) => Err(CommandError::Repo(error)),
    }
}

// ---------------------------------------------------------------------------
// The screen
// ---------------------------------------------------------------------------

/// One night in the list.
#[derive(Debug, Clone, PartialEq, Eq)]
pub struct NightLine {
    pub shift_id: i64,
    pub code: String,
    pub business_date: String,
    pub business_date_label: String,
}

/// What the Reports screen shows: the nights, and the one being read, with the
/// figures exactly as they were stored and the exact stored paper.
#[derive(Debug, Clone, PartialEq, Eq)]
pub struct ReportsView {
    pub nights: Vec<NightLine>,
    pub showing: Option<String>,
    pub showing_shift_id: Option<i64>,
    pub rendered_text: Option<String>,
}

/// Whether a line of the list is that night.
pub open spec fn night_says(line: NightLine, night: Shift) -> bool {
    &&& line.shift_id == night.id
    &&& line.code == night.code
    &&& line.business_date == night.business_date
    &&& business_date(night.business_date@) matches Some(date) && line.business_date_label@
        == date_label(date)
}

/// Whether a night is among those that have closed.
pub open spec fn has_closed(nights: Seq<Shift>, id: i64) -> bool {
    exists|i: int| 0 <= i < nights.len() && (#[trigger] nights[i]).id == id
}

/// The night that is shown: the one that was asked for, or the most recent.
pub open spec fn night_shown(nights: Seq<Shift>, wanted: Option<i64>) -> Option<i64> {
    match wanted {
        Some(id) => Some(id),
        None => if nights.len() > 0 {
            Some(nights[0].id)
        } else {
            None
        },
    }
}

/// Why the screen cannot be shown; nothing, where it can.
pub open spec fn view_refusal(db: Store, wanted: Option<i64>) -> Option<CommandWhy> {
    let nights = closed_nights(db);
    if exists|i: int|
        0 <= i < nights.len() && business_date((#[trigger] nights[i]).business_date@) is None {
        Some(CommandWhy::Database("that night has no readable date"@))
    } else if wanted is Some && !has_closed(nights, wanted->0) {
        Some(CommandWhy::Refused("That night has not been closed."@))
    } else {
        None
    }
}

/// Whether a screen shows the nights and the one that was asked for, read back
/// and never compiled again.
pub open spec fn view_says(view: ReportsView, db: Store, wanted: Option<i64>) -> bool {
    let nights = closed_nights(db);
    &&& view.nights@.len() == nights.len()
    &&& forall|i: int| 0 <= i < nights.len() ==> night_says(#[trigger] view.nights@[i], nights[i])
    &&& view.showing_shift_id == night_shown(nights, wanted)
    &&& match view.showing_shift_id {
        None => view.showing is None && view.rendered_text is None,
        Some(id) => match final_report(db, id) {
            None => view.showing is None && view.rendered_text is None,
            Some(stored) => view.showing == Some(stored.report_json) && view.rendered_text == Some(
                stored.rendered_text,
            ),
        },
    }
}

fn night_lines(nights: &Vec<Shift>) -> (result: Result<Vec<NightLine>, CommandError>)
    ensures
        match result {
            Ok(lines) => {
                &&& lines@.len() == nights@.len()
                &&& forall|i: int|
                    0 <= i < nights@.len() ==> night_says(#[trigger] lines@[i], nights@[i])
                &&& forall|i: int|
                    0 <= i < nights@.len() ==> business_date(
                        (#[trigger] nights@[i]).business_date@,
                    ) is Some
            },
            Err(error) => {
                &&& error@ == CommandWhy::Database("that night has no readable date"@)
                &&& exists|i: int|
                    0 <= i < nights@.len() && business_date(
                        (#[trigger] nights@[i]).business_date@,
                    ) is None
            },
        },
{
    let mut lines: Vec<NightLine> = Vec::new();
    let mut i: usize = 0;
    while i < nights.len()
        invariant
            i <= nights.len(),
            lines@.len() == i,
            forall|k: int| 0 <= k < i ==> night_says(#[trigger] lines@[k], nights@[k]),
            forall|k: int|
                0 <= k < i ==> business_date((#[trigger] nights@[k]).business_date@) is Some,
        decreases nights.len() - i,
    {
        match read_business_date(nights[i].business_date.as_str()) {
            Some(date) => {
                let line: NightLine = NightLine {
                    shift_id: nights[i].id,
                    code: nights[i].code.clone(),
                    business_date: nights[i].business_date.clone(),
                    business_date_label: describe(date),
                };
                lines.push(line);
            },
            None => {
                return Err(CommandError::database("that night has no readable date"));
            },
        }
        i = i + 1;
    }
    Ok(lines)
}

fn is_closed(nights: &Vec<Shift>, id: i64) -> (result: bool)
    ensures
        result == has_closed(nights@, id),
{
    let mut i: usize = 0;
    while i < nights.len()
        invariant
            i <= nights.len(),
            forall|k: int| 0 <= k < i ==> (#[trigger] nights@[k]).id != id,
        decreases nights.len() - i,
    {
        if nights[i].id == id {
            return true;
        }
        i = i + 1;
    }
    false
}

/// The Reports screen.
pub fn view_of(db: &Store, wanted: Option<i64>) -> (result: Result<ReportsView, CommandError>)
    ensures
        match result {
            Ok(view) => view_refusal(*db, wanted) is None && view_says(view, *db, wanted),
            Err(error) => view_refusal(*db, wanted) == Some(error@),
        },
{
    let closed: Vec<Shift> = shifts::closed(db);
    let nights: Vec<NightLine> = match night_lines(&closed) {
        Ok(nights) => nights,
        Err(error) => {
            return Err(error);
        },
    };
    let showing_shift_id: Option<i64> = match wanted {
        Some(id) => {
            if !is_closed(&closed, id) {
                return Err(CommandError::refused("That night has not been closed."));
            }
            Some(id)
        },
        None => {
            if closed.len() > 0 {
                Some(closed[0].id)
            } else {
                None
            }
        },
    };
    let stored: Option<Stored> = match showing_shift_id {
        Some(id) => reports::final_for(db, id),
        None => None,
    };
    let (showing, rendered_text): (Option<String>, Option<String>) = match stored {
        Some(stored) => (Some(stored.report_json), Some(stored.rendered_text)),
        None => (None, None),
    };
    Ok(ReportsView { nights, showing, showing_shift_id, rendered_text })
}

/// The Reports screen, for the owner alone.
pub fn reports_view(db: &Store, session: &Option<Session>, shift_id: Option<i64>) -> (result: Result<
    ReportsView,
    CommandError,
>)
    ensures
        match owner_refusal(*session) {
            Some(why) => result matches Err(error) && error@ == why,
            None => match result {
                Ok(view) => view_refusal(*db, shift_id) is None && view_says(view, *db, shift_id),
                Err(error) => view_refusal(*db, shift_id) == Some(error@),
            },
        },
{
    match require_owner(session) {
        Ok(_) => {},
        Err(error) => {
            return Err(error);
        },
    }
    view_of(db, shift_id)
}

// ---------------------------------------------------------------------------
// Laws
// ---------------------------------------------------------------------------

/// A night that was frozen is read back, whatever is done afterwards: no later
/// action changes its figures or its paper.
pub proof fn a_frozen_night_is_never_recompiled(
    before: Store,
    after: Store,
    shift_id: i64,
    view: ReportsView,
    later: ReportsView,
)
    requires
        ledgers_kept(before, after),
        final_report(before, shift_id) is Some,
        view_says(view, before, Some(shift_id)),
        view_says(later, after, Some(shift_id)),
    ensures
        later.showing == view.showing,
        later.rendered_text == view.rendered_text,
{
    the_first_report_stays(before.reports@, after.reports@, reports::is_final_of(shift_id));
}

proof fn the_first_report_stays(
    before: Seq<Stored>,
    after: Seq<Stored>,
    wanted: spec_fn(Stored) -> bool,
)
    requires
        grown(before, after),
        chosen(before, wanted).len() > 0,
    ensures
        chosen(after, wanted).len() > 0,
        chosen(after, wanted)[0] == chosen(before, wanted)[0],
    decreases after.len(),
{
    if after.len() == before.len() {
        assert(after =~= before);
    } else {
        assert(forall|i: int| 0 <= i < before.len() ==> #[trigger] after.drop_last()[i] == after[i]);
        the_first_report_stays(before, after.drop_last(), wanted);
    }
}

/// Where every night that closed has its report, a night is shown as soon as
/// one has closed.
pub proof fn a_night_is_shown_once_one_has_closed(
    view: ReportsView,
    db: Store,
    wanted: Option<i64>,
)
    requires
        forall|i: int|
            0 <= i < closed_nights(db).len() ==> final_report(
                db,
                (#[trigger] closed_nights(db)[i]).id,
            ) is Some,
        view_refusal(db, wanted) is None,
        view_says(view, db, wanted),
    ensures
        view.showing is None <==> view.nights@.len() == 0,
        view.rendered_text is None <==> view.nights@.len() == 0,
{
    let nights = closed_nights(db);
    if let Some(id) = wanted {
        let i = choose|i: int| 0 <= i < nights.len() && (#[trigger] nights[i]).id == id;
        assert(final_report(db, nights[i].id) is Some);
    } else if nights.len() > 0 {
        assert(final_report(db, nights[0].id) is Some);
    }
}

/// The drawer is balanced on paper exactly when what was counted is what should
/// be there, and otherwise out by a positive amount in the direction named.
pub proof fn a_drawer_is_over_short_or_balanced(counted: Money, expected: Money)
    ensures
        out_by(counted, expected) >= 0,
        out_by(counted, expected) == 0 <==> counted == expected,
        counted.minor >= expected.minor ==> expected.minor + out_by(counted, expected)
            == counted.minor,
        counted.minor < expected.minor ==> counted.minor + out_by(counted, expected)
            == expected.minor,
{
}

} // verus!

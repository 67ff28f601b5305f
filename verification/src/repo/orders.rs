//! Order drafts, immutable sale snapshots, and correction records.
//!
//! Every function here is one step of a larger action; the action decides
//! which steps belong together. A step that is refused leaves the store as it
//! was.

use vstd::multiset::Multiset;
use vstd::prelude::*;

use super::{refuse, refused, RepoError, SqlError, SqlWhy, Why};
use crate::money::{fits, narrow, Milli, Money};
use crate::repo::catalogue::{self, expansion, on_menu, Consumed, MenuItem};
use crate::repo::receipts::{
    self, invalid_text, slips_are_right, slips_match, unknown_word, Attempt, Receipt, Stage,
};
use crate::repo::shifts::{self, shift};
use crate::repo::staff::{require_active_cashier, till_refusal};
use crate::repo::stock::{amount_is_listed, bounded_tally};
use crate::repo::tabs::{self, chars_in, tab};
use crate::store::{grown, ledgers_kept, Store};
use crate::table::{
    any, any_row, changing_keeps_places, choose_rows, chosen, find_place, find_row, fresh_id,
    in_order, next_id, place, row, sort_rows, writing_keeps_places, Row,
};
use crate::tally::{
    adding_adds, added, amount, amount_of, ascending, figures, lists, tally, Tallied,
};
use crate::text::{copy_text, is_blank, join2, join3, same, trimmed};

verus! {

/// Where an order stands.
#[derive(Clone, Copy, Debug, PartialEq, Eq, Structural)]
pub enum Status {
    Draft,
    Printing,
    Issued,
    Replaced,
    Voided,
    Abandoned,
}

impl Status {
    /// The word it is stored under.
    pub open spec fn word(self) -> Seq<char> {
        match self {
            Status::Draft => "DRAFT"@,
            Status::Printing => "PRINTING"@,
            Status::Issued => "ISSUED"@,
            Status::Replaced => "REPLACED"@,
            Status::Voided => "VOIDED"@,
            Status::Abandoned => "ABANDONED"@,
        }
    }

    /// The word it is stored under.
    pub fn as_str(self) -> (result: &'static str)
        ensures
            result@ == self.word(),
    {
        match self {
            Status::Draft => "DRAFT",
            Status::Printing => "PRINTING",
            Status::Issued => "ISSUED",
            Status::Replaced => "REPLACED",
            Status::Voided => "VOIDED",
            Status::Abandoned => "ABANDONED",
        }
    }

    /// What a stored word stands for.
    pub open spec fn of_word(text: Seq<char>) -> Option<Status> {
        if text == "DRAFT"@ {
            Some(Status::Draft)
        } else if text == "PRINTING"@ {
            Some(Status::Printing)
        } else if text == "ISSUED"@ {
            Some(Status::Issued)
        } else if text == "REPLACED"@ {
            Some(Status::Replaced)
        } else if text == "VOIDED"@ {
            Some(Status::Voided)
        } else if text == "ABANDONED"@ {
            Some(Status::Abandoned)
        } else {
            None
        }
    }

    fn read_word(text: &str) -> (result: Option<Status>)
        ensures
            result == Self::of_word(text@),
    {
        if same(text, "DRAFT") {
            Some(Status::Draft)
        } else if same(text, "PRINTING") {
            Some(Status::Printing)
        } else if same(text, "ISSUED") {
            Some(Status::Issued)
        } else if same(text, "REPLACED") {
            Some(Status::Replaced)
        } else if same(text, "VOIDED") {
            Some(Status::Voided)
        } else if same(text, "ABANDONED") {
            Some(Status::Abandoned)
        } else {
            None
        }
    }

    /// A word that was stored reads back as what it stood for.
    pub proof fn a_stored_word_reads_back(self)
        ensures
            Self::of_word(self.word()) == Some(self),
    {
        reveal_strlit("DRAFT");
        reveal_strlit("PRINTING");
        reveal_strlit("ISSUED");
        reveal_strlit("REPLACED");
        reveal_strlit("VOIDED");
        reveal_strlit("ABANDONED");
        assert("PRINTING"@.len() != "DRAFT"@.len());
        assert("ISSUED"@.len() != "DRAFT"@.len());
        assert("ISSUED"@.len() != "PRINTING"@.len());
        assert("REPLACED"@.len() != "DRAFT"@.len());
        assert("REPLACED"@[0] != "PRINTING"@[0]);
        assert("REPLACED"@.len() != "ISSUED"@.len());
        assert("VOIDED"@.len() != "DRAFT"@.len());
        assert("VOIDED"@.len() != "PRINTING"@.len());
        assert("VOIDED"@[0] != "ISSUED"@[0]);
        assert("VOIDED"@.len() != "REPLACED"@.len());
        assert("ABANDONED"@.len() != "DRAFT"@.len());
        assert("ABANDONED"@.len() != "PRINTING"@.len());
        assert("ABANDONED"@.len() != "ISSUED"@.len());
        assert("ABANDONED"@.len() != "REPLACED"@.len());
        assert("ABANDONED"@.len() != "VOIDED"@.len());
    }
}

impl Status {
    /// Reads a stored status.
    pub fn parse(text: &str) -> (result: Result<Status, RepoError>)
        ensures
            match Status::of_word(text@) {
                Some(status) => result == Ok::<Status, RepoError>(status),
                None => result matches Err(error) && error@ == Why::Sqlite(
                    unknown_word(5, "order status"@, text@),
                ),
            },
    {
        match Status::read_word(text) {
            Some(status) => Ok(status),
            None => Err(RepoError::Sqlite(invalid_text(5, "order status", text))),
        }
    }

    /// The status in the middle of a sentence.
    pub open spec fn spoken(self) -> Seq<char> {
        match self {
            Status::Draft => "draft"@,
            Status::Printing => "printing"@,
            Status::Issued => "issued"@,
            Status::Replaced => "replaced"@,
            Status::Voided => "voided"@,
            Status::Abandoned => "abandoned"@,
        }
    }

    fn in_words(self) -> (result: &'static str)
        ensures
            result@ == self.spoken(),
    {
        match self {
            Status::Draft => "draft",
            Status::Printing => "printing",
            Status::Issued => "issued",
            Status::Replaced => "replaced",
            Status::Voided => "voided",
            Status::Abandoned => "abandoned",
        }
    }
}

/// One round on a tab.
#[derive(Debug, PartialEq, Eq)]
pub struct Order {
    pub id: i64,
    pub tab_id: i64,
    pub shift_id: i64,
    pub waiter_id: i64,
    pub cashier_id: i64,
    pub status: Status,
    pub created_at: i64,
    pub issued_at: Option<i64>,
    pub replaces_order_id: Option<i64>,
    pub root_order_id: Option<i64>,
    pub void_reason: Option<String>,
    pub voided_at: Option<i64>,
    pub voided_by: Option<i64>,
}

impl Clone for Order {
    fn clone(&self) -> (result: Self)
        ensures
            result == *self,
    {
        Order {
            id: self.id,
            tab_id: self.tab_id,
            shift_id: self.shift_id,
            waiter_id: self.waiter_id,
            cashier_id: self.cashier_id,
            status: self.status,
            created_at: self.created_at,
            issued_at: self.issued_at,
            replaces_order_id: self.replaces_order_id,
            root_order_id: self.root_order_id,
            void_reason: copy_text(&self.void_reason),
            voided_at: self.voided_at,
            voided_by: self.voided_by,
        }
    }
}

impl Row for Order {
    open spec fn key(&self) -> i64 {
        self.id
    }

    fn id(&self) -> (result: i64) {
        self.id
    }

    fn copy_row(&self) -> (result: Self) {
        self.clone()
    }
}

/// One line of an order, with the name, recipe and price of the moment it was
/// rung in.
#[derive(Debug, PartialEq, Eq)]
pub struct Line {
    pub id: i64,
    pub order_id: i64,
    pub sale_item_id: i64,
    pub sale_item_name: String,
    pub recipe_id: i64,
    pub quantity: Milli,
    pub unit_price: Money,
    pub line_total: Money,
}

impl Clone for Line {
    fn clone(&self) -> (result: Self)
        ensures
            result == *self,
    {
        Line {
            id: self.id,
            order_id: self.order_id,
            sale_item_id: self.sale_item_id,
            sale_item_name: self.sale_item_name.clone(),
            recipe_id: self.recipe_id,
            quantity: self.quantity,
            unit_price: self.unit_price,
            line_total: self.line_total,
        }
    }
}

impl Row for Line {
    open spec fn key(&self) -> i64 {
        self.id
    }

    fn id(&self) -> (result: i64) {
        self.id
    }

    fn copy_row(&self) -> (result: Self) {
        self.clone()
    }
}

/// What a new draft is made from.
#[derive(Clone, Copy, Debug, PartialEq, Eq, Structural)]
pub struct NewDraft {
    pub tab_id: i64,
    pub shift_id: i64,
    pub cashier_id: i64,
    pub created_at: i64,
}

// ---------------------------------------------------------------------------
// Reading
// ---------------------------------------------------------------------------

pub fn find(db: &Store, id: i64) -> (result: Result<Order, RepoError>)
    ensures
        match row(db.orders@, id) {
            Some(found) => result == Ok::<Order, RepoError>(found),
            None => result matches Err(error) && error@ == Why::Missing("order"@),
        },
{
    match find_row(&db.orders, id) {
        Some(found) => Ok(found),
        None => Err(RepoError::Missing { what: "order" }),
    }
}

pub open spec fn on_tab(tab_id: i64) -> spec_fn(Order) -> bool {
    |o: Order| o.tab_id == tab_id
}

pub open spec fn rung_before() -> spec_fn(Order, Order) -> bool {
    |a: Order, b: Order|
        a.created_at < b.created_at || (a.created_at == b.created_at && a.id < b.id)
}

fn in_rung_order(rows: &Vec<Order>) -> (result: Vec<Order>)
    ensures
        result@ == in_order(rows@, rung_before()),
{
    sort_rows(
        rows,
        |a: &Order, b: &Order| -> (r: bool)
            ensures
                r == (a.created_at < b.created_at || (a.created_at == b.created_at && a.id < b.id))
            { a.created_at < b.created_at || (a.created_at == b.created_at && a.id < b.id) },
        Ghost(rung_before()),
    )
}

/// The orders of a tab, the oldest first.
pub open spec fn orders_on(db: Store, tab_id: i64) -> Seq<Order> {
    in_order(chosen(db.orders@, on_tab(tab_id)), rung_before())
}

/// Every order on a tab, oldest first.
pub fn for_tab(db: &Store, tab_id: i64) -> (result: Vec<Order>)
    ensures
        result@ == orders_on(*db, tab_id),
{
    let found: Vec<Order> = choose_rows(
        &db.orders,
        |o: &Order| -> (b: bool)
            ensures
                b == (o.tab_id == tab_id)
            { o.tab_id == tab_id },
        Ghost(on_tab(tab_id)),
    );
    in_rung_order(&found)
}

pub open spec fn is_printing() -> spec_fn(Order) -> bool {
    |o: Order| o.status == Status::Printing
}

/// The orders at the printer, the oldest first.
pub open spec fn at_the_printer(db: Store) -> Seq<Order> {
    in_order(chosen(db.orders@, is_printing()), rung_before())
}

/// Orders whose print nobody has answered for.
pub fn stranded_prints(db: &Store) -> (result: Vec<Order>)
    ensures
        result@ == at_the_printer(*db),
{
    let found: Vec<Order> = choose_rows(
        &db.orders,
        |o: &Order| -> (b: bool)
            ensures
                b == (o.status == Status::Printing)
            { o.status == Status::Printing },
        Ghost(is_printing()),
    );
    in_rung_order(&found)
}

pub open spec fn line_of(order_id: i64) -> spec_fn(Line) -> bool {
    |l: Line| l.order_id == order_id
}

pub(crate) fn has_lines(db: &Store, order_id: i64) -> (result: bool)
    ensures
        result == any(db.order_lines@, line_of(order_id)),
{
    any_row(
        &db.order_lines,
        |l: &Line| -> (b: bool)
            ensures
                b == (l.order_id == order_id)
            { l.order_id == order_id },
        Ghost(line_of(order_id)),
    )
}

pub open spec fn written_before() -> spec_fn(Line, Line) -> bool {
    |a: Line, b: Line| a.id < b.id
}

/// The lines of an order, in the order they were rung in.
pub open spec fn lines_of(db: Store, order_id: i64) -> Seq<Line> {
    in_order(chosen(db.order_lines@, line_of(order_id)), written_before())
}

pub fn lines(db: &Store, order_id: i64) -> (result: Vec<Line>)
    ensures
        result@ == lines_of(*db, order_id),
{
    let found: Vec<Line> = choose_rows(
        &db.order_lines,
        |l: &Line| -> (b: bool)
            ensures
                b == (l.order_id == order_id)
            { l.order_id == order_id },
        Ghost(line_of(order_id)),
    );
    sort_rows(
        &found,
        |a: &Line, b: &Line| -> (r: bool)
            ensures
                r == (a.id < b.id)
            { a.id < b.id },
        Ghost(written_before()),
    )
}

// ---------------------------------------------------------------------------
// Drafts and lines
// ---------------------------------------------------------------------------

/// What keeps an order out of a shift; nothing, where it belongs there.
pub open spec fn order_shift_refusal(db: Store, shift_id: i64) -> Option<Why> {
    match shift(db, shift_id) {
        None => Some(Why::Missing("shift"@)),
        Some(night) => if night.status == shifts::Status::Open {
            None
        } else {
            Some(Why::Refused("orders belong to the shift that is currently open"@))
        },
    }
}

fn require_open_shift(db: &Store, shift_id: i64) -> (result: Result<(), RepoError>)
    ensures
        match order_shift_refusal(*db, shift_id) {
            None => result is Ok,
            Some(why) => result matches Err(error) && error@ == why,
        },
{
    match shifts::find(db, shift_id) {
        Ok(night) => {
            if night.status != shifts::Status::Open {
                return refuse("orders belong to the shift that is currently open");
            }
            Ok(())
        },
        Err(error) => Err(error),
    }
}

/// What keeps a correction off a tab; nothing, where it can be made.
pub open spec fn correction_tab_refusal(db: Store, tab_id: i64) -> Option<Why> {
    match tab(db, tab_id) {
        None => Some(Why::Missing("tab"@)),
        Some(found) => if found.status == tabs::Status::Open {
            None
        } else {
            Some(Why::Refused("corrections require a tab that is still open"@))
        },
    }
}

fn require_open_tab(db: &Store, tab_id: i64) -> (result: Result<(), RepoError>)
    ensures
        match correction_tab_refusal(*db, tab_id) {
            None => result is Ok,
            Some(why) => result matches Err(error) && error@ == why,
        },
{
    match tabs::find(db, tab_id) {
        Ok(found) => {
            if found.status != tabs::Status::Open {
                return refuse("corrections require a tab that is still open");
            }
            Ok(())
        },
        Err(error) => Err(error),
    }
}

/// Whether a tab takes orders.
pub open spec fn takes_orders(db: Store, tab_id: i64) -> bool {
    tab(db, tab_id) matches Some(found) && found.status == tabs::Status::Open
}

pub(crate) fn tab_takes_orders(db: &Store, tab_id: i64) -> (result: bool)
    ensures
        result == takes_orders(*db, tab_id),
{
    match tabs::find(db, tab_id) {
        Ok(found) => found.status == tabs::Status::Open,
        Err(_) => false,
    }
}

/// Why a draft cannot be created; nothing, where it can.
pub open spec fn create_refusal(db: Store, draft: NewDraft) -> Option<Why> {
    match till_refusal(db, draft.cashier_id) {
        Some(why) => Some(why),
        None => match order_shift_refusal(db, draft.shift_id) {
            Some(why) => Some(why),
            None => if !takes_orders(db, draft.tab_id) {
                Some(Why::Refused("an order needs a tab that is still open"@))
            } else if fresh_id(db.orders@) is None {
                Some(Why::Sqlite(SqlWhy::Full))
            } else {
                None
            },
        },
    }
}

/// Whether a store is another with that draft started.
pub open spec fn draft_created(
    before: Store,
    after: Store,
    draft: NewDraft,
    order: Order,
) -> bool {
    &&& fresh_id(before.orders@) == Some(order.id)
    &&& order == (Order {
        id: order.id,
        tab_id: draft.tab_id,
        shift_id: draft.shift_id,
        waiter_id: tab(before, draft.tab_id)->0.waiter_id,
        cashier_id: draft.cashier_id,
        status: Status::Draft,
        created_at: draft.created_at,
        issued_at: None,
        replaces_order_id: None,
        root_order_id: None,
        void_reason: None,
        voided_at: None,
        voided_by: None,
    })
    &&& after.orders@ == before.orders@.push(order)
    &&& after == (Store { orders: after.orders, ..before })
}

/// Create a draft for the tab's current waiter.
///
/// The waiter is looked up here, so a transferred tab never produces an order
/// stamped with its former owner.
pub fn create(db: &mut Store, draft: NewDraft) -> (result: Result<Order, RepoError>)
    ensures
        ledgers_kept(*old(db), *final(db)),
        match result {
            Ok(order) => {
                &&& create_refusal(*old(db), draft) is None
                &&& draft_created(*old(db), *final(db), draft, order)
            },
            Err(error) => {
                &&& *final(db) == *old(db)
                &&& create_refusal(*old(db), draft) == Some(error@)
            },
        },
{
    match require_active_cashier(db, draft.cashier_id) {
        Ok(_) => {},
        Err(error) => {
            return Err(error);
        },
    }
    match require_open_shift(db, draft.shift_id) {
        Ok(_) => {},
        Err(error) => {
            return Err(error);
        },
    }
    let waiter_id: i64 = match tabs::find(db, draft.tab_id) {
        Ok(found) => {
            if found.status != tabs::Status::Open {
                return refuse("an order needs a tab that is still open");
            }
            found.waiter_id
        },
        Err(_) => {
            return refuse("an order needs a tab that is still open");
        },
    };
    let id: i64 = match next_id(&db.orders) {
        Some(id) => id,
        None => {
            return Err(RepoError::Sqlite(SqlError::Full));
        },
    };
    let order: Order = Order {
        id,
        tab_id: draft.tab_id,
        shift_id: draft.shift_id,
        waiter_id,
        cashier_id: draft.cashier_id,
        status: Status::Draft,
        created_at: draft.created_at,
        issued_at: None,
        replaces_order_id: None,
        root_order_id: None,
        void_reason: None,
        voided_at: None,
        voided_by: None,
    };
    proof {
        writing_keeps_rung(db.orders@, order);
    }
    db.orders.push(order.clone());
    Ok(order)
}

/// Why a replacement cannot be started; nothing, where it can.
pub open spec fn replacement_refusal(db: Store, original_order_id: i64, cashier_id: i64) -> Option<
    Why,
> {
    match till_refusal(db, cashier_id) {
        Some(why) => Some(why),
        None => match row(db.orders@, original_order_id) {
            None => Some(Why::Missing("order"@)),
            Some(original) => if original.status != Status::Issued {
                Some(Why::Refused("only an issued order can be corrected"@))
            } else {
                match order_shift_refusal(db, original.shift_id) {
                    Some(why) => Some(why),
                    None => match correction_tab_refusal(db, original.tab_id) {
                        Some(why) => Some(why),
                        None => if fresh_id(db.orders@) is None {
                            Some(Why::Sqlite(SqlWhy::Full))
                        } else {
                            None
                        },
                    },
                }
            },
        },
    }
}

/// The first order of the chain that an order belongs to.
pub open spec fn chain_root(original: Order) -> i64 {
    match original.root_order_id {
        Some(root) => root,
        None => original.id,
    }
}

/// Whether a store is another with a correction of that order started.
pub open spec fn replacement_created(
    before: Store,
    after: Store,
    original_order_id: i64,
    cashier_id: i64,
    created_at: i64,
    order: Order,
) -> bool {
    &&& fresh_id(before.orders@) == Some(order.id)
    &&& row(before.orders@, original_order_id) matches Some(original) && order == (Order {
        id: order.id,
        tab_id: original.tab_id,
        shift_id: original.shift_id,
        waiter_id: original.waiter_id,
        cashier_id,
        status: Status::Draft,
        created_at,
        issued_at: None,
        replaces_order_id: Some(original.id),
        root_order_id: Some(chain_root(original)),
        void_reason: None,
        voided_at: None,
        voided_by: None,
    })
    &&& after.orders@ == before.orders@.push(order)
    &&& after == (Store { orders: after.orders, ..before })
}

/// Start a correction chain member with the original sale's tab, shift and
/// waiter, but the cashier who is performing the correction now.
pub fn create_replacement(
    db: &mut Store,
    original_order_id: i64,
    cashier_id: i64,
    created_at: i64,
) -> (result: Result<Order, RepoError>)
    ensures
        ledgers_kept(*old(db), *final(db)),
        match result {
            Ok(order) => {
                &&& replacement_refusal(*old(db), original_order_id, cashier_id) is None
                &&& replacement_created(
                    *old(db),
                    *final(db),
                    original_order_id,
                    cashier_id,
                    created_at,
                    order,
                )
            },
            Err(error) => {
                &&& *final(db) == *old(db)
                &&& replacement_refusal(*old(db), original_order_id, cashier_id) == Some(error@)
            },
        },
{
    match require_active_cashier(db, cashier_id) {
        Ok(_) => {},
        Err(error) => {
            return Err(error);
        },
    }
    let original: Order = match find(db, original_order_id) {
        Ok(original) => original,
        Err(error) => {
            return Err(error);
        },
    };
    if original.status != Status::Issued {
        return refuse("only an issued order can be corrected");
    }
    match require_open_shift(db, original.shift_id) {
        Ok(_) => {},
        Err(error) => {
            return Err(error);
        },
    }
    match require_open_tab(db, original.tab_id) {
        Ok(_) => {},
        Err(error) => {
            return Err(error);
        },
    }
    let id: i64 = match next_id(&db.orders) {
        Some(id) => id,
        None => {
            return Err(RepoError::Sqlite(SqlError::Full));
        },
    };
    let root: i64 = match original.root_order_id {
        Some(root) => root,
        None => original.id,
    };
    let order: Order = Order {
        id,
        tab_id: original.tab_id,
        shift_id: original.shift_id,
        waiter_id: original.waiter_id,
        cashier_id,
        status: Status::Draft,
        created_at,
        issued_at: None,
        replaces_order_id: Some(original.id),
        root_order_id: Some(root),
        void_reason: None,
        voided_at: None,
        voided_by: None,
    };
    proof {
        writing_keeps_rung(db.orders@, order);
    }
    db.orders.push(order.clone());
    Ok(order)
}

/// What a quantity at a price comes to, to the nearest minor unit and half a
/// unit up, or why it cannot be totalled.
pub open spec fn line_total(quantity: Milli, unit_price: Money) -> Result<int, Seq<char>> {
    let scaled = quantity.thousandths * unit_price.minor;
    if quantity.thousandths <= 0 {
        Err("an order-line quantity must be greater than zero"@)
    } else if unit_price.minor < 0 {
        Err("an order-line price cannot be negative"@)
    } else if !fits(scaled + 500) {
        Err("that order line is too large to total safely"@)
    } else {
        Ok((scaled + 500) / 1_000)
    }
}

fn checked_line_total(quantity: Milli, unit_price: Money) -> (result: Result<Money, RepoError>)
    ensures
        match line_total(quantity, unit_price) {
            Ok(total) => result matches Ok(money) && money.minor == total && total >= 0,
            Err(text) => result matches Err(error) && error@ == Why::Refused(text),
        },
{
    if quantity.is_zero() || quantity.is_negative() {
        return refuse("an order-line quantity must be greater than zero");
    }
    if unit_price.is_negative() {
        return refuse("an order-line price cannot be negative");
    }
    let a: i128 = quantity.thousandths as i128;
    let b: i128 = unit_price.minor as i128;
    assert(0 <= a * b <= 0x4000_0000_0000_0000_0000_0000_0000_0000) by (nonlinear_arith)
        requires
            0 <= a <= i64::MAX,
            0 <= b <= i64::MAX,
    ;
    match narrow(a * b + 500) {
        Some(rounded) => Ok(Money::from_minor(rounded / 1_000)),
        None => refuse("that order line is too large to total safely"),
    }
}

/// Whether an order can still be rung into: it is there, and a draft.
pub open spec fn is_draft(orders: Seq<Order>, id: i64) -> bool {
    row(orders, id) matches Some(order) && order.status == Status::Draft
}

/// Whether what an order sells is settled: it was issued, corrected or voided
/// since, or given up, so that it is neither a draft nor at the printer.
pub open spec fn is_rung(orders: Seq<Order>, id: i64) -> bool {
    row(orders, id) matches Some(order) && order.status != Status::Draft && order.status
        != Status::Printing
}

/// A new order leaves every order that is rung up as it is.
proof fn writing_keeps_rung(orders: Seq<Order>, new: Order)
    ensures
        forall|id: i64| is_rung(orders, id) ==> #[trigger] is_rung(orders.push(new), id),
{
    assert forall|id: i64| is_rung(orders, id) implies #[trigger] is_rung(
        orders.push(new),
        id,
    ) by {
        writing_keeps_places(orders, new, id);
    }
}

/// An order that changes leaves every order that is rung up as it is, unless it
/// is one of them and goes back.
pub(crate) proof fn changing_keeps_rung(orders: Seq<Order>, at: int, new: Order)
    requires
        0 <= at < orders.len(),
        new.id == orders[at].id,
        new.status == orders[at].status || orders[at].status == Status::Draft || orders[at].status
            == Status::Printing || (new.status != Status::Draft && new.status != Status::Printing),
    ensures
        forall|id: i64| is_rung(orders, id) ==> #[trigger] is_rung(orders.update(at, new), id),
{
    assert forall|id: i64| is_rung(orders, id) implies #[trigger] is_rung(
        orders.update(at, new),
        id,
    ) by {
        changing_keeps_places(orders, at, new, id);
    }
}

/// Why a line cannot be written into an order; nothing, where it can.
pub open spec fn line_refusal(
    db: Store,
    order_id: i64,
    quantity: Milli,
    unit_price: Money,
) -> Option<Why> {
    match line_total(quantity, unit_price) {
        Err(text) => Some(Why::Refused(text)),
        Ok(_) => if !is_draft(db.orders@, order_id) {
            Some(Why::Refused("only a draft can be given another line"@))
        } else if fresh_id(db.order_lines@) is None {
            Some(Why::Sqlite(SqlWhy::Full))
        } else {
            None
        },
    }
}

/// Whether a line says what was rung in.
pub open spec fn line_says(
    line: Line,
    order_id: i64,
    sale_item_id: i64,
    name: Seq<char>,
    recipe_id: i64,
    quantity: Milli,
    unit_price: Money,
) -> bool {
    &&& line.order_id == order_id
    &&& line.sale_item_id == sale_item_id
    &&& line.sale_item_name@ == name
    &&& line.recipe_id == recipe_id
    &&& line.quantity == quantity
    &&& line.unit_price == unit_price
    &&& line_total(quantity, unit_price) == Ok::<int, Seq<char>>(line.line_total.minor as int)
}

/// Whether a store is another with that line written after the others.
pub open spec fn line_written(before: Store, after: Store, line: Line) -> bool {
    &&& fresh_id(before.order_lines@) == Some(line.id)
    &&& after.order_lines@ == before.order_lines@.push(line)
    &&& after == (Store { order_lines: after.order_lines, ..before })
}

fn insert_line(
    db: &mut Store,
    order_id: i64,
    sale_item_id: i64,
    sale_item_name: &str,
    recipe_id: i64,
    quantity: Milli,
    unit_price: Money,
) -> (result: Result<Line, RepoError>)
    ensures
        match result {
            Ok(line) => {
                &&& line_refusal(*old(db), order_id, quantity, unit_price) is None
                &&& line_says(
                    line,
                    order_id,
                    sale_item_id,
                    sale_item_name@,
                    recipe_id,
                    quantity,
                    unit_price,
                )
                &&& line_written(*old(db), *final(db), line)
            },
            Err(error) => {
                &&& *final(db) == *old(db)
                &&& line_refusal(*old(db), order_id, quantity, unit_price) == Some(error@)
            },
        },
{
    let total: Money = match checked_line_total(quantity, unit_price) {
        Ok(total) => total,
        Err(error) => {
            return Err(error);
        },
    };
    let rings: bool = match find_place(&db.orders, order_id) {
        Some(at) => db.orders[at].status == Status::Draft,
        None => false,
    };
    if !rings {
        return refuse("only a draft can be given another line");
    }
    let id: i64 = match next_id(&db.order_lines) {
        Some(id) => id,
        None => {
            return Err(RepoError::Sqlite(SqlError::Full));
        },
    };
    let line: Line = Line {
        id,
        order_id,
        sale_item_id,
        sale_item_name: sale_item_name.to_owned(),
        recipe_id,
        quantity,
        unit_price,
        line_total: total,
    };
    db.order_lines.push(line.clone());
    Ok(line)
}

/// A line of that order that sells that item.
pub open spec fn line_selling(order_id: i64, sale_item_id: i64) -> spec_fn(Line) -> bool {
    |l: Line| l.order_id == order_id && l.sale_item_id == sale_item_id
}

/// Whether an order corrects one that already has that item.
pub open spec fn must_copy(db: Store, order_id: i64, sale_item_id: i64) -> bool {
    row(db.orders@, order_id) matches Some(order) && (order.replaces_order_id matches Some(original)
        && any(db.order_lines@, line_selling(original, sale_item_id)))
}

/// Why a line cannot be rung in; nothing, where it can.
pub open spec fn add_line_refusal(
    db: Store,
    order_id: i64,
    sale_item_id: i64,
    quantity: Milli,
) -> Option<Why> {
    if must_copy(db, order_id, sale_item_id) {
        Some(
            Why::Refused(
                "an item already on the corrected order must keep its original recipe and price"@,
            ),
        )
    } else {
        match on_menu(db, sale_item_id) {
            None => Some(Why::Missing("menu item"@)),
            Some(item) => line_refusal(db, order_id, quantity, item.price),
        }
    }
}

/// Whether a store is another with that line rung into an order.
pub open spec fn line_rung(
    before: Store,
    after: Store,
    order_id: i64,
    sale_item_id: i64,
    quantity: Milli,
    line: Line,
) -> bool {
    &&& on_menu(before, sale_item_id) matches Some(item) && line_says(
        line,
        order_id,
        item.sale_item_id,
        item.name@,
        item.recipe_id,
        quantity,
        item.price,
    )
    &&& line_written(before, after, line)
}

/// Add a line to a draft, using the recipe, name and price that are current now.
pub fn add_line(db: &mut Store, order_id: i64, sale_item_id: i64, quantity: Milli) -> (result:
    Result<Line, RepoError>)
    ensures
        ledgers_kept(*old(db), *final(db)),
        match result {
            Ok(line) => {
                &&& add_line_refusal(*old(db), order_id, sale_item_id, quantity) is None
                &&& line_rung(*old(db), *final(db), order_id, sale_item_id, quantity, line)
            },
            Err(error) => {
                &&& *final(db) == *old(db)
                &&& add_line_refusal(*old(db), order_id, sale_item_id, quantity) == Some(error@)
            },
        },
{
    let corrected: Option<i64> = match find_place(&db.orders, order_id) {
        Some(at) => db.orders[at].replaces_order_id,
        None => None,
    };
    if let Some(original) = corrected {
        if any_row(
            &db.order_lines,
            |l: &Line| -> (b: bool)
                ensures
                    b == (l.order_id == original && l.sale_item_id == sale_item_id)
                { l.order_id == original && l.sale_item_id == sale_item_id },
            Ghost(line_selling(original, sale_item_id)),
        ) {
            return refuse(
                "an item already on the corrected order must keep its original recipe and price",
            );
        }
    }
    let item: MenuItem = match catalogue::menu_item(db, sale_item_id) {
        Ok(item) => item,
        Err(error) => {
            return Err(error);
        },
    };
    insert_line(
        db,
        order_id,
        item.sale_item_id,
        item.name.as_str(),
        item.recipe_id,
        quantity,
        item.price,
    )
}

/// The line that a replacement copies: one of the order it corrects.
pub open spec fn copied_line(db: Store, replacement_order_id: i64, original_line_id: i64) -> Option<
    Line,
> {
    match (row(db.order_lines@, original_line_id), row(db.orders@, replacement_order_id)) {
        (Some(line), Some(replacement)) => if replacement.replaces_order_id == Some(line.order_id) {
            Some(line)
        } else {
            None
        },
        _ => None,
    }
}

/// Why a line cannot be copied; nothing, where it can.
pub open spec fn copy_line_refusal(
    db: Store,
    replacement_order_id: i64,
    original_line_id: i64,
    quantity: Milli,
) -> Option<Why> {
    match copied_line(db, replacement_order_id, original_line_id) {
        None => Some(
            Why::Refused("a replacement can only copy a line from the order it corrects"@),
        ),
        Some(line) => line_refusal(db, replacement_order_id, quantity, line.unit_price),
    }
}

/// Whether a store is another with that line copied into a correction.
pub open spec fn line_copied(
    before: Store,
    after: Store,
    replacement_order_id: i64,
    original_line_id: i64,
    quantity: Milli,
    line: Line,
) -> bool {
    &&& copied_line(before, replacement_order_id, original_line_id) matches Some(
        original,
    ) && line_says(
        line,
        replacement_order_id,
        original.sale_item_id,
        original.sale_item_name@,
        original.recipe_id,
        quantity,
        original.unit_price,
    )
    &&& line_written(before, after, line)
}

/// Add a correction line from the exact snapshot on the original order.
///
/// The original line is named by its identity because the same item may stand
/// on an order twice, with two recipes or two prices.
pub fn add_line_from_original(
    db: &mut Store,
    replacement_order_id: i64,
    original_line_id: i64,
    quantity: Milli,
) -> (result: Result<Line, RepoError>)
    ensures
        ledgers_kept(*old(db), *final(db)),
        match result {
            Ok(line) => {
                &&& copy_line_refusal(
                    *old(db),
                    replacement_order_id,
                    original_line_id,
                    quantity,
                ) is None
                &&& line_copied(*old(db), *final(db), replacement_order_id, original_line_id, quantity, line)
            },
            Err(error) => {
                &&& *final(db) == *old(db)
                &&& copy_line_refusal(
                    *old(db),
                    replacement_order_id,
                    original_line_id,
                    quantity,
                ) == Some(error@)
            },
        },
{
    let snapshot: Line = match (
        find_row(&db.order_lines, original_line_id),
        find_place(&db.orders, replacement_order_id),
    ) {
        (Some(line), Some(at)) => {
            if db.orders[at].replaces_order_id != Some(line.order_id) {
                return refuse("a replacement can only copy a line from the order it corrects");
            }
            line
        },
        _ => {
            return refuse("a replacement can only copy a line from the order it corrects");
        },
    };
    insert_line(
        db,
        replacement_order_id,
        snapshot.sale_item_id,
        snapshot.sale_item_name.as_str(),
        snapshot.recipe_id,
        quantity,
        snapshot.unit_price,
    )
}

// ---------------------------------------------------------------------------
// From state to state
// ---------------------------------------------------------------------------

/// Whether a store is another with one order changed.
pub open spec fn order_changed(
    before: Store,
    after: Store,
    id: i64,
    change: spec_fn(Order) -> Order,
) -> bool {
    &&& place(before.orders@, id) matches Some(p) && after.orders@ == before.orders@.update(
        p,
        change(before.orders@[p]),
    )
    &&& after == (Store { orders: after.orders, ..before })
}

pub open spec fn now(status: Status) -> spec_fn(Order) -> Order {
    |o: Order| Order { status, ..o }
}

/// Why an order stays as it is: it is not there, or a sentence, with the state
/// it is in where that is not the one expected.
pub open spec fn held_back(
    db: Store,
    order_id: i64,
    moves: bool,
    expected: Status,
    message: Seq<char>,
) -> Option<Why> {
    match row(db.orders@, order_id) {
        None => Some(Why::Missing("order"@)),
        Some(order) => if moves {
            None
        } else if order.status != expected {
            Some(Why::Refused(message + "; the order is "@ + order.status.spoken()))
        } else {
            Some(Why::Refused(message))
        },
    }
}

fn expect_state_change(actual: Status, expected: Status, message: &str) -> (result: RepoError)
    ensures
        result@ == Why::Refused(
            if actual != expected {
                message@ + "; the order is "@ + actual.spoken()
            } else {
                message@
            },
        ),
{
    if actual != expected {
        refused(join3(message, "; the order is ", actual.in_words()).as_str())
    } else {
        refused(message)
    }
}

/// Why a draft cannot be carried into a shift; nothing, where it can.
pub open spec fn carry_refusal(db: Store, order_id: i64, new_shift_id: i64) -> Option<Why> {
    match order_shift_refusal(db, new_shift_id) {
        Some(why) => Some(why),
        None => held_back(
            db,
            order_id,
            row(db.orders@, order_id) matches Some(order) && order.status == Status::Draft,
            Status::Draft,
            "only a draft can change shift"@,
        ),
    }
}

pub open spec fn moved_to_shift(shift_id: i64) -> spec_fn(Order) -> Order {
    |o: Order| Order { shift_id, ..o }
}

/// Whether a store is another with one draft carried into a night.
pub open spec fn draft_carried(
    before: Store,
    after: Store,
    order_id: i64,
    new_shift_id: i64,
) -> bool {
    &&& order_changed(before, after, order_id, moved_to_shift(new_shift_id))
}

/// Carry a failed-print draft into the currently open shift.
pub fn carry_draft(db: &mut Store, order_id: i64, new_shift_id: i64) -> (result: Result<
    (),
    RepoError,
>)
    ensures
        ledgers_kept(*old(db), *final(db)),
        match result {
            Ok(_) => {
                &&& carry_refusal(*old(db), order_id, new_shift_id) is None
                &&& draft_carried(*old(db), *final(db), order_id, new_shift_id)
            },
            Err(error) => {
                &&& *final(db) == *old(db)
                &&& carry_refusal(*old(db), order_id, new_shift_id) == Some(error@)
            },
        },
{
    match require_open_shift(db, new_shift_id) {
        Ok(_) => {},
        Err(error) => {
            return Err(error);
        },
    }
    let p: usize = match find_place(&db.orders, order_id) {
        Some(p) => p,
        None => {
            return Err(RepoError::Missing { what: "order" });
        },
    };
    let status: Status = db.orders[p].status;
    if status != Status::Draft {
        return Err(expect_state_change(status, Status::Draft, "only a draft can change shift"));
    }
    let mut changed: Order = db.orders[p].clone();
    changed.shift_id = new_shift_id;
    proof {
        changing_keeps_rung(db.orders@, p as int, changed);
    }
    db.orders.set(p, changed);
    Ok(())
}

/// Why an order cannot go to print; nothing, where it can.
pub open spec fn printing_refusal(db: Store, order_id: i64) -> Option<Why> {
    held_back(
        db,
        order_id,
        row(db.orders@, order_id) matches Some(order) && order.status == Status::Draft
            && takes_orders(db, order.tab_id) && slips_match(db, order_id, Stage::Waiting),
        Status::Draft,
        "printing needs an open tab and a pending issue receipt"@,
    )
}

/// Whether a store is another with one order at the printer.
pub open spec fn order_sent(
    before: Store,
    after: Store,
    order_id: i64,
) -> bool {
    &&& order_changed(before, after, order_id, now(Status::Printing))
}

/// Send a draft to print. Its pending issue receipts must already be exactly
/// the ones its destinations need.
pub fn mark_printing(db: &mut Store, order_id: i64) -> (result: Result<(), RepoError>)
    ensures
        ledgers_kept(*old(db), *final(db)),
        match result {
            Ok(_) => {
                &&& printing_refusal(*old(db), order_id) is None
                &&& order_sent(*old(db), *final(db), order_id)
            },
            Err(error) => {
                &&& *final(db) == *old(db)
                &&& printing_refusal(*old(db), order_id) == Some(error@)
            },
        },
{
    let p: usize = match find_place(&db.orders, order_id) {
        Some(p) => p,
        None => {
            return Err(RepoError::Missing { what: "order" });
        },
    };
    let status: Status = db.orders[p].status;
    if !(status == Status::Draft && tab_takes_orders(db, db.orders[p].tab_id) && slips_are_right(
        db,
        order_id,
        Stage::Waiting,
    )) {
        return Err(
            expect_state_change(
                status,
                Status::Draft,
                "printing needs an open tab and a pending issue receipt",
            ),
        );
    }
    let mut changed: Order = db.orders[p].clone();
    changed.status = Status::Printing;
    proof {
        changing_keeps_rung(db.orders@, p as int, changed);
    }
    db.orders.set(p, changed);
    Ok(())
}

/// An issue receipt of that order.
pub open spec fn slip_of(order_id: i64) -> spec_fn(Receipt) -> bool {
    |r: Receipt| r.order_id == Some(order_id) && r.kind == receipts::Kind::Issue
}

/// An issue receipt of that order that was not voided.
pub open spec fn live_slip_of(order_id: i64) -> spec_fn(Receipt) -> bool {
    |r: Receipt|
        r.order_id == Some(order_id) && r.kind == receipts::Kind::Issue && r.status
            != receipts::Status::Void
}

/// A receipt of that order that was not voided.
pub open spec fn live_receipt_of(order_id: i64) -> spec_fn(Receipt) -> bool {
    |r: Receipt| r.order_id == Some(order_id) && r.status != receipts::Status::Void
}

pub(crate) fn has_live_receipt(db: &Store, order_id: i64) -> (result: bool)
    ensures
        result == any(db.receipts@, live_receipt_of(order_id)),
{
    any_row(
        &db.receipts,
        |r: &Receipt| -> (b: bool)
            ensures
                b == (r.order_id == Some(order_id) && r.status != receipts::Status::Void)
            { r.order_id == Some(order_id) && r.status != receipts::Status::Void },
        Ghost(live_receipt_of(order_id)),
    )
}

/// Why an order cannot return to draft; nothing, where it can.
pub open spec fn return_refusal(db: Store, order_id: i64) -> Option<Why> {
    held_back(
        db,
        order_id,
        row(db.orders@, order_id) matches Some(order) && order.status == Status::Printing && any(
            db.receipts@,
            slip_of(order_id),
        ) && !any(db.receipts@, live_slip_of(order_id)),
        Status::Printing,
        "every issue receipt must be void before returning the order to draft"@,
    )
}

/// Whether a store is another with one order that is a draft again.
pub open spec fn order_returned(
    before: Store,
    after: Store,
    order_id: i64,
) -> bool {
    &&& order_changed(before, after, order_id, now(Status::Draft))
}

/// Recovery after a confirmed non-print. Every pending issue number must be
/// voided first; the numbers stay stored and are never reused.
pub fn return_to_draft(db: &mut Store, order_id: i64) -> (result: Result<(), RepoError>)
    ensures
        ledgers_kept(*old(db), *final(db)),
        match result {
            Ok(_) => {
                &&& return_refusal(*old(db), order_id) is None
                &&& order_returned(*old(db), *final(db), order_id)
            },
            Err(error) => {
                &&& *final(db) == *old(db)
                &&& return_refusal(*old(db), order_id) == Some(error@)
            },
        },
{
    let p: usize = match find_place(&db.orders, order_id) {
        Some(p) => p,
        None => {
            return Err(RepoError::Missing { what: "order" });
        },
    };
    let status: Status = db.orders[p].status;
    let some: bool = any_row(
        &db.receipts,
        |r: &Receipt| -> (b: bool)
            ensures
                b == (r.order_id == Some(order_id) && r.kind == receipts::Kind::Issue)
            { r.order_id == Some(order_id) && r.kind == receipts::Kind::Issue },
        Ghost(slip_of(order_id)),
    );
    let live: bool = any_row(
        &db.receipts,
        |r: &Receipt| -> (b: bool)
            ensures
                b == (r.order_id == Some(order_id) && r.kind == receipts::Kind::Issue && r.status
                    != receipts::Status::Void)
            {
                r.order_id == Some(order_id) && r.kind == receipts::Kind::Issue && r.status
                    != receipts::Status::Void
            },
        Ghost(live_slip_of(order_id)),
    );
    if !(status == Status::Printing && some && !live) {
        return Err(
            expect_state_change(
                status,
                Status::Printing,
                "every issue receipt must be void before returning the order to draft",
            ),
        );
    }
    let mut changed: Order = db.orders[p].clone();
    changed.status = Status::Draft;
    proof {
        changing_keeps_rung(db.orders@, p as int, changed);
    }
    db.orders.set(p, changed);
    Ok(())
}

/// An attempt to print a receipt of that order, with nobody knowing what came
/// of it.
pub open spec fn undecided(db: Store, order_id: i64) -> spec_fn(Attempt) -> bool {
    |a: Attempt|
        a.outcome == receipts::Outcome::Unknown && (row(db.receipts@, a.receipt_id) matches Some(r)
            && r.order_id == Some(order_id))
}

pub(crate) fn has_undecided(db: &Store, order_id: i64) -> (result: bool)
    ensures
        result == any(db.prints@, undecided(*db, order_id)),
{
    any_row(
        &db.prints,
        |a: &Attempt| -> (b: bool)
            ensures
                b == (a.outcome == receipts::Outcome::Unknown && (row(
                    db.receipts@,
                    a.receipt_id,
                ) matches Some(r) && r.order_id == Some(order_id)))
            {
                a.outcome == receipts::Outcome::Unknown && match find_place(
                    &db.receipts,
                    a.receipt_id,
                ) {
                    Some(at) => db.receipts[at].order_id == Some(order_id),
                    None => false,
                }
            },
        Ghost(undecided(*db, order_id)),
    )
}

/// Why an order cannot be issued; nothing, where it can.
pub open spec fn issuing_refusal(db: Store, order_id: i64) -> Option<Why> {
    held_back(
        db,
        order_id,
        row(db.orders@, order_id) matches Some(order) && order.status == Status::Printing
            && takes_orders(db, order.tab_id) && slips_match(db, order_id, Stage::Resolved) && !any(
            db.prints@,
            undecided(db, order_id),
        ),
        Status::Printing,
        "issuing needs an open tab and every issue receipt resolved"@,
    )
}

pub open spec fn issued_now(at: i64) -> spec_fn(Order) -> Order {
    |o: Order| Order { status: Status::Issued, issued_at: Some(at), ..o }
}

/// Whether a store is another with one order issued.
pub open spec fn order_issued(
    before: Store,
    after: Store,
    order_id: i64,
    issued_at: i64,
) -> bool {
    &&& order_changed(before, after, order_id, issued_now(issued_at))
}

/// Issue an order whose every slip is resolved. Stock and audit are written by
/// the action that this step belongs to.
pub fn mark_issued(db: &mut Store, order_id: i64, issued_at: i64) -> (result: Result<
    (),
    RepoError,
>)
    ensures
        ledgers_kept(*old(db), *final(db)),
        match result {
            Ok(_) => {
                &&& issuing_refusal(*old(db), order_id) is None
                &&& order_issued(*old(db), *final(db), order_id, issued_at)
            },
            Err(error) => {
                &&& *final(db) == *old(db)
                &&& issuing_refusal(*old(db), order_id) == Some(error@)
            },
        },
{
    let p: usize = match find_place(&db.orders, order_id) {
        Some(p) => p,
        None => {
            return Err(RepoError::Missing { what: "order" });
        },
    };
    let status: Status = db.orders[p].status;
    if !(status == Status::Printing && tab_takes_orders(db, db.orders[p].tab_id) && slips_are_right(
        db,
        order_id,
        Stage::Resolved,
    ) && !has_undecided(db, order_id)) {
        return Err(
            expect_state_change(
                status,
                Status::Printing,
                "issuing needs an open tab and every issue receipt resolved",
            ),
        );
    }
    let mut changed: Order = db.orders[p].clone();
    changed.status = Status::Issued;
    changed.issued_at = Some(issued_at);
    proof {
        changing_keeps_rung(db.orders@, p as int, changed);
    }
    db.orders.set(p, changed);
    Ok(())
}

/// Why a draft cannot be abandoned; nothing, where it can.
pub open spec fn abandon_refusal(db: Store, order_id: i64) -> Option<Why> {
    held_back(
        db,
        order_id,
        row(db.orders@, order_id) matches Some(order) && order.status == Status::Draft && !any(
            db.receipts@,
            live_receipt_of(order_id),
        ),
        Status::Draft,
        "a draft with a live receipt cannot be abandoned"@,
    )
}

/// Whether a store is another with one draft given up.
pub open spec fn order_abandoned(
    before: Store,
    after: Store,
    order_id: i64,
) -> bool {
    &&& order_changed(before, after, order_id, now(Status::Abandoned))
}

pub fn abandon(db: &mut Store, order_id: i64) -> (result: Result<(), RepoError>)
    ensures
        ledgers_kept(*old(db), *final(db)),
        match result {
            Ok(_) => {
                &&& abandon_refusal(*old(db), order_id) is None
                &&& order_abandoned(*old(db), *final(db), order_id)
            },
            Err(error) => {
                &&& *final(db) == *old(db)
                &&& abandon_refusal(*old(db), order_id) == Some(error@)
            },
        },
{
    let p: usize = match find_place(&db.orders, order_id) {
        Some(p) => p,
        None => {
            return Err(RepoError::Missing { what: "order" });
        },
    };
    let status: Status = db.orders[p].status;
    if !(status == Status::Draft && !has_live_receipt(db, order_id)) {
        return Err(
            expect_state_change(
                status,
                Status::Draft,
                "a draft with a live receipt cannot be abandoned",
            ),
        );
    }
    let mut changed: Order = db.orders[p].clone();
    changed.status = Status::Abandoned;
    proof {
        changing_keeps_rung(db.orders@, p as int, changed);
    }
    db.orders.set(p, changed);
    Ok(())
}

/// A correction of that order whose replacement was issued.
pub open spec fn replaces(db: Store, order_id: i64) -> spec_fn(CorrectionRow) -> bool {
    |c: CorrectionRow|
        c.original_order_id == order_id && c.kind == CorrectionKind::Correction
            && c.replacement_order_id is Some && (row(
            db.orders@,
            c.replacement_order_id->0,
        ) matches Some(replacement) && replacement.status == Status::Issued)
}

/// Why an order cannot be replaced; nothing, where it can.
pub open spec fn replaced_refusal(db: Store, order_id: i64) -> Option<Why> {
    held_back(
        db,
        order_id,
        row(db.orders@, order_id) matches Some(order) && order.status == Status::Issued && any(
            db.corrections@,
            replaces(db, order_id),
        ),
        Status::Issued,
        "an applied, issued replacement is required before replacing the original"@,
    )
}

/// Whether a store is another with one order replaced.
pub open spec fn order_replaced(
    before: Store,
    after: Store,
    original_order_id: i64,
) -> bool {
    &&& order_changed(
        before,
        after,
        original_order_id,
        now(Status::Replaced),
    )
}

pub fn mark_replaced(db: &mut Store, original_order_id: i64) -> (result: Result<(), RepoError>)
    ensures
        ledgers_kept(*old(db), *final(db)),
        match result {
            Ok(_) => {
                &&& replaced_refusal(*old(db), original_order_id) is None
                &&& order_replaced(*old(db), *final(db), original_order_id)
            },
            Err(error) => {
                &&& *final(db) == *old(db)
                &&& replaced_refusal(*old(db), original_order_id) == Some(error@)
            },
        },
{
    let p: usize = match find_place(&db.orders, original_order_id) {
        Some(p) => p,
        None => {
            return Err(RepoError::Missing { what: "order" });
        },
    };
    let status: Status = db.orders[p].status;
    let applied: bool = any_row(
        &db.corrections,
        |c: &CorrectionRow| -> (b: bool)
            ensures
                b == (c.original_order_id == original_order_id && c.kind
                    == CorrectionKind::Correction && c.replacement_order_id is Some && (row(
                    db.orders@,
                    c.replacement_order_id->0,
                ) matches Some(replacement) && replacement.status == Status::Issued))
            {
                c.original_order_id == original_order_id && c.kind == CorrectionKind::Correction
                    && match c.replacement_order_id {
                    Some(id) => match find_place(&db.orders, id) {
                        Some(at) => db.orders[at].status == Status::Issued,
                        None => false,
                    },
                    None => false,
                }
            },
        Ghost(replaces(*db, original_order_id)),
    );
    if !(status == Status::Issued && applied) {
        return Err(
            expect_state_change(
                status,
                Status::Issued,
                "an applied, issued replacement is required before replacing the original",
            ),
        );
    }
    let mut changed: Order = db.orders[p].clone();
    changed.status = Status::Replaced;
    proof {
        changing_keeps_rung(db.orders@, p as int, changed);
    }
    db.orders.set(p, changed);
    Ok(())
}

/// The void correction of that order that says exactly that.
pub open spec fn voids(order_id: i64, reason: Seq<char>, at: i64, by: i64) -> spec_fn(
    CorrectionRow,
) -> bool {
    |c: CorrectionRow|
        c.original_order_id == order_id && c.kind == CorrectionKind::Void && c.reason@ == reason
            && c.created_at == at && c.created_by == by
}

/// Why a text that has to say something is refused; nothing, where it does.
pub open spec fn text_refusal(text: Seq<char>, field: Seq<char>) -> Option<Why> {
    if is_blank(text) {
        Some(Why::Refused(field + " cannot be blank"@))
    } else {
        None
    }
}

fn require_text<'a>(text: &'a str, field: &str) -> (result: Result<&'a str, RepoError>)
    ensures
        match text_refusal(text@, field@) {
            None => result matches Ok(said) && said@ == trimmed(text@),
            Some(why) => result matches Err(error) && error@ == why,
        },
{
    let said: &str = text.trim();
    if said.is_empty() {
        return Err(refused(join2(field, " cannot be blank").as_str()));
    }
    Ok(said)
}

/// Why an order cannot be voided; nothing, where it can.
pub open spec fn voided_refusal(
    db: Store,
    order_id: i64,
    reason: Seq<char>,
    voided_at: i64,
    voided_by: i64,
) -> Option<Why> {
    match till_refusal(db, voided_by) {
        Some(why) => Some(why),
        None => match text_refusal(reason, "void reason"@) {
            Some(why) => Some(why),
            None => held_back(
                db,
                order_id,
                row(db.orders@, order_id) matches Some(order) && order.status == Status::Issued
                    && any(
                    db.corrections@,
                    voids(order_id, trimmed(reason), voided_at, voided_by),
                ),
                Status::Issued,
                "record the void correction before voiding the order"@,
            ),
        },
    }
}

/// Whether an order is another after a void.
pub open spec fn voided_as(
    after: Order,
    before: Order,
    reason: Seq<char>,
    voided_at: i64,
    voided_by: i64,
) -> bool {
    &&& after == (Order {
        status: Status::Voided,
        void_reason: after.void_reason,
        voided_at: Some(voided_at),
        voided_by: Some(voided_by),
        ..before
    })
    &&& chars_in(after.void_reason) == Some(trimmed(reason))
}

/// Whether a store is another with one order voided.
pub open spec fn order_voided(
    before: Store,
    after: Store,
    order_id: i64,
    reason: Seq<char>,
    voided_at: i64,
    voided_by: i64,
) -> bool {
    &&& place(before.orders@, order_id) matches Some(p) && ({
        &&& voided_as(after.orders@[p], before.orders@[p], reason, voided_at, voided_by)
        &&& after.orders@ == before.orders@.update(p, after.orders@[p])
    })
    &&& after == (Store { orders: after.orders, ..before })
}

pub fn mark_voided(db: &mut Store, order_id: i64, reason: &str, voided_at: i64, voided_by: i64) -> (result:
    Result<(), RepoError>)
    ensures
        ledgers_kept(*old(db), *final(db)),
        match result {
            Ok(_) => {
                &&& voided_refusal(*old(db), order_id, reason@, voided_at, voided_by) is None
                &&& order_voided(*old(db), *final(db), order_id, reason@, voided_at, voided_by)
            },
            Err(error) => {
                &&& *final(db) == *old(db)
                &&& voided_refusal(*old(db), order_id, reason@, voided_at, voided_by) == Some(
                    error@,
                )
            },
        },
{
    match require_active_cashier(db, voided_by) {
        Ok(_) => {},
        Err(error) => {
            return Err(error);
        },
    }
    let said: &str = match require_text(reason, "void reason") {
        Ok(said) => said,
        Err(error) => {
            return Err(error);
        },
    };
    let p: usize = match find_place(&db.orders, order_id) {
        Some(p) => p,
        None => {
            return Err(RepoError::Missing { what: "order" });
        },
    };
    let status: Status = db.orders[p].status;
    let recorded: bool = any_row(
        &db.corrections,
        |c: &CorrectionRow| -> (b: bool)
            ensures
                b == (c.original_order_id == order_id && c.kind == CorrectionKind::Void
                    && c.reason@ == said@ && c.created_at == voided_at && c.created_by == voided_by)
            {
                c.original_order_id == order_id && c.kind == CorrectionKind::Void && same(
                    c.reason.as_str(),
                    said,
                ) && c.created_at == voided_at && c.created_by == voided_by
            },
        Ghost(voids(order_id, said@, voided_at, voided_by)),
    );
    if !(status == Status::Issued && recorded) {
        return Err(
            expect_state_change(
                status,
                Status::Issued,
                "record the void correction before voiding the order",
            ),
        );
    }
    let mut changed: Order = db.orders[p].clone();
    changed.status = Status::Voided;
    changed.void_reason = Some(said.to_owned());
    changed.voided_at = Some(voided_at);
    changed.voided_by = Some(voided_by);
    proof {
        changing_keeps_rung(db.orders@, p as int, changed);
    }
    db.orders.set(p, changed);
    Ok(())
}

/// Why a replacement cannot release its original; nothing, where it can.
pub open spec fn detach_refusal(db: Store, order_id: i64) -> Option<Why> {
    held_back(
        db,
        order_id,
        row(db.orders@, order_id) matches Some(order) && order.status == Status::Draft
            && order.replaces_order_id is Some && !any(db.receipts@, live_receipt_of(order_id)),
        Status::Draft,
        "only a correction draft with no live receipt can release its original"@,
    )
}

pub open spec fn detached() -> spec_fn(Order) -> Order {
    |o: Order| Order { replaces_order_id: None, ..o }
}

/// Whether a store is another with one correction that lets its original go.
pub open spec fn order_detached(
    before: Store,
    after: Store,
    order_id: i64,
) -> bool {
    &&& order_changed(before, after, order_id, detached())
}

/// Release a replacement whose new paper was confirmed not to have printed.
pub fn detach_replacement(db: &mut Store, order_id: i64) -> (result: Result<(), RepoError>)
    ensures
        ledgers_kept(*old(db), *final(db)),
        match result {
            Ok(_) => {
                &&& detach_refusal(*old(db), order_id) is None
                &&& order_detached(*old(db), *final(db), order_id)
            },
            Err(error) => {
                &&& *final(db) == *old(db)
                &&& detach_refusal(*old(db), order_id) == Some(error@)
            },
        },
{
    let p: usize = match find_place(&db.orders, order_id) {
        Some(p) => p,
        None => {
            return Err(RepoError::Missing { what: "order" });
        },
    };
    let status: Status = db.orders[p].status;
    if !(status == Status::Draft && db.orders[p].replaces_order_id.is_some() && !has_live_receipt(
        db,
        order_id,
    )) {
        return Err(
            expect_state_change(
                status,
                Status::Draft,
                "only a correction draft with no live receipt can release its original",
            ),
        );
    }
    let mut changed: Order = db.orders[p].clone();
    changed.replaces_order_id = None;
    proof {
        changing_keeps_rung(db.orders@, p as int, changed);
    }
    db.orders.set(p, changed);
    Ok(())
}

proof fn choosing_passes_over<T>(before: Seq<T>, after: Seq<T>, wanted: spec_fn(T) -> bool)
    requires
        grown(before, after),
        forall|i: int| before.len() <= i < after.len() ==> !wanted(#[trigger] after[i]),
    ensures
        chosen(after, wanted) == chosen(before, wanted),
    decreases after.len(),
{
    if after.len() > before.len() {
        choosing_passes_over(before, after.drop_last(), wanted);
    } else {
        assert(after =~= before);
    }
}

/// Only a draft takes a line, rung in anew or copied: one that waits for the
/// printer, or that is past it, is never added to.
pub proof fn only_a_draft_takes_a_line(db: Store, order_id: i64, named: i64, quantity: Milli)
    ensures
        add_line_refusal(db, order_id, named, quantity) is None ==> is_draft(db.orders@, order_id),
        copy_line_refusal(db, order_id, named, quantity) is None ==> is_draft(
            db.orders@,
            order_id,
        ),
{
}

/// What an order sold is never changed: whatever is done next, an order that is
/// rung up stays rung up, and its lines are the same lines, with the same
/// recipes and at the same prices.
pub proof fn what_was_sold_is_kept(before: Store, after: Store, order_id: i64)
    requires
        ledgers_kept(before, after),
        is_rung(before.orders@, order_id),
    ensures
        is_rung(after.orders@, order_id),
        lines_of(after, order_id) == lines_of(before, order_id),
{
    choosing_passes_over(before.order_lines@, after.order_lines@, line_of(order_id));
}

/// An order that was replaced, voided or abandoned stays so: no step from state
/// to state takes it up again.
pub proof fn a_finished_order_stays_finished(
    db: Store,
    order_id: i64,
    shift_id: i64,
    reason: Seq<char>,
    at: i64,
    by: i64,
)
    requires
        row(db.orders@, order_id) matches Some(order) && (order.status == Status::Replaced
            || order.status == Status::Voided || order.status == Status::Abandoned),
    ensures
        carry_refusal(db, order_id, shift_id) is Some,
        printing_refusal(db, order_id) is Some,
        return_refusal(db, order_id) is Some,
        issuing_refusal(db, order_id) is Some,
        abandon_refusal(db, order_id) is Some,
        replaced_refusal(db, order_id) is Some,
        voided_refusal(db, order_id, reason, at, by) is Some,
        detach_refusal(db, order_id) is Some,
        replacement_refusal(db, order_id, by) is Some,
{
}

/// An order with a slip that was printed, or failed and replaced by hand, never
/// becomes a draft again.
pub proof fn an_authorised_order_is_never_a_draft_again(db: Store, order_id: i64, slip: int)
    requires
        0 <= slip < db.receipts@.len(),
        db.receipts@[slip].order_id == Some(order_id),
        db.receipts@[slip].kind == receipts::Kind::Issue,
        db.receipts@[slip].status == receipts::Status::Printed || db.receipts@[slip].status
            == receipts::Status::Failed,
    ensures
        return_refusal(db, order_id) is Some,
{
    assert(live_slip_of(order_id)(db.receipts@[slip]));
}

// ---------------------------------------------------------------------------
// Corrections
// ---------------------------------------------------------------------------

/// What a correction does to an order.
#[derive(Clone, Copy, Debug, PartialEq, Eq, Structural)]
pub enum CorrectionKind {
    Correction,
    Void,
}

impl CorrectionKind {
    /// The word it is stored under.
    pub open spec fn word(self) -> Seq<char> {
        match self {
            CorrectionKind::Correction => "CORRECTION"@,
            CorrectionKind::Void => "VOID"@,
        }
    }

    /// The word it is stored under.
    pub fn as_str(self) -> (result: &'static str)
        ensures
            result@ == self.word(),
    {
        match self {
            CorrectionKind::Correction => "CORRECTION",
            CorrectionKind::Void => "VOID",
        }
    }

    /// What a stored word stands for.
    pub open spec fn of_word(text: Seq<char>) -> Option<CorrectionKind> {
        if text == "CORRECTION"@ {
            Some(CorrectionKind::Correction)
        } else if text == "VOID"@ {
            Some(CorrectionKind::Void)
        } else {
            None
        }
    }

    fn read_word(text: &str) -> (result: Option<CorrectionKind>)
        ensures
            result == Self::of_word(text@),
    {
        if same(text, "CORRECTION") {
            Some(CorrectionKind::Correction)
        } else if same(text, "VOID") {
            Some(CorrectionKind::Void)
        } else {
            None
        }
    }

    /// A word that was stored reads back as what it stood for.
    pub proof fn a_stored_word_reads_back(self)
        ensures
            Self::of_word(self.word()) == Some(self),
    {
        reveal_strlit("CORRECTION");
        reveal_strlit("VOID");
        assert("VOID"@.len() != "CORRECTION"@.len());
    }
}

impl CorrectionKind {
    /// Reads a stored kind.
    pub fn parse(text: &str) -> (result: Result<CorrectionKind, SqlError>)
        ensures
            match CorrectionKind::of_word(text@) {
                Some(kind) => result == Ok::<CorrectionKind, SqlError>(kind),
                None => result matches Err(error) && error@ == unknown_word(
                    1,
                    "correction type"@,
                    text@,
                ),
            },
    {
        match CorrectionKind::read_word(text) {
            Some(kind) => Ok(kind),
            None => Err(invalid_text(1, "correction type", text)),
        }
    }
}

/// One product's frozen before/after correction arithmetic.
#[derive(Debug, PartialEq, Eq)]
pub struct CorrectionDelta {
    pub product_id: i64,
    pub before: Milli,
    pub after: Milli,
    pub delta: Milli,
    pub returned: Milli,
    pub written_off: Milli,
    pub note: String,
}

impl Clone for CorrectionDelta {
    fn clone(&self) -> (result: Self)
        ensures
            result == *self,
    {
        CorrectionDelta {
            product_id: self.product_id,
            before: self.before,
            after: self.after,
            delta: self.delta,
            returned: self.returned,
            written_off: self.written_off,
            note: self.note.clone(),
        }
    }
}

/// Why a disposition is not one; nothing, where it is. Additions return
/// nothing; reductions divide into physical returns and written-off stock.
pub open spec fn disposition_objection(before: Milli, after: Milli, returned: Milli) -> Option<
    Seq<char>,
> {
    let removed = before.thousandths - after.thousandths;
    if before.thousandths < 0 || after.thousandths < 0 || returned.thousandths < 0 {
        Some("correction quantities cannot be negative"@)
    } else if removed <= 0 && returned.thousandths != 0 {
        Some("returned stock is only valid for a product removed from the bill"@)
    } else if removed > 0 && returned.thousandths > removed {
        Some("more stock was returned than was removed from the bill"@)
    } else {
        None
    }
}

/// Whether a delta is what was made of one product.
pub open spec fn delta_says(
    delta: CorrectionDelta,
    product_id: i64,
    before: Milli,
    after: Milli,
    returned: Milli,
    note: Seq<char>,
) -> bool {
    &&& delta.product_id == product_id
    &&& delta.before == before
    &&& delta.after == after
    &&& delta.delta.thousandths == after.thousandths - before.thousandths
    &&& delta.returned == returned
    &&& delta.written_off.thousandths == (if after.thousandths < before.thousandths {
        before.thousandths - after.thousandths - returned.thousandths
    } else {
        0
    })
    &&& delta.note@ == note
}

impl CorrectionDelta {
    /// Build the only valid disposition: additions return nothing; reductions
    /// divide exactly into physical returns and written-off stock.
    pub fn new(
        product_id: i64,
        before: Milli,
        after: Milli,
        returned: Milli,
        note: &str,
    ) -> (result: Result<CorrectionDelta, RepoError>)
        ensures
            match result {
                Ok(delta) => {
                    &&& disposition_objection(before, after, returned) is None
                    &&& delta_says(delta, product_id, before, after, returned, note@)
                },
                Err(error) => disposition_objection(before, after, returned) matches Some(text)
                    && error@ == Why::Refused(text),
            },
    {
        if before.is_negative() || after.is_negative() || returned.is_negative() {
            return refuse("correction quantities cannot be negative");
        }
        let delta: i64 = after.thousandths - before.thousandths;
        let written_off: i64 = if delta >= 0 {
            if !returned.is_zero() {
                return refuse("returned stock is only valid for a product removed from the bill");
            }
            0
        } else {
            let reduction: i64 = before.thousandths - after.thousandths;
            if returned.thousandths > reduction {
                return refuse("more stock was returned than was removed from the bill");
            }
            reduction - returned.thousandths
        };
        Ok(
            CorrectionDelta {
                product_id,
                before,
                after,
                delta: Milli::from_thousandths(delta),
                returned,
                written_off: Milli::from_thousandths(written_off),
                note: note.to_owned(),
            },
        )
    }
}

/// A delta and the correction it belongs to.
#[derive(Debug, PartialEq, Eq)]
pub struct DeltaRow {
    pub owner_id: i64,
    pub delta: CorrectionDelta,
}

impl Clone for DeltaRow {
    fn clone(&self) -> (result: DeltaRow)
        ensures
            result == *self,
    {
        DeltaRow { owner_id: self.owner_id, delta: self.delta.clone() }
    }
}

/// A frozen correction, without its deltas.
#[derive(Debug, PartialEq, Eq)]
pub struct PendingRow {
    pub id: i64,
    pub original_order_id: i64,
    pub replacement_order_id: i64,
    pub issue_receipt_number: String,
    pub reason: String,
    pub shift_id: i64,
    pub created_by: i64,
    pub created_at: i64,
}

impl Clone for PendingRow {
    fn clone(&self) -> (result: Self)
        ensures
            result == *self,
    {
        PendingRow {
            id: self.id,
            original_order_id: self.original_order_id,
            replacement_order_id: self.replacement_order_id,
            issue_receipt_number: self.issue_receipt_number.clone(),
            reason: self.reason.clone(),
            shift_id: self.shift_id,
            created_by: self.created_by,
            created_at: self.created_at,
        }
    }
}

impl Row for PendingRow {
    open spec fn key(&self) -> i64 {
        self.id
    }

    fn id(&self) -> (result: i64) {
        self.id
    }

    fn copy_row(&self) -> (result: Self) {
        self.clone()
    }
}

/// An applied correction, without its deltas.
#[derive(Debug, PartialEq, Eq)]
pub struct CorrectionRow {
    pub id: i64,
    pub kind: CorrectionKind,
    pub original_order_id: i64,
    pub replacement_order_id: Option<i64>,
    pub issue_receipt_number: String,
    pub reason: String,
    pub shift_id: i64,
    pub created_by: i64,
    pub created_at: i64,
}

impl Clone for CorrectionRow {
    fn clone(&self) -> (result: Self)
        ensures
            result == *self,
    {
        CorrectionRow {
            id: self.id,
            kind: self.kind,
            original_order_id: self.original_order_id,
            replacement_order_id: self.replacement_order_id,
            issue_receipt_number: self.issue_receipt_number.clone(),
            reason: self.reason.clone(),
            shift_id: self.shift_id,
            created_by: self.created_by,
            created_at: self.created_at,
        }
    }
}

impl Row for CorrectionRow {
    open spec fn key(&self) -> i64 {
        self.id
    }

    fn id(&self) -> (result: i64) {
        self.id
    }

    fn copy_row(&self) -> (result: Self) {
        self.clone()
    }
}

/// An applied correction.
#[derive(Debug, PartialEq, Eq)]
pub struct Correction {
    pub id: i64,
    pub kind: CorrectionKind,
    pub original_order_id: i64,
    pub replacement_order_id: Option<i64>,
    pub issue_receipt_number: String,
    pub reason: String,
    pub shift_id: i64,
    pub created_by: i64,
    pub created_at: i64,
    pub lines: Vec<CorrectionDelta>,
}

/// A frozen correction that is neither applied nor abandoned yet.
#[derive(Debug, PartialEq, Eq)]
pub struct PendingCorrection {
    pub id: i64,
    pub original_order_id: i64,
    pub replacement_order_id: i64,
    pub issue_receipt_number: String,
    pub reason: String,
    pub shift_id: i64,
    pub created_by: i64,
    pub created_at: i64,
    pub lines: Vec<CorrectionDelta>,
}

/// What a correction is frozen from.
#[derive(Clone, Copy, Debug)]
pub struct NewCorrection<'a> {
    pub original_order_id: i64,
    pub replacement_order_id: i64,
    pub issue_receipt_number: &'a str,
    pub reason: &'a str,
    pub shift_id: i64,
    pub created_by: i64,
    pub created_at: i64,
}

/// What a void is recorded from.
#[derive(Clone, Copy, Debug)]
pub struct NewVoid<'a> {
    pub original_order_id: i64,
    pub issue_receipt_number: &'a str,
    pub reason: &'a str,
    pub shift_id: i64,
    pub created_by: i64,
    pub created_at: i64,
}

/// The deltas that belong to one correction, in the order they were written.
pub open spec fn deltas_of(rows: Seq<DeltaRow>, owner_id: i64) -> Seq<CorrectionDelta>
    decreases rows.len(),
{
    if rows.len() == 0 {
        Seq::empty()
    } else {
        let before = deltas_of(rows.drop_last(), owner_id);
        if rows.last().owner_id == owner_id {
            before.push(rows.last().delta)
        } else {
            before
        }
    }
}

fn read_deltas(rows: &Vec<DeltaRow>, owner_id: i64) -> (result: Vec<CorrectionDelta>)
    ensures
        result@ == deltas_of(rows@, owner_id),
{
    let mut result: Vec<CorrectionDelta> = Vec::new();
    let mut i: usize = 0;
    while i < rows.len()
        invariant
            i <= rows.len(),
            result@ == deltas_of(rows@.take(i as int), owner_id),
        decreases rows.len() - i,
    {
        assert(rows@.take(i + 1).drop_last() =~= rows@.take(i as int));
        if rows[i].owner_id == owner_id {
            result.push(rows[i].delta.clone());
        }
        i = i + 1;
    }
    assert(rows@.take(rows@.len() as int) =~= rows@);
    result
}

/// Deltas as rows of the correction they belong to.
pub open spec fn owned(owner_id: i64, deltas: Seq<CorrectionDelta>) -> Seq<DeltaRow> {
    deltas.map_values(|d: CorrectionDelta| DeltaRow { owner_id, delta: d })
}

fn insert_deltas(rows: &mut Vec<DeltaRow>, owner_id: i64, deltas: &[CorrectionDelta])
    ensures
        final(rows)@ == old(rows)@ + owned(owner_id, deltas@),
{
    let mut i: usize = 0;
    assert(rows@ =~= old(rows)@ + owned(owner_id, deltas@.take(0)));
    while i < deltas.len()
        invariant
            i <= deltas.len(),
            rows@ == old(rows)@ + owned(owner_id, deltas@.take(i as int)),
        decreases deltas.len() - i,
    {
        rows.push(DeltaRow { owner_id, delta: deltas[i].clone() });
        assert(rows@ =~= old(rows)@ + owned(owner_id, deltas@.take(i + 1)));
        i = i + 1;
    }
    assert(deltas@.take(deltas@.len() as int) =~= deltas@);
}

/// The rows that do not belong to one correction.
pub open spec fn disowned(rows: Seq<DeltaRow>, owner_id: i64) -> Seq<DeltaRow> {
    chosen(rows, |r: DeltaRow| r.owner_id != owner_id)
}

fn drop_deltas(rows: &mut Vec<DeltaRow>, owner_id: i64)
    ensures
        final(rows)@ == disowned(old(rows)@, owner_id),
{
    let mut kept: Vec<DeltaRow> = Vec::new();
    let mut i: usize = 0;
    while i < rows.len()
        invariant
            i <= rows.len(),
            rows@ == old(rows)@,
            kept@ == disowned(rows@.take(i as int), owner_id),
        decreases rows.len() - i,
    {
        assert(rows@.take(i + 1).drop_last() =~= rows@.take(i as int));
        if rows[i].owner_id != owner_id {
            kept.push(rows[i].clone());
        }
        i = i + 1;
    }
    assert(rows@.take(rows@.len() as int) =~= rows@);
    *rows = kept;
}

/// Whether a frozen correction is the stored one, with its deltas.
pub open spec fn pending_says(item: PendingCorrection, db: Store, stored: PendingRow) -> bool {
    &&& item.id == stored.id
    &&& item.original_order_id == stored.original_order_id
    &&& item.replacement_order_id == stored.replacement_order_id
    &&& item.issue_receipt_number == stored.issue_receipt_number
    &&& item.reason == stored.reason
    &&& item.shift_id == stored.shift_id
    &&& item.created_by == stored.created_by
    &&& item.created_at == stored.created_at
    &&& item.lines@ == deltas_of(db.pending_lines@, stored.id)
}

fn pending_from(db: &Store, stored: &PendingRow) -> (result: PendingCorrection)
    ensures
        pending_says(result, *db, *stored),
{
    PendingCorrection {
        id: stored.id,
        original_order_id: stored.original_order_id,
        replacement_order_id: stored.replacement_order_id,
        issue_receipt_number: stored.issue_receipt_number.clone(),
        reason: stored.reason.clone(),
        shift_id: stored.shift_id,
        created_by: stored.created_by,
        created_at: stored.created_at,
        lines: read_deltas(&db.pending_lines, stored.id),
    }
}

pub fn pending(db: &Store, id: i64) -> (result: Result<PendingCorrection, RepoError>)
    ensures
        match row(db.pending@, id) {
            Some(stored) => result matches Ok(item) && pending_says(item, *db, stored),
            None => result matches Err(error) && error@ == Why::Missing("pending correction"@),
        },
{
    match find_row(&db.pending, id) {
        Some(stored) => Ok(pending_from(db, &stored)),
        None => Err(RepoError::Missing { what: "pending correction" }),
    }
}

pub open spec fn frozen_before() -> spec_fn(PendingRow, PendingRow) -> bool {
    |a: PendingRow, b: PendingRow|
        a.created_at < b.created_at || (a.created_at == b.created_at && a.id < b.id)
}

/// Every correction print that must be completed or abandoned.
pub fn pending_corrections(db: &Store) -> (result: Vec<PendingCorrection>)
    ensures
        result@.len() == db.pending@.len(),
        forall|i: int|
            0 <= i < result@.len() ==> pending_says(
                #[trigger] result@[i],
                *db,
                in_order(db.pending@, frozen_before())[i],
            ),
{
    let sorted: Vec<PendingRow> = sort_rows(
        &db.pending,
        |a: &PendingRow, b: &PendingRow| -> (r: bool)
            ensures
                r == (a.created_at < b.created_at || (a.created_at == b.created_at && a.id < b.id))
            { a.created_at < b.created_at || (a.created_at == b.created_at && a.id < b.id) },
        Ghost(frozen_before()),
    );
    proof {
        crate::table::ordering_keeps_every_row(db.pending@, frozen_before());
        vstd::seq_lib::to_multiset_len(db.pending@);
        vstd::seq_lib::to_multiset_len(sorted@);
    }
    let mut result: Vec<PendingCorrection> = Vec::new();
    let mut i: usize = 0;
    while i < sorted.len()
        invariant
            i <= sorted.len(),
            result@.len() == i,
            forall|k: int|
                0 <= k < i ==> pending_says(#[trigger] result@[k], *db, sorted@[k]),
        decreases sorted.len() - i,
    {
        let item: PendingCorrection = pending_from(db, &sorted[i]);
        result.push(item);
        i = i + 1;
    }
    result
}

/// Whether an applied correction is the stored one, with its deltas.
pub open spec fn correction_says(item: Correction, db: Store, stored: CorrectionRow) -> bool {
    &&& item.id == stored.id
    &&& item.kind == stored.kind
    &&& item.original_order_id == stored.original_order_id
    &&& item.replacement_order_id == stored.replacement_order_id
    &&& item.issue_receipt_number == stored.issue_receipt_number
    &&& item.reason == stored.reason
    &&& item.shift_id == stored.shift_id
    &&& item.created_by == stored.created_by
    &&& item.created_at == stored.created_at
    &&& item.lines@ == deltas_of(db.correction_lines@, stored.id)
}

fn correction_from(db: &Store, stored: &CorrectionRow) -> (result: Correction)
    ensures
        correction_says(result, *db, *stored),
{
    Correction {
        id: stored.id,
        kind: stored.kind,
        original_order_id: stored.original_order_id,
        replacement_order_id: stored.replacement_order_id,
        issue_receipt_number: stored.issue_receipt_number.clone(),
        reason: stored.reason.clone(),
        shift_id: stored.shift_id,
        created_by: stored.created_by,
        created_at: stored.created_at,
        lines: read_deltas(&db.correction_lines, stored.id),
    }
}

pub fn correction(db: &Store, id: i64) -> (result: Result<Correction, RepoError>)
    ensures
        match row(db.corrections@, id) {
            Some(stored) => result matches Ok(item) && correction_says(item, *db, stored),
            None => result matches Err(error) && error@ == Why::Missing("correction"@),
        },
{
    match find_row(&db.corrections, id) {
        Some(stored) => Ok(correction_from(db, &stored)),
        None => Err(RepoError::Missing { what: "correction" }),
    }
}

// ---------------------------------------------------------------------------
// What an order consumes
// ---------------------------------------------------------------------------

/// One tally added to another, product by product; nothing, where an amount
/// leaves 64 bits on the way.
pub open spec fn joined(so_far: Seq<(i64, int)>, more: Seq<(i64, int)>) -> Option<Seq<(i64, int)>>
    decreases more.len(),
{
    if more.len() == 0 {
        Some(so_far)
    } else {
        match joined(so_far, more.drop_last()) {
            None => None,
            Some(entries) => {
                let (product_id, quantity) = more.last();
                if fits(amount_of(entries, product_id) + quantity) {
                    Some(added(entries, product_id, quantity))
                } else {
                    None
                }
            },
        }
    }
}

/// What lines consume, product by product, or why it cannot be said.
pub open spec fn consumed_by(db: Store, lines: Seq<Line>) -> Result<Seq<(i64, int)>, Why>
    decreases lines.len(),
{
    if lines.len() == 0 {
        Ok(Seq::empty())
    } else {
        match consumed_by(db, lines.drop_last()) {
            Err(why) => Err(why),
            Ok(so_far) => match expansion(db, lines.last().recipe_id, lines.last().quantity) {
                Err(why) => Err(why),
                Ok(more) => match joined(so_far, more) {
                    Some(entries) => Ok(entries),
                    None => Err(Why::Refused("that corrected order is too large"@)),
                },
            },
        }
    }
}

/// What an order consumes, product by product, through the recipes it was rung
/// in with.
pub open spec fn order_products(db: Store, order_id: i64) -> Result<Seq<(i64, int)>, Why> {
    consumed_by(db, lines_of(db, order_id))
}

/// Whether products stand in order and every amount fits 64 bits.
pub open spec fn tidy(entries: Seq<(i64, int)>) -> bool {
    &&& ascending(entries)
    &&& forall|i: int| 0 <= i < entries.len() ==> fits((#[trigger] entries[i]).1)
}

/// Whether every amount fits 64 bits.
pub open spec fn within(entries: Seq<(i64, int)>) -> bool {
    forall|i: int| 0 <= i < entries.len() ==> fits((#[trigger] entries[i]).1)
}

proof fn joining_keeps_tidy(so_far: Seq<(i64, int)>, more: Seq<(i64, int)>)
    requires
        tidy(so_far),
        within(more),
    ensures
        joined(so_far, more) matches Some(entries) ==> tidy(entries),
    decreases more.len(),
{
    if more.len() > 0 && joined(so_far, more) is Some {
        let before = more.drop_last();
        assert(forall|i: int| 0 <= i < before.len() ==> #[trigger] before[i] == more[i]);
        joining_keeps_tidy(so_far, before);
        let entries = joined(so_far, before)->0;
        let (product_id, quantity) = more.last();
        assert(fits(more[more.len() - 1].1));
        adding_adds(entries, product_id, quantity, product_id);
        bounded_tally(entries, product_id, quantity);
    }
}

proof fn joining_fails_onward(so_far: Seq<(i64, int)>, more: Seq<(i64, int)>, n: int)
    requires
        0 <= n <= more.len(),
        joined(so_far, more.take(n)) is None,
    ensures
        joined(so_far, more) is None,
    decreases more.len() - n,
{
    if n == more.len() {
        assert(more.take(n) =~= more);
    } else {
        assert(more.take(n + 1).drop_last() =~= more.take(n));
        joining_fails_onward(so_far, more, n + 1);
    }
}

proof fn consuming_fails_onward(db: Store, lines: Seq<Line>, n: int)
    requires
        0 <= n <= lines.len(),
    ensures
        consumed_by(db, lines.take(n)) matches Err(why) ==> consumed_by(db, lines) == Err::<
            Seq<(i64, int)>,
            Why,
        >(why),
    decreases lines.len() - n,
{
    if n == lines.len() {
        assert(lines.take(n) =~= lines);
    } else {
        assert(lines.take(n + 1).drop_last() =~= lines.take(n));
        consuming_fails_onward(db, lines, n + 1);
    }
}

fn tallied(consumed: &Vec<Consumed>, Ghost(more): Ghost<Seq<(i64, int)>>) -> (result: Vec<Tallied>)
    requires
        consumed@.len() == more.len(),
        forall|i: int|
            0 <= i < more.len() ==> (#[trigger] consumed@[i]).product_id == more[i].0
                && consumed@[i].quantity.thousandths == more[i].1,
    ensures
        figures(result@) == more,
        within(more),
{
    let mut result: Vec<Tallied> = Vec::new();
    let mut i: usize = 0;
    while i < consumed.len()
        invariant
            i <= consumed.len(),
            result@.len() == i,
            consumed@.len() == more.len(),
            forall|k: int|
                0 <= k < more.len() ==> (#[trigger] consumed@[k]).product_id == more[k].0
                    && consumed@[k].quantity.thousandths == more[k].1,
            forall|k: int| 0 <= k < i ==> #[trigger] figures(result@)[k] == more[k],
        decreases consumed.len() - i,
    {
        let ghost before = result@;
        result.push(
            Tallied {
                product_id: consumed[i].product_id,
                amount: consumed[i].quantity.thousandths as i128,
            },
        );
        assert forall|k: int| 0 <= k < i + 1 implies #[trigger] figures(result@)[k] == more[k] by {
            if k < i {
                assert(figures(before)[k] == more[k]);
            }
        }
        i = i + 1;
    }
    assert(figures(result@) =~= more);
    assert forall|k: int| 0 <= k < more.len() implies fits((#[trigger] more[k]).1) by {
        assert(consumed@[k].quantity.thousandths == more[k].1);
    }
    result
}

/// Adds one tally to another, unless an amount would leave 64 bits.
pub(crate) fn join(totals: &mut Vec<Tallied>, more: &Vec<Tallied>) -> (result: bool)
    requires
        tidy(figures(old(totals)@)),
        within(figures(more@)),
    ensures
        result ==> joined(figures(old(totals)@), figures(more@)) == Some(figures(final(totals)@))
            && tidy(figures(final(totals)@)),
        !result ==> joined(figures(old(totals)@), figures(more@)) is None,
{
    let ghost start = figures(totals@);
    let ghost all = figures(more@);
    let mut i: usize = 0;
    assert(all.take(0) =~= Seq::<(i64, int)>::empty());
    while i < more.len()
        invariant
            i <= more.len(),
            all == figures(more@),
            within(all),
            start == figures(old(totals)@),
            tidy(start),
            joined(start, all.take(i as int)) == Some(figures(totals@)),
            tidy(figures(totals@)),
        decreases more.len() - i,
    {
        let product_id: i64 = more[i].product_id;
        let quantity: i128 = more[i].amount;
        let ghost upto = all.take(i + 1);
        assert(upto.drop_last() =~= all.take(i as int));
        assert(upto.last() == all[i as int]);
        assert(fits(all[i as int].1));
        let so_far: i128 = amount(totals, product_id);
        assert(fits(so_far as int)) by {
            amount_is_listed(figures(totals@), product_id);
        }
        if narrow(so_far + quantity).is_none() {
            proof {
                joining_fails_onward(start, all, i + 1);
            }
            return false;
        }
        proof {
            assert forall|k: int| 0 <= k < upto.len() implies fits((#[trigger] upto[k]).1) by {
                assert(upto[k] == all[k]);
            }
            joining_keeps_tidy(start, upto);
        }
        let kept: bool = tally(totals, product_id, quantity);
        assert(kept);
        i = i + 1;
    }
    assert(all.take(all.len() as int) =~= all);
    true
}

/// What an order consumes, in the same way as issuing it takes stock off the
/// shelf.
pub(crate) fn expanded_products(db: &Store, order_id: i64) -> (result: Result<
    Vec<Tallied>,
    RepoError,
>)
    ensures
        match order_products(*db, order_id) {
            Ok(entries) => result matches Ok(totals) && figures(totals@) == entries && tidy(
                entries,
            ),
            Err(why) => result matches Err(error) && error@ == why,
        },
{
    let snapshots: Vec<Line> = lines(db, order_id);
    let mut totals: Vec<Tallied> = Vec::new();
    let mut i: usize = 0;
    assert(snapshots@.take(0) =~= Seq::<Line>::empty());
    assert(figures(totals@) =~= Seq::<(i64, int)>::empty());
    while i < snapshots.len()
        invariant
            i <= snapshots.len(),
            snapshots@ == lines_of(*db, order_id),
            consumed_by(*db, snapshots@.take(i as int)) == Ok::<Seq<(i64, int)>, Why>(
                figures(totals@),
            ),
            tidy(figures(totals@)),
        decreases snapshots.len() - i,
    {
        proof {
            assert(snapshots@.take(i + 1).drop_last() =~= snapshots@.take(i as int));
            assert(snapshots@.take(i + 1).last() == snapshots@[i as int]);
            consuming_fails_onward(*db, snapshots@, i + 1);
        }
        let consumed: Vec<Consumed> = match catalogue::expand(
            db,
            snapshots[i].recipe_id,
            snapshots[i].quantity,
        ) {
            Ok(consumed) => consumed,
            Err(error) => {
                return Err(error);
            },
        };
        let ghost more = expansion(
            *db,
            snapshots@[i as int].recipe_id,
            snapshots@[i as int].quantity,
        )->Ok_0;
        let more: Vec<Tallied> = tallied(&consumed, Ghost(more));
        if !join(&mut totals, &more) {
            return refuse("that corrected order is too large");
        }
        i = i + 1;
    }
    assert(snapshots@.take(snapshots@.len() as int) =~= snapshots@);
    Ok(totals)
}

/// What a bill says of one line.
pub struct BillFact {
    pub sale_item_id: i64,
    pub name: Seq<char>,
    pub recipe_id: i64,
    pub quantity: i64,
    pub unit_price: i64,
    pub line_total: i64,
}

pub open spec fn bill_fact(line: Line) -> BillFact {
    BillFact {
        sale_item_id: line.sale_item_id,
        name: line.sale_item_name@,
        recipe_id: line.recipe_id,
        quantity: line.quantity.thousandths,
        unit_price: line.unit_price.minor,
        line_total: line.line_total.minor,
    }
}

pub open spec fn bill_facts(lines: Seq<Line>) -> Seq<BillFact> {
    lines.map_values(|l: Line| bill_fact(l))
}

/// Whether two orders bill the same, whatever the order of their lines.
pub open spec fn same_bill(db: Store, one: i64, other: i64) -> bool {
    bill_facts(lines_of(db, one)).to_multiset() == bill_facts(lines_of(db, other)).to_multiset()
}

fn same_fact(a: &Line, b: &Line) -> (result: bool)
    ensures
        result == (bill_fact(*a) == bill_fact(*b)),
{
    a.sale_item_id == b.sale_item_id && same(
        a.sale_item_name.as_str(),
        b.sale_item_name.as_str(),
    ) && a.recipe_id == b.recipe_id && a.quantity.thousandths == b.quantity.thousandths
        && a.unit_price.minor == b.unit_price.minor && a.line_total.minor == b.line_total.minor
}

proof fn pushing_inserts(facts: Seq<BillFact>, n: int)
    requires
        0 <= n < facts.len(),
    ensures
        facts.take(n + 1).to_multiset() == facts.take(n).to_multiset().insert(facts[n]),
{
    broadcast use vstd::seq_lib::group_to_multiset_ensures;

    assert(facts.take(n + 1) =~= facts.take(n).push(facts[n]));
}

proof fn taking_is_part(facts: Seq<BillFact>, n: int)
    requires
        0 <= n <= facts.len(),
    ensures
        facts.take(n).to_multiset().subset_of(facts.to_multiset()),
    decreases facts.len() - n,
{
    if n == facts.len() {
        assert(facts.take(n) =~= facts);
    } else {
        taking_is_part(facts, n + 1);
        pushing_inserts(facts, n);
    }
}

proof fn removing_removes(facts: Seq<BillFact>, at: int)
    requires
        0 <= at < facts.len(),
    ensures
        facts.to_multiset() == facts.remove(at).to_multiset().insert(facts[at]),
{
    broadcast use vstd::seq_lib::group_to_multiset_ensures;

    vstd::seq_lib::to_multiset_remove(facts, at);
    assert(facts.to_multiset().count(facts[at]) > 0) by {
        assert(facts.contains(facts[at]));
    }
    assert(facts.to_multiset() =~= facts.remove(at).to_multiset().insert(facts[at]));
}

/// Whether two orders bill the same, found by striking each line of the one
/// off the other.
fn bills_agree(db: &Store, one: i64, other: i64) -> (result: bool)
    ensures
        result == same_bill(*db, one, other),
{
    let first: Vec<Line> = lines(db, one);
    let mut left: Vec<Line> = lines(db, other);
    let ghost ours = bill_facts(first@);
    let ghost theirs = bill_facts(left@);
    let mut i: usize = 0;
    proof {
        assert(ours.take(0) =~= Seq::<BillFact>::empty());
        vstd::seq_lib::to_multiset_len(ours.take(0));
        assert(ours.take(0).to_multiset() =~= Multiset::empty());
        assert(theirs.to_multiset() =~= ours.take(0).to_multiset().add(theirs.to_multiset()));
    }
    while i < first.len()
        invariant
            i <= first.len(),
            first@ == lines_of(*db, one),
            ours == bill_facts(first@),
            theirs == bill_facts(lines_of(*db, other)),
            theirs.to_multiset() == ours.take(i as int).to_multiset().add(
                bill_facts(left@).to_multiset(),
            ),
        decreases first.len() - i,
    {
        let mut at: usize = 0;
        while at < left.len() && !same_fact(&first[i], &left[at])
            invariant
                i < first.len(),
                at <= left.len(),
                forall|k: int|
                    0 <= k < at ==> bill_fact(first@[i as int]) != bill_fact(#[trigger] left@[k]),
            decreases left.len() - at,
        {
            at = at + 1;
        }
        let ghost fact = ours[i as int];
        proof {
            pushing_inserts(ours, i as int);
        }
        if at == left.len() {
            proof {
                broadcast use vstd::seq_lib::group_to_multiset_ensures;

                let rest = bill_facts(left@);
                assert(!rest.contains(fact)) by {
                    if rest.contains(fact) {
                        let k = choose|k: int| 0 <= k < rest.len() && rest[k] == fact;
                        assert(bill_fact(left@[k]) == fact);
                    }
                }
                assert(rest.to_multiset().count(fact) == 0);
                taking_is_part(ours, i + 1);
                assert(ours.to_multiset().count(fact) >= ours.take(i + 1).to_multiset().count(fact));
                assert(theirs.to_multiset().count(fact) == ours.take(
                    i as int,
                ).to_multiset().count(fact));
            }
            return false;
        }
        let ghost before = bill_facts(left@);
        proof {
            removing_removes(before, at as int);
        }
        left.remove(at);
        proof {
            assert(bill_facts(left@) =~= before.remove(at as int));
            assert(theirs.to_multiset() =~= ours.take(i + 1).to_multiset().add(
                bill_facts(left@).to_multiset(),
            ));
        }
        i = i + 1;
    }
    proof {
        let rest = bill_facts(left@);
        assert(ours.take(ours.len() as int) =~= ours);
        vstd::seq_lib::to_multiset_len(rest);
        vstd::seq_lib::to_multiset_len(ours);
        vstd::seq_lib::to_multiset_len(theirs);
        if rest.len() == 0 {
            assert(rest.to_multiset() =~= Multiset::empty());
            assert(theirs.to_multiset() =~= ours.to_multiset());
        } else {
            assert(theirs.to_multiset().len() == ours.to_multiset().len() + rest.to_multiset().len());
        }
    }
    left.len() == 0
}

// ---------------------------------------------------------------------------
// Deltas against the orders they correct
// ---------------------------------------------------------------------------

/// Whether an earlier delta already speaks of the same product.
pub open spec fn repeats(deltas: Seq<CorrectionDelta>, i: int) -> bool {
    exists|k: int| 0 <= k < i && (#[trigger] deltas[k]).product_id == deltas[i].product_id
}

/// What is wrong with a delta, held against what the two orders consume;
/// nothing, where it is right.
pub open spec fn delta_objection(
    before: Seq<(i64, int)>,
    after: Seq<(i64, int)>,
    deltas: Seq<CorrectionDelta>,
    i: int,
) -> Option<Seq<char>> {
    let line = deltas[i];
    let was = amount_of(before, line.product_id);
    let is = amount_of(after, line.product_id);
    let change = is - was;
    if repeats(deltas, i) {
        Some("a correction has exactly one delta per product"@)
    } else if line.before.thousandths != was || line.after.thousandths != is {
        Some("correction before and after quantities must match the frozen order recipes"@)
    } else if !fits(change) {
        Some("that correction quantity is too large"@)
    } else if line.delta.thousandths != change || line.returned.thousandths < 0
        || line.written_off.thousandths < 0 {
        Some("a correction delta or disposition was altered after validation"@)
    } else if change >= 0 {
        if line.returned.thousandths != 0 || line.written_off.thousandths != 0 {
            Some("an added or unchanged product cannot be returned or written off"@)
        } else {
            None
        }
    } else if !fits(-change) || !fits(line.returned.thousandths + line.written_off.thousandths) {
        Some("that correction quantity is too large"@)
    } else if line.returned.thousandths + line.written_off.thousandths != -change {
        Some("returned and written-off stock must equal the quantity removed"@)
    } else {
        None
    }
}

/// What is wrong with the first of `n` deltas that is not right.
pub open spec fn first_objection(
    before: Seq<(i64, int)>,
    after: Seq<(i64, int)>,
    deltas: Seq<CorrectionDelta>,
    n: nat,
) -> Option<Seq<char>>
    decreases n,
{
    if n == 0 {
        None
    } else {
        match first_objection(before, after, deltas, (n - 1) as nat) {
            Some(text) => Some(text),
            None => delta_objection(before, after, deltas, n - 1),
        }
    }
}

/// Whether some delta speaks of a product.
pub open spec fn speaks_of(deltas: Seq<CorrectionDelta>, product_id: i64) -> bool {
    exists|k: int| 0 <= k < deltas.len() && (#[trigger] deltas[k]).product_id == product_id
}

/// Whether the deltas speak of every product in either order, and of no other.
pub open spec fn covers(
    before: Seq<(i64, int)>,
    after: Seq<(i64, int)>,
    deltas: Seq<CorrectionDelta>,
) -> bool {
    forall|product_id: i64|
        #[trigger] speaks_of(deltas, product_id) <==> lists(before, product_id) || lists(
            after,
            product_id,
        )
}

/// What the order that a correction leads to consumes: nothing, for a void.
pub open spec fn replacement_products(db: Store, replacement_order_id: Option<i64>) -> Result<
    Seq<(i64, int)>,
    Why,
> {
    match replacement_order_id {
        Some(id) => order_products(db, id),
        None => Ok(Seq::empty()),
    }
}

/// Why deltas are not those between two orders; nothing, where they are.
pub open spec fn deltas_refusal(
    db: Store,
    original_order_id: i64,
    replacement_order_id: Option<i64>,
    deltas: Seq<CorrectionDelta>,
) -> Option<Why> {
    match order_products(db, original_order_id) {
        Err(why) => Some(why),
        Ok(before) => match replacement_products(db, replacement_order_id) {
            Err(why) => Some(why),
            Ok(after) => if replacement_order_id is Some && same_bill(
                db,
                original_order_id,
                replacement_order_id->0,
            ) {
                Some(Why::Refused("a correction must actually change the order"@))
            } else if deltas.len() == 0 && before == after {
                None
            } else {
                match first_objection(before, after, deltas, deltas.len()) {
                    Some(text) => Some(Why::Refused(text)),
                    None => if covers(before, after, deltas) {
                        None
                    } else {
                        Some(
                            Why::Refused(
                                "correction deltas must cover every product in the original and replacement exactly once"@,
                            ),
                        )
                    },
                }
            },
        },
    }
}

fn same_tally(a: &Vec<Tallied>, b: &Vec<Tallied>) -> (result: bool)
    ensures
        result == (figures(a@) == figures(b@)),
{
    if a.len() != b.len() {
        assert(figures(a@).len() != figures(b@).len());
        return false;
    }
    let mut i: usize = 0;
    while i < a.len()
        invariant
            i <= a.len(),
            a.len() == b.len(),
            forall|k: int| 0 <= k < i ==> #[trigger] figures(a@)[k] == figures(b@)[k],
        decreases a.len() - i,
    {
        if a[i].product_id != b[i].product_id || a[i].amount != b[i].amount {
            assert(figures(a@)[i as int] != figures(b@)[i as int]);
            return false;
        }
        i = i + 1;
    }
    assert(figures(a@) =~= figures(b@));
    true
}

fn in_tally(entries: &Vec<Tallied>, product_id: i64) -> (result: bool)
    ensures
        result == lists(figures(entries@), product_id),
{
    let mut i: usize = 0;
    while i < entries.len()
        invariant
            i <= entries.len(),
            forall|k: int| 0 <= k < i ==> (#[trigger] figures(entries@)[k]).0 != product_id,
        decreases entries.len() - i,
    {
        if entries[i].product_id == product_id {
            assert(figures(entries@)[i as int].0 == product_id);
            return true;
        }
        i = i + 1;
    }
    false
}

/// Whether one of the first `n` deltas speaks of a product.
fn mentions(deltas: &[CorrectionDelta], n: usize, product_id: i64) -> (result: bool)
    requires
        n <= deltas@.len(),
    ensures
        result == exists|k: int| 0 <= k < n && (#[trigger] deltas@[k]).product_id == product_id,
{
    let mut i: usize = 0;
    while i < n
        invariant
            i <= n <= deltas@.len(),
            forall|k: int| 0 <= k < i ==> (#[trigger] deltas@[k]).product_id != product_id,
        decreases n - i,
    {
        if deltas[i].product_id == product_id {
            return true;
        }
        i = i + 1;
    }
    false
}

fn deltas_cover(before: &Vec<Tallied>, after: &Vec<Tallied>, deltas: &[CorrectionDelta]) -> (result:
    bool)
    ensures
        result == covers(figures(before@), figures(after@), deltas@),
{
    let ghost was = figures(before@);
    let ghost is = figures(after@);
    let mut i: usize = 0;
    while i < deltas.len()
        invariant
            i <= deltas.len(),
            was == figures(before@),
            is == figures(after@),
            forall|k: int|
                0 <= k < i ==> lists(was, (#[trigger] deltas@[k]).product_id) || lists(
                    is,
                    deltas@[k].product_id,
                ),
        decreases deltas.len() - i,
    {
        if !in_tally(before, deltas[i].product_id) && !in_tally(after, deltas[i].product_id) {
            assert(speaks_of(deltas@, deltas@[i as int].product_id));
            return false;
        }
        i = i + 1;
    }
    let mut j: usize = 0;
    while j < before.len()
        invariant
            j <= before.len(),
            was == figures(before@),
            is == figures(after@),
            forall|k: int| 0 <= k < j ==> speaks_of(deltas@, (#[trigger] was[k]).0),
        decreases before.len() - j,
    {
        assert(was[j as int].0 == before@[j as int].product_id);
        if !mentions(deltas, deltas.len(), before[j].product_id) {
            assert(!speaks_of(deltas@, was[j as int].0));
            assert(lists(was, was[j as int].0));
            return false;
        }
        assert(speaks_of(deltas@, was[j as int].0));
        j = j + 1;
    }
    let mut m: usize = 0;
    while m < after.len()
        invariant
            m <= after.len(),
            was == figures(before@),
            is == figures(after@),
            forall|k: int| 0 <= k < m ==> speaks_of(deltas@, (#[trigger] is[k]).0),
        decreases after.len() - m,
    {
        assert(is[m as int].0 == after@[m as int].product_id);
        if !mentions(deltas, deltas.len(), after[m].product_id) {
            assert(!speaks_of(deltas@, is[m as int].0));
            assert(lists(is, is[m as int].0));
            return false;
        }
        assert(speaks_of(deltas@, is[m as int].0));
        m = m + 1;
    }
    assert forall|product_id: i64| #[trigger] speaks_of(deltas@, product_id) <==> lists(
        was,
        product_id,
    ) || lists(is, product_id) by {
        if speaks_of(deltas@, product_id) {
            let k = choose|k: int|
                0 <= k < deltas@.len() && (#[trigger] deltas@[k]).product_id == product_id;
            assert(lists(was, deltas@[k].product_id) || lists(is, deltas@[k].product_id));
        }
        if lists(was, product_id) {
            let k = choose|k: int| 0 <= k < was.len() && (#[trigger] was[k]).0 == product_id;
            assert(speaks_of(deltas@, was[k].0));
        }
        if lists(is, product_id) {
            let k = choose|k: int| 0 <= k < is.len() && (#[trigger] is[k]).0 == product_id;
            assert(speaks_of(deltas@, is[k].0));
        }
    }
    true
}

/// Holds one delta against what the two orders consume.
fn check_delta(
    before: &Vec<Tallied>,
    after: &Vec<Tallied>,
    deltas: &[CorrectionDelta],
    i: usize,
) -> (result: Result<(), RepoError>)
    requires
        i < deltas@.len(),
        tidy(figures(before@)),
        tidy(figures(after@)),
    ensures
        match delta_objection(figures(before@), figures(after@), deltas@, i as int) {
            None => result is Ok,
            Some(text) => result matches Err(error) && error@ == Why::Refused(text),
        },
{
    let line: &CorrectionDelta = &deltas[i];
    if mentions(deltas, i, line.product_id) {
        return refuse("a correction has exactly one delta per product");
    }
    let was: i128 = amount(before, line.product_id);
    let is: i128 = amount(after, line.product_id);
    proof {
        amount_is_listed(figures(before@), line.product_id);
        amount_is_listed(figures(after@), line.product_id);
    }
    if line.before.thousandths as i128 != was || line.after.thousandths as i128 != is {
        return refuse("correction before and after quantities must match the frozen order recipes");
    }
    let change: i64 = match narrow(is - was) {
        Some(change) => change,
        None => {
            return refuse("that correction quantity is too large");
        },
    };
    if line.delta.thousandths != change || line.returned.is_negative()
        || line.written_off.is_negative() {
        return refuse("a correction delta or disposition was altered after validation");
    }
    if change >= 0 {
        if !line.returned.is_zero() || !line.written_off.is_zero() {
            return refuse("an added or unchanged product cannot be returned or written off");
        }
        return Ok(());
    }
    if change == i64::MIN {
        return refuse("that correction quantity is too large");
    }
    match line.returned.thousandths.checked_add(line.written_off.thousandths) {
        None => refuse("that correction quantity is too large"),
        Some(disposition) => {
            if disposition != -change {
                return refuse("returned and written-off stock must equal the quantity removed");
            }
            Ok(())
        },
    }
}

proof fn objection_stands(
    before: Seq<(i64, int)>,
    after: Seq<(i64, int)>,
    deltas: Seq<CorrectionDelta>,
    n: nat,
    m: nat,
)
    requires
        n <= m,
    ensures
        first_objection(before, after, deltas, n) is Some ==> first_objection(
            before,
            after,
            deltas,
            m,
        ) == first_objection(before, after, deltas, n),
    decreases m - n,
{
    if n < m {
        objection_stands(before, after, deltas, n, (m - 1) as nat);
    }
}

fn validate_deltas_against_orders(
    db: &Store,
    original_order_id: i64,
    replacement_order_id: Option<i64>,
    deltas: &[CorrectionDelta],
) -> (result: Result<(), RepoError>)
    ensures
        match deltas_refusal(*db, original_order_id, replacement_order_id, deltas@) {
            None => result is Ok,
            Some(why) => result matches Err(error) && error@ == why,
        },
{
    let before: Vec<Tallied> = match expanded_products(db, original_order_id) {
        Ok(before) => before,
        Err(error) => {
            return Err(error);
        },
    };
    let after: Vec<Tallied> = match replacement_order_id {
        Some(id) => match expanded_products(db, id) {
            Ok(after) => after,
            Err(error) => {
                return Err(error);
            },
        },
        None => {
            let none: Vec<Tallied> = Vec::new();
            assert(figures(none@) =~= Seq::<(i64, int)>::empty());
            none
        },
    };
    if let Some(id) = replacement_order_id {
        if bills_agree(db, original_order_id, id) {
            return refuse("a correction must actually change the order");
        }
    }
    if deltas.len() == 0 && same_tally(&before, &after) {
        return Ok(());
    }
    let ghost was = figures(before@);
    let ghost is = figures(after@);
    let mut i: usize = 0;
    while i < deltas.len()
        invariant
            i <= deltas.len(),
            was == figures(before@),
            is == figures(after@),
            tidy(was),
            tidy(is),
            order_products(*db, original_order_id) == Ok::<Seq<(i64, int)>, Why>(was),
            replacement_products(*db, replacement_order_id) == Ok::<Seq<(i64, int)>, Why>(is),
            !(replacement_order_id is Some && same_bill(
                *db,
                original_order_id,
                replacement_order_id->0,
            )),
            !(deltas@.len() == 0 && was == is),
            first_objection(was, is, deltas@, i as nat) is None,
        decreases deltas.len() - i,
    {
        proof {
            objection_stands(was, is, deltas@, (i + 1) as nat, deltas@.len());
        }
        match check_delta(&before, &after, deltas, i) {
            Ok(_) => {},
            Err(error) => {
                return Err(error);
            },
        }
        i = i + 1;
    }
    if !deltas_cover(&before, &after, deltas) {
        return refuse(
            "correction deltas must cover every product in the original and replacement exactly once",
        );
    }
    Ok(())
}

// ---------------------------------------------------------------------------
// Freezing, applying and voiding
// ---------------------------------------------------------------------------

/// The issue receipt of an order that somebody typed off the paper.
pub open spec fn typed_receipt(number: Seq<char>, order_id: i64) -> spec_fn(Receipt) -> bool {
    |r: Receipt|
        r.receipt_number@ == number && r.kind == receipts::Kind::Issue && r.order_id == Some(
            order_id,
        ) && (r.status == receipts::Status::Printed || r.status == receipts::Status::Failed)
}

fn has_typed_receipt(db: &Store, number: &str, order_id: i64) -> (result: bool)
    ensures
        result == any(db.receipts@, typed_receipt(number@, order_id)),
{
    any_row(
        &db.receipts,
        |r: &Receipt| -> (b: bool)
            ensures
                b == (r.receipt_number@ == number@ && r.kind == receipts::Kind::Issue && r.order_id
                    == Some(order_id) && (r.status == receipts::Status::Printed || r.status
                    == receipts::Status::Failed))
            {
                same(r.receipt_number.as_str(), number) && r.kind == receipts::Kind::Issue
                    && r.order_id == Some(order_id) && (r.status == receipts::Status::Printed
                    || r.status == receipts::Status::Failed)
            },
        Ghost(typed_receipt(number@, order_id)),
    )
}

/// Whether an issued order still stands on an open tab, in that open shift.
pub open spec fn correctable(db: Store, order: Order, shift_id: i64) -> bool {
    &&& order.status == Status::Issued
    &&& order.shift_id == shift_id
    &&& takes_orders(db, order.tab_id)
    &&& order_shift_refusal(db, order.shift_id) is None
}

fn is_correctable(db: &Store, order: &Order, shift_id: i64) -> (result: bool)
    ensures
        result == correctable(*db, *order, shift_id),
{
    order.status == Status::Issued && order.shift_id == shift_id && tab_takes_orders(
        db,
        order.tab_id,
    ) && require_open_shift(db, order.shift_id).is_ok()
}

/// Whether an order is the replacement of another, in that state.
pub open spec fn linked(replacement: Order, original: Order, status: Status) -> bool {
    &&& replacement.status == status
    &&& replacement.replaces_order_id == Some(original.id)
    &&& replacement.tab_id == original.tab_id
    &&& replacement.shift_id == original.shift_id
}

fn is_linked(replacement: &Order, original: &Order, status: Status) -> (result: bool)
    ensures
        result == linked(*replacement, *original, status),
{
    replacement.status == status && replacement.replaces_order_id == Some(original.id)
        && replacement.tab_id == original.tab_id && replacement.shift_id == original.shift_id
}

/// Whether a correction hangs together: a linked draft, an order that can be
/// corrected, and the number on that order's own paper.
pub open spec fn freezable(db: Store, correction: NewCorrection<'_>) -> bool {
    match (
        row(db.orders@, correction.original_order_id),
        row(db.orders@, correction.replacement_order_id),
    ) {
        (Some(original), Some(replacement)) => {
            &&& correctable(db, original, correction.shift_id)
            &&& linked(replacement, original, Status::Draft)
            &&& replacement.cashier_id == correction.created_by
            &&& any(
                db.receipts@,
                typed_receipt(trimmed(correction.issue_receipt_number@), original.id),
            )
            &&& any(db.order_lines@, line_of(replacement.id))
        },
        _ => false,
    }
}

/// Why a correction cannot be frozen; nothing, where it can.
pub open spec fn freeze_correction_refusal(
    db: Store,
    correction: NewCorrection<'_>,
    deltas: Seq<CorrectionDelta>,
) -> Option<Why> {
    match till_refusal(db, correction.created_by) {
        Some(why) => Some(why),
        None => match text_refusal(correction.issue_receipt_number@, "issue receipt number"@) {
            Some(why) => Some(why),
            None => match text_refusal(correction.reason@, "correction reason"@) {
                Some(why) => Some(why),
                None => if !freezable(db, correction) {
                    Some(
                        Why::Refused(
                            "a correction needs the linked draft replacement, open original shift and tab, and that order's typed receipt"@,
                        ),
                    )
                } else {
                    match deltas_refusal(
                        db,
                        correction.original_order_id,
                        Some(correction.replacement_order_id),
                        deltas,
                    ) {
                        Some(why) => Some(why),
                        None => if fresh_id(db.pending@) is None {
                            Some(Why::Sqlite(SqlWhy::Full))
                        } else {
                            None
                        },
                    }
                },
            },
        },
    }
}

/// Whether a row is the correction that was frozen.
pub open spec fn frozen_as(stored: PendingRow, correction: NewCorrection<'_>) -> bool {
    &&& stored.original_order_id == correction.original_order_id
    &&& stored.replacement_order_id == correction.replacement_order_id
    &&& stored.issue_receipt_number@ == trimmed(correction.issue_receipt_number@)
    &&& stored.reason@ == trimmed(correction.reason@)
    &&& stored.shift_id == correction.shift_id
    &&& stored.created_by == correction.created_by
    &&& stored.created_at == correction.created_at
}

/// Whether a store is another with that correction frozen.
pub open spec fn correction_frozen(
    before: Store,
    after: Store,
    correction: NewCorrection<'_>,
    deltas: Seq<CorrectionDelta>,
    item: PendingCorrection,
) -> bool {
    &&& after.pending@.len() == before.pending@.len() + 1
    &&& after.pending@.drop_last() == before.pending@
    &&& fresh_id(before.pending@) == Some(after.pending@.last().id)
    &&& frozen_as(after.pending@.last(), correction)
    &&& after.pending_lines@ == before.pending_lines@ + owned(
        after.pending@.last().id,
        deltas,
    )
    &&& pending_says(item, after, after.pending@.last())
    &&& after == (Store {
        pending: after.pending,
        pending_lines: after.pending_lines,
        ..before
    })
}

/// Freeze a correction before the replacement slip leaves the till.
pub fn freeze_correction(
    db: &mut Store,
    correction: NewCorrection<'_>,
    deltas: &[CorrectionDelta],
) -> (result: Result<PendingCorrection, RepoError>)
    ensures
        ledgers_kept(*old(db), *final(db)),
        match result {
            Ok(item) => {
                &&& freeze_correction_refusal(*old(db), correction, deltas@) is None
                &&& correction_frozen(*old(db), *final(db), correction, deltas@, item)
            },
            Err(error) => {
                &&& *final(db) == *old(db)
                &&& freeze_correction_refusal(*old(db), correction, deltas@) == Some(error@)
            },
        },
{
    match require_active_cashier(db, correction.created_by) {
        Ok(_) => {},
        Err(error) => {
            return Err(error);
        },
    }
    let number: &str = match require_text(correction.issue_receipt_number, "issue receipt number") {
        Ok(number) => number,
        Err(error) => {
            return Err(error);
        },
    };
    let reason: &str = match require_text(correction.reason, "correction reason") {
        Ok(reason) => reason,
        Err(error) => {
            return Err(error);
        },
    };
    let whole: bool = match (
        find_row(&db.orders, correction.original_order_id),
        find_row(&db.orders, correction.replacement_order_id),
    ) {
        (Some(original), Some(replacement)) => is_correctable(db, &original, correction.shift_id)
            && is_linked(&replacement, &original, Status::Draft) && replacement.cashier_id
            == correction.created_by && has_typed_receipt(db, number, original.id) && has_lines(
            db,
            replacement.id,
        ),
        _ => false,
    };
    if !whole {
        return refuse(
            "a correction needs the linked draft replacement, open original shift and tab, and that order's typed receipt",
        );
    }
    match validate_deltas_against_orders(
        db,
        correction.original_order_id,
        Some(correction.replacement_order_id),
        deltas,
    ) {
        Ok(_) => {},
        Err(error) => {
            return Err(error);
        },
    }
    let id: i64 = match next_id(&db.pending) {
        Some(id) => id,
        None => {
            return Err(RepoError::Sqlite(SqlError::Full));
        },
    };
    let stored: PendingRow = PendingRow {
        id,
        original_order_id: correction.original_order_id,
        replacement_order_id: correction.replacement_order_id,
        issue_receipt_number: number.to_owned(),
        reason: reason.to_owned(),
        shift_id: correction.shift_id,
        created_by: correction.created_by,
        created_at: correction.created_at,
    };
    let ghost before = db.pending@;
    db.pending.push(stored.clone());
    assert(db.pending@.drop_last() =~= before);
    insert_deltas(&mut db.pending_lines, id, deltas);
    Ok(pending_from(db, &stored))
}

/// Whether a frozen correction can be applied: its replacement was issued, and
/// the original still stands on an open tab in its open shift.
pub open spec fn applicable(db: Store, frozen: PendingRow) -> bool {
    match (
        row(db.orders@, frozen.original_order_id),
        row(db.orders@, frozen.replacement_order_id),
    ) {
        (Some(original), Some(replacement)) => correctable(db, original, frozen.shift_id) && linked(
            replacement,
            original,
            Status::Issued,
        ),
        _ => false,
    }
}

/// Why a frozen correction cannot be applied; nothing, where it can.
pub open spec fn apply_refusal(db: Store, pending_id: i64) -> Option<Why> {
    match row(db.pending@, pending_id) {
        None => Some(Why::Missing("pending correction"@)),
        Some(frozen) => if !applicable(db, frozen) {
            Some(
                Why::Refused(
                    "the frozen correction no longer has an issued linked replacement on its open tab and shift"@,
                ),
            )
        } else {
            match deltas_refusal(
                db,
                frozen.original_order_id,
                Some(frozen.replacement_order_id),
                deltas_of(db.pending_lines@, pending_id),
            ) {
                Some(why) => Some(why),
                None => if fresh_id(db.corrections@) is None {
                    Some(Why::Sqlite(SqlWhy::Full))
                } else {
                    None
                },
            }
        },
    }
}

/// The frozen correction as it enters the ledger.
pub open spec fn applied(frozen: PendingRow, id: i64) -> CorrectionRow {
    CorrectionRow {
        id,
        kind: CorrectionKind::Correction,
        original_order_id: frozen.original_order_id,
        replacement_order_id: Some(frozen.replacement_order_id),
        issue_receipt_number: frozen.issue_receipt_number,
        reason: frozen.reason,
        shift_id: frozen.shift_id,
        created_by: frozen.created_by,
        created_at: frozen.created_at,
    }
}

/// Whether a store is another with a frozen correction in the ledger.
pub open spec fn correction_applied(
    before: Store,
    after: Store,
    pending_id: i64,
    item: Correction,
) -> bool {
    &&& fresh_id(before.corrections@) == Some(item.id)
    &&& row(before.pending@, pending_id) matches Some(frozen)
        && after.corrections@ == before.corrections@.push(applied(frozen, item.id))
    &&& after.correction_lines@ == before.correction_lines@ + owned(
        item.id,
        deltas_of(before.pending_lines@, pending_id),
    )
    &&& correction_says(item, after, after.corrections@.last())
    &&& after == (Store {
        corrections: after.corrections,
        correction_lines: after.correction_lines,
        ..before
    })
}

/// Copy the already-frozen correction into the ledger, exactly.
pub fn apply_pending_correction(db: &mut Store, pending_id: i64) -> (result: Result<
    Correction,
    RepoError,
>)
    ensures
        ledgers_kept(*old(db), *final(db)),
        match result {
            Ok(item) => {
                &&& apply_refusal(*old(db), pending_id) is None
                &&& correction_applied(*old(db), *final(db), pending_id, item)
            },
            Err(error) => {
                &&& *final(db) == *old(db)
                &&& apply_refusal(*old(db), pending_id) == Some(error@)
            },
        },
{
    let p: usize = match find_place(&db.pending, pending_id) {
        Some(p) => p,
        None => {
            return Err(RepoError::Missing { what: "pending correction" });
        },
    };
    let frozen: PendingRow = db.pending[p].clone();
    let whole: bool = match (
        find_row(&db.orders, frozen.original_order_id),
        find_row(&db.orders, frozen.replacement_order_id),
    ) {
        (Some(original), Some(replacement)) => is_correctable(db, &original, frozen.shift_id)
            && is_linked(&replacement, &original, Status::Issued),
        _ => false,
    };
    if !whole {
        return refuse(
            "the frozen correction no longer has an issued linked replacement on its open tab and shift",
        );
    }
    let deltas: Vec<CorrectionDelta> = read_deltas(&db.pending_lines, pending_id);
    match validate_deltas_against_orders(
        db,
        frozen.original_order_id,
        Some(frozen.replacement_order_id),
        deltas.as_slice(),
    ) {
        Ok(_) => {},
        Err(error) => {
            return Err(error);
        },
    }
    let id: i64 = match next_id(&db.corrections) {
        Some(id) => id,
        None => {
            return Err(RepoError::Sqlite(SqlError::Full));
        },
    };
    let stored: CorrectionRow = CorrectionRow {
        id,
        kind: CorrectionKind::Correction,
        original_order_id: frozen.original_order_id,
        replacement_order_id: Some(frozen.replacement_order_id),
        issue_receipt_number: frozen.issue_receipt_number.clone(),
        reason: frozen.reason.clone(),
        shift_id: frozen.shift_id,
        created_by: frozen.created_by,
        created_at: frozen.created_at,
    };
    db.corrections.push(stored.clone());
    insert_deltas(&mut db.correction_lines, id, deltas.as_slice());
    Ok(correction_from(db, &stored))
}

/// Whether a void hangs together: an order that can be corrected, and the
/// number on that order's own paper.
pub open spec fn voidable(db: Store, void: NewVoid<'_>) -> bool {
    row(db.orders@, void.original_order_id) matches Some(original) && correctable(
        db,
        original,
        void.shift_id,
    ) && any(db.receipts@, typed_receipt(trimmed(void.issue_receipt_number@), original.id))
}

/// A delta that leaves something of a product on the bill.
pub open spec fn keeps_some(deltas: Seq<CorrectionDelta>) -> bool {
    exists|i: int| 0 <= i < deltas.len() && (#[trigger] deltas[i]).after.thousandths != 0
}

/// Why a void cannot be recorded; nothing, where it can.
pub open spec fn record_void_refusal(
    db: Store,
    void: NewVoid<'_>,
    deltas: Seq<CorrectionDelta>,
) -> Option<Why> {
    match till_refusal(db, void.created_by) {
        Some(why) => Some(why),
        None => if keeps_some(deltas) {
            Some(Why::Refused("a void removes every product from the bill"@))
        } else {
            match text_refusal(void.issue_receipt_number@, "issue receipt number"@) {
                Some(why) => Some(why),
                None => match text_refusal(void.reason@, "void reason"@) {
                    Some(why) => Some(why),
                    None => if !voidable(db, void) {
                        Some(
                            Why::Refused(
                                "a void needs an issued order on its open tab and shift, and that order's typed receipt"@,
                            ),
                        )
                    } else {
                        match deltas_refusal(db, void.original_order_id, None, deltas) {
                            Some(why) => Some(why),
                            None => if fresh_id(db.corrections@) is None {
                                Some(Why::Sqlite(SqlWhy::Full))
                            } else {
                                None
                            },
                        }
                    },
                },
            }
        },
    }
}

/// Whether a row is the void that was recorded.
pub open spec fn void_says(stored: CorrectionRow, void: NewVoid<'_>) -> bool {
    &&& stored.kind == CorrectionKind::Void
    &&& stored.original_order_id == void.original_order_id
    &&& stored.replacement_order_id is None
    &&& stored.issue_receipt_number@ == trimmed(void.issue_receipt_number@)
    &&& stored.reason@ == trimmed(void.reason@)
    &&& stored.shift_id == void.shift_id
    &&& stored.created_by == void.created_by
    &&& stored.created_at == void.created_at
}

/// Whether a store is another with that void in the ledger.
pub open spec fn void_recorded(
    before: Store,
    after: Store,
    void: NewVoid<'_>,
    deltas: Seq<CorrectionDelta>,
    item: Correction,
) -> bool {
    &&& after.corrections@.len() == before.corrections@.len() + 1
    &&& after.corrections@.drop_last() == before.corrections@
    &&& fresh_id(before.corrections@) == Some(after.corrections@.last().id)
    &&& void_says(after.corrections@.last(), void)
    &&& after.correction_lines@ == before.correction_lines@ + owned(
        after.corrections@.last().id,
        deltas,
    )
    &&& correction_says(item, after, after.corrections@.last())
    &&& after == (Store {
        corrections: after.corrections,
        correction_lines: after.correction_lines,
        ..before
    })
}

/// Record a void as a correction to an empty order.
pub fn record_void(db: &mut Store, void: NewVoid<'_>, deltas: &[CorrectionDelta]) -> (result:
    Result<Correction, RepoError>)
    ensures
        ledgers_kept(*old(db), *final(db)),
        match result {
            Ok(item) => {
                &&& record_void_refusal(*old(db), void, deltas@) is None
                &&& void_recorded(*old(db), *final(db), void, deltas@, item)
            },
            Err(error) => {
                &&& *final(db) == *old(db)
                &&& record_void_refusal(*old(db), void, deltas@) == Some(error@)
            },
        },
{
    match require_active_cashier(db, void.created_by) {
        Ok(_) => {},
        Err(error) => {
            return Err(error);
        },
    }
    let mut i: usize = 0;
    while i < deltas.len()
        invariant
            i <= deltas.len(),
            *db == *old(db),
            till_refusal(*db, void.created_by) is None,
            forall|k: int| 0 <= k < i ==> (#[trigger] deltas@[k]).after.thousandths == 0,
        decreases deltas.len() - i,
    {
        if !deltas[i].after.is_zero() {
            assert(keeps_some(deltas@));
            return refuse("a void removes every product from the bill");
        }
        i = i + 1;
    }
    let number: &str = match require_text(void.issue_receipt_number, "issue receipt number") {
        Ok(number) => number,
        Err(error) => {
            return Err(error);
        },
    };
    let reason: &str = match require_text(void.reason, "void reason") {
        Ok(reason) => reason,
        Err(error) => {
            return Err(error);
        },
    };
    let whole: bool = match find_row(&db.orders, void.original_order_id) {
        Some(original) => is_correctable(db, &original, void.shift_id) && has_typed_receipt(
            db,
            number,
            original.id,
        ),
        None => false,
    };
    if !whole {
        return refuse(
            "a void needs an issued order on its open tab and shift, and that order's typed receipt",
        );
    }
    match validate_deltas_against_orders(db, void.original_order_id, None, deltas) {
        Ok(_) => {},
        Err(error) => {
            return Err(error);
        },
    }
    let id: i64 = match next_id(&db.corrections) {
        Some(id) => id,
        None => {
            return Err(RepoError::Sqlite(SqlError::Full));
        },
    };
    let stored: CorrectionRow = CorrectionRow {
        id,
        kind: CorrectionKind::Void,
        original_order_id: void.original_order_id,
        replacement_order_id: None,
        issue_receipt_number: number.to_owned(),
        reason: reason.to_owned(),
        shift_id: void.shift_id,
        created_by: void.created_by,
        created_at: void.created_at,
    };
    let ghost before = db.corrections@;
    db.corrections.push(stored.clone());
    assert(db.corrections@.drop_last() =~= before);
    insert_deltas(&mut db.correction_lines, id, deltas);
    Ok(correction_from(db, &stored))
}

/// The correction that a frozen one became, of an order that was replaced.
pub open spec fn completes(db: Store, frozen: PendingRow) -> spec_fn(CorrectionRow) -> bool {
    |c: CorrectionRow|
        c.original_order_id == frozen.original_order_id && c.replacement_order_id == Some(
            frozen.replacement_order_id,
        ) && (row(db.orders@, c.original_order_id) matches Some(original) && original.status
            == Status::Replaced)
}

/// Whether the replacement of a frozen correction was safely abandoned.
pub open spec fn let_go(db: Store, frozen: PendingRow) -> bool {
    row(db.orders@, frozen.replacement_order_id) matches Some(replacement) && replacement.status
        == Status::Abandoned && replacement.replaces_order_id is None && !any(
        db.receipts@,
        live_receipt_of(replacement.id),
    )
}

/// Why a frozen correction cannot be cleared; nothing, where it can.
pub open spec fn clear_refusal(db: Store, pending_id: i64) -> Option<Why> {
    match row(db.pending@, pending_id) {
        None => Some(Why::Missing("pending correction"@)),
        Some(frozen) => if any(db.corrections@, completes(db, frozen)) || let_go(db, frozen) {
            None
        } else {
            Some(
                Why::Refused(
                    "a frozen correction stays until it is fully applied or safely abandoned"@,
                ),
            )
        },
    }
}

pub open spec fn other_than(id: i64) -> spec_fn(PendingRow) -> bool {
    |r: PendingRow| r.id != id
}

/// Whether a store is another without one frozen correction.
pub open spec fn correction_cleared(
    before: Store,
    after: Store,
    pending_id: i64,
) -> bool {
    &&& after.pending@ == chosen(before.pending@, other_than(pending_id))
    &&& after.pending_lines@ == disowned(before.pending_lines@, pending_id)
    &&& after == (Store {
        pending: after.pending,
        pending_lines: after.pending_lines,
        ..before
    })
}

/// Delete a completed or abandoned frozen correction and its deltas. The
/// applied correction stays untouched.
pub fn clear_pending_correction(db: &mut Store, pending_id: i64) -> (result: Result<(), RepoError>)
    ensures
        ledgers_kept(*old(db), *final(db)),
        match result {
            Ok(_) => {
                &&& clear_refusal(*old(db), pending_id) is None
                &&& correction_cleared(*old(db), *final(db), pending_id)
            },
            Err(error) => {
                &&& *final(db) == *old(db)
                &&& clear_refusal(*old(db), pending_id) == Some(error@)
            },
        },
{
    let frozen: PendingRow = match find_row(&db.pending, pending_id) {
        Some(frozen) => frozen,
        None => {
            return Err(RepoError::Missing { what: "pending correction" });
        },
    };
    let completed: bool = any_row(
        &db.corrections,
        |c: &CorrectionRow| -> (b: bool)
            ensures
                b == (c.original_order_id == frozen.original_order_id && c.replacement_order_id
                    == Some(frozen.replacement_order_id) && (row(
                    db.orders@,
                    c.original_order_id,
                ) matches Some(original) && original.status == Status::Replaced))
            {
                c.original_order_id == frozen.original_order_id && c.replacement_order_id == Some(
                    frozen.replacement_order_id,
                ) && match find_place(&db.orders, c.original_order_id) {
                    Some(at) => db.orders[at].status == Status::Replaced,
                    None => false,
                }
            },
        Ghost(completes(*db, frozen)),
    );
    let abandoned: bool = match find_place(&db.orders, frozen.replacement_order_id) {
        Some(at) => db.orders[at].status == Status::Abandoned
            && db.orders[at].replaces_order_id.is_none() && !has_live_receipt(
            db,
            db.orders[at].id,
        ),
        None => false,
    };
    if !completed && !abandoned {
        return refuse("a frozen correction stays until it is fully applied or safely abandoned");
    }
    drop_deltas(&mut db.pending_lines, pending_id);
    let kept: Vec<PendingRow> = choose_rows(
        &db.pending,
        |r: &PendingRow| -> (b: bool)
            ensures
                b == (r.id != pending_id)
            { r.id != pending_id },
        Ghost(other_than(pending_id)),
    );
    db.pending = kept;
    Ok(())
}

// ---------------------------------------------------------------------------
// Laws
// ---------------------------------------------------------------------------

proof fn no_deltas_of_a_stranger(rows: Seq<DeltaRow>, owner_id: i64)
    requires
        forall|i: int| 0 <= i < rows.len() ==> (#[trigger] rows[i]).owner_id != owner_id,
    ensures
        deltas_of(rows, owner_id).len() == 0,
    decreases rows.len(),
{
    if rows.len() > 0 {
        let before = rows.drop_last();
        assert(forall|i: int| 0 <= i < before.len() ==> #[trigger] before[i] == rows[i]);
        no_deltas_of_a_stranger(before, owner_id);
    }
}

/// The deltas that are written for a new correction are the deltas that are
/// read back for it: freezing and applying both keep them, in order, unaltered.
pub proof fn written_deltas_read_back(
    rows: Seq<DeltaRow>,
    owner_id: i64,
    deltas: Seq<CorrectionDelta>,
)
    requires
        forall|i: int| 0 <= i < rows.len() ==> (#[trigger] rows[i]).owner_id != owner_id,
    ensures
        deltas_of(rows + owned(owner_id, deltas), owner_id) == deltas,
    decreases deltas.len(),
{
    let whole = rows + owned(owner_id, deltas);
    if deltas.len() == 0 {
        assert(whole =~= rows);
        no_deltas_of_a_stranger(rows, owner_id);
        assert(deltas_of(whole, owner_id) =~= deltas);
    } else {
        written_deltas_read_back(rows, owner_id, deltas.drop_last());
        assert(whole.drop_last() =~= rows + owned(owner_id, deltas.drop_last()));
        assert(whole.last().delta == deltas.last());
        assert(deltas.drop_last().push(deltas.last()) =~= deltas);
    }
}

/// A delta that [`CorrectionDelta::new`] builds for what the two orders consume
/// is never objected to, as long as its product comes up once.
pub proof fn a_built_delta_is_right(
    before: Seq<(i64, int)>,
    after: Seq<(i64, int)>,
    deltas: Seq<CorrectionDelta>,
    i: int,
)
    requires
        0 <= i < deltas.len(),
        !repeats(deltas, i),
        deltas[i].before.thousandths == amount_of(before, deltas[i].product_id),
        deltas[i].after.thousandths == amount_of(after, deltas[i].product_id),
        disposition_objection(deltas[i].before, deltas[i].after, deltas[i].returned) is None,
        deltas[i].delta.thousandths == deltas[i].after.thousandths - deltas[i].before.thousandths,
        deltas[i].written_off.thousandths == (if deltas[i].after.thousandths
            < deltas[i].before.thousandths {
            deltas[i].before.thousandths - deltas[i].after.thousandths
                - deltas[i].returned.thousandths
        } else {
            0
        }),
    ensures
        delta_objection(before, after, deltas, i) is None,
{
}

/// Deltas that are accepted account for every thousandth: what a product loses
/// between the two orders is what came back and what was written off, and a
/// product that loses nothing has neither.
pub proof fn accepted_deltas_account_for_everything(
    db: Store,
    original_order_id: i64,
    replacement_order_id: Option<i64>,
    deltas: Seq<CorrectionDelta>,
    i: int,
)
    requires
        deltas_refusal(db, original_order_id, replacement_order_id, deltas) is None,
        0 <= i < deltas.len(),
    ensures
        order_products(db, original_order_id) matches Ok(before) && (replacement_products(
            db,
            replacement_order_id,
        ) matches Ok(after) && ({
            let lost = amount_of(before, deltas[i].product_id) - amount_of(
                after,
                deltas[i].product_id,
            );
            &&& deltas[i].delta.thousandths == -lost
            &&& deltas[i].returned.thousandths + deltas[i].written_off.thousandths == (if lost
                > 0 {
                lost
            } else {
                0
            })
            &&& deltas[i].returned.thousandths >= 0
            &&& deltas[i].written_off.thousandths >= 0
        })),
{
    let before = order_products(db, original_order_id)->Ok_0;
    let after = replacement_products(db, replacement_order_id)->Ok_0;
    objection_stands(before, after, deltas, (i + 1) as nat, deltas.len());
}

/// What an order consumes is the same for as long as its lines, the recipes and
/// the products stay as they are.
pub proof fn same_lines_same_consumption(before: Store, after: Store, lines: Seq<Line>)
    requires
        after.products == before.products,
        after.recipe_lines == before.recipe_lines,
    ensures
        consumed_by(after, lines) == consumed_by(before, lines),
    decreases lines.len(),
{
    if lines.len() > 0 {
        same_lines_same_consumption(before, after, lines.drop_last());
        catalogue::same_recipes_same_expansion(
            before,
            after,
            lines.last().recipe_id,
            lines.last().quantity,
        );
    }
}

/// What an order consumes names every product once, in amounts that fit.
pub proof fn consumption_is_tidy(db: Store, lines: Seq<Line>)
    ensures
        consumed_by(db, lines) matches Ok(entries) ==> tidy(entries),
    decreases lines.len(),
{
    if lines.len() > 0 && consumed_by(db, lines) is Ok {
        consumption_is_tidy(db, lines.drop_last());
        let so_far = consumed_by(db, lines.drop_last())->Ok_0;
        let more = expansion(db, lines.last().recipe_id, lines.last().quantity)->Ok_0;
        let totals = catalogue::consumption(
            db,
            db.recipe_lines@,
            lines.last().recipe_id,
            lines.last().quantity.thousandths as int,
        )->0;
        assert forall|i: int| 0 <= i < more.len() implies fits((#[trigger] more[i]).1) by {
            assert(more[i].1 == catalogue::rounded_pour(totals[i].1));
        }
        joining_keeps_tidy(so_far, more);
    }
}

/// How much of a product a tally holds, wherever it stands in it.
pub open spec fn total_of(entries: Seq<(i64, int)>, product_id: i64) -> int
    decreases entries.len(),
{
    if entries.len() == 0 {
        0
    } else {
        total_of(entries.drop_last(), product_id) + (if entries.last().0 == product_id {
            entries.last().1
        } else {
            0
        })
    }
}

/// Joining tallies adds what they hold.
pub proof fn joining_adds(so_far: Seq<(i64, int)>, more: Seq<(i64, int)>, product_id: i64)
    requires
        tidy(so_far),
        within(more),
    ensures
        joined(so_far, more) matches Some(entries) ==> tidy(entries) && amount_of(
            entries,
            product_id,
        ) == amount_of(so_far, product_id) + total_of(more, product_id),
    decreases more.len(),
{
    joining_keeps_tidy(so_far, more);
    if more.len() > 0 && joined(so_far, more) is Some {
        let before = more.drop_last();
        assert(forall|i: int| 0 <= i < before.len() ==> #[trigger] before[i] == more[i]);
        joining_adds(so_far, before, product_id);
        joining_keeps_tidy(so_far, before);
        adding_adds(joined(so_far, before)->0, more.last().0, more.last().1, product_id);
    }
}

} // verus!

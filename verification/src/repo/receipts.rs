//! Numbered issue and customer receipts and their append-only print attempts.
//!
//! A number is taken immediately before the receipt that consumes it.
//! Rendering and device I/O do not belong here: only the once-frozen text and
//! the reported outcome of an attempt are kept.

use vstd::prelude::*;

use super::{refuse, RepoError, SqlError, SqlWhy, Why};
use crate::money::{BasisPoints, Money};
use crate::repo::cash::TabPayment;
use crate::repo::catalogue::first_chosen;
use crate::repo::orders::{self, has_lines, line_of, Order};
use crate::repo::seq::{printed, Counter};
use crate::repo::shifts::{self, is_unanswered, shift, Shift};
use crate::repo::staff::{self, is_active_cashier, person, require_active_cashier, till_refusal};
use crate::repo::tabs::{self, chars_in, tab};
use crate::store::{ledgers_kept, Store};
use crate::table::{
    any, any_row, choose_rows, chosen, count, count_rows, find_place, find_row, fresh_id, has_room,
    in_order, largest_id, next_id, place, room_for, row, sort_rows, writing_takes_one_identity, Row,
};
use crate::text::{copy_text, is_blank, join3, same, trimmed};

verus! {

#[derive(Clone, Copy, Debug, PartialEq, Eq, Structural)]
pub enum Kind {
    Issue,
    Customer,
}

impl Kind {
    /// The word it is stored under.
    pub open spec fn word(self) -> Seq<char> {
        match self {
            Kind::Issue => "ISSUE"@,
            Kind::Customer => "CUSTOMER"@,
        }
    }

    /// The word it is stored under.
    pub fn as_str(self) -> (result: &'static str)
        ensures
            result@ == self.word(),
    {
        match self {
            Kind::Issue => "ISSUE",
            Kind::Customer => "CUSTOMER",
        }
    }

    /// What a stored word stands for.
    pub open spec fn of_word(text: Seq<char>) -> Option<Kind> {
        if text == "ISSUE"@ {
            Some(Kind::Issue)
        } else if text == "CUSTOMER"@ {
            Some(Kind::Customer)
        } else {
            None
        }
    }

    fn read_word(text: &str) -> (result: Option<Kind>)
        ensures
            result == Self::of_word(text@),
    {
        if same(text, "ISSUE") {
            Some(Kind::Issue)
        } else if same(text, "CUSTOMER") {
            Some(Kind::Customer)
        } else {
            None
        }
    }

    /// A word that was stored reads back as what it stood for.
    pub proof fn a_stored_word_reads_back(self)
        ensures
            Self::of_word(self.word()) == Some(self),
    {
        reveal_strlit("ISSUE");
        reveal_strlit("CUSTOMER");
        assert("CUSTOMER"@.len() != "ISSUE"@.len());
    }
}

impl Kind {
    /// Reads a stored kind.
    pub fn parse(text: &str) -> (result: Result<Kind, SqlError>)
        ensures
            match Kind::of_word(text@) {
                Some(kind) => result == Ok::<Kind, SqlError>(kind),
                None => result matches Err(error) && error@ == unknown_word(
                    1,
                    "receipt type"@,
                    text@,
                ),
            },
    {
        match Kind::read_word(text) {
            Some(kind) => Ok(kind),
            None => Err(invalid_text(1, "receipt type", text)),
        }
    }
}

/// Where a slip goes.
#[derive(Clone, Copy, Debug, PartialEq, Eq, Structural)]
pub enum Destination {
    Bar,
    Kitchen,
}

impl Destination {
    /// The word it is stored under.
    pub open spec fn word(self) -> Seq<char> {
        match self {
            Destination::Bar => "BAR"@,
            Destination::Kitchen => "KITCHEN"@,
        }
    }

    /// The word it is stored under.
    pub fn as_str(self) -> (result: &'static str)
        ensures
            result@ == self.word(),
    {
        match self {
            Destination::Bar => "BAR",
            Destination::Kitchen => "KITCHEN",
        }
    }

    /// What a stored word stands for.
    pub open spec fn of_word(text: Seq<char>) -> Option<Destination> {
        if text == "BAR"@ {
            Some(Destination::Bar)
        } else if text == "KITCHEN"@ {
            Some(Destination::Kitchen)
        } else {
            None
        }
    }

    fn read_word(text: &str) -> (result: Option<Destination>)
        ensures
            result == Self::of_word(text@),
    {
        if same(text, "BAR") {
            Some(Destination::Bar)
        } else if same(text, "KITCHEN") {
            Some(Destination::Kitchen)
        } else {
            None
        }
    }

    /// A word that was stored reads back as what it stood for.
    pub proof fn a_stored_word_reads_back(self)
        ensures
            Self::of_word(self.word()) == Some(self),
    {
        reveal_strlit("BAR");
        reveal_strlit("KITCHEN");
        assert("KITCHEN"@.len() != "BAR"@.len());
    }
}

impl Destination {
    /// Reads a stored destination.
    pub fn parse(text: &str) -> (result: Result<Destination, SqlError>)
        ensures
            match Destination::of_word(text@) {
                Some(destination) => result == Ok::<Destination, SqlError>(destination),
                None => result matches Err(error) && error@ == unknown_word(
                    6,
                    "receipt destination"@,
                    text@,
                ),
            },
    {
        match Destination::read_word(text) {
            Some(destination) => Ok(destination),
            None => Err(invalid_text(6, "receipt destination", text)),
        }
    }
}

#[derive(Clone, Copy, Debug, PartialEq, Eq, Structural)]
pub enum Status {
    Pending,
    Printed,
    Failed,
    Void,
}

impl Status {
    /// The word it is stored under.
    pub open spec fn word(self) -> Seq<char> {
        match self {
            Status::Pending => "PENDING"@,
            Status::Printed => "PRINTED"@,
            Status::Failed => "FAILED"@,
            Status::Void => "VOID"@,
        }
    }

    /// The word it is stored under.
    pub fn as_str(self) -> (result: &'static str)
        ensures
            result@ == self.word(),
    {
        match self {
            Status::Pending => "PENDING",
            Status::Printed => "PRINTED",
            Status::Failed => "FAILED",
            Status::Void => "VOID",
        }
    }

    /// What a stored word stands for.
    pub open spec fn of_word(text: Seq<char>) -> Option<Status> {
        if text == "PENDING"@ {
            Some(Status::Pending)
        } else if text == "PRINTED"@ {
            Some(Status::Printed)
        } else if text == "FAILED"@ {
            Some(Status::Failed)
        } else if text == "VOID"@ {
            Some(Status::Void)
        } else {
            None
        }
    }

    fn read_word(text: &str) -> (result: Option<Status>)
        ensures
            result == Self::of_word(text@),
    {
        if same(text, "PENDING") {
            Some(Status::Pending)
        } else if same(text, "PRINTED") {
            Some(Status::Printed)
        } else if same(text, "FAILED") {
            Some(Status::Failed)
        } else if same(text, "VOID") {
            Some(Status::Void)
        } else {
            None
        }
    }

    /// A word that was stored reads back as what it stood for.
    pub proof fn a_stored_word_reads_back(self)
        ensures
            Self::of_word(self.word()) == Some(self),
    {
        reveal_strlit("PENDING");
        reveal_strlit("PRINTED");
        reveal_strlit("FAILED");
        reveal_strlit("VOID");
        assert("PRINTED"@[1] != "PENDING"@[1]);
        assert("FAILED"@.len() != "PENDING"@.len());
        assert("FAILED"@.len() != "PRINTED"@.len());
        assert("VOID"@.len() != "PENDING"@.len());
        assert("VOID"@.len() != "PRINTED"@.len());
        assert("VOID"@.len() != "FAILED"@.len());
    }
}

impl Status {
    /// Reads a stored status.
    pub fn parse(text: &str) -> (result: Result<Status, SqlError>)
        ensures
            match Status::of_word(text@) {
                Some(status) => result == Ok::<Status, SqlError>(status),
                None => result matches Err(error) && error@ == unknown_word(
                    7,
                    "receipt status"@,
                    text@,
                ),
            },
    {
        match Status::read_word(text) {
            Some(status) => Ok(status),
            None => Err(invalid_text(7, "receipt status", text)),
        }
    }

    /// The status in the middle of a sentence.
    pub open spec fn spoken(self) -> Seq<char> {
        match self {
            Status::Pending => "pending"@,
            Status::Printed => "printed"@,
            Status::Failed => "failed"@,
            Status::Void => "void"@,
        }
    }

    fn in_words(self) -> (result: &'static str)
        ensures
            result@ == self.spoken(),
    {
        match self {
            Status::Pending => "pending",
            Status::Printed => "printed",
            Status::Failed => "failed",
            Status::Void => "void",
        }
    }
}

/// A numbered receipt.
#[derive(Debug, PartialEq, Eq)]
pub struct Receipt {
    pub id: i64,
    pub kind: Kind,
    pub sequence_no: i64,
    pub receipt_number: String,
    pub order_id: Option<i64>,
    pub tab_id: Option<i64>,
    pub destination: Option<Destination>,
    pub status: Status,
    pub rendered_text: Option<String>,
    pub waiter_name: String,
    pub cashier_name: Option<String>,
    pub customer_tin: Option<String>,
    pub subtotal: Option<Money>,
    pub service_charge: Option<Money>,
    pub tax: Option<Money>,
    pub total: Option<Money>,
    pub tax_rate: Option<BasisPoints>,
    pub service_rate: Option<BasisPoints>,
    pub tax_inclusive: Option<bool>,
    pub is_comped: bool,
    pub shift_id: i64,
    pub created_at: i64,
    pub printed_at: Option<i64>,
}

impl Clone for Receipt {
    fn clone(&self) -> (result: Self)
        ensures
            result == *self,
    {
        Receipt {
            id: self.id,
            kind: self.kind,
            sequence_no: self.sequence_no,
            receipt_number: self.receipt_number.clone(),
            order_id: self.order_id,
            tab_id: self.tab_id,
            destination: self.destination,
            status: self.status,
            rendered_text: copy_text(&self.rendered_text),
            waiter_name: self.waiter_name.clone(),
            cashier_name: copy_text(&self.cashier_name),
            customer_tin: copy_text(&self.customer_tin),
            subtotal: self.subtotal,
            service_charge: self.service_charge,
            tax: self.tax,
            total: self.total,
            tax_rate: self.tax_rate,
            service_rate: self.service_rate,
            tax_inclusive: self.tax_inclusive,
            is_comped: self.is_comped,
            shift_id: self.shift_id,
            created_at: self.created_at,
            printed_at: self.printed_at,
        }
    }
}

impl Row for Receipt {
    open spec fn key(&self) -> i64 {
        self.id
    }

    fn id(&self) -> (result: i64) {
        self.id
    }

    fn copy_row(&self) -> (result: Self) {
        self.clone()
    }
}

/// The conversion failure for a stored word that stands for nothing.
pub open spec fn unknown_word(column: int, domain: Seq<char>, value: Seq<char>) -> SqlWhy {
    SqlWhy::Conversion { column, domain, value }
}

/// The conversion failure for a stored word that stands for nothing.
pub(crate) fn invalid_text(column: usize, domain: &'static str, value: &str) -> (result: SqlError)
    ensures
        result@ == unknown_word(column as int, domain@, value@),
{
    SqlError::Conversion { column, domain, value: value.to_owned() }
}

// ---------------------------------------------------------------------------
// Reading
// ---------------------------------------------------------------------------

pub fn find(db: &Store, id: i64) -> (result: Result<Receipt, RepoError>)
    ensures
        match row(db.receipts@, id) {
            Some(found) => result == Ok::<Receipt, RepoError>(found),
            None => result matches Err(error) && error@ == Why::Missing("receipt"@),
        },
{
    match find_row(&db.receipts, id) {
        Some(found) => Ok(found),
        None => Err(RepoError::Missing { what: "receipt" }),
    }
}

pub open spec fn numbered(number: Seq<char>) -> spec_fn(Receipt) -> bool {
    |r: Receipt| r.receipt_number@ == number
}

/// The receipt with that number.
pub open spec fn bearing(db: Store, number: Seq<char>) -> Option<Receipt> {
    first_chosen(db.receipts@, numbered(number))
}

pub fn find_by_number(db: &Store, receipt_number: &str) -> (result: Result<Receipt, RepoError>)
    ensures
        match bearing(*db, receipt_number@) {
            Some(found) => result == Ok::<Receipt, RepoError>(found),
            None => result matches Err(error) && error@ == Why::Missing("receipt"@),
        },
{
    let found: Vec<Receipt> = choose_rows(
        &db.receipts,
        |r: &Receipt| -> (b: bool)
            ensures
                b == (r.receipt_number@ == receipt_number@)
            { same(r.receipt_number.as_str(), receipt_number) },
        Ghost(numbered(receipt_number@)),
    );
    if found.len() > 0 {
        Ok(found[0].clone())
    } else {
        Err(RepoError::Missing { what: "receipt" })
    }
}

pub open spec fn of_order(order_id: i64) -> spec_fn(Receipt) -> bool {
    |r: Receipt| r.order_id == Some(order_id)
}

pub open spec fn numbered_before() -> spec_fn(Receipt, Receipt) -> bool {
    |a: Receipt, b: Receipt| a.sequence_no < b.sequence_no
}

/// Every receipt of an order, in the order of their numbers.
pub open spec fn receipts_of(db: Store, order_id: i64) -> Seq<Receipt> {
    in_order(chosen(db.receipts@, of_order(order_id)), numbered_before())
}

pub fn for_order(db: &Store, order_id: i64) -> (result: Vec<Receipt>)
    ensures
        result@ == receipts_of(*db, order_id),
{
    let found: Vec<Receipt> = choose_rows(
        &db.receipts,
        |r: &Receipt| -> (b: bool)
            ensures
                b == (r.order_id == Some(order_id))
            { r.order_id == Some(order_id) },
        Ghost(of_order(order_id)),
    );
    sort_rows(
        &found,
        |a: &Receipt, b: &Receipt| -> (r: bool)
            ensures
                r == (a.sequence_no < b.sequence_no)
            { a.sequence_no < b.sequence_no },
        Ghost(numbered_before()),
    )
}

pub open spec fn of_tab(tab_id: i64) -> spec_fn(Receipt) -> bool {
    |r: Receipt| r.tab_id == Some(tab_id)
}

/// The customer receipt of a tab.
pub open spec fn customer_receipt(db: Store, tab_id: i64) -> Option<Receipt> {
    first_chosen(db.receipts@, of_tab(tab_id))
}

pub fn for_tab(db: &Store, tab_id: i64) -> (result: Option<Receipt>)
    ensures
        result == customer_receipt(*db, tab_id),
{
    let found: Vec<Receipt> = choose_rows(
        &db.receipts,
        |r: &Receipt| -> (b: bool)
            ensures
                b == (r.tab_id == Some(tab_id))
            { r.tab_id == Some(tab_id) },
        Ghost(of_tab(tab_id)),
    );
    if found.len() > 0 {
        Some(found[0].clone())
    } else {
        None
    }
}

pub open spec fn is_pending() -> spec_fn(Receipt) -> bool {
    |r: Receipt| r.status == Status::Pending
}

pub open spec fn created_before() -> spec_fn(Receipt, Receipt) -> bool {
    |a: Receipt, b: Receipt|
        a.created_at < b.created_at || (a.created_at == b.created_at && a.id < b.id)
}

/// Every receipt that waits to be printed, the oldest first.
pub open spec fn waiting_receipts(db: Store) -> Seq<Receipt> {
    in_order(chosen(db.receipts@, is_pending()), created_before())
}

/// Receipts still waiting for an explicit print or recovery outcome.
pub fn pending(db: &Store) -> (result: Vec<Receipt>)
    ensures
        result@ == waiting_receipts(*db),
{
    let found: Vec<Receipt> = choose_rows(
        &db.receipts,
        |r: &Receipt| -> (b: bool)
            ensures
                b == (r.status == Status::Pending)
            { r.status == Status::Pending },
        Ghost(is_pending()),
    );
    sort_rows(
        &found,
        |a: &Receipt, b: &Receipt| -> (r: bool)
            ensures
                r == (a.created_at < b.created_at || (a.created_at == b.created_at && a.id < b.id))
            { a.created_at < b.created_at || (a.created_at == b.created_at && a.id < b.id) },
        Ghost(created_before()),
    )
}

// ---------------------------------------------------------------------------
// Routing: which destinations an order needs a slip for
// ---------------------------------------------------------------------------

/// Whether a recipe line belongs to that line of that order.
pub open spec fn is_part(db: Store, order_id: i64, i: int, j: int) -> bool {
    &&& 0 <= i < db.order_lines@.len()
    &&& 0 <= j < db.recipe_lines@.len()
    &&& db.order_lines@[i].order_id == order_id
    &&& db.recipe_lines@[j].recipe_id == db.order_lines@[i].recipe_id
}

/// Where the `j`-th recipe line sends the `i`-th order line, if it belongs to
/// that order and its product is there.
pub open spec fn route(db: Store, order_id: i64, i: int, j: int) -> Option<Seq<char>> {
    if is_part(db, order_id, i, j) {
        match row(db.products@, db.recipe_lines@[j].product_id) {
            Some(listed) => Some(listed.product.destination@),
            None => None,
        }
    } else {
        None
    }
}

/// Whether an order has something for that destination.
pub open spec fn routed(db: Store, order_id: i64, word: Seq<char>) -> bool {
    exists|i: int, j: int| #[trigger] route(db, order_id, i, j) == Some(word)
}

pub(crate) fn route_at(db: &Store, order_id: i64, i: usize, j: usize) -> (result: Option<String>)
    requires
        i < db.order_lines@.len(),
        j < db.recipe_lines@.len(),
    ensures
        chars_in(result) == route(*db, order_id, i as int, j as int),
{
    if db.order_lines[i].order_id == order_id && db.recipe_lines[j].recipe_id
        == db.order_lines[i].recipe_id {
        match find_place(&db.products, db.recipe_lines[j].product_id) {
            Some(at) => Some(db.products[at].product.destination.clone()),
            None => None,
        }
    } else {
        None
    }
}

/// Whether an order has something for that destination.
pub(crate) fn routes_to(db: &Store, order_id: i64, word: &str) -> (result: bool)
    ensures
        result == routed(*db, order_id, word@),
{
    let mut i: usize = 0;
    while i < db.order_lines.len()
        invariant
            i <= db.order_lines.len(),
            forall|a: int, b: int| 0 <= a < i ==> #[trigger] route(*db, order_id, a, b) != Some(
                word@,
            ),
        decreases db.order_lines.len() - i,
    {
        let mut j: usize = 0;
        while j < db.recipe_lines.len()
            invariant
                i < db.order_lines.len(),
                j <= db.recipe_lines.len(),
                forall|b: int|
                    0 <= b < j ==> #[trigger] route(*db, order_id, i as int, b) != Some(word@),
            decreases db.recipe_lines.len() - j,
        {
            if let Some(found) = route_at(db, order_id, i, j) {
                if same(found.as_str(), word) {
                    return true;
                }
            }
            j = j + 1;
        }
        assert forall|a: int, b: int| 0 <= a < i + 1 implies #[trigger] route(*db, order_id, a, b)
            != Some(word@) by {
            if a == i && !(0 <= b < db.recipe_lines@.len()) {
                assert(route(*db, order_id, a, b) is None);
            }
        }
        i = i + 1;
    }
    assert forall|a: int, b: int| #[trigger] route(*db, order_id, a, b) != Some(word@) by {
        if !(0 <= a < db.order_lines@.len()) {
            assert(route(*db, order_id, a, b) is None);
        }
    }
    false
}

/// Whether an order has anything in it to pour or plate.
pub open spec fn has_parts(db: Store, order_id: i64) -> bool {
    exists|i: int, j: int| #[trigger] is_part(db, order_id, i, j)
}

fn any_part(db: &Store, order_id: i64) -> (result: bool)
    ensures
        result == has_parts(*db, order_id),
{
    let mut i: usize = 0;
    while i < db.order_lines.len()
        invariant
            i <= db.order_lines.len(),
            forall|a: int, b: int| 0 <= a < i ==> !#[trigger] is_part(*db, order_id, a, b),
        decreases db.order_lines.len() - i,
    {
        let mut j: usize = 0;
        while j < db.recipe_lines.len()
            invariant
                i < db.order_lines.len(),
                j <= db.recipe_lines.len(),
                forall|b: int| 0 <= b < j ==> !#[trigger] is_part(*db, order_id, i as int, b),
            decreases db.recipe_lines.len() - j,
        {
            if db.order_lines[i].order_id == order_id && db.recipe_lines[j].recipe_id
                == db.order_lines[i].recipe_id {
                assert(is_part(*db, order_id, i as int, j as int));
                return true;
            }
            j = j + 1;
        }
        assert forall|a: int, b: int| 0 <= a < i + 1 implies !#[trigger] is_part(
            *db,
            order_id,
            a,
            b,
        ) by {}
        i = i + 1;
    }
    assert forall|a: int, b: int| !#[trigger] is_part(*db, order_id, a, b) by {}
    false
}

/// How far the slips of an order have to be.
#[derive(Clone, Copy, Debug, PartialEq, Eq, Structural)]
pub enum Stage {
    /// Waiting to be printed.
    Waiting,
    /// Printed, or failed and replaced by hand.
    Resolved,
}

impl Stage {
    pub open spec fn reached(self, status: Status) -> bool {
        match self {
            Stage::Waiting => status == Status::Pending,
            Stage::Resolved => status == Status::Printed || status == Status::Failed,
        }
    }

    fn is_reached(self, status: Status) -> (result: bool)
        ensures
            result == self.reached(status),
    {
        match self {
            Stage::Waiting => status == Status::Pending,
            Stage::Resolved => status == Status::Printed || status == Status::Failed,
        }
    }
}

/// A slip of that order, for that destination, that got that far.
pub open spec fn slip_for(order_id: i64, word: Seq<char>, stage: Stage) -> spec_fn(Receipt) -> bool {
    |r: Receipt|
        r.order_id == Some(order_id) && r.kind == Kind::Issue && r.destination is Some
            && r.destination->0.word() == word && stage.reached(r.status)
}

pub(crate) fn has_slip(db: &Store, order_id: i64, word: &str, stage: Stage) -> (result: bool)
    ensures
        result == any(db.receipts@, slip_for(order_id, word@, stage)),
{
    any_row(
        &db.receipts,
        |r: &Receipt| -> (b: bool)
            ensures
                b == (r.order_id == Some(order_id) && r.kind == Kind::Issue && r.destination is Some
                    && r.destination->0.word() == word@ && stage.reached(r.status))
            {
                match r.destination {
                    Some(destination) => r.order_id == Some(order_id) && r.kind == Kind::Issue
                        && same(destination.as_str(), word) && stage.is_reached(r.status),
                    None => false,
                }
            },
        Ghost(slip_for(order_id, word@, stage)),
    )
}

/// Whether every destination of an order has a slip that got that far.
pub open spec fn every_route_has_a_slip(db: Store, order_id: i64, stage: Stage) -> bool {
    forall|i: int, j: int|
        (#[trigger] route(db, order_id, i, j)) is Some ==> any(
            db.receipts@,
            slip_for(order_id, route(db, order_id, i, j)->0, stage),
        )
}

fn routes_have_slips(db: &Store, order_id: i64, stage: Stage) -> (result: bool)
    ensures
        result == every_route_has_a_slip(*db, order_id, stage),
{
    let mut i: usize = 0;
    while i < db.order_lines.len()
        invariant
            i <= db.order_lines.len(),
            forall|a: int, b: int|
                0 <= a < i && (#[trigger] route(*db, order_id, a, b)) is Some ==> any(
                    db.receipts@,
                    slip_for(order_id, route(*db, order_id, a, b)->0, stage),
                ),
        decreases db.order_lines.len() - i,
    {
        let mut j: usize = 0;
        while j < db.recipe_lines.len()
            invariant
                i < db.order_lines.len(),
                j <= db.recipe_lines.len(),
                forall|b: int|
                    0 <= b < j && (#[trigger] route(*db, order_id, i as int, b)) is Some ==> any(
                        db.receipts@,
                        slip_for(order_id, route(*db, order_id, i as int, b)->0, stage),
                    ),
            decreases db.recipe_lines.len() - j,
        {
            if let Some(word) = route_at(db, order_id, i, j) {
                if !has_slip(db, order_id, word.as_str(), stage) {
                    assert(route(*db, order_id, i as int, j as int) == Some(word@));
                    return false;
                }
            }
            j = j + 1;
        }
        i = i + 1;
    }
    true
}

/// Whether a slip that is not void belongs to something in its order, and got
/// far enough.
pub open spec fn slip_belongs(db: Store, receipt: Receipt, order_id: i64, stage: Stage) -> bool {
    receipt.order_id == Some(order_id) && receipt.kind == Kind::Issue && receipt.status
        != Status::Void ==> {
        &&& receipt.destination matches Some(destination) && routed(
            db,
            order_id,
            destination.word(),
        )
        &&& stage == Stage::Resolved ==> stage.reached(receipt.status)
    }
}

/// Whether every slip of an order belongs to something in it.
pub open spec fn every_slip_belongs(db: Store, order_id: i64, stage: Stage) -> bool {
    forall|k: int|
        0 <= k < db.receipts@.len() ==> slip_belongs(
            db,
            #[trigger] db.receipts@[k],
            order_id,
            stage,
        )
}

pub(crate) fn slips_belong(db: &Store, order_id: i64, stage: Stage) -> (result: bool)
    ensures
        result == every_slip_belongs(*db, order_id, stage),
{
    let mut k: usize = 0;
    while k < db.receipts.len()
        invariant
            k <= db.receipts.len(),
            forall|n: int|
                0 <= n < k ==> slip_belongs(*db, #[trigger] db.receipts@[n], order_id, stage),
        decreases db.receipts.len() - k,
    {
        let receipt: &Receipt = &db.receipts[k];
        if receipt.order_id == Some(order_id) && receipt.kind == Kind::Issue && receipt.status
            != Status::Void {
            let fits: bool = match receipt.destination {
                Some(destination) => routes_to(db, order_id, destination.as_str()),
                None => false,
            };
            if !fits || (stage == Stage::Resolved && !stage.is_reached(receipt.status)) {
                assert(!slip_belongs(*db, db.receipts@[k as int], order_id, stage));
                return false;
            }
        }
        k = k + 1;
    }
    true
}

/// Whether the slips of an order are exactly the ones it needs, and got that
/// far.
pub open spec fn slips_match(db: Store, order_id: i64, stage: Stage) -> bool {
    &&& has_parts(db, order_id)
    &&& every_route_has_a_slip(db, order_id, stage)
    &&& every_slip_belongs(db, order_id, stage)
}

/// Whether the slips of an order are exactly the ones it needs, and got that
/// far.
pub(crate) fn slips_are_right(db: &Store, order_id: i64, stage: Stage) -> (result: bool)
    ensures
        result == slips_match(*db, order_id, stage),
{
    any_part(db, order_id) && routes_have_slips(db, order_id, stage) && slips_belong(
        db,
        order_id,
        stage,
    )
}

// ---------------------------------------------------------------------------
// Creating
// ---------------------------------------------------------------------------

/// A slip of that order for that destination that was not voided.
pub open spec fn live_slip(order_id: i64, destination: Destination) -> spec_fn(Receipt) -> bool {
    |r: Receipt|
        r.order_id == Some(order_id) && r.destination == Some(destination) && r.status
            != Status::Void
}

/// Whether an order can be issued: a non-empty draft on an open tab and shift,
/// rung by an active cashier.
pub open spec fn issuable(db: Store, order_id: i64) -> Option<Order> {
    match row(db.orders@, order_id) {
        None => None,
        Some(order) => if person(db, order.waiter_id) is Some && order.status
            == orders::Status::Draft && (person(db, order.cashier_id) matches Some(cashier)
            && is_active_cashier(cashier)) && (tab(db, order.tab_id) matches Some(found)
            && found.status == tabs::Status::Open) && (shift(db, order.shift_id) matches Some(night)
            && night.status == shifts::Status::Open) && any(db.order_lines@, line_of(order_id)) {
            Some(order)
        } else {
            None
        },
    }
}

fn issuable_order(db: &Store, order_id: i64) -> (result: Option<Order>)
    ensures
        result == issuable(*db, order_id),
{
    match find_row(&db.orders, order_id) {
        None => None,
        Some(order) => {
            let waiter: bool = staff::find(db, order.waiter_id).is_ok();
            let cashier: bool = match staff::find(db, order.cashier_id) {
                Ok(found) => found.active && found.role == staff::Role::Cashier,
                Err(_) => false,
            };
            let open_tab: bool = match tabs::find(db, order.tab_id) {
                Ok(found) => found.status == tabs::Status::Open,
                Err(_) => false,
            };
            let open_shift: bool = match shifts::find(db, order.shift_id) {
                Ok(found) => found.status == shifts::Status::Open,
                Err(_) => false,
            };
            if waiter && order.status == orders::Status::Draft && cashier && open_tab && open_shift
                && has_lines(db, order_id) {
                Some(order)
            } else {
                None
            }
        },
    }
}

/// Why the slip of an order for a destination cannot be made after `nth` others
/// that are made with it; nothing, where it can.
pub open spec fn slip_refusal(
    db: Store,
    order_id: i64,
    destination: Destination,
    nth: int,
) -> Option<Why> {
    if any(db.receipts@, live_slip(order_id, destination)) {
        Some(Why::Refused("that order already has a live receipt for this destination"@))
    } else if !routed(db, order_id, destination.word()) {
        Some(Why::Refused("that order has nothing routed to this receipt destination"@))
    } else if issuable(db, order_id) is None {
        Some(
            Why::Refused(
                "an issue receipt needs a non-empty draft on an open tab and shift, rung by an active cashier"@,
            ),
        )
    } else if !room_for(db.receipts@, nth + 1) {
        Some(Why::Sqlite(SqlWhy::Full))
    } else if db.sequences.upcoming(Counter::IssueReceipt) + nth >= i64::MAX {
        Some(Why::Sqlite(SqlWhy::Overflow))
    } else {
        None
    }
}

/// Looks for what is wrong with making a slip.
pub(crate) fn check_slip(db: &Store, order_id: i64, destination: Destination, nth: usize) -> (result:
    Result<Order, RepoError>)
    requires
        nth <= 1,
    ensures
        match slip_refusal(*db, order_id, destination, nth as int) {
            None => result matches Ok(order) && issuable(*db, order_id) == Some(order),
            Some(why) => result matches Err(error) && error@ == why,
        },
{
    if any_row(
        &db.receipts,
        |r: &Receipt| -> (b: bool)
            ensures
                b == (r.order_id == Some(order_id) && r.destination == Some(destination) && r.status
                    != Status::Void)
            {
                r.order_id == Some(order_id) && r.destination == Some(destination) && r.status
                    != Status::Void
            },
        Ghost(live_slip(order_id, destination)),
    ) {
        return refuse("that order already has a live receipt for this destination");
    }
    if !routes_to(db, order_id, destination.as_str()) {
        return refuse("that order has nothing routed to this receipt destination");
    }
    let order: Order = match issuable_order(db, order_id) {
        Some(order) => order,
        None => {
            return refuse(
                "an issue receipt needs a non-empty draft on an open tab and shift, rung by an active cashier",
            );
        },
    };
    if !has_room(&db.receipts, nth + 1) {
        return Err(RepoError::Sqlite(SqlError::Full));
    }
    let upcoming: i64 = db.sequences.peek(Counter::IssueReceipt);
    if upcoming as i128 + nth as i128 >= i64::MAX as i128 {
        return Err(RepoError::Sqlite(SqlError::Overflow));
    }
    Ok(order)
}

/// Why an issue receipt cannot be created; nothing, where it can.
pub open spec fn create_issue_refusal(
    db: Store,
    order_id: i64,
    destination: Destination,
) -> Option<Why> {
    slip_refusal(db, order_id, destination, 0)
}

/// Whether a receipt is the issue receipt of an order for a destination.
pub open spec fn issued_for(
    receipt: Receipt,
    db: Store,
    order_id: i64,
    destination: Destination,
    created_at: i64,
) -> bool {
    let number = db.sequences.upcoming(Counter::IssueReceipt);
    &&& fresh_id(db.receipts@) == Some(receipt.id)
    &&& receipt.kind == Kind::Issue
    &&& receipt.sequence_no == number
    &&& receipt.receipt_number@ == printed(Counter::IssueReceipt, number)
    &&& receipt.order_id == Some(order_id)
    &&& receipt.tab_id is None
    &&& receipt.destination == Some(destination)
    &&& receipt.status == Status::Pending
    &&& receipt.rendered_text is None
    &&& issuable(db, order_id) matches Some(order) && ({
        &&& person(db, order.waiter_id) matches Some(waiter) && receipt.waiter_name == waiter.name
        &&& receipt.shift_id == order.shift_id
    })
    &&& receipt.cashier_name is None
    &&& receipt.customer_tin is None
    &&& receipt.subtotal is None
    &&& receipt.service_charge is None
    &&& receipt.tax is None
    &&& receipt.total is None
    &&& receipt.tax_rate is None
    &&& receipt.service_rate is None
    &&& receipt.tax_inclusive is None
    &&& !receipt.is_comped
    &&& receipt.created_at == created_at
    &&& receipt.printed_at is None
}

/// Whether a store is another with that slip waiting to be printed.
pub open spec fn slip_created(
    before: Store,
    after: Store,
    order_id: i64,
    destination: Destination,
    created_at: i64,
    receipt: Receipt,
) -> bool {
    &&& issued_for(receipt, before, order_id, destination, created_at)
    &&& after.receipts@ == before.receipts@.push(receipt)
    &&& after == (Store {
        receipts: after.receipts,
        sequences: before.sequences.after(Counter::IssueReceipt),
        ..before
    })
}

/// Take a BR number and consume it with the issue receipt. A refusal takes
/// none.
pub fn create_issue(
    db: &mut Store,
    order_id: i64,
    destination: Destination,
    created_at: i64,
) -> (result: Result<Receipt, RepoError>)
    ensures
        ledgers_kept(*old(db), *final(db)),
        match result {
            Ok(receipt) => {
                &&& create_issue_refusal(*old(db), order_id, destination) is None
                &&& slip_created(*old(db), *final(db), order_id, destination, created_at, receipt)
            },
            Err(error) => {
                &&& *final(db) == *old(db)
                &&& create_issue_refusal(*old(db), order_id, destination) == Some(error@)
            },
        },
{
    let order: Order = match check_slip(db, order_id, destination, 0) {
        Ok(order) => order,
        Err(error) => {
            return Err(error);
        },
    };
    let waiter_name: String = match staff::find(db, order.waiter_id) {
        Ok(waiter) => waiter.name,
        Err(error) => {
            return Err(error);
        },
    };
    let id: i64 = match next_id(&db.receipts) {
        Some(id) => id,
        None => {
            return Err(RepoError::Sqlite(SqlError::Full));
        },
    };
    let (sequence_no, receipt_number): (i64, String) = match crate::repo::seq::next(
        db,
        Counter::IssueReceipt,
    ) {
        Ok(taken) => taken,
        Err(error) => {
            return Err(error);
        },
    };
    let receipt: Receipt = Receipt {
        id,
        kind: Kind::Issue,
        sequence_no,
        receipt_number,
        order_id: Some(order_id),
        tab_id: None,
        destination: Some(destination),
        status: Status::Pending,
        rendered_text: None,
        waiter_name,
        cashier_name: None,
        customer_tin: None,
        subtotal: None,
        service_charge: None,
        tax: None,
        total: None,
        tax_rate: None,
        service_rate: None,
        tax_inclusive: None,
        is_comped: false,
        shift_id: order.shift_id,
        created_at,
        printed_at: None,
    };
    db.receipts.push(receipt.clone());
    Ok(receipt)
}

pub open spec fn payment_of(tab_id: i64) -> spec_fn(TabPayment) -> bool {
    |p: TabPayment| p.tab_id == tab_id
}

/// What a customer receipt copies: the frozen bill of a closed tab, and the
/// names on it.
pub struct CustomerFacts {
    pub payment: TabPayment,
    pub waiter_name: String,
    pub cashier_name: String,
    pub customer_tin: Option<String>,
}

/// What a customer receipt for that tab copies, if the tab is closed with a
/// frozen bill.
pub open spec fn customer_facts(db: Store, tab_id: i64) -> Option<CustomerFacts> {
    match first_chosen(db.payments@, payment_of(tab_id)) {
        None => None,
        Some(payment) => match (tab(db, tab_id), person(db, payment.waiter_id)) {
            (Some(found), Some(waiter)) => if found.status == tabs::Status::Open {
                None
            } else {
                match found.closed_by {
                    None => None,
                    Some(closed_by) => match person(db, closed_by) {
                        None => None,
                        Some(closer) => Some(
                            CustomerFacts {
                                payment,
                                waiter_name: waiter.name,
                                cashier_name: closer.name,
                                customer_tin: found.customer_tin,
                            },
                        ),
                    },
                }
            },
            _ => None,
        },
    }
}

pub(crate) fn first_payment(db: &Store, tab_id: i64) -> (result: Option<TabPayment>)
    ensures
        result == first_chosen(db.payments@, payment_of(tab_id)),
{
    let found: Vec<TabPayment> = choose_rows(
        &db.payments,
        |p: &TabPayment| -> (b: bool)
            ensures
                b == (p.tab_id == tab_id)
            { p.tab_id == tab_id },
        Ghost(payment_of(tab_id)),
    );
    if found.len() > 0 {
        Some(found[0].clone())
    } else {
        None
    }
}

fn snapshot(db: &Store, tab_id: i64) -> (result: Option<CustomerFacts>)
    ensures
        result == customer_facts(*db, tab_id),
{
    let payment: TabPayment = match first_payment(db, tab_id) {
        Some(payment) => payment,
        None => {
            return None;
        },
    };
    match (tabs::find(db, tab_id), staff::find(db, payment.waiter_id)) {
        (Ok(found), Ok(waiter)) => {
            if found.status == tabs::Status::Open {
                return None;
            }
            match found.closed_by {
                None => None,
                Some(closed_by) => match staff::find(db, closed_by) {
                    Err(_) => None,
                    Ok(closer) => Some(
                        CustomerFacts {
                            payment,
                            waiter_name: waiter.name,
                            cashier_name: closer.name,
                            customer_tin: found.customer_tin,
                        },
                    ),
                },
            }
        },
        _ => None,
    }
}

pub open spec fn is_trading() -> spec_fn(Shift) -> bool {
    |s: Shift| s.status == shifts::Status::Open
}

/// Whether a bill carries charges whose rates nobody knows.
pub open spec fn rates_unknown(payment: TabPayment) -> bool {
    !payment.charge_rates_known && (payment.service_charge.minor != 0 || payment.tax.minor != 0)
}

/// Why a customer receipt cannot be created; nothing, where it can.
pub open spec fn create_customer_refusal(db: Store, tab_id: i64, cashier_id: i64) -> Option<Why> {
    match till_refusal(db, cashier_id) {
        Some(why) => Some(why),
        None => if !any(db.shifts@, is_trading()) {
            Some(
                Why::Refused("a customer receipt can only be created while a shift is open"@),
            )
        } else if any(db.receipts@, of_tab(tab_id)) {
            Some(Why::Refused("that tab already has its customer receipt"@))
        } else {
            match customer_facts(db, tab_id) {
                None => Some(
                    Why::Refused("a customer receipt needs a closed tab with a frozen bill"@),
                ),
                Some(facts) => if rates_unknown(facts.payment) {
                    Some(
                        Why::Refused(
                            "this imported bill has charges with unknown rates and needs manual review"@,
                        ),
                    )
                } else if fresh_id(db.receipts@) is None {
                    Some(Why::Sqlite(SqlWhy::Full))
                } else if !db.sequences.has_next(Counter::CustomerReceipt) {
                    Some(Why::Sqlite(SqlWhy::Overflow))
                } else {
                    None
                },
            }
        },
    }
}

/// Whether a receipt is the customer receipt of a tab: the frozen bill, copied
/// and never recalculated.
pub open spec fn billed_for(receipt: Receipt, db: Store, tab_id: i64, created_at: i64) -> bool {
    let number = db.sequences.upcoming(Counter::CustomerReceipt);
    &&& fresh_id(db.receipts@) == Some(receipt.id)
    &&& receipt.kind == Kind::Customer
    &&& receipt.sequence_no == number
    &&& receipt.receipt_number@ == printed(Counter::CustomerReceipt, number)
    &&& receipt.order_id is None
    &&& receipt.tab_id == Some(tab_id)
    &&& receipt.destination is None
    &&& receipt.status == Status::Pending
    &&& receipt.rendered_text is None
    &&& customer_facts(db, tab_id) matches Some(facts) && ({
        &&& receipt.waiter_name == facts.waiter_name
        &&& receipt.cashier_name == Some(facts.cashier_name)
        &&& receipt.customer_tin == facts.customer_tin
        &&& receipt.subtotal == Some(facts.payment.subtotal)
        &&& receipt.service_charge == Some(facts.payment.service_charge)
        &&& receipt.tax == Some(facts.payment.tax)
        &&& receipt.total == Some(facts.payment.total)
        &&& receipt.tax_rate == Some(facts.payment.tax_rate)
        &&& receipt.service_rate == Some(facts.payment.service_rate)
        &&& receipt.tax_inclusive == Some(facts.payment.tax_inclusive)
        &&& receipt.is_comped == facts.payment.is_comped
        &&& receipt.shift_id == facts.payment.shift_id
    })
    &&& receipt.created_at == created_at
    &&& receipt.printed_at is None
}

/// Whether a store is another with the customer receipt of a tab.
pub open spec fn customer_receipt_created(
    before: Store,
    after: Store,
    tab_id: i64,
    created_at: i64,
    receipt: Receipt,
) -> bool {
    &&& billed_for(receipt, before, tab_id, created_at)
    &&& after.receipts@ == before.receipts@.push(receipt)
    &&& after == (Store {
        receipts: after.receipts,
        sequences: before.sequences.after(Counter::CustomerReceipt),
        ..before
    })
}

/// Take a CR number and copy the frozen bill of the tab. Money and rates come
/// only from the bill, and the name on the receipt is the cashier who closed
/// the tab.
pub fn create_customer(db: &mut Store, tab_id: i64, cashier_id: i64, created_at: i64) -> (result:
    Result<Receipt, RepoError>)
    ensures
        ledgers_kept(*old(db), *final(db)),
        match result {
            Ok(receipt) => {
                &&& create_customer_refusal(*old(db), tab_id, cashier_id) is None
                &&& customer_receipt_created(*old(db), *final(db), tab_id, created_at, receipt)
            },
            Err(error) => {
                &&& *final(db) == *old(db)
                &&& create_customer_refusal(*old(db), tab_id, cashier_id) == Some(error@)
            },
        },
{
    match require_active_cashier(db, cashier_id) {
        Ok(_) => {},
        Err(error) => {
            return Err(error);
        },
    }
    if !any_row(
        &db.shifts,
        |s: &Shift| -> (b: bool)
            ensures
                b == (s.status == shifts::Status::Open)
            { s.status == shifts::Status::Open },
        Ghost(is_trading()),
    ) {
        return refuse("a customer receipt can only be created while a shift is open");
    }
    if any_row(
        &db.receipts,
        |r: &Receipt| -> (b: bool)
            ensures
                b == (r.tab_id == Some(tab_id))
            { r.tab_id == Some(tab_id) },
        Ghost(of_tab(tab_id)),
    ) {
        return refuse("that tab already has its customer receipt");
    }
    let facts: CustomerFacts = match snapshot(db, tab_id) {
        Some(facts) => facts,
        None => {
            return refuse("a customer receipt needs a closed tab with a frozen bill");
        },
    };
    if !facts.payment.charge_rates_known && (!facts.payment.service_charge.is_zero()
        || !facts.payment.tax.is_zero()) {
        return refuse(
            "this imported bill has charges with unknown rates and needs manual review",
        );
    }
    let id: i64 = match next_id(&db.receipts) {
        Some(id) => id,
        None => {
            return Err(RepoError::Sqlite(SqlError::Full));
        },
    };
    let (sequence_no, receipt_number): (i64, String) = match crate::repo::seq::next(
        db,
        Counter::CustomerReceipt,
    ) {
        Ok(taken) => taken,
        Err(error) => {
            return Err(error);
        },
    };
    let receipt: Receipt = Receipt {
        id,
        kind: Kind::Customer,
        sequence_no,
        receipt_number,
        order_id: None,
        tab_id: Some(tab_id),
        destination: None,
        status: Status::Pending,
        rendered_text: None,
        waiter_name: facts.waiter_name,
        cashier_name: Some(facts.cashier_name),
        customer_tin: facts.customer_tin,
        subtotal: Some(facts.payment.subtotal),
        service_charge: Some(facts.payment.service_charge),
        tax: Some(facts.payment.tax),
        total: Some(facts.payment.total),
        tax_rate: Some(facts.payment.tax_rate),
        service_rate: Some(facts.payment.service_rate),
        tax_inclusive: Some(facts.payment.tax_inclusive),
        is_comped: facts.payment.is_comped,
        shift_id: facts.payment.shift_id,
        created_at,
        printed_at: None,
    };
    db.receipts.push(receipt.clone());
    Ok(receipt)
}

// ---------------------------------------------------------------------------
// Text and outcome
// ---------------------------------------------------------------------------

/// Why the text of a receipt cannot be frozen; nothing, where it can.
pub open spec fn freeze_refusal(db: Store, receipt_id: i64, text: Seq<char>) -> Option<Why> {
    if is_blank(text) {
        Some(Why::Refused("a receipt cannot freeze empty rendered text"@))
    } else {
        match row(db.receipts@, receipt_id) {
            None => Some(Why::Missing("receipt"@)),
            Some(receipt) => if receipt.status != Status::Pending {
                Some(Why::Refused("receipt text can only be frozen while printing is pending"@))
            } else if receipt.rendered_text is Some && receipt.rendered_text->0@ != text {
                Some(Why::Refused("receipt text was already frozen to different bytes"@))
            } else {
                None
            },
        }
    }
}

/// A receipt with its text frozen.
pub open spec fn with_text(before: Receipt, after: Receipt, text: Seq<char>) -> bool {
    &&& after == (Receipt { rendered_text: after.rendered_text, ..before })
    &&& chars_in(after.rendered_text) == Some(text)
}

/// Whether a store is another with the text of one receipt frozen.
pub open spec fn text_frozen(
    before: Store,
    after: Store,
    receipt_id: i64,
    text: Seq<char>,
) -> bool {
    &&& place(before.receipts@, receipt_id) matches Some(p) && ({
        &&& after.receipts@ == before.receipts@.update(p, after.receipts@[p])
        &&& with_text(before.receipts@[p], after.receipts@[p], text)
        &&& before.receipts@[p].rendered_text is Some ==> after == before
    })
    &&& after == (Store { receipts: after.receipts, ..before })
}

/// Freeze the exact text before any device I/O. Repeating the identical text
/// changes nothing; changing it is refused.
pub fn freeze_rendered_text(db: &mut Store, receipt_id: i64, rendered_text: &str) -> (result:
    Result<(), RepoError>)
    ensures
        ledgers_kept(*old(db), *final(db)),
        match result {
            Ok(_) => {
                &&& freeze_refusal(*old(db), receipt_id, rendered_text@) is None
                &&& text_frozen(*old(db), *final(db), receipt_id, rendered_text@)
            },
            Err(error) => {
                &&& *final(db) == *old(db)
                &&& freeze_refusal(*old(db), receipt_id, rendered_text@) == Some(error@)
            },
        },
{
    if rendered_text.trim().is_empty() {
        return refuse("a receipt cannot freeze empty rendered text");
    }
    let p: usize = match find_place(&db.receipts, receipt_id) {
        Some(p) => p,
        None => {
            return Err(RepoError::Missing { what: "receipt" });
        },
    };
    if db.receipts[p].status != Status::Pending {
        return refuse("receipt text can only be frozen while printing is pending");
    }
    let frozen: Option<bool> = match &db.receipts[p].rendered_text {
        Some(text) => Some(same(text.as_str(), rendered_text)),
        None => None,
    };
    match frozen {
        Some(true) => {
            assert(old(db).receipts@.update(p as int, old(db).receipts@[p as int])
                =~= old(db).receipts@);
            Ok(())
        },
        Some(false) => refuse("receipt text was already frozen to different bytes"),
        None => {
            let mut changed: Receipt = db.receipts[p].clone();
            changed.rendered_text = Some(rendered_text.to_owned());
            db.receipts.set(p, changed);
            Ok(())
        },
    }
}

#[derive(Clone, Copy, Debug, PartialEq, Eq, Structural)]
pub enum Outcome {
    Unknown,
    Success,
    Failed,
}

impl Outcome {
    /// The word it is stored under.
    pub open spec fn word(self) -> Seq<char> {
        match self {
            Outcome::Unknown => "UNKNOWN"@,
            Outcome::Success => "SUCCESS"@,
            Outcome::Failed => "FAILED"@,
        }
    }

    /// The word it is stored under.
    pub fn as_str(self) -> (result: &'static str)
        ensures
            result@ == self.word(),
    {
        match self {
            Outcome::Unknown => "UNKNOWN",
            Outcome::Success => "SUCCESS",
            Outcome::Failed => "FAILED",
        }
    }

    /// What a stored word stands for.
    pub open spec fn of_word(text: Seq<char>) -> Option<Outcome> {
        if text == "UNKNOWN"@ {
            Some(Outcome::Unknown)
        } else if text == "SUCCESS"@ {
            Some(Outcome::Success)
        } else if text == "FAILED"@ {
            Some(Outcome::Failed)
        } else {
            None
        }
    }

    fn read_word(text: &str) -> (result: Option<Outcome>)
        ensures
            result == Self::of_word(text@),
    {
        if same(text, "UNKNOWN") {
            Some(Outcome::Unknown)
        } else if same(text, "SUCCESS") {
            Some(Outcome::Success)
        } else if same(text, "FAILED") {
            Some(Outcome::Failed)
        } else {
            None
        }
    }

    /// A word that was stored reads back as what it stood for.
    pub proof fn a_stored_word_reads_back(self)
        ensures
            Self::of_word(self.word()) == Some(self),
    {
        reveal_strlit("UNKNOWN");
        reveal_strlit("SUCCESS");
        reveal_strlit("FAILED");
        assert("SUCCESS"@[0] != "UNKNOWN"@[0]);
        assert("FAILED"@.len() != "UNKNOWN"@.len());
        assert("FAILED"@.len() != "SUCCESS"@.len());
    }
}

impl Outcome {
    /// Reads a stored outcome.
    pub fn parse(text: &str) -> (result: Result<Outcome, SqlError>)
        ensures
            match Outcome::of_word(text@) {
                Some(outcome) => result == Ok::<Outcome, SqlError>(outcome),
                None => result matches Err(error) && error@ == unknown_word(
                    3,
                    "print outcome"@,
                    text@,
                ),
            },
    {
        match Outcome::read_word(text) {
            Some(outcome) => Ok(outcome),
            None => Err(invalid_text(3, "print outcome", text)),
        }
    }
}

/// What came of an attempt, once somebody knows.
#[derive(Clone, Copy, Debug, PartialEq, Eq, Structural)]
pub enum FinalOutcome {
    Success,
    Failed,
}

impl FinalOutcome {
    pub open spec fn outcome(self) -> Outcome {
        match self {
            FinalOutcome::Success => Outcome::Success,
            FinalOutcome::Failed => Outcome::Failed,
        }
    }

    fn as_outcome(self) -> (result: Outcome)
        ensures
            result == self.outcome(),
    {
        match self {
            FinalOutcome::Success => Outcome::Success,
            FinalOutcome::Failed => Outcome::Failed,
        }
    }
}

/// One attempt to print a receipt.
#[derive(Debug, PartialEq, Eq)]
pub struct Attempt {
    pub id: i64,
    pub receipt_id: i64,
    pub print_no: i64,
    pub outcome: Outcome,
    pub reason: String,
    pub shift_id: i64,
    pub created_by: i64,
    pub created_at: i64,
}

impl Clone for Attempt {
    fn clone(&self) -> (result: Self)
        ensures
            result == *self,
    {
        Attempt {
            id: self.id,
            receipt_id: self.receipt_id,
            print_no: self.print_no,
            outcome: self.outcome,
            reason: self.reason.clone(),
            shift_id: self.shift_id,
            created_by: self.created_by,
            created_at: self.created_at,
        }
    }
}

impl Row for Attempt {
    open spec fn key(&self) -> i64 {
        self.id
    }

    fn id(&self) -> (result: i64) {
        self.id
    }

    fn copy_row(&self) -> (result: Self) {
        self.clone()
    }
}

pub open spec fn of_receipt(receipt_id: i64) -> spec_fn(Attempt) -> bool {
    |a: Attempt| a.receipt_id == receipt_id
}

pub open spec fn tried_before() -> spec_fn(Attempt, Attempt) -> bool {
    |a: Attempt, b: Attempt| a.print_no < b.print_no
}

/// Every attempt to print a receipt, in order.
pub open spec fn attempts_of(db: Store, receipt_id: i64) -> Seq<Attempt> {
    in_order(chosen(db.prints@, of_receipt(receipt_id)), tried_before())
}

pub fn attempts(db: &Store, receipt_id: i64) -> (result: Vec<Attempt>)
    ensures
        result@ == attempts_of(*db, receipt_id),
{
    let found: Vec<Attempt> = choose_rows(
        &db.prints,
        |a: &Attempt| -> (b: bool)
            ensures
                b == (a.receipt_id == receipt_id)
            { a.receipt_id == receipt_id },
        Ghost(of_receipt(receipt_id)),
    );
    sort_rows(
        &found,
        |a: &Attempt, b: &Attempt| -> (r: bool)
            ensures
                r == (a.print_no < b.print_no)
            { a.print_no < b.print_no },
        Ghost(tried_before()),
    )
}

pub open spec fn attempted_before() -> spec_fn(Attempt, Attempt) -> bool {
    |a: Attempt, b: Attempt|
        a.created_at < b.created_at || (a.created_at == b.created_at && a.id < b.id)
}

/// Every attempt that nobody has answered, the oldest first.
pub open spec fn unanswered_attempts(db: Store) -> Seq<Attempt> {
    in_order(chosen(db.prints@, is_unanswered()), attempted_before())
}

/// Attempts that must be answered before reprinting or shift close.
pub fn unresolved_attempts(db: &Store) -> (result: Vec<Attempt>)
    ensures
        result@ == unanswered_attempts(*db),
{
    let found: Vec<Attempt> = choose_rows(
        &db.prints,
        |a: &Attempt| -> (b: bool)
            ensures
                b == (a.outcome == Outcome::Unknown)
            { a.outcome == Outcome::Unknown },
        Ghost(is_unanswered()),
    );
    sort_rows(
        &found,
        |a: &Attempt, b: &Attempt| -> (r: bool)
            ensures
                r == (a.created_at < b.created_at || (a.created_at == b.created_at && a.id < b.id))
            { a.created_at < b.created_at || (a.created_at == b.created_at && a.id < b.id) },
        Ghost(attempted_before()),
    )
}

pub open spec fn unanswered_of(receipt_id: i64) -> spec_fn(Attempt) -> bool {
    |a: Attempt| a.receipt_id == receipt_id && a.outcome == Outcome::Unknown
}

fn has_unanswered(db: &Store, receipt_id: i64) -> (result: bool)
    ensures
        result == any(db.prints@, unanswered_of(receipt_id)),
{
    any_row(
        &db.prints,
        |a: &Attempt| -> (b: bool)
            ensures
                b == (a.receipt_id == receipt_id && a.outcome == Outcome::Unknown)
            { a.receipt_id == receipt_id && a.outcome == Outcome::Unknown },
        Ghost(unanswered_of(receipt_id)),
    )
}

/// What came of the last attempt to print a receipt.
pub open spec fn last_outcome(db: Store, receipt_id: i64) -> Option<Outcome> {
    let tried = attempts_of(db, receipt_id);
    if tried.len() > 0 {
        Some(tried.last().outcome)
    } else {
        None
    }
}

fn latest_outcome(db: &Store, receipt_id: i64) -> (result: Option<Outcome>)
    ensures
        result == last_outcome(*db, receipt_id),
{
    let tried: Vec<Attempt> = attempts(db, receipt_id);
    if tried.len() > 0 {
        Some(tried[tried.len() - 1].outcome)
    } else {
        None
    }
}

/// Whether the last attempt is known to have come out that way.
pub open spec fn came_out(db: Store, receipt: Receipt, outcome: Outcome) -> bool {
    &&& receipt.rendered_text is Some
    &&& !any(db.prints@, unanswered_of(receipt.id))
    &&& last_outcome(db, receipt.id) == Some(outcome)
}

/// Why a receipt cannot move on: it is not there, or a sentence with the
/// status it has.
pub open spec fn stuck(db: Store, receipt_id: i64, moves: bool, message: Seq<char>) -> Option<Why> {
    match row(db.receipts@, receipt_id) {
        None => Some(Why::Missing("receipt"@)),
        Some(receipt) => if moves {
            None
        } else {
            Some(Why::Refused(message + "; the receipt is "@ + receipt.status.spoken()))
        },
    }
}

fn expect_receipt_change(status: Status, message: &str) -> (result: RepoError)
    ensures
        result@ == Why::Refused(message@ + "; the receipt is "@ + status.spoken()),
{
    super::refused(join3(message, "; the receipt is ", status.in_words()).as_str())
}

/// Why a receipt cannot be resolved as printed; nothing, where it can.
pub open spec fn mark_printed_refusal(db: Store, receipt_id: i64) -> Option<Why> {
    stuck(
        db,
        receipt_id,
        row(db.receipts@, receipt_id) matches Some(receipt) && (receipt.status == Status::Pending
            || receipt.status == Status::Failed) && came_out(db, receipt, Outcome::Success),
        "printing requires frozen text and a successful final attempt"@,
    )
}

/// Whether a store is another with one receipt printed.
pub open spec fn receipt_printed(
    before: Store,
    after: Store,
    receipt_id: i64,
    printed_at: i64,
) -> bool {
    &&& place(before.receipts@, receipt_id) matches Some(p) && after.receipts@
        == before.receipts@.update(
        p,
        Receipt {
            status: Status::Printed,
            printed_at: Some(printed_at),
            ..before.receipts@[p]
        },
    )
    &&& after == (Store { receipts: after.receipts, ..before })
}

/// Resolve a receipt after a successful attempt. The most recent attempt must
/// have succeeded and the text must already be frozen.
pub fn mark_printed(db: &mut Store, receipt_id: i64, printed_at: i64) -> (result: Result<
    (),
    RepoError,
>)
    ensures
        ledgers_kept(*old(db), *final(db)),
        match result {
            Ok(_) => {
                &&& mark_printed_refusal(*old(db), receipt_id) is None
                &&& receipt_printed(*old(db), *final(db), receipt_id, printed_at)
            },
            Err(error) => {
                &&& *final(db) == *old(db)
                &&& mark_printed_refusal(*old(db), receipt_id) == Some(error@)
            },
        },
{
    let p: usize = match find_place(&db.receipts, receipt_id) {
        Some(p) => p,
        None => {
            return Err(RepoError::Missing { what: "receipt" });
        },
    };
    let status: Status = db.receipts[p].status;
    if !((status == Status::Pending || status == Status::Failed)
        && db.receipts[p].rendered_text.is_some() && !has_unanswered(db, receipt_id)
        && latest_outcome(db, receipt_id) == Some(Outcome::Success)) {
        return Err(
            expect_receipt_change(
                status,
                "printing requires frozen text and a successful final attempt",
            ),
        );
    }
    let mut changed: Receipt = db.receipts[p].clone();
    changed.status = Status::Printed;
    changed.printed_at = Some(printed_at);
    db.receipts.set(p, changed);
    Ok(())
}

/// Why a receipt cannot be resolved as failed; nothing, where it can.
pub open spec fn mark_failed_refusal(db: Store, receipt_id: i64) -> Option<Why> {
    stuck(
        db,
        receipt_id,
        row(db.receipts@, receipt_id) matches Some(receipt) && receipt.status == Status::Pending
            && came_out(db, receipt, Outcome::Failed),
        "failure requires frozen text and a failed final attempt"@,
    )
}

/// Whether a store is another with one receipt that did not print.
pub open spec fn receipt_failed(
    before: Store,
    after: Store,
    receipt_id: i64,
) -> bool {
    &&& place(before.receipts@, receipt_id) matches Some(p) && after.receipts@
        == before.receipts@.update(
        p,
        Receipt { status: Status::Failed, ..before.receipts@[p] },
    )
    &&& after == (Store { receipts: after.receipts, ..before })
}

/// Keep a failed or handwritten outcome after a failed attempt is recorded.
pub fn mark_failed(db: &mut Store, receipt_id: i64) -> (result: Result<(), RepoError>)
    ensures
        ledgers_kept(*old(db), *final(db)),
        match result {
            Ok(_) => {
                &&& mark_failed_refusal(*old(db), receipt_id) is None
                &&& receipt_failed(*old(db), *final(db), receipt_id)
            },
            Err(error) => {
                &&& *final(db) == *old(db)
                &&& mark_failed_refusal(*old(db), receipt_id) == Some(error@)
            },
        },
{
    let p: usize = match find_place(&db.receipts, receipt_id) {
        Some(p) => p,
        None => {
            return Err(RepoError::Missing { what: "receipt" });
        },
    };
    let status: Status = db.receipts[p].status;
    if !(status == Status::Pending && db.receipts[p].rendered_text.is_some() && !has_unanswered(
        db,
        receipt_id,
    ) && latest_outcome(db, receipt_id) == Some(Outcome::Failed)) {
        return Err(
            expect_receipt_change(
                status,
                "failure requires frozen text and a failed final attempt",
            ),
        );
    }
    let mut changed: Receipt = db.receipts[p].clone();
    changed.status = Status::Failed;
    db.receipts.set(p, changed);
    Ok(())
}

/// Why a receipt cannot be voided; nothing, where it can.
pub open spec fn mark_void_refusal(db: Store, receipt_id: i64) -> Option<Why> {
    stuck(
        db,
        receipt_id,
        row(db.receipts@, receipt_id) matches Some(receipt) && receipt.kind == Kind::Issue
            && receipt.status == Status::Pending && !any(db.prints@, of_receipt(receipt.id)),
        "only an unattempted pending issue receipt can be voided"@,
    )
}

pub(crate) fn was_attempted(db: &Store, receipt_id: i64) -> (result: bool)
    ensures
        result == any(db.prints@, of_receipt(receipt_id)),
{
    any_row(
        &db.prints,
        |a: &Attempt| -> (b: bool)
            ensures
                b == (a.receipt_id == receipt_id)
            { a.receipt_id == receipt_id },
        Ghost(of_receipt(receipt_id)),
    )
}

/// Whether a store is another with one receipt that never will print.
pub open spec fn receipt_voided(
    before: Store,
    after: Store,
    receipt_id: i64,
) -> bool {
    &&& place(before.receipts@, receipt_id) matches Some(p) && after.receipts@
        == before.receipts@.update(
        p,
        Receipt { status: Status::Void, ..before.receipts@[p] },
    )
    &&& after == (Store { receipts: after.receipts, ..before })
}

/// Keep a BR number after a confirmed non-print. Customer numbers and receipts
/// with attempts cannot take this path.
pub fn mark_void(db: &mut Store, receipt_id: i64) -> (result: Result<(), RepoError>)
    ensures
        ledgers_kept(*old(db), *final(db)),
        match result {
            Ok(_) => {
                &&& mark_void_refusal(*old(db), receipt_id) is None
                &&& receipt_voided(*old(db), *final(db), receipt_id)
            },
            Err(error) => {
                &&& *final(db) == *old(db)
                &&& mark_void_refusal(*old(db), receipt_id) == Some(error@)
            },
        },
{
    let p: usize = match find_place(&db.receipts, receipt_id) {
        Some(p) => p,
        None => {
            return Err(RepoError::Missing { what: "receipt" });
        },
    };
    let status: Status = db.receipts[p].status;
    if !(db.receipts[p].kind == Kind::Issue && status == Status::Pending && !was_attempted(
        db,
        receipt_id,
    )) {
        return Err(
            expect_receipt_change(
                status,
                "only an unattempted pending issue receipt can be voided",
            ),
        );
    }
    let mut changed: Receipt = db.receipts[p].clone();
    changed.status = Status::Void;
    db.receipts.set(p, changed);
    Ok(())
}

// ---------------------------------------------------------------------------
// Attempts
// ---------------------------------------------------------------------------

/// What keeps an attempt out of a shift; nothing, where it belongs there.
pub open spec fn shift_refusal(db: Store, shift_id: i64) -> Option<Why> {
    match shift(db, shift_id) {
        None => Some(Why::Missing("shift"@)),
        Some(night) => if night.status == shifts::Status::Open {
            None
        } else {
            Some(Why::Refused("print attempts belong to the shift that is currently open"@))
        },
    }
}

fn require_open_shift(db: &Store, shift_id: i64) -> (result: Result<(), RepoError>)
    ensures
        match shift_refusal(*db, shift_id) {
            None => result is Ok,
            Some(why) => result matches Err(error) && error@ == why,
        },
{
    match shifts::find(db, shift_id) {
        Ok(night) => {
            if night.status != shifts::Status::Open {
                return refuse("print attempts belong to the shift that is currently open");
            }
            Ok(())
        },
        Err(error) => Err(error),
    }
}

/// Whether a receipt is an issue slip whose text is frozen, which waits in
/// that shift, and which nobody has tried to print.
pub open spec fn first_try(db: Store, receipt_id: i64, shift_id: i64) -> bool {
    row(db.receipts@, receipt_id) matches Some(receipt) && receipt.kind == Kind::Issue
        && receipt.status == Status::Pending && receipt.rendered_text is Some && receipt.shift_id
        == shift_id && !any(db.prints@, of_receipt(receipt_id))
}

/// What is wrong with recording a first issue attempt; nothing, where it can be
/// written down.
pub open spec fn first_attempt_objection(
    db: Store,
    receipt_id: i64,
    outcome: FinalOutcome,
    reason: Seq<char>,
    shift_id: i64,
    created_by: i64,
) -> Option<Why> {
    match till_refusal(db, created_by) {
        Some(why) => Some(why),
        None => match shift_refusal(db, shift_id) {
            Some(why) => Some(why),
            None => if outcome == FinalOutcome::Failed && is_blank(reason) {
                Some(Why::Refused("a failed issue attempt needs a reason"@))
            } else if !first_try(db, receipt_id, shift_id) {
                Some(
                    Why::Refused("only the first pending issue attempt uses this outcome path"@),
                )
            } else {
                None
            },
        },
    }
}

/// Looks for what is wrong with recording a first issue attempt.
fn check_first_attempt(
    db: &Store,
    receipt_id: i64,
    outcome: FinalOutcome,
    reason: &str,
    shift_id: i64,
    created_by: i64,
) -> (result: Result<(), RepoError>)
    ensures
        match first_attempt_objection(*db, receipt_id, outcome, reason@, shift_id, created_by) {
            None => result is Ok,
            Some(why) => result matches Err(error) && error@ == why,
        },
{
    match require_active_cashier(db, created_by) {
        Ok(_) => {},
        Err(error) => {
            return Err(error);
        },
    }
    match require_open_shift(db, shift_id) {
        Ok(_) => {},
        Err(error) => {
            return Err(error);
        },
    }
    if outcome == FinalOutcome::Failed && reason.trim().is_empty() {
        return refuse("a failed issue attempt needs a reason");
    }
    let ready: bool = match find_place(&db.receipts, receipt_id) {
        Some(p) => db.receipts[p].kind == Kind::Issue && db.receipts[p].status == Status::Pending
            && db.receipts[p].rendered_text.is_some() && db.receipts[p].shift_id == shift_id
            && !was_attempted(db, receipt_id),
        None => false,
    };
    if !ready {
        return refuse("only the first pending issue attempt uses this outcome path");
    }
    Ok(())
}

/// Why a first issue attempt cannot be recorded; nothing, where it can.
pub open spec fn first_attempt_refusal(
    db: Store,
    receipt_id: i64,
    outcome: FinalOutcome,
    reason: Seq<char>,
    shift_id: i64,
    created_by: i64,
) -> Option<Why> {
    match first_attempt_objection(db, receipt_id, outcome, reason, shift_id, created_by) {
        Some(why) => Some(why),
        None => if fresh_id(db.prints@) is None {
            Some(Why::Sqlite(SqlWhy::Full))
        } else {
            None
        },
    }
}

/// Whether an attempt is the one that was made.
pub open spec fn attempted_as(
    attempt: Attempt,
    receipt_id: i64,
    print_no: int,
    outcome: Outcome,
    reason: Seq<char>,
    shift_id: i64,
    created_by: i64,
    created_at: i64,
) -> bool {
    &&& attempt.receipt_id == receipt_id
    &&& attempt.print_no == print_no
    &&& attempt.outcome == outcome
    &&& attempt.reason@ == trimmed(reason)
    &&& attempt.shift_id == shift_id
    &&& attempt.created_by == created_by
    &&& attempt.created_at == created_at
}

/// Whether a store is another with the first attempt at a slip.
pub open spec fn first_attempt_made(
    before: Store,
    after: Store,
    receipt_id: i64,
    outcome: FinalOutcome,
    reason: Seq<char>,
    shift_id: i64,
    created_by: i64,
    created_at: i64,
    attempt: Attempt,
) -> bool {
    &&& fresh_id(before.prints@) == Some(attempt.id)
    &&& attempted_as(
        attempt,
        receipt_id,
        1,
        outcome.outcome(),
        reason,
        shift_id,
        created_by,
        created_at,
    )
    &&& after.prints@ == before.prints@.push(attempt)
    &&& after == (Store { prints: after.prints, ..before })
}

/// Record the first issue attempt after device I/O. A failed handwritten
/// substitution needs an explicit reason.
pub fn record_first_issue_attempt(
    db: &mut Store,
    receipt_id: i64,
    outcome: FinalOutcome,
    reason: &str,
    shift_id: i64,
    created_by: i64,
    created_at: i64,
) -> (result: Result<Attempt, RepoError>)
    ensures
        ledgers_kept(*old(db), *final(db)),
        match result {
            Ok(attempt) => {
                &&& first_attempt_refusal(
                    *old(db),
                    receipt_id,
                    outcome,
                    reason@,
                    shift_id,
                    created_by,
                ) is None
                &&& first_attempt_made(*old(db), *final(db), receipt_id, outcome, reason@, shift_id, created_by, created_at, attempt)
            },
            Err(error) => {
                &&& *final(db) == *old(db)
                &&& first_attempt_refusal(
                    *old(db),
                    receipt_id,
                    outcome,
                    reason@,
                    shift_id,
                    created_by,
                ) == Some(error@)
            },
        },
{
    match check_first_attempt(db, receipt_id, outcome, reason, shift_id, created_by) {
        Ok(_) => {},
        Err(error) => {
            return Err(error);
        },
    }
    let id: i64 = match next_id(&db.prints) {
        Some(id) => id,
        None => {
            return Err(RepoError::Sqlite(SqlError::Full));
        },
    };
    let attempt: Attempt = Attempt {
        id,
        receipt_id,
        print_no: 1,
        outcome: outcome.as_outcome(),
        reason: reason.trim().to_owned(),
        shift_id,
        created_by,
        created_at,
    };
    db.prints.push(attempt.clone());
    Ok(attempt)
}

/// A slip of that order that waits to be printed.
pub open spec fn waits(receipt: Receipt, order_id: i64) -> bool {
    receipt.order_id == Some(order_id) && receipt.status == Status::Pending
}

/// What is wrong with recording the first attempts at `n` slips in one go.
pub open spec fn attempts_refusal(
    db: Store,
    slips: Seq<Receipt>,
    outcome: FinalOutcome,
    reason: Seq<char>,
    shift_id: i64,
    created_by: i64,
    n: int,
) -> Option<Why>
    decreases n,
{
    if n <= 0 {
        None
    } else {
        match attempts_refusal(db, slips, outcome, reason, shift_id, created_by, n - 1) {
            Some(why) => Some(why),
            None => match first_attempt_objection(
                db,
                slips[n - 1].id,
                outcome,
                reason,
                shift_id,
                created_by,
            ) {
                Some(why) => Some(why),
                None => if !room_for(db.prints@, n) {
                    Some(Why::Sqlite(SqlWhy::Full))
                } else {
                    None
                },
            },
        }
    }
}

proof fn attempts_fail_onward(
    db: Store,
    slips: Seq<Receipt>,
    outcome: FinalOutcome,
    reason: Seq<char>,
    shift_id: i64,
    created_by: i64,
    n: int,
    m: int,
)
    requires
        0 <= n <= m,
    ensures
        attempts_refusal(db, slips, outcome, reason, shift_id, created_by, n) is Some
            ==> attempts_refusal(db, slips, outcome, reason, shift_id, created_by, m)
            == attempts_refusal(db, slips, outcome, reason, shift_id, created_by, n),
    decreases m - n,
{
    if n < m {
        attempts_fail_onward(db, slips, outcome, reason, shift_id, created_by, n, m - 1);
    }
}

/// Looks for what is wrong with recording the first attempts at slips.
pub(crate) fn check_attempts(
    db: &Store,
    slips: &Vec<Receipt>,
    outcome: FinalOutcome,
    reason: &str,
    shift_id: i64,
    created_by: i64,
) -> (result: Result<(), RepoError>)
    ensures
        match attempts_refusal(
            *db,
            slips@,
            outcome,
            reason@,
            shift_id,
            created_by,
            slips@.len() as int,
        ) {
            None => result is Ok && room_for(db.prints@, slips@.len() as int),
            Some(why) => result matches Err(error) && error@ == why,
        },
{
    let mut i: usize = 0;
    proof {
        crate::table::largest_bounds(db.prints@);
    }
    while i < slips.len()
        invariant
            i <= slips.len(),
            room_for(db.prints@, i as int),
            attempts_refusal(
                *db,
                slips@,
                outcome,
                reason@,
                shift_id,
                created_by,
                i as int,
            ) is None,
        decreases slips.len() - i,
    {
        proof {
            attempts_fail_onward(
                *db,
                slips@,
                outcome,
                reason@,
                shift_id,
                created_by,
                i + 1,
                slips@.len() as int,
            );
        }
        match check_first_attempt(db, slips[i].id, outcome, reason, shift_id, created_by) {
            Ok(_) => {},
            Err(error) => {
                return Err(error);
            },
        }
        if !has_room(&db.prints, i + 1) {
            return Err(RepoError::Sqlite(SqlError::Full));
        }
        i = i + 1;
    }
    Ok(())
}

/// Whether the first attempts at slips were written down, one after the other.
pub open spec fn attempts_written(
    before: Seq<Attempt>,
    after: Seq<Attempt>,
    slips: Seq<Receipt>,
    outcome: FinalOutcome,
    reason: Seq<char>,
    shift_id: i64,
    created_by: i64,
    created_at: i64,
) -> bool {
    &&& after.len() == before.len() + slips.len()
    &&& after.take(before.len() as int) == before
    &&& forall|k: int|
        0 <= k < slips.len() ==> {
            &&& (#[trigger] after[before.len() + k]).id == largest_id(before) + 1 + k
            &&& attempted_as(
                after[before.len() + k],
                slips[k].id,
                1,
                outcome.outcome(),
                reason,
                shift_id,
                created_by,
                created_at,
            )
        }
}

/// Writes down the first attempts at slips.
pub(crate) fn write_attempts(
    db: &mut Store,
    slips: &Vec<Receipt>,
    outcome: FinalOutcome,
    reason: &str,
    shift_id: i64,
    created_by: i64,
    created_at: i64,
)
    requires
        room_for(old(db).prints@, slips@.len() as int),
    ensures
        attempts_written(
            old(db).prints@,
            final(db).prints@,
            slips@,
            outcome,
            reason@,
            shift_id,
            created_by,
            created_at,
        ),
        *final(db) == (Store { prints: final(db).prints, ..*old(db) }),
{
    let mut i: usize = 0;
    let ghost before = db.prints@;
    assert(before.take(before.len() as int) =~= before);
    while i < slips.len()
        invariant
            i <= slips.len(),
            before == old(db).prints@,
            room_for(before, slips@.len() as int),
            largest_id(db.prints@) == largest_id(before) + i,
            attempts_written(
                before,
                db.prints@,
                slips@.take(i as int),
                outcome,
                reason@,
                shift_id,
                created_by,
                created_at,
            ),
            *db == (Store { prints: db.prints, ..*old(db) }),
        decreases slips.len() - i,
    {
        let ghost so_far = db.prints@;
        if let Some(id) = next_id(&db.prints) {
            let attempt: Attempt = Attempt {
                id,
                receipt_id: slips[i].id,
                print_no: 1,
                outcome: outcome.as_outcome(),
                reason: reason.trim().to_owned(),
                shift_id,
                created_by,
                created_at,
            };
            proof {
                writing_takes_one_identity(so_far, attempt);
            }
            db.prints.push(attempt);
        }
        proof {
            let upto = slips@.take(i + 1);
            let after = db.prints@;
            assert(after.take(before.len() as int) =~= so_far.take(before.len() as int));
            assert forall|k: int| 0 <= k < upto.len() implies {
                &&& (#[trigger] after[before.len() + k]).id == largest_id(before) + 1 + k
                &&& attempted_as(
                    after[before.len() + k],
                    upto[k].id,
                    1,
                    outcome.outcome(),
                    reason@,
                    shift_id,
                    created_by,
                    created_at,
                )
            } by {
                if k < i {
                    assert(after[before.len() + k] == so_far[before.len() + k]);
                    assert(slips@.take(i as int)[k] == upto[k]);
                }
            }
        }
        i = i + 1;
    }
    assert(slips@.take(slips@.len() as int) =~= slips@);
}

/// What a waiting slip becomes.
pub open spec fn resolved_as(receipt: Receipt, status: Status, printed_at: Option<i64>) -> Receipt {
    Receipt {
        status,
        printed_at: if printed_at is Some {
            printed_at
        } else {
            receipt.printed_at
        },
        ..receipt
    }
}

/// Whether every slip of an order that waited became that, and every other
/// receipt stayed as it was.
pub open spec fn slips_resolved(
    before: Seq<Receipt>,
    after: Seq<Receipt>,
    order_id: i64,
    status: Status,
    printed_at: Option<i64>,
) -> bool {
    &&& after.len() == before.len()
    &&& forall|i: int|
        0 <= i < before.len() ==> #[trigger] after[i] == (if waits(before[i], order_id) {
            resolved_as(before[i], status, printed_at)
        } else {
            before[i]
        })
}

/// Moves every slip of an order that waits on to where it ends.
pub(crate) fn resolve_slips(
    db: &mut Store,
    order_id: i64,
    status: Status,
    printed_at: Option<i64>,
)
    ensures
        slips_resolved(old(db).receipts@, final(db).receipts@, order_id, status, printed_at),
        *final(db) == (Store { receipts: final(db).receipts, ..*old(db) }),
{
    let mut i: usize = 0;
    let ghost before = db.receipts@;
    while i < db.receipts.len()
        invariant
            i <= db.receipts@.len(),
            before == old(db).receipts@,
            db.receipts@.len() == before.len(),
            forall|k: int|
                0 <= k < i ==> #[trigger] db.receipts@[k] == (if waits(before[k], order_id) {
                    resolved_as(before[k], status, printed_at)
                } else {
                    before[k]
                }),
            forall|k: int| i <= k < before.len() ==> #[trigger] db.receipts@[k] == before[k],
            *db == (Store { receipts: db.receipts, ..*old(db) }),
        decreases before.len() - i,
    {
        if db.receipts[i].order_id == Some(order_id) && db.receipts[i].status == Status::Pending {
            let mut changed: Receipt = db.receipts[i].clone();
            changed.status = status;
            if printed_at.is_some() {
                changed.printed_at = printed_at;
            }
            db.receipts.set(i, changed);
        }
        i = i + 1;
    }
}

/// Why an attempt cannot begin; nothing, where it can.
pub open spec fn begin_refusal(
    db: Store,
    receipt_id: i64,
    reason: Seq<char>,
    shift_id: i64,
    created_by: i64,
) -> Option<Why> {
    let previous = count(db.prints@, of_receipt(receipt_id));
    match till_refusal(db, created_by) {
        Some(why) => Some(why),
        None => match shift_refusal(db, shift_id) {
            Some(why) => Some(why),
            None => match row(db.receipts@, receipt_id) {
                None => Some(Why::Missing("receipt"@)),
                Some(receipt) => if receipt.rendered_text is None {
                    Some(
                        Why::Refused("freeze the receipt text before recording a print attempt"@),
                    )
                } else if previous == 0 && (receipt.kind != Kind::Customer || receipt.status
                    != Status::Pending) {
                    Some(
                        Why::Refused(
                            "only a pending customer receipt records UNKNOWN on its first print"@,
                        ),
                    )
                } else if previous == 0 && !is_blank(reason) {
                    Some(
                        Why::Refused(
                            "a first customer print is not a reprint and has no reason"@,
                        ),
                    )
                } else if previous > 0 && is_blank(reason) {
                    Some(Why::Refused("a reprint needs a reason"@))
                } else if previous >= i64::MAX {
                    Some(Why::Refused("that receipt has too many print attempts"@))
                } else if any(db.prints@, unanswered_of(receipt_id)) {
                    Some(Why::Refused("answer the outstanding print attempt first"@))
                } else if fresh_id(db.prints@) is None {
                    Some(Why::Sqlite(SqlWhy::Full))
                } else {
                    None
                },
            },
        },
    }
}

/// Whether a store is another with an attempt that is not answered yet.
pub open spec fn attempt_begun(
    before: Store,
    after: Store,
    receipt_id: i64,
    reason: Seq<char>,
    shift_id: i64,
    created_by: i64,
    created_at: i64,
    attempt: Attempt,
) -> bool {
    &&& fresh_id(before.prints@) == Some(attempt.id)
    &&& attempted_as(
        attempt,
        receipt_id,
        count(before.prints@, of_receipt(receipt_id)) as int + 1,
        Outcome::Unknown,
        reason,
        shift_id,
        created_by,
        created_at,
    )
    &&& after.prints@ == before.prints@.push(attempt)
    &&& after == (Store { prints: after.prints, ..before })
}

/// Record that nobody knows yet what came of an attempt, before first customer
/// printing or any reprint. A receipt has one such attempt at a time.
pub fn begin_attempt(
    db: &mut Store,
    receipt_id: i64,
    reason: &str,
    shift_id: i64,
    created_by: i64,
    created_at: i64,
) -> (result: Result<Attempt, RepoError>)
    ensures
        ledgers_kept(*old(db), *final(db)),
        match result {
            Ok(attempt) => {
                &&& begin_refusal(*old(db), receipt_id, reason@, shift_id, created_by) is None
                &&& attempt_begun(*old(db), *final(db), receipt_id, reason@, shift_id, created_by, created_at, attempt)
            },
            Err(error) => {
                &&& *final(db) == *old(db)
                &&& begin_refusal(*old(db), receipt_id, reason@, shift_id, created_by) == Some(
                    error@,
                )
            },
        },
{
    match require_active_cashier(db, created_by) {
        Ok(_) => {},
        Err(error) => {
            return Err(error);
        },
    }
    match require_open_shift(db, shift_id) {
        Ok(_) => {},
        Err(error) => {
            return Err(error);
        },
    }
    let p: usize = match find_place(&db.receipts, receipt_id) {
        Some(p) => p,
        None => {
            return Err(RepoError::Missing { what: "receipt" });
        },
    };
    if db.receipts[p].rendered_text.is_none() {
        return refuse("freeze the receipt text before recording a print attempt");
    }
    let previous: usize = count_rows(
        &db.prints,
        |a: &Attempt| -> (b: bool)
            ensures
                b == (a.receipt_id == receipt_id)
            { a.receipt_id == receipt_id },
        Ghost(of_receipt(receipt_id)),
    );
    let said: &str = reason.trim();
    if previous == 0 {
        if db.receipts[p].kind != Kind::Customer || db.receipts[p].status != Status::Pending {
            return refuse("only a pending customer receipt records UNKNOWN on its first print");
        }
        if !said.is_empty() {
            return refuse("a first customer print is not a reprint and has no reason");
        }
    } else if said.is_empty() {
        return refuse("a reprint needs a reason");
    }
    if previous as u64 >= i64::MAX as u64 {
        return refuse("that receipt has too many print attempts");
    }
    if has_unanswered(db, receipt_id) {
        return refuse("answer the outstanding print attempt first");
    }
    let id: i64 = match next_id(&db.prints) {
        Some(id) => id,
        None => {
            return Err(RepoError::Sqlite(SqlError::Full));
        },
    };
    let attempt: Attempt = Attempt {
        id,
        receipt_id,
        print_no: previous as i64 + 1,
        outcome: Outcome::Unknown,
        reason: said.to_owned(),
        shift_id,
        created_by,
        created_at,
    };
    db.prints.push(attempt.clone());
    Ok(attempt)
}

/// Why an attempt cannot be answered; nothing, where it can.
pub open spec fn resolve_refusal(db: Store, attempt_id: i64) -> Option<Why> {
    match row(db.prints@, attempt_id) {
        None => Some(Why::Missing("print attempt"@)),
        Some(attempt) => if attempt.outcome == Outcome::Unknown {
            None
        } else {
            Some(Why::Refused("a print attempt can be answered only once"@))
        },
    }
}

/// Whether a store is another with one attempt answered.
pub open spec fn attempt_answered(
    before: Store,
    after: Store,
    attempt_id: i64,
    outcome: FinalOutcome,
    attempt: Attempt,
) -> bool {
    &&& place(before.prints@, attempt_id) matches Some(p) && ({
        &&& attempt == (Attempt { outcome: outcome.outcome(), ..before.prints@[p] })
        &&& after.prints@ == before.prints@.update(p, attempt)
    })
    &&& after == (Store { prints: after.prints, ..before })
}

/// Answer what came of an attempt, once.
pub fn resolve_attempt(db: &mut Store, attempt_id: i64, outcome: FinalOutcome) -> (result: Result<
    Attempt,
    RepoError,
>)
    ensures
        ledgers_kept(*old(db), *final(db)),
        match result {
            Ok(attempt) => {
                &&& resolve_refusal(*old(db), attempt_id) is None
                &&& attempt_answered(*old(db), *final(db), attempt_id, outcome, attempt)
            },
            Err(error) => {
                &&& *final(db) == *old(db)
                &&& resolve_refusal(*old(db), attempt_id) == Some(error@)
            },
        },
{
    let p: usize = match find_place(&db.prints, attempt_id) {
        Some(p) => p,
        None => {
            return Err(RepoError::Missing { what: "print attempt" });
        },
    };
    if db.prints[p].outcome != Outcome::Unknown {
        return refuse("a print attempt can be answered only once");
    }
    let mut answered: Attempt = db.prints[p].clone();
    answered.outcome = outcome.as_outcome();
    db.prints.set(p, answered.clone());
    Ok(answered)
}

/// An attempt that was answered once is never answered again.
pub proof fn an_answer_stands(before: Store, after: Store, attempt_id: i64, outcome: FinalOutcome)
    requires
        resolve_refusal(before, attempt_id) is None,
        place(before.prints@, attempt_id) matches Some(p) && after.prints@ == before.prints@.update(
            p,
            Attempt { outcome: outcome.outcome(), ..before.prints@[p] },
        ),
    ensures
        resolve_refusal(after, attempt_id) == Some(
            Why::Refused("a print attempt can be answered only once"@),
        ),
{
    let p = place(before.prints@, attempt_id)->0;
    crate::table::place_is_first(before.prints@, attempt_id);
    crate::table::changing_keeps_places(
        before.prints@,
        p,
        Attempt { outcome: outcome.outcome(), ..before.prints@[p] },
        attempt_id,
    );
}

} // verus!

//! Closing a tab: its identity, its bill and its line in the audit log, all
//! together or not at all.

use vstd::prelude::*;

use crate::bill::Bill;
use crate::ledger::{self, AuditEntry, Event};
use crate::money::Money;
use crate::repo::cash::{self, freeze_payment_refusal, frozen_for, NewTabPayment, TabPayment};
use crate::repo::catalogue::first_chosen;
use crate::repo::orders::{self, Order, PendingRow};
use crate::repo::receipts::{self, payment_of, Attempt};
use crate::repo::shifts::{self, shift};
use crate::repo::staff::{self, is_active_cashier, person};
use crate::repo::tabs::{self, billed_on, chars_in, tab, tab_total, Tab};
use crate::repo::{refused, RepoError, SqlError, SqlWhy, Why};
use crate::settings::{charges_of, flag_of, keys, settings_map, Settings};
use crate::store::{ledgers_kept, Store};
use crate::table::{
    any, any_row, changing_keeps_places, find_place, fresh_id, next_id, place, row, running_sum,
};
use crate::text::{int_text, is_blank, join2, join3, number_text, trimmed};

verus! {

/// What closing a tab is asked for with.
///
/// A `comp_reason` means an authorised complimentary bill; a blank reason is
/// never meaningful and is refused. A `customer_tin` is captured at the close;
/// without one, what was captured before stays.
#[derive(Clone, Copy, Debug)]
pub struct CloseTab<'a> {
    pub tab_id: i64,
    pub shift_id: i64,
    pub cashier_id: i64,
    pub comp_reason: Option<&'a str>,
    pub customer_tin: Option<&'a str>,
    pub closed_at: i64,
}

/// A tab that was closed, with its frozen bill.
#[derive(Debug, PartialEq, Eq)]
pub struct ClosedTab {
    pub tab: Tab,
    pub payment: TabPayment,
}

/// Why a tab was not closed.
#[derive(Debug)]
pub enum SettlementError {
    Repo(RepoError),
    Audit(RepoError),
}

/// [`SettlementError`], over characters.
pub enum SettlementWhy {
    Repo(Why),
    Audit(Why),
}

impl View for SettlementError {
    type V = SettlementWhy;

    open spec fn view(&self) -> SettlementWhy {
        match self {
            SettlementError::Repo(error) => SettlementWhy::Repo(error@),
            SettlementError::Audit(error) => SettlementWhy::Audit(error@),
        }
    }
}

impl SettlementWhy {
    pub open spec fn message(self) -> Seq<char> {
        match self {
            SettlementWhy::Repo(why) => why.message(),
            SettlementWhy::Audit(why) => "audit: "@ + why.message(),
        }
    }
}

impl SettlementError {
    /// What the till shows.
    pub fn message(&self) -> (result: String)
        ensures
            result@ == self@.message(),
    {
        match self {
            SettlementError::Repo(error) => error.message(),
            SettlementError::Audit(error) => join2("audit: ", error.message().as_str()),
        }
    }
}

fn reject<T>(message: &str) -> (result: Result<T, SettlementError>)
    ensures
        result matches Err(error) && error@ == SettlementWhy::Repo(Why::Refused(message@)),
{
    Err(SettlementError::Repo(refused(message)))
}

// ---------------------------------------------------------------------------
// What keeps a tab open
// ---------------------------------------------------------------------------

/// An order of that tab that is neither issued nor given up.
pub open spec fn open_order(tab_id: i64) -> spec_fn(Order) -> bool {
    |o: Order|
        o.tab_id == tab_id && (o.status == orders::Status::Draft || o.status
            == orders::Status::Printing)
}

/// Whether an order stands on that tab.
pub open spec fn order_on(db: Store, order_id: i64, tab_id: i64) -> bool {
    row(db.orders@, order_id) matches Some(order) && order.tab_id == tab_id
}

fn is_order_on(db: &Store, order_id: i64, tab_id: i64) -> (result: bool)
    ensures
        result == order_on(*db, order_id, tab_id),
{
    match find_place(&db.orders, order_id) {
        Some(at) => db.orders[at].tab_id == tab_id,
        None => false,
    }
}

/// A frozen correction of an order of that tab.
pub open spec fn open_correction(db: Store, tab_id: i64) -> spec_fn(PendingRow) -> bool {
    |p: PendingRow| order_on(db, p.original_order_id, tab_id)
}

/// Whether an attempt belongs to that tab, by its order or by its bill.
pub open spec fn attempt_on(db: Store, attempt: Attempt, tab_id: i64) -> bool {
    row(db.receipts@, attempt.receipt_id) matches Some(receipt) && (receipt.tab_id == Some(tab_id)
        || (receipt.order_id is Some && order_on(db, receipt.order_id->0, tab_id)))
}

fn is_attempt_on(db: &Store, attempt: &Attempt, tab_id: i64) -> (result: bool)
    ensures
        result == attempt_on(*db, *attempt, tab_id),
{
    match find_place(&db.receipts, attempt.receipt_id) {
        Some(at) => db.receipts[at].tab_id == Some(tab_id) || match db.receipts[at].order_id {
            Some(order_id) => is_order_on(db, order_id, tab_id),
            None => false,
        },
        None => false,
    }
}

/// An attempt on that tab that nobody has answered.
pub open spec fn open_attempt(db: Store, tab_id: i64) -> spec_fn(Attempt) -> bool {
    |a: Attempt| a.outcome == receipts::Outcome::Unknown && attempt_on(db, a, tab_id)
}

/// Whether something on a tab is still to be resolved.
pub open spec fn unfinished(db: Store, tab_id: i64) -> bool {
    ||| any(db.orders@, open_order(tab_id))
    ||| any(db.pending@, open_correction(db, tab_id))
    ||| any(db.prints@, open_attempt(db, tab_id))
}

fn is_unfinished(db: &Store, tab_id: i64) -> (result: bool)
    ensures
        result == unfinished(*db, tab_id),
{
    let drafts: bool = any_row(
        &db.orders,
        |o: &Order| -> (b: bool)
            ensures
                b == (o.tab_id == tab_id && (o.status == orders::Status::Draft || o.status
                    == orders::Status::Printing))
            {
                o.tab_id == tab_id && (o.status == orders::Status::Draft || o.status
                    == orders::Status::Printing)
            },
        Ghost(open_order(tab_id)),
    );
    let corrections: bool = any_row(
        &db.pending,
        |p: &PendingRow| -> (b: bool)
            ensures
                b == (order_on(*db, p.original_order_id, tab_id))
            { is_order_on(db, p.original_order_id, tab_id) },
        Ghost(open_correction(*db, tab_id)),
    );
    let attempts: bool = any_row(
        &db.prints,
        |a: &Attempt| -> (b: bool)
            ensures
                b == (a.outcome == receipts::Outcome::Unknown && attempt_on(*db, *a, tab_id))
            { a.outcome == receipts::Outcome::Unknown && is_attempt_on(db, a, tab_id) },
        Ghost(open_attempt(*db, tab_id)),
    );
    drafts || corrections || attempts
}

pub open spec fn issued_order(tab_id: i64) -> spec_fn(Order) -> bool {
    |o: Order| o.tab_id == tab_id && o.status == orders::Status::Issued
}

fn has_issued(db: &Store, tab_id: i64) -> (result: bool)
    ensures
        result == any(db.orders@, issued_order(tab_id)),
{
    any_row(
        &db.orders,
        |o: &Order| -> (b: bool)
            ensures
                b == (o.tab_id == tab_id && o.status == orders::Status::Issued)
            { o.tab_id == tab_id && o.status == orders::Status::Issued },
        Ghost(issued_order(tab_id)),
    )
}

// ---------------------------------------------------------------------------
// Closing
// ---------------------------------------------------------------------------

/// The tax number that is captured at the close, if one was given.
pub open spec fn captured_tin(request: CloseTab<'_>) -> Option<Seq<char>> {
    match request.customer_tin {
        None => None,
        Some(text) => if is_blank(text@) {
            None
        } else {
            Some(trimmed(text@))
        },
    }
}

/// Why a tab cannot be closed; nothing, where it can.
pub open spec fn close_refusal(db: Store, request: CloseTab<'_>) -> Option<SettlementWhy> {
    let table = settings_map(db.settings@);
    match person(db, request.cashier_id) {
        None => Some(SettlementWhy::Repo(Why::Missing("person"@))),
        Some(actor) => if !is_active_cashier(actor) {
            Some(SettlementWhy::Repo(Why::Refused("only an active cashier may close a tab"@)))
        } else {
            match shift(db, request.shift_id) {
                None => Some(SettlementWhy::Repo(Why::Missing("shift"@))),
                Some(night) => if night.status != shifts::Status::Open {
                    Some(
                        SettlementWhy::Repo(
                            Why::Refused("a tab can close only during an open shift"@),
                        ),
                    )
                } else {
                    match tab(db, request.tab_id) {
                        None => Some(SettlementWhy::Repo(Why::Missing("tab"@))),
                        Some(found) => match open_tab_objection(db, table, found, request) {
                            Some(text) => Some(SettlementWhy::Repo(Why::Refused(text))),
                            None => bill_refusal(db, table, request),
                        },
                    }
                },
            }
        },
    }
}

/// What is wrong with closing a tab that is there; nothing, where it can be
/// billed.
pub open spec fn open_tab_objection(
    db: Store,
    table: Map<Seq<char>, Seq<char>>,
    found: Tab,
    request: CloseTab<'_>,
) -> Option<Seq<char>> {
    if found.status != tabs::Status::Open {
        Some("only an open tab can be closed"@)
    } else if unfinished(db, request.tab_id) {
        Some("resolve every draft, print attempt, and correction before closing the tab"@)
    } else if !any(db.orders@, issued_order(request.tab_id)) {
        Some("a tab needs at least one issued order before it can close"@)
    } else if request.comp_reason is Some && is_blank(request.comp_reason->0@) {
        Some("a complimentary tab needs a reason"@)
    } else if request.comp_reason is Some && !flag_of(table, keys::COMPS_ENABLED@) {
        Some("complimentary tabs are not enabled for this venue"@)
    } else if captured_tin(request) is Some && !(flag_of(table, keys::TAX_ENABLED@) && flag_of(
        table,
        keys::TABS_ASK_CUSTOMER_TIN@,
    )) {
        Some("customer TIN capture is available only when tax and the TIN prompt are enabled"@)
    } else {
        None
    }
}

/// Why the bill of a tab cannot be worked out or written down.
pub open spec fn bill_refusal(
    db: Store,
    table: Map<Seq<char>, Seq<char>>,
    request: CloseTab<'_>,
) -> Option<SettlementWhy> {
    match tab_total(db, request.tab_id) {
        Err(why) => Some(SettlementWhy::Repo(why)),
        Ok(lines) => if !charges_of(table).billable(lines.minor as int) {
            Some(
                SettlementWhy::Repo(
                    Why::Refused("that frozen bill is too large to calculate safely"@),
                ),
            )
        } else if fresh_id(db.payments@) is None {
            Some(SettlementWhy::Repo(Why::Sqlite(SqlWhy::Full)))
        } else if fresh_id(db.audit@) is None {
            Some(SettlementWhy::Audit(Why::Sqlite(SqlWhy::Full)))
        } else {
            None
        },
    }
}

/// Whether a tab is another after its close.
pub open spec fn closed_as(after: Tab, before: Tab, request: CloseTab<'_>) -> bool {
    &&& after == (Tab {
        status: tabs::Status::Closed,
        closed_shift_id: Some(request.shift_id),
        closed_at: Some(request.closed_at),
        closed_by: Some(request.cashier_id),
        is_comped: request.comp_reason is Some,
        customer_tin: after.customer_tin,
        ..before
    })
    &&& match captured_tin(request) {
        Some(tin) => chars_in(after.customer_tin) == Some(tin),
        None => after.customer_tin == before.customer_tin,
    }
}

/// What the bill of a closed tab is frozen from.
pub open spec fn bill_request<'a>(request: CloseTab<'a>) -> NewTabPayment<'a> {
    NewTabPayment {
        tab_id: request.tab_id,
        comp_reason: request.comp_reason,
        shift_id: request.shift_id,
        created_by: request.cashier_id,
        created_at: request.closed_at,
    }
}

/// The facts of a close, as the audit log keeps them.
pub open spec fn close_facts(total: int, liability: int, comped: bool) -> Seq<char> {
    "total_minor="@ + int_text(total) + ";liability_minor="@ + int_text(liability) + ";comped="@ + (
    if comped {
        "1"@
    } else {
        "0"@
    })
}

fn facts(total: i64, liability: i64, comped: bool) -> (result: String)
    ensures
        result@ == close_facts(total as int, liability as int, comped),
{
    let start: String = join3("total_minor=", number_text(total).as_str(), ";liability_minor=");
    let middle: String = join3(start.as_str(), number_text(liability).as_str(), ";comped=");
    join2(
        middle.as_str(),
        if comped {
            "1"
        } else {
            "0"
        },
    )
}

/// Whether a line of the audit log records that close.
pub open spec fn logs_close(entry: AuditEntry, request: CloseTab<'_>, payment: TabPayment) -> bool {
    &&& entry.action@ == (if request.comp_reason is Some {
        "TAB_COMPED"@
    } else {
        "TAB_CLOSED"@
    })
    &&& entry.entity_type@ == "tab"@
    &&& entry.entity_id == Some(request.tab_id)
    &&& entry.old_value is None
    &&& chars_in(entry.new_value) == Some(
        close_facts(
            payment.total.minor as int,
            payment.liability.minor as int,
            request.comp_reason is Some,
        ),
    )
    &&& entry.staff_id == Some(request.cashier_id)
    &&& entry.shift_id == Some(request.shift_id)
    &&& entry.created_at == request.closed_at
}

/// Whether a store is another with one tab closed: the tab, its bill worked out
/// on the tab as it was closed, and one line of audit. Nothing else changed.
pub open spec fn tab_closed(
    before: Store,
    after: Store,
    request: CloseTab<'_>,
    closed: ClosedTab,
) -> bool {
    &&& place(before.tabs@, request.tab_id) matches Some(p) && ({
        &&& closed_as(closed.tab, before.tabs@[p], request)
        &&& after.tabs@ == before.tabs@.update(p, closed.tab)
    })
    &&& after.payments@.len() == before.payments@.len() + 1
    &&& after.payments@.drop_last() == before.payments@
    &&& frozen_for(
        after.payments@.last(),
        (Store { tabs: after.tabs, ..before }),
        bill_request(request),
    )
    &&& first_chosen(after.payments@, payment_of(request.tab_id)) == Some(closed.payment)
    &&& after.audit@.len() == before.audit@.len() + 1
    &&& after.audit@.drop_last() == before.audit@
    &&& fresh_id(before.audit@) == Some(after.audit@.last().sequence_no)
    &&& logs_close(after.audit@.last(), request, closed.payment)
    &&& after == (Store {
        tabs: after.tabs,
        payments: after.payments,
        audit: after.audit,
        ..before
    })
}

/// Closing a tab changes neither what its lines come to nor who may freeze its
/// bill.
proof fn closing_leaves_the_bill_alone(before: Store, after: Store, p: int, closed: Tab)
    requires
        0 <= p < before.tabs@.len(),
        place(before.tabs@, closed.id) == Some(p),
        before.tabs@[p].id == closed.id,
        after.tabs@ == before.tabs@.update(p, closed),
        after == (Store { tabs: after.tabs, ..before }),
    ensures
        tab(after, closed.id) == Some(closed),
        tab_total(after, closed.id) == tab_total(before, closed.id),
{
    changing_keeps_places(before.tabs@, p, closed, closed.id);
    assert(billed_on(after, closed.id) =~= billed_on(before, closed.id));
}

/// Freeze one tab's identity and bill with its audit row, all at once.
pub fn close_tab(db: &mut Store, request: &CloseTab<'_>) -> (result: Result<
    ClosedTab,
    SettlementError,
>)
    ensures
        ledgers_kept(*old(db), *final(db)),
        match result {
            Ok(closed) => {
                &&& close_refusal(*old(db), *request) is None
                &&& tab_closed(*old(db), *final(db), *request, closed)
            },
            Err(error) => {
                &&& *final(db) == *old(db)
                &&& close_refusal(*old(db), *request) == Some(error@)
            },
        },
{
    match staff::find(db, request.cashier_id) {
        Ok(actor) => {
            if actor.role != staff::Role::Cashier || !actor.active {
                return reject("only an active cashier may close a tab");
            }
        },
        Err(error) => {
            return Err(SettlementError::Repo(error));
        },
    }
    match shifts::find(db, request.shift_id) {
        Ok(night) => {
            if night.status != shifts::Status::Open {
                return reject("a tab can close only during an open shift");
            }
        },
        Err(error) => {
            return Err(SettlementError::Repo(error));
        },
    }
    let p: usize = match find_place(&db.tabs, request.tab_id) {
        Some(p) => p,
        None => {
            return Err(SettlementError::Repo(RepoError::Missing { what: "tab" }));
        },
    };
    if db.tabs[p].status != tabs::Status::Open {
        return reject("only an open tab can be closed");
    }
    if is_unfinished(db, request.tab_id) {
        return reject("resolve every draft, print attempt, and correction before closing the tab");
    }
    if !has_issued(db, request.tab_id) {
        return reject("a tab needs at least one issued order before it can close");
    }
    let settings: Settings = Settings::load(db);
    let comped: bool = request.comp_reason.is_some();
    if let Some(reason) = request.comp_reason {
        if reason.trim().is_empty() {
            return reject("a complimentary tab needs a reason");
        }
    }
    if comped && !settings.flag(keys::COMPS_ENABLED) {
        return reject("complimentary tabs are not enabled for this venue");
    }
    let captured: Option<String> = match request.customer_tin {
        Some(text) => {
            let tin: &str = text.trim();
            if tin.is_empty() {
                None
            } else {
                Some(tin.to_owned())
            }
        },
        None => None,
    };
    if captured.is_some() && !(settings.flag(keys::TAX_ENABLED) && settings.flag(
        keys::TABS_ASK_CUSTOMER_TIN,
    )) {
        return reject(
            "customer TIN capture is available only when tax and the TIN prompt are enabled",
        );
    }
    let lines: Money = match tabs::running_total(db, request.tab_id) {
        Ok(lines) => lines,
        Err(error) => {
            return Err(SettlementError::Repo(error));
        },
    };
    if Bill::calculate(lines, &settings.charge_config()).is_err() {
        return reject("that frozen bill is too large to calculate safely");
    }
    if next_id(&db.payments).is_none() {
        return Err(SettlementError::Repo(RepoError::Sqlite(SqlError::Full)));
    }
    if next_id(&db.audit).is_none() {
        return Err(SettlementError::Audit(RepoError::Sqlite(SqlError::Full)));
    }
    let mut changed: Tab = db.tabs[p].clone();
    changed.status = tabs::Status::Closed;
    changed.closed_shift_id = Some(request.shift_id);
    changed.closed_at = Some(request.closed_at);
    changed.closed_by = Some(request.cashier_id);
    changed.is_comped = comped;
    if captured.is_some() {
        changed.customer_tin = captured;
    }
    let new: NewTabPayment<'_> = NewTabPayment {
        tab_id: request.tab_id,
        comp_reason: request.comp_reason,
        shift_id: request.shift_id,
        created_by: request.cashier_id,
        created_at: request.closed_at,
    };
    db.tabs.set(p, changed.clone());
    proof {
        closing_leaves_the_bill_alone(*old(db), *db, p as int, changed);
        assert(freeze_payment_refusal(*db, new) is None);
    }
    let payment: TabPayment = match cash::freeze_payment(db, &new) {
        Ok(payment) => payment,
        Err(error) => {
            return Err(SettlementError::Repo(error));
        },
    };
    let said: String = facts(payment.total.minor, payment.liability.minor, comped);
    let action: &str = if comped {
        "TAB_COMPED"
    } else {
        "TAB_CLOSED"
    };
    let event: Event<'_> = Event::new(action, "tab", request.closed_at).about(
        request.tab_id,
    ).recording(said.as_str()).done_by(request.cashier_id).during(Some(request.shift_id));
    match ledger::append(db, &event) {
        Ok(_) => {},
        Err(error) => {
            return Err(SettlementError::Audit(error));
        },
    }
    Ok(ClosedTab { tab: changed, payment })
}

/// A tab that was closed cannot be closed again.
pub proof fn a_tab_closes_once(
    before: Store,
    after: Store,
    request: CloseTab<'_>,
    closed: ClosedTab,
    again: CloseTab<'_>,
)
    requires
        close_refusal(before, request) is None,
        tab_closed(before, after, request, closed),
        again.tab_id == request.tab_id,
    ensures
        close_refusal(after, again) is Some,
{
    let p = place(before.tabs@, request.tab_id)->0;
    crate::table::place_is_first(before.tabs@, request.tab_id);
    changing_keeps_places(before.tabs@, p, closed.tab, request.tab_id);
}

/// Whether no tab has two bills, and no tab that is still open has one.
pub open spec fn bills_are_single(db: Store) -> bool {
    &&& forall|i: int|
        0 <= i < db.payments@.len() ==> (tab(
            db,
            (#[trigger] db.payments@[i]).tab_id,
        ) matches Some(found) && found.status != tabs::Status::Open)
    &&& forall|i: int, j: int|
        0 <= i < j < db.payments@.len() ==> (#[trigger] db.payments@[i]).tab_id != (
        #[trigger] db.payments@[j]).tab_id
}

/// Closing a tab bills it once: the bill that comes back is the one that was
/// written, and it is the only one of that tab.
pub proof fn closing_bills_a_tab_once(
    before: Store,
    after: Store,
    request: CloseTab<'_>,
    closed: ClosedTab,
)
    requires
        bills_are_single(before),
        close_refusal(before, request) is None,
        tab_closed(before, after, request, closed),
    ensures
        bills_are_single(after),
        closed.payment == after.payments@.last(),
{
    let id = request.tab_id;
    let wanted = payment_of(id);
    let p = place(before.tabs@, id)->0;
    let new = after.payments@.last();
    crate::table::place_is_first(before.tabs@, id);
    assert(after.payments@ =~= before.payments@.push(new));
    if any(before.payments@, wanted) {
        let i = choose|i: int| 0 <= i < before.payments@.len() && #[trigger] wanted(
            before.payments@[i],
        );
        assert(before.payments@[i].tab_id == id);
    }
    crate::table::chosen_meet_the_condition(before.payments@, wanted);
    assert forall|i: int| 0 <= i < after.payments@.len() implies (tab(
        after,
        (#[trigger] after.payments@[i]).tab_id,
    ) matches Some(found) && found.status != tabs::Status::Open) by {
        changing_keeps_places(before.tabs@, p, closed.tab, after.payments@[i].tab_id);
        if i < before.payments@.len() {
            assert(after.payments@[i] == before.payments@[i]);
        }
    }
    assert forall|i: int, j: int| 0 <= i < j < after.payments@.len() implies (
    #[trigger] after.payments@[i]).tab_id != (#[trigger] after.payments@[j]).tab_id by {
        assert(after.payments@[i] == before.payments@[i]);
        if j < before.payments@.len() {
            assert(after.payments@[j] == before.payments@[j]);
        } else {
            assert(!wanted(before.payments@[i]));
        }
    }
}

/// The first bill of a closed tab leaves every tab with one bill at most.
pub proof fn a_first_bill_keeps_bills_single(
    before: Store,
    after: Store,
    new: NewTabPayment<'_>,
    payment: TabPayment,
)
    requires
        bills_are_single(before),
        freeze_payment_refusal(before, new) is None,
        first_chosen(before.payments@, payment_of(new.tab_id)) is None,
        payment.tab_id == new.tab_id,
        after.payments@ == before.payments@.push(payment),
        after.tabs == before.tabs,
    ensures
        bills_are_single(after),
{
    let wanted = payment_of(new.tab_id);
    crate::table::chosen_meet_the_condition(before.payments@, wanted);
    assert(forall|i: int| 0 <= i < before.payments@.len() ==> !wanted(before.payments@[i]));
}

/// Opening a tab gives it no bill.
pub proof fn opening_keeps_bills_single(before: Store, after: Store, opened: Tab)
    requires
        bills_are_single(before),
        after.payments == before.payments,
        fresh_id(before.tabs@) == Some(opened.id),
        after.tabs@ == before.tabs@.push(opened),
    ensures
        bills_are_single(after),
{
    assert forall|i: int| 0 <= i < after.payments@.len() implies (tab(
        after,
        (#[trigger] after.payments@[i]).tab_id,
    ) matches Some(found) && found.status != tabs::Status::Open) by {
        crate::table::writing_keeps_places(before.tabs@, opened, before.payments@[i].tab_id);
    }
}

/// A tab that is handed over or settled keeps its bill, as long as it is not
/// opened again.
pub proof fn changing_a_tab_keeps_bills_single(
    before: Store,
    after: Store,
    at: int,
    changed: Tab,
)
    requires
        bills_are_single(before),
        0 <= at < before.tabs@.len(),
        changed.id == before.tabs@[at].id,
        changed.status == before.tabs@[at].status || changed.status != tabs::Status::Open,
        after.payments == before.payments,
        after.tabs@ == before.tabs@.update(at, changed),
    ensures
        bills_are_single(after),
{
    assert forall|i: int| 0 <= i < after.payments@.len() implies (tab(
        after,
        (#[trigger] after.payments@[i]).tab_id,
    ) matches Some(found) && found.status != tabs::Status::Open) by {
        crate::table::place_is_first(before.tabs@, before.payments@[i].tab_id);
        changing_keeps_places(before.tabs@, at, changed, before.payments@[i].tab_id);
    }
}

/// The house pays for a complimentary tab, and the waiter owes nothing for it;
/// of any other tab the waiter owes the whole bill.
pub proof fn a_comp_owes_nothing(
    before: Store,
    after: Store,
    request: CloseTab<'_>,
    closed: ClosedTab,
)
    requires
        bills_are_single(before),
        close_refusal(before, request) is None,
        tab_closed(before, after, request, closed),
    ensures
        closed.payment.liability.minor == (if request.comp_reason is Some {
            0
        } else {
            closed.payment.total.minor
        }),
{
    let p = place(before.tabs@, request.tab_id)->0;
    crate::table::place_is_first(before.tabs@, request.tab_id);
    changing_keeps_places(before.tabs@, p, closed.tab, request.tab_id);
    closing_bills_a_tab_once(before, after, request, closed);
}

/// Closing a tab charges its waiter what the bill says is owed, and puts
/// nothing into any drawer.
pub proof fn closing_charges_the_waiter_and_pays_no_drawer(
    before: Store,
    after: Store,
    request: CloseTab<'_>,
    closed: ClosedTab,
    waiter_id: i64,
    shift_id: i64,
)
    requires
        bills_are_single(before),
        close_refusal(before, request) is None,
        tab_closed(before, after, request, closed),
    ensures
        cash::drawer(after, shift_id) == cash::drawer(before, shift_id),
        cash::held(before, waiter_id) matches Ok(was) ==> (cash::held(after, waiter_id) matches Ok(
            is,
        ) ==> is.minor == was.minor + (if waiter_id == closed.payment.waiter_id {
            closed.payment.liability.minor as int
        } else {
            0
        })),
{
    closing_bills_a_tab_once(before, after, request, closed);
    let rows = before.reconciliations@;
    let owed = running_sum(before.payments@, cash::owed_by(waiter_id));
    let owing = running_sum(after.payments@, cash::owed_by(waiter_id));
    if owed is Some && owing is Some {
        cash::a_balance_is_what_is_left(owed->0, rows, waiter_id);
        cash::a_balance_is_what_is_left(owing->0, rows, waiter_id);
    }
}

} // verus!

//! Everything the till remembers.
//!
//! One [`Store`] holds what the tables hold, as plain rows in the order they
//! were written. A repository function reads it, decides, and writes; when it
//! refuses, the store is as it was.

use vstd::prelude::*;

use crate::ledger::AuditEntry;
use crate::repo::cash::{Allocation, CashMovement, Reconciliation, TabPayment};
use crate::repo::catalogue::{Price, ProductRow, Recipe, RecipeLine, SaleItemRow};
use crate::repo::orders::{is_rung, CorrectionRow, DeltaRow, Line, Order, PendingRow};
use crate::repo::purchases::{Purchase, PurchaseLine, Supplier};
use crate::repo::receipts::{Attempt, Receipt};
use crate::repo::reports::Stored;
use crate::repo::seq::Sequences;
use crate::repo::shifts::Shift;
use crate::repo::staff::StaffRow;
use crate::repo::stock::StockMovement;
use crate::repo::tabs::{Tab, TransferRow};
use crate::settings::SettingRow;

verus! {

/// The contents of every table.
#[derive(Debug)]
pub struct Store {
    pub settings: Vec<SettingRow>,
    pub sequences: Sequences,
    pub staff: Vec<StaffRow>,
    pub products: Vec<ProductRow>,
    pub sale_items: Vec<SaleItemRow>,
    pub prices: Vec<Price>,
    pub recipes: Vec<Recipe>,
    pub recipe_lines: Vec<RecipeLine>,
    pub shifts: Vec<Shift>,
    pub tabs: Vec<Tab>,
    pub transfers: Vec<TransferRow>,
    pub orders: Vec<Order>,
    pub order_lines: Vec<Line>,
    pub pending: Vec<PendingRow>,
    pub pending_lines: Vec<DeltaRow>,
    pub corrections: Vec<CorrectionRow>,
    pub correction_lines: Vec<DeltaRow>,
    pub receipts: Vec<Receipt>,
    pub prints: Vec<Attempt>,
    pub movements: Vec<StockMovement>,
    pub suppliers: Vec<Supplier>,
    pub purchases: Vec<Purchase>,
    pub purchase_lines: Vec<PurchaseLine>,
    pub payments: Vec<TabPayment>,
    pub reconciliations: Vec<Reconciliation>,
    pub allocations: Vec<Allocation>,
    pub cash: Vec<CashMovement>,
    pub reports: Vec<Stored>,
    pub audit: Vec<AuditEntry>,
}

impl Store {
    /// A till that nothing was ever entered into.
    pub fn new() -> (result: Store)
        ensures
            result.settings@.len() == 0,
            result.sequences == (Sequences { tab: 1, shift: 1, issue: 1, customer: 1 }),
            result.staff@.len() == 0,
            result.products@.len() == 0,
            result.sale_items@.len() == 0,
            result.prices@.len() == 0,
            result.recipes@.len() == 0,
            result.recipe_lines@.len() == 0,
            result.shifts@.len() == 0,
            result.tabs@.len() == 0,
            result.transfers@.len() == 0,
            result.orders@.len() == 0,
            result.order_lines@.len() == 0,
            result.pending@.len() == 0,
            result.pending_lines@.len() == 0,
            result.corrections@.len() == 0,
            result.correction_lines@.len() == 0,
            result.receipts@.len() == 0,
            result.prints@.len() == 0,
            result.movements@.len() == 0,
            result.suppliers@.len() == 0,
            result.purchases@.len() == 0,
            result.purchase_lines@.len() == 0,
            result.payments@.len() == 0,
            result.reconciliations@.len() == 0,
            result.allocations@.len() == 0,
            result.cash@.len() == 0,
            result.reports@.len() == 0,
            result.audit@.len() == 0,
    {
        Store {
            settings: Vec::new(),
            sequences: Sequences { tab: 1, shift: 1, issue: 1, customer: 1 },
            staff: Vec::new(),
            products: Vec::new(),
            sale_items: Vec::new(),
            prices: Vec::new(),
            recipes: Vec::new(),
            recipe_lines: Vec::new(),
            shifts: Vec::new(),
            tabs: Vec::new(),
            transfers: Vec::new(),
            orders: Vec::new(),
            order_lines: Vec::new(),
            pending: Vec::new(),
            pending_lines: Vec::new(),
            corrections: Vec::new(),
            correction_lines: Vec::new(),
            receipts: Vec::new(),
            prints: Vec::new(),
            movements: Vec::new(),
            suppliers: Vec::new(),
            purchases: Vec::new(),
            purchase_lines: Vec::new(),
            payments: Vec::new(),
            reconciliations: Vec::new(),
            allocations: Vec::new(),
            cash: Vec::new(),
            reports: Vec::new(),
            audit: Vec::new(),
        }
    }
}

/// Whether rows only grew: every earlier one is still there, unchanged and in
/// its place.
pub open spec fn grown<T>(before: Seq<T>, after: Seq<T>) -> bool {
    &&& before.len() <= after.len()
    &&& forall|i: int| 0 <= i < before.len() ==> #[trigger] after[i] == before[i]
}

/// Whether what was sold was left alone: an order that is rung up stays rung up,
/// and no line was added to it.
pub open spec fn sales_kept(before: Store, after: Store) -> bool {
    &&& forall|id: i64| is_rung(before.orders@, id) ==> #[trigger] is_rung(after.orders@, id)
    &&& forall|i: int|
        before.order_lines@.len() <= i < after.order_lines@.len() ==> !is_rung(
            before.orders@,
            (#[trigger] after.order_lines@[i]).order_id,
        )
}

/// Whether the ledgers only grew: no line of an order, no movement of stock or
/// cash, no delivery, no bill, no allocation, no correction, no transfer, no
/// report and no line of the audit log was changed or taken away, and no order
/// that is rung up was added to.
pub open spec fn ledgers_kept(before: Store, after: Store) -> bool {
    &&& grown(before.order_lines@, after.order_lines@)
    &&& sales_kept(before, after)
    &&& grown(before.movements@, after.movements@)
    &&& grown(before.purchases@, after.purchases@)
    &&& grown(before.purchase_lines@, after.purchase_lines@)
    &&& grown(before.payments@, after.payments@)
    &&& grown(before.allocations@, after.allocations@)
    &&& grown(before.cash@, after.cash@)
    &&& grown(before.corrections@, after.corrections@)
    &&& grown(before.correction_lines@, after.correction_lines@)
    &&& grown(before.transfers@, after.transfers@)
    &&& grown(before.reports@, after.reports@)
    &&& grown(before.audit@, after.audit@)
}

/// What was kept twice was kept: a ledger that only grew in every action only
/// grew over all of them.
pub proof fn keeping_goes_on(first: Store, second: Store, third: Store)
    requires
        ledgers_kept(first, second),
        ledgers_kept(second, third),
    ensures
        ledgers_kept(first, third),
{
}

} // verus!

//! Ways out of durable, unfinished states.
//!
//! The identifiers name what the till can do, not the buttons that do it; a
//! screen may rename its buttons without changing how anything is recovered.

use vstd::prelude::*;

verus! {

/// A durable state which can survive a crash or an interruption and therefore
/// needs an explicit way forward.
#[derive(Clone, Copy, Debug, PartialEq, Eq, Hash, Structural)]
pub enum ReachableNonTerminalState {
    OpenShift,
    ClosingShift,
    OpenTab,
    ClosedUnreconciledTab,
    DraftOrder,
    PrintingOrder,
    PendingReceipt,
    FailedReceipt,
    UnknownPrintAttempt,
    PendingOrderCorrection,
    DraftStockCount,
    UnfinalizedReconciliation,
}

/// Every durable, unfinished state, in the order a recovery screen lists them.
pub open spec fn every_state() -> Seq<ReachableNonTerminalState> {
    seq![
        ReachableNonTerminalState::OpenShift,
        ReachableNonTerminalState::ClosingShift,
        ReachableNonTerminalState::OpenTab,
        ReachableNonTerminalState::ClosedUnreconciledTab,
        ReachableNonTerminalState::DraftOrder,
        ReachableNonTerminalState::PrintingOrder,
        ReachableNonTerminalState::PendingReceipt,
        ReachableNonTerminalState::FailedReceipt,
        ReachableNonTerminalState::UnknownPrintAttempt,
        ReachableNonTerminalState::PendingOrderCorrection,
        ReachableNonTerminalState::DraftStockCount,
        ReachableNonTerminalState::UnfinalizedReconciliation,
    ]
}

impl ReachableNonTerminalState {
    /// One inventory of states, for the recovery screen.
    pub fn all() -> (result: Vec<ReachableNonTerminalState>)
        ensures
            result@ == every_state(),
    {
        let mut all: Vec<ReachableNonTerminalState> = Vec::new();
        all.push(ReachableNonTerminalState::OpenShift);
        all.push(ReachableNonTerminalState::ClosingShift);
        all.push(ReachableNonTerminalState::OpenTab);
        all.push(ReachableNonTerminalState::ClosedUnreconciledTab);
        all.push(ReachableNonTerminalState::DraftOrder);
        all.push(ReachableNonTerminalState::PrintingOrder);
        all.push(ReachableNonTerminalState::PendingReceipt);
        all.push(ReachableNonTerminalState::FailedReceipt);
        all.push(ReachableNonTerminalState::UnknownPrintAttempt);
        all.push(ReachableNonTerminalState::PendingOrderCorrection);
        all.push(ReachableNonTerminalState::DraftStockCount);
        all.push(ReachableNonTerminalState::UnfinalizedReconciliation);
        assert(all@ =~= every_state());
        all
    }
}

/// What the till can do about an unfinished state.
#[derive(Clone, Copy, Debug, PartialEq, Eq, Hash, Structural)]
pub enum ResolutionCommand {
    BeginShiftClose,
    ResumeShiftClose,
    CloseOrCompTab,
    ReconcileTab,
    RetryOrAbandonDraft,
    ResolveOrderPrint,
    ResolveReceiptPrint,
    RetryFailedReceipt,
    ResolvePrintAttempt,
    ResolvePendingCorrection,
    ApplyOrAbandonStockCount,
    FinalizeReconciliation,
}

impl ResolutionCommand {
    /// The stable identifier of a command.
    pub open spec fn word(self) -> Seq<char> {
        match self {
            ResolutionCommand::BeginShiftClose => "begin_shift_close"@,
            ResolutionCommand::ResumeShiftClose => "resume_shift_close"@,
            ResolutionCommand::CloseOrCompTab => "close_or_comp_tab"@,
            ResolutionCommand::ReconcileTab => "reconcile_tab"@,
            ResolutionCommand::RetryOrAbandonDraft => "retry_or_abandon_draft"@,
            ResolutionCommand::ResolveOrderPrint => "resolve_order_print"@,
            ResolutionCommand::ResolveReceiptPrint => "resolve_receipt_print"@,
            ResolutionCommand::RetryFailedReceipt => "retry_failed_receipt"@,
            ResolutionCommand::ResolvePrintAttempt => "resolve_print_attempt"@,
            ResolutionCommand::ResolvePendingCorrection => "resolve_pending_correction"@,
            ResolutionCommand::ApplyOrAbandonStockCount => "apply_or_abandon_stock_count"@,
            ResolutionCommand::FinalizeReconciliation => "finalize_reconciliation"@,
        }
    }

    /// The stable identifier of a command.
    pub fn as_str(self) -> (result: &'static str)
        ensures
            result@ == self.word(),
    {
        match self {
            ResolutionCommand::BeginShiftClose => "begin_shift_close",
            ResolutionCommand::ResumeShiftClose => "resume_shift_close",
            ResolutionCommand::CloseOrCompTab => "close_or_comp_tab",
            ResolutionCommand::ReconcileTab => "reconcile_tab",
            ResolutionCommand::RetryOrAbandonDraft => "retry_or_abandon_draft",
            ResolutionCommand::ResolveOrderPrint => "resolve_order_print",
            ResolutionCommand::ResolveReceiptPrint => "resolve_receipt_print",
            ResolutionCommand::RetryFailedReceipt => "retry_failed_receipt",
            ResolutionCommand::ResolvePrintAttempt => "resolve_print_attempt",
            ResolutionCommand::ResolvePendingCorrection => "resolve_pending_correction",
            ResolutionCommand::ApplyOrAbandonStockCount => "apply_or_abandon_stock_count",
            ResolutionCommand::FinalizeReconciliation => "finalize_reconciliation",
        }
    }
}

/// The way out of a state, and what it is for in the words of the recovery
/// screen.
#[derive(Clone, Copy, Debug, PartialEq, Eq)]
pub struct Resolution {
    pub command: ResolutionCommand,
    pub purpose: &'static str,
}

/// The way out of a state.
pub open spec fn way_out(state: ReachableNonTerminalState) -> ResolutionCommand {
    match state {
        ReachableNonTerminalState::OpenShift => ResolutionCommand::BeginShiftClose,
        ReachableNonTerminalState::ClosingShift => ResolutionCommand::ResumeShiftClose,
        ReachableNonTerminalState::OpenTab => ResolutionCommand::CloseOrCompTab,
        ReachableNonTerminalState::ClosedUnreconciledTab => ResolutionCommand::ReconcileTab,
        ReachableNonTerminalState::DraftOrder => ResolutionCommand::RetryOrAbandonDraft,
        ReachableNonTerminalState::PrintingOrder => ResolutionCommand::ResolveOrderPrint,
        ReachableNonTerminalState::PendingReceipt => ResolutionCommand::ResolveReceiptPrint,
        ReachableNonTerminalState::FailedReceipt => ResolutionCommand::RetryFailedReceipt,
        ReachableNonTerminalState::UnknownPrintAttempt => ResolutionCommand::ResolvePrintAttempt,
        ReachableNonTerminalState::PendingOrderCorrection => {
            ResolutionCommand::ResolvePendingCorrection
        },
        ReachableNonTerminalState::DraftStockCount => ResolutionCommand::ApplyOrAbandonStockCount,
        ReachableNonTerminalState::UnfinalizedReconciliation => {
            ResolutionCommand::FinalizeReconciliation
        },
    }
}

/// What the way out of a state is for.
pub open spec fn purpose_of(state: ReachableNonTerminalState) -> Seq<char> {
    match state {
        ReachableNonTerminalState::OpenShift => "finish trading and start end-of-day"@,
        ReachableNonTerminalState::ClosingShift => "resume report, backup, and final close"@,
        ReachableNonTerminalState::OpenTab => "freeze the bill or record an authorised comp"@,
        ReachableNonTerminalState::ClosedUnreconciledTab => {
            "allocate the frozen liability to a settlement"@
        },
        ReachableNonTerminalState::DraftOrder => "retry issue or abandon the unissued round"@,
        ReachableNonTerminalState::PrintingOrder => {
            "confirm print, handwritten issue, or confirmed non-print"@
        },
        ReachableNonTerminalState::PendingReceipt => "record the durable print outcome"@,
        ReachableNonTerminalState::FailedReceipt => {
            "retry the same receipt identity when the printer recovers"@
        },
        ReachableNonTerminalState::UnknownPrintAttempt => {
            "answer whether paper emerged before another attempt"@
        },
        ReachableNonTerminalState::PendingOrderCorrection => {
            "complete or abandon the frozen correction intent"@
        },
        ReachableNonTerminalState::DraftStockCount => {
            "apply the count between shifts or discard the draft"@
        },
        ReachableNonTerminalState::UnfinalizedReconciliation => {
            "finish allocating and seal the settlement"@
        },
    }
}

/// The primary way forward for each durable state.
pub fn resolution_for(state: ReachableNonTerminalState) -> (result: Resolution)
    ensures
        result.command == way_out(state),
        result.purpose@ == purpose_of(state),
{
    match state {
        ReachableNonTerminalState::OpenShift => Resolution {
            command: ResolutionCommand::BeginShiftClose,
            purpose: "finish trading and start end-of-day",
        },
        ReachableNonTerminalState::ClosingShift => Resolution {
            command: ResolutionCommand::ResumeShiftClose,
            purpose: "resume report, backup, and final close",
        },
        ReachableNonTerminalState::OpenTab => Resolution {
            command: ResolutionCommand::CloseOrCompTab,
            purpose: "freeze the bill or record an authorised comp",
        },
        ReachableNonTerminalState::ClosedUnreconciledTab => Resolution {
            command: ResolutionCommand::ReconcileTab,
            purpose: "allocate the frozen liability to a settlement",
        },
        ReachableNonTerminalState::DraftOrder => Resolution {
            command: ResolutionCommand::RetryOrAbandonDraft,
            purpose: "retry issue or abandon the unissued round",
        },
        ReachableNonTerminalState::PrintingOrder => Resolution {
            command: ResolutionCommand::ResolveOrderPrint,
            purpose: "confirm print, handwritten issue, or confirmed non-print",
        },
        ReachableNonTerminalState::PendingReceipt => Resolution {
            command: ResolutionCommand::ResolveReceiptPrint,
            purpose: "record the durable print outcome",
        },
        ReachableNonTerminalState::FailedReceipt => Resolution {
            command: ResolutionCommand::RetryFailedReceipt,
            purpose: "retry the same receipt identity when the printer recovers",
        },
        ReachableNonTerminalState::UnknownPrintAttempt => Resolution {
            command: ResolutionCommand::ResolvePrintAttempt,
            purpose: "answer whether paper emerged before another attempt",
        },
        ReachableNonTerminalState::PendingOrderCorrection => Resolution {
            command: ResolutionCommand::ResolvePendingCorrection,
            purpose: "complete or abandon the frozen correction intent",
        },
        ReachableNonTerminalState::DraftStockCount => Resolution {
            command: ResolutionCommand::ApplyOrAbandonStockCount,
            purpose: "apply the count between shifts or discard the draft",
        },
        ReachableNonTerminalState::UnfinalizedReconciliation => Resolution {
            command: ResolutionCommand::FinalizeReconciliation,
            purpose: "finish allocating and seal the settlement",
        },
    }
}

/// No state is left off the inventory, and none is on it twice.
pub proof fn every_state_is_listed_once(state: ReachableNonTerminalState)
    ensures
        every_state().contains(state),
        every_state().no_duplicates(),
{
    let all = every_state();
    assert(all[0] == ReachableNonTerminalState::OpenShift);
    assert(all[1] == ReachableNonTerminalState::ClosingShift);
    assert(all[2] == ReachableNonTerminalState::OpenTab);
    assert(all[3] == ReachableNonTerminalState::ClosedUnreconciledTab);
    assert(all[4] == ReachableNonTerminalState::DraftOrder);
    assert(all[5] == ReachableNonTerminalState::PrintingOrder);
    assert(all[6] == ReachableNonTerminalState::PendingReceipt);
    assert(all[7] == ReachableNonTerminalState::FailedReceipt);
    assert(all[8] == ReachableNonTerminalState::UnknownPrintAttempt);
    assert(all[9] == ReachableNonTerminalState::PendingOrderCorrection);
    assert(all[10] == ReachableNonTerminalState::DraftStockCount);
    assert(all[11] == ReachableNonTerminalState::UnfinalizedReconciliation);
}

/// Every state has a way out of its own.
pub proof fn every_state_has_its_own_way_out(
    one: ReachableNonTerminalState,
    other: ReachableNonTerminalState,
)
    requires
        way_out(one) == way_out(other),
    ensures
        one == other,
{
}

} // verus!

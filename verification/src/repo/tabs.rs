//! Long-lived customer tabs.
//!
//! A tab keeps both forms of identity: a sequential internal code and the
//! reference frozen when it opened. Tabs deliberately outlive shifts.
//! Transferring one changes only who is responsible for the open tab; issued
//! orders retain the waiter who actually sold them.

use vstd::prelude::*;

use super::{refuse, RepoError, SqlError, SqlWhy, Why};
use crate::money::Money;
use crate::repo::orders::{self, Line};
use crate::repo::seq::{printed, Counter};
use crate::repo::shifts::{self, shift};
use crate::repo::staff::{self, is_active_cashier, person};
use crate::store::{ledgers_kept, Store};
use crate::table::{
    any, any_row, choose_rows, chosen, find_place, find_row, fresh_id, in_order, next_id, place,
    row, running_sum, sort_rows, sum_rows, Row,
};
use crate::text::{
    contains_nocase, copy_text, holds, join2, join3, lowered, same, same_nocase, trimmed,
};

verus! {

/// What a tab is identified by.
#[derive(Clone, Copy, Debug, PartialEq, Eq, Structural)]
pub enum ReferenceMode {
    Table,
    CustomerName,
    CustomerPhone,
    Custom,
}

impl ReferenceMode {
    /// The word it is stored under.
    pub open spec fn word(self) -> Seq<char> {
        match self {
            ReferenceMode::Table => "TABLE"@,
            ReferenceMode::CustomerName => "CUSTOMER_NAME"@,
            ReferenceMode::CustomerPhone => "CUSTOMER_PHONE"@,
            ReferenceMode::Custom => "CUSTOM"@,
        }
    }

    /// The word it is stored under.
    pub fn as_str(self) -> (result: &'static str)
        ensures
            result@ == self.word(),
    {
        match self {
            ReferenceMode::Table => "TABLE",
            ReferenceMode::CustomerName => "CUSTOMER_NAME",
            ReferenceMode::CustomerPhone => "CUSTOMER_PHONE",
            ReferenceMode::Custom => "CUSTOM",
        }
    }

    /// What a stored word stands for.
    pub open spec fn of_word(text: Seq<char>) -> Option<ReferenceMode> {
        if text == "TABLE"@ {
            Some(ReferenceMode::Table)
        } else if text == "CUSTOMER_NAME"@ {
            Some(ReferenceMode::CustomerName)
        } else if text == "CUSTOMER_PHONE"@ {
            Some(ReferenceMode::CustomerPhone)
        } else if text == "CUSTOM"@ {
            Some(ReferenceMode::Custom)
        } else {
            None
        }
    }

    fn read_word(text: &str) -> (result: Option<ReferenceMode>)
        ensures
            result == Self::of_word(text@),
    {
        if same(text, "TABLE") {
            Some(ReferenceMode::Table)
        } else if same(text, "CUSTOMER_NAME") {
            Some(ReferenceMode::CustomerName)
        } else if same(text, "CUSTOMER_PHONE") {
            Some(ReferenceMode::CustomerPhone)
        } else if same(text, "CUSTOM") {
            Some(ReferenceMode::Custom)
        } else {
            None
        }
    }

    /// A word that was stored reads back as what it stood for.
    pub proof fn a_stored_word_reads_back(self)
        ensures
            Self::of_word(self.word()) == Some(self),
    {
        reveal_strlit("TABLE");
        reveal_strlit("CUSTOMER_NAME");
        reveal_strlit("CUSTOMER_PHONE");
        reveal_strlit("CUSTOM");
        assert("CUSTOMER_NAME"@.len() != "TABLE"@.len());
        assert("CUSTOMER_PHONE"@.len() != "TABLE"@.len());
        assert("CUSTOMER_PHONE"@.len() != "CUSTOMER_NAME"@.len());
        assert("CUSTOM"@.len() != "TABLE"@.len());
        assert("CUSTOM"@.len() != "CUSTOMER_NAME"@.len());
        assert("CUSTOM"@.len() != "CUSTOMER_PHONE"@.len());
    }
}

impl ReferenceMode {
    /// Reads a stored mode.
    pub fn parse(text: &str) -> (result: Result<ReferenceMode, RepoError>)
        ensures
            match ReferenceMode::of_word(text@) {
                Some(mode) => result == Ok::<ReferenceMode, RepoError>(mode),
                None => result matches Err(error) && error@ == Why::Refused(
                    "'"@ + text@ + "' is not a tab reference mode this build knows"@,
                ),
            },
    {
        match ReferenceMode::read_word(text) {
            Some(mode) => Ok(mode),
            None => refuse(
                join3("'", text, "' is not a tab reference mode this build knows").as_str(),
            ),
        }
    }
}

#[derive(Clone, Copy, Debug, PartialEq, Eq, Structural)]
pub enum Status {
    Open,
    Closed,
    Reconciled,
}

impl Status {
    /// The word it is stored under.
    pub open spec fn word(self) -> Seq<char> {
        match self {
            Status::Open => "OPEN"@,
            Status::Closed => "CLOSED"@,
            Status::Reconciled => "RECONCILED"@,
        }
    }

    /// The word it is stored under.
    pub fn as_str(self) -> (result: &'static str)
        ensures
            result@ == self.word(),
    {
        match self {
            Status::Open => "OPEN",
            Status::Closed => "CLOSED",
            Status::Reconciled => "RECONCILED",
        }
    }

    /// What a stored word stands for.
    pub open spec fn of_word(text: Seq<char>) -> Option<Status> {
        if text == "OPEN"@ {
            Some(Status::Open)
        } else if text == "CLOSED"@ {
            Some(Status::Closed)
        } else if text == "RECONCILED"@ {
            Some(Status::Reconciled)
        } else {
            None
        }
    }

    fn read_word(text: &str) -> (result: Option<Status>)
        ensures
            result == Self::of_word(text@),
    {
        if same(text, "OPEN") {
            Some(Status::Open)
        } else if same(text, "CLOSED") {
            Some(Status::Closed)
        } else if same(text, "RECONCILED") {
            Some(Status::Reconciled)
        } else {
            None
        }
    }

    /// A word that was stored reads back as what it stood for.
    pub proof fn a_stored_word_reads_back(self)
        ensures
            Self::of_word(self.word()) == Some(self),
    {
        reveal_strlit("OPEN");
        reveal_strlit("CLOSED");
        reveal_strlit("RECONCILED");
        assert("CLOSED"@.len() != "OPEN"@.len());
        assert("RECONCILED"@.len() != "OPEN"@.len());
        assert("RECONCILED"@.len() != "CLOSED"@.len());
    }
}

impl Status {
    /// Reads a stored status.
    pub fn parse(text: &str) -> (result: Result<Status, RepoError>)
        ensures
            match Status::of_word(text@) {
                Some(status) => result == Ok::<Status, RepoError>(status),
                None => result matches Err(error) && error@ == Why::Refused(
                    "'"@ + text@ + "' is not a tab status this build knows"@,
                ),
            },
    {
        match Status::read_word(text) {
            Some(status) => Ok(status),
            None => refuse(join3("'", text, "' is not a tab status this build knows").as_str()),
        }
    }

    /// Where a status stands in search results: open tabs first.
    pub open spec fn rank(self) -> int {
        match self {
            Status::Open => 0,
            Status::Closed => 1,
            Status::Reconciled => 2,
        }
    }

    fn place_in_results(self) -> (result: u8)
        ensures
            result == self.rank(),
    {
        match self {
            Status::Open => 0,
            Status::Closed => 1,
            Status::Reconciled => 2,
        }
    }
}

/// A customer's tab.
#[derive(Debug, PartialEq, Eq)]
pub struct Tab {
    pub id: i64,
    pub code: String,
    pub opened_shift_id: i64,
    pub waiter_id: i64,
    pub reference_mode: ReferenceMode,
    pub table_no: Option<String>,
    pub customer_name: Option<String>,
    pub customer_phone: Option<String>,
    pub custom_ref: Option<String>,
    pub display_label: String,
    pub customer_tin: Option<String>,
    pub status: Status,
    pub opened_at: i64,
    pub opened_by: i64,
    pub closed_shift_id: Option<i64>,
    pub closed_at: Option<i64>,
    pub closed_by: Option<i64>,
    pub is_comped: bool,
}

impl Clone for Tab {
    fn clone(&self) -> (result: Self)
        ensures
            result == *self,
    {
        Tab {
            id: self.id,
            code: self.code.clone(),
            opened_shift_id: self.opened_shift_id,
            waiter_id: self.waiter_id,
            reference_mode: self.reference_mode,
            table_no: copy_text(&self.table_no),
            customer_name: copy_text(&self.customer_name),
            customer_phone: copy_text(&self.customer_phone),
            custom_ref: copy_text(&self.custom_ref),
            display_label: self.display_label.clone(),
            customer_tin: copy_text(&self.customer_tin),
            status: self.status,
            opened_at: self.opened_at,
            opened_by: self.opened_by,
            closed_shift_id: self.closed_shift_id,
            closed_at: self.closed_at,
            closed_by: self.closed_by,
            is_comped: self.is_comped,
        }
    }
}

impl Row for Tab {
    open spec fn key(&self) -> i64 {
        self.id
    }

    fn id(&self) -> (result: i64) {
        self.id
    }

    fn copy_row(&self) -> (result: Self) {
        self.clone()
    }
}

/// Who handed a tab to whom.
#[derive(Debug, PartialEq, Eq)]
pub struct TransferRow {
    pub id: i64,
    pub tab_id: i64,
    pub from_waiter_id: i64,
    pub to_waiter_id: i64,
    pub shift_id: i64,
    pub transferred_at: i64,
    pub transferred_by: i64,
    pub reason: String,
}

impl Clone for TransferRow {
    fn clone(&self) -> (result: Self)
        ensures
            result == *self,
    {
        TransferRow {
            id: self.id,
            tab_id: self.tab_id,
            from_waiter_id: self.from_waiter_id,
            to_waiter_id: self.to_waiter_id,
            shift_id: self.shift_id,
            transferred_at: self.transferred_at,
            transferred_by: self.transferred_by,
            reason: self.reason.clone(),
        }
    }
}

impl Row for TransferRow {
    open spec fn key(&self) -> i64 {
        self.id
    }

    fn id(&self) -> (result: i64) {
        self.id
    }

    fn copy_row(&self) -> (result: Self) {
        self.clone()
    }
}

/// The raw reference collected at open. Separate fields are intentional:
/// searches never have to reinterpret an old tab using today's mode.
#[derive(Clone, Copy, Debug)]
pub struct Reference<'a> {
    pub mode: ReferenceMode,
    pub table_no: Option<&'a str>,
    pub customer_name: Option<&'a str>,
    pub customer_phone: Option<&'a str>,
    pub custom_ref: Option<&'a str>,
    pub customer_tin: Option<&'a str>,
}

impl<'a> Reference<'a> {
    pub fn table(table_no: &'a str) -> (result: Reference<'a>)
        ensures
            result == (Reference {
                mode: ReferenceMode::Table,
                table_no: Some(table_no),
                customer_name: None,
                customer_phone: None,
                custom_ref: None,
                customer_tin: None,
            }),
    {
        Reference {
            mode: ReferenceMode::Table,
            table_no: Some(table_no),
            customer_name: None,
            customer_phone: None,
            custom_ref: None,
            customer_tin: None,
        }
    }

    pub fn customer_name(name: &'a str) -> (result: Reference<'a>)
        ensures
            result == (Reference {
                mode: ReferenceMode::CustomerName,
                table_no: None,
                customer_name: Some(name),
                customer_phone: None,
                custom_ref: None,
                customer_tin: None,
            }),
    {
        Reference {
            mode: ReferenceMode::CustomerName,
            table_no: None,
            customer_name: Some(name),
            customer_phone: None,
            custom_ref: None,
            customer_tin: None,
        }
    }

    pub fn customer_phone(name: &'a str, phone: Option<&'a str>) -> (result: Reference<'a>)
        ensures
            result == (Reference {
                mode: ReferenceMode::CustomerPhone,
                table_no: None,
                customer_name: Some(name),
                customer_phone: phone,
                custom_ref: None,
                customer_tin: None,
            }),
    {
        Reference {
            mode: ReferenceMode::CustomerPhone,
            table_no: None,
            customer_name: Some(name),
            customer_phone: phone,
            custom_ref: None,
            customer_tin: None,
        }
    }

    pub fn custom(custom_ref: &'a str) -> (result: Reference<'a>)
        ensures
            result == (Reference {
                mode: ReferenceMode::Custom,
                table_no: None,
                customer_name: None,
                customer_phone: None,
                custom_ref: Some(custom_ref),
                customer_tin: None,
            }),
    {
        Reference {
            mode: ReferenceMode::Custom,
            table_no: None,
            customer_name: None,
            customer_phone: None,
            custom_ref: Some(custom_ref),
            customer_tin: None,
        }
    }

    pub fn with_customer_tin(self, tin: &'a str) -> (result: Reference<'a>)
        ensures
            result == (Reference { customer_tin: Some(tin), ..self }),
    {
        Reference { customer_tin: Some(tin), ..self }
    }
}

#[derive(Clone, Copy, Debug)]
pub struct NewTab<'a> {
    pub opened_shift_id: i64,
    pub waiter_id: i64,
    pub reference: Reference<'a>,
    pub opened_at: i64,
    pub opened_by: i64,
}

#[derive(Clone, Copy, Debug)]
pub struct Transfer<'a> {
    pub tab_id: i64,
    pub to_waiter_id: i64,
    pub shift_id: i64,
    pub transferred_at: i64,
    pub transferred_by: i64,
    pub reason: &'a str,
}

/// The tab with that identity.
pub open spec fn tab(db: Store, id: i64) -> Option<Tab> {
    row(db.tabs@, id)
}

pub fn find(db: &Store, id: i64) -> (result: Result<Tab, RepoError>)
    ensures
        match tab(*db, id) {
            Some(found) => result == Ok::<Tab, RepoError>(found),
            None => result matches Err(error) && error@ == Why::Missing("tab"@),
        },
{
    match find_row(&db.tabs, id) {
        Some(found) => Ok(found),
        None => Err(RepoError::Missing { what: "tab" }),
    }
}

// ---------------------------------------------------------------------------
// References
// ---------------------------------------------------------------------------

/// A text without blank space around it; nothing, where nothing is left.
pub open spec fn cleaned(value: Option<&str>) -> Option<Seq<char>> {
    match value {
        None => None,
        Some(text) => if trimmed(text@).len() == 0 {
            None
        } else {
            Some(trimmed(text@))
        },
    }
}

/// The characters of a text that may be absent.
pub open spec fn chars_in(value: Option<String>) -> Option<Seq<char>> {
    match value {
        None => None,
        Some(text) => Some(text@),
    }
}

pub(crate) fn clean(value: Option<&str>) -> (result: Option<String>)
    ensures
        chars_in(result) == cleaned(value),
{
    match value {
        None => None,
        Some(text) => {
            let kept: &str = text.trim();
            if kept.is_empty() {
                None
            } else {
                Some(kept.to_owned())
            }
        },
    }
}

/// What a tab is called on the floor, or what is missing for that.
pub open spec fn label_of(reference: Reference<'_>) -> Result<Seq<char>, Seq<char>> {
    match reference.mode {
        ReferenceMode::Table => match cleaned(reference.table_no) {
            Some(value) => Ok("Table "@ + value),
            None => Err("a table tab needs a table number"@),
        },
        ReferenceMode::CustomerName => match cleaned(reference.customer_name) {
            Some(value) => Ok(value),
            None => Err("a customer-name tab needs a customer name"@),
        },
        ReferenceMode::CustomerPhone => match cleaned(reference.customer_name) {
            None => Err("a customer-phone tab needs a customer name"@),
            Some(name) => match cleaned(reference.customer_phone) {
                Some(phone) => Ok(name + " ("@ + phone + ")"@),
                None => Ok(name),
            },
        },
        ReferenceMode::Custom => match cleaned(reference.custom_ref) {
            Some(value) => Ok(value),
            None => Err("a custom tab needs a reference"@),
        },
    }
}

/// A reference as it is stored.
#[derive(Debug)]
struct StoredReference {
    table_no: Option<String>,
    customer_name: Option<String>,
    customer_phone: Option<String>,
    custom_ref: Option<String>,
    customer_tin: Option<String>,
    display_label: String,
}

fn normalise(reference: &Reference<'_>) -> (result: Result<StoredReference, RepoError>)
    ensures
        match label_of(*reference) {
            Ok(label) => result matches Ok(stored) && ({
                &&& chars_in(stored.table_no) == cleaned(reference.table_no)
                &&& chars_in(stored.customer_name) == cleaned(reference.customer_name)
                &&& chars_in(stored.customer_phone) == cleaned(reference.customer_phone)
                &&& chars_in(stored.custom_ref) == cleaned(reference.custom_ref)
                &&& chars_in(stored.customer_tin) == cleaned(reference.customer_tin)
                &&& stored.display_label@ == label
            }),
            Err(why) => result matches Err(error) && error@ == Why::Refused(why),
        },
{
    let table_no: Option<String> = clean(reference.table_no);
    let customer_name: Option<String> = clean(reference.customer_name);
    let customer_phone: Option<String> = clean(reference.customer_phone);
    let custom_ref: Option<String> = clean(reference.custom_ref);
    let customer_tin: Option<String> = clean(reference.customer_tin);
    let display_label: String = match reference.mode {
        ReferenceMode::Table => match &table_no {
            Some(value) => join2("Table ", value.as_str()),
            None => {
                return refuse("a table tab needs a table number");
            },
        },
        ReferenceMode::CustomerName => match &customer_name {
            Some(value) => value.clone(),
            None => {
                return refuse("a customer-name tab needs a customer name");
            },
        },
        ReferenceMode::CustomerPhone => match &customer_name {
            Some(name) => match &customer_phone {
                Some(phone) => {
                    let mut label: String = join3(name.as_str(), " (", phone.as_str());
                    label.append(")");
                    label
                },
                None => name.clone(),
            },
            None => {
                return refuse("a customer-phone tab needs a customer name");
            },
        },
        ReferenceMode::Custom => match &custom_ref {
            Some(value) => value.clone(),
            None => {
                return refuse("a custom tab needs a reference");
            },
        },
    };
    Ok(
        StoredReference {
            table_no,
            customer_name,
            customer_phone,
            custom_ref,
            customer_tin,
            display_label,
        },
    )
}

// ---------------------------------------------------------------------------
// Opening and transferring
// ---------------------------------------------------------------------------

/// What keeps somebody from operating tabs; nothing, where they may.
pub open spec fn operator_refusal(db: Store, id: i64) -> Option<Why> {
    match person(db, id) {
        None => Some(Why::Missing("person"@)),
        Some(found) => if is_active_cashier(found) {
            None
        } else {
            Some(Why::Refused("an active cashier must operate tabs"@))
        },
    }
}

/// What keeps somebody from holding a tab; nothing, where they may.
pub open spec fn holder_refusal(db: Store, id: i64) -> Option<Why> {
    match person(db, id) {
        None => Some(Why::Missing("person"@)),
        Some(found) => if found.active && found.role == staff::Role::Waiter {
            None
        } else {
            Some(Why::Refused("an open tab belongs to an active waiter"@))
        },
    }
}

fn require_cashier(db: &Store, id: i64) -> (result: Result<(), RepoError>)
    ensures
        match operator_refusal(*db, id) {
            None => result is Ok,
            Some(why) => result matches Err(error) && error@ == why,
        },
{
    match staff::find(db, id) {
        Ok(person) => {
            if !person.active || person.role != staff::Role::Cashier {
                return refuse("an active cashier must operate tabs");
            }
            Ok(())
        },
        Err(error) => Err(error),
    }
}

fn require_waiter(db: &Store, id: i64) -> (result: Result<(), RepoError>)
    ensures
        match holder_refusal(*db, id) {
            None => result is Ok,
            Some(why) => result matches Err(error) && error@ == why,
        },
{
    match staff::find(db, id) {
        Ok(person) => {
            if !person.active || person.role != staff::Role::Waiter {
                return refuse("an open tab belongs to an active waiter");
            }
            Ok(())
        },
        Err(error) => Err(error),
    }
}

/// An open tab with that label, capitals aside.
pub open spec fn carries_label(label: Seq<char>) -> spec_fn(Tab) -> bool {
    |t: Tab| t.status == Status::Open && lowered(t.display_label@) == lowered(label)
}

/// Why a tab cannot open; nothing, where it can.
pub open spec fn open_refusal(db: Store, new: NewTab<'_>) -> Option<Why> {
    match operator_refusal(db, new.opened_by) {
        Some(why) => Some(why),
        None => match holder_refusal(db, new.waiter_id) {
            Some(why) => Some(why),
            None => match shift(db, new.opened_shift_id) {
                None => Some(Why::Missing("shift"@)),
                Some(night) => if night.status != shifts::Status::Open {
                    Some(Why::Refused("a tab can only be opened in an open shift"@))
                } else {
                    match label_of(new.reference) {
                        Err(why) => Some(Why::Refused(why)),
                        Ok(label) => if any(db.tabs@, carries_label(label)) {
                            Some(
                                Why::Refused(
                                    "an open tab already uses the reference '"@ + label + "'"@,
                                ),
                            )
                        } else if fresh_id(db.tabs@) is None {
                            Some(Why::Sqlite(SqlWhy::Full))
                        } else if !db.sequences.has_next(Counter::Tab) {
                            Some(Why::Sqlite(SqlWhy::Overflow))
                        } else {
                            None
                        },
                    }
                },
            },
        },
    }
}

/// Whether a tab is the one that was asked for.
pub open spec fn opened_as(tab: Tab, new: NewTab<'_>, number: i64) -> bool {
    &&& tab.code@ == printed(Counter::Tab, number)
    &&& tab.opened_shift_id == new.opened_shift_id
    &&& tab.waiter_id == new.waiter_id
    &&& tab.reference_mode == new.reference.mode
    &&& chars_in(tab.table_no) == cleaned(new.reference.table_no)
    &&& chars_in(tab.customer_name) == cleaned(new.reference.customer_name)
    &&& chars_in(tab.customer_phone) == cleaned(new.reference.customer_phone)
    &&& chars_in(tab.custom_ref) == cleaned(new.reference.custom_ref)
    &&& chars_in(tab.customer_tin) == cleaned(new.reference.customer_tin)
    &&& label_of(new.reference) == Ok::<Seq<char>, Seq<char>>(tab.display_label@)
    &&& tab.status == Status::Open
    &&& tab.opened_at == new.opened_at
    &&& tab.opened_by == new.opened_by
    &&& tab.closed_shift_id is None
    &&& tab.closed_at is None
    &&& tab.closed_by is None
    &&& !tab.is_comped
}

/// Whether a store is another with that tab opened.
pub open spec fn tab_opened(before: Store, after: Store, new: NewTab<'_>, tab: Tab) -> bool {
    &&& fresh_id(before.tabs@) == Some(tab.id)
    &&& opened_as(tab, new, before.sequences.upcoming(Counter::Tab))
    &&& after.tabs@ == before.tabs@.push(tab)
    &&& after == (Store {
        tabs: after.tabs,
        sequences: before.sequences.after(Counter::Tab),
        ..before
    })
}

/// Open a tab against the active business night, freezing its identity.
pub fn open(db: &mut Store, new: &NewTab<'_>) -> (result: Result<Tab, RepoError>)
    ensures
        ledgers_kept(*old(db), *final(db)),
        match result {
            Ok(tab) => {
                &&& open_refusal(*old(db), *new) is None
                &&& tab_opened(*old(db), *final(db), *new, tab)
            },
            Err(error) => {
                &&& *final(db) == *old(db)
                &&& open_refusal(*old(db), *new) == Some(error@)
            },
        },
{
    match require_cashier(db, new.opened_by) {
        Ok(_) => {},
        Err(error) => {
            return Err(error);
        },
    }
    match require_waiter(db, new.waiter_id) {
        Ok(_) => {},
        Err(error) => {
            return Err(error);
        },
    }
    match shifts::find(db, new.opened_shift_id) {
        Ok(night) => {
            if night.status != shifts::Status::Open {
                return refuse("a tab can only be opened in an open shift");
            }
        },
        Err(error) => {
            return Err(error);
        },
    }
    let reference: StoredReference = match normalise(&new.reference) {
        Ok(reference) => reference,
        Err(error) => {
            return Err(error);
        },
    };
    let label: &str = reference.display_label.as_str();
    if any_row(
        &db.tabs,
        |t: &Tab| -> (r: bool)
            ensures
                r == (t.status == Status::Open && lowered(t.display_label@) == lowered(label@))
            { t.status == Status::Open && same_nocase(t.display_label.as_str(), label) },
        Ghost(carries_label(label@)),
    ) {
        return refuse(join3("an open tab already uses the reference '", label, "'").as_str());
    }
    let id: i64 = match next_id(&db.tabs) {
        Some(id) => id,
        None => {
            return Err(RepoError::Sqlite(SqlError::Full));
        },
    };
    let (_, code): (i64, String) = match crate::repo::seq::next(db, Counter::Tab) {
        Ok(taken) => taken,
        Err(error) => {
            return Err(error);
        },
    };
    let tab: Tab = Tab {
        id,
        code,
        opened_shift_id: new.opened_shift_id,
        waiter_id: new.waiter_id,
        reference_mode: new.reference.mode,
        table_no: reference.table_no,
        customer_name: reference.customer_name,
        customer_phone: reference.customer_phone,
        custom_ref: reference.custom_ref,
        display_label: reference.display_label,
        customer_tin: reference.customer_tin,
        status: Status::Open,
        opened_at: new.opened_at,
        opened_by: new.opened_by,
        closed_shift_id: None,
        closed_at: None,
        closed_by: None,
        is_comped: false,
    };
    db.tabs.push(tab.clone());
    Ok(tab)
}

/// Whether no two open tabs carry the same label, capitals aside.
pub open spec fn labels_distinct(tabs: Seq<Tab>) -> bool {
    forall|i: int, j: int|
        0 <= i < j < tabs.len() && (#[trigger] tabs[i]).status == Status::Open && (
        #[trigger] tabs[j]).status == Status::Open ==> lowered(tabs[i].display_label@) != lowered(
            tabs[j].display_label@,
        )
}

/// Two open tabs never answer to the same name.
pub proof fn open_labels_stay_distinct(before: Store, after: Store, new: NewTab<'_>, opened: Tab)
    requires
        labels_distinct(before.tabs@),
        open_refusal(before, new) is None,
        opened_as(opened, new, before.sequences.upcoming(Counter::Tab)),
        after.tabs@ == before.tabs@.push(opened),
    ensures
        labels_distinct(after.tabs@),
{
    let label = opened.display_label@;
    assert forall|i: int, j: int|
        0 <= i < j < after.tabs@.len() && (#[trigger] after.tabs@[i]).status == Status::Open && (
        #[trigger] after.tabs@[j]).status == Status::Open implies lowered(
        after.tabs@[i].display_label@,
    ) != lowered(after.tabs@[j].display_label@) by {
        assert(after.tabs@[i] == before.tabs@[i]);
        if j < before.tabs@.len() {
            assert(after.tabs@[j] == before.tabs@[j]);
        } else {
            assert(!carries_label(label)(before.tabs@[i]));
        }
    }
}

/// Why a tab cannot be handed over; nothing, where it can.
pub open spec fn transfer_refusal(db: Store, transfer: Transfer<'_>) -> Option<Why> {
    match operator_refusal(db, transfer.transferred_by) {
        Some(why) => Some(why),
        None => match holder_refusal(db, transfer.to_waiter_id) {
            Some(why) => Some(why),
            None => match shift(db, transfer.shift_id) {
                None => Some(Why::Missing("shift"@)),
                Some(night) => if night.status != shifts::Status::Open {
                    Some(Why::Refused("a tab can only be transferred during an open shift"@))
                } else {
                    match tab(db, transfer.tab_id) {
                        None => Some(Why::Missing("tab"@)),
                        Some(found) => if found.status != Status::Open {
                            Some(Why::Refused("only an open tab can be transferred"@))
                        } else if found.waiter_id == transfer.to_waiter_id {
                            Some(Why::Refused("a tab is already assigned to that waiter"@))
                        } else if fresh_id(db.transfers@) is None {
                            Some(Why::Sqlite(SqlWhy::Full))
                        } else {
                            None
                        },
                    }
                },
            },
        },
    }
}

/// Whether a line of the handover history is that transfer of that tab.
pub open spec fn logged(row: TransferRow, transfer: Transfer<'_>, tab: Tab) -> bool {
    &&& row.tab_id == transfer.tab_id
    &&& row.from_waiter_id == tab.waiter_id
    &&& row.to_waiter_id == transfer.to_waiter_id
    &&& row.shift_id == transfer.shift_id
    &&& row.transferred_at == transfer.transferred_at
    &&& row.transferred_by == transfer.transferred_by
    &&& row.reason@ == trimmed(transfer.reason@)
}

/// Whether a store is another with that tab handed over.
pub open spec fn tab_handed_over(
    before: Store,
    after: Store,
    request: Transfer<'_>,
    moved: Tab,
) -> bool {
    &&& place(before.tabs@, request.tab_id) matches Some(p) && ({
        let was = before.tabs@[p];
        &&& moved == (Tab { waiter_id: request.to_waiter_id, ..was })
        &&& after.tabs@ == before.tabs@.update(p, moved)
        &&& logged(after.transfers@.last(), request, was)
    })
    &&& after.transfers@.len() == before.transfers@.len() + 1
    &&& after.transfers@.drop_last() == before.transfers@
    &&& fresh_id(before.transfers@) == Some(after.transfers@.last().id)
    &&& after == (Store { tabs: after.tabs, transfers: after.transfers, ..before })
}

/// Move collection responsibility while preserving an append-only account of
/// who handed the tab to whom. Existing orders are never updated.
pub fn transfer(db: &mut Store, request: &Transfer<'_>) -> (result: Result<Tab, RepoError>)
    ensures
        ledgers_kept(*old(db), *final(db)),
        match result {
            Ok(moved) => {
                &&& transfer_refusal(*old(db), *request) is None
                &&& tab_handed_over(*old(db), *final(db), *request, moved)
            },
            Err(error) => {
                &&& *final(db) == *old(db)
                &&& transfer_refusal(*old(db), *request) == Some(error@)
            },
        },
{
    match require_cashier(db, request.transferred_by) {
        Ok(_) => {},
        Err(error) => {
            return Err(error);
        },
    }
    match require_waiter(db, request.to_waiter_id) {
        Ok(_) => {},
        Err(error) => {
            return Err(error);
        },
    }
    match shifts::find(db, request.shift_id) {
        Ok(night) => {
            if night.status != shifts::Status::Open {
                return refuse("a tab can only be transferred during an open shift");
            }
        },
        Err(error) => {
            return Err(error);
        },
    }
    let p: usize = match find_place(&db.tabs, request.tab_id) {
        Some(p) => p,
        None => {
            return Err(RepoError::Missing { what: "tab" });
        },
    };
    if db.tabs[p].status != Status::Open {
        return refuse("only an open tab can be transferred");
    }
    if db.tabs[p].waiter_id == request.to_waiter_id {
        return refuse("a tab is already assigned to that waiter");
    }
    let id: i64 = match next_id(&db.transfers) {
        Some(id) => id,
        None => {
            return Err(RepoError::Sqlite(SqlError::Full));
        },
    };
    let ghost before = db.transfers@;
    db.transfers.push(
        TransferRow {
            id,
            tab_id: request.tab_id,
            from_waiter_id: db.tabs[p].waiter_id,
            to_waiter_id: request.to_waiter_id,
            shift_id: request.shift_id,
            transferred_at: request.transferred_at,
            transferred_by: request.transferred_by,
            reason: request.reason.trim().to_owned(),
        },
    );
    assert(db.transfers@.drop_last() =~= before);
    let mut moved: Tab = db.tabs[p].clone();
    moved.waiter_id = request.to_waiter_id;
    db.tabs.set(p, moved.clone());
    Ok(moved)
}

// ---------------------------------------------------------------------------
// Searching and totalling
// ---------------------------------------------------------------------------

/// Whether a text that may be absent holds what is searched for.
pub open spec fn maybe_holds(value: Option<String>, query: Seq<char>) -> bool {
    match value {
        Some(text) => holds(text@, query),
        None => false,
    }
}

/// Whether a tab answers to a search: by its code, its label, any part of its
/// reference, or its waiter's code or name.
pub open spec fn answers_to(db: Store, tab: Tab, query: Seq<char>) -> bool {
    match person(db, tab.waiter_id) {
        None => false,
        Some(waiter) => {
            ||| holds(tab.code@, query)
            ||| holds(tab.display_label@, query)
            ||| maybe_holds(tab.table_no, query)
            ||| maybe_holds(tab.customer_name, query)
            ||| maybe_holds(tab.customer_phone, query)
            ||| maybe_holds(tab.custom_ref, query)
            ||| holds(waiter.code@, query)
            ||| holds(waiter.name@, query)
        },
    }
}

pub open spec fn found_by(db: Store, query: Seq<char>) -> spec_fn(Tab) -> bool {
    |t: Tab| answers_to(db, t, query)
}

/// Open tabs first, then the closed, then the settled; of each, the newest
/// first.
pub open spec fn shown_before() -> spec_fn(Tab, Tab) -> bool {
    |a: Tab, b: Tab|
        a.status.rank() < b.status.rank() || (a.status.rank() == b.status.rank() && (a.opened_at
            > b.opened_at || (a.opened_at == b.opened_at && a.id > b.id)))
}

/// The tabs that answer to what was typed, or why nothing is looked for.
pub open spec fn tabs_answering(db: Store, query: Seq<char>) -> Result<Seq<Tab>, Why> {
    if trimmed(query).len() == 0 {
        Err(Why::Refused("type a tab reference, waiter, or tab code to search"@))
    } else {
        Ok(in_order(chosen(db.tabs@, found_by(db, trimmed(query))), shown_before()))
    }
}

fn may_contain(value: &Option<String>, query: &str) -> (result: bool)
    ensures
        result == maybe_holds(*value, query@),
{
    match value {
        Some(text) => contains_nocase(text.as_str(), query),
        None => false,
    }
}

fn matches_query(db: &Store, tab: &Tab, query: &str) -> (result: bool)
    ensures
        result == answers_to(*db, *tab, query@),
{
    match staff::find(db, tab.waiter_id) {
        Err(_) => false,
        Ok(waiter) => contains_nocase(tab.code.as_str(), query) || contains_nocase(
            tab.display_label.as_str(),
            query,
        ) || may_contain(&tab.table_no, query) || may_contain(&tab.customer_name, query)
            || may_contain(&tab.customer_phone, query) || may_contain(&tab.custom_ref, query)
            || contains_nocase(waiter.code.as_str(), query) || contains_nocase(
            waiter.name.as_str(),
            query,
        ),
    }
}

/// Search every stored reference, the waiter, and the internal code.
///
/// What is typed is taken literally, and capitals do not matter. Closed
/// results remain searchable, with open tabs shown first.
pub fn search(db: &Store, query: &str) -> (result: Result<Vec<Tab>, RepoError>)
    ensures
        match tabs_answering(*db, query@) {
            Err(why) => result matches Err(error) && error@ == why,
            Ok(list) => result matches Ok(found) && found@ == list,
        },
{
    let wanted: &str = query.trim();
    if wanted.is_empty() {
        return refuse("type a tab reference, waiter, or tab code to search");
    }
    let found: Vec<Tab> = choose_rows(
        &db.tabs,
        |t: &Tab| -> (r: bool)
            ensures
                r == (answers_to(*db, *t, wanted@))
            { matches_query(db, t, wanted) },
        Ghost(found_by(*db, wanted@)),
    );
    Ok(
        sort_rows(
            &found,
            |a: &Tab, b: &Tab| -> (r: bool)
                ensures
                    r == (a.status.rank() < b.status.rank() || (a.status.rank() == b.status.rank()
                        && (a.opened_at > b.opened_at || (a.opened_at == b.opened_at && a.id
                        > b.id))))
                {
                    let left: u8 = a.status.place_in_results();
                    let right: u8 = b.status.place_in_results();
                    left < right || (left == right && (a.opened_at > b.opened_at || (a.opened_at
                        == b.opened_at && a.id > b.id)))
                },
            Ghost(shown_before()),
        ),
    )
}

/// Whether an order line was sold on that tab and issued.
pub open spec fn issued_on(db: Store, line: Line, tab_id: i64) -> bool {
    match row(db.orders@, line.order_id) {
        None => false,
        Some(order) => order.tab_id == tab_id && order.status == orders::Status::Issued,
    }
}

/// What an issued line adds to a tab.
pub open spec fn billed_on(db: Store, tab_id: i64) -> spec_fn(Line) -> Option<i64> {
    |l: Line|
        if issued_on(db, l, tab_id) {
            Some(l.line_total.minor)
        } else {
            None
        }
}

/// What a tab comes to, or why it has no total.
pub open spec fn tab_total(db: Store, tab_id: i64) -> Result<Money, Why> {
    if tab(db, tab_id) is None {
        Err(Why::Missing("tab"@))
    } else {
        match running_sum(db.order_lines@, billed_on(db, tab_id)) {
            Some(minor) => Ok(Money { minor }),
            None => Err(Why::Sqlite(SqlWhy::Overflow)),
        }
    }
}

fn is_issued_on(db: &Store, line: &Line, tab_id: i64) -> (result: bool)
    ensures
        result == issued_on(*db, *line, tab_id),
{
    match find_place(&db.orders, line.order_id) {
        None => false,
        Some(at) => db.orders[at].tab_id == tab_id && db.orders[at].status
            == orders::Status::Issued,
    }
}

/// Sum only issued order lines. Drafts and every terminal correction state are
/// deliberately left out.
pub fn running_total(db: &Store, tab_id: i64) -> (result: Result<Money, RepoError>)
    ensures
        match tab_total(*db, tab_id) {
            Ok(total) => result == Ok::<Money, RepoError>(total),
            Err(why) => result matches Err(error) && error@ == why,
        },
{
    if find_place(&db.tabs, tab_id).is_none() {
        return Err(RepoError::Missing { what: "tab" });
    }
    match sum_rows(
        &db.order_lines,
        |l: &Line| -> (v: Option<i64>)
            ensures
                v == (if issued_on(*db, *l, tab_id) {
                    Some(l.line_total.minor)
                } else {
                    None
                })
            {
                if is_issued_on(db, l, tab_id) {
                    Some(l.line_total.minor)
                } else {
                    None
                }
            },
        Ghost(billed_on(*db, tab_id)),
    ) {
        Some(minor) => Ok(Money { minor }),
        None => Err(RepoError::Sqlite(SqlError::Overflow)),
    }
}

} // verus!

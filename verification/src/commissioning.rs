//! Putting the venue together: who works here, what is on the shelf, what is
//! on the menu, how it is made and what it costs.
//!
//! Only an active owner changes any of it, and every change leaves its line in
//! the audit log: all of it is written, or none of it is.

use vstd::prelude::*;

use crate::ledger::{self, AuditEntry, Event};
use crate::money::{fits, milli_text, Milli, Money};
use crate::repo::catalogue::{
    self, live_drink, next_version, open_price, open_recipe, pour_fraction, pouring_line,
    prices_closed, recipe_lines_of, recipes_closed, revise_refusal, sells_one_for_one, twin, Price,
    Product, ProductRow, Recipe, SaleItem, SaleItemRow,
};
use crate::repo::staff::{self, add_refusal, person, set_active_refusal, Person, Role, StaffRow};
use crate::repo::stock::{self, shelf};
use crate::repo::tabs::chars_in;
use crate::repo::{refuse, RepoError, SqlError, SqlWhy, Why};
use crate::store::{ledgers_kept, Store};
use crate::table::{
    a_fresh_id_is_unused, any, any_row, find_place, fresh_id, has_room, largest_id, next_id, place,
    place_is_first, room_for, row, writing_keeps_places, writing_takes_one_identity, Row,
};
use crate::text::{
    a_bare_text_stays, digits_of_a_number, int_text, is_blank, is_digit, is_white, join2, join3,
    nat_text, number_text, same, trimmed,
};

pub use crate::repo::receipts::Destination;

verus! {

/// What one counted unit is made of, when it is poured or weighed out rather
/// than handed over whole.
#[derive(Clone, Copy, Debug, PartialEq, Eq, Structural)]
pub enum Measure {
    Whole,
    Ml,
    Gram,
}

impl Measure {
    /// The word it is stored under.
    pub open spec fn word(self) -> Seq<char> {
        match self {
            Measure::Whole => "NONE"@,
            Measure::Ml => "ML"@,
            Measure::Gram => "GRAM"@,
        }
    }

    /// The word it is stored under.
    pub fn as_str(self) -> (result: &'static str)
        ensures
            result@ == self.word(),
    {
        match self {
            Measure::Whole => "NONE",
            Measure::Ml => "ML",
            Measure::Gram => "GRAM",
        }
    }
}

impl Default for Measure {
    fn default() -> (result: Measure)
        ensures
            result == Measure::Whole,
    {
        Measure::Whole
    }
}

/// What a product is counted in.
#[derive(Clone, Copy, Debug, PartialEq, Eq, Structural)]
pub enum BaseUnit {
    Bottle,
    Shot,
    Unit,
}

impl BaseUnit {
    /// The word it is stored under.
    pub open spec fn word(self) -> Seq<char> {
        match self {
            BaseUnit::Bottle => "BOTTLE"@,
            BaseUnit::Shot => "SHOT"@,
            BaseUnit::Unit => "UNIT"@,
        }
    }

    /// The word it is stored under.
    pub fn as_str(self) -> (result: &'static str)
        ensures
            result@ == self.word(),
    {
        match self {
            BaseUnit::Bottle => "BOTTLE",
            BaseUnit::Shot => "SHOT",
            BaseUnit::Unit => "UNIT",
        }
    }
}

/// Somebody to be added to the staff. A PIN comes as salt and hash: what was
/// typed is never stored.
#[derive(Clone, Copy, Debug)]
pub struct NewStaff<'a> {
    pub name: &'a str,
    pub role: Role,
    pub pin: Option<(&'a str, &'a str)>,
}

/// Something to be put on the shelf, and on the menu too where it has a price.
#[derive(Clone, Copy, Debug)]
pub struct NewProduct<'a> {
    pub sale_price: Option<Money>,
    pub content_measure: Measure,
    pub content_per_unit: Milli,
    pub name: &'a str,
    pub category: &'a str,
    pub base_unit: BaseUnit,
    pub base_units_per_pack: Milli,
    pub units_per_purchase_pack: i64,
    pub low_stock_threshold: Milli,
    pub tracks_inventory: bool,
    pub destination: Destination,
}

/// What something on the shelf is to be from now on.
#[derive(Clone, Copy, Debug)]
pub struct ProductUpdate<'a> {
    pub content_measure: Measure,
    pub content_per_unit: Milli,
    pub name: &'a str,
    pub category: &'a str,
    pub base_unit: BaseUnit,
    pub base_units_per_pack: Milli,
    pub units_per_purchase_pack: i64,
    pub low_stock_threshold: Milli,
    pub tracks_inventory: bool,
    pub destination: Destination,
    pub active: bool,
}

#[derive(Clone, Copy, Debug)]
pub struct NewSaleItem<'a> {
    pub name: &'a str,
    pub category: &'a str,
}

#[derive(Clone, Copy, Debug)]
pub struct SaleItemUpdate<'a> {
    pub name: &'a str,
    pub category: &'a str,
    pub active: bool,
}

/// One ingredient, in counted units or in the product's own measure.
#[derive(Clone, Copy, Debug, PartialEq, Eq, Structural)]
pub struct RecipeLine {
    pub product_id: i64,
    pub quantity: Milli,
    pub in_measure: bool,
}

/// What a change was about, and its first line in the audit log.
#[derive(Clone, Copy, Debug, PartialEq, Eq, Structural)]
pub struct Change {
    pub entity_id: i64,
    pub audit_sequence: i64,
}

// ---------------------------------------------------------------------------
// Who may
// ---------------------------------------------------------------------------

/// What keeps somebody from changing the venue; nothing, where they may.
pub open spec fn commission_refusal(db: Store, actor: i64) -> Option<Why> {
    match person(db, actor) {
        None => Some(Why::Missing("owner"@)),
        Some(found) => if found.active && found.role == Role::Owner {
            None
        } else {
            Some(Why::Refused("only an active owner may change the venue"@))
        },
    }
}

/// What keeps a change from being made and written down in `lines` lines of
/// the audit log; nothing, where it can be.
pub open spec fn change_refusal(db: Store, actor: i64, lines: int) -> Option<Why> {
    match commission_refusal(db, actor) {
        Some(why) => Some(why),
        None => if !room_for(db.audit@, lines) {
            Some(Why::Sqlite(SqlWhy::Full))
        } else {
            None
        },
    }
}

fn check_change(db: &Store, actor: i64, lines: usize) -> (result: Result<(), RepoError>)
    ensures
        match change_refusal(*db, actor, lines as int) {
            None => result is Ok,
            Some(why) => result matches Err(error) && error@ == why,
        },
{
    match find_place(&db.staff, actor) {
        None => {
            return Err(RepoError::Missing { what: "owner" });
        },
        Some(at) => {
            if !db.staff[at].person.active || db.staff[at].person.role != Role::Owner {
                return refuse("only an active owner may change the venue");
            }
        },
    }
    if !has_room(&db.audit, lines) {
        return Err(RepoError::Sqlite(SqlError::Full));
    }
    Ok(())
}

// ---------------------------------------------------------------------------
// What is written down
// ---------------------------------------------------------------------------

/// A line that a change leaves in the audit log.
pub struct Note {
    pub action: Seq<char>,
    pub entity: Seq<char>,
    pub id: i64,
    pub before: Option<Seq<char>>,
    pub after: Option<Seq<char>>,
}

/// Whether a line of the log is that note.
pub open spec fn noted(entry: AuditEntry, note: Note, by: i64, at: i64) -> bool {
    &&& entry.action@ == note.action
    &&& entry.entity_type@ == note.entity
    &&& entry.entity_id == Some(note.id)
    &&& chars_in(entry.old_value) == note.before
    &&& chars_in(entry.new_value) == note.after
    &&& entry.staff_id == Some(by)
    &&& entry.shift_id is None
    &&& entry.created_at == at
}

/// Whether the log went from `before` to `after` by those notes, in order.
pub open spec fn logged(
    before: Seq<AuditEntry>,
    after: Seq<AuditEntry>,
    notes: Seq<Note>,
    by: i64,
    at: i64,
) -> bool
    decreases notes.len(),
{
    if notes.len() == 0 {
        after == before
    } else {
        &&& after.len() > 0
        &&& logged(before, after.drop_last(), notes.drop_last(), by, at)
        &&& noted(after.last(), notes.last(), by, at)
        &&& fresh_id(after.drop_last()) == Some(after.last().sequence_no)
    }
}

proof fn one_note_more(
    first: Seq<AuditEntry>,
    middle: Seq<AuditEntry>,
    last: Seq<AuditEntry>,
    notes: Seq<Note>,
    note: Note,
    by: i64,
    at: i64,
)
    requires
        logged(first, middle, notes, by, at),
        logged(middle, last, seq![note], by, at),
    ensures
        logged(first, last, notes.push(note), by, at),
{
    reveal_with_fuel(logged, 2);
    assert(seq![note].drop_last() =~= Seq::<Note>::empty());
    assert(notes.push(note).drop_last() =~= notes);
}

/// Writes one line of the audit log.
fn note(
    db: &mut Store,
    action: &str,
    entity: &str,
    id: i64,
    before: Option<&str>,
    after: Option<&str>,
    by: i64,
    at: i64,
) -> (result: Result<i64, RepoError>)
    requires
        room_for(old(db).audit@, 1),
    ensures
        ledgers_kept(*old(db), *final(db)),
        result is Ok,
        fresh_id(old(db).audit@) == Some(result->Ok_0),
        logged(
            old(db).audit@,
            final(db).audit@,
            seq![
                Note {
                    action: action@,
                    entity: entity@,
                    id,
                    before: match before {
                        Some(text) => Some(text@),
                        None => None,
                    },
                    after: match after {
                        Some(text) => Some(text@),
                        None => None,
                    },
                },
            ],
            by,
            at,
        ),
        largest_id(final(db).audit@) == largest_id(old(db).audit@) + 1,
        *final(db) == (Store { audit: final(db).audit, ..*old(db) }),
{
    let event: Event<'_> = Event {
        action,
        entity_type: entity,
        entity_id: Some(id),
        old_value: before,
        new_value: after,
        staff_id: Some(by),
        shift_id: None,
        at,
    };
    let ghost was = db.audit@;
    let sequence_no: i64 = match ledger::append(db, &event) {
        Ok(sequence_no) => sequence_no,
        Err(error) => {
            return Err(error);
        },
    };
    proof {
        reveal_with_fuel(logged, 2);
        assert(db.audit@ =~= was.push(db.audit@.last()));
        writing_takes_one_identity(was, db.audit@.last());
    }
    Ok(sequence_no)
}

/// A code made of a letter or two and a number.
pub open spec fn code_text(prefix: Seq<char>, id: i64) -> Seq<char> {
    prefix + "-"@ + int_text(id as int)
}

fn code(prefix: &str, id: i64) -> (result: String)
    ensures
        result@ == code_text(prefix@, id),
{
    join3(prefix, "-", number_text(id).as_str())
}

proof fn a_code_stays(prefix: Seq<char>, id: i64)
    requires
        prefix.len() > 0,
        !is_white(prefix[0]),
    ensures
        trimmed(code_text(prefix, id)) == code_text(prefix, id),
        !is_blank(code_text(prefix, id)),
{
    let size = if id < 0 {
        (-id) as nat
    } else {
        id as nat
    };
    digits_of_a_number(size);
    let text = code_text(prefix, id);
    let digits = nat_text(size);
    assert(text.last() == digits.last());
    assert(is_digit(digits[digits.len() - 1]));
    assert(text[0] == prefix[0]);
    a_bare_text_stays(text);
}

/// What the log says of something in the catalogue.
pub open spec fn facts_text(name: Seq<char>, category: Seq<char>, active: bool) -> Seq<char> {
    "name="@ + name + "; category="@ + category + "; "@ + active_text(active)
}

/// What the log says of somebody or something being in use.
pub open spec fn active_text(active: bool) -> Seq<char> {
    if active {
        "active=1"@
    } else {
        "active=0"@
    }
}

fn active_word(active: bool) -> (result: &'static str)
    ensures
        result@ == active_text(active),
{
    if active {
        "active=1"
    } else {
        "active=0"
    }
}

fn facts(name: &str, category: &str, active: bool) -> (result: String)
    ensures
        result@ == facts_text(name@, category@, active),
{
    let mut out: String = "name=".to_owned();
    out.append(name);
    out.append("; category=");
    out.append(category);
    out.append("; ");
    out.append(active_word(active));
    assert(out@ =~= facts_text(name@, category@, active));
    out
}

// ---------------------------------------------------------------------------
// People
// ---------------------------------------------------------------------------

/// What the code of somebody with that role starts with.
pub open spec fn staff_prefix(role: Role) -> Seq<char> {
    match role {
        Role::Owner => "OWN"@,
        Role::Cashier => "CSH"@,
        Role::Waiter => "WTR"@,
        Role::Bartender => "BTN"@,
    }
}

fn prefix_of(role: Role) -> (result: &'static str)
    ensures
        result@ == staff_prefix(role),
{
    match role {
        Role::Owner => "OWN",
        Role::Cashier => "CSH",
        Role::Waiter => "WTR",
        Role::Bartender => "BTN",
    }
}

/// What the log says of somebody new. The PIN has no part in it.
pub open spec fn hired_text(name: Seq<char>, role: Role) -> Seq<char> {
    "name="@ + name + "; role="@ + role.word()
}

/// Why somebody cannot be added; nothing, where they can.
pub open spec fn create_staff_refusal(db: Store, actor: i64, input: NewStaff<'_>) -> Option<Why> {
    match change_refusal(db, actor, 1) {
        Some(why) => Some(why),
        None => if fresh_id(db.staff@) is None {
            Some(Why::Sqlite(SqlWhy::Full))
        } else {
            add_refusal(db, input.role, input.pin is Some)
        },
    }
}

/// Whether a row is that new person's.
pub open spec fn hired(new: StaffRow, id: i64, input: NewStaff<'_>, at: i64) -> bool {
    &&& new.person.id == id
    &&& new.person.code@ == code_text(staff_prefix(input.role), id)
    &&& new.person.name@ == trimmed(input.name@)
    &&& new.person.role == input.role
    &&& new.person.active
    &&& new.created_at == at
    &&& match input.pin {
        Some((salt, hash)) => {
            &&& new.pin_salt matches Some(text) && text@ == salt@
            &&& new.pin_hash matches Some(text) && text@ == hash@
        },
        None => new.pin_salt is None && new.pin_hash is None,
    }
}

/// Whether somebody was added to the staff, and the log says so.
pub open spec fn staff_created(
    before: Store,
    after: Store,
    id: i64,
    input: NewStaff<'_>,
    by: i64,
    at: i64,
) -> bool {
    &&& fresh_id(before.staff@) == Some(id)
    &&& after.staff@.len() == before.staff@.len() + 1
    &&& after.staff@.drop_last() == before.staff@
    &&& hired(after.staff@.last(), id, input, at)
    &&& logged(
        before.audit@,
        after.audit@,
        seq![
            Note {
                action: "STAFF_CREATED"@,
                entity: "staff"@,
                id: id,
                before: None,
                after: Some(hired_text(trimmed(input.name@), input.role)),
            },
        ],
        by,
        at,
    )
    &&& after == (Store {
        staff: after.staff,
        audit: after.audit,
        ..before
    })
}

/// Adds somebody to the staff.
pub fn create_staff(db: &mut Store, actor: i64, input: &NewStaff<'_>, at: i64) -> (result: Result<
    Change,
    RepoError,
>)
    ensures
        ledgers_kept(*old(db), *final(db)),
        match result {
            Ok(change) => {
                &&& create_staff_refusal(*old(db), actor, *input) is None
                &&& fresh_id(old(db).audit@) == Some(change.audit_sequence)
                &&& staff_created(*old(db), *final(db), change.entity_id, *input, actor, at)
            },
            Err(error) => {
                &&& *final(db) == *old(db)
                &&& create_staff_refusal(*old(db), actor, *input) == Some(error@)
            },
        },
{
    match check_change(db, actor, 1) {
        Ok(_) => {},
        Err(error) => {
            return Err(error);
        },
    }
    let id: i64 = match next_id(&db.staff) {
        Some(id) => id,
        None => {
            return Err(RepoError::Sqlite(SqlError::Full));
        },
    };
    let code: String = code(prefix_of(input.role), id);
    match staff::add(db, code.as_str(), input.name, input.role, input.pin, at) {
        Ok(_) => {},
        Err(error) => {
            return Err(error);
        },
    }
    let mut said: String = join3("name=", input.name.trim(), "; role=");
    said.append(input.role.as_str());
    assert(said@ =~= hired_text(trimmed(input.name@), input.role));
    let audit_sequence: i64 = match note(
        db,
        "STAFF_CREATED",
        "staff",
        id,
        None,
        Some(said.as_str()),
        actor,
        at,
    ) {
        Ok(sequence) => sequence,
        Err(error) => {
            return Err(error);
        },
    };
    Ok(Change { entity_id: id, audit_sequence })
}

/// Why somebody cannot be taken off the floor or put back; nothing, where they
/// can.
pub open spec fn staff_active_refusal(
    db: Store,
    actor: i64,
    staff_id: i64,
    active: bool,
) -> Option<Why> {
    match change_refusal(db, actor, 1) {
        Some(why) => Some(why),
        None => set_active_refusal(db, staff_id, active),
    }
}

/// What taking something out of use, or putting it back, is called in the log.
pub open spec fn switched(
    off: Seq<char>,
    on: Seq<char>,
    entity: Seq<char>,
    id: i64,
    was: bool,
    active: bool,
) -> Note {
    Note {
        action: if active {
            on
        } else {
            off
        },
        entity,
        id,
        before: Some(active_text(was)),
        after: Some(active_text(active)),
    }
}

/// Whether somebody was taken off the floor or put back, and the log says so.
pub open spec fn staff_switched(
    before: Store,
    after: Store,
    staff_id: i64,
    active: bool,
    by: i64,
    at: i64,
) -> bool {
    &&& place(before.staff@, staff_id) matches Some(spot) && {
        let was = before.staff@[spot];
        &&& after.staff@ == before.staff@.update(
            spot,
            StaffRow { person: Person { active, ..was.person }, ..was },
        )
        &&& logged(
            before.audit@,
            after.audit@,
            seq![
                switched(
                    "STAFF_DEACTIVATED"@,
                    "STAFF_ACTIVATED"@,
                    "staff"@,
                    staff_id,
                    was.person.active,
                    active,
                ),
            ],
            by,
            at,
        )
    }
    &&& after == (Store {
        staff: after.staff,
        audit: after.audit,
        ..before
    })
}

/// Takes somebody off the floor, or puts them back.
pub fn set_staff_active(db: &mut Store, actor: i64, staff_id: i64, active: bool, at: i64) -> (result:
    Result<Change, RepoError>)
    ensures
        ledgers_kept(*old(db), *final(db)),
        match result {
            Ok(change) => {
                &&& staff_active_refusal(*old(db), actor, staff_id, active) is None
                &&& change.entity_id == staff_id
                &&& fresh_id(old(db).audit@) == Some(change.audit_sequence)
                &&& staff_switched(*old(db), *final(db), staff_id, active, actor, at)
            },
            Err(error) => {
                &&& *final(db) == *old(db)
                &&& staff_active_refusal(*old(db), actor, staff_id, active) == Some(error@)
            },
        },
{
    match check_change(db, actor, 1) {
        Ok(_) => {},
        Err(error) => {
            return Err(error);
        },
    }
    let was: bool = match find_place(&db.staff, staff_id) {
        Some(spot) => db.staff[spot].person.active,
        None => false,
    };
    match staff::set_active(db, staff_id, active, at) {
        Ok(_) => {},
        Err(error) => {
            return Err(error);
        },
    }
    let action: &str = if active {
        "STAFF_ACTIVATED"
    } else {
        "STAFF_DEACTIVATED"
    };
    let audit_sequence: i64 = match note(
        db,
        action,
        "staff",
        staff_id,
        Some(active_word(was)),
        Some(active_word(active)),
        actor,
        at,
    ) {
        Ok(sequence) => sequence,
        Err(error) => {
            return Err(error);
        },
    };
    Ok(Change { entity_id: staff_id, audit_sequence })
}

// ---------------------------------------------------------------------------
// The menu
// ---------------------------------------------------------------------------

/// What is wrong with a menu entry; nothing, where it is right.
pub open spec fn menu_objection(name: Seq<char>, category: Seq<char>) -> Option<Seq<char>> {
    if is_blank(name) {
        Some("a sale item needs a name"@)
    } else if is_blank(category) {
        Some("a sale item needs a category"@)
    } else {
        None
    }
}

/// Why a menu entry cannot be added; nothing, where it can.
pub open spec fn create_sale_item_refusal(
    db: Store,
    actor: i64,
    input: NewSaleItem<'_>,
) -> Option<Why> {
    match change_refusal(db, actor, 1) {
        Some(why) => Some(why),
        None => if fresh_id(db.sale_items@) is None {
            Some(Why::Sqlite(SqlWhy::Full))
        } else {
            match menu_objection(input.name@, input.category@) {
                Some(why) => Some(Why::Refused(why)),
                None => None,
            }
        },
    }
}

/// Whether a row is that new menu entry.
pub open spec fn offered(
    new: SaleItemRow,
    id: i64,
    name: Seq<char>,
    category: Seq<char>,
    from_product_id: Option<i64>,
    at: i64,
) -> bool {
    &&& new.item.id == id
    &&& new.item.code@ == code_text("S"@, id)
    &&& new.item.name@ == trimmed(name)
    &&& new.item.category@ == trimmed(category)
    &&& new.item.active
    &&& new.from_product_id == from_product_id
    &&& new.created_at == at
}

/// The note of a new menu entry.
pub open spec fn offered_note(id: i64, name: Seq<char>, category: Seq<char>) -> Note {
    Note {
        action: "SALE_ITEM_CREATED"@,
        entity: "sale_item"@,
        id,
        before: None,
        after: Some(facts_text(trimmed(name), trimmed(category), true)),
    }
}

/// Writes a menu entry and its note, once nothing stands in the way.
fn write_sale_item(db: &mut Store, name: &str, category: &str, actor: i64, at: i64) -> (result:
    Result<Change, RepoError>)
    requires
        fresh_id(old(db).sale_items@) is Some,
        menu_objection(name@, category@) is None,
        room_for(old(db).audit@, 1),
    ensures
        ledgers_kept(*old(db), *final(db)),
        result matches Ok(change) && {
            &&& fresh_id(old(db).sale_items@) == Some(change.entity_id)
            &&& fresh_id(old(db).audit@) == Some(change.audit_sequence)
            &&& final(db).sale_items@.len() == old(db).sale_items@.len() + 1
            &&& final(db).sale_items@.drop_last() == old(db).sale_items@
            &&& offered(
                final(db).sale_items@.last(),
                change.entity_id,
                name@,
                category@,
                None,
                at,
            )
            &&& logged(
                old(db).audit@,
                final(db).audit@,
                seq![offered_note(change.entity_id, name@, category@)],
                actor,
                at,
            )
        },
        largest_id(final(db).audit@) == largest_id(old(db).audit@) + 1,
        *final(db) == (Store {
            sale_items: final(db).sale_items,
            audit: final(db).audit,
            ..*old(db)
        }),
{
    let id: i64 = match next_id(&db.sale_items) {
        Some(id) => id,
        None => {
            return Err(RepoError::Sqlite(SqlError::Full));
        },
    };
    let code: String = code("S", id);
    proof {
        reveal_strlit("S");
        a_code_stays("S"@, id);
    }
    match catalogue::add_sale_item(
        db,
        &catalogue::NewSaleItem { code: code.as_str(), name, category },
        at,
    ) {
        Ok(_) => {},
        Err(error) => {
            return Err(error);
        },
    }
    let said: String = facts(name.trim(), category.trim(), true);
    let audit_sequence: i64 = match note(
        db,
        "SALE_ITEM_CREATED",
        "sale_item",
        id,
        None,
        Some(said.as_str()),
        actor,
        at,
    ) {
        Ok(sequence) => sequence,
        Err(error) => {
            return Err(error);
        },
    };
    Ok(Change { entity_id: id, audit_sequence })
}

fn check_menu_entry(name: &str, category: &str) -> (result: Result<(), RepoError>)
    ensures
        match menu_objection(name@, category@) {
            None => result is Ok,
            Some(why) => result matches Err(error) && error@ == Why::Refused(why),
        },
{
    proof {
        reveal_strlit("S");
        a_bare_text_stays("S"@);
    }
    catalogue::validate_sale_item(&catalogue::NewSaleItem { code: "S", name, category })
}

/// Whether a menu entry was added, and the log says so.
pub open spec fn sale_item_created(
    before: Store,
    after: Store,
    id: i64,
    input: NewSaleItem<'_>,
    by: i64,
    at: i64,
) -> bool {
    &&& fresh_id(before.sale_items@) == Some(id)
    &&& after.sale_items@.len() == before.sale_items@.len() + 1
    &&& after.sale_items@.drop_last() == before.sale_items@
    &&& offered(
        after.sale_items@.last(),
        id,
        input.name@,
        input.category@,
        None,
        at,
    )
    &&& logged(
        before.audit@,
        after.audit@,
        seq![offered_note(id, input.name@, input.category@)],
        by,
        at,
    )
    &&& after == (Store {
        sale_items: after.sale_items,
        audit: after.audit,
        ..before
    })
}

/// Adds a menu entry. It cannot be sold until it has a recipe and a price.
pub fn create_sale_item(db: &mut Store, actor: i64, input: &NewSaleItem<'_>, at: i64) -> (result:
    Result<Change, RepoError>)
    ensures
        ledgers_kept(*old(db), *final(db)),
        match result {
            Ok(change) => {
                &&& create_sale_item_refusal(*old(db), actor, *input) is None
                &&& fresh_id(old(db).audit@) == Some(change.audit_sequence)
                &&& sale_item_created(*old(db), *final(db), change.entity_id, *input, actor, at)
            },
            Err(error) => {
                &&& *final(db) == *old(db)
                &&& create_sale_item_refusal(*old(db), actor, *input) == Some(error@)
            },
        },
{
    match check_change(db, actor, 1) {
        Ok(_) => {},
        Err(error) => {
            return Err(error);
        },
    }
    if next_id(&db.sale_items).is_none() {
        return Err(RepoError::Sqlite(SqlError::Full));
    }
    match check_menu_entry(input.name, input.category) {
        Ok(_) => {},
        Err(error) => {
            return Err(error);
        },
    }
    write_sale_item(db, input.name, input.category, actor, at)
}

/// Whether a drink is sitting on a tab nobody has settled yet.
pub open spec fn still_drunk(db: Store, sale_item_id: i64) -> bool {
    exists|i: int|
        0 <= i < db.order_lines@.len() && (#[trigger] db.order_lines@[i]).sale_item_id
            == sale_item_id && catalogue::sits_on_open_tab(db, db.order_lines@[i])
}

/// Why a menu entry cannot be edited; nothing, where it can.
pub open spec fn update_sale_item_refusal(
    db: Store,
    actor: i64,
    sale_item_id: i64,
    input: SaleItemUpdate<'_>,
) -> Option<Why> {
    match change_refusal(db, actor, 1) {
        Some(why) => Some(why),
        None => match row(db.sale_items@, sale_item_id) {
            None => Some(Why::Missing("sale item"@)),
            Some(listed) => if is_blank(listed.item.code@) {
                Some(Why::Refused("a sale item needs a code"@))
            } else {
                match menu_objection(input.name@, input.category@) {
                    Some(why) => Some(Why::Refused(why)),
                    None => if listed.item.active && !input.active && still_drunk(
                        db,
                        sale_item_id,
                    ) {
                        Some(Why::Refused("that drink is on a tab that is still open"@))
                    } else {
                        None
                    },
                }
            },
        },
    }
}

/// Whether a menu entry was edited, and the log says so.
pub open spec fn sale_item_updated(
    before: Store,
    after: Store,
    sale_item_id: i64,
    input: SaleItemUpdate<'_>,
    by: i64,
    at: i64,
) -> bool {
    &&& place(before.sale_items@, sale_item_id) matches Some(spot) && {
        let was = before.sale_items@[spot];
        let now = after.sale_items@[spot];
        &&& after.sale_items@ == before.sale_items@.update(spot, now)
        &&& now.item.id == was.item.id
        &&& now.item.code@ == trimmed(was.item.code@)
        &&& now.item.name@ == trimmed(input.name@)
        &&& now.item.category@ == trimmed(input.category@)
        &&& now.item.active == input.active
        &&& now.from_product_id == was.from_product_id
        &&& now.created_at == was.created_at
        &&& logged(
            before.audit@,
            after.audit@,
            seq![
                Note {
                    action: "SALE_ITEM_CHANGED"@,
                    entity: "sale_item"@,
                    id: sale_item_id,
                    before: Some(
                        facts_text(
                            was.item.name@,
                            was.item.category@,
                            was.item.active,
                        ),
                    ),
                    after: Some(
                        facts_text(
                            trimmed(input.name@),
                            trimmed(input.category@),
                            input.active,
                        ),
                    ),
                },
            ],
            by,
            at,
        )
    }
    &&& after == (Store {
        sale_items: after.sale_items,
        audit: after.audit,
        ..before
    })
}

/// Edits a menu entry.
pub fn update_sale_item(
    db: &mut Store,
    actor: i64,
    sale_item_id: i64,
    input: &SaleItemUpdate<'_>,
    at: i64,
) -> (result: Result<Change, RepoError>)
    ensures
        ledgers_kept(*old(db), *final(db)),
        match result {
            Ok(change) => {
                &&& update_sale_item_refusal(*old(db), actor, sale_item_id, *input) is None
                &&& change.entity_id == sale_item_id
                &&& fresh_id(old(db).audit@) == Some(change.audit_sequence)
                &&& sale_item_updated(*old(db), *final(db), sale_item_id, *input, actor, at)
            },
            Err(error) => {
                &&& *final(db) == *old(db)
                &&& update_sale_item_refusal(*old(db), actor, sale_item_id, *input) == Some(error@)
            },
        },
{
    match check_change(db, actor, 1) {
        Ok(_) => {},
        Err(error) => {
            return Err(error);
        },
    }
    let was: SaleItem = match catalogue::sale_item(db, sale_item_id) {
        Ok(item) => item,
        Err(error) => {
            return Err(error);
        },
    };
    let new: catalogue::NewSaleItem<'_> = catalogue::NewSaleItem {
        code: was.code.as_str(),
        name: input.name,
        category: input.category,
    };
    match catalogue::validate_sale_item(&new) {
        Ok(_) => {},
        Err(error) => {
            return Err(error);
        },
    }
    if was.active && !input.active && catalogue::on_an_open_tab(db, sale_item_id) {
        return refuse("that drink is on a tab that is still open");
    }
    match catalogue::update_sale_item(db, sale_item_id, &new, input.active) {
        Ok(_) => {},
        Err(error) => {
            return Err(error);
        },
    }
    let before: String = facts(was.name.as_str(), was.category.as_str(), was.active);
    let after: String = facts(input.name.trim(), input.category.trim(), input.active);
    let audit_sequence: i64 = match note(
        db,
        "SALE_ITEM_CHANGED",
        "sale_item",
        sale_item_id,
        Some(before.as_str()),
        Some(after.as_str()),
        actor,
        at,
    ) {
        Ok(sequence) => sequence,
        Err(error) => {
            return Err(error);
        },
    };
    Ok(Change { entity_id: sale_item_id, audit_sequence })
}

/// Why a drink cannot be taken off the menu or put back; nothing, where it can.
pub open spec fn sale_item_active_refusal(
    db: Store,
    actor: i64,
    sale_item_id: i64,
    active: bool,
) -> Option<Why> {
    match change_refusal(db, actor, 1) {
        Some(why) => Some(why),
        None => match row(db.sale_items@, sale_item_id) {
            None => Some(Why::Missing("sale item"@)),
            Some(listed) => if listed.item.active && !active && still_drunk(db, sale_item_id) {
                Some(Why::Refused("that drink is on a tab that is still open"@))
            } else {
                None
            },
        },
    }
}

/// Whether a drink was taken off the menu or put back, and the log says so.
pub open spec fn sale_item_switched(
    before: Store,
    after: Store,
    sale_item_id: i64,
    active: bool,
    by: i64,
    at: i64,
) -> bool {
    &&& place(before.sale_items@, sale_item_id) matches Some(spot) && {
        let was = before.sale_items@[spot];
        &&& after.sale_items@ == before.sale_items@.update(
            spot,
            SaleItemRow { item: SaleItem { active, ..was.item }, ..was },
        )
        &&& logged(
            before.audit@,
            after.audit@,
            seq![
                switched(
                    "SALE_ITEM_DEACTIVATED"@,
                    "SALE_ITEM_ACTIVATED"@,
                    "sale_item"@,
                    sale_item_id,
                    was.item.active,
                    active,
                ),
            ],
            by,
            at,
        )
    }
    &&& after == (Store {
        sale_items: after.sale_items,
        audit: after.audit,
        ..before
    })
}

/// Takes a drink off the menu, or puts it back. Never a delete.
pub fn set_sale_item_active(
    db: &mut Store,
    actor: i64,
    sale_item_id: i64,
    active: bool,
    at: i64,
) -> (result: Result<Change, RepoError>)
    ensures
        ledgers_kept(*old(db), *final(db)),
        match result {
            Ok(change) => {
                &&& sale_item_active_refusal(*old(db), actor, sale_item_id, active) is None
                &&& change.entity_id == sale_item_id
                &&& fresh_id(old(db).audit@) == Some(change.audit_sequence)
                &&& sale_item_switched(*old(db), *final(db), sale_item_id, active, actor, at)
            },
            Err(error) => {
                &&& *final(db) == *old(db)
                &&& sale_item_active_refusal(*old(db), actor, sale_item_id, active) == Some(error@)
            },
        },
{
    match check_change(db, actor, 1) {
        Ok(_) => {},
        Err(error) => {
            return Err(error);
        },
    }
    let was: bool = match find_place(&db.sale_items, sale_item_id) {
        Some(spot) => db.sale_items[spot].item.active,
        None => {
            return Err(RepoError::Missing { what: "sale item" });
        },
    };
    if was && !active && catalogue::on_an_open_tab(db, sale_item_id) {
        return refuse("that drink is on a tab that is still open");
    }
    match catalogue::set_sale_item_active(db, sale_item_id, active) {
        Ok(_) => {},
        Err(error) => {
            return Err(error);
        },
    }
    let action: &str = if active {
        "SALE_ITEM_ACTIVATED"
    } else {
        "SALE_ITEM_DEACTIVATED"
    };
    let audit_sequence: i64 = match note(
        db,
        action,
        "sale_item",
        sale_item_id,
        Some(active_word(was)),
        Some(active_word(active)),
        actor,
        at,
    ) {
        Ok(sequence) => sequence,
        Err(error) => {
            return Err(error);
        },
    };
    Ok(Change { entity_id: sale_item_id, audit_sequence })
}

// ---------------------------------------------------------------------------
// Recipes and prices
// ---------------------------------------------------------------------------

/// The part of a counted unit that an amount poured of a product is, or why it
/// is none.
pub open spec fn units_poured(product: Product, poured: Milli) -> Result<Milli, Seq<char>> {
    let units = pour_fraction(
        poured.thousandths as int,
        product.content_per_unit.thousandths as int,
    );
    if product.content_measure@ == "NONE"@ || product.content_per_unit.thousandths <= 0 {
        Err("that item does not say how much one holds"@)
    } else if !fits(units) {
        Err("that measure is too large to work with"@)
    } else if units <= 0 {
        Err("that measure is too small to draw anything off the shelf"@)
    } else {
        Ok(Milli { thousandths: units as i64 })
    }
}

fn pour(product: &Product, poured: Milli) -> (result: Result<Milli, RepoError>)
    ensures
        match units_poured(*product, poured) {
            Ok(units) => result == Ok::<Milli, RepoError>(units),
            Err(why) => result matches Err(error) && error@ == Why::Refused(why),
        },
{
    if same(product.content_measure.as_str(), "NONE") {
        return refuse("that item does not say how much one holds");
    }
    catalogue::measure_to_units(poured, product.content_per_unit)
}

/// What a recipe line takes off the shelf, in counted units, or why it cannot.
pub open spec fn line_units(db: Store, line: RecipeLine) -> Result<Milli, Why> {
    match row(db.products@, line.product_id) {
        None => Err(Why::Missing("product"@)),
        Some(found) => if !line.in_measure {
            Ok(line.quantity)
        } else {
            match units_poured(found.product, line.quantity) {
                Ok(units) => Ok(units),
                Err(why) => Err(Why::Refused(why)),
            }
        },
    }
}

/// A recipe in counted units, or why its first impossible line is impossible.
pub open spec fn lines_in_units(db: Store, lines: Seq<RecipeLine>) -> Result<
    Seq<(i64, Milli)>,
    Why,
>
    decreases lines.len(),
{
    if lines.len() == 0 {
        Ok(Seq::empty())
    } else {
        match lines_in_units(db, lines.drop_last()) {
            Err(why) => Err(why),
            Ok(so_far) => match line_units(db, lines.last()) {
                Err(why) => Err(why),
                Ok(units) => Ok(so_far.push((lines.last().product_id, units))),
            },
        }
    }
}

proof fn an_impossible_line_stays(db: Store, lines: Seq<RecipeLine>, n: int)
    requires
        0 <= n <= lines.len(),
        lines_in_units(db, lines.take(n)) is Err,
    ensures
        lines_in_units(db, lines) == lines_in_units(db, lines.take(n)),
    decreases lines.len() - n,
{
    if n == lines.len() {
        assert(lines.take(n) =~= lines);
    } else {
        assert(lines.take(n + 1).drop_last() =~= lines.take(n));
        an_impossible_line_stays(db, lines, n + 1);
    }
}

fn in_units(db: &Store, lines: &[RecipeLine]) -> (result: Result<Vec<(i64, Milli)>, RepoError>)
    ensures
        match lines_in_units(*db, lines@) {
            Ok(units) => result matches Ok(list) && list@ == units,
            Err(why) => result matches Err(error) && error@ == why,
        },
{
    let mut result: Vec<(i64, Milli)> = Vec::new();
    let mut i: usize = 0;
    assert(lines@.take(0) =~= Seq::<RecipeLine>::empty());
    while i < lines.len()
        invariant
            i <= lines.len(),
            lines_in_units(*db, lines@.take(i as int)) == Ok::<Seq<(i64, Milli)>, Why>(result@),
        decreases lines.len() - i,
    {
        let line: RecipeLine = lines[i];
        assert(lines@.take(i + 1).drop_last() =~= lines@.take(i as int));
        assert(lines@.take(i + 1).last() == line);
        let units: Result<Milli, RepoError> = match find_place(&db.products, line.product_id) {
            None => Err(RepoError::Missing { what: "product" }),
            Some(at) => if line.in_measure {
                pour(&db.products[at].product, line.quantity)
            } else {
                Ok(line.quantity)
            },
        };
        match units {
            Ok(units) => {
                result.push((line.product_id, units));
            },
            Err(error) => {
                proof {
                    an_impossible_line_stays(*db, lines@, i + 1);
                }
                return Err(error);
            },
        }
        i = i + 1;
    }
    assert(lines@.take(lines@.len() as int) =~= lines@);
    Ok(result)
}

/// Why a recipe cannot be replaced; nothing, where it can.
pub open spec fn revise_recipe_refusal(
    db: Store,
    actor: i64,
    sale_item_id: i64,
    lines: Seq<RecipeLine>,
) -> Option<Why> {
    match change_refusal(db, actor, 1) {
        Some(why) => Some(why),
        None => if row(db.sale_items@, sale_item_id) is None {
            Some(Why::Missing("sale item"@))
        } else {
            match lines_in_units(db, lines) {
                Err(why) => Some(why),
                Ok(units) => revise_refusal(db, sale_item_id, units),
            }
        },
    }
}

/// What the log says of a version of a recipe.
pub open spec fn version_text(version: int) -> Seq<char> {
    "version="@ + int_text(version)
}

/// The note of a new version of a recipe.
pub open spec fn recipe_note(db: Store, sale_item_id: i64, recipe_id: i64) -> Note {
    Note {
        action: "RECIPE_CHANGED"@,
        entity: "recipe"@,
        id: recipe_id,
        before: match open_recipe(db, sale_item_id) {
            Some(recipe) => Some(version_text(recipe.version as int)),
            None => None,
        },
        after: Some(version_text(next_version(db, sale_item_id))),
    }
}

/// Whether a recipe was replaced by those lines, in counted units.
pub open spec fn recipe_revised(
    before: Store,
    after: Store,
    sale_item_id: i64,
    lines: Seq<(i64, Milli)>,
    by: i64,
    at: i64,
) -> bool {
    let id = fresh_id(before.recipes@)->0;
    &&& fresh_id(before.recipes@) is Some
    &&& after.recipes@ == recipes_closed(before.recipes@, sale_item_id, at).push(
        Recipe {
            id,
            sale_item_id,
            version: next_version(before, sale_item_id) as i64,
            effective_from: at,
            effective_to: None,
            created_by: Some(by),
        },
    )
    &&& after.recipe_lines@ == before.recipe_lines@ + recipe_lines_of(id, lines)
}

/// Writes a new version of a recipe and its note, once nothing stands in the
/// way.
fn write_recipe(
    db: &mut Store,
    sale_item_id: i64,
    lines: &[(i64, Milli)],
    actor: i64,
    at: i64,
) -> (result: Result<Change, RepoError>)
    requires
        revise_refusal(*old(db), sale_item_id, lines@) is None,
        room_for(old(db).audit@, 1),
    ensures
        ledgers_kept(*old(db), *final(db)),
        result matches Ok(change) && {
            &&& fresh_id(old(db).recipes@) == Some(change.entity_id)
            &&& fresh_id(old(db).audit@) == Some(change.audit_sequence)
            &&& logged(
                old(db).audit@,
                final(db).audit@,
                seq![recipe_note(*old(db), sale_item_id, change.entity_id)],
                actor,
                at,
            )
        },
        recipe_revised(*old(db), *final(db), sale_item_id, lines@, actor, at),
        largest_id(final(db).audit@) == largest_id(old(db).audit@) + 1,
        *final(db) == (Store {
            recipes: final(db).recipes,
            recipe_lines: final(db).recipe_lines,
            audit: final(db).audit,
            ..*old(db)
        }),
{
    let (before, version): (Option<String>, i64) = match catalogue::recipe_in_force(
        db,
        sale_item_id,
    ) {
        Some(recipe) => (
            Some(join2("version=", number_text(recipe.version).as_str())),
            recipe.version + 1,
        ),
        None => (None, 1),
    };
    let after: String = join2("version=", number_text(version).as_str());
    let id: i64 = match catalogue::revise_recipe(db, sale_item_id, lines, at, actor) {
        Ok(id) => id,
        Err(error) => {
            return Err(error);
        },
    };
    let said: Option<&str> = match &before {
        Some(text) => Some(text.as_str()),
        None => None,
    };
    let audit_sequence: i64 = match note(
        db,
        "RECIPE_CHANGED",
        "recipe",
        id,
        said,
        Some(after.as_str()),
        actor,
        at,
    ) {
        Ok(sequence) => sequence,
        Err(error) => {
            return Err(error);
        },
    };
    Ok(Change { entity_id: id, audit_sequence })
}

/// Whether a recipe was replaced, and the log says so.
pub open spec fn recipe_replaced(
    before: Store,
    after: Store,
    sale_item_id: i64,
    lines: Seq<RecipeLine>,
    by: i64,
    at: i64,
) -> bool {
    &&& lines_in_units(before, lines) matches Ok(units) && recipe_revised(
        before,
        after,
        sale_item_id,
        units,
        by,
        at,
    )
    &&& logged(
        before.audit@,
        after.audit@,
        seq![recipe_note(before, sale_item_id, fresh_id(before.recipes@)->0)],
        by,
        at,
    )
    &&& after == (Store {
        recipes: after.recipes,
        recipe_lines: after.recipe_lines,
        audit: after.audit,
        ..before
    })
}

/// Replaces a drink's recipe wholesale. The previous version is closed, never
/// edited, so a night already traded keeps the recipe it was poured under.
pub fn revise_recipe(
    db: &mut Store,
    actor: i64,
    sale_item_id: i64,
    lines: &[RecipeLine],
    at: i64,
) -> (result: Result<Change, RepoError>)
    ensures
        ledgers_kept(*old(db), *final(db)),
        match result {
            Ok(change) => {
                &&& revise_recipe_refusal(*old(db), actor, sale_item_id, lines@) is None
                &&& fresh_id(old(db).recipes@) == Some(change.entity_id)
                &&& fresh_id(old(db).audit@) == Some(change.audit_sequence)
                &&& recipe_replaced(*old(db), *final(db), sale_item_id, lines@, actor, at)
            },
            Err(error) => {
                &&& *final(db) == *old(db)
                &&& revise_recipe_refusal(*old(db), actor, sale_item_id, lines@) == Some(error@)
            },
        },
{
    match check_change(db, actor, 1) {
        Ok(_) => {},
        Err(error) => {
            return Err(error);
        },
    }
    if find_place(&db.sale_items, sale_item_id).is_none() {
        return Err(RepoError::Missing { what: "sale item" });
    }
    let units: Vec<(i64, Milli)> = match in_units(db, lines) {
        Ok(units) => units,
        Err(error) => {
            return Err(error);
        },
    };
    match check_recipe(db, sale_item_id, units.as_slice()) {
        Ok(_) => {},
        Err(error) => {
            return Err(error);
        },
    }
    write_recipe(db, sale_item_id, units.as_slice(), actor, at)
}

fn check_recipe(db: &Store, sale_item_id: i64, lines: &[(i64, Milli)]) -> (result: Result<
    (),
    RepoError,
>)
    ensures
        match revise_refusal(*db, sale_item_id, lines@) {
            None => result is Ok,
            Some(why) => result matches Err(error) && error@ == why,
        },
{
    if lines.len() == 0 {
        return refuse("a recipe needs at least one product");
    }
    if let Some(recipe) = catalogue::recipe_in_force(db, sale_item_id) {
        if recipe.version == i64::MAX {
            return refuse("that recipe has too many versions");
        }
    }
    if next_id(&db.recipes).is_none() {
        return Err(RepoError::Sqlite(SqlError::Full));
    }
    Ok(())
}

/// What keeps a price from being written; nothing, where it can be.
pub open spec fn price_refusal(db: Store, price: Money) -> Option<Why> {
    if price.minor < 0 {
        Some(Why::Refused("a price cannot be negative"@))
    } else if fresh_id(db.prices@) is None {
        Some(Why::Sqlite(SqlWhy::Full))
    } else {
        None
    }
}

fn check_price(db: &Store, price: Money) -> (result: Result<(), RepoError>)
    ensures
        match price_refusal(*db, price) {
            None => result is Ok,
            Some(why) => result matches Err(error) && error@ == why,
        },
{
    if price.is_negative() {
        return refuse("a price cannot be negative");
    }
    if next_id(&db.prices).is_none() {
        return Err(RepoError::Sqlite(SqlError::Full));
    }
    Ok(())
}

/// What the log says of a price.
pub open spec fn price_text(price: Money) -> Seq<char> {
    "price="@ + int_text(price.minor as int)
}

/// The note of a new price.
pub open spec fn price_note(db: Store, sale_item_id: i64, price: Money) -> Note {
    Note {
        action: "PRICE_CHANGED"@,
        entity: "sale_item"@,
        id: sale_item_id,
        before: match open_price(db, sale_item_id) {
            Some(was) => Some(price_text(was.price)),
            None => None,
        },
        after: Some(price_text(price)),
    }
}

/// Whether a menu item got a new price.
pub open spec fn repriced(
    before: Store,
    after: Store,
    sale_item_id: i64,
    price: Money,
    by: i64,
    at: i64,
) -> bool {
    &&& fresh_id(before.prices@) is Some
    &&& after.prices@ == prices_closed(before.prices@, sale_item_id, at).push(
        Price {
            id: fresh_id(before.prices@)->0,
            sale_item_id,
            price,
            effective_from: at,
            effective_to: None,
            created_by: Some(by),
        },
    )
}

/// Writes a new price and its note, once nothing stands in the way.
fn write_price(db: &mut Store, sale_item_id: i64, price: Money, actor: i64, at: i64) -> (result:
    Result<Change, RepoError>)
    requires
        price_refusal(*old(db), price) is None,
        room_for(old(db).audit@, 1),
    ensures
        ledgers_kept(*old(db), *final(db)),
        result matches Ok(change) && change.entity_id == sale_item_id && fresh_id(old(db).audit@)
            == Some(change.audit_sequence),
        repriced(*old(db), *final(db), sale_item_id, price, actor, at),
        logged(
            old(db).audit@,
            final(db).audit@,
            seq![price_note(*old(db), sale_item_id, price)],
            actor,
            at,
        ),
        largest_id(final(db).audit@) == largest_id(old(db).audit@) + 1,
        *final(db) == (Store { prices: final(db).prices, audit: final(db).audit, ..*old(db) }),
{
    let before: Option<String> = match catalogue::price_in_force(db, sale_item_id) {
        Some(was) => Some(join2("price=", number_text(was.price.minor).as_str())),
        None => None,
    };
    let after: String = join2("price=", number_text(price.minor).as_str());
    match catalogue::reprice(db, sale_item_id, price, at, actor) {
        Ok(_) => {},
        Err(error) => {
            return Err(error);
        },
    }
    let said: Option<&str> = match &before {
        Some(text) => Some(text.as_str()),
        None => None,
    };
    let audit_sequence: i64 = match note(
        db,
        "PRICE_CHANGED",
        "sale_item",
        sale_item_id,
        said,
        Some(after.as_str()),
        actor,
        at,
    ) {
        Ok(sequence) => sequence,
        Err(error) => {
            return Err(error);
        },
    };
    Ok(Change { entity_id: sale_item_id, audit_sequence })
}

/// Why a menu entry cannot get a price; nothing, where it can.
pub open spec fn reprice_refusal(db: Store, actor: i64, sale_item_id: i64, price: Money) -> Option<
    Why,
> {
    match change_refusal(db, actor, 1) {
        Some(why) => Some(why),
        None => if row(db.sale_items@, sale_item_id) is None {
            Some(Why::Missing("sale item"@))
        } else {
            price_refusal(db, price)
        },
    }
}

/// Whether a menu entry got a price, and the log says so.
pub open spec fn price_changed(
    before: Store,
    after: Store,
    sale_item_id: i64,
    price: Money,
    by: i64,
    at: i64,
) -> bool {
    &&& repriced(before, after, sale_item_id, price, by, at)
    &&& logged(
        before.audit@,
        after.audit@,
        seq![price_note(before, sale_item_id, price)],
        by,
        at,
    )
    &&& after == (Store {
        prices: after.prices,
        audit: after.audit,
        ..before
    })
}

/// Gives a menu entry a price from now on.
pub fn reprice(db: &mut Store, actor: i64, sale_item_id: i64, price: Money, at: i64) -> (result:
    Result<Change, RepoError>)
    ensures
        ledgers_kept(*old(db), *final(db)),
        match result {
            Ok(change) => {
                &&& reprice_refusal(*old(db), actor, sale_item_id, price) is None
                &&& change.entity_id == sale_item_id
                &&& fresh_id(old(db).audit@) == Some(change.audit_sequence)
                &&& price_changed(*old(db), *final(db), sale_item_id, price, actor, at)
            },
            Err(error) => {
                &&& *final(db) == *old(db)
                &&& reprice_refusal(*old(db), actor, sale_item_id, price) == Some(error@)
            },
        },
{
    match check_change(db, actor, 1) {
        Ok(_) => {},
        Err(error) => {
            return Err(error);
        },
    }
    if find_place(&db.sale_items, sale_item_id).is_none() {
        return Err(RepoError::Missing { what: "sale item" });
    }
    match check_price(db, price) {
        Ok(_) => {},
        Err(error) => {
            return Err(error);
        },
    }
    write_price(db, sale_item_id, price, actor, at)
}

// ---------------------------------------------------------------------------
// Straight onto the menu
// ---------------------------------------------------------------------------

/// A menu entry with its recipe and its price, all at once.
pub struct Listing {
    pub name: Seq<char>,
    pub category: Seq<char>,
    /// The shelf item that it sells one for one, if it does.
    pub from_product_id: Option<i64>,
    pub lines: Seq<(i64, Milli)>,
    pub price: Money,
}

/// Why something cannot go straight onto the menu; nothing, where it can.
pub open spec fn listing_refusal(db: Store, listing: Listing) -> Option<Why> {
    match fresh_id(db.sale_items@) {
        None => Some(Why::Sqlite(SqlWhy::Full)),
        Some(id) => match menu_objection(listing.name, listing.category) {
            Some(why) => Some(Why::Refused(why)),
            None => if listing.from_product_id is Some && any(
                db.sale_items@,
                sells_one_for_one(listing.from_product_id->0),
            ) {
                Some(Why::Refused("that item is already on the menu"@))
            } else {
                match revise_refusal(db, id, listing.lines) {
                    Some(why) => Some(why),
                    None => price_refusal(db, listing.price),
                }
            },
        },
    }
}

fn check_listing(
    db: &Store,
    name: &str,
    category: &str,
    from_product_id: Option<i64>,
    lines: &[(i64, Milli)],
    price: Money,
) -> (result: Result<(), RepoError>)
    ensures
        match listing_refusal(
            *db,
            Listing { name: name@, category: category@, from_product_id, lines: lines@, price },
        ) {
            None => result is Ok,
            Some(why) => result matches Err(error) && error@ == why,
        },
{
    let id: i64 = match next_id(&db.sale_items) {
        Some(id) => id,
        None => {
            return Err(RepoError::Sqlite(SqlError::Full));
        },
    };
    match check_menu_entry(name, category) {
        Ok(_) => {},
        Err(error) => {
            return Err(error);
        },
    }
    if let Some(product_id) = from_product_id {
        if any_row(
            &db.sale_items,
            |r: &SaleItemRow| -> (b: bool)
                ensures
                    b == (r.from_product_id == Some(product_id))
                { r.from_product_id == Some(product_id) },
            Ghost(sells_one_for_one(product_id)),
        ) {
            return refuse("that item is already on the menu");
        }
    }
    match check_recipe(db, id, lines) {
        Ok(_) => {},
        Err(error) => {
            return Err(error);
        },
    }
    check_price(db, price)
}

/// Whether something went straight onto the menu, as that entry.
pub open spec fn listed(
    before: Store,
    after: Store,
    id: i64,
    listing: Listing,
    by: i64,
    at: i64,
) -> bool {
    &&& fresh_id(before.sale_items@) == Some(id)
    &&& after.sale_items@.len() == before.sale_items@.len() + 1
    &&& after.sale_items@.drop_last() == before.sale_items@
    &&& offered(
        after.sale_items@.last(),
        id,
        listing.name,
        listing.category,
        listing.from_product_id,
        at,
    )
    &&& recipe_revised(before, after, id, listing.lines, by, at)
    &&& repriced(before, after, id, listing.price, by, at)
}

/// The notes of something that went straight onto the menu: history cannot
/// tell whether one screen or three was used.
pub open spec fn listing_notes(before: Store, id: i64, listing: Listing) -> Seq<Note> {
    seq![
        offered_note(id, listing.name, listing.category),
        recipe_note(before, id, fresh_id(before.recipes@)->0),
        price_note(before, id, listing.price),
    ]
}

/// Puts something straight onto the menu, once nothing stands in the way.
fn list_item(
    db: &mut Store,
    name: &str,
    category: &str,
    from_product_id: Option<i64>,
    lines: &[(i64, Milli)],
    price: Money,
    actor: i64,
    at: i64,
) -> (result: Result<Change, RepoError>)
    requires
        listing_refusal(
            *old(db),
            Listing { name: name@, category: category@, from_product_id, lines: lines@, price },
        ) is None,
        room_for(old(db).audit@, 3),
    ensures
        ledgers_kept(*old(db), *final(db)),
        result matches Ok(change) && {
            let listing = Listing {
                name: name@,
                category: category@,
                from_product_id,
                lines: lines@,
                price,
            };
            &&& fresh_id(old(db).audit@) == Some(change.audit_sequence)
            &&& listed(*old(db), *final(db), change.entity_id, listing, actor, at)
            &&& logged(
                old(db).audit@,
                final(db).audit@,
                listing_notes(*old(db), change.entity_id, listing),
                actor,
                at,
            )
        },
        *final(db) == (Store {
            sale_items: final(db).sale_items,
            recipes: final(db).recipes,
            recipe_lines: final(db).recipe_lines,
            prices: final(db).prices,
            audit: final(db).audit,
            ..*old(db)
        }),
{
    let ghost first = *db;
    let change: Change = match write_sale_item(db, name, category, actor, at) {
        Ok(change) => change,
        Err(error) => {
            return Err(error);
        },
    };
    let id: i64 = change.entity_id;
    let ghost entered = *db;
    proof {
        assert(entered.sale_items@ =~= first.sale_items@.push(entered.sale_items@.last()));
        a_fresh_id_is_unused(first.sale_items@);
        writing_keeps_places(first.sale_items@, entered.sale_items@.last(), id);
        place_is_first(first.sale_items@, id);
        place_is_first(entered.sale_items@, id);
    }
    if let Some(product_id) = from_product_id {
        proof {
            let rival = catalogue::rival_twin(id, product_id);
            assert forall|i: int| 0 <= i < entered.sale_items@.len() implies !#[trigger] rival(
                entered.sale_items@[i],
            ) by {
                if i < first.sale_items@.len() {
                    assert(entered.sale_items@[i] == first.sale_items@[i]);
                    assert(!sells_one_for_one(product_id)(first.sale_items@[i]));
                }
            }
        }
        match catalogue::link_twin(db, id, product_id) {
            Ok(_) => {},
            Err(error) => {
                return Err(error);
            },
        }
        proof {
            let spot = place(entered.sale_items@, id)->0;
            assert(spot == first.sale_items@.len()) by {
                if spot < first.sale_items@.len() {
                    assert(first.sale_items@[spot].key() == id);
                }
            }
            assert(db.sale_items@.drop_last() =~= first.sale_items@);
        }
    }
    let ghost linked = *db;
    assert(catalogue::open_recipe(linked, id) == catalogue::open_recipe(first, id));
    match write_recipe(db, id, lines, actor, at) {
        Ok(_) => {},
        Err(error) => {
            return Err(error);
        },
    }
    let ghost made = *db;
    assert(room_for(made.audit@, 1));
    match write_price(db, id, price, actor, at) {
        Ok(_) => {},
        Err(error) => {
            return Err(error);
        },
    }
    proof {
        let listing = Listing {
            name: name@,
            category: category@,
            from_product_id,
            lines: lines@,
            price,
        };
        let a = offered_note(id, name@, category@);
        let b = recipe_note(first, id, fresh_id(first.recipes@)->0);
        let c = price_note(first, id, price);
        one_note_more(first.audit@, entered.audit@, made.audit@, seq![a], b, actor, at);
        one_note_more(first.audit@, made.audit@, db.audit@, seq![a].push(b), c, actor, at);
        assert(seq![a].push(b).push(c) =~= listing_notes(first, id, listing));
    }
    Ok(change)
}

// ---------------------------------------------------------------------------
// The shelf
// ---------------------------------------------------------------------------

/// What is said of something on the shelf, whether it is new or being edited.
pub struct Shelf {
    pub name: Seq<char>,
    pub category: Seq<char>,
    pub base_unit: BaseUnit,
    pub base_units_per_pack: Milli,
    pub units_per_purchase_pack: i64,
    pub low_stock_threshold: Milli,
    pub tracks_inventory: bool,
    pub destination: Destination,
    pub content_measure: Measure,
    pub content_per_unit: Milli,
}

impl<'a> NewProduct<'a> {
    pub open spec fn shelf(self) -> Shelf {
        Shelf {
            name: self.name@,
            category: self.category@,
            base_unit: self.base_unit,
            base_units_per_pack: self.base_units_per_pack,
            units_per_purchase_pack: self.units_per_purchase_pack,
            low_stock_threshold: self.low_stock_threshold,
            tracks_inventory: self.tracks_inventory,
            destination: self.destination,
            content_measure: self.content_measure,
            content_per_unit: self.content_per_unit,
        }
    }
}

impl<'a> ProductUpdate<'a> {
    pub open spec fn shelf(self) -> Shelf {
        Shelf {
            name: self.name@,
            category: self.category@,
            base_unit: self.base_unit,
            base_units_per_pack: self.base_units_per_pack,
            units_per_purchase_pack: self.units_per_purchase_pack,
            low_stock_threshold: self.low_stock_threshold,
            tracks_inventory: self.tracks_inventory,
            destination: self.destination,
            content_measure: self.content_measure,
            content_per_unit: self.content_per_unit,
        }
    }
}

/// What is wrong with something for the shelf; nothing, where it is right.
pub open spec fn shelf_objection(said: Shelf) -> Option<Seq<char>> {
    if is_blank(said.name) {
        Some("a product needs a name"@)
    } else if said.base_units_per_pack.thousandths <= 0 {
        Some("base units per pack must be greater than zero"@)
    } else if said.units_per_purchase_pack <= 0 {
        Some("purchase-pack units must be greater than zero"@)
    } else if said.low_stock_threshold.thousandths < 0 {
        Some("a low-stock threshold cannot be negative"@)
    } else if said.content_measure != Measure::Whole && said.content_per_unit.thousandths <= 0 {
        Some("a measured item must say how much one holds"@)
    } else {
        None
    }
}

/// Whether a product is what was said of it.
pub open spec fn shelved(product: Product, said: Shelf) -> bool {
    &&& product.name@ == trimmed(said.name)
    &&& product.category@ == trimmed(said.category)
    &&& product.base_unit@ == said.base_unit.word()
    &&& product.base_units_per_pack == said.base_units_per_pack.thousandths
    &&& product.units_per_purchase_pack == said.units_per_purchase_pack
    &&& product.low_stock_threshold == said.low_stock_threshold
    &&& product.tracks_inventory == said.tracks_inventory
    &&& product.destination@ == said.destination.word()
    &&& product.content_measure@ == said.content_measure.word()
    &&& product.content_per_unit == said.content_per_unit
}

fn for_catalogue<'a>(code: &'a str, input: &NewProduct<'a>) -> (result: catalogue::NewProduct<'a>)
    ensures
        !is_blank(code@) ==> catalogue::product_objection(result) == shelf_objection(input.shelf()),
        is_blank(code@) ==> catalogue::product_objection(result) == Some("a product needs a code"@),
        forall|product: Product| #[trigger]
            catalogue::product_says(product, result) ==> shelved(product, input.shelf())
                && product.code@ == trimmed(code@),
{
    proof {
        reveal_strlit("NONE");
        reveal_strlit("ML");
        reveal_strlit("GRAM");
        assert("NONE"@.len() == 4 && "ML"@.len() == 2 && "GRAM"@.len() == 4);
        assert("NONE"@[0] == 'N' && "GRAM"@[0] == 'G');
    }
    catalogue::NewProduct {
        code,
        name: input.name,
        category: input.category,
        base_unit: input.base_unit.as_str(),
        base_units_per_pack: input.base_units_per_pack,
        units_per_purchase_pack: input.units_per_purchase_pack,
        low_stock_threshold: input.low_stock_threshold,
        tracks_inventory: input.tracks_inventory,
        destination: input.destination.as_str(),
        content_measure: input.content_measure.as_str(),
        content_per_unit: input.content_per_unit,
    }
}

/// One of a shelf item, sold one for one under its own name.
pub open spec fn whole_listing(
    id: i64,
    name: Seq<char>,
    category: Seq<char>,
    price: Money,
) -> Listing {
    Listing {
        name,
        category,
        from_product_id: Some(id),
        lines: seq![(id, Milli { thousandths: 1_000 })],
        price,
    }
}

/// How many lines of the log a new product takes.
pub open spec fn lines_for(sale_price: Option<Money>) -> int {
    if sale_price is Some {
        4
    } else {
        1
    }
}

/// Why something cannot be put on the shelf; nothing, where it can.
pub open spec fn create_product_refusal(
    db: Store,
    actor: i64,
    input: NewProduct<'_>,
) -> Option<Why> {
    match change_refusal(db, actor, lines_for(input.sale_price)) {
        Some(why) => Some(why),
        None => match fresh_id(db.products@) {
            None => Some(Why::Sqlite(SqlWhy::Full)),
            Some(id) => match shelf_objection(input.shelf()) {
                Some(why) => Some(Why::Refused(why)),
                None => match input.sale_price {
                    None => None,
                    Some(price) => listing_refusal(
                        db,
                        whole_listing(id, input.name@, input.category@, price),
                    ),
                },
            },
        },
    }
}

/// The note of a new product.
pub open spec fn shelved_note(id: i64, name: Seq<char>, category: Seq<char>) -> Note {
    Note {
        action: "PRODUCT_CREATED"@,
        entity: "product"@,
        id,
        before: None,
        after: Some(facts_text(trimmed(name), trimmed(category), true)),
    }
}

/// Whether a product was put on the shelf, and where it has a price on the
/// menu, with every line of the log that goes with it.
pub open spec fn product_created(
    before: Store,
    after: Store,
    id: i64,
    input: NewProduct<'_>,
    by: i64,
    at: i64,
) -> bool {
    let new = after.products@.last();
    let first = seq![shelved_note(id, input.name@, input.category@)];
    &&& fresh_id(before.products@) == Some(id)
    &&& after.products@.len() == before.products@.len() + 1
    &&& after.products@.drop_last() == before.products@
    &&& new.product.id == id
    &&& new.product.code@ == code_text("P"@, id)
    &&& shelved(new.product, input.shelf())
    &&& new.product.avg_cost.minor == 0
    &&& new.product.active
    &&& new.created_at == at
    &&& match input.sale_price {
        None => {
            &&& logged(before.audit@, after.audit@, first, by, at)
            &&& after == (Store { products: after.products, audit: after.audit, ..before })
        },
        Some(price) => {
            let listing = whole_listing(id, input.name@, input.category@, price);
            let item = fresh_id(before.sale_items@)->0;
            &&& listed(before, after, item, listing, by, at)
            &&& logged(
                before.audit@,
                after.audit@,
                first + listing_notes(before, item, listing),
                by,
                at,
            )
            &&& after == (Store {
                products: after.products,
                sale_items: after.sale_items,
                recipes: after.recipes,
                recipe_lines: after.recipe_lines,
                prices: after.prices,
                audit: after.audit,
                ..before
            })
        },
    }
}

proof fn notes_join(
    first: Seq<AuditEntry>,
    middle: Seq<AuditEntry>,
    last: Seq<AuditEntry>,
    notes: Seq<Note>,
    more: Seq<Note>,
    by: i64,
    at: i64,
)
    requires
        logged(first, middle, notes, by, at),
        logged(middle, last, more, by, at),
    ensures
        logged(first, last, notes + more, by, at),
    decreases more.len(),
{
    if more.len() == 0 {
        assert(notes + more =~= notes);
    } else {
        notes_join(first, middle, last.drop_last(), notes, more.drop_last(), by, at);
        assert((notes + more).drop_last() =~= notes + more.drop_last());
        assert((notes + more).last() == more.last());
    }
}

fn one_of(product_id: i64, quantity: Milli) -> (result: Vec<(i64, Milli)>)
    ensures
        result@ == seq![(product_id, quantity)],
{
    let mut lines: Vec<(i64, Milli)> = Vec::new();
    lines.push((product_id, quantity));
    assert(lines@ =~= seq![(product_id, quantity)]);
    lines
}

/// Puts something on the shelf. Where it has a price it is on the menu the
/// moment it is created, one for one under its own name, with no menu entry,
/// recipe or price left to remember.
pub fn create_product(db: &mut Store, actor: i64, input: &NewProduct<'_>, at: i64) -> (result:
    Result<Change, RepoError>)
    ensures
        ledgers_kept(*old(db), *final(db)),
        match result {
            Ok(change) => {
                &&& create_product_refusal(*old(db), actor, *input) is None
                &&& fresh_id(old(db).audit@) == Some(change.audit_sequence)
                &&& product_created(*old(db), *final(db), change.entity_id, *input, actor, at)
            },
            Err(error) => {
                &&& *final(db) == *old(db)
                &&& create_product_refusal(*old(db), actor, *input) == Some(error@)
            },
        },
{
    let lines: usize = if input.sale_price.is_some() {
        4
    } else {
        1
    };
    match check_change(db, actor, lines) {
        Ok(_) => {},
        Err(error) => {
            return Err(error);
        },
    }
    let id: i64 = match next_id(&db.products) {
        Some(id) => id,
        None => {
            return Err(RepoError::Sqlite(SqlError::Full));
        },
    };
    let code: String = code("P", id);
    proof {
        reveal_strlit("P");
        a_code_stays("P"@, id);
    }
    let new: catalogue::NewProduct<'_> = for_catalogue(code.as_str(), input);
    match catalogue::validate_product(&new) {
        Ok(_) => {},
        Err(error) => {
            return Err(error);
        },
    }
    let whole: Vec<(i64, Milli)> = one_of(id, Milli::one());
    if let Some(price) = input.sale_price {
        match check_listing(db, input.name, input.category, Some(id), whole.as_slice(), price) {
            Ok(_) => {},
            Err(error) => {
                return Err(error);
            },
        }
    }
    let ghost first = *db;
    match catalogue::add_product(db, &new, at) {
        Ok(_) => {},
        Err(error) => {
            return Err(error);
        },
    }
    assert(catalogue::product_says(db.products@.last().product, new));
    let said: String = facts(input.name.trim(), input.category.trim(), true);
    let audit_sequence: i64 = match note(
        db,
        "PRODUCT_CREATED",
        "product",
        id,
        None,
        Some(said.as_str()),
        actor,
        at,
    ) {
        Ok(sequence) => sequence,
        Err(error) => {
            return Err(error);
        },
    };
    let ghost entered = *db;
    if let Some(price) = input.sale_price {
        proof {
            let listing = whole_listing(id, input.name@, input.category@, price);
            let item = fresh_id(first.sale_items@)->0;
            assert(open_recipe(entered, item) == open_recipe(first, item));
            assert(listing_refusal(entered, listing) is None);
        }
        match list_item(
            db,
            input.name,
            input.category,
            Some(id),
            whole.as_slice(),
            price,
            actor,
            at,
        ) {
            Ok(_) => {},
            Err(error) => {
                return Err(error);
            },
        }
        proof {
            let listing = whole_listing(id, input.name@, input.category@, price);
            let item = fresh_id(first.sale_items@)->0;
            assert(open_price(entered, item) == open_price(first, item));
            notes_join(
                first.audit@,
                entered.audit@,
                db.audit@,
                seq![shelved_note(id, input.name@, input.category@)],
                listing_notes(first, item, listing),
                actor,
                at,
            );
        }
    }
    Ok(Change { entity_id: id, audit_sequence })
}

/// What selling something straight off the shelf did.
pub open spec fn put_on_menu(
    before: Store,
    after: Store,
    change: Change,
    listing: Listing,
    by: i64,
    at: i64,
) -> bool {
    &&& fresh_id(before.audit@) == Some(change.audit_sequence)
    &&& listed(before, after, change.entity_id, listing, by, at)
    &&& logged(
        before.audit@,
        after.audit@,
        listing_notes(before, change.entity_id, listing),
        by,
        at,
    )
    &&& after == (Store {
        sale_items: after.sale_items,
        recipes: after.recipes,
        recipe_lines: after.recipe_lines,
        prices: after.prices,
        audit: after.audit,
        ..before
    })
}

/// What is put on the menu when a shelf item is sold one for one.
pub open spec fn sold_whole(product: Product, product_id: i64, price: Money) -> Listing {
    whole_listing(product_id, product.name@, product.category@, price)
}

/// Why a shelf item cannot go on the menu; nothing, where it can.
pub open spec fn sell_product_refusal(
    db: Store,
    actor: i64,
    product_id: i64,
    price: Money,
) -> Option<Why> {
    match change_refusal(db, actor, 3) {
        Some(why) => Some(why),
        None => match row(db.products@, product_id) {
            None => Some(Why::Missing("product"@)),
            Some(found) => listing_refusal(db, sold_whole(found.product, product_id, price)),
        },
    }
}

/// Starts selling something that was added as stock only.
pub fn sell_product(db: &mut Store, actor: i64, product_id: i64, price: Money, at: i64) -> (result:
    Result<Change, RepoError>)
    ensures
        ledgers_kept(*old(db), *final(db)),
        match result {
            Ok(change) => {
                &&& sell_product_refusal(*old(db), actor, product_id, price) is None
                &&& row(old(db).products@, product_id) matches Some(found) && put_on_menu(
                    *old(db),
                    *final(db),
                    change,
                    sold_whole(found.product, product_id, price),
                    actor,
                    at,
                )
            },
            Err(error) => {
                &&& *final(db) == *old(db)
                &&& sell_product_refusal(*old(db), actor, product_id, price) == Some(error@)
            },
        },
{
    match check_change(db, actor, 3) {
        Ok(_) => {},
        Err(error) => {
            return Err(error);
        },
    }
    let product: Product = match catalogue::product(db, product_id) {
        Ok(product) => product,
        Err(error) => {
            return Err(error);
        },
    };
    let whole: Vec<(i64, Milli)> = one_of(product_id, Milli::one());
    match check_listing(
        db,
        product.name.as_str(),
        product.category.as_str(),
        Some(product_id),
        whole.as_slice(),
        price,
    ) {
        Ok(_) => {},
        Err(error) => {
            return Err(error);
        },
    }
    list_item(
        db,
        product.name.as_str(),
        product.category.as_str(),
        Some(product_id),
        whole.as_slice(),
        price,
        actor,
        at,
    )
}

/// How a measure is written behind a number.
pub open spec fn measure_sign(measure: Seq<char>) -> Seq<char> {
    if measure == "ML"@ {
        "ml"@
    } else {
        "g"@
    }
}

/// What a measure of something is called on the menu: `Gin 30ml`.
pub open spec fn measure_name(product: Product, poured: Milli) -> Seq<char> {
    product.name@ + " "@ + milli_text(poured.thousandths as int) + measure_sign(
        product.content_measure@,
    )
}

/// What is put on the menu when a shelf item is sold by measure.
pub open spec fn sold_by_measure(
    product: Product,
    product_id: i64,
    poured: Milli,
    units: Milli,
    price: Money,
) -> Listing {
    Listing {
        name: measure_name(product, poured),
        category: product.category@,
        from_product_id: None,
        lines: seq![(product_id, units)],
        price,
    }
}

/// Why a measure of a shelf item cannot go on the menu; nothing, where it can.
pub open spec fn sell_by_measure_refusal(
    db: Store,
    actor: i64,
    product_id: i64,
    poured: Milli,
    price: Money,
) -> Option<Why> {
    match change_refusal(db, actor, 3) {
        Some(why) => Some(why),
        None => match row(db.products@, product_id) {
            None => Some(Why::Missing("product"@)),
            Some(found) => match units_poured(found.product, poured) {
                Err(why) => Some(Why::Refused(why)),
                Ok(units) => listing_refusal(
                    db,
                    sold_by_measure(found.product, product_id, poured, units, price),
                ),
            },
        },
    }
}

/// Starts selling a measure of something on the shelf: a shot from a bottle,
/// sellable the moment it is added.
pub fn sell_by_measure(
    db: &mut Store,
    actor: i64,
    product_id: i64,
    poured: Milli,
    price: Money,
    at: i64,
) -> (result: Result<Change, RepoError>)
    ensures
        ledgers_kept(*old(db), *final(db)),
        match result {
            Ok(change) => {
                &&& sell_by_measure_refusal(*old(db), actor, product_id, poured, price) is None
                &&& row(old(db).products@, product_id) matches Some(found)
                &&& units_poured(found.product, poured) matches Ok(units)
                &&& put_on_menu(
                    *old(db),
                    *final(db),
                    change,
                    sold_by_measure(found.product, product_id, poured, units, price),
                    actor,
                    at,
                )
            },
            Err(error) => {
                &&& *final(db) == *old(db)
                &&& sell_by_measure_refusal(*old(db), actor, product_id, poured, price) == Some(
                    error@,
                )
            },
        },
{
    match check_change(db, actor, 3) {
        Ok(_) => {},
        Err(error) => {
            return Err(error);
        },
    }
    let product: Product = match catalogue::product(db, product_id) {
        Ok(product) => product,
        Err(error) => {
            return Err(error);
        },
    };
    let units: Milli = match pour(&product, poured) {
        Ok(units) => units,
        Err(error) => {
            return Err(error);
        },
    };
    let mut name: String = join3(product.name.as_str(), " ", poured.to_display().as_str());
    if same(product.content_measure.as_str(), "ML") {
        name.append("ml");
    } else {
        name.append("g");
    }
    assert(name@ =~= measure_name(product, poured));
    let part: Vec<(i64, Milli)> = one_of(product_id, units);
    match check_listing(
        db,
        name.as_str(),
        product.category.as_str(),
        None,
        part.as_slice(),
        price,
    ) {
        Ok(_) => {},
        Err(error) => {
            return Err(error);
        },
    }
    list_item(
        db,
        name.as_str(),
        product.category.as_str(),
        None,
        part.as_slice(),
        price,
        actor,
        at,
    )
}

/// What keeps something on the shelf from being removed; nothing, where it is
/// empty and no drink is made with it.
pub open spec fn removal_refusal(db: Store, product_id: i64) -> Option<Why> {
    match shelf(db, product_id) {
        None => Some(Why::Sqlite(SqlWhy::Overflow)),
        Some(left) => if left != 0 {
            Some(Why::Refused("there is still some of that on the shelf"@))
        } else {
            match pouring_line(db, product_id, 0) {
                None => None,
                Some(line) => Some(
                    Why::Refused(
                        live_drink(db, db.recipe_lines@[line])->0.name@ + " is still made with it"@,
                    ),
                ),
            }
        },
    }
}

fn check_removal(db: &Store, product_id: i64) -> (result: Result<(), RepoError>)
    ensures
        match removal_refusal(*db, product_id) {
            None => result is Ok,
            Some(why) => result matches Err(error) && error@ == why,
        },
{
    match stock::on_hand(db, product_id) {
        Ok(left) => {
            if !left.is_zero() {
                return refuse("there is still some of that on the shelf");
            }
        },
        Err(error) => {
            return Err(error);
        },
    }
    match catalogue::poured_into(db, product_id) {
        Some(drink) => refuse(join2(drink.as_str(), " is still made with it").as_str()),
        None => Ok(()),
    }
}

/// Why a shelf item cannot be removed or brought back; nothing, where it can.
pub open spec fn product_active_refusal(
    db: Store,
    actor: i64,
    product_id: i64,
    active: bool,
) -> Option<Why> {
    match change_refusal(db, actor, 1) {
        Some(why) => Some(why),
        None => match row(db.products@, product_id) {
            None => Some(Why::Missing("product"@)),
            Some(found) => if found.product.active && !active {
                removal_refusal(db, product_id)
            } else {
                None
            },
        },
    }
}

/// Whether a shelf item was removed or brought back, and the log says so.
pub open spec fn product_switched(
    before: Store,
    after: Store,
    product_id: i64,
    active: bool,
    by: i64,
    at: i64,
) -> bool {
    &&& place(before.products@, product_id) matches Some(spot) && {
        let was = before.products@[spot];
        &&& after.products@ == before.products@.update(
            spot,
            ProductRow { product: Product { active, ..was.product }, ..was },
        )
        &&& logged(
            before.audit@,
            after.audit@,
            seq![
                switched(
                    "PRODUCT_DEACTIVATED"@,
                    "PRODUCT_ACTIVATED"@,
                    "product"@,
                    product_id,
                    was.product.active,
                    active,
                ),
            ],
            by,
            at,
        )
    }
    &&& after == (Store {
        products: after.products,
        audit: after.audit,
        ..before
    })
}

/// Takes a shelf item off the catalogue, or brings it back. Never a delete.
pub fn set_product_active(
    db: &mut Store,
    actor: i64,
    product_id: i64,
    active: bool,
    at: i64,
) -> (result: Result<Change, RepoError>)
    ensures
        ledgers_kept(*old(db), *final(db)),
        match result {
            Ok(change) => {
                &&& product_active_refusal(*old(db), actor, product_id, active) is None
                &&& change.entity_id == product_id
                &&& fresh_id(old(db).audit@) == Some(change.audit_sequence)
                &&& product_switched(*old(db), *final(db), product_id, active, actor, at)
            },
            Err(error) => {
                &&& *final(db) == *old(db)
                &&& product_active_refusal(*old(db), actor, product_id, active) == Some(error@)
            },
        },
{
    match check_change(db, actor, 1) {
        Ok(_) => {},
        Err(error) => {
            return Err(error);
        },
    }
    let was: bool = match find_place(&db.products, product_id) {
        Some(spot) => db.products[spot].product.active,
        None => {
            return Err(RepoError::Missing { what: "product" });
        },
    };
    if was && !active {
        match check_removal(db, product_id) {
            Ok(_) => {},
            Err(error) => {
                return Err(error);
            },
        }
    }
    match catalogue::set_product_active(db, product_id, active) {
        Ok(_) => {},
        Err(error) => {
            return Err(error);
        },
    }
    let action: &str = if active {
        "PRODUCT_ACTIVATED"
    } else {
        "PRODUCT_DEACTIVATED"
    };
    let audit_sequence: i64 = match note(
        db,
        action,
        "product",
        product_id,
        Some(active_word(was)),
        Some(active_word(active)),
        actor,
        at,
    ) {
        Ok(sequence) => sequence,
        Err(error) => {
            return Err(error);
        },
    };
    Ok(Change { entity_id: product_id, audit_sequence })
}

/// The menu entry that has to be renamed along with a shelf item: the one that
/// sells it one for one, where that is called something else.
pub open spec fn renamed_along(db: Store, product_id: i64, name: Seq<char>) -> Option<i64> {
    match twin(db, product_id) {
        None => None,
        Some(item) => match row(db.sale_items@, item) {
            None => None,
            Some(listed) => if listed.item.name@ == trimmed(name) {
                None
            } else {
                Some(item)
            },
        },
    }
}

fn to_rename(db: &Store, product_id: i64, name: &str) -> (result: Option<(i64, SaleItem)>)
    ensures
        match renamed_along(*db, product_id, name@) {
            None => result is None,
            Some(id) => {
                &&& result matches Some((found, item))
                &&& found == id
                &&& row(db.sale_items@, id) matches Some(listed)
                &&& item == listed.item
            },
        },
{
    match catalogue::twin_of(db, product_id) {
        None => None,
        Some(id) => match find_place(&db.sale_items, id) {
            None => None,
            Some(at) => if same(db.sale_items[at].item.name.as_str(), name.trim()) {
                None
            } else {
                Some((id, db.sale_items[at].item.clone()))
            },
        },
    }
}

/// Why a shelf item cannot be edited; nothing, where it can.
pub open spec fn update_product_refusal(
    db: Store,
    actor: i64,
    product_id: i64,
    input: ProductUpdate<'_>,
) -> Option<Why> {
    let lines = if renamed_along(db, product_id, input.name@) is Some {
        2int
    } else {
        1int
    };
    match change_refusal(db, actor, lines) {
        Some(why) => Some(why),
        None => match row(db.products@, product_id) {
            None => Some(Why::Missing("product"@)),
            Some(found) => if is_blank(found.product.code@) {
                Some(Why::Refused("a product needs a code"@))
            } else {
                match shelf_objection(input.shelf()) {
                    Some(why) => Some(Why::Refused(why)),
                    None => if found.product.active && !input.active {
                        removal_refusal(db, product_id)
                    } else {
                        None
                    },
                }
            },
        },
    }
}

/// The notes of an edited product: its own, and that of the menu entry that is
/// renamed along with it.
pub open spec fn update_notes(
    db: Store,
    product_id: i64,
    was: Product,
    input: ProductUpdate<'_>,
) -> Seq<Note> {
    let own = Note {
        action: "PRODUCT_CHANGED"@,
        entity: "product"@,
        id: product_id,
        before: Some(facts_text(was.name@, was.category@, was.active)),
        after: Some(
            facts_text(trimmed(input.name@), trimmed(input.category@), input.active),
        ),
    };
    match renamed_along(db, product_id, input.name@) {
        None => seq![own],
        Some(item) => {
            let listed = row(db.sale_items@, item)->0.item;
            seq![
                own,
                Note {
                    action: "SALE_ITEM_CHANGED"@,
                    entity: "sale_item"@,
                    id: item,
                    before: Some(facts_text(listed.name@, listed.category@, listed.active)),
                    after: Some(
                        facts_text(trimmed(input.name@), listed.category@, listed.active),
                    ),
                },
            ]
        },
    }
}

/// Whether the menu calls a shelf item what it is called now, and is as it was
/// in everything else.
pub open spec fn menu_followed(
    before: Store,
    after: Store,
    product_id: i64,
    name: Seq<char>,
) -> bool {
    match renamed_along(before, product_id, name) {
        None => after.sale_items == before.sale_items,
        Some(item) => place(before.sale_items@, item) matches Some(spot) && {
            let was = before.sale_items@[spot];
            let now = after.sale_items@[spot];
            &&& after.sale_items@ == before.sale_items@.update(spot, now)
            &&& now == (SaleItemRow {
                item: SaleItem { name: now.item.name, ..was.item },
                ..was
            })
            &&& now.item.name@ == trimmed(name)
        },
    }
}

/// Whether a shelf item was edited, with the menu entry that goes by its name, and
/// the log says so.
pub open spec fn product_updated(
    before: Store,
    after: Store,
    product_id: i64,
    input: ProductUpdate<'_>,
    by: i64,
    at: i64,
) -> bool {
    &&& place(before.products@, product_id) matches Some(spot) && {
        let was = before.products@[spot];
        let now = after.products@[spot];
        &&& after.products@ == before.products@.update(spot, now)
        &&& now.product.id == was.product.id
        &&& now.product.code@ == trimmed(was.product.code@)
        &&& shelved(now.product, input.shelf())
        &&& now.product.avg_cost == was.product.avg_cost
        &&& now.product.active == input.active
        &&& now.created_at == was.created_at
        &&& logged(
            before.audit@,
            after.audit@,
            update_notes(before, product_id, was.product, input),
            by,
            at,
        )
    }
    &&& menu_followed(before, after, product_id, input.name@)
    &&& after == (Store {
        products: after.products,
        sale_items: after.sale_items,
        audit: after.audit,
        ..before
    })
}

/// Edits something on the shelf. A rename reaches the menu entry that sells it
/// one for one: the pair share a name.
pub fn update_product(
    db: &mut Store,
    actor: i64,
    product_id: i64,
    input: &ProductUpdate<'_>,
    at: i64,
) -> (result: Result<Change, RepoError>)
    ensures
        ledgers_kept(*old(db), *final(db)),
        match result {
            Ok(change) => {
                &&& update_product_refusal(*old(db), actor, product_id, *input) is None
                &&& change.entity_id == product_id
                &&& fresh_id(old(db).audit@) == Some(change.audit_sequence)
                &&& product_updated(*old(db), *final(db), product_id, *input, actor, at)
            },
            Err(error) => {
                &&& *final(db) == *old(db)
                &&& update_product_refusal(*old(db), actor, product_id, *input) == Some(error@)
            },
        },
{
    let along: Option<(i64, SaleItem)> = to_rename(db, product_id, input.name);
    let lines: usize = if along.is_some() {
        2
    } else {
        1
    };
    match check_change(db, actor, lines) {
        Ok(_) => {},
        Err(error) => {
            return Err(error);
        },
    }
    let was: Product = match catalogue::product(db, product_id) {
        Ok(product) => product,
        Err(error) => {
            return Err(error);
        },
    };
    let details: NewProduct<'_> = NewProduct {
        sale_price: None,
        content_measure: input.content_measure,
        content_per_unit: input.content_per_unit,
        name: input.name,
        category: input.category,
        base_unit: input.base_unit,
        base_units_per_pack: input.base_units_per_pack,
        units_per_purchase_pack: input.units_per_purchase_pack,
        low_stock_threshold: input.low_stock_threshold,
        tracks_inventory: input.tracks_inventory,
        destination: input.destination,
    };
    assert(details.shelf() == input.shelf());
    let new: catalogue::NewProduct<'_> = for_catalogue(was.code.as_str(), &details);
    match catalogue::validate_product(&new) {
        Ok(_) => {},
        Err(error) => {
            return Err(error);
        },
    }
    if was.active && !input.active {
        match check_removal(db, product_id) {
            Ok(_) => {},
            Err(error) => {
                return Err(error);
            },
        }
    }
    let ghost first = *db;
    match catalogue::update_product(db, product_id, &new, input.active) {
        Ok(_) => {},
        Err(error) => {
            return Err(error);
        },
    }
    assert(catalogue::product_says(db.products@[place(first.products@, product_id)->0].product, new));
    let before: String = facts(was.name.as_str(), was.category.as_str(), was.active);
    let after: String = facts(input.name.trim(), input.category.trim(), input.active);
    let audit_sequence: i64 = match note(
        db,
        "PRODUCT_CHANGED",
        "product",
        product_id,
        Some(before.as_str()),
        Some(after.as_str()),
        actor,
        at,
    ) {
        Ok(sequence) => sequence,
        Err(error) => {
            return Err(error);
        },
    };
    let ghost edited = *db;
    if let Some((item_id, item)) = along {
        match catalogue::rename_sale_item(db, item_id, input.name.trim()) {
            Ok(_) => {},
            Err(error) => {
                return Err(error);
            },
        }
        let called: String = facts(item.name.as_str(), item.category.as_str(), item.active);
        let calling: String = facts(input.name.trim(), item.category.as_str(), item.active);
        match note(
            db,
            "SALE_ITEM_CHANGED",
            "sale_item",
            item_id,
            Some(called.as_str()),
            Some(calling.as_str()),
            actor,
            at,
        ) {
            Ok(_) => {},
            Err(error) => {
                return Err(error);
            },
        }
        proof {
            let notes = update_notes(first, product_id, was, *input);
            one_note_more(
                first.audit@,
                edited.audit@,
                db.audit@,
                seq![notes[0]],
                notes[1],
                actor,
                at,
            );
            assert(seq![notes[0]].push(notes[1]) =~= notes);
        }
    }
    Ok(Change { entity_id: product_id, audit_sequence })
}

// ---------------------------------------------------------------------------
// Laws
// ---------------------------------------------------------------------------

/// What goes straight onto the menu is for sale the moment it is there, at its
/// own price and by its own recipe.
pub proof fn a_listed_item_is_for_sale(
    before: Store,
    after: Store,
    id: i64,
    listing: Listing,
    by: i64,
    at: i64,
)
    requires
        listed(before, after, id, listing, by, at),
    ensures
        catalogue::on_menu(after, id) matches Some(line) && line.sale_item_id == id && line.name@
            == trimmed(listing.name) && line.price == listing.price && Some(line.recipe_id)
            == fresh_id(before.recipes@),
{
    let new = after.sale_items@.last();
    assert(after.sale_items@ =~= before.sale_items@.push(new));
    a_fresh_id_is_unused(before.sale_items@);
    writing_keeps_places(before.sale_items@, new, id);
    let price = after.prices@.last();
    catalogue::a_new_price_is_the_price(before.prices@, price, id, at);
    let recipe = after.recipes@.last();
    catalogue::a_new_recipe_is_the_recipe(before.recipes@, recipe, id, at);
}

/// A product that is created with a price is for sale the moment it is
/// created; one without stays off the menu.
pub proof fn a_priced_product_is_for_sale(
    before: Store,
    after: Store,
    id: i64,
    input: NewProduct<'_>,
    by: i64,
    at: i64,
)
    requires
        product_created(before, after, id, input, by, at),
    ensures
        match input.sale_price {
            Some(price) => exists|item: i64|
                (#[trigger] catalogue::on_menu(after, item)) matches Some(line) && line.price
                    == price && line.name@ == trimmed(input.name@),
            None => after.sale_items == before.sale_items && after.prices == before.prices,
        },
{
    if let Some(price) = input.sale_price {
        let item = fresh_id(before.sale_items@)->0;
        let listing = whole_listing(id, input.name@, input.category@, price);
        a_listed_item_is_for_sale(before, after, item, listing, by, at);
        assert(catalogue::on_menu(after, item) is Some);
    }
}

/// Nobody but an active owner changes anything about the venue.
pub proof fn only_an_owner_changes_the_venue(db: Store, actor: i64)
    requires
        commission_refusal(db, actor) is Some,
    ensures
        forall|input: NewStaff<'_>| #[trigger]
            create_staff_refusal(db, actor, input) == commission_refusal(db, actor),
        forall|id: i64, active: bool| #[trigger]
            staff_active_refusal(db, actor, id, active) == commission_refusal(db, actor),
        forall|input: NewProduct<'_>| #[trigger]
            create_product_refusal(db, actor, input) == commission_refusal(db, actor),
        forall|id: i64, input: ProductUpdate<'_>| #[trigger]
            update_product_refusal(db, actor, id, input) == commission_refusal(db, actor),
        forall|id: i64, active: bool| #[trigger]
            product_active_refusal(db, actor, id, active) == commission_refusal(db, actor),
        forall|id: i64, price: Money| #[trigger]
            sell_product_refusal(db, actor, id, price) == commission_refusal(db, actor),
        forall|id: i64, poured: Milli, price: Money| #[trigger]
            sell_by_measure_refusal(db, actor, id, poured, price) == commission_refusal(db, actor),
        forall|input: NewSaleItem<'_>| #[trigger]
            create_sale_item_refusal(db, actor, input) == commission_refusal(db, actor),
        forall|id: i64, input: SaleItemUpdate<'_>| #[trigger]
            update_sale_item_refusal(db, actor, id, input) == commission_refusal(db, actor),
        forall|id: i64, active: bool| #[trigger]
            sale_item_active_refusal(db, actor, id, active) == commission_refusal(db, actor),
        forall|id: i64, lines: Seq<RecipeLine>| #[trigger]
            revise_recipe_refusal(db, actor, id, lines) == commission_refusal(db, actor),
        forall|id: i64, price: Money| #[trigger]
            reprice_refusal(db, actor, id, price) == commission_refusal(db, actor),
{
}

/// A product that is not empty cannot be removed, and can always be edited
/// otherwise.
pub proof fn stock_blocks_removal_but_never_editing(
    db: Store,
    actor: i64,
    product_id: i64,
    input: ProductUpdate<'_>,
)
    requires
        change_refusal(db, actor, 2) is None,
        row(db.products@, product_id) matches Some(found) && found.product.active && !is_blank(
            found.product.code@,
        ),
        shelf(db, product_id) matches Some(left) && left != 0,
        shelf_objection(input.shelf()) is None,
    ensures
        product_active_refusal(db, actor, product_id, false) is Some,
        input.active ==> update_product_refusal(db, actor, product_id, input) is None,
        !input.active ==> update_product_refusal(db, actor, product_id, input) is Some,
{
}

} // verus!

//! Staff records.
//!
//! Four roles, but only two of them are users: an owner and a cashier carry a
//! PIN and sign in. A waiter is a master record: every tab belongs to exactly
//! one, and none of them ever touches the till.

use vstd::prelude::*;

use super::{refuse, RepoError, SqlError, SqlWhy, Why};
use crate::store::{ledgers_kept, Store};
use crate::table::{
    any, any_row, choose_rows, chosen, find_place, fresh_id, in_order, next_id, place, row,
    sort_rows, Row,
};
use crate::text::{copy_text, join3, same, sorts_before, text_before, trimmed};

verus! {

#[derive(Clone, Copy, Debug, PartialEq, Eq, Structural)]
pub enum Role {
    Owner,
    Cashier,
    Waiter,
    Bartender,
}

impl Role {
    /// The word it is stored under.
    pub open spec fn word(self) -> Seq<char> {
        match self {
            Role::Owner => "OWNER"@,
            Role::Cashier => "CASHIER"@,
            Role::Waiter => "WAITER"@,
            Role::Bartender => "BARTENDER"@,
        }
    }

    /// The word it is stored under.
    pub fn as_str(self) -> (result: &'static str)
        ensures
            result@ == self.word(),
    {
        match self {
            Role::Owner => "OWNER",
            Role::Cashier => "CASHIER",
            Role::Waiter => "WAITER",
            Role::Bartender => "BARTENDER",
        }
    }

    /// What a stored word stands for.
    pub open spec fn of_word(text: Seq<char>) -> Option<Role> {
        if text == "OWNER"@ {
            Some(Role::Owner)
        } else if text == "CASHIER"@ {
            Some(Role::Cashier)
        } else if text == "WAITER"@ {
            Some(Role::Waiter)
        } else if text == "BARTENDER"@ {
            Some(Role::Bartender)
        } else {
            None
        }
    }

    fn read_word(text: &str) -> (result: Option<Role>)
        ensures
            result == Self::of_word(text@),
    {
        if same(text, "OWNER") {
            Some(Role::Owner)
        } else if same(text, "CASHIER") {
            Some(Role::Cashier)
        } else if same(text, "WAITER") {
            Some(Role::Waiter)
        } else if same(text, "BARTENDER") {
            Some(Role::Bartender)
        } else {
            None
        }
    }

    /// A word that was stored reads back as what it stood for.
    pub proof fn a_stored_word_reads_back(self)
        ensures
            Self::of_word(self.word()) == Some(self),
    {
        reveal_strlit("OWNER");
        reveal_strlit("CASHIER");
        reveal_strlit("WAITER");
        reveal_strlit("BARTENDER");
        assert("CASHIER"@.len() != "OWNER"@.len());
        assert("WAITER"@.len() != "OWNER"@.len());
        assert("WAITER"@.len() != "CASHIER"@.len());
        assert("BARTENDER"@.len() != "OWNER"@.len());
        assert("BARTENDER"@.len() != "CASHIER"@.len());
        assert("BARTENDER"@.len() != "WAITER"@.len());
    }
}

impl Role {
    /// Reads a stored role.
    pub fn parse(text: &str) -> (result: Result<Role, RepoError>)
        ensures
            match Role::of_word(text@) {
                Some(role) => result == Ok::<Role, RepoError>(role),
                None => result matches Err(error) && error@ == Why::Refused(
                    "'"@ + text@ + "' is not a role this build knows"@,
                ),
            },
    {
        match Role::read_word(text) {
            Some(role) => Ok(role),
            None => refuse(join3("'", text, "' is not a role this build knows").as_str()),
        }
    }

    /// Whether this role has a PIN and can therefore be signed in as.
    pub open spec fn signs_in(self) -> bool {
        self == Role::Owner || self == Role::Cashier
    }

    /// Whether this role has a PIN and can therefore be signed in as.
    pub fn authenticates(self) -> (result: bool)
        ensures
            result == self.signs_in(),
    {
        self == Role::Owner || self == Role::Cashier
    }

    /// Where a role stands in every list: owners, cashiers, waiters, the rest.
    pub open spec fn rank(self) -> int {
        match self {
            Role::Owner => 0,
            Role::Cashier => 1,
            Role::Waiter => 2,
            Role::Bartender => 3,
        }
    }

    fn place_in_lists(self) -> (result: u8)
        ensures
            result == self.rank(),
    {
        match self {
            Role::Owner => 0,
            Role::Cashier => 1,
            Role::Waiter => 2,
            Role::Bartender => 3,
        }
    }
}

/// Somebody who works here, or once did.
#[derive(Debug, PartialEq, Eq)]
pub struct Person {
    pub id: i64,
    pub code: String,
    pub name: String,
    pub role: Role,
    pub active: bool,
}

impl Clone for Person {
    fn clone(&self) -> (result: Self)
        ensures
            result == *self,
    {
        Person {
            id: self.id,
            code: self.code.clone(),
            name: self.name.clone(),
            role: self.role,
            active: self.active,
        }
    }
}

impl Row for Person {
    open spec fn key(&self) -> i64 {
        self.id
    }

    fn id(&self) -> (result: i64) {
        self.id
    }

    fn copy_row(&self) -> (result: Self) {
        self.clone()
    }
}

/// A person, and the PIN that they sign in with if they do.
#[derive(Debug, PartialEq, Eq)]
pub struct StaffRow {
    pub person: Person,
    pub pin_salt: Option<String>,
    pub pin_hash: Option<String>,
    pub created_at: i64,
}

impl Clone for StaffRow {
    fn clone(&self) -> (result: Self)
        ensures
            result == *self,
    {
        StaffRow {
            person: self.person.clone(),
            pin_salt: copy_text(&self.pin_salt),
            pin_hash: copy_text(&self.pin_hash),
            created_at: self.created_at,
        }
    }
}

impl Row for StaffRow {
    open spec fn key(&self) -> i64 {
        self.person.id
    }

    fn id(&self) -> (result: i64) {
        self.person.id
    }

    fn copy_row(&self) -> (result: Self) {
        self.clone()
    }
}

/// The person with that identity.
pub open spec fn person(db: Store, id: i64) -> Option<Person> {
    match row(db.staff@, id) {
        Some(found) => Some(found.person),
        None => None,
    }
}

/// Whether that is somebody who works the till tonight.
pub open spec fn is_active_cashier(person: Person) -> bool {
    person.active && person.role == Role::Cashier
}

pub fn find(db: &Store, id: i64) -> (result: Result<Person, RepoError>)
    ensures
        match person(*db, id) {
            Some(found) => result == Ok::<Person, RepoError>(found),
            None => result matches Err(error) && error@ == Why::Missing("person"@),
        },
{
    match find_place(&db.staff, id) {
        Some(at) => Ok(db.staff[at].person.clone()),
        None => Err(RepoError::Missing { what: "person" }),
    }
}

/// What keeps somebody from operating the till; nothing, where they may.
pub open spec fn till_refusal(db: Store, id: i64) -> Option<Why> {
    match person(db, id) {
        None => Some(Why::Missing("cashier"@)),
        Some(found) => if is_active_cashier(found) {
            None
        } else {
            Some(Why::Refused("only an active cashier may operate the till"@))
        },
    }
}

/// Refuses everybody but an active cashier.
pub(crate) fn require_active_cashier(db: &Store, id: i64) -> (result: Result<(), RepoError>)
    ensures
        match till_refusal(*db, id) {
            None => result is Ok,
            Some(why) => result matches Err(error) && error@ == why,
        },
{
    match find_place(&db.staff, id) {
        None => Err(RepoError::Missing { what: "cashier" }),
        Some(at) => {
            if !db.staff[at].person.active || db.staff[at].person.role != Role::Cashier {
                return refuse("only an active cashier may operate the till");
            }
            Ok(())
        },
    }
}

/// Everybody in the table.
pub open spec fn people(rows: Seq<StaffRow>) -> Seq<Person> {
    rows.map_values(|r: StaffRow| r.person)
}

pub(crate) fn everyone(db: &Store) -> (result: Vec<Person>)
    ensures
        result@ == people(db.staff@),
{
    let mut result: Vec<Person> = Vec::new();
    let mut i: usize = 0;
    while i < db.staff.len()
        invariant
            i <= db.staff.len(),
            result@ == people(db.staff@.take(i as int)),
        decreases db.staff.len() - i,
    {
        result.push(db.staff[i].person.clone());
        i = i + 1;
        assert(result@ =~= people(db.staff@.take(i as int)));
    }
    assert(db.staff@.take(db.staff@.len() as int) =~= db.staff@);
    result
}

/// Owners first, then cashiers, then waiters, each by name.
pub open spec fn listed_before() -> spec_fn(Person, Person) -> bool {
    |a: Person, b: Person|
        a.role.rank() < b.role.rank() || (a.role.rank() == b.role.rank() && text_before(
            a.name@,
            b.name@,
        ))
}

pub open spec fn on_the_books() -> spec_fn(Person) -> bool {
    |p: Person| p.active
}

pub open spec fn serving() -> spec_fn(Person) -> bool {
    |p: Person| p.active && p.role == Role::Waiter
}

pub(crate) fn sort_people(people: &Vec<Person>) -> (result: Vec<Person>)
    ensures
        result@ == in_order(people@, listed_before()),
{
    sort_rows(
        people,
        |a: &Person, b: &Person| -> (r: bool)
            ensures
                r == (a.role.rank() < b.role.rank() || (a.role.rank() == b.role.rank()
                    && text_before(a.name@, b.name@)))
            {
                let left: u8 = a.role.place_in_lists();
                let right: u8 = b.role.place_in_lists();
                left < right || (left == right && sorts_before(a.name.as_str(), b.name.as_str()))
            },
        Ghost(listed_before()),
    )
}

/// Everybody who works here.
pub open spec fn working(db: Store) -> Seq<Person> {
    in_order(chosen(people(db.staff@), on_the_books()), listed_before())
}

/// The waiters that a tab can be opened for.
pub open spec fn on_the_floor(db: Store) -> Seq<Person> {
    in_order(chosen(people(db.staff@), serving()), listed_before())
}

/// Everyone still on the books, owners first, then cashiers, then waiters:
/// the order they appear in every list.
pub fn active(db: &Store) -> (result: Vec<Person>)
    ensures
        result@ == working(*db),
{
    let everyone: Vec<Person> = everyone(db);
    let kept: Vec<Person> = choose_rows(
        &everyone,
        |p: &Person| -> (r: bool)
            ensures
                r == (p.active)
            { p.active },
        Ghost(on_the_books()),
    );
    sort_people(&kept)
}

/// The waiters a tab can be opened against.
pub fn waiters(db: &Store) -> (result: Vec<Person>)
    ensures
        result@ == on_the_floor(*db),
{
    let everyone: Vec<Person> = everyone(db);
    let kept: Vec<Person> = choose_rows(
        &everyone,
        |p: &Person| -> (r: bool)
            ensures
                r == (p.active && p.role == Role::Waiter)
            { p.active && p.role == Role::Waiter },
        Ghost(serving()),
    );
    sort_people(&kept)
}

/// Why somebody cannot be added; nothing, where they can.
pub open spec fn add_refusal(db: Store, role: Role, has_pin: bool) -> Option<Why> {
    if role.signs_in() && !has_pin {
        Some(Why::Refused("an owner or cashier needs a PIN to sign in with"@))
    } else if !role.signs_in() && has_pin {
        Some(Why::Refused("only owners and cashiers have a PIN"@))
    } else if fresh_id(db.staff@) is None {
        Some(Why::Sqlite(SqlWhy::Full))
    } else {
        None
    }
}

/// Whether a store is another with that person on the books.
pub open spec fn person_added(
    before: Store,
    after: Store,
    code: Seq<char>,
    name: Seq<char>,
    role: Role,
    pin: Option<(&str, &str)>,
    at: i64,
    id: i64,
) -> bool {
    &&& fresh_id(before.staff@) == Some(id)
    &&& after.staff@.len() == before.staff@.len() + 1
    &&& after.staff@.drop_last() == before.staff@
    &&& ({
        let new = after.staff@.last();
        &&& new.person.id == id
        &&& new.person.code@ == code
        &&& new.person.name@ == trimmed(name)
        &&& new.person.role == role
        &&& new.person.active
        &&& new.created_at == at
        &&& match pin {
            Some((salt, hash)) => {
                &&& new.pin_salt matches Some(text) && text@ == salt@
                &&& new.pin_hash matches Some(text) && text@ == hash@
            },
            None => new.pin_salt is None && new.pin_hash is None,
        }
    })
    &&& after == (Store { staff: after.staff, ..before })
}

/// Add someone. Owners and cashiers arrive with a PIN, as salt and hash;
/// nobody else may have one.
pub fn add(
    db: &mut Store,
    code: &str,
    name: &str,
    role: Role,
    pin: Option<(&str, &str)>,
    at: i64,
) -> (result: Result<i64, RepoError>)
    ensures
        ledgers_kept(*old(db), *final(db)),
        match result {
            Ok(id) => {
                &&& add_refusal(*old(db), role, pin is Some) is None
                &&& person_added(*old(db), *final(db), code@, name@, role, pin, at, id)
            },
            Err(error) => {
                &&& *final(db) == *old(db)
                &&& add_refusal(*old(db), role, pin is Some) == Some(error@)
            },
        },
{
    if role.authenticates() && pin.is_none() {
        return refuse("an owner or cashier needs a PIN to sign in with");
    }
    if !role.authenticates() && pin.is_some() {
        return refuse("only owners and cashiers have a PIN");
    }
    let id: i64 = match next_id(&db.staff) {
        Some(id) => id,
        None => {
            return Err(RepoError::Sqlite(SqlError::Full));
        },
    };
    let (pin_salt, pin_hash): (Option<String>, Option<String>) = match pin {
        Some((salt, hash)) => (Some(salt.to_owned()), Some(hash.to_owned())),
        None => (None, None),
    };
    let ghost before = db.staff@;
    db.staff.push(
        StaffRow {
            person: Person {
                id,
                code: code.to_owned(),
                name: name.trim().to_owned(),
                role,
                active: true,
            },
            pin_salt,
            pin_hash,
            created_at: at,
        },
    );
    assert(db.staff@.drop_last() =~= before);
    Ok(id)
}

/// An owner on the books, other than that person.
pub open spec fn another_owner(id: i64) -> spec_fn(StaffRow) -> bool {
    |r: StaffRow| r.person.id != id && r.person.active && r.person.role == Role::Owner
}

/// Why somebody cannot be taken off the floor or put back; nothing, where they
/// can.
pub open spec fn set_active_refusal(db: Store, id: i64, active: bool) -> Option<Why> {
    match person(db, id) {
        None => Some(Why::Missing("person"@)),
        Some(found) => if !active && found.active && found.role == Role::Owner && !any(
            db.staff@,
            another_owner(id),
        ) {
            Some(Why::Refused("the last active owner stays on the books"@))
        } else {
            None
        },
    }
}

/// Whether a store is another with one person let go or taken back.
pub open spec fn person_switched(
    before: Store,
    after: Store,
    id: i64,
    active: bool,
) -> bool {
    &&& place(before.staff@, id) matches Some(at) && after.staff@
        == before.staff@.update(
        at,
        StaffRow {
            person: Person { active, ..before.staff@[at].person },
            ..before.staff@[at]
        },
    )
    &&& after == (Store { staff: after.staff, ..before })
}

/// Take somebody off the floor, or put them back. Nobody is ever deleted:
/// their name is on receipts, orders and reconciliations that must stay
/// readable forever. The last active owner cannot go: settings are behind the
/// owner role, and an offline venue must not lock itself out of them.
///
/// When it happened is taken but kept nowhere.
pub fn set_active(db: &mut Store, id: i64, active: bool, _at: i64) -> (result: Result<
    (),
    RepoError,
>)
    ensures
        ledgers_kept(*old(db), *final(db)),
        match result {
            Ok(_) => {
                &&& set_active_refusal(*old(db), id, active) is None
                &&& person_switched(*old(db), *final(db), id, active)
            },
            Err(error) => {
                &&& *final(db) == *old(db)
                &&& set_active_refusal(*old(db), id, active) == Some(error@)
            },
        },
{
    let at: usize = match find_place(&db.staff, id) {
        Some(at) => at,
        None => {
            return Err(RepoError::Missing { what: "person" });
        },
    };
    if !active && db.staff[at].person.active && db.staff[at].person.role == Role::Owner
        && !any_row(
        &db.staff,
        |r: &StaffRow| -> (b: bool)
            ensures
                b == (r.person.id != id && r.person.active && r.person.role == Role::Owner)
            { r.person.id != id && r.person.active && r.person.role == Role::Owner },
        Ghost(another_owner(id)),
    ) {
        return refuse("the last active owner stays on the books");
    }
    let mut changed: StaffRow = db.staff[at].clone();
    changed.person.active = active;
    db.staff.set(at, changed);
    Ok(())
}

/// There is an owner on the books after any change to who is, if there was
/// one before.
pub proof fn an_owner_always_remains(before: Store, after: Store, id: i64, active: bool, at: int)
    requires
        exists|i: int|
            0 <= i < before.staff@.len() && (#[trigger] before.staff@[i]).person.active
                && before.staff@[i].person.role == Role::Owner,
        set_active_refusal(before, id, active) is None,
        place(before.staff@, id) == Some(at),
        after.staff@ == before.staff@.update(
            at,
            StaffRow {
                person: Person { active, ..before.staff@[at].person },
                ..before.staff@[at]
            },
        ),
    ensures
        exists|i: int|
            0 <= i < after.staff@.len() && (#[trigger] after.staff@[i]).person.active
                && after.staff@[i].person.role == Role::Owner,
{
    crate::table::place_is_first(before.staff@, id);
    let k = choose|k: int|
        0 <= k < before.staff@.len() && (#[trigger] before.staff@[k]).person.active
            && before.staff@[k].person.role == Role::Owner;
    if k != at {
        assert(after.staff@[k] == before.staff@[k]);
    } else if active {
        assert(after.staff@[at].person.active);
    } else {
        let o = choose|o: int|
            0 <= o < before.staff@.len() && #[trigger] another_owner(id)(before.staff@[o]);
        assert(after.staff@[o] == before.staff@[o]);
    }
}

} // verus!

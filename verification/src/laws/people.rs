//! Who works here, who may do what, and what a wrong PIN costs.

use vstd::prelude::*;

use super::{a_list_is_exact, a_row_is_found_where_there_is_one, lists_exactly, there_is};
use crate::commands::{owner_refusal, session_refusal};
use crate::repo::staff::{
    add_refusal, another_owner, listed_before, on_the_books, on_the_floor, people, person_added,
    person_switched, serving, set_active_refusal, till_refusal, working, Person, Role, StaffRow,
};
use crate::state::{doubled, guessed_right, guessed_wrong, penalty, waits, Session, Throttle};
use crate::store::Store;
use crate::table::{
    a_fresh_id_is_unused, changing_keeps_places, fresh_id, place, place_is_first, row,
    writing_keeps_places,
};
use crate::text::{text_before, trimmed};

verus! {

// ---------------------------------------------------------------------------
// Who works here
// ---------------------------------------------------------------------------

/// Where a role stands in a list: owners, cashiers, waiters, bartenders.
pub open spec fn stands(role: Role) -> int {
    match role {
        Role::Owner => 1,
        Role::Cashier => 2,
        Role::Waiter => 3,
        Role::Bartender => 4,
    }
}

/// The list of staff is everybody who works here, and the list of waiters every
/// waiter who does; by role, and by name within a role.
pub proof fn everybody_who_works_here_is_listed(db: Store)
    ensures
        people(db.staff@).len() == db.staff@.len(),
        forall|i: int|
            0 <= i < db.staff@.len() ==> #[trigger] people(db.staff@)[i] == db.staff@[i].person,
        lists_exactly(
            working(db),
            people(db.staff@),
            |p: Person| p.active,
            |a: Person, b: Person|
                stands(a.role) < stands(b.role) || (stands(a.role) == stands(b.role)
                    && text_before(a.name@, b.name@)),
        ),
        lists_exactly(
            on_the_floor(db),
            people(db.staff@),
            |p: Person| p.active && p.role == Role::Waiter,
            |a: Person, b: Person|
                stands(a.role) < stands(b.role) || (stands(a.role) == stands(b.role)
                    && text_before(a.name@, b.name@)),
        ),
{
    crate::lists::what_is_listed_by_name_ranks();
    a_list_is_exact(
        people(db.staff@),
        on_the_books(),
        listed_before(),
        |p: Person| p.active,
        |a: Person, b: Person|
            stands(a.role) < stands(b.role) || (stands(a.role) == stands(b.role) && text_before(
                a.name@,
                b.name@,
            )),
    );
    a_list_is_exact(
        people(db.staff@),
        serving(),
        listed_before(),
        |p: Person| p.active && p.role == Role::Waiter,
        |a: Person, b: Person|
            stands(a.role) < stands(b.role) || (stands(a.role) == stands(b.role) && text_before(
                a.name@,
                b.name@,
            )),
    );
}

/// The till is worked by a cashier who works here, and by nobody else.
pub proof fn only_a_cashier_works_the_till(db: Store, id: i64)
    ensures
        till_refusal(db, id) is None <==> super::is_cashier(db, id),
{
}

/// A PIN is kept for owners and cashiers, and for nobody else.
pub proof fn a_pin_is_for_whoever_signs_in(db: Store, role: Role, has_pin: bool)
    ensures
        add_refusal(db, role, has_pin) is None <==> has_pin == (role == Role::Owner || role
            == Role::Cashier) && fresh_id(db.staff@) is Some,
{
}

/// Somebody who is added is there from then on; nobody else changes.
pub proof fn whoever_is_added_is_there(
    before: Store,
    after: Store,
    code: Seq<char>,
    name: Seq<char>,
    role: Role,
    pin: Option<(&str, &str)>,
    at: i64,
    id: i64,
    other: i64,
)
    requires
        person_added(before, after, code, name, role, pin, at, id),
    ensures
        row(before.staff@, id) is None,
        row(after.staff@, id) matches Some(new) && {
            &&& new.person.active
            &&& new.person.role == role
            &&& new.person.code@ == code
            &&& new.person.name@ == trimmed(name)
            &&& new.created_at == at
            &&& (new.pin_salt is Some) == (pin is Some)
            &&& (new.pin_hash is Some) == (pin is Some)
            &&& pin matches Some((salt, hash)) ==> new.pin_salt->0@ == salt@ && new.pin_hash->0@
                == hash@
        },
        other != id ==> row(after.staff@, other) == row(before.staff@, other),
        after == (Store { staff: after.staff, ..before }),
{
    let new = after.staff@.last();
    assert(after.staff@ =~= before.staff@.push(new));
    a_fresh_id_is_unused(before.staff@);
    place_is_first(before.staff@, id);
    place_is_first(before.staff@, other);
    writing_keeps_places(before.staff@, new, id);
    writing_keeps_places(before.staff@, new, other);
}

/// Somebody is let go unless they are the last owner who works here; that changes
/// nothing else about them, and nobody else.
pub proof fn letting_go_keeps_an_owner(
    before: Store,
    after: Store,
    id: i64,
    active: bool,
    other: i64,
)
    ensures
        set_active_refusal(before, id, active) is None <==> {
            &&& row(before.staff@, id) matches Some(found) && (!active && found.person.active
                && found.person.role == Role::Owner ==> there_is(
                before.staff@,
                |r: StaffRow|
                    r.person.id != id && r.person.active && r.person.role == Role::Owner,
            ))
        },
        person_switched(before, after, id, active) ==> {
            &&& row(before.staff@, id) matches Some(was) && row(after.staff@, id) == Some(
                StaffRow { person: Person { active, ..was.person }, ..was },
            )
            &&& other != id ==> row(after.staff@, other) == row(before.staff@, other)
            &&& after == (Store { staff: after.staff, ..before })
        },
{
    a_row_is_found_where_there_is_one(
        before.staff@,
        another_owner(id),
        |r: StaffRow| r.person.id != id && r.person.active && r.person.role == Role::Owner,
    );
    if person_switched(before, after, id, active) {
        let p = place(before.staff@, id)->0;
        place_is_first(before.staff@, id);
        place_is_first(before.staff@, other);
        let was = before.staff@[p];
        let now = StaffRow { person: Person { active, ..was.person }, ..was };
        changing_keeps_places(before.staff@, p, now, id);
        changing_keeps_places(before.staff@, p, now, other);
    }
}

// ---------------------------------------------------------------------------
// Signing in
// ---------------------------------------------------------------------------

/// What needs somebody signed in is refused to nobody who is; what is the owner's
/// alone, to everybody but a signed-in owner.
pub proof fn the_owners_work_is_the_owners(session: Option<Session>)
    ensures
        session_refusal(session) is None <==> session is Some,
        owner_refusal(session) is None <==> session is Some && session->0.role@ == "OWNER"@,
{
}

/// The first three mistakes cost nothing; the fourth costs five seconds, and each
/// further one twice as much as the one before, up to five minutes.
pub proof fn a_wrong_pin_costs_twice_as_much_each_time(failures: int)
    ensures
        failures <= 3 ==> penalty(failures) == 0,
        penalty(4) == 5_000,
        failures >= 4 ==> penalty(failures + 1) == (if 2 * penalty(failures) < 300_000 {
            2 * penalty(failures)
        } else {
            300_000
        }),
{
    if failures >= 4 {
        doubling_at_least_keeps((failures - 4) as nat);
    }
}

proof fn doubling_at_least_keeps(steps: nat)
    ensures
        doubled(steps) >= 5_000,
        doubled(steps + 1) == 2 * doubled(steps),
    decreases steps,
{
    if steps > 0 {
        doubling_at_least_keeps((steps - 1) as nat);
    }
}

/// A mistake is counted, and whoever made it waits for exactly what it costs; a
/// right PIN forgets every mistake, and nobody waits after it.
pub proof fn a_wrong_pin_is_waited_for(
    before: Throttle,
    after: Throttle,
    now: i64,
    cost: i64,
    later: i64,
)
    requires
        0 <= now <= later,
    ensures
        guessed_wrong(before, after, now, cost) && now + cost <= i64::MAX ==> {
            &&& before.count() < u32::MAX ==> after.count() == before.count() + 1
            &&& waits(after, now) == cost
            &&& later >= now + cost ==> waits(after, later) == 0
            &&& later < now + cost ==> waits(after, later) == now + cost - later
        },
        guessed_right(after) ==> after.count() == 0 && waits(after, later) == 0,
{
    crate::state::guessing_never_gets_cheaper(0, after.count() as int);
}

} // verus!

//! What the running application holds between commands: who is signed in, and
//! how many times somebody has just got the PIN wrong.
//!
//! A four-digit PIN is ten thousand guesses. The only defence at the keyboard
//! is to make each wrong guess cost real time, and a run of them cost a lot.

use vstd::prelude::*;

use crate::text::same;

verus! {

/// Who is signed in. It deliberately carries no hash, no salt and no PIN. The
/// role is an owner's or a cashier's; waiters never sign in.
#[derive(Debug, PartialEq, Eq)]
pub struct Session {
    pub staff_id: i64,
    pub code: String,
    pub name: String,
    pub role: String,
}

impl Clone for Session {
    fn clone(&self) -> (result: Self)
        ensures
            result == *self,
    {
        Session {
            staff_id: self.staff_id,
            code: self.code.clone(),
            name: self.name.clone(),
            role: self.role.clone(),
        }
    }
}

impl Session {
    pub fn is_owner(&self) -> (result: bool)
        ensures
            result == (self.role@ == "OWNER"@),
    {
        same(self.role.as_str(), "OWNER")
    }
}

/// How many mistakes cost nothing. A bartender mistyping at two in the morning
/// is the common case, and locking them out mid-service is worse than the risk.
pub const FREE_ATTEMPTS: u32 = 3;

/// After the free ones, each further failure locks the keypad for this long,
/// doubling each time up to the ceiling below.
pub const FIRST_LOCKOUT_MS: i64 = 5_000;

pub const MAX_LOCKOUT_MS: i64 = 300_000;

/// The first lockout, doubled that many times.
pub open spec fn doubled(steps: nat) -> int
    decreases steps,
{
    if steps == 0 {
        FIRST_LOCKOUT_MS as int
    } else {
        2 * doubled((steps - 1) as nat)
    }
}

/// What the last of so many failures costs.
pub open spec fn penalty(failures: int) -> int {
    if failures <= FREE_ATTEMPTS {
        0
    } else {
        let grown = doubled((failures - FREE_ATTEMPTS - 1) as nat);
        if grown < MAX_LOCKOUT_MS {
            grown
        } else {
            MAX_LOCKOUT_MS as int
        }
    }
}

/// A number held within 64 bits.
pub open spec fn within_bits(n: int) -> i64 {
    if n > i64::MAX {
        i64::MAX
    } else if n < i64::MIN {
        i64::MIN
    } else {
        n as i64
    }
}

/// Failed sign-in attempts and what they currently cost.
#[derive(Debug, Clone, PartialEq, Eq)]
pub struct Throttle {
    failures: u32,
    locked_until: i64,
}

/// How long somebody still waits.
pub open spec fn waits(throttle: Throttle, now: i64) -> i64 {
    if throttle.until() > now {
        within_bits(throttle.until() - now)
    } else {
        0
    }
}

/// Whether a throttle is another after one more mistake, which costs that long.
pub open spec fn guessed_wrong(before: Throttle, after: Throttle, now: i64, cost: i64) -> bool {
    &&& after.count() == (if before.count() < u32::MAX {
        (before.count() + 1) as u32
    } else {
        u32::MAX
    })
    &&& cost == penalty(after.count() as int)
    &&& after.until() == within_bits(now + penalty(after.count() as int))
}

/// Whether a throttle forgot every mistake.
pub open spec fn guessed_right(throttle: Throttle) -> bool {
    &&& throttle.count() == 0
    &&& throttle.until() == 0
}

impl Default for Throttle {
    fn default() -> (result: Throttle)
        ensures
            result.count() == 0,
            result.until() == 0,
    {
        Throttle { failures: 0, locked_until: 0 }
    }
}

impl Throttle {
    /// How many failures there have been in a row.
    pub closed spec fn count(&self) -> u32 {
        self.failures
    }

    /// When the keypad opens again.
    pub closed spec fn until(&self) -> i64 {
        self.locked_until
    }

    /// Milliseconds the keypad is still locked for, or zero if it is open.
    pub fn locked_for(&self, now: i64) -> (result: i64)
        ensures
            result == waits(*self, now),
    {
        let left: i128 = self.locked_until as i128 - now as i128;
        if left <= 0 {
            0
        } else if left > i64::MAX as i128 {
            i64::MAX
        } else {
            left as i64
        }
    }

    /// Record a wrong PIN and return how long the keypad is now locked.
    pub fn record_failure(&mut self, now: i64) -> (result: i64)
        ensures
            guessed_wrong(*old(self), *final(self), now, result),
    {
        if self.failures < u32::MAX {
            self.failures = self.failures + 1;
        }
        if self.failures <= FREE_ATTEMPTS {
            self.locked_until = now;
            return 0;
        }
        let steps: u32 = self.failures - FREE_ATTEMPTS - 1;
        let mut cost: i64 = FIRST_LOCKOUT_MS;
        let mut i: u32 = 0;
        while i < steps && cost < MAX_LOCKOUT_MS
            invariant
                i <= steps,
                cost == doubled(i as nat),
                0 < cost < 2 * MAX_LOCKOUT_MS,
            decreases steps - i,
        {
            cost = cost * 2;
            i = i + 1;
        }
        if cost > MAX_LOCKOUT_MS {
            cost = MAX_LOCKOUT_MS;
        }
        proof {
            doubling_grows(i as nat, steps as nat);
        }
        self.locked_until = if now > i64::MAX - cost {
            i64::MAX
        } else {
            now + cost
        };
        cost
    }

    /// A correct PIN wipes the slate.
    pub fn record_success(&mut self)
        ensures
            guessed_right(*final(self)),
    {
        self.failures = 0;
        self.locked_until = 0;
    }

    pub fn failures(&self) -> (result: u32)
        ensures
            result == self.count(),
    {
        self.failures
    }
}

proof fn doubling_grows(a: nat, b: nat)
    requires
        a <= b,
    ensures
        0 < doubled(a) <= doubled(b),
    decreases b,
{
    if b > 0 {
        if a < b {
            doubling_grows(a, (b - 1) as nat);
        } else {
            doubling_grows((b - 1) as nat, (b - 1) as nat);
        }
    }
}

/// Guessing on never gets cheaper, and never locks anybody out for longer than
/// the ceiling.
pub proof fn guessing_never_gets_cheaper(fewer: int, more: int)
    requires
        0 <= fewer <= more,
    ensures
        0 <= penalty(fewer) <= penalty(more) <= MAX_LOCKOUT_MS,
{
    if fewer > FREE_ATTEMPTS {
        doubling_grows(
            (fewer - FREE_ATTEMPTS - 1) as nat,
            (more - FREE_ATTEMPTS - 1) as nat,
        );
    } else if more > FREE_ATTEMPTS {
        doubling_grows(0, (more - FREE_ATTEMPTS - 1) as nat);
    }
}

} // verus!

//! The values that come from outside the program's state: random identifiers
//! and the clock.
use vstd::prelude::*;

use chrono::{Datelike, Timelike, Utc};
use uuid::Uuid;

use crate::models::{is_v4_id, Timestamp};

verus! {

/// A random version-4 identifier, from `uuid::Uuid::new_v4`, as its 128-bit
/// big-endian value (`Uuid::as_u128`). The uuid source sets the version nibble
/// to 4 and the variant bits to `10` and draws every other bit at random; that
/// is all the contract claims. It panics when the operating system gives no
/// random bytes.
#[verifier::external_body]
pub(crate) fn new_id() -> (id: u128)
    ensures
        is_v4_id(id),
{
    Uuid::new_v4().as_u128()
}

/// The current time, from `chrono::Utc::now`, split into its calendar day
/// (`Datelike::num_days_from_ce` of `date_naive`), its second of the day
/// (`Timelike::num_seconds_from_midnight`) and its nanoseconds
/// (`Timelike::nanosecond`). The contract claims only what chrono's types
/// guarantee of any instant it returns: a second of the day below 86400, a
/// nanosecond below 2_000_000_000, and, since `Utc::now` counts from the Unix
/// epoch, a day no earlier than 1970-01-01 (day 719_163). It panics when the
/// system clock is set before 1970.
#[verifier::external_body]
pub(crate) fn utc_now() -> (t: Timestamp)
    ensures
        t.secs_of_day < 86400,
        t.nanos < 2_000_000_000,
        t.days_from_ce >= 719_163,
{
    let now = Utc::now();
    Timestamp {
        days_from_ce: now.date_naive().num_days_from_ce(),
        secs_of_day: now.num_seconds_from_midnight(),
        nanos: now.nanosecond(),
    }
}

/// The outside values one step of the app may need: an identifier for a
/// group or todo it creates, and the current time for its creation time or
/// completion date.
#[derive(Debug, Clone, Copy)]
pub struct Fresh {
    pub id: u128,
    pub now: Timestamp,
}

impl Fresh {
    /// Draws a fresh identifier and reads the clock.
    pub fn draw() -> (f: Fresh)
        ensures
            is_v4_id(f.id),
            f.now.secs_of_day < 86400,
            f.now.nanos < 2_000_000_000,
            f.now.days_from_ce >= 719_163,
    {
        Fresh { id: new_id(), now: utc_now() }
    }
}

} // verus!

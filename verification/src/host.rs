//! What an engine takes from the machine it runs on: a fresh identity, the
//! time of day and the number of cores.
//!
//! Everything in this file is believed, not proved. The two types are opaque:
//! the engine stores and copies their values and never looks inside them. None
//! of the three functions promises anything about what it returns, because
//! each answer depends on chance, on the clock or on the hardware.

use vstd::prelude::*;

verus! {

/// `uuid::Uuid`, the identity of an engine. Carried, copied and compared for
/// equality in contracts; never inspected.
#[verifier::external_type_specification]
#[verifier::external_body]
pub struct ExUuid(uuid::Uuid);

/// `chrono::NaiveDateTime`, the moment of an event, in UTC. Carried and
/// copied; never inspected.
#[verifier::external_type_specification]
#[verifier::external_body]
pub struct ExNaiveDateTime(chrono::NaiveDateTime);

/// Calls `uuid::Uuid::new_v4`, which draws a version-4 identifier from the
/// operating system's random source. Nothing is claimed of the value: two
/// calls may return anything, equal or not. `new_v4` stops the process if
/// the operating system gives it no random bytes.
#[verifier::external_body]
pub(crate) fn fresh_id() -> (id: uuid::Uuid) {
    uuid::Uuid::new_v4()
}

/// Calls `chrono::Utc::now` and drops the (always zero) offset with
/// `DateTime::naive_utc`. Nothing is claimed of the value. `Utc::now` stops
/// the process if the system clock stands before 1970.
#[verifier::external_body]
pub(crate) fn now() -> (at: chrono::NaiveDateTime) {
    chrono::Utc::now().naive_utc()
}

/// Calls `num_cpus::get`, the number of logical cores available to this
/// process. Nothing is claimed of the value.
#[verifier::external_body]
pub(crate) fn logical_core_count() -> (cores: usize) {
    num_cpus::get()
}

} // verus!

//! What the machine gives: the time, a random number, the number of processors.
//!
//! Nothing is known of these values before they are there, so the functions that
//! fetch them promise nothing, and what is made of them is computed by functions
//! that take them as arguments.

use vstd::prelude::*;

verus! {

/// The seconds since the Unix epoch.
///
/// Trusted: the timestamp of `chrono::Local::now()`; nothing is stated of it.
#[verifier::external_body]
pub(crate) fn unix_seconds() -> i64 {
    chrono::Local::now().timestamp()
}

/// A random number.
///
/// Trusted: `rand::random`; nothing is stated of it.
#[verifier::external_body]
pub(crate) fn random_u64() -> u64 {
    rand::random::<u64>()
}

/// The number of logical processors.
///
/// Trusted: `num_cpus::get`; nothing is stated of it.
#[verifier::external_body]
pub(crate) fn logical_cpus() -> usize {
    num_cpus::get()
}

/// The number of physical processor cores.
///
/// Trusted: `num_cpus::get_physical`; nothing is stated of it.
#[verifier::external_body]
pub(crate) fn physical_cpus() -> usize {
    num_cpus::get_physical()
}

/// The number of threads of the runtime on a machine with `logical` logical
/// processors and `physical` cores: twice the logical processors but one, and one
/// more; with no logical processor known, twice the cores and one more. A number
/// that does not fit is cut to the largest that does.
pub open spec fn runtime_threads(logical: usize, physical: usize) -> usize {
    let base: int = if logical >= 1 {
        logical - 1
    } else {
        physical as int
    };
    if 2 * base + 1 > usize::MAX {
        usize::MAX
    } else {
        (2 * base + 1) as usize
    }
}

/// The number of threads of the runtime for the given processor counts.
pub fn worker_threads(logical: usize, physical: usize) -> (n: usize)
    ensures
        n == runtime_threads(logical, physical),
{
    let base = if logical >= 1 {
        logical - 1
    } else {
        physical
    };
    if base > (usize::MAX - 1) / 2 {
        usize::MAX
    } else {
        2 * base + 1
    }
}

/// The number of threads of the runtime on this machine.
pub fn machine_worker_threads() -> (n: usize)
    ensures
        exists|logical: usize, physical: usize| n == runtime_threads(logical, physical),
{
    let logical = logical_cpus();
    let physical = physical_cpus();
    worker_threads(logical, physical)
}

/// The milliseconds that a worker sleeps before it asks for admission again,
/// made of a random number.
pub fn admission_delay(random: u64) -> (ms: u64)
    ensures
        ms == random % 100,
        ms < 100,
{
    random % 100
}

/// The milliseconds that a worker sleeps before it asks for admission again.
pub fn throttle_delay() -> (ms: u64)
    ensures
        ms < 100,
{
    admission_delay(random_u64())
}

} // verus!

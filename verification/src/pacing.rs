//! Pacing: throttling raw instruction throughput to a target rate.

use vstd::prelude::*;
use crate::machine::CycleError;
use crate::machine::Machine;
use crate::machine::MachineModel;
use crate::machine::spec_cycle;

verus! {

/// The machine a burst of at most `k` cycles leaves behind, paired with the
/// first fatal condition met, if any: cycles run until the burst is spent or
/// the machine halts, whichever comes first.
pub open spec fn spec_burst(m: MachineModel, k: nat) -> (MachineModel, Option<CycleError>)
    decreases k,
{
    if k == 0 || m.halted {
        (m, None)
    } else {
        let (m1, r) = spec_cycle(m);
        match r {
            Result::Err(e) => (m1, Some(e)),
            Result::Ok(_) => spec_burst(m1, (k - 1) as nat),
        }
    }
}

/// Execute up to `cycles` machine cycles, stopping the burst early once the
/// machine is finished, and report the first fatal condition, if any.
pub fn run_burst(m: &mut Machine, cycles: u64) -> (r: Option<CycleError>)
    requires
        old(m).wf(),
    ensures
        final(m).wf(),
        (final(m)@, r) == spec_burst(old(m)@, cycles as nat),
    decreases cycles,
{
    if cycles == 0 || m.is_finished() {
        return None;
    }
    match m.perform_cycle() {
        Result::Err(e) => Some(e),
        Result::Ok(_) => run_burst(m, cycles - 1),
    }
}

/// Relies on time::OffsetDateTime::now_utc and unix_timestamp_nanos: reads
/// the wall clock as nanoseconds since the Unix epoch. Nothing can be
/// promised of the value read.
#[verifier::external_body]
fn now_ns() -> u64 {
    time::OffsetDateTime::now_utc().unix_timestamp_nanos() as u64
}

/// The wall clock in whole milliseconds; a host records this before a burst.
pub fn current_millis() -> u64 {
    now_ns() / 1_000_000
}

/// The ideal duration in milliseconds of a burst of `cycles` instructions at
/// `rate` instructions per second.
pub open spec fn spec_ideal_ms(cycles: int, rate: int) -> int {
    1000 * cycles / rate
}

/// The residual wait after a burst: the ideal duration minus the measured
/// elapsed time, floored at zero; a clock that moved backwards counts as no
/// elapsed time.
pub open spec fn spec_wait_ms(start: int, now: int, cycles: int, rate: int) -> int {
    let elapsed = if now >= start { now - start } else { 0 };
    if spec_ideal_ms(cycles, rate) > elapsed {
        spec_ideal_ms(cycles, rate) - elapsed
    } else {
        0
    }
}

/// The ideal duration of a burst, in milliseconds.
pub fn ideal_burst_ms(cycles: u64, rate: u64) -> (r: u64)
    requires
        rate > 0,
        cycles <= u64::MAX / 1000,
    ensures
        r == spec_ideal_ms(cycles as int, rate as int),
{
    (1000 * cycles) / rate
}

/// How long to block after a burst that began at `start_ms` when the clock
/// now reads `now_ms`, so that `cycles` instructions take no less than their
/// ideal duration at `rate` instructions per second.
pub fn remaining_wait_ms(start_ms: u64, now_ms: u64, cycles: u64, rate: u64) -> (r: u64)
    requires
        rate > 0,
        cycles <= u64::MAX / 1000,
    ensures
        r == spec_wait_ms(start_ms as int, now_ms as int, cycles as int, rate as int),
{
    let ideal = ideal_burst_ms(cycles, rate);
    let elapsed = if now_ms >= start_ms {
        now_ms - start_ms
    } else {
        0
    };
    if ideal > elapsed {
        ideal - elapsed
    } else {
        0
    }
}

/// Reads the clock and returns the residual wait for a burst that began at
/// `start_ms`. Whatever the clock returned, the wait never exceeds the ideal
/// burst duration.
pub fn residual_wait_ms(start_ms: u64, cycles: u64, rate: u64) -> (r: u64)
    requires
        rate > 0,
        cycles <= u64::MAX / 1000,
    ensures
        r <= spec_ideal_ms(cycles as int, rate as int),
{
    let now = now_ns() / 1_000_000;
    remaining_wait_ms(start_ms, now, cycles, rate)
}

/// Pacing never undershoots: however long a burst measurably took, the
/// elapsed time plus the computed residual wait is at least the ideal burst
/// duration.
pub proof fn lemma_pacing_lower_bound(start: int, now: int, cycles: int, rate: int)
    requires
        rate > 0,
        now >= start,
    ensures
        (now - start) + spec_wait_ms(start, now, cycles, rate) >= spec_ideal_ms(cycles, rate),
{
}

} // verus!

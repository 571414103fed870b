//! The charge for a stay: the whole hours it lasted times the hourly rate.

use vstd::prelude::*;

use crate::clock::{
    elapsed_nanos, whole_hours, whole_hours_between, whole_seconds, Timestamp, NANOS_PER_SECOND,
    SECONDS_PER_HOUR,
};

verus! {

/// The rate that a parking lot bills, in currency units per whole hour.
pub const HOURLY_RATE: u32 = 10;

/// What a stay costs, in currency units. `chargeback` is what the lot owes
/// back, which is nothing.
#[derive(Debug, Clone, Copy, PartialEq, Eq, Structural)]
pub struct ParkingCharge {
    pub total: i128,
    pub chargeback: i128,
}

/// The number of nanoseconds in an hour.
pub open spec fn nanos_per_hour() -> int {
    SECONDS_PER_HOUR * NANOS_PER_SECOND
}

/// The charge for a stay from `entry` to `exit` at the given rate.
pub open spec fn charge_between(entry: Timestamp, exit: Timestamp, rate_per_hour: u32)
    -> ParkingCharge {
    ParkingCharge { total: (whole_hours(entry, exit) * rate_per_hour) as i128, chargeback: 0 }
}

/// The whole hours between two well-formed instants, times any rate, fit
/// the type of a charge.
pub proof fn lemma_charge_fits(entry: Timestamp, exit: Timestamp, rate_per_hour: u32)
    requires
        entry.wf(),
        exit.wf(),
    ensures
        i128::MIN < whole_hours(entry, exit) * rate_per_hour < i128::MAX,
        charge_between(entry, exit, rate_per_hour).total == whole_hours(entry, exit)
            * rate_per_hour,
{
    let hours = whole_hours(entry, exit);
    assert(-0x2_0000_0000 < hours < 0x2_0000_0000);
    assert(-0x2_0000_0000_0000_0000 < hours * rate_per_hour < 0x2_0000_0000_0000_0000)
        by (nonlinear_arith)
        requires
            -0x2_0000_0000 < hours < 0x2_0000_0000,
            0 <= rate_per_hour < 0x1_0000_0000,
    ;
}

/// The charge for a stay from `entry` to `exit`: the whole hours between the
/// two, a part of an hour dropped, times the rate.
pub fn calculate_charge(entry: Timestamp, exit: Timestamp, rate_per_hour: u32) -> (charge:
    ParkingCharge)
    requires
        entry.wf(),
        exit.wf(),
    ensures
        charge == charge_between(entry, exit, rate_per_hour),
        charge.total == whole_hours(entry, exit) * rate_per_hour,
        charge.chargeback == 0,
{
    let hours: i64 = whole_hours_between(entry, exit);
    proof {
        lemma_charge_fits(entry, exit, rate_per_hour);
    }
    let total: i128 = (hours as i128) * (rate_per_hour as i128);
    ParkingCharge { total, chargeback: 0 }
}

/// A stay that does not run backwards is billed for the hours that it has
/// completed: `hours` of them where it lasted at least `hours` hours and
/// less than one hour more.
pub proof fn lemma_charge_truncates(
    entry: Timestamp,
    exit: Timestamp,
    rate_per_hour: u32,
    hours: nat,
)
    requires
        entry.wf(),
        exit.wf(),
        hours * nanos_per_hour() <= elapsed_nanos(entry, exit) < (hours + 1) * nanos_per_hour(),
    ensures
        whole_hours(entry, exit) == hours,
        charge_between(entry, exit, rate_per_hour).total == hours * rate_per_hour,
{
    let elapsed = elapsed_nanos(entry, exit);
    let seconds = whole_seconds(entry, exit);
    let hour = nanos_per_hour();
    assert(hour == 3_600_000_000_000);
    assert(hours * hour == hours * 3_600_000_000_000 && (hours + 1) * hour == (hours + 1)
        * 3_600_000_000_000) by (nonlinear_arith)
        requires
            hour == 3_600_000_000_000,
    ;
    assert(seconds == elapsed / 1_000_000_000);
    assert(hours * 3_600 <= seconds < (hours + 1) * 3_600);
    assert(whole_hours(entry, exit) == seconds / 3_600);
    lemma_charge_fits(entry, exit, rate_per_hour);
}

/// A stay of 59 minutes is billed nothing, and stays of 60 and of 119
/// minutes are billed one hour.
pub proof fn lemma_billing_boundary(entry: Timestamp, exit: Timestamp, rate_per_hour: u32)
    requires
        entry.wf(),
        exit.wf(),
    ensures
        elapsed_nanos(entry, exit) == 59 * 60 * NANOS_PER_SECOND ==> charge_between(
            entry,
            exit,
            rate_per_hour,
        ).total == 0,
        elapsed_nanos(entry, exit) == 60 * 60 * NANOS_PER_SECOND ==> charge_between(
            entry,
            exit,
            rate_per_hour,
        ).total == rate_per_hour,
        elapsed_nanos(entry, exit) == 119 * 60 * NANOS_PER_SECOND ==> charge_between(
            entry,
            exit,
            rate_per_hour,
        ).total == rate_per_hour,
{
    let elapsed = elapsed_nanos(entry, exit);
    let hour = nanos_per_hour();
    assert(hour == 3_600_000_000_000);
    assert(0 * hour == 0 && 1 * hour == 3_600_000_000_000 && 2 * hour == 7_200_000_000_000);
    if elapsed == 59 * 60 * NANOS_PER_SECOND {
        lemma_charge_truncates(entry, exit, rate_per_hour, 0);
    }
    if elapsed == 60 * 60 * NANOS_PER_SECOND || elapsed == 119 * 60 * NANOS_PER_SECOND {
        lemma_charge_truncates(entry, exit, rate_per_hour, 1);
        assert(charge_between(entry, exit, rate_per_hour).total == 1 * rate_per_hour);
    }
}

} // verus!

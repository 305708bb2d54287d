//! Figures about the running system, as plain numbers.

use crate::filesystem::clamp_u64;
use vstd::prelude::*;

verus! {

/// A mounted disk.
#[derive(Debug, Clone, PartialEq, Eq)]
pub struct DiskInfo {
    pub name: String,
    pub mount_point: String,
    pub total_space: u64,
    pub available_space: u64,
    pub file_system: String,
}

impl DiskInfo {
    /// The space in use: the total less what is available, and 0 where more
    /// is reported available than there is.
    pub fn used_space(&self) -> (used: u64)
        ensures
            used == if self.total_space >= self.available_space {
                self.total_space - self.available_space
            } else {
                0
            },
    {
        self.total_space.saturating_sub(self.available_space)
    }
}

/// The bytes received over all interfaces.
pub open spec fn received_total(counters: Seq<(u64, u64)>) -> nat
    decreases counters.len(),
{
    if counters.len() == 0 {
        0
    } else {
        received_total(counters.drop_last()) + counters.last().0 as nat
    }
}

/// The bytes transmitted over all interfaces.
pub open spec fn transmitted_total(counters: Seq<(u64, u64)>) -> nat
    decreases counters.len(),
{
    if counters.len() == 0 {
        0
    } else {
        transmitted_total(counters.drop_last()) + counters.last().1 as nat
    }
}

/// Network I/O over all interfaces, from the received and transmitted
/// counters of each: both sums, each held at `u64::MAX`.
pub fn network_io(counters: &Vec<(u64, u64)>) -> (totals: (u64, u64))
    ensures
        totals.0 == clamp_u64(received_total(counters@)),
        totals.1 == clamp_u64(transmitted_total(counters@)),
{
    let mut received: u64 = 0;
    let mut transmitted: u64 = 0;
    let mut i: usize = 0;
    while i < counters.len()
        invariant
            i <= counters.len(),
            received == clamp_u64(received_total(counters@.take(i as int))),
            transmitted == clamp_u64(transmitted_total(counters@.take(i as int))),
        decreases counters.len() - i,
    {
        proof {
            assert(counters@.take(i + 1).drop_last() =~= counters@.take(i as int));
            assert(counters@.take(i + 1).last() == counters@[i as int]);
        }
        received = received.saturating_add(counters[i].0);
        transmitted = transmitted.saturating_add(counters[i].1);
        i += 1;
    }
    assert(counters@.take(counters.len() as int) =~= counters@);
    (received, transmitted)
}

/// An uptime split into whole days, hours and minutes.
#[derive(Debug, Clone, Copy, PartialEq, Eq)]
pub struct Uptime {
    pub days: u64,
    pub hours: u64,
    pub minutes: u64,
}

/// Splits an uptime in seconds into days, hours below a day and minutes
/// below an hour; the seconds below a minute are dropped.
pub fn uptime_parts(seconds: u64) -> (up: Uptime)
    ensures
        up.days == seconds / 86400,
        up.hours == (seconds % 86400) / 3600,
        up.minutes == (seconds % 3600) / 60,
        up.hours < 24,
        up.minutes < 60,
        up.days * 86400 + up.hours * 3600 + up.minutes * 60 <= seconds,
        seconds < up.days * 86400 + up.hours * 3600 + up.minutes * 60 + 60,
{
    Uptime {
        days: seconds / 86400,
        hours: (seconds % 86400) / 3600,
        minutes: (seconds % 3600) / 60,
    }
}

} // verus!

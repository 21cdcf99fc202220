//! The producers' scheduling decisions: how the auto-drop period follows
//! the speed, and whether a ticker fires now or sleeps until its next
//! scheduled instant. The loops that sleep, wait and send live with the
//! caller; the decisions are verified here.

use vstd::prelude::*;

use crate::timer::TimeKeeper;

verus! {

/// The auto-drop interval at speed one, in seconds.
pub const INITIAL_DROP_INTERVAL_SECOND_COUNT: u64 = 2;

/// Nanoseconds in one second.
pub const NANOS_PER_SEC: u64 = 1000000000;

/// The auto-drop period for `speed`, in nanoseconds: the base interval
/// divided by the speed multiplier.
pub fn speed_to_duration(speed: u32) -> (r: u64)
    requires
        speed >= 1,
    ensures
        r == (INITIAL_DROP_INTERVAL_SECOND_COUNT * NANOS_PER_SEC) as int / (speed as int),
{
    INITIAL_DROP_INTERVAL_SECOND_COUNT * NANOS_PER_SEC / (speed as u64)
}

/// One producer decision: fire the event, or sleep this long first.
#[derive(Clone, Copy, PartialEq, Eq, Structural, Debug)]
pub enum TickStep {
    Fire,
    Sleep(u64),
}

/// Decide one producer step on a running clock: fire when `slot`'s
/// schedule is due at `now`, otherwise sleep until it.
pub fn next_tick(keeper: &TimeKeeper<2>, slot: usize, period: u64, now: u64) -> (r: TickStep)
    requires
        keeper.wf(),
        !keeper.pause,
        slot < 2,
        keeper.spec_time(slot as int) + period <= u64::MAX,
    ensures
        ({
            let due = keeper.spec_scheduled(slot as int, period);
            if now >= due {
                r is Fire
            } else {
                r matches TickStep::Sleep(d) && d == due - now
            }
        }),
{
    match keeper.scheduled_time(slot, period) {
        Some(due) => {
            if now >= due {
                TickStep::Fire
            } else {
                TickStep::Sleep(due - now)
            }
        },
        None => {
            proof {
                assert(false);
            }
            TickStep::Fire
        },
    }
}

} // verus!

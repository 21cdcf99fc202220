//! The pausable clock state: `N` independently scheduled reference instants
//! sharing one pause/resume lifecycle. Instants are nanoseconds of a
//! monotonic clock; the caller reads the clock and passes `now` in, so the
//! scheduling arithmetic itself is fully verified.

use vstd::prelude::*;

verus! {

/// Pausable clock state with `N` schedule slots.
pub struct TimeKeeper<const N: usize> {
    pub times: Vec<u64>,
    pub pause_time: u64,
    pub pause: bool,
}

impl<const N: usize> TimeKeeper<N> {
    /// Well-formed: one reference instant per slot.
    pub open spec fn wf(self) -> bool {
        self.times@.len() == N
    }

    /// The reference instant of `slot`.
    pub open spec fn spec_time(self, slot: int) -> u64 {
        self.times@[slot]
    }

    /// The instant at which an event of period `period` on `slot` is next
    /// due, as an unbounded integer.
    pub open spec fn spec_scheduled(self, slot: int, period: u64) -> int {
        self.times@[slot] + period
    }

    /// A fresh keeper: every slot referenced to `time`, paused.
    pub fn new(time: u64) -> (k: TimeKeeper<N>)
        ensures
            k.wf(),
            k.pause,
            k.pause_time == time,
            forall|i: int| 0 <= i < N ==> k.spec_time(i) == time,
    {
        let mut times: Vec<u64> = Vec::new();
        let mut i: usize = 0;
        while i < N
            invariant
                i <= N,
                times@.len() == i,
                forall|j: int| 0 <= j < i ==> #[trigger] times@[j] == time,
            decreases N - i,
        {
            times.push(time);
            i = i + 1;
        }
        TimeKeeper { times, pause_time: time, pause: true }
    }

    pub fn is_paused(&self) -> (r: bool)
        ensures
            r == self.pause,
    {
        self.pause
    }

    /// The next due instant of `slot` for `period`, or `None` while paused:
    /// a paused clock has no schedule.
    pub fn scheduled_time(&self, slot: usize, duration: u64) -> (r: Option<u64>)
        requires
            self.wf(),
            slot < N,
            self.spec_time(slot as int) + duration <= u64::MAX,
        ensures
            self.pause ==> r is None,
            !self.pause ==> r == Some((self.spec_time(slot as int) + duration) as u64),
    {
        if self.pause {
            None
        } else {
            Some(self.times[slot] + duration)
        }
    }

    /// Re-reference `slot` to the instant `now`.
    pub fn set_now(&mut self, slot: usize, now: u64)
        requires
            old(self).wf(),
            slot < N,
        ensures
            final(self).wf(),
            final(self).pause == old(self).pause,
            final(self).pause_time == old(self).pause_time,
            final(self).spec_time(slot as int) == now,
            forall|i: int|
                0 <= i < N && i != slot ==> final(self).spec_time(i) == old(self).spec_time(i),
    {
        self.times.set(slot, now);
    }

    /// What `pause` does: a no-op on a paused clock, otherwise it records
    /// the pause instant and marks the clock paused.
    pub open spec fn pause_rel(pre: TimeKeeper<N>, post: TimeKeeper<N>, now: u64) -> bool {
        if pre.pause {
            post == pre
        } else {
            post == (TimeKeeper { pause_time: now, pause: true, ..pre })
        }
    }

    pub fn pause(&mut self, now: u64)
        requires
            old(self).wf(),
        ensures
            final(self).wf(),
            TimeKeeper::pause_rel(*old(self), *final(self), now),
    {
        if !self.pause {
            self.pause_time = now;
            self.pause = true;
        }
    }

    /// What `resume` does: a no-op on a running clock, otherwise every
    /// slot's reference instant moves forward by the paused duration, so
    /// schedules count active time only.
    pub open spec fn resume_rel(pre: TimeKeeper<N>, post: TimeKeeper<N>, now: u64) -> bool {
        if !pre.pause {
            post == pre
        } else {
            &&& !post.pause
            &&& post.pause_time == pre.pause_time
            &&& post.times@.len() == pre.times@.len()
            &&& forall|i: int|
                0 <= i < pre.times@.len() ==> post.spec_time(i) == pre.spec_time(i) + (now
                    - pre.pause_time)
        }
    }

    /// Resume the clock; returns the paused duration, or zero if the clock
    /// was already running.
    pub fn resume(&mut self, now: u64) -> (d: u64)
        requires
            old(self).wf(),
            old(self).pause ==> old(self).pause_time <= now,
            old(self).pause ==> forall|i: int|
                0 <= i < N ==> old(self).spec_time(i) + (now - old(self).pause_time) <= u64::MAX,
        ensures
            final(self).wf(),
            TimeKeeper::resume_rel(*old(self), *final(self), now),
            d == if old(self).pause {
                now - old(self).pause_time
            } else {
                0
            },
    {
        if self.pause {
            let duration = now - self.pause_time;
            let n = self.times.len();
            let mut i: usize = 0;
            while i < n
                invariant
                    n == N,
                    i <= n,
                    self.times@.len() == n,
                    self.pause_time == old(self).pause_time,
                    self.pause,
                    duration == now - old(self).pause_time,
                    forall|j: int|
                        0 <= j < i ==> #[trigger] self.times@[j] == old(self).times@[j] + duration,
                    forall|j: int| i <= j < n ==> #[trigger] self.times@[j] == old(self).times@[j],
                    old(self).times@.len() == n,
                    forall|j: int|
                        0 <= j < n ==> #[trigger] old(self).spec_time(j) + duration <= u64::MAX,
                decreases n - i,
            {
                let t = self.times[i];
                proof {
                    assert(t == old(self).spec_time(i as int));
                }
                self.times.set(i, t + duration);
                i = i + 1;
            }
            self.pause = false;
            duration
        } else {
            0
        }
    }
}

/// Law: pausing at `t1` and resuming at `t2` shifts every slot's next
/// scheduled instant later by exactly the paused duration `t2 - t1`.
pub proof fn lemma_pause_resume_shifts_schedule<const N: usize>(
    k0: TimeKeeper<N>,
    k1: TimeKeeper<N>,
    k2: TimeKeeper<N>,
    t1: u64,
    t2: u64,
    slot: int,
    period: u64,
)
    requires
        k0.wf(),
        !k0.pause,
        t1 <= t2,
        TimeKeeper::pause_rel(k0, k1, t1),
        TimeKeeper::resume_rel(k1, k2, t2),
        0 <= slot < N,
    ensures
        !k2.pause,
        k2.spec_scheduled(slot, period) == k0.spec_scheduled(slot, period) + (t2 - t1),
{
    assert(k1.times == k0.times);
    assert(k2.spec_time(slot) == k1.spec_time(slot) + (t2 - t1));
}

} // verus!

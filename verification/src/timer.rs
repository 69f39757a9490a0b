//! Clock virtualization: deadline bookkeeping and time offsets.
//!
//! The back-end clock itself (a POSIX interval timer, a hypervisor timer,
//! a freezer process) lives outside this crate; the surrounding program
//! reads the clocks and arms the timer at the absolute instants computed
//! here. This module keeps the canonical cross-slice state — the previous
//! and next deadline in global simulation time, whether a deadline is
//! being handled, and the two adjustable time offsets — and proves that
//! every transition keeps `prev_deadline <= next_deadline` and both
//! non-decreasing.
use vstd::prelude::*;

use crate::seq_lock::SeqLock;
use crate::time::Dur;

verus! {

/// A signed offset, in nanoseconds, added to a raw clock reading to
/// obtain the adjusted view of time. Guarded by a sequence lock because
/// the writer runs in the deadline handler while readers may be
/// interrupted application threads.
#[derive(Debug)]
pub struct AdjustedTime {
    pub inner: SeqLock<i128>,
}

impl AdjustedTime {
    pub open spec fn wf(self) -> bool {
        self.inner.wf()
    }

    pub open spec fn spec_offset(self) -> i128 {
        self.inner.value
    }

    pub fn new(offset: i128) -> (r: AdjustedTime)
        ensures
            r.wf(),
            r.spec_offset() == offset,
    {
        AdjustedTime { inner: SeqLock::new(offset) }
    }

    /// The current offset.
    pub fn get(&self) -> (r: i128)
        requires
            self.wf(),
        ensures
            r == self.spec_offset(),
    {
        self.inner.read()
    }

    /// Replaces the offset.
    pub fn adjust(&mut self, offset: i128)
        requires
            old(self).wf(),
        ensures
            final(self).wf(),
            final(self).spec_offset() == offset,
    {
        self.inner.write(offset);
    }
}

/// Deadline-driven clock state shared by every back-end.
#[derive(Debug)]
pub struct TimerContext {
    /// Offset from simulation time zero to the application's epoch.
    pub time_offset: Dur,
    /// Offset from the local wall clock to the application's adjusted
    /// view of time.
    pub application_time: AdjustedTime,
    /// Offset from the raw monotonic clock to global simulation time.
    pub simulation_time: AdjustedTime,
    /// True while a deadline is being handled: local time stands still.
    pub at_deadline: bool,
    /// The application time shown while frozen at a deadline.
    pub current_deadline: Dur,
    /// Start of the current slice, in global simulation time.
    pub prev_deadline: Dur,
    /// End of the current slice, in global simulation time.
    pub next_deadline: Dur,
    /// Set once the timer is disarmed; no further deadline is scheduled.
    pub stopped: bool,
}

impl TimerContext {
    /// Both deadlines are canonical and the slice is well ordered:
    /// `prev_deadline <= next_deadline`.
    pub open spec fn wf(self) -> bool {
        &&& self.time_offset.wf()
        &&& self.current_deadline.wf()
        &&& self.prev_deadline.wf()
        &&& self.next_deadline.wf()
        &&& self.prev_deadline.spec_ns() <= self.next_deadline.spec_ns()
        &&& self.application_time.wf()
        &&& self.simulation_time.wf()
    }

    /// Fresh state: time starts at zero in global simulation time, the
    /// timer is not armed, and the application clock will show
    /// `time_offset` when the simulation starts.
    pub fn new(time_offset: Dur) -> (r: TimerContext)
        requires
            time_offset.wf(),
        ensures
            r.wf(),
            r.time_offset == time_offset,
            r.current_deadline == time_offset,
            r.prev_deadline.spec_ns() == 0,
            r.next_deadline.spec_ns() == 0,
            r.at_deadline,
            r.stopped,
            r.application_time.spec_offset() == 0,
            r.simulation_time.spec_offset() == 0,
    {
        TimerContext {
            time_offset,
            application_time: AdjustedTime::new(0),
            simulation_time: AdjustedTime::new(0),
            at_deadline: true,
            current_deadline: time_offset,
            prev_deadline: Dur::zero(),
            next_deadline: Dur::zero(),
            stopped: true,
        }
    }

    /// Moves the slice forward: the old end becomes the new start and the
    /// new end is the deadline the actor announced, which never goes
    /// backwards.
    pub fn set_next_deadline(&mut self, deadline: Dur)
        requires
            old(self).wf(),
            deadline.wf(),
            old(self).next_deadline.spec_ns() <= deadline.spec_ns(),
        ensures
            final(self).wf(),
            final(self).prev_deadline == old(self).next_deadline,
            final(self).next_deadline == deadline,
            *final(self) == (TimerContext {
                prev_deadline: old(self).next_deadline,
                next_deadline: deadline,
                ..*old(self)
            }),
    {
        self.prev_deadline = self.next_deadline;
        self.next_deadline = deadline;
    }

    /// Freezes local time at the start of deadline handling: records the
    /// application time to show while frozen, and hands the raw clock
    /// reading back for the thaw.
    pub fn freeze_time(&mut self, now: Dur, local_now: Dur) -> (r: Dur)
        requires
            old(self).wf(),
            !old(self).at_deadline,
            now.wf(),
            local_now.wf(),
            0 <= local_now.spec_ns() + old(self).application_time.spec_offset() <= Dur::max_value(
            ).spec_ns(),
        ensures
            final(self).wf(),
            r == now,
            final(self).at_deadline,
            final(self).current_deadline.spec_ns() == local_now.spec_ns() + old(self).application_time.spec_offset(),
            *final(self) == (TimerContext {
                at_deadline: true,
                current_deadline: final(self).current_deadline,
                ..*old(self)
            }),
    {
        let frozen: Dur = self.application_now(local_now);
        self.current_deadline = frozen;
        self.at_deadline = true;
        now
    }

    /// Thaws local time up to the next deadline.
    ///
    /// The slice advances to end at `deadline`; on the first call (no
    /// freeze time) the offsets are initialized so that simulation time
    /// starts at zero and application time at the configured origin,
    /// otherwise both offsets lose the real time spent frozen. Returns
    /// the absolute raw instant at which the back-end timer must fire:
    /// the raw clock now plus the new slice's length.
    pub fn thaw_time_to_deadline(
        &mut self,
        freeze_time: Option<Dur>,
        deadline: Dur,
        now: Dur,
        local_now: Dur,
    ) -> (arm: Dur)
        requires
            old(self).wf(),
            deadline.wf(),
            now.wf(),
            local_now.wf(),
            old(self).next_deadline.spec_ns() <= deadline.spec_ns(),
            now.spec_ns() + deadline.spec_ns() - old(self).next_deadline.spec_ns()
                <= Dur::max_value().spec_ns(),
            freeze_time matches Some(f) ==> f.wf() && f.spec_ns() <= now.spec_ns() && old(
                self,
            ).application_time.spec_offset() - (now.spec_ns() - f.spec_ns()) >= i128::MIN && old(
                self,
            ).simulation_time.spec_offset() - (now.spec_ns() - f.spec_ns()) >= i128::MIN,
        ensures
            final(self).wf(),
            final(self).prev_deadline == old(self).next_deadline,
            final(self).next_deadline == deadline,
            !final(self).at_deadline,
            final(self).stopped == old(self).stopped,
            final(self).time_offset == old(self).time_offset,
            final(self).current_deadline == old(self).current_deadline,
            arm.wf(),
            arm.spec_ns() == now.spec_ns() + deadline.spec_ns() - old(self).next_deadline.spec_ns(),
            match freeze_time {
                Some(f) => final(self).application_time.spec_offset() == old(self).application_time.spec_offset() - (now.spec_ns() - f.spec_ns()) && final(self).simulation_time.spec_offset() == old(self).simulation_time.spec_offset() - (
                now.spec_ns() - f.spec_ns()),
                None => final(self).application_time.spec_offset() == old(self).current_deadline.spec_ns() - local_now.spec_ns() && final(self).simulation_time.spec_offset() == -now.spec_ns(),
            },
    {
        let next_deadline_val: Dur = self.next_deadline;
        self.prev_deadline = next_deadline_val;
        self.next_deadline = deadline;

        let arm: Dur = now.add(deadline.sub(next_deadline_val));

        match freeze_time {
            Some(freeze) => {
                let elapsed: i128 = now.as_nanos_i128() - freeze.as_nanos_i128();
                let app_offset: i128 = self.application_time.get();
                let sim_offset: i128 = self.simulation_time.get();
                proof {
                    crate::time::lemma_max_value_ns();
                }
                self.application_time.adjust(app_offset - elapsed);
                self.simulation_time.adjust(sim_offset - elapsed);
            },
            None => {
                // The application time reference is recorded here: the
                // configured origin minus what the wall clock shows.
                let app_offset: i128 = self.current_deadline.as_nanos_i128()
                    - local_now.as_nanos_i128();
                self.application_time.adjust(app_offset);
                // Time starts at zero in global simulation time.
                let sim_offset: i128 = -now.as_nanos_i128();
                self.simulation_time.adjust(sim_offset);
            },
        }

        self.at_deadline = false;
        arm
    }

    /// Arms the first slice: clears the stop flag, initializes the
    /// offsets, and returns the raw instant to arm the timer at together
    /// with the configured time origin, which `start` reports to the
    /// caller.
    pub fn start(&mut self, deadline: Dur, now: Dur, local_now: Dur) -> (r: (Dur, Dur))
        requires
            old(self).wf(),
            deadline.wf(),
            now.wf(),
            local_now.wf(),
            old(self).next_deadline.spec_ns() <= deadline.spec_ns(),
            now.spec_ns() + deadline.spec_ns() - old(self).next_deadline.spec_ns()
                <= Dur::max_value().spec_ns(),
        ensures
            final(self).wf(),
            !final(self).stopped,
            !final(self).at_deadline,
            final(self).prev_deadline == old(self).next_deadline,
            final(self).next_deadline == deadline,
            r.0.wf(),
            r.0.spec_ns() == now.spec_ns() + deadline.spec_ns() - old(self).next_deadline.spec_ns(),
            r.1 == old(self).time_offset,
            final(self).time_offset == old(self).time_offset,
            final(self).current_deadline == old(self).current_deadline,
            final(self).simulation_time.spec_offset() == -now.spec_ns(),
            final(self).application_time.spec_offset() == old(self).current_deadline.spec_ns()
                - local_now.spec_ns(),
    {
        self.stopped = false;
        let arm: Dur = self.thaw_time_to_deadline(None, deadline, now, local_now);
        (arm, self.time_offset)
    }

    /// Disarms the timer: after this no further deadline is scheduled.
    pub fn stop(&mut self)
        ensures
            *final(self) == (TimerContext { stopped: true, ..*old(self) }),
    {
        self.stopped = true;
    }

    /// The wall-clock time the application should observe: frozen at the
    /// recorded deadline while a deadline is handled, the adjusted local
    /// clock otherwise.
    pub fn application_now(&self, local_now: Dur) -> (r: Dur)
        requires
            self.wf(),
            local_now.wf(),
            !self.at_deadline ==> 0 <= local_now.spec_ns() + self.application_time.spec_offset()
                <= Dur::max_value().spec_ns(),
        ensures
            r.wf(),
            self.at_deadline ==> r == self.current_deadline,
            !self.at_deadline ==> r.spec_ns() == local_now.spec_ns()
                + self.application_time.spec_offset(),
    {
        if !self.at_deadline {
            let adjusted: i128 = local_now.as_nanos_i128() + self.application_time.get();
            proof {
                crate::time::lemma_max_value_ns();
            }
            Dur::from_signed_nanos(adjusted)
        } else {
            self.current_deadline
        }
    }

    /// The current global simulation time: the raw monotonic clock plus
    /// the simulation offset. Never called while a deadline is handled.
    pub fn simulation_now(&self, now: Dur) -> (r: Dur)
        requires
            self.wf(),
            now.wf(),
            !self.at_deadline,
            0 <= now.spec_ns() + self.simulation_time.spec_offset() <= Dur::max_value().spec_ns(),
        ensures
            r.wf(),
            r.spec_ns() == now.spec_ns() + self.simulation_time.spec_offset(),
    {
        let adjusted: i128 = now.as_nanos_i128() + self.simulation_time.get();
        proof {
            crate::time::lemma_max_value_ns();
        }
        Dur::from_signed_nanos(adjusted)
    }

    /// Start of the current slice; read only while handling a deadline.
    pub fn simulation_previous_deadline(&self) -> (r: Dur)
        requires
            self.at_deadline,
        ensures
            r == self.prev_deadline,
    {
        self.prev_deadline
    }

    /// End of the current slice.
    pub fn simulation_next_deadline(&self) -> (r: Dur)
        ensures
            r == self.next_deadline,
    {
        self.next_deadline
    }

    /// Decides whether a message's send time overran the current slice.
    ///
    /// Returns nothing when the send time is within the slice. Otherwise
    /// the message must wait for a later slice, and to preserve
    /// per-source ordering its time is raised to the send time of the
    /// last message already waiting, when that one is later.
    pub fn check_deadline_overrun(&self, send_time: Dur, upcoming_last: Option<Dur>) -> (r: Option<
        Dur,
    >)
        requires
            self.wf(),
            send_time.wf(),
            upcoming_last matches Some(l) ==> l.wf(),
        ensures
            send_time.spec_ns() <= self.next_deadline.spec_ns() ==> r is None,
            send_time.spec_ns() > self.next_deadline.spec_ns() ==> match upcoming_last {
                Some(l) => r == Some(if l.spec_ns() > send_time.spec_ns() {
                    l
                } else {
                    send_time
                }),
                None => r == Some(send_time),
            },
    {
        if self.next_deadline.lt(&send_time) {
            match upcoming_last {
                Some(last) => {
                    if send_time.lt(&last) {
                        Some(last)
                    } else {
                        Some(send_time)
                    }
                },
                None => Some(send_time),
            }
        } else {
            None
        }
    }
}

/// Slice ordering law: in every reachable timer state the previous
/// deadline does not exceed the next one, and each transition moves both
/// deadlines forward — `set_next_deadline` and `thaw_time_to_deadline`
/// replace the start of the slice by its old end and never let the end
/// decrease.
pub proof fn lemma_slice_ordered(t: TimerContext)
    requires
        t.wf(),
    ensures
        t.prev_deadline.spec_ns() <= t.next_deadline.spec_ns(),
{
}

} // verus!

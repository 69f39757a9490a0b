//! Dynamic queue limits: adapts a queue's byte limit to what the
//! consumer completes per interval.
//!
//! The enqueue path records what was queued; the completion path
//! recalculates the limit: a starved queue (over limit with nothing left,
//! or fully drained right after an over-limit interval) grows the limit
//! by what the last interval moved, while a busy queue shrinks it by the
//! smallest slack observed over a hold period. [`spec_completed`] states
//! the recalculation exactly and [`Dql::completed`] is proved against it.
use vstd::prelude::*;

use crate::time::Dur;

verus! {

/// Largest object count a single `queued` call may record.
pub const MAX_OBJECT: usize = 0xFFF_FFFF;

/// Largest limit the recalculation will ever set.
pub const MAX_LIMIT: usize = 0x7FFF_FFFF - MAX_OBJECT;

/// Initial (absent) slack measurement.
pub const LOWEST_SLACK_INIT: usize = 0xFFFF_FFFF;

/// Dynamic queue limit state.
#[derive(Debug)]
pub struct Dql {
    /// Total ever queued.
    pub num_queued: usize,
    /// `limit + num_completed`: what may be queued before going over.
    pub adj_limit: usize,
    /// Count at last queuing.
    pub last_obj_count: usize,
    /// Current limit.
    pub limit: usize,
    /// Total ever completed.
    pub num_completed: usize,
    /// Previous over-limit amount.
    pub prev_ovlimit: usize,
    /// Previous queue total.
    pub prev_num_queued: usize,
    /// Previous queuing count.
    pub prev_last_obj_count: usize,
    /// Lowest slack found in the current hold period.
    pub lowest_slack: usize,
    /// When the current slack hold period started.
    pub slack_start_time: Dur,
    /// Maximum limit.
    pub max_limit: usize,
    /// Minimum limit.
    pub min_limit: usize,
    /// Length of a slack hold period.
    pub slack_hold_time: Dur,
}

impl Dql {
    /// The bookkeeping stays consistent: completions never outrun
    /// queuing, the limit stays within its bounds, and `adj_limit` is
    /// the limit plus the completed total.
    pub open spec fn wf(self) -> bool {
        &&& self.num_completed <= self.num_queued
        &&& self.prev_num_queued <= self.num_queued
        &&& self.limit <= self.max_limit
        &&& self.min_limit <= self.max_limit
        &&& self.max_limit <= MAX_LIMIT
        &&& self.prev_ovlimit <= self.prev_num_queued
        &&& self.adj_limit == self.limit + self.num_completed
        &&& self.slack_start_time.wf()
        &&& self.slack_hold_time.wf()
    }

    pub fn new(now: Dur, hold_time: Dur) -> (r: Dql)
        requires
            now.wf(),
            hold_time.wf(),
        ensures
            r.wf(),
            r.num_queued == 0 && r.adj_limit == 0 && r.last_obj_count == 0,
            r.limit == 0 && r.num_completed == 0,
            r.prev_ovlimit == 0 && r.prev_num_queued == 0 && r.prev_last_obj_count == 0,
            r.lowest_slack == LOWEST_SLACK_INIT,
            r.slack_start_time == now,
            r.max_limit == MAX_LIMIT && r.min_limit == 0,
            r.slack_hold_time == hold_time,
    {
        Dql {
            num_queued: 0,
            adj_limit: 0,
            last_obj_count: 0,
            limit: 0,
            num_completed: 0,
            prev_ovlimit: 0,
            prev_num_queued: 0,
            prev_last_obj_count: 0,
            lowest_slack: LOWEST_SLACK_INIT,
            slack_start_time: now,
            max_limit: MAX_LIMIT,
            min_limit: 0,
            slack_hold_time: hold_time,
        }
    }

    /// Records `count` objects queued. The caller has already checked
    /// room with [`Dql::available`].
    pub fn queued(&mut self, count: usize)
        requires
            old(self).wf(),
            count <= MAX_OBJECT,
            old(self).num_queued + count <= usize::MAX,
        ensures
            final(self).wf(),
            *final(self) == (Dql {
                last_obj_count: count,
                num_queued: (old(self).num_queued + count) as usize,
                ..*old(self)
            }),
    {
        self.last_obj_count = count;
        self.num_queued = self.num_queued + count;
    }

    /// The current limit of the queue.
    pub fn get_limit(&self) -> (r: usize)
        ensures
            r == self.limit,
    {
        self.limit
    }

    /// How many objects can still be queued; `None` means over limit.
    pub fn available(&self) -> (r: Option<usize>)
        ensures
            match r {
                Some(n) => self.adj_limit >= self.num_queued && n == self.adj_limit
                    - self.num_queued,
                None => self.adj_limit < self.num_queued,
            },
    {
        self.adj_limit.checked_sub(self.num_queued)
    }

    /// Resets all counters as at construction, keeping the configured
    /// bounds.
    pub fn reset(&mut self, now: Dur)
        requires
            old(self).wf(),
            now.wf(),
        ensures
            final(self).wf(),
            *final(self) == (Dql {
                num_queued: 0,
                adj_limit: 0,
                last_obj_count: 0,
                limit: 0,
                num_completed: 0,
                prev_ovlimit: 0,
                prev_num_queued: 0,
                prev_last_obj_count: 0,
                lowest_slack: LOWEST_SLACK_INIT,
                slack_start_time: now,
                ..*old(self)
            }),
    {
        self.num_queued = 0;
        self.adj_limit = 0;
        self.last_obj_count = 0;
        self.limit = 0;
        self.num_completed = 0;
        self.prev_ovlimit = 0;
        self.prev_num_queued = 0;
        self.prev_last_obj_count = 0;
        self.lowest_slack = LOWEST_SLACK_INIT;
        self.slack_start_time = now;
    }

    /// Records `count` completed objects and recalculates the limit;
    /// the new state is exactly [`spec_completed`] of the old.
    pub fn completed(&mut self, count: usize, now: Dur)
        requires
            old(self).wf(),
            now.wf(),
            count <= old(self).num_queued - old(self).num_completed,
            old(self).num_queued <= usize::MAX / 4,
            old(self).slack_start_time.spec_ns() + old(self).slack_hold_time.spec_ns()
                <= Dur::max_value().spec_ns(),
        ensures
            final(self).wf(),
            *final(self) == spec_completed(*old(self), count, now),
    {
        let num_queued: usize = self.num_queued;
        let completed: usize = self.num_completed + count;
        let mut limit: usize = self.limit;
        let mut ovlimit: usize = saturating_sub_usize(num_queued - self.num_completed, limit);
        let inprogress: bool = num_queued != completed;
        let prev_inprogress: bool = self.prev_num_queued != self.num_completed;
        let all_prev_completed: bool = completed >= self.prev_num_queued;

        if (ovlimit > 0 && !inprogress) || (self.prev_ovlimit > 0 && all_prev_completed) {
            // Starved: grow the limit by what the last interval both
            // queued and completed, plus any previous over-limit.
            limit = limit + saturating_sub_usize(completed, self.prev_num_queued)
                + self.prev_ovlimit;
            self.slack_start_time = now;
            self.lowest_slack = LOWEST_SLACK_INIT;
        } else if inprogress && prev_inprogress && !all_prev_completed {
            // Busy the whole interval: look for slack to shrink by.
            let slack: usize = saturating_sub_usize(
                limit + self.prev_ovlimit,
                2 * (completed - self.num_completed),
            );
            let slack_last_objs: usize = if self.prev_ovlimit > 0 {
                saturating_sub_usize(self.prev_last_obj_count, self.prev_ovlimit)
            } else {
                0
            };
            let slack_max: usize = if slack >= slack_last_objs {
                slack
            } else {
                slack_last_objs
            };
            if slack_max < self.lowest_slack {
                self.lowest_slack = slack_max;
            }
            let hold_end: Dur = self.slack_start_time.add(self.slack_hold_time);
            if hold_end.lt(&now) {
                limit = saturating_sub_usize(limit, self.lowest_slack);
                self.slack_start_time = now;
                self.lowest_slack = LOWEST_SLACK_INIT;
            }
        }

        // Enforce bounds on the limit.
        let bounded: usize = if limit >= self.min_limit {
            limit
        } else {
            self.min_limit
        };
        let bounded: usize = if bounded <= self.max_limit {
            bounded
        } else {
            self.max_limit
        };

        if bounded != self.limit {
            self.limit = bounded;
            ovlimit = 0;
        }

        self.adj_limit = bounded + completed;
        self.prev_ovlimit = ovlimit;
        self.prev_last_obj_count = self.last_obj_count;
        self.num_completed = completed;
        self.prev_num_queued = num_queued;
    }
}

/// `a - b`, clamped at zero.
fn saturating_sub_usize(a: usize, b: usize) -> (r: usize)
    ensures
        r == if a >= b {
            a - b
        } else {
            0
        },
{
    if a >= b {
        a - b
    } else {
        0
    }
}

/// Saturating subtraction in specifications.
pub open spec fn spec_sat_sub(a: int, b: int) -> int {
    if a >= b {
        a - b
    } else {
        0
    }
}

/// The completion recalculation, stated over unbounded integers: what
/// [`Dql::completed`] leaves in every field.
pub open spec fn spec_completed(d: Dql, count: usize, now: Dur) -> Dql {
    let completed = d.num_completed + count;
    let ovlimit0 = spec_sat_sub(d.num_queued - d.num_completed, d.limit as int);
    let inprogress = d.num_queued != completed;
    let prev_inprogress = d.prev_num_queued != d.num_completed;
    let all_prev_completed = completed >= d.prev_num_queued;
    let starved = (ovlimit0 > 0 && !inprogress) || (d.prev_ovlimit > 0 && all_prev_completed);
    let busy = inprogress && prev_inprogress && !all_prev_completed;
    let slack_max = spec_max(
        spec_sat_sub(d.limit + d.prev_ovlimit, 2 * (completed - d.num_completed)),
        if d.prev_ovlimit > 0 {
            spec_sat_sub(d.prev_last_obj_count as int, d.prev_ovlimit as int)
        } else {
            0
        },
    );
    let lowest1 = if busy && slack_max < d.lowest_slack {
        slack_max
    } else {
        d.lowest_slack as int
    };
    let hold_expired = d.slack_start_time.spec_ns() + d.slack_hold_time.spec_ns() < now.spec_ns();
    let raw_limit = if starved {
        d.limit + spec_sat_sub(completed, d.prev_num_queued as int) + d.prev_ovlimit
    } else if busy && hold_expired {
        spec_sat_sub(d.limit as int, lowest1)
    } else {
        d.limit as int
    };
    let slack_reset = starved || (busy && hold_expired);
    let new_limit = spec_min(spec_max(raw_limit, d.min_limit as int), d.max_limit as int);
    let ovlimit = if new_limit != d.limit {
        0
    } else {
        ovlimit0
    };
    Dql {
        num_queued: d.num_queued,
        adj_limit: (new_limit + completed) as usize,
        last_obj_count: d.last_obj_count,
        limit: new_limit as usize,
        num_completed: completed as usize,
        prev_ovlimit: ovlimit as usize,
        prev_num_queued: d.num_queued,
        prev_last_obj_count: d.last_obj_count,
        lowest_slack: (if slack_reset {
            LOWEST_SLACK_INIT as int
        } else {
            lowest1
        }) as usize,
        slack_start_time: if slack_reset {
            now
        } else {
            d.slack_start_time
        },
        max_limit: d.max_limit,
        min_limit: d.min_limit,
        slack_hold_time: d.slack_hold_time,
    }
}

pub open spec fn spec_max(a: int, b: int) -> int {
    if a >= b {
        a
    } else {
        b
    }
}

pub open spec fn spec_min(a: int, b: int) -> int {
    if a <= b {
        a
    } else {
        b
    }
}

} // verus!

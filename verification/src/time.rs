//! Durations with nanosecond resolution.
//!
//! All simulation times in this crate are offsets from the simulation origin
//! (time zero), held as a number of whole seconds plus a sub-second
//! nanosecond part. The well-formedness invariant keeps the nanosecond part
//! below one second so that every instant has one canonical representation.
use vstd::prelude::*;

verus! {

/// Nanoseconds in one second.
pub const NANOS_PER_SEC: u32 = 1_000_000_000;

/// Microseconds in one second; sub-second microsecond counts on the wire
/// must stay below this bound.
pub const MICROS_PER_SEC: u64 = 1_000_000;

/// A non-negative span of time with nanosecond resolution, also used for
/// instants counted from the simulation origin.
#[derive(Clone, Copy, Debug, PartialEq, Eq, Structural)]
pub struct Dur {
    pub secs: u64,
    pub nanos: u32,
}

impl Dur {
    /// Canonical form: the sub-second part is less than one second.
    pub open spec fn wf(self) -> bool {
        self.nanos < NANOS_PER_SEC
    }

    /// The whole span as a mathematical number of nanoseconds.
    pub open spec fn spec_ns(self) -> int {
        self.secs * (NANOS_PER_SEC as int) + self.nanos
    }

    pub fn new(secs: u64, nanos: u32) -> (r: Dur)
        requires
            nanos < NANOS_PER_SEC,
        ensures
            r.wf(),
            r.spec_ns() == secs * (NANOS_PER_SEC as int) + nanos,
    {
        Dur { secs, nanos }
    }

    pub fn zero() -> (r: Dur)
        ensures
            r.wf(),
            r.spec_ns() == 0,
    {
        Dur { secs: 0, nanos: 0 }
    }

    pub fn from_micros(micros: u64) -> (r: Dur)
        ensures
            r.wf(),
            r.spec_ns() == micros * 1000,
    {
        let secs: u64 = micros / MICROS_PER_SEC;
        let sub: u64 = micros % MICROS_PER_SEC;
        proof {
            assert(secs * (NANOS_PER_SEC as int) + sub * 1000 == micros * 1000) by (nonlinear_arith)
                requires
                    secs == micros / 1_000_000u64,
                    sub == micros % 1_000_000u64,
            ;
        }
        Dur { secs, nanos: (sub as u32) * 1000 }
    }

    pub fn from_nanos(nanos: u64) -> (r: Dur)
        ensures
            r.wf(),
            r.spec_ns() == nanos,
    {
        let secs: u64 = nanos / (NANOS_PER_SEC as u64);
        let sub: u64 = nanos % (NANOS_PER_SEC as u64);
        proof {
            assert(secs * (NANOS_PER_SEC as int) + sub == nanos) by (nonlinear_arith)
                requires
                    secs == nanos / 1_000_000_000u64,
                    sub == nanos % 1_000_000_000u64,
            ;
        }
        Dur { secs, nanos: sub as u32 }
    }

    pub fn as_secs(&self) -> (r: u64)
        ensures
            r == self.secs,
    {
        self.secs
    }

    pub fn subsec_nanos(&self) -> (r: u32)
        ensures
            r == self.nanos,
    {
        self.nanos
    }

    pub fn subsec_micros(&self) -> (r: u32)
        ensures
            r == self.nanos / 1000,
    {
        self.nanos / 1000
    }

    /// Spec projections of the two fields.
    pub open spec fn spec_secs(self) -> u64 {
        self.secs
    }

    pub open spec fn spec_subsec_nanos(self) -> u32 {
        self.nanos
    }

    pub fn checked_add(self, other: Dur) -> (r: Option<Dur>)
        requires
            self.wf(),
            other.wf(),
        ensures
            match r {
                Some(s) => s.wf() && s.spec_ns() == self.spec_ns() + other.spec_ns(),
                None => self.spec_ns() + other.spec_ns() > Dur::max_value().spec_ns(),
            },
    {
        let mut secs_opt: Option<u64> = self.secs.checked_add(other.secs);
        let nanos: u32 = self.nanos + other.nanos;
        let mut nanos_final: u32 = nanos;
        if nanos >= NANOS_PER_SEC {
            nanos_final = nanos - NANOS_PER_SEC;
            secs_opt = match secs_opt {
                Some(s) => s.checked_add(1),
                None => None,
            };
        }
        proof {
            lemma_max_value_ns();
        }
        match secs_opt {
            Some(s) => Some(Dur { secs: s, nanos: nanos_final }),
            None => None,
        }
    }

    /// Addition; the caller shows the sum stays representable.
    pub fn add(self, other: Dur) -> (r: Dur)
        requires
            self.wf(),
            other.wf(),
            self.spec_ns() + other.spec_ns() <= Dur::max_value().spec_ns(),
        ensures
            r.wf(),
            r.spec_ns() == self.spec_ns() + other.spec_ns(),
    {
        proof {
            lemma_max_value_ns();
        }
        let nanos: u32 = self.nanos + other.nanos;
        if nanos >= NANOS_PER_SEC {
            Dur { secs: self.secs + other.secs + 1, nanos: nanos - NANOS_PER_SEC }
        } else {
            Dur { secs: self.secs + other.secs, nanos }
        }
    }

    /// Subtraction of a smaller or equal span.
    pub fn sub(self, other: Dur) -> (r: Dur)
        requires
            self.wf(),
            other.wf(),
            other.spec_ns() <= self.spec_ns(),
        ensures
            r.wf(),
            r.spec_ns() == self.spec_ns() - other.spec_ns(),
    {
        if self.nanos >= other.nanos {
            Dur { secs: self.secs - other.secs, nanos: self.nanos - other.nanos }
        } else {
            Dur {
                secs: self.secs - other.secs - 1,
                nanos: (self.nanos + NANOS_PER_SEC) - other.nanos,
            }
        }
    }

    /// Subtraction clamped at zero.
    pub fn saturating_sub(self, other: Dur) -> (r: Dur)
        requires
            self.wf(),
            other.wf(),
        ensures
            r.wf(),
            r.spec_ns() == if self.spec_ns() >= other.spec_ns() {
                self.spec_ns() - other.spec_ns()
            } else {
                0
            },
    {
        if self.lt(&other) {
            Dur { secs: 0, nanos: 0 }
        } else {
            self.sub(other)
        }
    }

    pub fn is_zero(&self) -> (r: bool)
        requires
            self.wf(),
        ensures
            r == (self.spec_ns() == 0),
    {
        self.secs == 0 && self.nanos == 0
    }

    pub fn lt(&self, other: &Dur) -> (r: bool)
        requires
            self.wf(),
            other.wf(),
        ensures
            r == (self.spec_ns() < other.spec_ns()),
    {
        proof {
            lemma_ns_order(*self, *other);
        }
        self.secs < other.secs || (self.secs == other.secs && self.nanos < other.nanos)
    }

    pub fn le(&self, other: &Dur) -> (r: bool)
        requires
            self.wf(),
            other.wf(),
        ensures
            r == (self.spec_ns() <= other.spec_ns()),
    {
        proof {
            lemma_ns_order(*self, *other);
        }
        self.secs < other.secs || (self.secs == other.secs && self.nanos <= other.nanos)
    }

    /// The largest representable span.
    pub open spec fn max_value() -> Dur {
        Dur { secs: u64::MAX, nanos: (NANOS_PER_SEC - 1) as u32 }
    }

    /// Addition clamped at the largest representable span.
    pub fn saturating_add(self, other: Dur) -> (r: Dur)
        requires
            self.wf(),
            other.wf(),
        ensures
            r.wf(),
            r.spec_ns() == if self.spec_ns() + other.spec_ns() <= Dur::max_value().spec_ns() {
                self.spec_ns() + other.spec_ns()
            } else {
                Dur::max_value().spec_ns()
            },
    {
        proof {
            lemma_max_value_ns();
        }
        match self.checked_add(other) {
            Some(s) => s,
            None => Dur { secs: u64::MAX, nanos: NANOS_PER_SEC - 1 },
        }
    }

    /// The canonical span whose value is this one's plus `ns`
    /// nanoseconds.
    pub open spec fn spec_add_ns(self, ns: int) -> Dur {
        let total = self.spec_ns() + ns;
        Dur { secs: (total / 1_000_000_000) as u64, nanos: (total % 1_000_000_000) as u32 }
    }

    /// The span as a signed nanosecond count, for offset arithmetic.
    pub fn as_nanos_i128(&self) -> (r: i128)
        requires
            self.wf(),
        ensures
            r == self.spec_ns(),
    {
        proof {
            assert(self.secs as i128 * 1_000_000_000i128 + (self.nanos as i128) < i128::MAX)
                by (nonlinear_arith)
                requires
                    self.secs <= u64::MAX,
                    self.nanos < 1_000_000_000u32,
            ;
        }
        self.secs as i128 * 1_000_000_000 + self.nanos as i128
    }

    /// Rebuilds a span from a non-negative signed nanosecond count.
    pub fn from_signed_nanos(total: i128) -> (r: Dur)
        requires
            0 <= total <= Dur::max_value().spec_ns(),
        ensures
            r.wf(),
            r.spec_ns() == total,
    {
        proof {
            lemma_max_value_ns();
            assert(total / 1_000_000_000i128 <= u64::MAX && total % 1_000_000_000i128
                < 1_000_000_000 && (total / 1_000_000_000i128) * 1_000_000_000 + total
                % 1_000_000_000i128 == total && total % 1_000_000_000i128 >= 0 && total
                / 1_000_000_000i128 >= 0) by (nonlinear_arith)
                requires
                    0 <= total <= u64::MAX * 1_000_000_000i128 + 999_999_999i128,
            ;
        }
        let secs: i128 = total / 1_000_000_000;
        let sub: i128 = total % 1_000_000_000;
        Dur { secs: secs as u64, nanos: sub as u32 }
    }
}

/// Two well-formed spans compare on their nanosecond value exactly as they
/// compare lexicographically on (seconds, sub-second nanoseconds).
proof fn lemma_ns_order(a: Dur, b: Dur)
    requires
        a.wf(),
        b.wf(),
    ensures
        (a.spec_ns() < b.spec_ns()) == (a.secs < b.secs || (a.secs == b.secs && a.nanos < b.nanos)),
        (a.spec_ns() <= b.spec_ns()) == (a.secs < b.secs || (a.secs == b.secs
            && a.nanos <= b.nanos)),
{
    if a.secs < b.secs {
        assert(a.spec_ns() < b.spec_ns()) by (nonlinear_arith)
            requires
                a.secs < b.secs,
                a.nanos < 1_000_000_000u32,
                b.nanos < 1_000_000_000u32,
                a.spec_ns() == a.secs * 1_000_000_000int + a.nanos,
                b.spec_ns() == b.secs * 1_000_000_000int + b.nanos,
        ;
    } else if a.secs > b.secs {
        assert(b.spec_ns() < a.spec_ns()) by (nonlinear_arith)
            requires
                b.secs < a.secs,
                a.nanos < 1_000_000_000u32,
                b.nanos < 1_000_000_000u32,
                a.spec_ns() == a.secs * 1_000_000_000int + a.nanos,
                b.spec_ns() == b.secs * 1_000_000_000int + b.nanos,
        ;
    }
}

pub proof fn lemma_max_value_ns()
    ensures
        Dur::max_value().spec_ns() == u64::MAX * 1_000_000_000int + 999_999_999int,
        forall|d: Dur| d.wf() ==> #[trigger] d.spec_ns() <= Dur::max_value().spec_ns(),
{
    assert forall|d: Dur| d.wf() implies #[trigger] d.spec_ns() <= Dur::max_value().spec_ns() by {
        assert(d.spec_ns() <= Dur::max_value().spec_ns()) by (nonlinear_arith)
            requires
                d.secs <= u64::MAX,
                d.nanos < 1_000_000_000u32,
                d.spec_ns() == d.secs * 1_000_000_000int + d.nanos,
                Dur::max_value().spec_ns() == u64::MAX * 1_000_000_000int + 999_999_999int,
        ;
    }
}

} // verus!

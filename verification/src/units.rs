//! Fixed-point quantities: energy in joules and nanojoules, power in
//! microwatts, and the division that turns one into the other.
//!
//! Integers stand in for the fractional values of the physical model, so
//! that every result is exact and every bound can be proved.

use vstd::prelude::*;
use vstd::arithmetic::div_mod::{
    lemma_fundamental_div_mod,
    lemma_hoist_over_denominator,
    lemma_mod_bound,
};

verus! {

/// Nanojoules in a joule.
pub const NANOS_PER_JOULE: i128 = 1_000_000_000;

/// Microwatts in a watt.
pub const MICROS_PER_WATT: i64 = 1_000_000;

/// The shortest interval, in nanoseconds, that energy is divided by: one
/// millisecond. Shorter intervals count as this one.
pub const MIN_ELAPSED_NANOS: u64 = 1_000_000;

/// The largest magnitude, in microwatts, of the power of one domain: a
/// terawatt. Larger results saturate here, so that the total of three
/// domains is always exact.
pub const MAX_DOMAIN_MICROWATTS: i64 = 1_000_000_000_000_000_000;

/// A power, in millionths of a watt.
#[derive(Debug, Clone, Copy, PartialEq, Eq, Structural)]
pub struct Watts {
    pub microwatts: i64,
}

impl Watts {
    /// No power at all.
    pub fn zero() -> (w: Watts)
        ensures
            w.microwatts == 0,
    {
        Watts { microwatts: 0 }
    }
}

/// The power of the three domains and their total.
#[derive(Debug, Clone, Copy, PartialEq, Eq, Structural)]
pub struct PowerReading {
    pub cpu: Watts,
    pub gpu: Watts,
    pub ane: Watts,
    pub total: Watts,
}

/// `x` lies within the range of one domain's power.
pub open spec fn in_domain_range(x: int) -> bool {
    -(MAX_DOMAIN_MICROWATTS as int) <= x <= MAX_DOMAIN_MICROWATTS as int
}

/// The reading with the given domain powers, in microwatts, and their sum
/// as the total.
pub open spec fn reading_of(cpu: int, gpu: int, ane: int) -> PowerReading {
    PowerReading {
        cpu: Watts { microwatts: cpu as i64 },
        gpu: Watts { microwatts: gpu as i64 },
        ane: Watts { microwatts: ane as i64 },
        total: Watts { microwatts: (cpu + gpu + ane) as i64 },
    }
}

impl PowerReading {
    /// The total is the sum of the three domains, and each domain lies
    /// within its range.
    pub open spec fn consistent(self) -> bool {
        &&& self.total.microwatts == self.cpu.microwatts + self.gpu.microwatts
            + self.ane.microwatts
        &&& in_domain_range(self.cpu.microwatts as int)
        &&& in_domain_range(self.gpu.microwatts as int)
        &&& in_domain_range(self.ane.microwatts as int)
    }

    /// The reading before anything was measured: no power anywhere.
    pub fn zero() -> (reading: PowerReading)
        ensures
            reading == reading_of(0, 0, 0),
            reading.consistent(),
    {
        PowerReading {
            cpu: Watts::zero(),
            gpu: Watts::zero(),
            ane: Watts::zero(),
            total: Watts::zero(),
        }
    }

    /// The reading with the given domain powers and their sum as the total.
    pub(crate) fn from_domains(cpu: Watts, gpu: Watts, ane: Watts) -> (reading: PowerReading)
        requires
            in_domain_range(cpu.microwatts as int),
            in_domain_range(gpu.microwatts as int),
            in_domain_range(ane.microwatts as int),
        ensures
            reading == reading_of(
                cpu.microwatts as int,
                gpu.microwatts as int,
                ane.microwatts as int,
            ),
            reading.consistent(),
    {
        let total: i64 = cpu.microwatts + gpu.microwatts + ane.microwatts;
        PowerReading { cpu, gpu, ane, total: Watts { microwatts: total } }
    }
}

/// An amount of energy: whole joules and a remainder in nanojoules. The
/// split keeps sums of any number of counters exact.
#[derive(Debug, Clone, Copy)]
pub struct Joules {
    whole: i128,
    nanos: u32,
}

/// The interval that energy is divided by: `elapsed_ns`, but no less than a
/// millisecond.
pub open spec fn divisor_for(elapsed_ns: int) -> int {
    if elapsed_ns < MIN_ELAPSED_NANOS as int {
        MIN_ELAPSED_NANOS as int
    } else {
        elapsed_ns
    }
}

/// `x`, kept within the range of one domain's power.
pub open spec fn saturated(x: int) -> int {
    if x > MAX_DOMAIN_MICROWATTS as int {
        MAX_DOMAIN_MICROWATTS as int
    } else if x < -(MAX_DOMAIN_MICROWATTS as int) {
        -(MAX_DOMAIN_MICROWATTS as int)
    } else {
        x
    }
}

/// The power, in microwatts, of `nanojoules` spent over `elapsed_ns`
/// nanoseconds: the quotient rounded down, the interval no shorter than a
/// millisecond, the result within the range of one domain.
pub open spec fn microwatts_of(nanojoules: int, elapsed_ns: int) -> int {
    saturated((nanojoules * 1_000_000) / divisor_for(elapsed_ns))
}

/// Quotient and remainder of a division by a positive number.
proof fn lemma_div_parts(x: int, d: int)
    requires
        d > 0,
    ensures
        x == (x / d) * d + x % d,
        0 <= x % d < d,
        x >= 0 ==> 0 <= x / d <= x,
        x < 0 ==> x <= x / d < 0,
{
    lemma_fundamental_div_mod(x, d);
    lemma_mod_bound(x, d);
    let q = x / d;
    let r = x % d;
    assert(x == q * d + r) by (nonlinear_arith)
        requires
            x == d * q + r,
    ;
    assert(x >= 0 ==> 0 <= q <= x) by (nonlinear_arith)
        requires
            x == q * d + r,
            0 <= r < d,
            d > 0,
    ;
    assert(x < 0 ==> x <= q < 0) by (nonlinear_arith)
        requires
            x == q * d + r,
            0 <= r < d,
            d > 0,
    ;
}

impl Joules {
    #[verifier::type_invariant]
    spec fn well_formed(self) -> bool {
        self.nanos < 1_000_000_000
    }

    /// The energy in nanojoules.
    pub closed spec fn nanojoules(self) -> int {
        self.whole * 1_000_000_000 + self.nanos
    }

    /// No energy at all.
    pub fn zero() -> (j: Joules)
        ensures
            j.nanojoules() == 0,
    {
        Joules { whole: 0, nanos: 0 }
    }

    /// The energy of `nanojoules` nanojoules.
    pub fn from_nanojoules(nanojoules: i128) -> (j: Joules)
        ensures
            j.nanojoules() == nanojoules,
    {
        let whole: i128 = nanojoules.checked_div_euclid(NANOS_PER_JOULE).unwrap();
        let rest: i128 = nanojoules.checked_rem_euclid(NANOS_PER_JOULE).unwrap();
        Joules { whole, nanos: rest as u32 }
    }

    /// The whole joules of the energy, rounded down.
    pub fn whole_joules(&self) -> (whole: i128)
        ensures
            whole == self.nanojoules() / 1_000_000_000,
    {
        proof {
            use_type_invariant(self);
        }
        self.whole
    }

    /// What is left of the energy, in nanojoules, after the whole joules.
    pub fn nanos(&self) -> (nanos: u32)
        ensures
            nanos == self.nanojoules() % 1_000_000_000,
    {
        proof {
            use_type_invariant(self);
        }
        self.nanos
    }

    /// The sum of two energies, or `None` when its whole joules do not fit
    /// in 128 bits.
    pub fn checked_add(&self, other: &Joules) -> (sum: Option<Joules>)
        ensures
            match sum {
                Some(j) => j.nanojoules() == self.nanojoules() + other.nanojoules(),
                None => {
                    let whole = (self.nanojoules() + other.nanojoules()) / 1_000_000_000;
                    whole < i128::MIN || whole > i128::MAX
                },
            },
    {
        proof {
            use_type_invariant(self);
            use_type_invariant(other);
        }
        let sum_nanos: u32 = self.nanos + other.nanos;
        let carried: bool = sum_nanos >= 1_000_000_000;
        let nanos: u32 = if carried {
            sum_nanos - 1_000_000_000
        } else {
            sum_nanos
        };
        let whole: Option<i128> = if !carried {
            self.whole.checked_add(other.whole)
        } else if self.whole < i128::MAX {
            (self.whole + 1).checked_add(other.whole)
        } else if other.whole < i128::MAX {
            (other.whole + 1).checked_add(self.whole)
        } else {
            None
        };
        match whole {
            Some(whole) => Some(Joules { whole, nanos }),
            None => None,
        }
    }

    /// The power of this energy spent over `elapsed_ns` nanoseconds.
    pub fn over(&self, elapsed_ns: u64) -> (power: Watts)
        ensures
            power.microwatts == microwatts_of(self.nanojoules(), elapsed_ns as int),
    {
        proof {
            use_type_invariant(self);
        }
        let divisor: i128 = if elapsed_ns < MIN_ELAPSED_NANOS {
            MIN_ELAPSED_NANOS as i128
        } else {
            elapsed_ns as i128
        };
        proof {
            lemma_div_parts(self.whole as int, divisor as int);
        }
        // The energy in nanojoules, times a million, may not fit in 128
        // bits. The whole joules are divided first; what they leave is
        // below the divisor, so the rest of the division does fit.
        let quotient: i128 = self.whole.checked_div_euclid(divisor).unwrap();
        let rest: i128 = self.whole.checked_rem_euclid(divisor).unwrap();
        let ghost exact: int = (self.nanojoules() * 1_000_000) / (divisor as int);
        let ghost low: int = rest * 1_000_000_000_000_000 + self.nanos * 1_000_000;
        proof {
            let d: int = divisor as int;
            let q: int = quotient as int;
            // exact == q * 10^15 + low / d, and low / d is below 10^15.
            assert(self.nanojoules() * 1_000_000 == low + (q * 1_000_000_000_000_000) * d)
                by (nonlinear_arith)
                requires
                    self.nanojoules() == self.whole * 1_000_000_000 + self.nanos,
                    self.whole == q * d + rest,
                    low == rest * 1_000_000_000_000_000 + self.nanos * 1_000_000,
            ;
            lemma_hoist_over_denominator(low, q * 1_000_000_000_000_000, d as nat);
            assert(exact == low / d + q * 1_000_000_000_000_000);
            assert(0 <= low < d * 1_000_000_000_000_000) by (nonlinear_arith)
                requires
                    low == rest * 1_000_000_000_000_000 + self.nanos * 1_000_000,
                    0 <= rest < d,
                    0 <= self.nanos < 1_000_000_000,
            ;
            lemma_div_parts(low, d);
            assert(low / d < 1_000_000_000_000_000) by (nonlinear_arith)
                requires
                    low == (low / d) * d + low % d,
                    0 <= low % d < d,
                    low < d * 1_000_000_000_000_000,
                    d > 0,
            ;
        }
        // Beyond a thousand times 10^15 the result is out of range whatever
        // the rest adds.
        if quotient > 1000 {
            return Watts { microwatts: MAX_DOMAIN_MICROWATTS };
        }
        if quotient < -1001 {
            return Watts { microwatts: -MAX_DOMAIN_MICROWATTS };
        }
        let high: i128 = quotient * 1_000_000_000_000_000;
        let low_part: i128 = (rest * 1_000_000_000_000_000 + (self.nanos as i128) * 1_000_000)
            / divisor;
        let total: i128 = high + low_part;
        if total > MAX_DOMAIN_MICROWATTS as i128 {
            Watts { microwatts: MAX_DOMAIN_MICROWATTS }
        } else if total < -(MAX_DOMAIN_MICROWATTS as i128) {
            Watts { microwatts: -MAX_DOMAIN_MICROWATTS }
        } else {
            Watts { microwatts: total as i64 }
        }
    }
}

/// The power of one domain always lies within its range, whatever the
/// energy and however short the interval.
pub proof fn lemma_power_is_bounded(nanojoules: int, elapsed_ns: int)
    ensures
        in_domain_range(microwatts_of(nanojoules, elapsed_ns)),
{
}

/// Over an interval of a millisecond or less, the power is the energy
/// divided by one millisecond: as many microwatts as there are nanojoules.
pub proof fn lemma_short_interval_counts_as_millisecond(nanojoules: int, elapsed_ns: int)
    requires
        elapsed_ns <= MIN_ELAPSED_NANOS,
    ensures
        microwatts_of(nanojoules, elapsed_ns) == microwatts_of(
            nanojoules,
            MIN_ELAPSED_NANOS as int,
        ),
        microwatts_of(nanojoules, elapsed_ns) == saturated(nanojoules),
{
    assert(divisor_for(elapsed_ns) == 1_000_000);
    assert((nanojoules * 1_000_000) / 1_000_000 == nanojoules);
}

/// Energy that is not negative gives power that is not negative.
pub proof fn lemma_power_keeps_sign(nanojoules: int, elapsed_ns: int)
    requires
        nanojoules >= 0,
    ensures
        microwatts_of(nanojoules, elapsed_ns) >= 0,
{
    lemma_div_parts(nanojoules * 1_000_000, divisor_for(elapsed_ns));
}

} // verus!

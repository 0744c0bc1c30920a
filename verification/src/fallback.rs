//! The estimate that stands in for a measurement when the energy counters
//! cannot be read: power guessed from how busy the processor is.
//!
//! The estimate is an approximation, not a measurement: the processor's
//! share grows in a straight line with its utilisation, the graphics
//! processor counts as a constant, and the neural accelerator as nothing.

use vstd::prelude::*;
use crate::units::{PowerReading, Watts, reading_of};

verus! {

/// The processor's power when idle, in microwatts: two watts.
pub const BASE_POWER_MICROWATTS: i64 = 2_000_000;

/// The power that full utilisation adds to the processor's, in microwatts:
/// fifteen watts.
pub const MAX_CPU_POWER_MICROWATTS: i64 = 15_000_000;

/// The power taken for the graphics processor, in microwatts: one watt.
pub const GPU_ESTIMATE_MICROWATTS: i64 = 1_000_000;

/// Full utilisation, in hundredths of a percent.
pub const FULL_UTILIZATION: u32 = 10_000;

/// How long the driver waits between its two looks at the processor, in
/// milliseconds.
pub const SAMPLING_PAUSE_MILLIS: u64 = 50;

/// The sum of the utilisation of all cores.
pub open spec fn total_utilization(per_core: Seq<u32>) -> int
    decreases per_core.len(),
{
    if per_core.len() == 0 {
        0
    } else {
        total_utilization(per_core.drop_last()) + per_core.last()
    }
}

/// The utilisation averaged over all cores, rounded down. Without any core
/// there is nothing to average, and the utilisation counts as none.
pub open spec fn mean_utilization(per_core: Seq<u32>) -> int {
    if per_core.len() == 0 {
        0
    } else {
        total_utilization(per_core) / (per_core.len() as int)
    }
}

/// The processor's estimated power, in microwatts, at a utilisation given
/// in hundredths of a percent: the idle power, and of the additional power
/// the share that the utilisation is of full utilisation.
pub open spec fn estimated_cpu_microwatts(utilization: int) -> int {
    2_000_000 + (utilization * 15_000_000) / 10_000
}

/// The estimated reading at a utilisation given in hundredths of a percent.
pub open spec fn estimate_of(utilization: int) -> PowerReading {
    reading_of(estimated_cpu_microwatts(utilization), 1_000_000, 0)
}

proof fn lemma_total_step(per_core: Seq<u32>, i: int)
    requires
        0 <= i < per_core.len(),
    ensures
        total_utilization(per_core.take(i + 1)) == total_utilization(per_core.take(i))
            + per_core[i],
{
    assert(per_core.take(i + 1).drop_last() =~= per_core.take(i));
}

/// The utilisation averaged over all cores, in hundredths of a percent.
pub fn average_utilization(per_core: &[u32]) -> (mean: u32)
    ensures
        mean == mean_utilization(per_core@),
{
    if per_core.len() == 0 {
        return 0;
    }
    let mut total: u128 = 0;
    let mut i: usize = 0;
    while i < per_core.len()
        invariant
            i <= per_core.len(),
            total == total_utilization(per_core@.take(i as int)),
            total <= i * 0xffff_ffff,
        decreases per_core.len() - i,
    {
        proof {
            lemma_total_step(per_core@, i as int);
        }
        total = total + per_core[i] as u128;
        i += 1;
    }
    assert(per_core@.take(i as int) =~= per_core@);
    let count: u128 = per_core.len() as u128;
    let mean: u128 = total / count;
    assert(mean <= 0xffff_ffff) by (nonlinear_arith)
        requires
            mean == total / count,
            total <= count * 0xffff_ffff,
            count > 0,
    ;
    mean as u32
}

/// The estimated reading at a utilisation given in hundredths of a percent.
pub fn estimate(utilization: u32) -> (reading: PowerReading)
    ensures
        reading == estimate_of(utilization as int),
        reading.consistent(),
{
    let added: i64 = (utilization as i64) * MAX_CPU_POWER_MICROWATTS / (FULL_UTILIZATION as i64);
    let cpu: Watts = Watts { microwatts: BASE_POWER_MICROWATTS + added };
    let gpu: Watts = Watts { microwatts: GPU_ESTIMATE_MICROWATTS };
    PowerReading::from_domains(cpu, gpu, Watts::zero())
}

proof fn lemma_total_fits(per_core: Seq<u32>)
    ensures
        0 <= total_utilization(per_core) <= per_core.len() * 0xffff_ffff,
    decreases per_core.len(),
{
    if per_core.len() > 0 {
        lemma_total_fits(per_core.drop_last());
    }
}

/// The estimate at the mean utilisation of any cores is a reading whose
/// total is the sum of its domains.
pub proof fn lemma_estimate_is_consistent(per_core: Seq<u32>)
    ensures
        0 <= mean_utilization(per_core) <= u32::MAX,
        estimate_of(mean_utilization(per_core)).consistent(),
{
    lemma_total_fits(per_core);
    if per_core.len() > 0 {
        let total = total_utilization(per_core);
        let count = per_core.len() as int;
        assert(0 <= total / count <= 0xffff_ffff) by (nonlinear_arith)
            requires
                0 <= total <= count * 0xffff_ffff,
                count > 0,
        ;
    }
}

/// The mean of utilisations that are at most full is at most full.
pub proof fn lemma_mean_is_at_most_full(per_core: Seq<u32>)
    requires
        forall|i: int| 0 <= i < per_core.len() ==> per_core[i] <= FULL_UTILIZATION,
    ensures
        0 <= mean_utilization(per_core) <= FULL_UTILIZATION,
{
    lemma_total_is_bounded(per_core);
    if per_core.len() > 0 {
        let total = total_utilization(per_core);
        let count = per_core.len() as int;
        assert(0 <= total / count <= 10_000) by (nonlinear_arith)
            requires
                0 <= total <= count * 10_000,
                count > 0,
        ;
    }
}

proof fn lemma_total_is_bounded(per_core: Seq<u32>)
    requires
        forall|i: int| 0 <= i < per_core.len() ==> per_core[i] <= FULL_UTILIZATION,
    ensures
        0 <= total_utilization(per_core) <= per_core.len() * 10_000,
    decreases per_core.len(),
{
    if per_core.len() > 0 {
        lemma_total_is_bounded(per_core.drop_last());
        assert(per_core.last() <= FULL_UTILIZATION);
    }
}

/// At a utilisation of at most full, the estimate keeps to its range: the
/// processor between two and seventeen watts, the graphics processor at one
/// watt, the neural accelerator at nothing, and the total their sum.
pub proof fn lemma_estimate_keeps_to_range(utilization: int)
    requires
        0 <= utilization <= FULL_UTILIZATION,
    ensures
        ({
            let reading = estimate_of(utilization);
            &&& 2_000_000 <= reading.cpu.microwatts <= 17_000_000
            &&& reading.gpu.microwatts == 1_000_000
            &&& reading.ane.microwatts == 0
            &&& reading.total.microwatts == reading.cpu.microwatts + reading.gpu.microwatts
        }),
{
}

} // verus!

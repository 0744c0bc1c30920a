//! Energy aggregation: the unit and the domain of a channel, the energy of
//! each domain over a list of channel records, and the power that follows
//! from it.

use vstd::prelude::*;
use crate::text::{contains, contains_chars, lowercase, lowercase_of, same_text, to_chars};
use crate::units::{
    Joules, PowerReading, Watts, lemma_power_keeps_sign, microwatts_of, reading_of,
    MAX_DOMAIN_MICROWATTS, MIN_ELAPSED_NANOS,
};

verus! {

/// One energy counter's change over a sampling interval.
#[derive(Debug)]
pub struct ChannelRecord {
    /// The channel's name, such as "CPU Energy".
    pub name: String,
    /// The unit of `value`: "mJ", "uJ" or "nJ"; any other label counts as
    /// "uJ".
    pub unit: String,
    /// The counter's change, in `unit`.
    pub value: i64,
}

/// What a channel holds, as mathematical values: the model that the
/// contracts speak of.
pub struct Channel {
    pub name: Seq<char>,
    pub unit: Seq<char>,
    pub value: int,
}

impl View for ChannelRecord {
    type V = Channel;

    open spec fn view(&self) -> Channel {
        Channel { name: self.name@, unit: self.unit@, value: self.value as int }
    }
}

/// The channels that a list of records holds.
pub open spec fn channels_of(records: Seq<ChannelRecord>) -> Seq<Channel> {
    records.map_values(|record: ChannelRecord| record@)
}

/// The consumer that a channel's energy is counted towards.
#[derive(Debug, Clone, Copy, PartialEq, Eq, Structural)]
pub enum Domain {
    Cpu,
    Gpu,
    /// The neural accelerator.
    Ane,
    /// No domain: the channel's energy is left out of every sum.
    Other,
}

/// How many nanojoules one count of a unit stands for. A label that is
/// none of "mJ", "uJ" and "nJ" counts as microjoules.
pub open spec fn nanojoules_per_count(unit: Seq<char>) -> int {
    if unit == "mJ"@ {
        1_000_000
    } else if unit == "uJ"@ {
        1_000
    } else if unit == "nJ"@ {
        1
    } else {
        1_000
    }
}

/// The domain of a channel whose lowercase name is `lower`: GPU when the
/// name mentions "gpu", else CPU when it mentions "cpu", else the neural
/// accelerator when it mentions "ane". A name that mentions both "cpu" and
/// "gpu" counts towards the GPU; a name that mentions none of the three
/// counts towards nothing.
pub open spec fn domain_of_lowered(lower: Seq<char>) -> Domain {
    if contains(lower, "gpu"@) {
        Domain::Gpu
    } else if contains(lower, "cpu"@) {
        Domain::Cpu
    } else if contains(lower, "ane"@) {
        Domain::Ane
    } else {
        Domain::Other
    }
}

/// The domain of a channel by its name, whatever the case of its letters.
pub open spec fn domain_of(name: Seq<char>) -> Domain {
    domain_of_lowered(lowercase_of(name))
}

/// The energy of one channel, in nanojoules.
pub open spec fn channel_nanojoules(channel: Channel) -> int {
    channel.value * nanojoules_per_count(channel.unit)
}

/// The energy, in nanojoules, that `channels` count towards `domain`.
pub open spec fn domain_nanojoules(channels: Seq<Channel>, domain: Domain) -> int
    decreases channels.len(),
{
    if channels.len() == 0 {
        0
    } else {
        let rest = domain_nanojoules(channels.drop_last(), domain);
        if domain_of(channels.last().name) == domain {
            rest + channel_nanojoules(channels.last())
        } else {
            rest
        }
    }
}

/// The reading that follows from `channels` gathered over `elapsed_ns`
/// nanoseconds: each domain's energy divided by the interval, and the sum
/// of the three as the total. Channels of no domain do not count.
pub open spec fn reading_from_channels(channels: Seq<Channel>, elapsed_ns: int)
    -> PowerReading {
    reading_of(
        microwatts_of(domain_nanojoules(channels, Domain::Cpu), elapsed_ns),
        microwatts_of(domain_nanojoules(channels, Domain::Gpu), elapsed_ns),
        microwatts_of(domain_nanojoules(channels, Domain::Ane), elapsed_ns),
    )
}

/// The energy of a counter value in the given unit.
pub fn energy_to_joules(value: i64, unit: &str) -> (energy: Joules)
    ensures
        energy.nanojoules() == value * nanojoules_per_count(unit@),
{
    let count: i128 = value as i128;
    let nanojoules: i128 = if same_text(unit, "mJ") {
        count * 1_000_000
    } else if same_text(unit, "uJ") {
        count * 1_000
    } else if same_text(unit, "nJ") {
        count
    } else {
        count * 1_000
    };
    Joules::from_nanojoules(nanojoules)
}

/// The domain of a channel whose name, in lowercase, is `lower`.
pub fn classify_lowered(lower: &str) -> (domain: Domain)
    ensures
        domain == domain_of_lowered(lower@),
{
    let name: Vec<char> = to_chars(lower);
    let cpu: bool = contains_chars(name.as_slice(), to_chars("cpu").as_slice());
    let gpu: bool = contains_chars(name.as_slice(), to_chars("gpu").as_slice());
    if cpu && !gpu {
        Domain::Cpu
    } else if gpu {
        Domain::Gpu
    } else if contains_chars(name.as_slice(), to_chars("ane").as_slice()) {
        Domain::Ane
    } else {
        Domain::Other
    }
}

/// The domain of a channel by its name, whatever the case of its letters.
pub fn classify_domain(name: &str) -> (domain: Domain)
    ensures
        domain == domain_of(name@),
{
    let lower: String = lowercase(name);
    classify_lowered(lower.as_str())
}

/// The energy counted towards each of the three domains.
#[derive(Debug, Clone, Copy)]
pub struct DomainEnergy {
    pub cpu: Joules,
    pub gpu: Joules,
    pub ane: Joules,
}

/// `nanojoules` is no more, whatever its sign, than `count` channels can
/// hold: a channel stays below ten to the power of 25 nanojoules.
spec fn within_channels(nanojoules: int, count: int) -> bool {
    -10_000_000_000_000_000_000_000_000 * count <= nanojoules
        <= 10_000_000_000_000_000_000_000_000 * count
}

proof fn lemma_channel_within_limit(record: ChannelRecord)
    ensures
        within_channels(channel_nanojoules(record@), 1),
{
}

proof fn lemma_domain_step(channels: Seq<Channel>, i: int, domain: Domain)
    requires
        0 <= i < channels.len(),
    ensures
        domain_nanojoules(channels.take(i + 1), domain) == domain_nanojoules(
            channels.take(i),
            domain,
        ) + if domain_of(channels[i].name) == domain {
            channel_nanojoules(channels[i])
        } else {
            0
        },
{
    assert(channels.take(i + 1).drop_last() =~= channels.take(i));
    assert(channels.take(i + 1).last() == channels[i]);
}

/// Adds `energy` to a sum over `count` channels.
fn accumulate(sum: Joules, energy: Joules, Ghost(count): Ghost<int>) -> (next: Joules)
    requires
        0 <= count < usize::MAX,
        within_channels(sum.nanojoules(), count),
        within_channels(energy.nanojoules(), 1),
    ensures
        next.nanojoules() == sum.nanojoules() + energy.nanojoules(),
        within_channels(next.nanojoules(), count + 1),
{
    sum.checked_add(&energy).unwrap()
}

/// The energy that `records` count towards each domain. Records of no
/// domain do not count.
pub fn sum_energy(records: &[ChannelRecord]) -> (energy: DomainEnergy)
    ensures
        energy.cpu.nanojoules() == domain_nanojoules(channels_of(records@), Domain::Cpu),
        energy.gpu.nanojoules() == domain_nanojoules(channels_of(records@), Domain::Gpu),
        energy.ane.nanojoules() == domain_nanojoules(channels_of(records@), Domain::Ane),
{
    let ghost channels: Seq<Channel> = channels_of(records@);
    let mut cpu: Joules = Joules::zero();
    let mut gpu: Joules = Joules::zero();
    let mut ane: Joules = Joules::zero();
    let mut i: usize = 0;
    while i < records.len()
        invariant
            i <= records.len(),
            channels == channels_of(records@),
            cpu.nanojoules() == domain_nanojoules(channels.take(i as int), Domain::Cpu),
            gpu.nanojoules() == domain_nanojoules(channels.take(i as int), Domain::Gpu),
            ane.nanojoules() == domain_nanojoules(channels.take(i as int), Domain::Ane),
            within_channels(cpu.nanojoules(), i as int),
            within_channels(gpu.nanojoules(), i as int),
            within_channels(ane.nanojoules(), i as int),
        decreases records.len() - i,
    {
        let record: &ChannelRecord = &records[i];
        let energy: Joules = energy_to_joules(record.value, record.unit.as_str());
        proof {
            assert(channels[i as int] == record@);
            lemma_channel_within_limit(*record);
            lemma_domain_step(channels, i as int, Domain::Cpu);
            lemma_domain_step(channels, i as int, Domain::Gpu);
            lemma_domain_step(channels, i as int, Domain::Ane);
        }
        match classify_domain(record.name.as_str()) {
            Domain::Cpu => {
                cpu = accumulate(cpu, energy, Ghost(i as int));
            },
            Domain::Gpu => {
                gpu = accumulate(gpu, energy, Ghost(i as int));
            },
            Domain::Ane => {
                ane = accumulate(ane, energy, Ghost(i as int));
            },
            Domain::Other => {},
        }
        i += 1;
    }
    assert(channels.take(i as int) =~= channels);
    DomainEnergy { cpu, gpu, ane }
}

/// The power of each domain over `records`, which were gathered over
/// `elapsed_ns` nanoseconds, and the total of the three.
pub fn aggregate(records: &[ChannelRecord], elapsed_ns: u64) -> (reading: PowerReading)
    ensures
        reading == reading_from_channels(channels_of(records@), elapsed_ns as int),
        reading.consistent(),
{
    let energy: DomainEnergy = sum_energy(records);
    let cpu: Watts = energy.cpu.over(elapsed_ns);
    let gpu: Watts = energy.gpu.over(elapsed_ns);
    let ane: Watts = energy.ane.over(elapsed_ns);
    PowerReading::from_domains(cpu, gpu, ane)
}

/// The total of a reading computed from channels is the sum of its three
/// domains, whatever the channels and the interval.
pub proof fn lemma_total_is_sum_of_domains(channels: Seq<Channel>, elapsed_ns: int)
    ensures
        reading_from_channels(channels, elapsed_ns).consistent(),
        ({
            let reading = reading_from_channels(channels, elapsed_ns);
            reading.total.microwatts == reading.cpu.microwatts + reading.gpu.microwatts
                + reading.ane.microwatts
        }),
{
}

/// Over an interval of a millisecond or less, the reading is the one for
/// exactly one millisecond.
pub proof fn lemma_reading_over_short_interval(channels: Seq<Channel>, elapsed_ns: int)
    requires
        elapsed_ns <= MIN_ELAPSED_NANOS,
    ensures
        reading_from_channels(channels, elapsed_ns) == reading_from_channels(
            channels,
            MIN_ELAPSED_NANOS as int,
        ),
{
}

/// Counters that did not run backwards give energy that is not negative.
pub proof fn lemma_energy_is_nonnegative(channels: Seq<Channel>, domain: Domain)
    requires
        forall|i: int| 0 <= i < channels.len() ==> channels[i].value >= 0,
    ensures
        domain_nanojoules(channels, domain) >= 0,
    decreases channels.len(),
{
    if channels.len() > 0 {
        lemma_energy_is_nonnegative(channels.drop_last(), domain);
        let last = channels.last();
        assert(last.value >= 0);
        assert(channel_nanojoules(last) >= 0) by (nonlinear_arith)
            requires
                last.value >= 0,
                nanojoules_per_count(last.unit) >= 1,
                channel_nanojoules(last) == last.value * nanojoules_per_count(last.unit),
        ;
    }
}

/// Counters that did not run backwards give, for each domain, a power that
/// is not negative and lies within the range of a domain.
pub proof fn lemma_reading_is_nonnegative(channels: Seq<Channel>, elapsed_ns: int)
    requires
        forall|i: int| 0 <= i < channels.len() ==> channels[i].value >= 0,
    ensures
        ({
            let reading = reading_from_channels(channels, elapsed_ns);
            &&& 0 <= reading.cpu.microwatts <= MAX_DOMAIN_MICROWATTS
            &&& 0 <= reading.gpu.microwatts <= MAX_DOMAIN_MICROWATTS
            &&& 0 <= reading.ane.microwatts <= MAX_DOMAIN_MICROWATTS
            &&& 0 <= reading.total.microwatts
        }),
{
    lemma_energy_is_nonnegative(channels, Domain::Cpu);
    lemma_energy_is_nonnegative(channels, Domain::Gpu);
    lemma_energy_is_nonnegative(channels, Domain::Ane);
    lemma_power_keeps_sign(domain_nanojoules(channels, Domain::Cpu), elapsed_ns);
    lemma_power_keeps_sign(domain_nanojoules(channels, Domain::Gpu), elapsed_ns);
    lemma_power_keeps_sign(domain_nanojoules(channels, Domain::Ane), elapsed_ns);
}

} // verus!

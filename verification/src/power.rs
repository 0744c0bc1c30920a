//! The facade: the latest power reading and power mode, and the refresh
//! cycle that keeps them current.
//!
//! A refresh is a short exchange. The driver reports an event, the facade
//! answers with the native call to make next and the handle to release, and
//! so on until the facade answers `Done`. Every decision of the cycle is
//! taken here; the driver only makes the calls.

use vstd::prelude::*;
use vstd::multiset::Multiset;
use crate::decoder::{ChannelDecoder, RawChannel, decoded, listed_items};
use crate::energy::{
    Channel, ChannelRecord, aggregate, lemma_reading_is_nonnegative,
    lemma_total_is_sum_of_domains, reading_from_channels,
};
use crate::fallback::{
    FULL_UTILIZATION, average_utilization, estimate, estimate_of, lemma_estimate_is_consistent,
    lemma_estimate_keeps_to_range, lemma_mean_is_at_most_full, mean_utilization,
};
use crate::handle::{NativeHandle, reference_of, released_by};
use crate::mode::{PowerMode, label_of, mode_after_probe};
use crate::subscription::EnergySubscription;
use crate::units::{MAX_DOMAIN_MICROWATTS, PowerReading, Watts, reading_of};

verus! {

/// A point-in-time reading of all subscribed counters, with the time it was
/// taken at, in nanoseconds of a clock that never runs backwards.
#[derive(Debug)]
pub struct Snapshot {
    handle: NativeHandle,
    taken_at: u64,
}

impl View for Snapshot {
    type V = (usize, u64);

    /// The reference of the snapshot and the time it was taken at.
    closed spec fn view(&self) -> (usize, u64) {
        (self.handle@, self.taken_at)
    }
}

impl Snapshot {
    /// The snapshot behind `raw`, the result of the native sampling call,
    /// taken at `now_ns`. A null reference is a failed sampling and gives no
    /// snapshot.
    pub fn adopt(raw: usize, now_ns: u64) -> (snapshot: Option<Snapshot>)
        ensures
            match snapshot {
                Some(s) => raw != 0 && s@ == (raw, now_ns),
                None => raw == 0,
            },
    {
        match NativeHandle::adopt(raw) {
            Some(handle) => Some(Snapshot { handle, taken_at: now_ns }),
            None => None,
        }
    }
}

/// What the driver reports to the facade.
#[derive(Debug)]
pub enum Event {
    /// A refresh cycle begins.
    Tick,
    /// The sampling call returned `sample`, null when it failed, at the
    /// time `now_ns`.
    Sampled { sample: usize, now_ns: u64 },
    /// The delta call returned `snapshot`, null when it failed. `channels`
    /// holds the items of the snapshot's channel list, `None` for each one
    /// that could not be read, and is `None` itself when the snapshot has no
    /// such list.
    Delta { snapshot: usize, channels: Option<Vec<Option<RawChannel>>> },
    /// The utilisation of each core, in hundredths of a percent, measured
    /// over the sampling pause.
    Utilization { per_core: Vec<u32> },
    /// The text that the power-settings query printed, or `None` when the
    /// query could not be run or printed no text.
    PowerSettings { output: Option<String> },
}

/// What the driver does next.
#[derive(Debug, Clone, Copy, PartialEq, Eq, Structural)]
pub enum Request {
    /// Take a sample on the subscription and report `Event::Sampled`.
    Sample { subscription: usize, channels: usize },
    /// Compute the delta from `previous` to `current`, read its channel
    /// list and report `Event::Delta`.
    Delta { previous: usize, current: usize },
    /// Measure the utilisation of the cores and report
    /// `Event::Utilization`. This stalls the caller for the sampling pause.
    Utilization,
    /// Run the power-settings query and report `Event::PowerSettings`.
    PowerSettings,
    /// The cycle is over.
    Done,
}

/// The facade's answer to an event: the request to carry out, and the
/// handle to release once that is done, if any.
#[derive(Debug)]
pub struct Step {
    pub request: Request,
    pub release: Option<NativeHandle>,
}

/// `Step` as mathematical values.
pub struct Plan {
    pub request: Request,
    pub release: Option<usize>,
}

impl View for Step {
    type V = Plan;

    open spec fn view(&self) -> Plan {
        Plan { request: self.request, release: reference_of(self.release) }
    }
}

/// The state of the facade as mathematical values.
pub struct PowerState {
    /// The references of the subscription and its channel descriptors, if
    /// the subscription is open.
    pub subscription: Option<(usize, usize)>,
    /// The reference and the time of the snapshot kept for the next delta.
    pub last_sample: Option<(usize, u64)>,
    /// The time between the two latest samples, in nanoseconds: the
    /// interval that the delta of the two covers.
    pub interval_ns: u64,
    /// The latest reading.
    pub reading: PowerReading,
    /// The latest power mode.
    pub mode: PowerMode,
}

/// The time from `then` to `now`, none if the clock stood still or ran
/// backwards.
pub open spec fn elapsed_between(then: u64, now: u64) -> u64 {
    if now >= then {
        (now - then) as u64
    } else {
        0
    }
}

/// The text of an optional string.
pub open spec fn text_of(output: Option<String>) -> Option<Seq<char>> {
    match output {
        Some(text) => Some(text@),
        None => None,
    }
}

/// The state after an event.
///
/// A sample becomes the snapshot kept for the next delta, and the time
/// since the one kept before becomes the interval. A delta gives the
/// reading that its channels stand for over that interval; the utilisation
/// gives the estimated reading; the power settings give the power mode.
/// Every failure leaves the state as it was.
pub open spec fn state_after(state: PowerState, event: Event) -> PowerState {
    match event {
        Event::Tick => state,
        Event::Sampled { sample, now_ns } => if sample == 0 {
            state
        } else {
            PowerState {
                last_sample: Some((sample, now_ns)),
                interval_ns: match state.last_sample {
                    Some((previous, taken_at)) => elapsed_between(taken_at, now_ns),
                    None => state.interval_ns,
                },
                ..state
            }
        },
        Event::Delta { snapshot, channels } => if snapshot == 0 {
            state
        } else {
            PowerState {
                reading: reading_from_channels(
                    decoded(listed_items(channels)),
                    state.interval_ns as int,
                ),
                ..state
            }
        },
        Event::Utilization { per_core } => PowerState {
            reading: estimate_of(mean_utilization(per_core@)),
            ..state
        },
        Event::PowerSettings { output } => PowerState {
            mode: mode_after_probe(state.mode, text_of(output)),
            ..state
        },
    }
}

/// The facade's answer to an event.
///
/// A cycle samples if there is a subscription. The first sample is kept and
/// nothing is computed; every later one asks for the delta from the
/// snapshot kept so far, which is released after that. Without a
/// subscription, a sample or a delta, the cycle asks for the utilisation
/// instead. A delta snapshot is released once its channels were read. Every
/// cycle ends with the power settings.
pub open spec fn plan_after(state: PowerState, event: Event) -> Plan {
    match event {
        Event::Tick => match state.subscription {
            Some((subscription, channels)) => Plan {
                request: Request::Sample { subscription, channels },
                release: None,
            },
            None => Plan { request: Request::Utilization, release: None },
        },
        Event::Sampled { sample, now_ns } => if sample == 0 {
            Plan { request: Request::Utilization, release: None }
        } else {
            match state.last_sample {
                Some((previous, taken_at)) => Plan {
                    request: Request::Delta { previous, current: sample },
                    release: Some(previous),
                },
                None => Plan { request: Request::PowerSettings, release: None },
            }
        },
        Event::Delta { snapshot, channels } => if snapshot == 0 {
            Plan { request: Request::Utilization, release: None }
        } else {
            Plan { request: Request::PowerSettings, release: Some(snapshot) }
        },
        Event::Utilization { per_core } => Plan { request: Request::PowerSettings, release: None },
        Event::PowerSettings { output } => Plan { request: Request::Done, release: None },
    }
}

/// What a facade held at the end of its life. The driver releases each
/// handle.
#[derive(Debug)]
pub struct Retired {
    pub sample: Option<NativeHandle>,
    pub subscription: Option<NativeHandle>,
    pub channels: Option<NativeHandle>,
}

/// `Retired` as mathematical values.
pub struct RetiredReferences {
    pub sample: Option<usize>,
    pub subscription: Option<usize>,
    pub channels: Option<usize>,
}

impl View for Retired {
    type V = RetiredReferences;

    open spec fn view(&self) -> RetiredReferences {
        RetiredReferences {
            sample: reference_of(self.sample),
            subscription: reference_of(self.subscription),
            channels: reference_of(self.channels),
        }
    }
}

/// What a facade in the given state hands back at the end of its life.
pub open spec fn retired_from(state: PowerState) -> RetiredReferences {
    RetiredReferences {
        sample: match state.last_sample {
            Some((sample, taken_at)) => Some(sample),
            None => None,
        },
        subscription: match state.subscription {
            Some((subscription, channels)) => Some(subscription),
            None => None,
        },
        channels: match state.subscription {
            Some((subscription, channels)) => Some(channels),
            None => None,
        },
    }
}

/// The latest power reading and power mode of the machine.
#[derive(Debug)]
pub struct PowerData {
    subscription: Option<EnergySubscription>,
    last_sample: Option<Snapshot>,
    interval_ns: u64,
    reading: PowerReading,
    power_mode: PowerMode,
}

impl View for PowerData {
    type V = PowerState;

    closed spec fn view(&self) -> PowerState {
        PowerState {
            subscription: match self.subscription {
                Some(s) => Some(s@),
                None => None,
            },
            last_sample: match self.last_sample {
                Some(s) => Some(s@),
                None => None,
            },
            interval_ns: self.interval_ns,
            reading: self.reading,
            mode: self.power_mode,
        }
    }
}

impl PowerData {
    #[verifier::type_invariant]
    spec fn well_formed(self) -> bool {
        self.reading.consistent()
    }

    /// The facade over `subscription`, `None` when the machine offers no
    /// energy counters, with `first_sample` as the snapshot to compute the
    /// first delta from, if one was taken. Nothing was measured yet: no
    /// power anywhere, and the power mode unknown.
    pub fn new(subscription: Option<EnergySubscription>, first_sample: Option<Snapshot>) -> (data:
        PowerData)
        ensures
            data@ == (PowerState {
                subscription: match subscription {
                    Some(s) => Some(s@),
                    None => None,
                },
                last_sample: match first_sample {
                    Some(s) => Some(s@),
                    None => None,
                },
                interval_ns: 0,
                reading: reading_of(0, 0, 0),
                mode: PowerMode::Unknown,
            }),
    {
        PowerData {
            subscription,
            last_sample: first_sample,
            interval_ns: 0,
            reading: PowerReading::zero(),
            power_mode: PowerMode::Unknown,
        }
    }

    /// Takes an event of the refresh cycle in and answers with the next
    /// step. Never fails: what cannot be measured is estimated.
    pub fn refresh(&mut self, event: Event) -> (step: Step)
        ensures
            final(self)@ == state_after(old(self)@, event),
            step@ == plan_after(old(self)@, event),
            final(self)@.reading.consistent(),
    {
        proof {
            use_type_invariant(&*self);
        }
        match event {
            Event::Tick => match &self.subscription {
                Some(subscription) => Step {
                    request: Request::Sample {
                        subscription: subscription.subscription_id(),
                        channels: subscription.channels_id(),
                    },
                    release: None,
                },
                None => Step { request: Request::Utilization, release: None },
            },
            Event::Sampled { sample, now_ns } => match Snapshot::adopt(sample, now_ns) {
                None => Step { request: Request::Utilization, release: None },
                Some(current) => {
                    let mut kept: Option<Snapshot> = Some(current);
                    core::mem::swap(&mut self.last_sample, &mut kept);
                    match kept {
                        Some(previous) => {
                            self.interval_ns = if now_ns >= previous.taken_at {
                                now_ns - previous.taken_at
                            } else {
                                0
                            };
                            Step {
                                request: Request::Delta {
                                    previous: previous.handle.raw(),
                                    current: sample,
                                },
                                release: Some(previous.handle),
                            }
                        },
                        None => Step { request: Request::PowerSettings, release: None },
                    }
                },
            },
            Event::Delta { snapshot, channels } => match NativeHandle::adopt(snapshot) {
                None => Step { request: Request::Utilization, release: None },
                Some(handle) => {
                    let mut decoder: ChannelDecoder = ChannelDecoder::new(handle, channels);
                    let records: Vec<ChannelRecord> = decoder.collect_remaining();
                    self.reading = aggregate(records.as_slice(), self.interval_ns);
                    Step { request: Request::PowerSettings, release: Some(decoder.finish()) }
                },
            },
            Event::Utilization { per_core } => {
                self.reading = estimate(average_utilization(per_core.as_slice()));
                Step { request: Request::PowerSettings, release: None }
            },
            Event::PowerSettings { output } => {
                self.power_mode = match &output {
                    Some(text) => self.power_mode.after_probe(Some(text.as_str())),
                    None => self.power_mode.after_probe(None),
                };
                Step { request: Request::Done, release: None }
            },
        }
    }

    /// Ends the facade's life: the snapshot it kept and the subscription's
    /// two handles are to be released.
    pub fn close(self) -> (retired: Retired)
        ensures
            retired@ == retired_from(self@),
    {
        let PowerData { subscription, last_sample, interval_ns: _, reading: _, power_mode: _ } =
            self;
        let sample: Option<NativeHandle> = match last_sample {
            Some(snapshot) => Some(snapshot.handle),
            None => None,
        };
        match subscription {
            Some(open) => {
                let (subscription, channels) = open.close();
                Retired { sample, subscription: Some(subscription), channels: Some(channels) }
            },
            None => Retired { sample, subscription: None, channels: None },
        }
    }

    /// The latest reading.
    pub fn reading(&self) -> (reading: PowerReading)
        ensures
            reading == self@.reading,
            reading.consistent(),
    {
        proof {
            use_type_invariant(self);
        }
        self.reading
    }

    /// The power of the processor.
    pub fn cpu_power_watts(&self) -> (power: Watts)
        ensures
            power == self@.reading.cpu,
    {
        self.reading.cpu
    }

    /// The power of the graphics processor.
    pub fn gpu_power_watts(&self) -> (power: Watts)
        ensures
            power == self@.reading.gpu,
    {
        self.reading.gpu
    }

    /// The power of the neural accelerator.
    pub fn ane_power_watts(&self) -> (power: Watts)
        ensures
            power == self@.reading.ane,
    {
        self.reading.ane
    }

    /// The power of the three domains together.
    pub fn total_power_watts(&self) -> (power: Watts)
        ensures
            power == self@.reading.total,
            power.microwatts == self@.reading.cpu.microwatts + self@.reading.gpu.microwatts
                + self@.reading.ane.microwatts,
    {
        proof {
            use_type_invariant(self);
        }
        self.reading.total
    }

    /// The latest power mode.
    pub fn power_mode(&self) -> (mode: PowerMode)
        ensures
            mode == self@.mode,
    {
        self.power_mode
    }

    /// A human-readable label for the latest power mode.
    pub fn power_mode_label(&self) -> (label: &'static str)
        ensures
            label@ == label_of(self@.mode),
    {
        self.power_mode.label()
    }
}

/// The state after a run of events, one after the other.
pub open spec fn state_after_all(state: PowerState, events: Seq<Event>) -> PowerState
    decreases events.len(),
{
    if events.len() == 0 {
        state
    } else {
        state_after(state_after_all(state, events.drop_last()), events.last())
    }
}

/// The references that a facade in the given state owns.
pub open spec fn held(state: PowerState) -> Multiset<usize> {
    released_by(retired_from(state).sample).add(
        released_by(retired_from(state).subscription),
    ).add(released_by(retired_from(state).channels))
}

/// The reference that an event brings into the facade's ownership: a
/// sample or a delta snapshot that is not null.
pub open spec fn acquired_by(event: Event) -> Multiset<usize> {
    match event {
        Event::Sampled { sample, now_ns } => if sample == 0 {
            Multiset::empty()
        } else {
            Multiset::singleton(sample)
        },
        Event::Delta { snapshot, channels } => if snapshot == 0 {
            Multiset::empty()
        } else {
            Multiset::singleton(snapshot)
        },
        _ => Multiset::empty(),
    }
}

/// The references that a run of events brings in.
pub open spec fn acquired_over(events: Seq<Event>) -> Multiset<usize>
    decreases events.len(),
{
    if events.len() == 0 {
        Multiset::empty()
    } else {
        acquired_over(events.drop_last()).add(acquired_by(events.last()))
    }
}

/// The references that the facade hands out for release over a run of
/// events.
pub open spec fn released_over(state: PowerState, events: Seq<Event>) -> Multiset<usize>
    decreases events.len(),
{
    if events.len() == 0 {
        Multiset::empty()
    } else {
        released_over(state, events.drop_last()).add(
            released_by(
                plan_after(state_after_all(state, events.drop_last()), events.last()).release,
            ),
        )
    }
}

/// The total of the reading is the sum of its domains after every event,
/// if it was before.
pub proof fn lemma_reading_stays_consistent(state: PowerState, event: Event)
    requires
        state.reading.consistent(),
    ensures
        state_after(state, event).reading.consistent(),
{
    match event {
        Event::Delta { snapshot, channels } => {
            lemma_total_is_sum_of_domains(
                decoded(listed_items(channels)),
                state.interval_ns as int,
            );
        },
        Event::Utilization { per_core } => {
            lemma_estimate_is_consistent(per_core@);
        },
        _ => {},
    }
}

/// The first sample of a facade that keeps none becomes the baseline: it is
/// kept, the reading and the mode stay as they were, nothing is released,
/// and the cycle goes on to the power settings without computing anything.
pub proof fn lemma_first_sample_is_baseline(state: PowerState, sample: usize, now_ns: u64)
    requires
        state.last_sample is None,
        sample != 0,
    ensures
        ({
            let event = Event::Sampled { sample, now_ns };
            &&& state_after(state, event).last_sample == Some((sample, now_ns))
            &&& state_after(state, event).reading == state.reading
            &&& state_after(state, event).mode == state.mode
            &&& plan_after(state, event) == (Plan {
                request: Request::PowerSettings,
                release: None,
            })
        }),
{
}

/// Items whose counters did not run backwards decode to channels whose
/// counters did not.
proof fn lemma_decoding_keeps_values(items: Seq<Option<Channel>>)
    requires
        forall|i: int| 0 <= i < items.len() && items[i] is Some ==> items[i]->0.value >= 0,
    ensures
        forall|i: int| 0 <= i < decoded(items).len() ==> decoded(items)[i].value >= 0,
    decreases items.len(),
{
    if items.len() > 0 {
        let rest = items.drop_first();
        assert forall|i: int| 0 <= i < rest.len() && rest[i] is Some implies rest[i]->0.value
            >= 0 by {
            assert(rest[i] == items[i + 1]);
        }
        lemma_decoding_keeps_values(rest);
        assert forall|i: int| 0 <= i < decoded(items).len() implies decoded(items)[i].value
            >= 0 by {
            match items.first() {
                Some(raw) => {
                    assert(items[0] is Some);
                    if i > 0 {
                        assert(decoded(items)[i] == decoded(rest)[i - 1]);
                    }
                },
                None => {},
            }
        }
    }
}

/// A delta whose counters did not run backwards gives each domain a power
/// that is not negative and lies within the range of a domain.
pub proof fn lemma_delta_of_forward_counters(
    state: PowerState,
    snapshot: usize,
    channels: Option<Vec<Option<RawChannel>>>,
)
    requires
        snapshot != 0,
        forall|i: int|
            0 <= i < listed_items(channels).len() && listed_items(channels)[i] is Some
                ==> listed_items(channels)[i]->0.value >= 0,
    ensures
        ({
            let reading = state_after(state, Event::Delta { snapshot, channels }).reading;
            &&& 0 <= reading.cpu.microwatts <= MAX_DOMAIN_MICROWATTS
            &&& 0 <= reading.gpu.microwatts <= MAX_DOMAIN_MICROWATTS
            &&& 0 <= reading.ane.microwatts <= MAX_DOMAIN_MICROWATTS
            &&& reading.total.microwatts == reading.cpu.microwatts + reading.gpu.microwatts
                + reading.ane.microwatts
        }),
{
    lemma_decoding_keeps_values(listed_items(channels));
    lemma_reading_is_nonnegative(decoded(listed_items(channels)), state.interval_ns as int);
}

/// Without a subscription every cycle turns to the estimate, and with no
/// core busier than full the estimate keeps to its range: the processor
/// between two and seventeen watts, the graphics processor at one watt, the
/// neural accelerator at nothing.
pub proof fn lemma_without_subscription_estimates(state: PowerState, per_core: Vec<u32>)
    requires
        state.subscription is None,
        forall|i: int| 0 <= i < per_core@.len() ==> per_core@[i] <= FULL_UTILIZATION,
    ensures
        plan_after(state, Event::Tick) == (Plan { request: Request::Utilization, release: None }),
        state_after(state, Event::Tick) == state,
        ({
            let reading = state_after(state, Event::Utilization { per_core }).reading;
            &&& 2_000_000 <= reading.cpu.microwatts <= 17_000_000
            &&& reading.gpu.microwatts == 1_000_000
            &&& reading.ane.microwatts == 0
            &&& reading.total.microwatts == reading.cpu.microwatts + reading.gpu.microwatts
        }),
{
    lemma_mean_is_at_most_full(per_core@);
    lemma_estimate_keeps_to_range(mean_utilization(per_core@));
}

/// No event loses or doubles a reference: what the facade held before the
/// event, with what the event brought, is what it holds after it, with what
/// the step hands out for release.
pub proof fn lemma_event_keeps_count(state: PowerState, event: Event)
    ensures
        held(state).add(acquired_by(event)) =~= held(state_after(state, event)).add(
            released_by(plan_after(state, event).release),
        ),
{
}

/// Over a facade's whole life every reference is released exactly as often
/// as it was acquired: what the facade started with, with what the events
/// brought, is what it handed out for release on the way, with what it
/// hands back at its end.
pub proof fn lemma_life_keeps_count(state: PowerState, events: Seq<Event>)
    ensures
        held(state).add(acquired_over(events)) =~= released_over(state, events).add(
            held(state_after_all(state, events)),
        ),
    decreases events.len(),
{
    if events.len() > 0 {
        let before = state_after_all(state, events.drop_last());
        lemma_life_keeps_count(state, events.drop_last());
        lemma_event_keeps_count(before, events.last());
        let brought = acquired_over(events.drop_last());
        let brought_last = acquired_by(events.last());
        let released = released_over(state, events.drop_last());
        let released_last = released_by(plan_after(before, events.last()).release);
        let after = held(state_after_all(state, events));
        assert(held(state).add(brought.add(brought_last)) =~= held(state).add(brought).add(
            brought_last,
        ));
        assert(released.add(held(before)).add(brought_last) =~= released.add(
            held(before).add(brought_last),
        ));
        assert(released.add(after.add(released_last)) =~= released.add(released_last).add(after));
    }
}

/// How many steps a cycle has left, at most, when a request is out.
pub open spec fn steps_left(request: Request) -> int {
    match request {
        Request::Sample { subscription, channels } => 4,
        Request::Delta { previous, current } => 3,
        Request::Utilization => 2,
        Request::PowerSettings => 1,
        Request::Done => 0,
    }
}

/// The request that an event reports on, a cycle's begin counting as one
/// more.
pub open spec fn steps_left_at(event: Event) -> int {
    match event {
        Event::Tick => 5,
        Event::Sampled { sample, now_ns } => 4,
        Event::Delta { snapshot, channels } => 3,
        Event::Utilization { per_core } => 2,
        Event::PowerSettings { output } => 1,
    }
}

/// Every cycle comes to its end, and by way of the power settings: each
/// answer leaves fewer steps than the event it answers, and the cycle is
/// over exactly when the power settings were reported.
pub proof fn lemma_cycle_ends_with_power_settings(state: PowerState, event: Event)
    ensures
        steps_left(plan_after(state, event).request) < steps_left_at(event),
        plan_after(state, event).request == Request::Done <==> event is PowerSettings,
{
}

/// The subscription is for life: no event opens, closes or replaces it, and
/// a facade without one never asks for a sample.
pub proof fn lemma_subscription_is_for_life(state: PowerState, event: Event)
    ensures
        state_after(state, event).subscription == state.subscription,
        state.subscription is None ==> !(plan_after(state, Event::Tick).request is Sample),
{
}

/// Whatever fails leaves the state as it was: a sample or a delta that
/// could not be had changes neither the snapshot kept nor the reading, and
/// the cycle turns to the estimate.
pub proof fn lemma_failures_change_nothing(
    state: PowerState,
    now_ns: u64,
    channels: Option<Vec<Option<RawChannel>>>,
)
    ensures
        state_after(state, Event::Sampled { sample: 0, now_ns }) == state,
        state_after(state, Event::Delta { snapshot: 0, channels }) == state,
        state_after(state, Event::PowerSettings { output: None }) == state,
        plan_after(state, Event::Sampled { sample: 0, now_ns }) == (Plan {
            request: Request::Utilization,
            release: None,
        }),
        plan_after(state, Event::Delta { snapshot: 0, channels }) == (Plan {
            request: Request::Utilization,
            release: None,
        }),
{
}

/// A sample that follows a kept one, and the delta of the two, give the
/// reading of the delta's channels over the time between the two samples.
/// The older sample is released, the delta is released, and the newer
/// sample is kept.
pub proof fn lemma_second_sample_reads_over_the_interval(
    state: PowerState,
    sample: usize,
    now_ns: u64,
    snapshot: usize,
    channels: Option<Vec<Option<RawChannel>>>,
)
    requires
        state.last_sample is Some,
        sample != 0,
        snapshot != 0,
    ensures
        ({
            let (previous, taken_at) = state.last_sample->0;
            let sampled = Event::Sampled { sample, now_ns };
            let between = state_after(state, sampled);
            let after = state_after(between, Event::Delta { snapshot, channels });
            &&& plan_after(state, sampled) == (Plan {
                request: Request::Delta { previous, current: sample },
                release: Some(previous),
            })
            &&& plan_after(between, Event::Delta { snapshot, channels }) == (Plan {
                request: Request::PowerSettings,
                release: Some(snapshot),
            })
            &&& after.last_sample == Some((sample, now_ns))
            &&& after.reading == reading_from_channels(
                decoded(listed_items(channels)),
                elapsed_between(taken_at, now_ns) as int,
            )
        }),
{
}

} // verus!

//! The subscription to the machine's energy counters, and the steps that
//! open it.
//!
//! Opening takes up to four native calls, each on what the one before it
//! returned. The library decides after every reply how to go on and what to
//! release; the driver makes the calls and the releases.

use vstd::prelude::*;
use vstd::multiset::Multiset;
use crate::handle::{NativeHandle, reference_of, released_by};

verus! {

/// The name of the channel group that holds the energy counters.
pub const ENERGY_GROUP: &'static str = "Energy Model";

/// The key under which a channel group and a snapshot hold their channel
/// list.
pub const CHANNEL_LIST_KEY: &'static str = "IOReportChannels";

/// An open subscription to the channels of the energy group: the
/// subscription itself and the channel descriptors it was opened on. Both
/// live as long as the subscription is held.
#[derive(Debug)]
pub struct EnergySubscription {
    subscription: NativeHandle,
    channels: NativeHandle,
}

impl View for EnergySubscription {
    type V = (usize, usize);

    /// The references of the subscription and of its channel descriptors.
    closed spec fn view(&self) -> (usize, usize) {
        (self.subscription@, self.channels@)
    }
}

impl EnergySubscription {
    /// The reference of the subscription, for the call that takes a sample.
    pub fn subscription_id(&self) -> (raw: usize)
        ensures
            raw == self@.0,
    {
        self.subscription.raw()
    }

    /// The reference of the channel descriptors, for the call that takes a
    /// sample.
    pub fn channels_id(&self) -> (raw: usize)
        ensures
            raw == self@.1,
    {
        self.channels.raw()
    }

    /// Gives the subscription up: both handles are to be released.
    pub fn close(self) -> (handles: (NativeHandle, NativeHandle))
        ensures
            handles.0@ == self@.0,
            handles.1@ == self@.1,
    {
        (self.subscription, self.channels)
    }
}

/// A native call that the driver makes while the subscription is opened.
/// The driver reports the reference that the call returned, null included.
#[derive(Debug, Clone, Copy, PartialEq, Eq, Structural)]
pub enum OpenRequest {
    /// Copy the channels of the energy group. The reply is owned.
    CopyChannelGroup,
    /// Look the channel list up in the group. The reply is borrowed from the
    /// group and only says whether there is a list.
    FindChannelList { group: usize },
    /// Make a mutable copy of the group, which subscribing writes to. The
    /// reply is owned.
    CopyDescriptors { group: usize },
    /// Subscribe to the channels of the descriptors. The reply is owned.
    Subscribe { channels: usize },
}

/// How far the opening has come, with what it holds so far.
#[derive(Debug)]
pub enum OpenProgress {
    /// The channel group was asked for.
    Start,
    /// The channel list was asked for.
    Listing { group: NativeHandle },
    /// The mutable copy of the group was asked for.
    Copying { group: NativeHandle },
    /// The subscription was asked for.
    Subscribing { channels: NativeHandle },
}

/// `OpenProgress` as mathematical values.
pub enum Opening {
    Start,
    Listing { group: usize },
    Copying { group: usize },
    Subscribing { channels: usize },
}

impl View for OpenProgress {
    type V = Opening;

    open spec fn view(&self) -> Opening {
        match *self {
            OpenProgress::Start => Opening::Start,
            OpenProgress::Listing { group } => Opening::Listing { group: group@ },
            OpenProgress::Copying { group } => Opening::Copying { group: group@ },
            OpenProgress::Subscribing { channels } => Opening::Subscribing { channels: channels@ },
        }
    }
}

/// Where the opening stands after a reply.
#[derive(Debug)]
pub enum OpenOutcome {
    /// The driver makes the call `request` and reports its reply together
    /// with `progress`.
    Pending { progress: OpenProgress, request: OpenRequest },
    /// The subscription is open.
    Opened(EnergySubscription),
    /// The machine offers no energy counters, or a call failed. Nothing is
    /// held any more.
    Unavailable,
}

/// `OpenOutcome` as mathematical values.
pub enum OpenResult {
    Pending { progress: Opening, request: OpenRequest },
    Opened { subscription: usize, channels: usize },
    Unavailable,
}

impl View for OpenOutcome {
    type V = OpenResult;

    open spec fn view(&self) -> OpenResult {
        match *self {
            OpenOutcome::Pending { progress, request } => OpenResult::Pending {
                progress: progress@,
                request,
            },
            OpenOutcome::Opened(subscription) => OpenResult::Opened {
                subscription: subscription@.0,
                channels: subscription@.1,
            },
            OpenOutcome::Unavailable => OpenResult::Unavailable,
        }
    }
}

/// One step of the opening: where it stands, and the handle that the driver
/// releases once it has made the call that is pending, if any.
#[derive(Debug)]
pub struct OpenStep {
    pub outcome: OpenOutcome,
    pub release: Option<NativeHandle>,
}

/// `OpenStep` as mathematical values.
pub struct OpenPlan {
    pub outcome: OpenResult,
    pub release: Option<usize>,
}

impl View for OpenStep {
    type V = OpenPlan;

    open spec fn view(&self) -> OpenPlan {
        OpenPlan { outcome: self.outcome@, release: reference_of(self.release) }
    }
}

/// The first step: nothing is held, and the channel group is asked for.
pub open spec fn first_plan() -> OpenPlan {
    OpenPlan {
        outcome: OpenResult::Pending {
            progress: Opening::Start,
            request: OpenRequest::CopyChannelGroup,
        },
        release: None,
    }
}

/// The step that follows the reply `reply` to the call that `progress`
/// waits for. A null reply ends the opening, and what is held at that point
/// is released. The copied group is released as soon as the mutable copy was
/// asked for, whether that succeeded or not.
pub open spec fn plan_open(progress: Opening, reply: usize) -> OpenPlan {
    match progress {
        Opening::Start => if reply == 0 {
            OpenPlan { outcome: OpenResult::Unavailable, release: None }
        } else {
            OpenPlan {
                outcome: OpenResult::Pending {
                    progress: Opening::Listing { group: reply },
                    request: OpenRequest::FindChannelList { group: reply },
                },
                release: None,
            }
        },
        Opening::Listing { group } => if reply == 0 {
            OpenPlan { outcome: OpenResult::Unavailable, release: Some(group) }
        } else {
            OpenPlan {
                outcome: OpenResult::Pending {
                    progress: Opening::Copying { group },
                    request: OpenRequest::CopyDescriptors { group },
                },
                release: None,
            }
        },
        Opening::Copying { group } => if reply == 0 {
            OpenPlan { outcome: OpenResult::Unavailable, release: Some(group) }
        } else {
            OpenPlan {
                outcome: OpenResult::Pending {
                    progress: Opening::Subscribing { channels: reply },
                    request: OpenRequest::Subscribe { channels: reply },
                },
                release: Some(group),
            }
        },
        Opening::Subscribing { channels } => if reply == 0 {
            OpenPlan { outcome: OpenResult::Unavailable, release: Some(channels) }
        } else {
            OpenPlan {
                outcome: OpenResult::Opened { subscription: reply, channels },
                release: None,
            }
        },
    }
}

impl EnergySubscription {
    /// Starts to open a subscription: the driver makes the call of the
    /// step's request and goes on with `resume`.
    pub fn open() -> (step: OpenStep)
        ensures
            step@ == first_plan(),
    {
        OpenStep {
            outcome: OpenOutcome::Pending {
                progress: OpenProgress::Start,
                request: OpenRequest::CopyChannelGroup,
            },
            release: None,
        }
    }

    /// Goes on after the reply `reply` to the call that `progress` waited
    /// for.
    pub fn resume(progress: OpenProgress, reply: usize) -> (step: OpenStep)
        ensures
            step@ == plan_open(progress@, reply),
    {
        match progress {
            OpenProgress::Start => match NativeHandle::adopt(reply) {
                None => OpenStep { outcome: OpenOutcome::Unavailable, release: None },
                Some(group) => {
                    let request = OpenRequest::FindChannelList { group: group.raw() };
                    OpenStep {
                        outcome: OpenOutcome::Pending {
                            progress: OpenProgress::Listing { group },
                            request,
                        },
                        release: None,
                    }
                },
            },
            OpenProgress::Listing { group } => if reply == 0 {
                OpenStep { outcome: OpenOutcome::Unavailable, release: Some(group) }
            } else {
                let request = OpenRequest::CopyDescriptors { group: group.raw() };
                OpenStep {
                    outcome: OpenOutcome::Pending {
                        progress: OpenProgress::Copying { group },
                        request,
                    },
                    release: None,
                }
            },
            OpenProgress::Copying { group } => match NativeHandle::adopt(reply) {
                None => OpenStep { outcome: OpenOutcome::Unavailable, release: Some(group) },
                Some(channels) => {
                    let request = OpenRequest::Subscribe { channels: channels.raw() };
                    OpenStep {
                        outcome: OpenOutcome::Pending {
                            progress: OpenProgress::Subscribing { channels },
                            request,
                        },
                        release: Some(group),
                    }
                },
            },
            OpenProgress::Subscribing { channels } => match NativeHandle::adopt(reply) {
                None => OpenStep { outcome: OpenOutcome::Unavailable, release: Some(channels) },
                Some(subscription) => OpenStep {
                    outcome: OpenOutcome::Opened(EnergySubscription { subscription, channels }),
                    release: None,
                },
            },
        }
    }
}

/// The references that the opening holds at a point.
pub open spec fn held_while_opening(progress: Opening) -> Multiset<usize> {
    match progress {
        Opening::Start => Multiset::empty(),
        Opening::Listing { group } => Multiset::singleton(group),
        Opening::Copying { group } => Multiset::singleton(group),
        Opening::Subscribing { channels } => Multiset::singleton(channels),
    }
}

/// The references that are held after a step.
pub open spec fn held_after_opening(outcome: OpenResult) -> Multiset<usize> {
    match outcome {
        OpenResult::Pending { progress, request } => held_while_opening(progress),
        OpenResult::Opened { subscription, channels } => Multiset::singleton(subscription).insert(
            channels,
        ),
        OpenResult::Unavailable => Multiset::empty(),
    }
}

/// The reference that a reply brings into ownership: every reply that is
/// not null, but for the channel list, which stays the group's.
pub open spec fn acquired_by_reply(progress: Opening, reply: usize) -> Multiset<usize> {
    if reply == 0 || progress is Listing {
        Multiset::empty()
    } else {
        Multiset::singleton(reply)
    }
}

/// No step of the opening loses or doubles a reference: what was held
/// before the reply, with what the reply brought, is what is held after it,
/// with what the step releases.
pub proof fn lemma_opening_keeps_count(progress: Opening, reply: usize)
    ensures
        held_while_opening(progress).add(acquired_by_reply(progress, reply))
            =~= held_after_opening(plan_open(progress, reply).outcome).add(
            released_by(plan_open(progress, reply).release),
        ),
{
}

/// An opening that ends without a subscription holds nothing: every
/// reference it had was released.
pub proof fn lemma_failed_opening_holds_nothing(progress: Opening, reply: usize)
    requires
        plan_open(progress, reply).outcome is Unavailable,
    ensures
        held_while_opening(progress).add(acquired_by_reply(progress, reply)) =~= released_by(
            plan_open(progress, reply).release,
        ),
{
}

/// Where an opening stands after a run of replies, each given to the call
/// that was pending when it came. Replies after the end of the opening
/// change nothing.
pub open spec fn opening_after(start: OpenResult, replies: Seq<usize>) -> OpenResult
    decreases replies.len(),
{
    if replies.len() == 0 {
        start
    } else {
        match opening_after(start, replies.drop_last()) {
            OpenResult::Pending { progress, request } => plan_open(
                progress,
                replies.last(),
            ).outcome,
            ended => ended,
        }
    }
}

/// The references that a run of replies brings into ownership.
pub open spec fn acquired_while_opening(start: OpenResult, replies: Seq<usize>) -> Multiset<usize>
    decreases replies.len(),
{
    if replies.len() == 0 {
        Multiset::empty()
    } else {
        let brought = acquired_while_opening(start, replies.drop_last());
        match opening_after(start, replies.drop_last()) {
            OpenResult::Pending { progress, request } => brought.add(
                acquired_by_reply(progress, replies.last()),
            ),
            ended => brought,
        }
    }
}

/// The references that the steps of a run of replies release.
pub open spec fn released_while_opening(start: OpenResult, replies: Seq<usize>) -> Multiset<usize>
    decreases replies.len(),
{
    if replies.len() == 0 {
        Multiset::empty()
    } else {
        let released = released_while_opening(start, replies.drop_last());
        match opening_after(start, replies.drop_last()) {
            OpenResult::Pending { progress, request } => released.add(
                released_by(plan_open(progress, replies.last()).release),
            ),
            ended => released,
        }
    }
}

/// Over a whole opening no reference is lost or doubled: what the replies
/// brought is what the steps released, with what is held at the end. An
/// opening that ended without a subscription has released all of it, and an
/// opening that succeeded holds the subscription and its channel
/// descriptors and has released the rest.
pub proof fn lemma_whole_opening_keeps_count(replies: Seq<usize>)
    ensures
        acquired_while_opening(first_plan().outcome, replies) =~= released_while_opening(
            first_plan().outcome,
            replies,
        ).add(held_after_opening(opening_after(first_plan().outcome, replies))),
    decreases replies.len(),
{
    let start = first_plan().outcome;
    if replies.len() > 0 {
        let before = replies.drop_last();
        lemma_whole_opening_keeps_count(before);
        match opening_after(start, before) {
            OpenResult::Pending { progress, request } => {
                lemma_opening_keeps_count(progress, replies.last());
                let brought = acquired_while_opening(start, before);
                let released = released_while_opening(start, before);
                let plan = plan_open(progress, replies.last());
                assert(released.add(held_while_opening(progress)).add(
                    acquired_by_reply(progress, replies.last()),
                ) =~= released.add(
                    held_while_opening(progress).add(acquired_by_reply(progress, replies.last())),
                ));
                assert(released.add(
                    held_after_opening(plan.outcome).add(released_by(plan.release)),
                ) =~= released.add(released_by(plan.release)).add(
                    held_after_opening(plan.outcome),
                ));
            },
            _ => {},
        }
    }
}

/// An opening is over after four replies at most.
pub proof fn lemma_opening_ends(replies: Seq<usize>)
    requires
        replies.len() >= 4,
    ensures
        !(opening_after(first_plan().outcome, replies) is Pending),
    decreases replies.len(),
{
    let start = first_plan().outcome;
    if replies.len() > 4 {
        lemma_opening_ends(replies.drop_last());
    } else {
        let three = replies.drop_last();
        let two = three.drop_last();
        let one = two.drop_last();
        assert(one.drop_last().len() == 0);
        assert(opening_after(start, one.drop_last()) == start);
        let after_one = opening_after(start, one);
        let after_two = opening_after(start, two);
        let after_three = opening_after(start, three);
        assert(after_one is Pending ==> after_one->Pending_progress is Listing);
        assert(after_two is Pending ==> after_two->Pending_progress is Copying);
        assert(after_three is Pending ==> after_three->Pending_progress is Subscribing);
    }
}

} // verus!

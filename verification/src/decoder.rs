//! Decoding of a delta snapshot: from the items of its channel list, as the
//! driver read them, to typed channel records.

use vstd::prelude::*;
use crate::energy::{Channel, ChannelRecord, channels_of};
use crate::handle::NativeHandle;
use crate::text::{trim, trimmed_of};

verus! {

/// One item of a snapshot's channel list as the driver read it: the name,
/// the unit label as it stands in the record, and the integer value.
#[derive(Debug)]
pub struct RawChannel {
    pub name: String,
    pub unit: String,
    pub value: i64,
}

impl View for RawChannel {
    type V = Channel;

    open spec fn view(&self) -> Channel {
        Channel { name: self.name@, unit: self.unit@, value: self.value as int }
    }
}

/// The channel that a raw item decodes to: its unit label loses the
/// whitespace around it.
pub open spec fn decoded_channel(raw: Channel) -> Channel {
    Channel { name: raw.name, unit: trimmed_of(raw.unit), value: raw.value }
}

/// The channels that a list of items decodes to, in order. An item that
/// could not be read is `None` and is passed over.
pub open spec fn decoded(items: Seq<Option<Channel>>) -> Seq<Channel>
    decreases items.len(),
{
    if items.len() == 0 {
        Seq::empty()
    } else {
        match items.first() {
            Some(raw) => seq![decoded_channel(raw)] + decoded(items.drop_first()),
            None => decoded(items.drop_first()),
        }
    }
}

/// What a list of items holds, as mathematical values.
pub open spec fn items_of(items: Seq<Option<RawChannel>>) -> Seq<Option<Channel>> {
    items.map_values(
        |item: Option<RawChannel>|
            match item {
                Some(raw) => Some(raw@),
                None => None,
            },
    )
}

/// What an optional list of items holds: a snapshot without a channel list
/// holds no items.
pub open spec fn listed_items(channels: Option<Vec<Option<RawChannel>>>) -> Seq<Option<Channel>> {
    match channels {
        Some(items) => items_of(items@),
        None => Seq::empty(),
    }
}

/// A single pass over the channels of one delta snapshot.
///
/// The decoder owns the snapshot: `finish` hands it back for its release,
/// however many channels were read.
#[derive(Debug)]
pub struct ChannelDecoder {
    snapshot: NativeHandle,
    items: Vec<Option<RawChannel>>,
    index: usize,
}

impl ChannelDecoder {
    #[verifier::type_invariant]
    spec fn well_formed(self) -> bool {
        self.index <= self.items.len()
    }

    /// The channels that the decoder has yet to yield.
    pub closed spec fn remaining(self) -> Seq<Channel> {
        decoded(items_of(self.items@).skip(self.index as int))
    }

    /// The reference of the snapshot that the decoder owns.
    pub closed spec fn snapshot(self) -> usize {
        self.snapshot@
    }

    /// A decoder over the channel list of `snapshot`. `channels` holds the
    /// items of the list, `None` for each one that could not be read; it is
    /// `None` itself when the snapshot has no channel list, and the decoder
    /// then yields nothing.
    pub fn new(snapshot: NativeHandle, channels: Option<Vec<Option<RawChannel>>>) -> (decoder:
        ChannelDecoder)
        ensures
            decoder.remaining() == decoded(listed_items(channels)),
            decoder.snapshot() == snapshot@,
    {
        let items: Vec<Option<RawChannel>> = match channels {
            Some(items) => items,
            None => Vec::new(),
        };
        proof {
            assert(items_of(items@).skip(0) =~= items_of(items@));
            assert(items_of(items@) =~= listed_items(channels));
        }
        ChannelDecoder { snapshot, items, index: 0 }
    }

    /// The next channel, or `None` when all were yielded. Items that could
    /// not be read are passed over.
    pub fn next(&mut self) -> (record: Option<ChannelRecord>)
        ensures
            final(self).snapshot() == old(self).snapshot(),
            match record {
                Some(r) => {
                    &&& old(self).remaining().len() > 0
                    &&& r@ == old(self).remaining().first()
                    &&& final(self).remaining() == old(self).remaining().drop_first()
                },
                None => {
                    &&& old(self).remaining().len() == 0
                    &&& final(self).remaining().len() == 0
                },
            },
    {
        proof {
            use_type_invariant(&*self);
        }
        let ghost all: Seq<Option<Channel>> = items_of(self.items@);
        while self.index < self.items.len()
            invariant
                self.index <= self.items.len(),
                self.items == old(self).items,
                self.snapshot == old(self).snapshot,
                all == items_of(self.items@),
                decoded(all.skip(self.index as int)) == old(self).remaining(),
            decreases self.items.len() - self.index,
        {
            let ghost rest: Seq<Option<Channel>> = all.skip(self.index as int);
            proof {
                assert(rest.drop_first() =~= all.skip(self.index + 1));
                assert(rest.first() == all[self.index as int]);
            }
            let found: Option<ChannelRecord> = match &self.items[self.index] {
                Some(raw) => Some(
                    ChannelRecord {
                        name: raw.name.clone(),
                        unit: trim(raw.unit.as_str()).to_owned(),
                        value: raw.value,
                    },
                ),
                None => None,
            };
            self.index = self.index + 1;
            if found.is_some() {
                proof {
                    let first = decoded_channel(rest.first()->0);
                    assert(old(self).remaining() == seq![first] + decoded(rest.drop_first()));
                    assert((seq![first] + decoded(rest.drop_first())).drop_first() =~= decoded(
                        rest.drop_first(),
                    ));
                }
                return found;
            }
        }
        proof {
            assert(all.skip(self.index as int) =~= Seq::<Option<Channel>>::empty());
        }
        None
    }

    /// All channels that are left, in order. The decoder yields nothing
    /// after this.
    pub fn collect_remaining(&mut self) -> (records: Vec<ChannelRecord>)
        ensures
            channels_of(records@) == old(self).remaining(),
            final(self).remaining().len() == 0,
            final(self).snapshot() == old(self).snapshot(),
    {
        let mut records: Vec<ChannelRecord> = Vec::new();
        loop
            invariant
                self.snapshot() == old(self).snapshot(),
                channels_of(records@) + self.remaining() == old(self).remaining(),
            ensures
                channels_of(records@) == old(self).remaining(),
                self.remaining().len() == 0,
                self.snapshot() == old(self).snapshot(),
            decreases self.remaining().len(),
        {
            let ghost before: Seq<Channel> = self.remaining();
            let ghost gathered: Seq<Channel> = channels_of(records@);
            match self.next() {
                Some(record) => {
                    records.push(record);
                    proof {
                        assert(channels_of(records@) =~= gathered.push(before.first()));
                        assert(gathered.push(before.first()) + before.drop_first() =~= gathered
                            + before);
                    }
                },
                None => {
                    proof {
                        assert(gathered + before =~= gathered);
                    }
                    break;
                },
            }
        }
        records
    }

    /// Ends the pass and hands back the snapshot, which is to be released.
    pub fn finish(self) -> (snapshot: NativeHandle)
        ensures
            snapshot@ == self.snapshot(),
    {
        self.snapshot
    }
}

} // verus!

//! Channels that messages are inscribed in.
use vstd::prelude::*;

use crate::collections::trie_map::TrieMap;

verus! {

/// Identifies a channel.
pub type ChannelId = [u8; 32];

/// The position of a key of a channel.
pub type ChannelKeyIndex = u16;

/// What the ledger reads of a channel.
pub struct ChannelState {
    /// The keys that may act for the channel.
    pub accredited_keys: Vec<[u8; 32]>,
    /// How many of them it takes to transfer tokens of the channel.
    pub transfer_threshold: ChannelKeyIndex,
}

/// Channels by their identifiers.
pub struct Channels {
    pub channels: TrieMap<ChannelState>,
}

impl View for Channels {
    type V = Map<ChannelId, ChannelState>;

    open spec fn view(&self) -> Map<ChannelId, ChannelState> {
        self.channels@
    }
}

impl Channels {
    /// Makes a state without channels.
    pub fn new() -> (r: Self)
        ensures
            r@ == Map::<ChannelId, ChannelState>::empty(),
    {
        Channels { channels: TrieMap::new() }
    }

    /// The channels with `state` for one of them.
    pub fn with(self, channel_id: ChannelId, state: ChannelState) -> (r: Self)
        ensures
            r@ == self@.insert(channel_id, state),
    {
        Channels { channels: self.channels.with(channel_id, state) }
    }

    /// The state of a channel, if there is one.
    pub fn channel_state(&self, channel_id: &ChannelId) -> (r: Option<&ChannelState>)
        ensures
            r == (if self@.dom().contains(*channel_id) {
                Some(&self@[*channel_id])
            } else {
                None
            }),
    {
        self.channels.get(channel_id)
    }
}

impl Clone for Channels {
    fn clone(&self) -> (r: Self)
        ensures
            r == *self,
    {
        Channels { channels: self.channels.clone() }
    }
}

} // verus!

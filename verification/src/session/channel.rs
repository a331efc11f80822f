//! Channels that messages are posted in.
use std::sync::Arc;

use vstd::prelude::*;

use crate::bytes::same_bytes;
use crate::collections::trie_map::TrieMap;
use crate::merkle::hasher::empty_leaf;
use crate::signature;
use crate::types::TxHash;

verus! {

/// Identifies a channel.
pub type ChannelId = [u8; 32];

/// Identifies a message.
pub type MsgId = [u8; 32];

/// A key that may act for a channel.
pub type PublicKey = [u8; 32];

/// Failure of an operation on a channel.
#[derive(Clone, Copy, Debug, PartialEq, Eq)]
pub enum Error {
    /// The message does not follow the last one of the channel.
    InvalidParent { channel_id: ChannelId, parent: MsgId, actual: MsgId },
    /// The key may not act for the channel.
    UnauthorizedSigner { channel_id: ChannelId, signer: PublicKey },
    /// The signature is not valid.
    InvalidSignature,
    /// The channel would have no key.
    EmptyKeys { channel_id: ChannelId },
}

/// The state of a channel.
pub struct ChannelState {
    /// The last message.
    pub tip: MsgId,
    /// The keys that may act for the channel. The first one may change them.
    pub keys: Arc<Vec<PublicKey>>,
}

/// Channels by their identifiers.
pub struct Channels {
    pub channels: TrieMap<ChannelState>,
}

impl View for Channels {
    type V = Map<ChannelId, (MsgId, Seq<PublicKey>)>;

    open spec fn view(&self) -> Map<ChannelId, (MsgId, Seq<PublicKey>)> {
        self.channels@.map_values(|state: ChannelState| (state.tip, state.keys@))
    }
}

/// The last message of a channel before its first one.
pub open spec fn root() -> MsgId {
    crate::merkle::hasher::empty_value()
}

/// The state of a channel in which `signer` posts a message. A channel comes into being with
/// its first message, and has the key of its author.
pub open spec fn channel_for(
    channels: Map<ChannelId, (MsgId, Seq<PublicKey>)>,
    channel_id: ChannelId,
    signer: PublicKey,
) -> (MsgId, Seq<PublicKey>) {
    if channels.dom().contains(channel_id) {
        channels[channel_id]
    } else {
        (root(), seq![signer])
    }
}

/// Why a message is rejected, if it is.
pub open spec fn msg_failure(
    channels: Map<ChannelId, (MsgId, Seq<PublicKey>)>,
    channel_id: ChannelId,
    parent: MsgId,
    signer: PublicKey,
) -> Option<Error> {
    let (tip, keys) = channel_for(channels, channel_id, signer);
    if parent != tip {
        Some(Error::InvalidParent { channel_id, parent, actual: tip })
    } else if !keys.contains(signer) {
        Some(Error::UnauthorizedSigner { channel_id, signer })
    } else {
        None
    }
}

/// Why new keys are rejected, if they are.
pub open spec fn keys_failure(
    channels: Map<ChannelId, (MsgId, Seq<PublicKey>)>,
    channel_id: ChannelId,
    keys: Seq<PublicKey>,
    sig: Seq<u8>,
    tx_hash: TxHash,
) -> Option<Error> {
    if keys.len() == 0 {
        Some(Error::EmptyKeys { channel_id })
    } else if channels.dom().contains(channel_id) && !signature::ed25519_signed(
        channels[channel_id].1[0]@,
        tx_hash@,
        sig,
    ) {
        Some(Error::InvalidSignature)
    } else {
        None
    }
}

/// The last message of a channel.
pub open spec fn tip_of(
    channels: Map<ChannelId, (MsgId, Seq<PublicKey>)>,
    channel_id: ChannelId,
) -> MsgId {
    if channels.dom().contains(channel_id) {
        channels[channel_id].0
    } else {
        root()
    }
}

/// Whether `key` is among `keys`.
fn has_key(keys: &Vec<PublicKey>, key: &PublicKey) -> (r: bool)
    ensures
        r == keys@.contains(*key),
{
    let mut i: usize = 0;
    while i < keys.len()
        invariant
            0 <= i <= keys@.len(),
            forall|j: int| 0 <= j < i ==> keys@[j] != *key,
        decreases keys@.len() - i,
    {
        if same_bytes(&keys[i], key) {
            assert(keys@[i as int] == *key);
            return true;
        }
        i += 1;
    }
    false
}

impl Channels {
    /// Whether every channel has a key.
    pub open spec fn well_formed(&self) -> bool {
        forall|id: ChannelId| #[trigger] self@.dom().contains(id) ==> self@[id].1.len() > 0
    }

    /// Makes a state without channels.
    pub fn new() -> (r: Self)
        ensures
            r.well_formed(),
            r@ == Map::<ChannelId, (MsgId, Seq<PublicKey>)>::empty(),
    {
        let r = Channels { channels: TrieMap::new() };
        assert(r@ =~= Map::empty());
        r
    }

    /// Posts a message in a channel.
    pub fn apply_msg(
        self,
        channel_id: ChannelId,
        parent: &MsgId,
        msg: MsgId,
        signer: &PublicKey,
    ) -> (r: Result<Self, Error>)
        requires
            self.well_formed(),
        ensures
            match msg_failure(self@, channel_id, *parent, *signer) {
                Some(error) => r == Err::<Self, _>(error),
                None => r matches Ok(channels) && channels.well_formed() && channels@
                    == self@.insert(
                    channel_id,
                    (msg, channel_for(self@, channel_id, *signer).1),
                ),
            },
    {
        let (tip, keys): (MsgId, Arc<Vec<PublicKey>>) = match self.channels.get(&channel_id) {
            Some(channel) => (channel.tip, channel.keys.clone()),
            None => {
                let mut keys: Vec<PublicKey> = Vec::new();
                keys.push(*signer);
                (empty_leaf(), Arc::new(keys))
            },
        };
        assert((tip, keys@) == channel_for(self@, channel_id, *signer));
        if !same_bytes(parent, &tip) {
            return Err(Error::InvalidParent { channel_id, parent: *parent, actual: tip });
        }
        if !has_key(&keys, signer) {
            return Err(Error::UnauthorizedSigner { channel_id, signer: *signer });
        }
        let ghost before = self@;
        let mut channels: TrieMap<ChannelState> = self.channels;
        channels.insert_mut(channel_id, ChannelState { tip: msg, keys });
        let r = Channels { channels };
        proof {
            assert(r@ =~= before.insert(channel_id, (msg, keys@)));
            assert forall|id: ChannelId| #[trigger] r@.dom().contains(id) implies r@[id].1.len()
                > 0 by {
                if id != channel_id {
                    assert(before.dom().contains(id));
                } else if before.dom().contains(id) {
                    assert(before[id].1.len() > 0);
                }
            }
        }
        Ok(r)
    }

    /// Replaces the keys of a channel, which takes a signature under its first key. A channel
    /// that was not there comes into being.
    pub fn set_keys(
        self,
        channel_id: ChannelId,
        keys: Vec<PublicKey>,
        sig: &[u8; 64],
        tx_hash: &TxHash,
    ) -> (r: Result<Self, Error>)
        requires
            self.well_formed(),
        ensures
            match keys_failure(self@, channel_id, keys@, sig@, *tx_hash) {
                Some(error) => r == Err::<Self, _>(error),
                None => r matches Ok(channels) && channels.well_formed() && channels@
                    == self@.insert(channel_id, (tip_of(self@, channel_id), keys@)),
            },
    {
        if keys.len() == 0 {
            return Err(Error::EmptyKeys { channel_id });
        }
        assert(self@.dom().contains(channel_id) ==> self@[channel_id].1.len() > 0);
        let tip: MsgId = match self.channels.get(&channel_id) {
            Some(channel) => {
                assert(self@[channel_id] == (channel.tip, channel.keys@));
                if !signature::is_signed(&channel.keys[0], tx_hash, sig) {
                    return Err(Error::InvalidSignature);
                }
                channel.tip
            },
            None => empty_leaf(),
        };
        let ghost before = self@;
        let ghost new_keys = keys@;
        let mut channels: TrieMap<ChannelState> = self.channels;
        channels.insert_mut(channel_id, ChannelState { tip, keys: Arc::new(keys) });
        let r = Channels { channels };
        proof {
            assert(r@ =~= before.insert(channel_id, (tip, new_keys)));
            assert forall|id: ChannelId| #[trigger] r@.dom().contains(id) implies r@[id].1.len()
                > 0 by {
                if id != channel_id {
                    assert(before.dom().contains(id));
                }
            }
        }
        Ok(r)
    }
}

impl Default for Channels {
    fn default() -> (r: Self)
        ensures
            r.well_formed(),
            r@ == Map::<ChannelId, (MsgId, Seq<PublicKey>)>::empty(),
    {
        Self::new()
    }
}

impl Clone for Channels {
    fn clone(&self) -> (r: Self)
        ensures
            r == *self,
    {
        Channels { channels: self.channels.clone() }
    }
}

/// A message that was posted is followed by one that names it as its parent, from any key of
/// the channel, and by no other one.
pub proof fn messages_form_a_chain(
    channels: Map<ChannelId, (MsgId, Seq<PublicKey>)>,
    channel_id: ChannelId,
    msg: MsgId,
    signer: PublicKey,
    parent: MsgId,
    other: PublicKey,
)
    requires
        channel_for(channels, channel_id, signer).1.contains(other),
    ensures
        ({
            let after = channels.insert(
                channel_id,
                (msg, channel_for(channels, channel_id, signer).1),
            );
            msg_failure(after, channel_id, parent, other) is None <==> parent == msg
        }),
{
}

/// Whoever posts the first message in a channel may go on, and nobody else.
pub proof fn first_author_owns_the_channel(
    channels: Map<ChannelId, (MsgId, Seq<PublicKey>)>,
    channel_id: ChannelId,
    msg: MsgId,
    signer: PublicKey,
    other: PublicKey,
)
    requires
        !channels.dom().contains(channel_id),
    ensures
        ({
            let after = channels.insert(
                channel_id,
                (msg, channel_for(channels, channel_id, signer).1),
            );
            msg_failure(after, channel_id, msg, other) is None <==> other == signer
        }),
{
    let keys = seq![signer];
    assert(keys[0] == signer);
}

} // verus!

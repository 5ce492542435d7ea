use super::message::{same_message, IpcMessage};
use super::IpcError;
use crate::name_map::NameMap;
use crate::text::concat3;
use std::collections::VecDeque;
use vstd::prelude::*;

verus! {

/// A first-in, first-out queue of messages.
pub struct IpcChannel {
    queue: VecDeque<IpcMessage>,
}

impl View for IpcChannel {
    type V = Seq<IpcMessage>;

    /// The messages waiting, oldest first.
    closed spec fn view(&self) -> Seq<IpcMessage> {
        self.queue@
    }
}

impl IpcChannel {
    /// An empty channel.
    pub fn new() -> (r: IpcChannel)
        ensures
            r@ == Seq::<IpcMessage>::empty(),
    {
        IpcChannel { queue: VecDeque::new() }
    }

    /// Puts `message` at the back of the queue. Always succeeds.
    pub fn send(&mut self, message: IpcMessage) -> (r: Result<(), IpcError>)
        ensures
            r is Ok,
            final(self)@ == old(self)@.push(message),
    {
        self.queue.push_back(message);
        Ok(())
    }

    /// Takes the oldest message. The channel must hold one: its only sender is its owner, so a
    /// wait on an empty channel would never end.
    pub fn receive(&mut self) -> (r: Result<IpcMessage, IpcError>)
        requires
            old(self)@.len() > 0,
        ensures
            r == Ok::<IpcMessage, IpcError>(old(self)@[0]),
            final(self)@ == old(self)@.drop_first(),
    {
        match self.queue.pop_front() {
            Some(m) => Ok(m),
            None => Err(IpcError::ChannelError("Failed to receive message: channel empty".to_string())),
        }
    }

    /// Takes the oldest message if there is one.
    pub fn try_receive(&mut self) -> (r: Result<Option<IpcMessage>, IpcError>)
        ensures
            old(self)@.len() == 0 ==> r == Ok::<Option<IpcMessage>, IpcError>(None) && final(self)@ == old(self)@,
            old(self)@.len() > 0 ==> r == Ok::<Option<IpcMessage>, IpcError>(Some(old(self)@[0]))
                && final(self)@ == old(self)@.drop_first(),
    {
        Ok(self.queue.pop_front())
    }

    /// Takes the oldest message if there is one. Nothing else can send on this channel while the
    /// call holds it, so an empty channel stays empty through any wait: the answer is then
    /// `None` without waiting out `timeout`.
    pub fn receive_with_timeout(&mut self, timeout: std::time::Duration) -> (r: Result<Option<IpcMessage>, IpcError>)
        ensures
            old(self)@.len() == 0 ==> r == Ok::<Option<IpcMessage>, IpcError>(None) && final(self)@ == old(self)@,
            old(self)@.len() > 0 ==> r == Ok::<Option<IpcMessage>, IpcError>(Some(old(self)@[0]))
                && final(self)@ == old(self)@.drop_first(),
    {
        Ok(self.queue.pop_front())
    }
}

impl Default for IpcChannel {
    fn default() -> (r: IpcChannel)
        ensures
            r@ == Seq::<IpcMessage>::empty(),
    {
        IpcChannel::new()
    }
}

/// Messages are received in the order they were sent: after sending `sent` in order to a
/// channel holding `waiting`, receiving `waiting.len() + k` times gives, last, the `k`-th
/// message sent.
pub proof fn lemma_fifo(waiting: Seq<IpcMessage>, sent: Seq<IpcMessage>, k: int)
    requires
        0 <= k < sent.len(),
    ensures
        (waiting + sent).subrange(waiting.len() + k, (waiting + sent).len() as int)[0] == sent[k],
        (waiting + sent).subrange(waiting.len() as int, (waiting + sent).len() as int) == sent,
{
    assert((waiting + sent).subrange(waiting.len() as int, (waiting + sent).len() as int) =~= sent);
}

/// A broadcast channel: named receivers, each with its own inbox.
pub struct BroadcastChannel {
    receivers: NameMap<VecDeque<IpcMessage>>,
}

/// The inboxes of a map of queues, by receiver name.
pub open spec fn inbox_view(m: Map<Seq<char>, VecDeque<IpcMessage>>) -> Map<Seq<char>, Seq<IpcMessage>> {
    m.map_values(|q: VecDeque<IpcMessage>| q@)
}

/// Whether `after` is `before` with a copy of `message` added at the end of every inbox.
pub open spec fn delivered_to_all(
    before: Map<Seq<char>, Seq<IpcMessage>>,
    after: Map<Seq<char>, Seq<IpcMessage>>,
    message: IpcMessage,
) -> bool {
    &&& after.dom() == before.dom()
    &&& forall|k: Seq<char>| #[trigger] before.dom().contains(k) ==> {
        &&& after[k].len() == before[k].len() + 1
        &&& after[k].drop_last() == before[k]
        &&& same_message(message, after[k].last())
    }
}

impl View for BroadcastChannel {
    type V = Map<Seq<char>, Seq<IpcMessage>>;

    /// Each receiver's waiting messages, oldest first.
    closed spec fn view(&self) -> Map<Seq<char>, Seq<IpcMessage>> {
        inbox_view(self.receivers.view())
    }
}

impl BroadcastChannel {
    #[verifier::type_invariant]
    closed spec fn inv(self) -> bool {
        self.receivers.wf()
    }

    /// A channel without receivers.
    pub fn new() -> (r: BroadcastChannel)
        ensures
            r@ == Map::<Seq<char>, Seq<IpcMessage>>::empty(),
    {
        let r = BroadcastChannel { receivers: NameMap::new() };
        assert(r@ =~= Map::<Seq<char>, Seq<IpcMessage>>::empty());
        r
    }

    /// Adds a receiver named `name` with an empty inbox; one of that name is replaced.
    pub fn add_receiver(&mut self, name: &str)
        ensures
            final(self)@ == old(self)@.insert(name@, Seq::<IpcMessage>::empty()),
    {
        proof { use_type_invariant(&*self); }
        let mut receivers = NameMap::new();
        std::mem::swap(&mut receivers, &mut self.receivers);
        let ghost before = receivers.view();
        receivers.insert(name, VecDeque::new());
        proof {
            assert(inbox_view(receivers.view()) =~= inbox_view(before).insert(name@, Seq::<IpcMessage>::empty()));
        }
        self.receivers = receivers;
    }

    /// Puts a copy of `message` at the back of every receiver's inbox. Always succeeds.
    pub fn broadcast(&mut self, message: IpcMessage) -> (r: Result<(), IpcError>)
        ensures
            r is Ok,
            delivered_to_all(old(self)@, final(self)@, message),
    {
        proof { use_type_invariant(&*self); }
        let mut receivers = NameMap::new();
        std::mem::swap(&mut receivers, &mut self.receivers);
        let ghost before = inbox_view(receivers.view());
        let names = receivers.names_vec();
        let ghost order = receivers.names();
        let mut i: usize = 0;
        while i < names.len()
            invariant
                receivers.wf(),
                names@.map_values(|s: String| s@) == order,
                order.to_set() == before.dom(),
                order.no_duplicates(),
                i <= names@.len(),
                inbox_view(receivers.view()).dom() == before.dom(),
                forall|k: Seq<char>| #[trigger] before.dom().contains(k) ==> {
                    let done = order.subrange(0, i as int).contains(k);
                    &&& done ==> (inbox_view(receivers.view())[k].len() == before[k].len() + 1
                        && inbox_view(receivers.view())[k].drop_last() == before[k]
                        && same_message(message, inbox_view(receivers.view())[k].last()))
                    &&& !done ==> inbox_view(receivers.view())[k] == before[k]
                },
            decreases names@.len() - i,
        {
            let ghost cur = receivers.view();
            let ghost key = order[i as int];
            assert(names@.map_values(|s: String| s@)[i as int] == names@[i as int]@);
            assert(order.to_set().contains(key));
            let copy = message.duplicate();
            match receivers.get_mut(names[i].as_str()) {
                Some(q) => {
                    q.push_back(copy);
                },
                None => {},
            }
            proof {
                assert forall|k: Seq<char>| #[trigger] before.dom().contains(k) implies ({
                    let done = order.subrange(0, i + 1).contains(k);
                    &&& done ==> (inbox_view(receivers.view())[k].len() == before[k].len() + 1
                        && inbox_view(receivers.view())[k].drop_last() == before[k]
                        && same_message(message, inbox_view(receivers.view())[k].last()))
                    &&& !done ==> inbox_view(receivers.view())[k] == before[k]
                }) by {
                    if k == key {
                        assert(order.subrange(0, i + 1)[i as int] == k);
                        if order.subrange(0, i as int).contains(k) {
                            let j = choose|j: int| 0 <= j < i && #[trigger] order.subrange(0, i as int)[j] == k;
                            assert(order[j] == order[i as int]);
                        }
                        assert(inbox_view(cur)[k] == before[k]);
                        assert(inbox_view(receivers.view())[k] == inbox_view(cur)[k].push(copy));
                        assert(inbox_view(receivers.view())[k].drop_last() =~= before[k]);
                    } else {
                        assert(inbox_view(receivers.view())[k] == inbox_view(cur)[k]);
                        if order.subrange(0, i + 1).contains(k) {
                            let j = choose|j: int| 0 <= j < i + 1 && #[trigger] order.subrange(0, i + 1)[j] == k;
                            assert(j != i);
                            assert(order.subrange(0, i as int)[j] == k);
                        }
                        if order.subrange(0, i as int).contains(k) {
                            let j = choose|j: int| 0 <= j < i && #[trigger] order.subrange(0, i as int)[j] == k;
                            assert(order.subrange(0, i + 1)[j] == k);
                        }
                    }
                }
                assert(inbox_view(receivers.view()).dom() =~= before.dom());
            }
            i = i + 1;
        }
        proof {
            assert forall|k: Seq<char>| #[trigger] before.dom().contains(k) implies order.subrange(0, i as int).contains(k) by {
                assert(order.to_set().contains(k));
                let j = choose|j: int| 0 <= j < order.len() && #[trigger] order[j] == k;
                assert(order.subrange(0, i as int)[j] == k);
            }
        }
        self.receivers = receivers;
        Ok(())
    }

    /// Takes the oldest message in the inbox of receiver `name`: `None` when there is no such
    /// receiver or its inbox is empty.
    pub fn receive(&mut self, name: &str) -> (r: Option<IpcMessage>)
        ensures
            old(self)@.dom().contains(name@) && old(self)@[name@].len() > 0 ==> r == Some(old(self)@[name@][0])
                && final(self)@ == old(self)@.insert(name@, old(self)@[name@].drop_first()),
            !(old(self)@.dom().contains(name@) && old(self)@[name@].len() > 0) ==> r is None
                && final(self)@ == old(self)@,
    {
        proof { use_type_invariant(&*self); }
        let mut receivers = NameMap::new();
        std::mem::swap(&mut receivers, &mut self.receivers);
        let ghost before = receivers.view();
        let r = match receivers.get_mut(name) {
            Some(q) => q.pop_front(),
            None => None,
        };
        proof {
            if before.dom().contains(name@) && before[name@]@.len() > 0 {
                assert(inbox_view(receivers.view()) =~= inbox_view(before).insert(name@, inbox_view(before)[name@].drop_first()));
            } else if before.dom().contains(name@) {
                assert(inbox_view(receivers.view()) =~= inbox_view(before));
            }
        }
        self.receivers = receivers;
        r
    }
}

impl Default for BroadcastChannel {
    fn default() -> (r: BroadcastChannel)
        ensures
            r@ == Map::<Seq<char>, Seq<IpcMessage>>::empty(),
    {
        BroadcastChannel::new()
    }
}

proof fn lemma_channel_map_insert(m: Map<Seq<char>, IpcChannel>, k: Seq<char>, c: IpcChannel)
    ensures
        m.insert(k, c).map_values(|x: IpcChannel| x@) == m.map_values(|x: IpcChannel| x@).insert(k, c@),
{
    assert(m.insert(k, c).map_values(|x: IpcChannel| x@) =~= m.map_values(|x: IpcChannel| x@).insert(k, c@));
}

/// Named channels and named broadcast channels.
pub struct ChannelManager {
    channels: NameMap<IpcChannel>,
    broadcast_channels: NameMap<BroadcastChannel>,
}

/// The message of the error for a channel name that is already taken.
pub open spec fn channel_taken_message(name: Seq<char>) -> Seq<char> {
    "Channel '"@ + name + "' already exists"@
}

/// The message of the error for a broadcast channel name that is already taken.
pub open spec fn broadcast_taken_message(name: Seq<char>) -> Seq<char> {
    "Broadcast channel '"@ + name + "' already exists"@
}

/// The message of the error for a channel name that is not known.
pub open spec fn unknown_message(name: Seq<char>) -> Seq<char> {
    "Channel '"@ + name + "' not found"@
}

impl ChannelManager {
    /// Whether the manager is well formed: no name is used twice in a family.
    pub closed spec fn wf(self) -> bool {
        self.channels.wf() && self.broadcast_channels.wf()
    }

    /// The waiting messages of each channel, by name.
    pub closed spec fn channel_map(self) -> Map<Seq<char>, Seq<IpcMessage>> {
        self.channels.view().map_values(|c: IpcChannel| c@)
    }

    /// The names of the channels, in the order they were created.
    pub closed spec fn channel_order(self) -> Seq<Seq<char>> {
        self.channels.names()
    }

    /// The inboxes of each broadcast channel, by name.
    pub closed spec fn broadcast_map(self) -> Map<Seq<char>, Map<Seq<char>, Seq<IpcMessage>>> {
        self.broadcast_channels.view().map_values(|b: BroadcastChannel| b@)
    }

    /// The names of the broadcast channels, in the order they were created.
    pub closed spec fn broadcast_order(self) -> Seq<Seq<char>> {
        self.broadcast_channels.names()
    }

    /// A manager without channels.
    pub fn new() -> (r: ChannelManager)
        ensures
            r.wf(),
            r.channel_map() == Map::<Seq<char>, Seq<IpcMessage>>::empty(),
            r.broadcast_map() == Map::<Seq<char>, Map<Seq<char>, Seq<IpcMessage>>>::empty(),
            r.channel_order() == Seq::<Seq<char>>::empty(),
            r.broadcast_order() == Seq::<Seq<char>>::empty(),
    {
        let r = ChannelManager { channels: NameMap::new(), broadcast_channels: NameMap::new() };
        assert(r.channel_map() =~= Map::<Seq<char>, Seq<IpcMessage>>::empty());
        assert(r.broadcast_map() =~= Map::<Seq<char>, Map<Seq<char>, Seq<IpcMessage>>>::empty());
        r
    }

    /// Creates an empty channel named `name`; an error when the name is taken.
    pub fn create_channel(&mut self, name: &str) -> (r: Result<(), IpcError>)
        requires
            old(self).wf(),
        ensures
            final(self).wf(),
            final(self).broadcast_map() == old(self).broadcast_map(),
            final(self).broadcast_order() == old(self).broadcast_order(),
            old(self).channel_map().dom().contains(name@) ==> (r matches Err(IpcError::ChannelError(m))
                && m@ == channel_taken_message(name@)
                && final(self).channel_map() == old(self).channel_map()
                && final(self).channel_order() == old(self).channel_order()),
            !old(self).channel_map().dom().contains(name@) ==> (r is Ok
                && final(self).channel_map() == old(self).channel_map().insert(name@, Seq::<IpcMessage>::empty())
                && final(self).channel_order() == old(self).channel_order().push(name@)),
    {
        if self.channels.contains(name) {
            return Err(IpcError::ChannelError(concat3("Channel '", name, "' already exists")));
        }
        let ghost before = self.channels.view();
        self.channels.insert(name, IpcChannel::new());
        proof {
            assert(self.channel_map() =~= old(self).channel_map().insert(name@, Seq::<IpcMessage>::empty()));
        }
        Ok(())
    }

    /// The channel named `name`, to send and receive on; an error when there is none.
    pub fn get_channel(&mut self, name: &str) -> (r: Result<&mut IpcChannel, IpcError>)
        requires
            old(self).wf(),
        ensures
            final(self).wf(),
            final(self).broadcast_map() == old(self).broadcast_map(),
            final(self).broadcast_order() == old(self).broadcast_order(),
            final(self).channel_order() == old(self).channel_order(),
            old(self).channel_map().dom().contains(name@) ==> (r matches Ok(c)
                && c@ == old(self).channel_map()[name@]
                && final(self).channel_map() == old(self).channel_map().insert(name@, final(c)@)),
            !old(self).channel_map().dom().contains(name@) ==> (r matches Err(IpcError::ChannelError(m))
                && m@ == unknown_message(name@)
                && final(self).channel_map() == old(self).channel_map()),
    {
        let ghost before = *self;
        match self.channels.get_mut(name) {
            Some(c) => {
                proof {
                    lemma_channel_map_insert(before.channels.view(), name@, *final(c));
                }
                Ok(c)
            },
            None => Err(IpcError::ChannelError(concat3("Channel '", name, "' not found"))),
        }
    }

    /// Removes the channel named `name`; an error when there is none.
    pub fn remove_channel(&mut self, name: &str) -> (r: Result<(), IpcError>)
        requires
            old(self).wf(),
        ensures
            final(self).wf(),
            final(self).broadcast_map() == old(self).broadcast_map(),
            final(self).broadcast_order() == old(self).broadcast_order(),
            final(self).channel_map() == old(self).channel_map().remove(name@),
            old(self).channel_map().dom().contains(name@) <==> r is Ok,
            r matches Err(e) ==> (e matches IpcError::ChannelError(m) && m@ == unknown_message(name@)),
    {
        let removed = self.channels.remove(name);
        proof {
            assert(self.channel_map() =~= old(self).channel_map().remove(name@));
        }
        match removed {
            Some(_) => Ok(()),
            None => Err(IpcError::ChannelError(concat3("Channel '", name, "' not found"))),
        }
    }

    /// Creates a broadcast channel without receivers named `name`; an error when the name is
    /// taken.
    pub fn create_broadcast_channel(&mut self, name: &str) -> (r: Result<(), IpcError>)
        requires
            old(self).wf(),
        ensures
            final(self).wf(),
            final(self).channel_map() == old(self).channel_map(),
            final(self).channel_order() == old(self).channel_order(),
            old(self).broadcast_map().dom().contains(name@) ==> (r matches Err(IpcError::ChannelError(m))
                && m@ == broadcast_taken_message(name@)
                && final(self).broadcast_map() == old(self).broadcast_map()
                && final(self).broadcast_order() == old(self).broadcast_order()),
            !old(self).broadcast_map().dom().contains(name@) ==> (r is Ok
                && final(self).broadcast_map() == old(self).broadcast_map().insert(name@, Map::<Seq<char>, Seq<IpcMessage>>::empty())
                && final(self).broadcast_order() == old(self).broadcast_order().push(name@)),
    {
        if self.broadcast_channels.contains(name) {
            return Err(IpcError::ChannelError(concat3("Broadcast channel '", name, "' already exists")));
        }
        self.broadcast_channels.insert(name, BroadcastChannel::new());
        proof {
            assert(self.broadcast_map() =~= old(self).broadcast_map().insert(name@, Map::<Seq<char>, Seq<IpcMessage>>::empty()));
        }
        Ok(())
    }

    /// The names of the channels, each once, in the order they were created.
    pub fn list_channels(&self) -> (r: Vec<String>)
        requires
            self.wf(),
        ensures
            r@.map_values(|s: String| s@) == self.channel_order(),
            self.channel_order().to_set() == self.channel_map().dom(),
            self.channel_order().no_duplicates(),
    {
        let r = self.channels.names_vec();
        proof {
            assert(self.channel_map().dom() =~= self.channels.view().dom());
        }
        r
    }

    /// The names of the broadcast channels, each once, in the order they were created.
    pub fn list_broadcast_channels(&self) -> (r: Vec<String>)
        requires
            self.wf(),
        ensures
            r@.map_values(|s: String| s@) == self.broadcast_order(),
            self.broadcast_order().to_set() == self.broadcast_map().dom(),
            self.broadcast_order().no_duplicates(),
    {
        let r = self.broadcast_channels.names_vec();
        proof {
            assert(self.broadcast_map().dom() =~= self.broadcast_channels.view().dom());
        }
        r
    }
}

impl Default for ChannelManager {
    fn default() -> (r: ChannelManager)
        ensures
            r.wf(),
            r.channel_map() == Map::<Seq<char>, Seq<IpcMessage>>::empty(),
            r.broadcast_map() == Map::<Seq<char>, Map<Seq<char>, Seq<IpcMessage>>>::empty(),
            r.channel_order() == Seq::<Seq<char>>::empty(),
            r.broadcast_order() == Seq::<Seq<char>>::empty(),
    {
        ChannelManager::new()
    }
}

} // verus!

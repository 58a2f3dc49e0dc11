//! Connect and disconnect events, and the channels that carry them to subscribers.
use crate::device::{DeviceView, UsbDevice};
use vstd::prelude::*;

verus! {

/// A connect or disconnect event.
#[derive(Debug)]
pub enum UsbConnectionEvent {
    Connect(UsbDevice),
    Disconnect {
        /// The [`UsbDevice`] id of the disconnected device.
        id: u64,
        vendor_id: u16,
        product_id: u16,
    },
}

/// View of a [`UsbConnectionEvent`].
#[verifier::ext_equal]
pub enum EventView {
    Connect(DeviceView),
    Disconnect { id: u64, vendor_id: u16, product_id: u16 },
}

impl View for UsbConnectionEvent {
    type V = EventView;

    open spec fn view(&self) -> EventView {
        match *self {
            UsbConnectionEvent::Connect(device) => EventView::Connect(device@),
            UsbConnectionEvent::Disconnect { id, vendor_id, product_id } => EventView::Disconnect {
                id,
                vendor_id,
                product_id,
            },
        }
    }
}

impl Clone for UsbConnectionEvent {
    fn clone(&self) -> (copy: Self)
        ensures
            copy@ == self@,
    {
        match self {
            UsbConnectionEvent::Connect(device) => UsbConnectionEvent::Connect(device.clone()),
            UsbConnectionEvent::Disconnect { id, vendor_id, product_id } => {
                UsbConnectionEvent::Disconnect {
                    id: *id,
                    vendor_id: *vendor_id,
                    product_id: *product_id,
                }
            },
        }
    }
}

/// The sending side of an `async_channel` channel, opaque here.
#[verifier::external_type_specification]
#[verifier::external_body]
#[verifier::reject_recursive_types(T)]
pub struct ExSender<T>(async_channel::Sender<T>);

/// The receiving side of an `async_channel` channel, opaque here.
#[verifier::external_type_specification]
#[verifier::external_body]
#[verifier::reject_recursive_types(T)]
pub struct ExReceiver<T>(async_channel::Receiver<T>);

/// The events that a sending side has put into its channel, oldest first, whether or not they
/// have been received since.
pub uninterp spec fn sent(sender: async_channel::Sender<UsbConnectionEvent>) -> Seq<EventView>;

/// The events that a sending side was handed to send, oldest first, whether or not the channel
/// took them.
pub uninterp spec fn handed(sender: async_channel::Sender<UsbConnectionEvent>) -> Seq<EventView>;

/// The channel that a sending side feeds.
pub uninterp spec fn sender_channel(sender: async_channel::Sender<UsbConnectionEvent>) -> int;

/// The channel that a receiving side reads.
pub uninterp spec fn receiver_channel(receiver: async_channel::Receiver<UsbConnectionEvent>) -> int;

/// Calls `async_channel::unbounded`. Claims that both sides belong to one channel, and that
/// nothing has been handed to the new sending side. When the events that are sent are taken out
/// at the receiving side is left unsaid: that is up to whoever holds it.
#[verifier::external_body]
fn open_channel() -> (ends: (
    async_channel::Sender<UsbConnectionEvent>,
    async_channel::Receiver<UsbConnectionEvent>,
))
    ensures
        sender_channel(ends.0) == receiver_channel(ends.1),
        sent(ends.0) == Seq::<EventView>::empty(),
        handed(ends.0) == Seq::<EventView>::empty(),
{
    async_channel::unbounded()
}

/// Calls `async_channel::Sender::try_send`. Claims that the event was handed over, to the same
/// channel as ever; that it is in the channel, behind all sent before it, where the call succeeds;
/// and that nothing was sent where it fails. Which of the two happens is left unsaid: it depends
/// on whether a receiver is still there.
#[verifier::external_body]
fn try_send(
    sender: &mut async_channel::Sender<UsbConnectionEvent>,
    event: UsbConnectionEvent,
) -> (accepted: bool)
    ensures
        sender_channel(*final(sender)) == sender_channel(*old(sender)),
        handed(*final(sender)) == handed(*old(sender)).push(event@),
        accepted ==> sent(*final(sender)) == sent(*old(sender)).push(event@),
        !accepted ==> sent(*final(sender)) == sent(*old(sender)),
{
    sender.try_send(event).is_ok()
}

/// Stream of [`UsbConnectionEvent`]s: the receiving side of a subscription.
pub struct UsbEvents {
    pub receiver: async_channel::Receiver<UsbConnectionEvent>,
}

impl View for UsbEvents {
    type V = int;

    /// The channel that the stream reads.
    open spec fn view(&self) -> int {
        receiver_channel(self.receiver)
    }
}

/// View of a subscription: the channel of its stream, the events that were handed to it, and
/// those of them that are in the channel.
#[verifier::ext_equal]
pub struct SubscriptionView {
    pub channel: int,
    pub handed: Seq<EventView>,
    pub sent: Seq<EventView>,
}

/// The subscription of a stream that nothing has been sent to.
pub open spec fn new_subscription(channel: int) -> SubscriptionView {
    SubscriptionView { channel, handed: Seq::empty(), sent: Seq::empty() }
}

/// The subscription behind a sending side.
pub open spec fn subscription_of(
    sender: async_channel::Sender<UsbConnectionEvent>,
) -> SubscriptionView {
    SubscriptionView {
        channel: sender_channel(sender),
        handed: handed(sender),
        sent: sent(sender),
    }
}

impl SubscriptionView {
    /// The subscription after an event was handed to it.
    pub open spec fn after_offer(self, event: EventView, accepted: bool) -> SubscriptionView {
        SubscriptionView {
            channel: self.channel,
            handed: self.handed.push(event),
            sent: if accepted {
                self.sent.push(event)
            } else {
                self.sent
            },
        }
    }
}

/// The sending sides of all subscriptions, in the order in which they were made.
pub struct Subscribers {
    senders: Vec<async_channel::Sender<UsbConnectionEvent>>,
}

impl View for Subscribers {
    type V = Seq<SubscriptionView>;

    closed spec fn view(&self) -> Seq<SubscriptionView> {
        Seq::new(self.senders@.len(), |i: int| subscription_of(self.senders@[i]))
    }
}

/// The items at the places marked with `true`, in their order.
pub open spec fn survivors<T>(items: Seq<T>, keep: Seq<bool>) -> Seq<T>
    decreases items.len(),
{
    if items.len() == 0 {
        Seq::empty()
    } else if keep[items.len() - 1] {
        survivors(items.drop_last(), keep).push(items.last())
    } else {
        survivors(items.drop_last(), keep)
    }
}

/// The marks, turned round.
pub open spec fn inverted(keep: Seq<bool>) -> Seq<bool> {
    Seq::new(keep.len(), |i: int| !keep[i])
}

/// The subscriptions after the event has been offered to each: all were handed it, and those that
/// accepted it have it.
pub open spec fn offered(
    before: Seq<SubscriptionView>,
    accepted: Seq<bool>,
    event: EventView,
) -> Seq<SubscriptionView> {
    Seq::new(before.len(), |i: int| before[i].after_offer(event, accepted[i]))
}

/// The subscriptions that are still there once the event has been offered to each of them: those
/// that accepted it, and no others, in their order.
pub open spec fn delivered(
    before: Seq<SubscriptionView>,
    accepted: Seq<bool>,
    event: EventView,
) -> Seq<SubscriptionView> {
    survivors(offered(before, accepted, event), accepted)
}

/// The subscriptions that are gone once the event has been offered to each of them: those that
/// did not accept it, in their order.
pub open spec fn refused(
    before: Seq<SubscriptionView>,
    accepted: Seq<bool>,
    event: EventView,
) -> Seq<SubscriptionView> {
    survivors(offered(before, accepted, event), inverted(accepted))
}

/// Every subscription was handed the event. For some answers of theirs, those that accepted it are
/// still there, and those that refused it are gone, both in their order.
pub open spec fn announced(
    before: Seq<SubscriptionView>,
    after: Seq<SubscriptionView>,
    gone: Seq<SubscriptionView>,
    event: EventView,
) -> bool {
    exists|accepted: Seq<bool>|
        {
            &&& accepted.len() == before.len()
            &&& after == #[trigger] delivered(before, accepted, event)
            &&& gone == refused(before, accepted, event)
        }
}

impl Subscribers {
    /// No subscription.
    pub fn new() -> (subscribers: Self)
        ensures
            subscribers@ == Seq::<SubscriptionView>::empty(),
    {
        let subscribers = Subscribers { senders: Vec::new() };
        assert(subscribers@ =~= Seq::<SubscriptionView>::empty());
        subscribers
    }

    /// Add a subscription, to which nothing has been sent yet, and give out its stream.
    pub fn subscribe(&mut self) -> (events: UsbEvents)
        ensures
            final(self)@ == old(self)@.push(new_subscription(events@)),
    {
        let (sender, receiver) = open_channel();
        let events = UsbEvents { receiver };
        assert(subscription_of(sender) =~= new_subscription(events@));
        self.senders.push(sender);
        assert(self@ =~= old(self)@.push(new_subscription(events@)));
        events
    }

    /// Offer the event to every subscription; the answer says which of them accepted it.
    pub fn offer(&mut self, event: &UsbConnectionEvent) -> (accepted: Vec<bool>)
        ensures
            accepted@.len() == old(self)@.len(),
            final(self)@ == offered(old(self)@, accepted@, event@),
    {
        let ghost before = self@;
        let mut accepted: Vec<bool> = Vec::new();
        let mut i: usize = 0;
        while i < self.senders.len()
            invariant
                i == accepted@.len(),
                i <= self.senders@.len(),
                self.senders@.len() == before.len(),
                forall|k: int|
                    0 <= k < i ==> subscription_of(#[trigger] self.senders@[k])
                        == before[k].after_offer(event@, accepted@[k]),
                forall|k: int|
                    i <= k < before.len() ==> subscription_of(#[trigger] self.senders@[k])
                        == before[k],
            decreases self.senders@.len() - i,
        {
            assert(subscription_of(self.senders@[i as int]) == before[i as int]);
            let taken = try_send(&mut self.senders[i], event.clone());
            accepted.push(taken);
            i = i + 1;
        }
        assert(self@ =~= offered(before, accepted@, event@));
        accepted
    }

    /// Take out the subscriptions that are not marked as having accepted, and give them back.
    pub fn retain_accepted(&mut self, accepted: &Vec<bool>) -> (gone: Subscribers)
        requires
            accepted@.len() == old(self)@.len(),
        ensures
            final(self)@ == survivors(old(self)@, accepted@),
            gone@ == survivors(old(self)@, inverted(accepted@)),
    {
        let ghost before = self@;
        let ghost dropped = inverted(accepted@);
        let mut gone = Subscribers::new();
        let mut next: usize = 0;
        let mut i: usize = 0;
        assert(before.take(0) =~= Seq::<SubscriptionView>::empty());
        while next < accepted.len()
            invariant
                next <= accepted@.len(),
                accepted@.len() == before.len(),
                dropped == inverted(accepted@),
                i <= next,
                self.senders@.len() - i == before.len() - next,
                self@.take(i as int) == survivors(before.take(next as int), accepted@),
                gone@ == survivors(before.take(next as int), dropped),
                forall|k: int|
                    i <= k < self.senders@.len() ==> subscription_of(#[trigger] self.senders@[k])
                        == before[k - i + next],
            decreases accepted@.len() - next,
        {
            let ghost earlier = self@;
            let ghost gone_before = gone@;
            assert(before.take(next + 1).drop_last() =~= before.take(next as int));
            assert(subscription_of(self.senders@[i as int]) == before[next as int]);
            if accepted[next] {
                i = i + 1;
                assert(self@.take(i as int) =~= earlier.take(i - 1).push(before[next as int]));
            } else {
                let sender = self.senders.remove(i);
                gone.senders.push(sender);
                assert(self@.take(i as int) =~= earlier.take(i as int));
                assert(gone@ =~= gone_before.push(before[next as int]));
            }
            next = next + 1;
        }
        assert(self@.take(i as int) =~= self@);
        assert(before.take(next as int) =~= before);
        gone
    }

    /// Send the event to every subscription, and give back those that no longer take it.
    pub fn broadcast(&mut self, event: &UsbConnectionEvent) -> (gone: Subscribers)
        ensures
            announced(old(self)@, final(self)@, gone@, event@),
    {
        let ghost before = self@;
        let accepted = self.offer(event);
        let gone = self.retain_accepted(&accepted);
        assert(self@ == delivered(before, accepted@, event@));
        assert(gone@ == refused(before, accepted@, event@));
        gone
    }
}

} // verus!

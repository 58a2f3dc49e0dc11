//! Laws of the mock bus: what plugging in, unplugging, halting and watching do, and how a device
//! on the bus answers, in terms of what is on the bus.
use crate::device::DeviceView;
use crate::error::Error;
use crate::events::{announced, delivered, inverted, new_subscription, offered, refused, EventView,
    SubscriptionView};
use crate::laws::bus::{law_accepting_streams_get_the_event, marks_before};
use crate::laws::identity::{law_device_shows_its_data, shows_data};
use crate::laws::outcomes::{is_start_of, lemma_plugged, lemma_plugged_or_not,
    only_device_changed, only_written, plugged_at, unplugged};
use crate::mock::{adds_device, after_mock_clear_halt, after_mock_control_write, after_mock_write,
    delivers, empty_bus, halts, mock_control_read, mock_control_write, mock_device, mock_read,
    mock_write, removes_device, subscribes, tells_written, write_log, BusView,
    MockConfigView};
use crate::transfer::TransferOutcome;
use crate::types::{Direction, UsbControlTransferParameters};
use vstd::prelude::*;

verus! {

/// The subscription was handed the event and has it, behind all that it had.
pub open spec fn took(
    before: SubscriptionView,
    after: SubscriptionView,
    event: EventView,
) -> bool {
    &&& after.channel == before.channel
    &&& after.handed == before.handed.push(event)
    &&& after.sent == before.sent.push(event)
}

/// The subscription was handed the event and has no more than it had.
pub open spec fn missed(
    before: SubscriptionView,
    after: SubscriptionView,
    event: EventView,
) -> bool {
    &&& after.channel == before.channel
    &&& after.handed == before.handed.push(event)
    &&& after.sent == before.sent
}

/// With those answers: each subscription that took the event is still there, and each that missed
/// it is gone, both in their order, and there are no others.
pub open spec fn sorted_by_answer(
    before: Seq<SubscriptionView>,
    after: Seq<SubscriptionView>,
    gone: Seq<SubscriptionView>,
    event: EventView,
    accepted: Seq<bool>,
) -> bool {
    &&& accepted.len() == before.len()
    &&& after.len() == marks_before(accepted, before.len() as int)
    &&& gone.len() == before.len() - after.len()
    &&& forall|i: int|
        0 <= i < before.len() && #[trigger] accepted[i] ==> {
            let place = marks_before(accepted, i) as int;
            place < after.len() && took(before[i], after[place], event)
        }
    &&& forall|i: int|
        0 <= i < before.len() && !#[trigger] accepted[i] ==> {
            let place = i - marks_before(accepted, i);
            0 <= place < gone.len() && missed(before[i], gone[place], event)
        }
}

/// Every subscription was handed the event, and for some answers of theirs they are sorted by
/// them.
pub open spec fn reaches_all(
    before: Seq<SubscriptionView>,
    after: Seq<SubscriptionView>,
    gone: Seq<SubscriptionView>,
    event: EventView,
) -> bool {
    exists|accepted: Seq<bool>| #[trigger] sorted_by_answer(before, after, gone, event, accepted)
}

/// Places that are marked and places that are not add up.
proof fn lemma_unmarked_before(keep: Seq<bool>, n: int)
    requires
        0 <= n <= keep.len(),
    ensures
        marks_before(inverted(keep), n) == n - marks_before(keep, n),
    decreases n,
{
    if n > 0 {
        lemma_unmarked_before(keep, n - 1);
    }
}

/// An event that is offered is recorded as handed to every subscription, and as sent to those that
/// accepted it, each on its own channel; a new subscription was handed nothing.
pub proof fn law_offer_is_recorded(
    before: Seq<SubscriptionView>,
    accepted: Seq<bool>,
    event: EventView,
    channel: int,
    i: int,
)
    requires
        accepted.len() == before.len(),
    ensures
        offered(before, accepted, event).len() == before.len(),
        0 <= i < before.len() && accepted[i] ==> took(
            before[i],
            offered(before, accepted, event)[i],
            event,
        ),
        0 <= i < before.len() && !accepted[i] ==> missed(
            before[i],
            offered(before, accepted, event)[i],
            event,
        ),
        new_subscription(channel).channel == channel,
        new_subscription(channel).handed.len() == 0,
        new_subscription(channel).sent.len() == 0,
{
}

/// An event that is announced reaches every subscription: those that take it keep their order, and
/// those that refuse it are gone.
pub proof fn law_announcement_reaches_all(
    before: Seq<SubscriptionView>,
    after: Seq<SubscriptionView>,
    gone: Seq<SubscriptionView>,
    event: EventView,
)
    requires
        announced(before, after, gone, event),
    ensures
        reaches_all(before, after, gone, event),
{
    let accepted = choose|accepted: Seq<bool>|
        {
            &&& accepted.len() == before.len()
            &&& after == #[trigger] delivered(before, accepted, event)
            &&& gone == refused(before, accepted, event)
        };
    law_accepting_streams_get_the_event(before, accepted, event);
    assert forall|i: int| 0 <= i < before.len() && !#[trigger] accepted[i] implies {
        let place = i - marks_before(accepted, i);
        0 <= place < gone.len() && missed(before[i], gone[place], event)
    } by {
        lemma_unmarked_before(accepted, i);
    }
    assert(sorted_by_answer(before, after, gone, event, accepted));
}

/// A bus starts without devices and without subscriptions.
pub proof fn law_new_bus_is_empty()
    ensures
        empty_bus().devices.len() == 0,
        empty_bus().subscribers.len() == 0,
        empty_bus().gone.len() == 0,
{
}

/// A device that is connected gets the next id, stands last on the bus as it is set up, with
/// exactly the endpoints halted that it is set up to and nothing written, and is announced with
/// every field of its data. Every other device is as it was.
pub proof fn law_add_device(
    before: BusView,
    next: u64,
    config: MockConfigView,
    id: u64,
    after: BusView,
    after_next: u64,
    address: u8,
    i: int,
)
    requires
        adds_device(before, next, config, id, after, after_next),
    ensures
        id == next,
        after_next == (if next == 0xFFFF_FFFF_FFFF_FFFFu64 {
            0int
        } else {
            next + 1
        }),
        after.devices.len() == before.devices.len() + 1,
        0 <= i < before.devices.len() ==> after.devices[i] == before.devices[i],
        ({
            let (last_id, last) = after.devices[before.devices.len() as int];
            &&& last_id == id
            &&& last.config == config
            &&& last.written.len() == 0
            &&& last.halted.contains(address) <==> exists|k: int|
                0 <= k < config.stalled_endpoints.len() && #[trigger] config.stalled_endpoints[k]
                    == address
        }),
        exists|device: DeviceView|
            shows_data(device, id, config.data) && #[trigger] reaches_all(
                before.subscribers,
                after.subscribers,
                after.gone,
                EventView::Connect(device),
            ),
{
    law_device_shows_its_data(id, config.data);
    law_announcement_reaches_all(
        before.subscribers,
        after.subscribers,
        after.gone,
        EventView::Connect(mock_device(id, config)),
    );
    if config.stalled_endpoints.contains(address) {
        let k = choose|k: int|
            0 <= k < config.stalled_endpoints.len() && config.stalled_endpoints[k] == address;
        assert(config.stalled_endpoints[k] == address);
    }
}

/// Disconnecting a device that is not on the bus finds nothing and changes nothing. One that is
/// there is taken out, the others keep their order and their states, and its removal is announced
/// under its id with its vendor and product.
pub proof fn law_remove_device(
    before: BusView,
    id: u64,
    result: Result<(), Error>,
    after: BusView,
    k: int,
    i: int,
)
    requires
        removes_device(before, id, result, after),
    ensures
        unplugged(before, id) ==> result == Err::<(), Error>(Error::NotFound) && after == before,
        plugged_at(before, id, k) ==> {
            &&& result == Ok::<(), Error>(())
            &&& after.devices.len() == before.devices.len() - 1
            &&& 0 <= i < k ==> after.devices[i] == before.devices[i]
            &&& k < i < before.devices.len() ==> after.devices[i - 1] == before.devices[i]
            &&& reaches_all(
                before.subscribers,
                after.subscribers,
                after.gone,
                EventView::Disconnect {
                    id,
                    vendor_id: before.devices[k].1.config.data.vendor_id,
                    product_id: before.devices[k].1.config.data.product_id,
                },
            )
        },
{
    lemma_plugged(before, id, k);
    if plugged_at(before, id, k) {
        law_announcement_reaches_all(
            before.subscribers,
            after.subscribers,
            after.gone,
            EventView::Disconnect {
                id,
                vendor_id: before.devices[k].1.config.data.vendor_id,
                product_id: before.devices[k].1.config.data.product_id,
            },
        );
    }
}

/// Halting an endpoint of a device that is not on the bus finds nothing and changes nothing. For
/// one that is there, that endpoint is halted and nothing else changes.
pub proof fn law_halt_endpoint(
    before: BusView,
    id: u64,
    address: u8,
    result: Result<(), Error>,
    after: BusView,
    k: int,
)
    requires
        halts(before, id, address, result, after),
    ensures
        unplugged(before, id) ==> result == Err::<(), Error>(Error::NotFound) && after == before,
        plugged_at(before, id, k) ==> {
            let old_state = before.devices[k].1;
            let new_state = after.devices[k].1;
            &&& result == Ok::<(), Error>(())
            &&& only_device_changed(before, after, k)
            &&& new_state.written == old_state.written
            &&& new_state.halted.contains(address)
            &&& forall|other: u8|
                other != address ==> (#[trigger] new_state.halted.contains(other)
                    <==> old_state.halted.contains(other))
        },
{
    lemma_plugged(before, id, k);
    lemma_plugged_or_not(before, id);
}

/// Of a device on the bus all that was written to it can be asked for, each write with its
/// endpoint number and its bytes, in order; of any other, nothing.
pub proof fn law_written(bus: BusView, id: u64, result: Result<Vec<(u8, Vec<u8>)>, Error>, k: int)
    requires
        tells_written(bus, id, result),
    ensures
        unplugged(bus, id) ==> result == Err::<Vec<(u8, Vec<u8>)>, Error>(Error::NotFound),
        plugged_at(bus, id, k) ==> {
            let log = bus.devices[k].1.written;
            &&& result is Ok
            &&& result->Ok_0@.len() == log.len()
            &&& forall|i: int|
                0 <= i < log.len() ==> {
                    &&& (#[trigger] result->Ok_0@[i]).0 == log[i].0
                    &&& result->Ok_0@[i].1@ == log[i].1
                }
        },
{
    lemma_plugged(bus, id, k);
    if plugged_at(bus, id, k) {
        let log = bus.devices[k].1.written;
        let told = result->Ok_0@;
        assert(write_log(told).len() == told.len());
        assert forall|i: int| 0 <= i < log.len() implies {
            &&& (#[trigger] told[i]).0 == log[i].0
            &&& told[i].1@ == log[i].1
        } by {
            assert(write_log(told)[i] == (told[i].0, told[i].1@));
        }
    }
}

/// A new subscription stands behind the others, on the channel of its stream, with nothing handed
/// to it; nothing else changes.
pub proof fn law_subscribe(before: BusView, channel: int, after: BusView, i: int)
    requires
        subscribes(before, channel, after),
    ensures
        after.devices == before.devices,
        after.gone == before.gone,
        after.subscribers.len() == before.subscribers.len() + 1,
        0 <= i < before.subscribers.len() ==> after.subscribers[i] == before.subscribers[i],
        after.subscribers.last().channel == channel,
        after.subscribers.last().handed.len() == 0,
        after.subscribers.last().sent.len() == 0,
{
}

/// Ending the subscriptions leaves none, also of those that refused an event, and leaves every
/// device as it is.
pub proof fn law_subscriptions_end(bus: BusView)
    ensures
        bus.without_subscriptions().subscribers.len() == 0,
        bus.without_subscriptions().gone.len() == 0,
        bus.without_subscriptions().devices == bus.devices,
{
}

/// An enumeration lists every device on the bus at its place, with every field of its data,
/// closed.
pub proof fn law_listing_shows_the_bus(bus: BusView, i: int)
    ensures
        bus.listing().len() == bus.devices.len(),
        0 <= i < bus.devices.len() ==> shows_data(
            bus.listing()[i],
            bus.devices[i].0,
            bus.devices[i].1.config.data,
        ),
{
    if 0 <= i < bus.devices.len() {
        law_device_shows_its_data(bus.devices[i].0, bus.devices[i].1.config.data);
    }
}


/// A device that is not on the bus answers a transfer in as disconnected. One that is there stalls
/// on an endpoint that is halted, babbles on one that is set up to, and else gives the start of
/// what it is set up with for the endpoint, as much as was asked for, or nothing where it is set up
/// with nothing.
pub proof fn law_mock_transfer_in(
    bus: BusView,
    id: u64,
    endpoint_number: u8,
    length: nat,
    reply: Result<TransferOutcome<Vec<u8>>, Error>,
    k: int,
)
    requires
        delivers(reply, mock_read(bus, id, endpoint_number, length)),
    ensures
        unplugged(bus, id) ==> reply == Err::<TransferOutcome<Vec<u8>>, Error>(
            Error::Disconnected,
        ),
        plugged_at(bus, id, k) ==> {
            let state = bus.devices[k].1;
            let address = 0x80u8 | endpoint_number;
            let halted = state.halted.contains(address);
            let babbles = state.config.babble_endpoints.contains(address);
            &&& halted ==> reply == Ok::<_, Error>(TransferOutcome::<Vec<u8>>::Stall)
            &&& !halted && babbles ==> reply == Ok::<_, Error>(TransferOutcome::<Vec<u8>>::Babble)
            &&& !halted && !babbles ==> {
                &&& reply is Ok
                &&& reply->Ok_0 is Completed
                &&& state.config.in_data.contains_key(endpoint_number) ==> is_start_of(
                    reply->Ok_0->Completed_0@,
                    state.config.in_data[endpoint_number],
                    length,
                )
                &&& !state.config.in_data.contains_key(endpoint_number)
                    ==> reply->Ok_0->Completed_0@.len() == 0
            }
        },
{
    lemma_plugged(bus, id, k);
}

/// A device that is not on the bus answers a transfer out as disconnected. One that is there
/// stalls on an endpoint that is halted, babbles on one that is set up to, and else takes all of
/// the data and logs it under the number of the endpoint.
pub proof fn law_mock_transfer_out(
    bus: BusView,
    id: u64,
    endpoint_number: u8,
    data: Seq<u8>,
    k: int,
)
    requires
        data.len() <= usize::MAX,
    ensures
        ({
            let reply = mock_write(bus, id, endpoint_number, data);
            let after = after_mock_write(bus, id, endpoint_number, data);
            &&& unplugged(bus, id) ==> reply == Err::<TransferOutcome<usize>, Error>(
                Error::Disconnected,
            ) && after == bus
            &&& plugged_at(bus, id, k) ==> {
                let state = bus.devices[k].1;
                let halted = state.halted.contains(endpoint_number);
                let babbles = state.config.babble_endpoints.contains(endpoint_number);
                &&& halted ==> reply == Ok::<_, Error>(TransferOutcome::<usize>::Stall) && after
                    == bus
                &&& !halted && babbles ==> reply == Ok::<_, Error>(
                    TransferOutcome::<usize>::Babble,
                ) && after == bus
                &&& !halted && !babbles ==> {
                    &&& reply is Ok
                    &&& reply->Ok_0 is Completed
                    &&& reply->Ok_0->Completed_0 == data.len()
                    &&& only_written(bus, after, k, endpoint_number, data)
                }
            }
        }),
{
    lemma_plugged(bus, id, k);
    assert(0u8 | endpoint_number == endpoint_number) by (bit_vector);
    if plugged_at(bus, id, k) {
        assert(bus.devices.update(k, bus.devices[k]) =~= bus.devices);
    }
}

/// A device that is on the bus answers a control transfer in with as many bytes as were asked for:
/// the request, the value and the index, low bytes first, over and over. It takes all of the data
/// of a control transfer out and logs it under endpoint 0. One that is not there answers both as
/// disconnected.
pub proof fn law_mock_control_transfers(
    bus: BusView,
    id: u64,
    setup: UsbControlTransferParameters,
    length: nat,
    reply: Result<TransferOutcome<Vec<u8>>, Error>,
    data: Seq<u8>,
    k: int,
    b: int,
)
    requires
        delivers(reply, mock_control_read(bus, id, setup, length)),
        data.len() <= usize::MAX,
    ensures
        unplugged(bus, id) ==> {
            &&& reply == Err::<TransferOutcome<Vec<u8>>, Error>(Error::Disconnected)
            &&& mock_control_write(bus, id, data) == Err::<TransferOutcome<usize>, Error>(
                Error::Disconnected,
            )
            &&& after_mock_control_write(bus, id, data) == bus
        },
        plugged_at(bus, id, k) ==> {
            let answer = mock_control_write(bus, id, data);
            &&& reply is Ok
            &&& reply->Ok_0 is Completed
            &&& reply->Ok_0->Completed_0@.len() == length
            &&& 0 <= b < length ==> reply->Ok_0->Completed_0@[b] == (if b % 5 == 0 {
                setup.request
            } else if b % 5 == 1 {
                (setup.value & 0xFF) as u8
            } else if b % 5 == 2 {
                (setup.value >> 8) as u8
            } else if b % 5 == 3 {
                (setup.index & 0xFF) as u8
            } else {
                (setup.index >> 8) as u8
            })
            &&& answer is Ok
            &&& answer->Ok_0 is Completed
            &&& answer->Ok_0->Completed_0 == data.len()
            &&& only_written(bus, after_mock_control_write(bus, id, data), k, 0, data)
        },
{
    lemma_plugged(bus, id, k);
    let value = setup.value;
    let index = setup.index;
    assert(value & 0xFF == value % 256 && value >> 8 == value / 256) by (bit_vector);
    assert(index & 0xFF == index % 256 && index >> 8 == index / 256) by (bit_vector);
}

/// Clearing a halt takes the address of that endpoint, with the top bit set for an IN endpoint,
/// out of what is halted on that device, and changes nothing else; without the device it changes
/// nothing.
pub proof fn law_mock_clear_halt(
    bus: BusView,
    id: u64,
    direction: Direction,
    endpoint_number: u8,
    k: int,
)
    ensures
        ({
            let after = after_mock_clear_halt(bus, id, direction, endpoint_number);
            let address = if direction == Direction::In {
                0x80u8 | endpoint_number
            } else {
                endpoint_number
            };
            &&& unplugged(bus, id) ==> after == bus
            &&& plugged_at(bus, id, k) ==> {
                &&& only_device_changed(bus, after, k)
                &&& after.devices[k].1.written == bus.devices[k].1.written
                &&& !after.devices[k].1.halted.contains(address)
                &&& forall|other: u8|
                    other != address ==> (#[trigger] after.devices[k].1.halted.contains(other)
                        <==> bus.devices[k].1.halted.contains(other))
            }
        }),
{
    lemma_plugged(bus, id, k);
    assert(0u8 | endpoint_number == endpoint_number) by (bit_vector);
}

/// A device answers as there just where it stands on the bus.
pub proof fn law_connection(bus: BusView, id: u64)
    ensures
        unplugged(bus, id) ==> bus.connection(id) == Err::<(), Error>(Error::Disconnected),
        !unplugged(bus, id) ==> bus.connection(id) == Ok::<(), Error>(()),
{
    lemma_plugged_or_not(bus, id);
}

} // verus!

//! Laws of the mock bus: what transfers, halts and unplugging do to it.
use crate::error::Error;
use crate::events::{announced, delivered, inverted, offered, refused, survivors, EventView,
    SubscriptionView};
use crate::ids::next_id;
use crate::mock::{after_mock_clear_halt, after_mock_control_write, after_mock_write,
    mock_control_read, mock_control_write, mock_device, mock_read, mock_write, setup_bytes,
    setup_echo, BusView, MockConfigView, MockStateView};
use crate::search::{lemma_first_index, lemma_first_index_absent, lemma_first_index_found};
use crate::transfer::TransferOutcome;
use crate::types::{spec_endpoint_address, Direction, UsbControlTransferParameters,
    UsbTransferStatus};
use vstd::prelude::*;

verus! {

/// A new state for a device that is there leaves the devices at their places, and is the state of
/// that device from then on; every other device keeps its state.
pub proof fn law_state_is_kept(bus: BusView, id: u64, state: MockStateView, other: u64)
    ensures
        bus.with_state(id, state).ids() == bus.ids(),
        bus.with_state(id, state).index_of(other) == bus.index_of(other),
        bus.connected(id) ==> bus.with_state(id, state).state_of(id) == state,
        other != id && bus.connected(other) ==> bus.with_state(id, state).state_of(other)
            == bus.state_of(other),
{
    let after = bus.with_state(id, state);
    lemma_first_index(bus.ids(), id);
    lemma_first_index(bus.ids(), other);
    assert(after.ids() =~= bus.ids());
    if other != id {
        if let (Some(i), Some(k)) = (bus.index_of(id), bus.index_of(other)) {
            assert(bus.ids()[i] != bus.ids()[k]);
        }
    }
}

/// A transfer out that completes is reported as having written all of its data, and is added to
/// what was written to that device, behind all that was written before; halts, and every other
/// device, are as they were.
pub proof fn law_write_is_recorded(
    bus: BusView,
    id: u64,
    endpoint_number: u8,
    data: Seq<u8>,
    other: u64,
)
    requires
        bus.connected(id),
        bus.state_of(id).write_status(endpoint_number) == UsbTransferStatus::Completed,
        data.len() <= usize::MAX,
    ensures
        mock_write(bus, id, endpoint_number, data) == Ok::<TransferOutcome<usize>, Error>(
            TransferOutcome::Completed(data.len() as usize),
        ),
        ({
            let after = after_mock_write(bus, id, endpoint_number, data);
            &&& after.connected(id)
            &&& after.state_of(id).written == bus.state_of(id).written.push(
                (endpoint_number, data),
            )
            &&& after.state_of(id).halted == bus.state_of(id).halted
            &&& other != id && bus.connected(other) ==> after.state_of(other)
                == bus.state_of(other)
        }),
{
    let state = bus.state_of(id).after_transfer_out(endpoint_number, data);
    law_state_is_kept(bus, id, state, id);
    law_state_is_kept(bus, id, state, other);
}

/// A transfer out that stalls or babbles writes nothing.
pub proof fn law_refused_write_leaves_no_trace(
    bus: BusView,
    id: u64,
    endpoint_number: u8,
    data: Seq<u8>,
)
    requires
        bus.connected(id),
        bus.state_of(id).write_status(endpoint_number) != UsbTransferStatus::Completed,
    ensures
        after_mock_write(bus, id, endpoint_number, data) == bus,
        mock_write(bus, id, endpoint_number, data) is Ok,
        mock_write(bus, id, endpoint_number, data)->Ok_0.status() == bus.state_of(
            id,
        ).write_status(endpoint_number),
{
    lemma_first_index(bus.ids(), id);
    let i = bus.index_of(id)->Some_0;
    assert(bus.devices[i] == (id, bus.state_of(id)));
    assert(bus.with_state(id, bus.state_of(id)) =~= bus);
}

/// A control transfer out is recorded as a write to endpoint 0, whatever is halted.
pub proof fn law_control_write_is_recorded(bus: BusView, id: u64, data: Seq<u8>)
    requires
        bus.connected(id),
        data.len() <= usize::MAX,
    ensures
        mock_control_write(bus, id, data) == Ok::<TransferOutcome<usize>, Error>(
            TransferOutcome::Completed(data.len() as usize),
        ),
        after_mock_control_write(bus, id, data).state_of(id).written == bus.state_of(
            id,
        ).written.push((0u8, data)),
{
    law_state_is_kept(bus, id, bus.state_of(id).after_write(0, data), id);
}

/// A transfer in delivers no more than was asked for, from the start of the payload of the
/// endpoint, and all of the payload where enough was asked for; one that stalls or babbles
/// delivers nothing.
pub proof fn law_read_is_a_prefix(bus: BusView, id: u64, endpoint_number: u8, length: nat)
    requires
        bus.connected(id),
    ensures
        ({
            let (status, data) = mock_read(bus, id, endpoint_number, length)->Ok_0;
            let payload = bus.state_of(id).payload(endpoint_number);
            &&& mock_read(bus, id, endpoint_number, length) is Ok
            &&& data.len() <= length
            &&& data.is_prefix_of(payload)
            &&& status == UsbTransferStatus::Completed && length >= payload.len() ==> data
                == payload
            &&& status != UsbTransferStatus::Completed ==> data.len() == 0
        }),
{
}

/// Writing to a device does not change what is read from it, on any endpoint.
pub proof fn law_write_does_not_change_reads(
    bus: BusView,
    id: u64,
    endpoint_number: u8,
    data: Seq<u8>,
    reader: u64,
    read_endpoint: u8,
    length: nat,
)
    ensures
        mock_read(after_mock_write(bus, id, endpoint_number, data), reader, read_endpoint, length)
            == mock_read(bus, reader, read_endpoint, length),
        mock_read(after_mock_control_write(bus, id, data), reader, read_endpoint, length)
            == mock_read(bus, reader, read_endpoint, length),
{
    law_state_is_kept(
        bus,
        id,
        bus.state_of(id).after_transfer_out(endpoint_number, data),
        reader,
    );
    law_state_is_kept(bus, id, bus.state_of(id).after_write(0, data), reader);
}

/// The bus with an endpoint of a device halted.
pub open spec fn after_halt(bus: BusView, id: u64, address: u8) -> BusView {
    bus.with_state(id, bus.state_of(id).with_halt(address))
}

/// A halted endpoint reports a stall, and delivers and takes nothing.
pub proof fn law_halted_endpoint_stalls(
    bus: BusView,
    id: u64,
    endpoint_number: u8,
    length: nat,
    data: Seq<u8>,
)
    requires
        bus.connected(id),
    ensures
        mock_read(
            after_halt(bus, id, spec_endpoint_address(Direction::In, endpoint_number)),
            id,
            endpoint_number,
            length,
        ) == Ok::<(UsbTransferStatus, Seq<u8>), Error>((UsbTransferStatus::Stall, Seq::empty())),
        mock_write(
            after_halt(bus, id, spec_endpoint_address(Direction::Out, endpoint_number)),
            id,
            endpoint_number,
            data,
        ) == Ok::<TransferOutcome<usize>, Error>(TransferOutcome::Stall),
{
    let inward = spec_endpoint_address(Direction::In, endpoint_number);
    let outward = spec_endpoint_address(Direction::Out, endpoint_number);
    law_state_is_kept(bus, id, bus.state_of(id).with_halt(inward), id);
    law_state_is_kept(bus, id, bus.state_of(id).with_halt(outward), id);
}

/// A halt lasts until it is cleared: no transfer, no other halt and no clearing of another
/// endpoint ends it.
pub proof fn law_halt_lasts(
    bus: BusView,
    id: u64,
    address: u8,
    actor: u64,
    endpoint_number: u8,
    direction: Direction,
    other_address: u8,
    data: Seq<u8>,
)
    requires
        bus.connected(id),
        bus.state_of(id).halted.contains(address),
    ensures
        after_mock_write(bus, actor, endpoint_number, data).state_of(id).halted.contains(address),
        after_mock_control_write(bus, actor, data).state_of(id).halted.contains(address),
        after_halt(bus, actor, other_address).state_of(id).halted.contains(address),
        actor != id || spec_endpoint_address(direction, endpoint_number) != address
            ==> after_mock_clear_halt(bus, actor, direction, endpoint_number).state_of(
            id,
        ).halted.contains(address),
{
    let state = bus.state_of(actor);
    law_state_is_kept(bus, actor, state.after_transfer_out(endpoint_number, data), id);
    law_state_is_kept(bus, actor, state.after_write(0, data), id);
    law_state_is_kept(bus, actor, state.with_halt(other_address), id);
    law_state_is_kept(
        bus,
        actor,
        state.without_halt(spec_endpoint_address(direction, endpoint_number)),
        id,
    );
}

/// Once its halt is cleared an endpoint stalls no more: it completes, or babbles where it is set
/// up to.
pub proof fn law_clear_halt_ends_stall(
    bus: BusView,
    id: u64,
    direction: Direction,
    endpoint_number: u8,
)
    requires
        bus.connected(id),
    ensures
        ({
            let address = spec_endpoint_address(direction, endpoint_number);
            let after = after_mock_clear_halt(bus, id, direction, endpoint_number);
            &&& after.connected(id)
            &&& after.state_of(id).transfer_status(address) == (if bus.state_of(
                id,
            ).config.babble_endpoints.contains(address) {
                UsbTransferStatus::Babble
            } else {
                UsbTransferStatus::Completed
            })
            &&& after.state_of(id).written == bus.state_of(id).written
        }),
{
    let address = spec_endpoint_address(direction, endpoint_number);
    law_state_is_kept(bus, id, bus.state_of(id).without_halt(address), id);
}

/// Clearing the halt of an endpoint undoes halting it.
pub proof fn law_clear_halt_undoes_halt(
    bus: BusView,
    id: u64,
    direction: Direction,
    endpoint_number: u8,
)
    requires
        bus.connected(id),
        !bus.state_of(id).halted.contains(spec_endpoint_address(direction, endpoint_number)),
    ensures
        after_mock_clear_halt(
            after_halt(bus, id, spec_endpoint_address(direction, endpoint_number)),
            id,
            direction,
            endpoint_number,
        ) == bus,
{
    let address = spec_endpoint_address(direction, endpoint_number);
    let halted = after_halt(bus, id, address);
    let state = bus.state_of(id);
    law_state_is_kept(bus, id, state.with_halt(address), id);
    lemma_first_index(bus.ids(), id);
    assert(state.with_halt(address).without_halt(address) =~= state);
    let i = bus.index_of(id)->Some_0;
    assert(bus.devices[i] == (id, state));
    assert(after_mock_clear_halt(halted, id, direction, endpoint_number).devices =~= bus.devices);
}

/// A control transfer in delivers as many bytes as were asked for, and starts with the setup
/// bytes, over and over.
pub proof fn law_control_read_echoes(
    bus: BusView,
    id: u64,
    setup: UsbControlTransferParameters,
    length: nat,
)
    requires
        bus.connected(id),
    ensures
        mock_control_read(bus, id, setup, length) is Ok,
        ({
            let (status, data) = mock_control_read(bus, id, setup, length)->Ok_0;
            &&& status == UsbTransferStatus::Completed
            &&& data.len() == length
            &&& length >= 5 ==> data.take(5) == setup_bytes(setup)
            &&& forall|i: int| 0 <= i && i + 5 < length ==> data[i + 5] == #[trigger] data[i]
        }),
{
    let data = setup_echo(setup, length);
    if length >= 5 {
        assert(data.take(5) =~= setup_bytes(setup));
    }
    assert forall|i: int| 0 <= i && i + 5 < length implies data[i + 5] == #[trigger] data[i] by {
        assert((i + 5) % 5 == i % 5);
    }
}

/// The ids on the bus are distinct, and smaller than the one that is given out next.
pub open spec fn ids_are_fresh(bus: BusView, next: u64) -> bool {
    &&& forall|i: int, j: int|
        0 <= i < j < bus.ids().len() ==> #[trigger] bus.ids()[i] != #[trigger] bus.ids()[j]
    &&& forall|i: int| 0 <= i < bus.ids().len() ==> #[trigger] bus.ids()[i] < next
}

/// Ids stay distinct: on an empty bus, when a device is added under the next id, when one is
/// removed, and whatever happens to the devices that are there. (The ids must not have started
/// over, which takes more devices than a process can see.)
pub proof fn law_ids_stay_distinct(
    bus: BusView,
    next: u64,
    config: MockConfigView,
    subscribers: Seq<SubscriptionView>,
    gone: Seq<SubscriptionView>,
    id: u64,
    state: MockStateView,
)
    requires
        ids_are_fresh(bus, next),
        next < u64::MAX,
    ensures
        ids_are_fresh(BusView { devices: Seq::empty(), subscribers, gone }, 1),
        ids_are_fresh(
            BusView { devices: bus.devices.push((next, MockStateView::fresh(config))), subscribers, gone },
            next_id(next),
        ),
        bus.index_of(id) matches Some(i) ==> ids_are_fresh(
            BusView { devices: bus.devices.remove(i), subscribers, gone },
            next,
        ),
        ids_are_fresh(bus.with_state(id, state), next),
{
    let added = BusView {
        devices: bus.devices.push((next, MockStateView::fresh(config))),
        subscribers,
        gone,
    };
    assert(added.ids() =~= bus.ids().push(next));
    lemma_first_index(bus.ids(), id);
    if let Some(i) = bus.index_of(id) {
        let removed = BusView { devices: bus.devices.remove(i), subscribers, gone };
        assert(removed.ids() =~= bus.ids().remove(i));
        assert forall|j: int| 0 <= j < removed.ids().len() implies #[trigger] removed.ids()[j]
            == bus.ids()[if j < i {
            j
        } else {
            j + 1
        }] by {}
    }
    law_state_is_kept(bus, id, state, id);
}

/// A device that is plugged in is connected under its id, fresh, and listed last; every device
/// that was there stays as it was.
pub proof fn law_added_device_is_connected(
    bus: BusView,
    next: u64,
    config: MockConfigView,
    subscribers: Seq<SubscriptionView>,
    gone: Seq<SubscriptionView>,
    other: u64,
)
    requires
        ids_are_fresh(bus, next),
    ensures
        ({
            let after = BusView {
                devices: bus.devices.push((next, MockStateView::fresh(config))),
                subscribers,
                gone,
            };
            &&& !bus.connected(next)
            &&& after.connected(next)
            &&& after.state_of(next) == MockStateView::fresh(config)
            &&& after.listing() == bus.listing().push(mock_device(next, config))
            &&& bus.connected(other) ==> after.index_of(other) == bus.index_of(other)
                && after.state_of(other) == bus.state_of(other)
        }),
{
    let after = BusView {
        devices: bus.devices.push((next, MockStateView::fresh(config))),
        subscribers,
        gone,
    };
    assert(after.ids() =~= bus.ids().push(next));
    lemma_first_index_absent(bus.ids(), next);
    let n = bus.ids().len() as int;
    assert forall|j: int| 0 <= j < n implies after.ids()[j] != next by {
        assert(bus.ids()[j] < next);
    }
    lemma_first_index_found(after.ids(), next, n);
    assert(after.listing() =~= bus.listing().push(mock_device(next, config)));
    lemma_first_index(bus.ids(), other);
    if let Some(k) = bus.index_of(other) {
        assert forall|j: int| 0 <= j < k implies after.ids()[j] != other by {
            assert(bus.ids()[j] != other);
        }
        assert(after.ids()[k] == bus.ids()[k]);
        lemma_first_index_found(after.ids(), other, k);
    }
}

/// A device that is unplugged is gone: it is not listed, and whatever still reaches for it is
/// told that it is disconnected. Every other device is as it was.
pub proof fn law_removed_device_is_disconnected(
    bus: BusView,
    next: u64,
    id: u64,
    subscribers: Seq<SubscriptionView>,
    gone: Seq<SubscriptionView>,
    endpoint_number: u8,
    length: nat,
    data: Seq<u8>,
    setup: UsbControlTransferParameters,
    other: u64,
)
    requires
        ids_are_fresh(bus, next),
        bus.connected(id),
    ensures
        ({
            let i = bus.index_of(id)->Some_0;
            let after = BusView { devices: bus.devices.remove(i), subscribers, gone };
            &&& !after.connected(id)
            &&& after.listing() == bus.listing().remove(i)
            &&& forall|k: int|
                0 <= k < after.listing().len() ==> (#[trigger] after.listing()[k]).id != id
            &&& after.connection(id) == Err::<(), Error>(Error::Disconnected)
            &&& mock_read(after, id, endpoint_number, length) == Err::<
                (UsbTransferStatus, Seq<u8>),
                Error,
            >(Error::Disconnected)
            &&& mock_write(after, id, endpoint_number, data) == Err::<
                TransferOutcome<usize>,
                Error,
            >(Error::Disconnected)
            &&& mock_control_read(after, id, setup, length) == Err::<
                (UsbTransferStatus, Seq<u8>),
                Error,
            >(Error::Disconnected)
            &&& mock_control_write(after, id, data) == Err::<TransferOutcome<usize>, Error>(
                Error::Disconnected,
            )
            &&& other != id && bus.connected(other) ==> after.connected(other) && after.state_of(
                other,
            ) == bus.state_of(other)
        }),
{
    lemma_first_index(bus.ids(), id);
    let i = bus.index_of(id)->Some_0;
    let after = BusView { devices: bus.devices.remove(i), subscribers, gone };
    assert(after.ids() =~= bus.ids().remove(i));
    assert forall|k: int| 0 <= k < after.ids().len() implies after.ids()[k] != id by {
        let old_place = if k < i {
            k
        } else {
            k + 1
        };
        assert(after.ids()[k] == bus.ids()[old_place]);
        assert(bus.ids()[i] == id);
    }
    lemma_first_index_absent(after.ids(), id);
    assert(after.listing() =~= bus.listing().remove(i));
    assert forall|k: int| 0 <= k < after.listing().len() implies (
    #[trigger] after.listing()[k]).id != id by {
        assert(after.listing()[k].id == after.ids()[k]);
    }
    lemma_first_index(bus.ids(), other);
    if other != id {
        if let Some(k) = bus.index_of(other) {
            let place = if k < i {
                k
            } else {
                k - 1
            };
            assert(k != i);
            assert(after.ids()[place] == other);
            assert forall|j: int| 0 <= j < place implies after.ids()[j] != other by {
                let old_place = if j < i {
                    j
                } else {
                    j + 1
                };
                assert(after.ids()[j] == bus.ids()[old_place]);
                assert(bus.ids()[old_place] != other);
            }
            lemma_first_index_found(after.ids(), other, place);
            assert(after.devices[place] == bus.devices[k]);
        }
    }
}

/// The removal of a device is reported under the id, and with the vendor and product, under which
/// users see it.
pub proof fn law_disconnect_names_the_device(bus: BusView, id: u64)
    requires
        bus.connected(id),
    ensures
        ({
            let i = bus.index_of(id)->Some_0;
            let data = bus.devices[i].1.config.data;
            &&& 0 <= i < bus.listing().len()
            &&& bus.listing()[i].id == id
            &&& bus.listing()[i].vendor_id == data.vendor_id
            &&& bus.listing()[i].product_id == data.product_id
        }),
{
    lemma_first_index(bus.ids(), id);
}

/// What users see of the devices does not depend on what has been written or halted: as long as
/// nothing is plugged in or out, every enumeration gives the same devices under the same ids.
pub proof fn law_listing_is_stable(
    bus: BusView,
    id: u64,
    endpoint_number: u8,
    direction: Direction,
    address: u8,
    data: Seq<u8>,
)
    ensures
        after_mock_write(bus, id, endpoint_number, data).listing() == bus.listing(),
        after_mock_control_write(bus, id, data).listing() == bus.listing(),
        after_mock_clear_halt(bus, id, direction, endpoint_number).listing() == bus.listing(),
        bus.connected(id) ==> after_halt(bus, id, address).listing() == bus.listing(),
        forall|i: int|
            0 <= i < bus.listing().len() ==> (#[trigger] bus.listing()[i]).id == bus.ids()[i],
{
    lemma_first_index(bus.ids(), id);
    let state = bus.state_of(id);
    assert(after_mock_write(bus, id, endpoint_number, data).listing() =~= bus.listing());
    assert(after_mock_control_write(bus, id, data).listing() =~= bus.listing());
    assert(after_mock_clear_halt(bus, id, direction, endpoint_number).listing()
        =~= bus.listing());
    if bus.connected(id) {
        assert(after_halt(bus, id, address).listing() =~= bus.listing());
    }
}

/// The item is one of those that are marked.
pub open spec fn is_marked<T>(items: Seq<T>, keep: Seq<bool>, item: T) -> bool {
    exists|i: int| 0 <= i < items.len() && #[trigger] keep[i] && items[i] == item
}

/// What survives is marked, and nothing is lost only where all is marked.
proof fn lemma_survivors<T>(items: Seq<T>, keep: Seq<bool>)
    requires
        keep.len() >= items.len(),
    ensures
        survivors(items, keep).len() <= items.len(),
        forall|k: int|
            0 <= k < survivors(items, keep).len() ==> is_marked(
                items,
                keep,
                #[trigger] survivors(items, keep)[k],
            ),
        survivors(items, keep).len() == items.len() ==> survivors(items, keep) == items && (forall|
            i: int,
        |
            0 <= i < items.len() ==> #[trigger] keep[i]),
    decreases items.len(),
{
    if items.len() > 0 {
        let rest = items.drop_last();
        lemma_survivors(rest, keep);
        let kept = survivors(rest, keep);
        let all = survivors(items, keep);
        assert forall|k: int| 0 <= k < all.len() implies is_marked(
            items,
            keep,
            #[trigger] all[k],
        ) by {
            if k < kept.len() {
                assert(is_marked(rest, keep, kept[k]));
                let i = choose|i: int|
                    0 <= i < rest.len() && #[trigger] keep[i] && rest[i] == kept[k];
                assert(keep[i] && items[i] == all[k]);
            } else {
                assert(keep[items.len() - 1]);
            }
        }
        if all.len() == items.len() {
            assert(rest.push(items.last()) =~= items);
        }
    }
}

/// How many of the first `n` places are marked.
pub open spec fn marks_before(keep: Seq<bool>, n: int) -> nat
    decreases n,
{
    if n <= 0 {
        0
    } else if keep[n - 1] {
        marks_before(keep, n - 1) + 1
    } else {
        marks_before(keep, n - 1)
    }
}

/// A marked item survives, behind the marked items before it.
proof fn lemma_marked_survives<T>(items: Seq<T>, keep: Seq<bool>, i: int)
    requires
        0 <= i < items.len() <= keep.len(),
        keep[i],
    ensures
        survivors(items, keep).len() == marks_before(keep, items.len() as int),
        marks_before(keep, i) < survivors(items, keep).len(),
        survivors(items, keep)[marks_before(keep, i) as int] == items[i],
    decreases items.len(),
{
    let rest = items.drop_last();
    lemma_survivors_count(rest, keep);
    if i < rest.len() {
        lemma_marked_survives(rest, keep, i);
    }
}

/// As many items survive as are marked.
proof fn lemma_survivors_count<T>(items: Seq<T>, keep: Seq<bool>)
    requires
        items.len() <= keep.len(),
    ensures
        survivors(items, keep).len() == marks_before(keep, items.len() as int),
    decreases items.len(),
{
    if items.len() > 0 {
        lemma_survivors_count(items.drop_last(), keep);
    }
}

/// Each subscription that accepted the event is still there, on its channel, behind those before
/// it, and has exactly that one event more. There are no others.
pub open spec fn reaches_accepting_streams(
    before: Seq<SubscriptionView>,
    after: Seq<SubscriptionView>,
    accepted: Seq<bool>,
    event: EventView,
) -> bool {
    &&& after.len() == marks_before(accepted, before.len() as int)
    &&& forall|i: int|
        0 <= i < before.len() && #[trigger] accepted[i] ==> {
            let k = marks_before(accepted, i) as int;
            &&& k < after.len()
            &&& after[k].channel == before[i].channel
            &&& after[k].sent == before[i].sent.push(event)
            &&& after[k].handed == before[i].handed.push(event)
        }
    &&& forall|k: int|
        0 <= k < after.len() ==> is_marked(
            offered(before, accepted, event),
            accepted,
            #[trigger] after[k],
        )
}

/// For given answers of the subscriptions: those that accepted an event are still there and have
/// it, exactly once, behind all that they had; those that are taken out were handed it too, and
/// have refused it. None is added, and where none is lost each is at its place.
pub proof fn law_accepting_streams_get_the_event(
    before: Seq<SubscriptionView>,
    accepted: Seq<bool>,
    event: EventView,
)
    requires
        accepted.len() == before.len(),
    ensures
        reaches_accepting_streams(before, delivered(before, accepted, event), accepted, event),
        delivered(before, accepted, event).len() == before.len() ==> delivered(
            before,
            accepted,
            event,
        ) == offered(before, accepted, event) && forall|i: int|
            0 <= i < before.len() ==> #[trigger] accepted[i],
        delivered(before, accepted, event).len() + refused(before, accepted, event).len()
            == before.len(),
        forall|i: int|
            0 <= i < before.len() && !#[trigger] accepted[i] ==> {
                let k = marks_before(inverted(accepted), i) as int;
                &&& k < refused(before, accepted, event).len()
                &&& refused(before, accepted, event)[k] == before[i].after_offer(event, false)
            },
{
    let all = offered(before, accepted, event);
    let after = delivered(before, accepted, event);
    lemma_survivors(all, accepted);
    lemma_survivors_count(all, accepted);
    lemma_survivors_count(all, inverted(accepted));
    lemma_marks_add_up(accepted, before.len() as int);
    assert forall|i: int| 0 <= i < before.len() && #[trigger] accepted[i] implies {
        let k = marks_before(accepted, i) as int;
        &&& k < after.len()
        &&& after[k] == before[i].after_offer(event, true)
    } by {
        lemma_marked_survives(all, accepted, i);
    }
    assert forall|i: int| 0 <= i < before.len() && !#[trigger] accepted[i] implies {
        let k = marks_before(inverted(accepted), i) as int;
        &&& k < refused(before, accepted, event).len()
        &&& refused(before, accepted, event)[k] == before[i].after_offer(event, false)
    } by {
        lemma_marked_survives(all, inverted(accepted), i);
    }
}

/// Every place is marked in one of two opposite markings.
proof fn lemma_marks_add_up(keep: Seq<bool>, n: int)
    requires
        0 <= n <= keep.len(),
    ensures
        marks_before(keep, n) + marks_before(inverted(keep), n) == n,
    decreases n,
{
    if n > 0 {
        lemma_marks_add_up(keep, n - 1);
    }
}

/// The subscription is one of those, after the event was handed to it and it gave that
/// answer.
pub open spec fn is_answer(
    before: Seq<SubscriptionView>,
    event: EventView,
    accepted: bool,
    subscription: SubscriptionView,
) -> bool {
    exists|i: int|
        0 <= i < before.len() && subscription == (#[trigger] before[i]).after_offer(event, accepted)
}

/// Every subscription was handed the event, once. Either it is still there, on its channel, with
/// exactly that one event more in the channel; or it is gone, and its channel refused the event.
/// There are no other subscriptions, and where none is gone each is at its place.
pub open spec fn handed_to_all(
    before: Seq<SubscriptionView>,
    after: Seq<SubscriptionView>,
    gone: Seq<SubscriptionView>,
    event: EventView,
) -> bool {
    &&& after.len() + gone.len() == before.len()
    &&& forall|i: int|
        0 <= i < before.len() ==> after.contains(
            (#[trigger] before[i]).after_offer(event, true),
        ) || gone.contains(before[i].after_offer(event, false))
    &&& forall|k: int| 0 <= k < after.len() ==> is_answer(before, event, true, #[trigger] after[k])
    &&& forall|k: int| 0 <= k < gone.len() ==> is_answer(before, event, false, #[trigger] gone[k])
    &&& gone.len() == 0 ==> forall|i: int|
        0 <= i < before.len() ==> #[trigger] after[i] == before[i].after_offer(event, true)
}

/// An event that is announced is handed to every subscription: none is lost but those that refuse
/// it.
pub proof fn law_announced_event_is_handed_to_all(
    before: Seq<SubscriptionView>,
    after: Seq<SubscriptionView>,
    gone: Seq<SubscriptionView>,
    event: EventView,
)
    requires
        announced(before, after, gone, event),
    ensures
        handed_to_all(before, after, gone, event),
{
    let accepted = choose|accepted: Seq<bool>|
        {
            &&& accepted.len() == before.len()
            &&& after == #[trigger] delivered(before, accepted, event)
            &&& gone == refused(before, accepted, event)
        };
    let all = offered(before, accepted, event);
    law_accepting_streams_get_the_event(before, accepted, event);
    lemma_survivors(all, accepted);
    lemma_survivors(all, inverted(accepted));
    assert forall|i: int| 0 <= i < before.len() implies after.contains(
        (#[trigger] before[i]).after_offer(event, true),
    ) || gone.contains(before[i].after_offer(event, false)) by {
        if accepted[i] {
            lemma_marked_survives(all, accepted, i);
            assert(all[i] == before[i].after_offer(event, true));
        } else {
            lemma_marked_survives(all, inverted(accepted), i);
            assert(all[i] == before[i].after_offer(event, false));
        }
    }
    assert forall|k: int| 0 <= k < after.len() implies is_answer(
        before,
        event,
        true,
        #[trigger] after[k],
    ) by {
        assert(is_marked(all, accepted, after[k]));
        let i = choose|i: int| 0 <= i < all.len() && #[trigger] accepted[i] && all[i] == after[k];
        assert(after[k] == before[i].after_offer(event, true));
    }
    assert forall|k: int| 0 <= k < gone.len() implies is_answer(
        before,
        event,
        false,
        #[trigger] gone[k],
    ) by {
        let dropped = inverted(accepted);
        assert(is_marked(all, dropped, gone[k]));
        let i = choose|i: int| 0 <= i < all.len() && #[trigger] dropped[i] && all[i] == gone[k];
        assert(gone[k] == before[i].after_offer(event, false));
    }
    if gone.len() == 0 {
        assert forall|i: int| 0 <= i < before.len() implies #[trigger] after[i]
            == before[i].after_offer(event, true) by {
            assert(accepted[i]);
        }
    }
}

/// A device that is plugged in gets an id that no other on the bus has, is listed behind all
/// others, is handed once, closed, to every subscription, of which none is lost but those that
/// refuse it, and stalls on the endpoints that it is set up to. (That they stall until their halts
/// are cleared is `law_halt_lasts`.)
pub proof fn law_added_device_is_announced(
    before: BusView,
    after: BusView,
    next: u64,
    config: MockConfigView,
    earlier: u64,
    address: u8,
)
    requires
        ids_are_fresh(before, next),
        after.devices == before.devices.push((next, MockStateView::fresh(config))),
        announced(
            before.subscribers,
            after.subscribers,
            after.gone,
            EventView::Connect(mock_device(next, config)),
        ),
    ensures
        before.ids().contains(earlier) ==> earlier < next,
        after.ids() == before.ids().push(next),
        after.listing() == before.listing().push(mock_device(next, config)),
        mock_device(next, config).id == next,
        !mock_device(next, config).opened,
        handed_to_all(
            before.subscribers,
            after.subscribers,
            after.gone,
            EventView::Connect(mock_device(next, config)),
        ),
        config.stalled_endpoints.contains(address) ==> after.state_of(next).transfer_status(
            address,
        ) == UsbTransferStatus::Stall,
{
    law_announced_event_is_handed_to_all(
        before.subscribers,
        after.subscribers,
        after.gone,
        EventView::Connect(mock_device(next, config)),
    );
    law_added_device_is_connected(before, next, config, after.subscribers, after.gone, next);
    assert(after == BusView {
        devices: before.devices.push((next, MockStateView::fresh(config))),
        subscribers: after.subscribers,
        gone: after.gone,
    });
    assert(after.ids() =~= before.ids().push(next));
    if before.ids().contains(earlier) {
        let i = choose|i: int| 0 <= i < before.ids().len() && before.ids()[i] == earlier;
        assert(before.ids()[i] < next);
    }
}

/// A device that is unplugged leaves the others listed in their order, and its removal is handed
/// once to every subscription, of which none is lost but those that refuse it. The device cannot
/// be unplugged again.
pub proof fn law_removed_device_is_announced(
    before: BusView,
    after: BusView,
    next: u64,
    id: u64,
)
    requires
        ids_are_fresh(before, next),
        before.connected(id),
        ({
            let i = before.index_of(id)->Some_0;
            let data = before.devices[i].1.config.data;
            &&& after.devices == before.devices.remove(i)
            &&& announced(
                before.subscribers,
                after.subscribers,
                after.gone,
                EventView::Disconnect {
                    id,
                    vendor_id: data.vendor_id,
                    product_id: data.product_id,
                },
            )
        }),
    ensures
        after.index_of(id) is None,
        after.listing() == before.listing().remove(before.index_of(id)->Some_0),
        handed_to_all(
            before.subscribers,
            after.subscribers,
            after.gone,
            EventView::Disconnect {
                id,
                vendor_id: before.listing()[before.index_of(id)->Some_0].vendor_id,
                product_id: before.listing()[before.index_of(id)->Some_0].product_id,
            },
        ),
{
    let i = before.index_of(id)->Some_0;
    let data = before.devices[i].1.config.data;
    lemma_first_index(before.ids(), id);
    law_announced_event_is_handed_to_all(
        before.subscribers,
        after.subscribers,
        after.gone,
        EventView::Disconnect { id, vendor_id: data.vendor_id, product_id: data.product_id },
    );
    assert(after == BusView {
        devices: before.devices.remove(i),
        subscribers: after.subscribers,
        gone: after.gone,
    });
    assert(after.ids() =~= before.ids().remove(i));
    assert forall|k: int| 0 <= k < after.ids().len() implies after.ids()[k] != id by {
        let old_place = if k < i {
            k
        } else {
            k + 1
        };
        assert(after.ids()[k] == before.ids()[old_place]);
        assert(before.ids()[i] == id);
    }
    lemma_first_index_absent(after.ids(), id);
    assert(after.listing() =~= before.listing().remove(i));
}

} // verus!

//! Laws of the log of writes: over any sequence of operations it holds what was written.
use crate::device::DeviceView;
use crate::error::Error;
use crate::laws::bus::{after_halt, law_state_is_kept};
use crate::mock::{after_mock_clear_halt, after_mock_control_write, after_mock_write,
    mock_control_write, mock_write, BusView, MockConfigView, MockStateView};
use crate::search::{lemma_first_index, lemma_first_index_found};
use crate::transfer::TransferOutcome;
use crate::types::{spec_endpoint_address, Direction, UsbControlTransferParameters,
    UsbTransferStatus};
use vstd::prelude::*;

verus! {

/// An operation that can change the mock bus, made through some handle in the state that it is in.
/// (Reads, and operations on the handle alone, leave the bus as it is.)
pub enum BusStep {
    TransferOut { handle: DeviceView, endpoint_number: u8, data: Seq<u8> },
    ControlTransferOut {
        handle: DeviceView,
        setup: UsbControlTransferParameters,
        data: Seq<u8>,
    },
    ClearHalt { handle: DeviceView, direction: Direction, endpoint_number: u8 },
    HaltEndpoint { id: u64, address: u8 },
    AddDevice { id: u64, config: MockConfigView },
    RemoveDevice { id: u64 },
}

/// The bus answers that the transfer went through.
pub open spec fn completes(answer: Result<TransferOutcome<usize>, Error>) -> bool {
    answer is Ok && answer->Ok_0.status() == UsbTransferStatus::Completed
}

impl BusStep {
    /// The bus after the operation, apart from the subscriptions.
    pub open spec fn apply(self, bus: BusView) -> BusView {
        match self {
            BusStep::TransferOut { handle, endpoint_number, data } => if handle.transfer_check(
                endpoint_number,
                Direction::Out,
            ) is Ok {
                after_mock_write(bus, handle.id, endpoint_number, data)
            } else {
                bus
            },
            BusStep::ControlTransferOut { handle, setup, data } => if handle.control_check(
                setup,
            ) is Ok {
                after_mock_control_write(bus, handle.id, data)
            } else {
                bus
            },
            BusStep::ClearHalt { handle, direction, endpoint_number } => {
                if handle.clear_halt_check(direction, endpoint_number) is Ok {
                    after_mock_clear_halt(bus, handle.id, direction, endpoint_number)
                } else {
                    bus
                }
            },
            BusStep::HaltEndpoint { id, address } => if bus.connected(id) {
                after_halt(bus, id, address)
            } else {
                bus
            },
            BusStep::AddDevice { id, config } => BusView {
                devices: bus.devices.push((id, MockStateView::fresh(config))),
                ..bus
            },
            BusStep::RemoveDevice { id } => match bus.index_of(id) {
                Some(i) => BusView { devices: bus.devices.remove(i), ..bus },
                None => bus,
            },
        }
    }

    /// What the operation writes to the device of that id, as endpoint number and data: the data
    /// of a transfer out to it that is granted and completes, a control transfer counting for
    /// endpoint 0. Nothing that is refused, stalls or babbles is written.
    pub open spec fn writes(self, bus: BusView, id: u64) -> Seq<(u8, Seq<u8>)> {
        match self {
            BusStep::TransferOut { handle, endpoint_number, data } => if handle.id == id
                && handle.transfer_check(endpoint_number, Direction::Out) is Ok && completes(
                mock_write(bus, id, endpoint_number, data),
            ) {
                seq![(endpoint_number, data)]
            } else {
                Seq::empty()
            },
            BusStep::ControlTransferOut { handle, setup, data } => if handle.id == id
                && handle.control_check(setup) is Ok && completes(
                mock_control_write(bus, id, data),
            ) {
                seq![(0u8, data)]
            } else {
                Seq::empty()
            },
            _ => Seq::empty(),
        }
    }
}

/// The bus after a sequence of operations.
pub open spec fn after_steps(bus: BusView, steps: Seq<BusStep>) -> BusView
    decreases steps.len(),
{
    if steps.len() == 0 {
        bus
    } else {
        steps.last().apply(after_steps(bus, steps.drop_last()))
    }
}

/// What a sequence of operations writes to the device of that id, in order.
pub open spec fn all_writes(bus: BusView, steps: Seq<BusStep>, id: u64) -> Seq<(u8, Seq<u8>)>
    decreases steps.len(),
{
    if steps.len() == 0 {
        Seq::empty()
    } else {
        let before = after_steps(bus, steps.drop_last());
        all_writes(bus, steps.drop_last(), id) + steps.last().writes(before, id)
    }
}

/// The operation does not unplug the device of that id.
pub open spec fn keeps_plugged_in(step: BusStep, id: u64) -> bool {
    step != (BusStep::RemoveDevice { id })
}

/// One operation adds to the log of a device what it writes to it.
proof fn lemma_step_is_logged(bus: BusView, step: BusStep, id: u64)
    requires
        bus.connected(id),
        keeps_plugged_in(step, id),
    ensures
        step.apply(bus).connected(id),
        step.apply(bus).state_of(id).written == bus.state_of(id).written + step.writes(bus, id),
{
    let written = bus.state_of(id).written;
    lemma_first_index(bus.ids(), id);
    let place = bus.index_of(id)->Some_0;
    assert(written + Seq::<(u8, Seq<u8>)>::empty() =~= written);
    match step {
        BusStep::TransferOut { handle, endpoint_number, data } => {
            let state = bus.state_of(handle.id).after_transfer_out(endpoint_number, data);
            law_state_is_kept(bus, handle.id, state, id);
            assert(written + seq![(endpoint_number, data)] =~= written.push(
                (endpoint_number, data),
            ));
        },
        BusStep::ControlTransferOut { handle, setup, data } => {
            law_state_is_kept(bus, handle.id, bus.state_of(handle.id).after_write(0, data), id);
            assert(written + seq![(0u8, data)] =~= written.push((0u8, data)));
        },
        BusStep::ClearHalt { handle, direction, endpoint_number } => {
            let address = spec_endpoint_address(direction, endpoint_number);
            law_state_is_kept(
                bus,
                handle.id,
                bus.state_of(handle.id).without_halt(address),
                id,
            );
        },
        BusStep::HaltEndpoint { id: other, address } => {
            law_state_is_kept(bus, other, bus.state_of(other).with_halt(address), id);
        },
        BusStep::AddDevice { id: other, config } => {
            let after = step.apply(bus);
            assert forall|j: int| 0 <= j < bus.ids().len() implies after.ids()[j]
                == bus.ids()[j] by {}
            lemma_first_index_found(after.ids(), id, place);
        },
        BusStep::RemoveDevice { id: other } => {
            lemma_first_index(bus.ids(), other);
            if let Some(i) = bus.index_of(other) {
                let after = step.apply(bus);
                let new_place = if place < i {
                    place
                } else {
                    place - 1
                };
                assert(bus.ids()[i] == other && bus.ids()[place] == id);
                assert forall|j: int| 0 <= j < after.ids().len() implies after.ids()[j]
                    == bus.ids()[if j < i {
                    j
                } else {
                    j + 1
                }] by {}
                lemma_first_index_found(after.ids(), id, new_place);
                assert(after.devices[new_place] == bus.devices[place]);
            }
        },
    }
}

/// Over any sequence of operations through any handles, as long as the device is not unplugged,
/// what is added to its log is exactly what completed transfers out wrote to it, in order, with
/// control transfers counting for endpoint 0.
pub proof fn law_log_holds_completed_writes(bus: BusView, steps: Seq<BusStep>, id: u64)
    requires
        bus.connected(id),
        forall|k: int| 0 <= k < steps.len() ==> keeps_plugged_in(#[trigger] steps[k], id),
    ensures
        after_steps(bus, steps).connected(id),
        after_steps(bus, steps).state_of(id).written == bus.state_of(id).written + all_writes(
            bus,
            steps,
            id,
        ),
    decreases steps.len(),
{
    if steps.len() > 0 {
        let rest = steps.drop_last();
        assert forall|k: int| 0 <= k < rest.len() implies keeps_plugged_in(
            #[trigger] rest[k],
            id,
        ) by {
            assert(rest[k] == steps[k]);
        }
        law_log_holds_completed_writes(bus, rest, id);
        let before = after_steps(bus, rest);
        assert(steps.last() == steps[steps.len() - 1]);
        lemma_step_is_logged(before, steps.last(), id);
        assert(bus.state_of(id).written + all_writes(bus, rest, id) + steps.last().writes(
            before,
            id,
        ) =~= bus.state_of(id).written + all_writes(bus, steps, id));
    } else {
        assert(bus.state_of(id).written + Seq::<(u8, Seq<u8>)>::empty()
            =~= bus.state_of(id).written);
    }
}

/// From when a device is plugged in, under an id that none has, its whole log is what completed
/// transfers out wrote to it.
pub proof fn law_log_starts_empty(
    bus: BusView,
    id: u64,
    config: MockConfigView,
    steps: Seq<BusStep>,
)
    requires
        !bus.connected(id),
        forall|k: int| 0 <= k < steps.len() ==> keeps_plugged_in(#[trigger] steps[k], id),
    ensures
        ({
            let plugged = (BusStep::AddDevice { id, config }).apply(bus);
            &&& after_steps(plugged, steps).connected(id)
            &&& after_steps(plugged, steps).state_of(id).written == all_writes(plugged, steps, id)
        }),
{
    let plugged = (BusStep::AddDevice { id, config }).apply(bus);
    lemma_first_index(bus.ids(), id);
    let n = bus.ids().len() as int;
    assert(plugged.ids() =~= bus.ids().push(id));
    assert forall|j: int| 0 <= j < n implies plugged.ids()[j] != id by {
        assert(plugged.ids()[j] == bus.ids()[j]);
        assert(bus.ids().contains(bus.ids()[j]));
    }
    lemma_first_index_found(plugged.ids(), id, n);
    law_log_holds_completed_writes(plugged, steps, id);
    assert(Seq::<(u8, Seq<u8>)>::empty() + all_writes(plugged, steps, id) =~= all_writes(
        plugged,
        steps,
        id,
    ));
}

} // verus!

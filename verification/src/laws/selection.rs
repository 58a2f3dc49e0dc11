//! Laws of filters: which devices they let through.
use crate::device::{DeviceView, UsbDevice};
use crate::error::Error;
use crate::filter::{admitted, finds, first_admitted, lemma_first_admitted, no_filter, FilterView};
use crate::laws::devices::same_device;
use crate::usb::requests;
use vstd::prelude::*;

verus! {

/// An empty list of filters, and any list with a filter that asks for nothing, admits every
/// device, so that the first device is selected.
pub proof fn law_no_filter_admits_all(
    filters: Seq<FilterView>,
    k: int,
    device: DeviceView,
    devices: Seq<DeviceView>,
)
    ensures
        no_filter().admits(device),
        admitted(Seq::empty(), device),
        0 <= k < filters.len() && filters[k] == no_filter() ==> admitted(filters, device),
        devices.len() > 0 ==> first_admitted(Seq::empty(), devices) == Some(0int),
{
    if 0 <= k < filters.len() && filters[k] == no_filter() {
        assert(filters[k].admits(device));
    }
}

/// The device that is selected is one that some filter admits, and no device before it is; none
/// is selected only where the filters admit none.
pub proof fn law_first_match_is_selected(filters: Seq<FilterView>, devices: Seq<DeviceView>)
    ensures
        match first_admitted(filters, devices) {
            Some(i) => {
                &&& 0 <= i < devices.len()
                &&& admitted(filters, devices[i])
                &&& forall|j: int| 0 <= j < i ==> !admitted(filters, #[trigger] devices[j])
            },
            None => forall|j: int|
                0 <= j < devices.len() ==> !admitted(filters, #[trigger] devices[j]),
        },
{
    lemma_first_admitted(filters, devices);
}

/// A request gives the first listed device that the filters admit, as it is listed, and is not
/// found where they admit none.
pub proof fn law_request_gives_first_match(
    filters: Seq<FilterView>,
    listing: Seq<DeviceView>,
    result: Result<UsbDevice, Error>,
    place: Result<usize, Error>,
    k: int,
)
    requires
        requests(filters, listing, result),
        finds(filters, listing, place),
    ensures
        (forall|j: int| 0 <= j < listing.len() ==> !admitted(filters, #[trigger] listing[j])) ==> {
            &&& result == Err::<UsbDevice, Error>(Error::NotFound)
            &&& place == Err::<usize, Error>(Error::NotFound)
        },
        0 <= k < listing.len() && admitted(filters, listing[k]) && (forall|j: int|
            0 <= j < k ==> !admitted(filters, #[trigger] listing[j])) ==> {
            &&& result is Ok
            &&& result->Ok_0@ == listing[k]
            &&& place is Ok
            &&& place->Ok_0 == k
        },
{
    lemma_first_admitted(filters, listing);
    if 0 <= k < listing.len() && admitted(filters, listing[k]) && (forall|j: int|
        0 <= j < k ==> !admitted(filters, #[trigger] listing[j])) {
        match first_admitted(filters, listing) {
            Some(i) => {
                assert(admitted(filters, listing[i]));
            },
            None => {
                assert(!admitted(filters, listing[k]));
            },
        }
    }
}

/// A filter more, in a list that has one already, admits no device less.
pub proof fn law_more_filters_admit_more(
    filters: Seq<FilterView>,
    filter: FilterView,
    device: DeviceView,
)
    requires
        filters.len() > 0,
        admitted(filters, device),
    ensures
        admitted(filters.push(filter), device),
{
    let k = choose|k: int| 0 <= k < filters.len() && (#[trigger] filters[k]).admits(device);
    assert(filters.push(filter)[k].admits(device));
}

/// The order of the filters does not matter.
pub proof fn law_filter_order_is_irrelevant(
    filters: Seq<FilterView>,
    others: Seq<FilterView>,
    device: DeviceView,
)
    requires
        forall|filter: FilterView| #[trigger]
            filters.contains(filter) <==> others.contains(filter),
    ensures
        admitted(filters, device) <==> admitted(others, device),
{
    if filters.len() == 0 && others.len() > 0 {
        assert(others.contains(others[0]));
        assert(filters.contains(others[0]));
    }
    if others.len() == 0 && filters.len() > 0 {
        assert(filters.contains(filters[0]));
    }
    if admitted(filters, device) && filters.len() > 0 {
        let k = choose|k: int| 0 <= k < filters.len() && (#[trigger] filters[k]).admits(device);
        assert(filters.contains(filters[k]));
        let n = choose|n: int| 0 <= n < others.len() && others[n] == filters[k];
        assert(others[n].admits(device));
    }
    if admitted(others, device) && others.len() > 0 {
        let k = choose|k: int| 0 <= k < others.len() && (#[trigger] others[k]).admits(device);
        assert(others.contains(others[k]));
        assert(filters.contains(others[k]));
        let n = choose|n: int| 0 <= n < filters.len() && filters[n] == others[k];
        assert(filters[n].admits(device));
    }
}

/// The device has every id and the serial number that the filter names.
pub open spec fn has_named_identity(filter: FilterView, device: DeviceView) -> bool {
    &&& filter.vendor_id matches Some(vendor_id) ==> device.vendor_id == vendor_id
    &&& filter.product_id matches Some(product_id) ==> device.product_id == product_id
    &&& filter.serial_number matches Some(serial_number) ==> device.serial_number matches Some(own)
        && own == serial_number
}

/// The class triple has the class that the filter names, the subclass if it names one, and the
/// protocol if it names a subclass and a protocol.
pub open spec fn has_named_class(
    filter: FilterView,
    class: u8,
    subclass: u8,
    protocol: u8,
) -> bool {
    &&& filter.class_code matches Some(c) ==> class == c
    &&& filter.subclass_code matches Some(s) ==> subclass == s
    &&& filter.subclass_code is Some ==> (filter.protocol_code matches Some(p) ==> protocol == p)
}

/// The alternate setting `a` of the interface `i` of the configuration `c` has the class triple
/// that the filter names.
pub open spec fn offers_named_class(
    filter: FilterView,
    device: DeviceView,
    c: int,
    i: int,
    a: int,
) -> bool {
    &&& 0 <= c < device.configurations.len()
    &&& 0 <= i < device.configurations[c].interfaces.len()
    &&& 0 <= a < device.configurations[c].interfaces[i].alternates.len()
    &&& {
        let alternate = device.configurations[c].interfaces[i].alternates[a];
        has_named_class(
            filter,
            alternate.interface_class,
            alternate.interface_subclass,
            alternate.interface_protocol,
        )
    }
}

/// A filter admits only devices that have every id and the serial number that it names. One that
/// names no class admits all of those, and one that names a class admits those that have the class
/// triple themselves or in any alternate setting of any interface of any configuration.
pub proof fn law_filter_admits_what_it_names(filter: FilterView, device: DeviceView)
    ensures
        filter.admits(device) ==> has_named_identity(filter, device),
        filter.class_code is None ==> (filter.admits(device) <==> has_named_identity(
            filter,
            device,
        )),
        filter.class_code is Some ==> (filter.admits(device) <==> has_named_identity(
            filter,
            device,
        ) && (has_named_class(
            filter,
            device.device_class,
            device.device_subclass,
            device.device_protocol,
        ) || exists|c: int, i: int, a: int| #[trigger]
            offers_named_class(filter, device, c, i, a))),
{
    if filter.class_code is Some {
        let configurations = device.configurations;
        if filter.admits_some_configuration(configurations) {
            let c = choose|c: int|
                0 <= c < configurations.len() && filter.admits_configuration(
                    #[trigger] configurations[c],
                );
            let interfaces = configurations[c].interfaces;
            let i = choose|i: int|
                0 <= i < interfaces.len() && filter.admits_interface(#[trigger] interfaces[i]);
            let alternates = interfaces[i].alternates;
            let a = choose|a: int|
                0 <= a < alternates.len() && filter.admits_alternate(#[trigger] alternates[a]);
            assert(offers_named_class(filter, device, c, i, a));
        }
        if exists|c: int, i: int, a: int| #[trigger] offers_named_class(filter, device, c, i, a) {
            let (c, i, a) = choose|c: int, i: int, a: int| #[trigger]
                offers_named_class(filter, device, c, i, a);
            let interface = configurations[c].interfaces[i];
            assert(filter.admits_alternate(interface.alternates[a]));
            assert(filter.admits_interface(interface));
            assert(filter.admits_configuration(configurations[c]));
        }
    }
}

/// A list of filters admits a device just where it is empty or one of its filters admits the
/// device.
pub proof fn law_one_filter_is_enough(filters: Seq<FilterView>, device: DeviceView, k: int)
    ensures
        filters.len() == 0 ==> admitted(filters, device),
        0 <= k < filters.len() && filters[k].admits(device) ==> admitted(filters, device),
        filters.len() > 0 && (forall|l: int|
            0 <= l < filters.len() ==> !(#[trigger] filters[l]).admits(device)) ==> !admitted(
            filters,
            device,
        ),
        filters.len() > 0 && admitted(filters, device) ==> exists|l: int|
            0 <= l < filters.len() && has_named_identity(#[trigger] filters[l], device),
{
    if filters.len() > 0 && admitted(filters, device) {
        let l = choose|l: int| 0 <= l < filters.len() && (#[trigger] filters[l]).admits(device);
        law_filter_admits_what_it_names(filters[l], device);
    }
}

/// A subclass or a protocol means nothing without a class, nor a protocol without a subclass.
pub proof fn law_class_triple_is_hierarchical(filter: FilterView, device: DeviceView)
    ensures
        filter.class_code is None ==> filter.admits(device) == (FilterView {
            subclass_code: None,
            protocol_code: None,
            ..filter
        }).admits(device),
        filter.class_code is Some && filter.subclass_code is None ==> filter.admits(device) == (
        FilterView { protocol_code: None, ..filter }).admits(device),
{
    let without = FilterView { protocol_code: None, ..filter };
    if filter.class_code is Some && filter.subclass_code is None {
        assert forall|c: u8, s: u8, p: u8| filter.admits_class(c, s, p) == #[trigger] without.admits_class(
            c,
            s,
            p,
        ) by {}
        if filter.admits_some_configuration(device.configurations) {
            lemma_same_classes(filter, without, device);
        }
        if without.admits_some_configuration(device.configurations) {
            lemma_same_classes(without, filter, device);
        }
    }
}

/// Filters that let the same class triples through find them in the same devices.
proof fn lemma_same_classes(filter: FilterView, other: FilterView, device: DeviceView)
    requires
        forall|c: u8, s: u8, p: u8| filter.admits_class(c, s, p) ==> #[trigger] other.admits_class(
            c,
            s,
            p,
        ),
        filter.admits_some_configuration(device.configurations),
    ensures
        other.admits_some_configuration(device.configurations),
{
    let configurations = device.configurations;
    let c = choose|c: int|
        0 <= c < configurations.len() && filter.admits_configuration(#[trigger] configurations[c]);
    let interfaces = configurations[c].interfaces;
    let i = choose|i: int|
        0 <= i < interfaces.len() && filter.admits_interface(#[trigger] interfaces[i]);
    let alternates = interfaces[i].alternates;
    let a = choose|a: int|
        0 <= a < alternates.len() && filter.admits_alternate(#[trigger] alternates[a]);
    assert(other.admits_alternate(alternates[a]));
    assert(other.admits_interface(interfaces[i]));
    assert(other.admits_configuration(configurations[c]));
}

/// What is done to a device does not change which filters admit it: a device is admitted for what
/// it is and lists, whether it is open or closed and whatever is claimed or selected.
pub proof fn law_state_does_not_matter(
    filters: Seq<FilterView>,
    device: DeviceView,
    other: DeviceView,
)
    requires
        same_device(device, other),
    ensures
        admitted(filters, device) <==> admitted(filters, other),
{
    assert forall|k: int| 0 <= k < filters.len() implies (#[trigger] filters[k]).admits(device)
        == filters[k].admits(other) by {}
}

} // verus!

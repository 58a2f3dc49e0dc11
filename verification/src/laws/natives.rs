//! Laws of real devices: ids that last, hubs that stay out of sight, and where control transfers
//! go.
use crate::configurations::{alternate_strings, configuration_header, default_alternate,
    interface_listing, listing_strings, name_place, present, strings_in, AlternateRecord,
    InterfaceRecordView};
use crate::device::alternate_settings;
use crate::error::Error;
use crate::native::{after_found, enumeration, error_of_kind, first_event, lemma_skipped_notice,
    lowest_from, native_device, next_after_register, registered, version_major, version_minor,
    version_subminor, ErrorKind, FoundView, HandlesView, NoticeView, RegistryEntry, HUB_CLASS};
use crate::search::{first_index, lemma_first_index};
use crate::types::{AlternateView, UsbControlTransferParameters, UsbRecipient};
use vstd::prelude::*;

verus! {

/// The three parts of a version number make up the number, and the two small ones fit into four
/// bits each.
pub proof fn law_version_is_rebuilt(bcd: u16)
    ensures
        256 * version_major(bcd) + 16 * version_minor(bcd) + version_subminor(bcd) == bcd,
        version_minor(bcd) < 16,
        version_subminor(bcd) < 16,
{
    assert(256 * (bcd / 256) + 16 * (bcd / 16 % 16) + bcd % 16 == bcd) by (bit_vector);
}

/// The alternate setting that is selected to begin with is one of those listed, and the one that
/// is numbered 0 wherever there is one; there is none only where nothing is listed.
pub proof fn law_default_alternate_is_listed(alternates: Seq<AlternateView>)
    ensures
        match default_alternate(alternates) {
            Some(alternate) => {
                &&& alternates.contains(alternate)
                &&& alternate.alternate_setting == 0 <==> exists|k: int|
                    0 <= k < alternates.len() && (#[trigger] alternates[k]).alternate_setting == 0
            },
            None => alternates.len() == 0,
        },
{
    let settings = alternate_settings(alternates);
    lemma_first_index(settings, 0u8);
    match first_index(settings, 0u8) {
        Some(i) => {
            assert(settings[i] == alternates[i].alternate_setting);
            assert(alternates.contains(alternates[i]));
        },
        None => {
            assert forall|k: int| 0 <= k < alternates.len() implies (
            #[trigger] alternates[k]).alternate_setting != 0 by {
                assert(settings[k] == alternates[k].alternate_setting);
            }
        },
    }
}

/// The ids in the registry are distinct, and smaller than the one that is given out next.
pub open spec fn registry_is_fresh<K>(entries: Map<K, RegistryEntry>, next: u64) -> bool {
    &&& forall|k: K| #[trigger] entries.contains_key(k) ==> entries[k].id < next
    &&& forall|k: K, other: K| #[trigger]
        entries.contains_key(k) && #[trigger] entries.contains_key(other) && k != other
            ==> entries[k].id != entries[other].id
}

/// Ids stay distinct when a device is registered and when one is forgotten. (The ids must not
/// have started over, which takes more devices than a process can see.)
pub proof fn law_registry_ids_stay_distinct<K>(
    entries: Map<K, RegistryEntry>,
    next: u64,
    key: K,
    vendor_id: u16,
    product_id: u16,
)
    requires
        registry_is_fresh(entries, next),
        next < u64::MAX,
    ensures
        registry_is_fresh(
            registered(entries, next, key, vendor_id, product_id),
            next_after_register(entries, next, key),
        ),
        registry_is_fresh(entries.remove(key), next),
{
    let after = registered(entries, next, key, vendor_id, product_id);
    assert forall|k: K| #[trigger] after.contains_key(k) implies after[k].id
        < next_after_register(entries, next, key) by {
        if k != key {
            assert(entries.contains_key(k));
        }
    }
    assert forall|k: K, other: K| #[trigger]
        after.contains_key(k) && #[trigger] after.contains_key(other) && k != other implies after[k].id
        != after[other].id by {
        if k != key {
            assert(entries.contains_key(k));
        }
        if other != key {
            assert(entries.contains_key(other));
        }
    }
    let removed = entries.remove(key);
    assert forall|k: K| #[trigger] removed.contains_key(k) implies removed[k].id < next by {
        assert(entries.contains_key(k));
    }
    assert forall|k: K, other: K| #[trigger]
        removed.contains_key(k) && #[trigger] removed.contains_key(other) && k != other implies
        removed[k].id != removed[other].id by {
        assert(entries.contains_key(k) && entries.contains_key(other));
    }
}

/// A device that is registered already keeps its id, and uses up none.
pub proof fn law_register_is_idempotent<K>(
    entries: Map<K, RegistryEntry>,
    next: u64,
    key: K,
    vendor_id: u16,
    product_id: u16,
)
    ensures
        ({
            let once = registered(entries, next, key, vendor_id, product_id);
            let after = next_after_register(entries, next, key);
            &&& once.contains_key(key)
            &&& registered(once, after, key, vendor_id, product_id) == once
            &&& next_after_register(once, after, key) == after
            &&& entries.contains_key(key) ==> once == entries
        }),
{
}

/// A device that comes back after it was forgotten is a new device, under an id that no device
/// has.
pub proof fn law_replugged_device_is_new<K>(
    entries: Map<K, RegistryEntry>,
    next: u64,
    key: K,
    vendor_id: u16,
    product_id: u16,
)
    requires
        registry_is_fresh(entries, next),
        entries.contains_key(key),
    ensures
        registered(entries.remove(key), next, key, vendor_id, product_id)[key].id == next,
        forall|k: K| #[trigger] entries.contains_key(k) ==> entries[k].id != next,
{
}

/// The removal of a device is reported under the id under which it was made available, with what
/// identifies the device where that was its first appearance.
pub proof fn law_disconnect_names_the_device<K>(
    entries: Map<K, RegistryEntry>,
    next: u64,
    found: FoundView<K>,
)
    ensures
        ({
            let device = native_device(entries, next, found);
            let after = after_found(entries, next, found);
            &&& after.contains_key(found.key)
            &&& after[found.key].id == device.id
            &&& !entries.contains_key(found.key) ==> {
                &&& after[found.key].vendor_id == device.vendor_id
                &&& after[found.key].product_id == device.product_id
            }
        }),
{
}

/// While devices are watched, the first notice that makes an event is reported, and none is only
/// where no notice makes one. Those before it, hubs and removals of devices that are not
/// registered, change nothing. The removal that is reported ends the registration.
pub proof fn law_first_notice_that_counts_is_reported<K>(
    entries: Map<K, RegistryEntry>,
    next: u64,
    notices: Seq<NoticeView<K>>,
)
    ensures
        match first_event(entries, next, notices) {
            Some(i) => {
                &&& 0 <= i < notices.len()
                &&& notices[i].event(entries, next) is Some
                &&& notices[i] matches NoticeView::Disconnected(key)
                    ==> !notices[i].entries_after(entries, next).contains_key(key)
                &&& forall|j: int|
                    0 <= j < i ==> is_skipped(#[trigger] notices[j], entries, next)
            },
            None => forall|j: int|
                0 <= j < notices.len() ==> is_skipped(#[trigger] notices[j], entries, next),
        },
    decreases notices.len(),
{
    if notices.len() > 0 {
        let rest = notices.drop_first();
        law_first_notice_that_counts_is_reported(entries, next, rest);
        assert forall|j: int| 0 < j < notices.len() implies #[trigger] notices[j] == rest[j - 1] by {}
        if notices[0].event(entries, next) is None {
            lemma_skipped_notice(entries, next, notices[0]);
        }
    }
}

/// The notice is about a hub or the removal of a device that is not registered; it makes no event
/// and changes nothing.
pub open spec fn is_skipped<K>(
    notice: NoticeView<K>,
    entries: Map<K, RegistryEntry>,
    next: u64,
) -> bool {
    &&& match notice {
        NoticeView::Connected(found) => found.info.class == HUB_CLASS,
        NoticeView::Disconnected(key) => !entries.contains_key(key),
    }
    &&& notice.event(entries, next) is None
    &&& notice.entries_after(entries, next) == entries
    &&& notice.next_after(entries, next) == next
}

/// The indices up to an alternate setting come first among all indices, and its own follows.
proof fn lemma_alternate_strings_grow(records: Seq<AlternateRecord>, j: nat, count: nat)
    requires
        j < count <= records.len(),
    ensures
        alternate_strings(records, j).is_prefix_of(alternate_strings(records, count)),
        records[j as int].string_index matches Some(index) ==> {
            let place = alternate_strings(records, j).len() as int;
            &&& place < alternate_strings(records, count).len()
            &&& alternate_strings(records, count)[place] == index
        },
    decreases count,
{
    if j < count - 1 {
        lemma_alternate_strings_grow(records, j, (count - 1) as nat);
    }
}

/// The indices up to an interface come first among all indices, and its own follow.
proof fn lemma_listing_strings_grow(listing: Seq<InterfaceRecordView>, i: nat, count: nat)
    requires
        i < count <= listing.len(),
    ensures
        ({
            let own = listing[i as int].alternates;
            (listing_strings(listing, i) + alternate_strings(own, own.len())).is_prefix_of(
                listing_strings(listing, count),
            )
        }),
    decreases count,
{
    if i < count - 1 {
        lemma_listing_strings_grow(listing, i, (count - 1) as nat);
    }
}

/// Names and indices go by the same places: what is read for an index is the name of the
/// descriptor that gives that index at that place.
pub proof fn law_names_stand_with_their_indices(bytes: Seq<u8>, interface: int, alternate: int)
    requires
        configuration_header(bytes) is Some,
        0 <= interface < interface_listing(bytes).len(),
        0 <= alternate < interface_listing(bytes)[interface].alternates.len(),
    ensures
        configuration_header(bytes)->Some_0.1 matches Some(index) ==> strings_in(bytes).len() > 0
            && strings_in(bytes)[0] == index,
        interface_listing(bytes)[interface].alternates[alternate].string_index matches Some(index)
            ==> {
            let place = name_place(bytes, interface, alternate) as int;
            &&& place < strings_in(bytes).len()
            &&& strings_in(bytes)[place] == index
        },
{
    let listing = interface_listing(bytes);
    let own = listing[interface].alternates;
    let head = present(configuration_header(bytes)->Some_0.1);
    let before = listing_strings(listing, interface as nat);
    lemma_listing_strings_grow(listing, interface as nat, listing.len());
    lemma_alternate_strings_grow(own, alternate as nat, own.len());
    if own[alternate].string_index is Some {
        let place = alternate_strings(own, alternate as nat).len() as int;
        let all = listing_strings(listing, listing.len());
        assert((before + alternate_strings(own, own.len()))[before.len() + place]
            == all[before.len() + place]);
    }
}

/// Enumerating keeps every entry, and registers everything that it lists.
proof fn lemma_enumeration_registers<K>(
    entries: Map<K, RegistryEntry>,
    next: u64,
    found: Seq<FoundView<K>>,
)
    ensures
        ({
            let (after, _, _) = enumeration(entries, next, found);
            &&& forall|k: K| #[trigger]
                entries.contains_key(k) ==> after.contains_key(k) && after[k] == entries[k]
            &&& forall|i: int|
                0 <= i < found.len() && (#[trigger] found[i]).info.class != HUB_CLASS
                    ==> after.contains_key(found[i].key)
        }),
    decreases found.len(),
{
    if found.len() > 0 {
        let rest = found.drop_last();
        lemma_enumeration_registers(entries, next, rest);
        let (after, _, _) = enumeration(entries, next, found);
        assert forall|i: int|
            0 <= i < found.len() && (#[trigger] found[i]).info.class != HUB_CLASS implies after.contains_key(
            found[i].key,
        ) by {
            if i < rest.len() {
                assert(rest[i] == found[i]);
            }
        }
    }
}

/// Where everything that is found is registered, enumerating changes nothing, and the devices are
/// listed under the ids that they have.
proof fn lemma_enumeration_of_registered<K>(
    entries: Map<K, RegistryEntry>,
    next: u64,
    found: Seq<FoundView<K>>,
)
    requires
        forall|i: int|
            0 <= i < found.len() && (#[trigger] found[i]).info.class != HUB_CLASS
                ==> entries.contains_key(found[i].key),
    ensures
        enumeration(entries, next, found).0 == entries,
        enumeration(entries, next, found).1 == next,
    decreases found.len(),
{
    if found.len() > 0 {
        let rest = found.drop_last();
        assert forall|i: int|
            0 <= i < rest.len() && (#[trigger] rest[i]).info.class != HUB_CLASS implies entries.contains_key(
            rest[i].key,
        ) by {
            assert(rest[i] == found[i]);
        }
        lemma_enumeration_of_registered(entries, next, rest);
        assert(found.last() == found[found.len() - 1]);
    }
}

/// The devices of an enumeration are what is listed by any other enumeration whose registry gives
/// their keys the same ids.
proof fn lemma_enumeration_devices<K>(
    entries: Map<K, RegistryEntry>,
    next: u64,
    others: Map<K, RegistryEntry>,
    other_next: u64,
    found: Seq<FoundView<K>>,
)
    requires
        others == enumeration(entries, next, found).0,
    ensures
        enumeration(others, other_next, found).2 == enumeration(entries, next, found).2,
    decreases found.len(),
{
    lemma_enumeration_registers(entries, next, found);
    lemma_enumeration_prefix(entries, next, others, other_next, found, found.len());
    assert(found.take(found.len() as int) =~= found);
}

/// The same, for the first `n` of the devices that were found.
proof fn lemma_enumeration_prefix<K>(
    entries: Map<K, RegistryEntry>,
    next: u64,
    others: Map<K, RegistryEntry>,
    other_next: u64,
    found: Seq<FoundView<K>>,
    n: nat,
)
    requires
        n <= found.len(),
        others == enumeration(entries, next, found).0,
    ensures
        ({
            let (after, _, devices) = enumeration(entries, next, found.take(n as int));
            &&& devices == enumeration(others, other_next, found.take(n as int)).2
            &&& forall|k: K| #[trigger]
                after.contains_key(k) ==> others.contains_key(k) && others[k] == after[k]
        }),
    decreases n,
{
    lemma_enumeration_registers(entries, next, found);
    lemma_enumeration_grows(entries, next, found, n);
    if n > 0 {
        let part = found.take(n as int);
        let m = (n - 1) as nat;
        assert(part.drop_last() =~= found.take(m as int));
        lemma_enumeration_prefix(entries, next, others, other_next, found, m);
        let before = found.take(m as int);
        assert forall|i: int|
            0 <= i < part.len() && (#[trigger] part[i]).info.class != HUB_CLASS implies others.contains_key(
            part[i].key,
        ) by {
            assert(part[i] == found[i]);
        }
        assert forall|i: int|
            0 <= i < before.len() && (#[trigger] before[i]).info.class != HUB_CLASS implies others.contains_key(
            before[i].key,
        ) by {
            assert(before[i] == found[i]);
        }
        lemma_enumeration_of_registered(others, other_next, before);
        lemma_enumeration_registers(entries, next, part);
        if part.last().info.class != HUB_CLASS {
            assert(part.last() == part[n - 1]);
            let key = part.last().key;
            assert(enumeration(entries, next, part).0.contains_key(key));
        }
    } else {
        assert(found.take(0).len() == 0);
    }
}

/// What is registered part of the way through is what it is at the end.
proof fn lemma_enumeration_grows<K>(
    entries: Map<K, RegistryEntry>,
    next: u64,
    found: Seq<FoundView<K>>,
    n: nat,
)
    requires
        n <= found.len(),
    ensures
        ({
            let after = enumeration(entries, next, found.take(n as int)).0;
            let end = enumeration(entries, next, found).0;
            forall|k: K| #[trigger]
                after.contains_key(k) ==> end.contains_key(k) && end[k] == after[k]
        }),
    decreases found.len() - n,
{
    if n < found.len() {
        lemma_enumeration_grows(entries, next, found, n + 1);
        let longer = found.take((n + 1) as int);
        assert(longer.drop_last() =~= found.take(n as int));
        let after = enumeration(entries, next, found.take(n as int)).0;
        let then = enumeration(entries, next, longer).0;
        assert forall|k: K| #[trigger] after.contains_key(k) implies then.contains_key(k)
            && then[k] == after[k] by {}
    } else {
        assert(found.take(n as int) =~= found);
    }
}

/// Enumerating again, while the same devices are connected, lists the same devices under the same
/// ids, and uses up none.
pub proof fn law_enumeration_is_stable<K>(
    entries: Map<K, RegistryEntry>,
    next: u64,
    found: Seq<FoundView<K>>,
)
    ensures
        ({
            let (after, after_next, devices) = enumeration(entries, next, found);
            enumeration(after, after_next, found) == (after, after_next, devices)
        }),
{
    let (after, after_next, _) = enumeration(entries, next, found);
    lemma_enumeration_registers(entries, next, found);
    lemma_enumeration_of_registered(after, after_next, found);
    lemma_enumeration_devices(entries, next, after, after_next, found);
}

/// The number of devices found that are not hubs.
pub open spec fn count_listed<K>(found: Seq<FoundView<K>>) -> nat
    decreases found.len(),
{
    if found.len() == 0 {
        0
    } else if found.last().info.class == HUB_CLASS {
        count_listed(found.drop_last())
    } else {
        count_listed(found.drop_last()) + 1
    }
}

/// Every device that is found is listed, whether or not it could be opened, but for hubs; no hub
/// is listed, and no listed device is open.
pub proof fn law_hubs_are_not_listed<K>(
    entries: Map<K, RegistryEntry>,
    next: u64,
    found: Seq<FoundView<K>>,
)
    ensures
        ({
            let devices = enumeration(entries, next, found).2;
            &&& devices.len() == count_listed(found)
            &&& forall|i: int|
                0 <= i < devices.len() ==> (#[trigger] devices[i]).device_class != HUB_CLASS
                    && !devices[i].opened
        }),
    decreases found.len(),
{
    if found.len() > 0 {
        law_hubs_are_not_listed(entries, next, found.drop_last());
    }
}

/// `lowest_from` gives the smallest number from `start` on that is claimed.
pub proof fn law_lowest_is_smallest<I>(interfaces: Map<u8, I>, start: int)
    requires
        0 <= start,
    ensures
        match lowest_from(interfaces, start) {
            Some(n) => {
                &&& start <= n
                &&& interfaces.contains_key(n)
                &&& forall|k: u8| start <= k < n ==> !#[trigger] interfaces.contains_key(k)
            },
            None => forall|k: u8| start <= k ==> !#[trigger] interfaces.contains_key(k),
        },
    decreases 256 - start,
{
    if start < 256 && !interfaces.contains_key(start as u8) {
        law_lowest_is_smallest(interfaces, start + 1);
        assert forall|k: u8| start <= k && k < start + 1 implies !#[trigger] interfaces.contains_key(
            k,
        ) by {
            assert(k == start as u8);
        }
    }
}

/// A control transfer goes through an interface only if that interface is claimed, and a request
/// to a claimed interface goes through that one. It is refused just where the system has no
/// control transfers at device level and nothing is claimed.
pub proof fn law_control_route<D, I>(
    handles: HandlesView<D, I>,
    setup: UsbControlTransferParameters,
    interface_only: bool,
)
    ensures
        handles.control_route(setup, interface_only) matches Ok(Some(n))
            ==> handles.interfaces.contains_key(n),
        setup.recipient == UsbRecipient::Interface && handles.interfaces.contains_key(
            (setup.index % 256) as u8,
        ) ==> handles.control_route(setup, interface_only) == Ok::<Option<u8>, Error>(
            Some((setup.index % 256) as u8),
        ),
        handles.control_route(setup, interface_only) is Err <==> interface_only && forall|n: u8|
            !#[trigger] handles.interfaces.contains_key(n),
        handles.control_route(setup, interface_only) matches Err(error) ==> error
            == Error::NotSupported,
{
    law_lowest_is_smallest(handles.interfaces, 0);
    assert(forall|k: u8| #[trigger] handles.interfaces.contains_key(k) ==> 0 <= k);
}

/// Every kind of system error but the catch-all has an error of its own, different from all
/// others.
pub proof fn law_error_kinds_are_told_apart(kind: ErrorKind, other: ErrorKind, message: String)
    ensures
        error_of_kind(kind, message) is Io <==> kind == ErrorKind::Other,
        error_of_kind(kind, message) == error_of_kind(other, message) <==> kind == other,
{
}

} // verus!

//! Laws of identity: what the operating system says of a device is what users see of it.
use crate::device::{configuration_values, device_from_data, DataView, DeviceView};
use crate::native::{after_found, enumeration, native_data, native_device, next_after_register,
    FoundView, InfoView, NoticeView, ReadingsView, RegistryEntry};
use crate::search::{lemma_first_index_absent, lemma_first_index_found};
use crate::types::ConfigurationView;
use vstd::prelude::*;

verus! {

/// The device has the ids, the class triple, the names, the serial number and the versions that
/// the operating system gives for it, each version number taken apart into its top byte and its
/// two low half-bytes.
pub open spec fn has_identity(device: DeviceView, info: InfoView) -> bool {
    &&& device.vendor_id == info.vendor_id
    &&& device.product_id == info.product_id
    &&& device.device_class == info.class
    &&& device.device_subclass == info.subclass
    &&& device.device_protocol == info.protocol
    &&& device.manufacturer_name == info.manufacturer
    &&& device.product_name == info.product
    &&& device.serial_number == info.serial_number
    &&& device.device_version_major == info.device_version >> 8
    &&& device.device_version_minor == (info.device_version >> 4) & 0xF
    &&& device.device_version_subminor == info.device_version & 0xF
    &&& device.usb_version_major == info.usb_version >> 8
    &&& device.usb_version_minor == (info.usb_version >> 4) & 0xF
    &&& device.usb_version_subminor == info.usb_version & 0xF
}

/// That configuration is selected: the first listed one of the value, and none where there is no
/// value or none of that value is listed.
pub open spec fn selects(
    configurations: Seq<ConfigurationView>,
    value: Option<u8>,
    selected: Option<ConfigurationView>,
) -> bool {
    match value {
        None => selected is None,
        Some(v) => {
            &&& (forall|l: int|
                0 <= l < configurations.len() ==> (#[trigger] configurations[l]).configuration_value
                    != v) ==> selected is None
            &&& forall|k: int|
                0 <= k < configurations.len() && (
                #[trigger] configurations[k]).configuration_value == v && (forall|l: int|
                    0 <= l < k ==> (#[trigger] configurations[l]).configuration_value != v)
                    ==> selected == Some(configurations[k])
        },
    }
}

/// The device shows what was read from it, the landing page only from USB 2.1 on; where nothing
/// could be read it has no configurations, none selected, and no landing page.
pub open spec fn has_readings(
    device: DeviceView,
    info: InfoView,
    readings: Option<ReadingsView>,
) -> bool {
    match readings {
        Some(r) => {
            &&& device.configurations == r.configurations
            &&& selects(r.configurations, r.active_configuration_value, device.configuration)
            &&& device.url == (if info.usb_version < 0x0210 {
                None
            } else {
                r.url
            })
        },
        None => {
            &&& device.configurations.len() == 0
            &&& device.configuration is None
            &&& device.url is None
        },
    }
}

/// The device shows every field of the data, under that id; it is closed, and the active
/// configuration is selected.
pub open spec fn shows_data(device: DeviceView, id: u64, data: DataView) -> bool {
    &&& device.id == id
    &&& !device.opened
    &&& device.configurations == data.configurations
    &&& selects(data.configurations, data.active_configuration_value, device.configuration)
    &&& device.device_class == data.device_class
    &&& device.device_subclass == data.device_subclass
    &&& device.device_protocol == data.device_protocol
    &&& device.device_version_major == data.device_version_major
    &&& device.device_version_minor == data.device_version_minor
    &&& device.device_version_subminor == data.device_version_subminor
    &&& device.manufacturer_name == data.manufacturer_name
    &&& device.product_id == data.product_id
    &&& device.product_name == data.product_name
    &&& device.serial_number == data.serial_number
    &&& device.usb_version_major == data.usb_version_major
    &&& device.usb_version_minor == data.usb_version_minor
    &&& device.usb_version_subminor == data.usb_version_subminor
    &&& device.vendor_id == data.vendor_id
    &&& device.url == data.url
}

/// A device shows every field of its data, under its id, and starts closed, with the active
/// configuration selected.
pub proof fn law_device_shows_its_data(id: u64, data: DataView)
    ensures
        shows_data(device_from_data(id, data), id, data),
{
    let configurations = data.configurations;
    let keys = configuration_values(configurations);
    if let Some(v) = data.active_configuration_value {
        if forall|l: int|
            0 <= l < configurations.len() ==> (#[trigger] configurations[l]).configuration_value
                != v {
            assert forall|l: int| 0 <= l < keys.len() implies keys[l] != v by {
                assert(configurations[l].configuration_value != v);
            }
            lemma_first_index_absent(keys, v);
        }
        assert forall|k: int|
            0 <= k < configurations.len() && (#[trigger] configurations[k]).configuration_value == v
                && (forall|l: int|
                0 <= l < k ==> (#[trigger] configurations[l]).configuration_value
                    != v) implies device_from_data(id, data).configuration == Some(
            configurations[k],
        ) by {
            assert forall|l: int| 0 <= l < k implies keys[l] != v by {
                assert(configurations[l].configuration_value != v);
            }
            lemma_first_index_found(keys, v, k);
        }
    }
}

/// The data of a device has every field of what the operating system says of it, and of what was
/// read from it.
pub proof fn law_data_shows_the_info(info: InfoView, readings: Option<ReadingsView>, id: u64)
    ensures
        has_identity(device_from_data(id, native_data(info, readings)), info),
        has_readings(device_from_data(id, native_data(info, readings)), info, readings),
        native_data(info, readings).serial_number == info.serial_number,
        readings matches Some(r) ==> native_data(info, readings).active_configuration_value
            == r.active_configuration_value,
        readings is None ==> native_data(info, readings).active_configuration_value is None,
{
    law_device_shows_its_data(id, native_data(info, readings));
    let d = info.device_version;
    let u = info.usb_version;
    assert(d >> 8 == d / 256 && (d >> 4) & 0xF == d / 16 % 16 && d & 0xF == d % 16) by (bit_vector);
    assert(u >> 8 == u / 256 && (u >> 4) & 0xF == u / 16 % 16 && u & 0xF == u % 16) by (bit_vector);
}

/// The registry keeps an entry that exists; a device that has none gets the next id, and is
/// remembered by its vendor and product.
pub open spec fn remembers<K>(
    entries: Map<K, RegistryEntry>,
    next: u64,
    found: FoundView<K>,
    after: Map<K, RegistryEntry>,
    after_next: u64,
) -> bool {
    &&& entries.contains_key(found.key) ==> after == entries && after_next == next
    &&& !entries.contains_key(found.key) ==> {
        &&& after.contains_key(found.key)
        &&& after[found.key].id == next
        &&& after[found.key].vendor_id == found.info.vendor_id
        &&& after[found.key].product_id == found.info.product_id
        &&& forall|k: K|
            k != found.key ==> (#[trigger] after.contains_key(k) <==> entries.contains_key(k))
        &&& forall|k: K| #[trigger] entries.contains_key(k) ==> after[k] == entries[k]
        &&& after_next == (if next == 0xFFFF_FFFF_FFFF_FFFFu64 {
            0int
        } else {
            next + 1
        })
    }
}

/// A device that is found is registered, and users see it closed, under the id of its entry, with
/// what the operating system says of it and what was read from it.
pub proof fn law_found_device_is_shown<K>(
    entries: Map<K, RegistryEntry>,
    next: u64,
    found: FoundView<K>,
)
    ensures
        ({
            let device = native_device(entries, next, found);
            let after = after_found(entries, next, found);
            &&& has_identity(device, found.info)
            &&& has_readings(device, found.info, found.readings)
            &&& !device.opened
            &&& device.id == (if entries.contains_key(found.key) {
                entries[found.key].id
            } else {
                next
            })
            &&& remembers(
                entries,
                next,
                found,
                after,
                next_after_register(entries, next, found.key),
            )
        }),
{
    law_data_shows_the_info(
        found.info,
        found.readings,
        after_found(entries, next, found)[found.key].id,
    );
    law_device_shows_its_data(
        after_found(entries, next, found)[found.key].id,
        native_data(found.info, found.readings),
    );
}

/// How many of the first `count` devices found are not hubs, which have class 9.
pub open spec fn listed_before<K>(found: Seq<FoundView<K>>, count: nat) -> nat
    decreases count,
{
    if count == 0 {
        0
    } else if found[count - 1].info.class == 9 {
        listed_before(found, (count - 1) as nat)
    } else {
        listed_before(found, (count - 1) as nat) + 1
    }
}

/// The first devices of a shorter list are counted the same.
proof fn lemma_listed_before_prefix<K>(found: Seq<FoundView<K>>, n: nat, count: nat)
    requires
        count <= n <= found.len(),
    ensures
        listed_before(found.take(n as int), count) == listed_before(found, count),
    decreases count,
{
    if count > 0 {
        lemma_listed_before_prefix(found, n, (count - 1) as nat);
    }
}

/// Fewer devices are listed before one that is listed than in all.
proof fn lemma_listed_before_grows<K>(found: Seq<FoundView<K>>, k: nat, count: nat)
    requires
        k <= count <= found.len(),
    ensures
        listed_before(found, k) <= listed_before(found, count),
        k < count && found[k as int].info.class != 9 ==> listed_before(found, k) < listed_before(
            found,
            count,
        ),
    decreases count,
{
    if k < count {
        lemma_listed_before_grows(found, k, (count - 1) as nat);
    }
}

/// An enumeration lists one device for each that is found and is no hub, in the order in which
/// they are found, and each shows what the operating system says of it and what was read from it,
/// none lost and none exchanged, closed and under the id by which it is then registered.
pub proof fn law_enumeration_shows_what_is_found<K>(
    entries: Map<K, RegistryEntry>,
    next: u64,
    found: Seq<FoundView<K>>,
    k: int,
)
    ensures
        ({
            let (after, _, devices) = enumeration(entries, next, found);
            &&& devices.len() == listed_before(found, found.len())
            &&& forall|key: K| #[trigger]
                entries.contains_key(key) ==> after.contains_key(key) && after[key] == entries[key]
            &&& 0 <= k < found.len() && found[k].info.class != 9 ==> {
                let place = listed_before(found, k as nat) as int;
                &&& place < devices.len()
                &&& has_identity(devices[place], found[k].info)
                &&& has_readings(devices[place], found[k].info, found[k].readings)
                &&& !devices[place].opened
                &&& after.contains_key(found[k].key)
                &&& devices[place].id == after[found[k].key].id
            }
        }),
    decreases found.len(),
{
    if found.len() > 0 {
        let rest = found.drop_last();
        let n = rest.len();
        law_enumeration_shows_what_is_found(entries, next, rest, k);
        let (before, before_next, _) = enumeration(entries, next, rest);
        law_found_device_is_shown(before, before_next, found.last());
        assert(rest =~= found.take(n as int));
        lemma_listed_before_prefix(found, n, n);
        if 0 <= k < n {
            lemma_listed_before_prefix(found, n, k as nat);
            lemma_listed_before_grows(found, k as nat, n);
            assert(rest[k] == found[k]);
        }
    }
}

/// An enumeration remembers nothing but what it lists and what was remembered before: a device
/// that is new gets the first id that is not given out yet, in the order in which they are found.
pub proof fn law_enumeration_registers_in_order<K>(
    entries: Map<K, RegistryEntry>,
    next: u64,
    found: Seq<FoundView<K>>,
)
    ensures
        found.len() == 0 ==> enumeration(entries, next, found).0 == entries && enumeration(
            entries,
            next,
            found,
        ).1 == next,
        found.len() > 0 ==> {
            let (before, before_next, listed) = enumeration(entries, next, found.drop_last());
            let (after, after_next, devices) = enumeration(entries, next, found);
            &&& found.last().info.class == 9 ==> after == before && after_next == before_next
                && devices == listed
            &&& found.last().info.class != 9 ==> {
                &&& remembers(before, before_next, found.last(), after, after_next)
                &&& devices.drop_last() == listed
                &&& devices.len() == listed.len() + 1
                &&& has_identity(devices.last(), found.last().info)
            }
        },
{
    if found.len() > 0 {
        let (before, before_next, listed) = enumeration(entries, next, found.drop_last());
        law_found_device_is_shown(before, before_next, found.last());
        let devices = enumeration(entries, next, found).2;
        if found.last().info.class != 9 {
            assert(devices.drop_last() =~= listed);
        }
    }
}

/// A device that is connected is reported with what the operating system says of it and what was
/// read from it, and is registered, unless it is a hub, which is passed over. One that is
/// disconnected is reported by what was remembered of it and then forgotten, unless it was not
/// registered. Nothing else changes.
pub proof fn law_notice_is_reported<K>(
    entries: Map<K, RegistryEntry>,
    next: u64,
    notice: NoticeView<K>,
)
    ensures
        ({
            let event = notice.event(entries, next);
            let after = notice.entries_after(entries, next);
            let after_next = notice.next_after(entries, next);
            match notice {
                NoticeView::Connected(found) => {
                    &&& found.info.class == 9 ==> event is None && after == entries && after_next
                        == next
                    &&& found.info.class != 9 ==> {
                        &&& event is Some
                        &&& event->Some_0 is Connect
                        &&& {
                            let device = event->Some_0->Connect_0;
                            &&& has_identity(device, found.info)
                            &&& has_readings(device, found.info, found.readings)
                            &&& !device.opened
                            &&& device.id == after[found.key].id
                        }
                        &&& remembers(entries, next, found, after, after_next)
                    }
                },
                NoticeView::Disconnected(key) => {
                    &&& event is Some <==> entries.contains_key(key)
                    &&& event is Some ==> {
                        &&& event->Some_0 is Disconnect
                        &&& event->Some_0->id == entries[key].id
                        &&& event->Some_0->vendor_id == entries[key].vendor_id
                        &&& event->Some_0->product_id == entries[key].product_id
                    }
                    &&& after_next == next
                    &&& !after.contains_key(key)
                    &&& forall|k: K|
                        k != key ==> (#[trigger] after.contains_key(k) <==> entries.contains_key(
                            k,
                        ))
                    &&& forall|k: K| #[trigger] after.contains_key(k) ==> after[k] == entries[k]
                },
            }
        }),
{
    if let NoticeView::Connected(found) = notice {
        law_found_device_is_shown(entries, next, found);
    }
}

} // verus!

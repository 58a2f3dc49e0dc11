//! Filters by which a device is selected.
use crate::device::{DeviceView, UsbDevice};
use crate::error::Error;
use crate::types::{text, AlternateView, ConfigurationView, InterfaceView};
use vstd::prelude::*;

verus! {

/// What a device must look like to be selected. A field that is none asks for nothing.
#[derive(Clone, Debug)]
pub struct UsbDeviceFilter {
    pub vendor_id: Option<u16>,
    pub product_id: Option<u16>,
    pub class_code: Option<u8>,
    pub subclass_code: Option<u8>,
    pub protocol_code: Option<u8>,
    pub serial_number: Option<String>,
}

/// View of a [`UsbDeviceFilter`].
#[verifier::ext_equal]
pub struct FilterView {
    pub vendor_id: Option<u16>,
    pub product_id: Option<u16>,
    pub class_code: Option<u8>,
    pub subclass_code: Option<u8>,
    pub protocol_code: Option<u8>,
    pub serial_number: Option<Seq<char>>,
}

impl View for UsbDeviceFilter {
    type V = FilterView;

    open spec fn view(&self) -> FilterView {
        FilterView {
            vendor_id: self.vendor_id,
            product_id: self.product_id,
            class_code: self.class_code,
            subclass_code: self.subclass_code,
            protocol_code: self.protocol_code,
            serial_number: text(self.serial_number),
        }
    }
}

impl Default for UsbDeviceFilter {
    /// The filter that asks for nothing.
    fn default() -> (filter: Self)
        ensures
            filter@ == no_filter(),
    {
        UsbDeviceFilter {
            vendor_id: None,
            product_id: None,
            class_code: None,
            subclass_code: None,
            protocol_code: None,
            serial_number: None,
        }
    }
}

/// The filter that asks for nothing.
pub open spec fn no_filter() -> FilterView {
    FilterView {
        vendor_id: None,
        product_id: None,
        class_code: None,
        subclass_code: None,
        protocol_code: None,
        serial_number: None,
    }
}

/// The views of a list of filters.
pub open spec fn filter_views(filters: Seq<UsbDeviceFilter>) -> Seq<FilterView> {
    Seq::new(filters.len(), |i: int| filters[i]@)
}

impl FilterView {
    /// The class triple is what the filter asks for. A subclass counts only beside a class, and
    /// a protocol only beside a subclass.
    pub open spec fn admits_class(self, class: u8, subclass: u8, protocol: u8) -> bool {
        self.class_code is Some ==> {
            &&& self.class_code == Some(class)
            &&& self.subclass_code is Some ==> {
                &&& self.subclass_code == Some(subclass)
                &&& self.protocol_code is Some ==> self.protocol_code == Some(protocol)
            }
        }
    }

    /// The class triple of an alternate setting is what the filter asks for.
    pub open spec fn admits_alternate(self, alternate: AlternateView) -> bool {
        self.admits_class(
            alternate.interface_class,
            alternate.interface_subclass,
            alternate.interface_protocol,
        )
    }

    /// Some alternate setting of the interface is what the filter asks for.
    pub open spec fn admits_interface(self, interface: InterfaceView) -> bool {
        exists|i: int|
            0 <= i < interface.alternates.len() && self.admits_alternate(
                #[trigger] interface.alternates[i],
            )
    }

    /// Some interface of the configuration is what the filter asks for.
    pub open spec fn admits_configuration(self, configuration: ConfigurationView) -> bool {
        exists|i: int|
            0 <= i < configuration.interfaces.len() && self.admits_interface(
                #[trigger] configuration.interfaces[i],
            )
    }

    /// Some configuration in the list is what the filter asks for.
    pub open spec fn admits_some_configuration(
        self,
        configurations: Seq<ConfigurationView>,
    ) -> bool {
        exists|i: int|
            0 <= i < configurations.len() && self.admits_configuration(
                #[trigger] configurations[i],
            )
    }

    /// The device is what the filter asks for. A class may be that of the device itself or that
    /// of any interface it offers in any configuration.
    pub open spec fn admits(self, device: DeviceView) -> bool {
        &&& self.vendor_id is Some ==> self.vendor_id == Some(device.vendor_id)
        &&& self.product_id is Some ==> self.product_id == Some(device.product_id)
        &&& self.serial_number is Some ==> self.serial_number == device.serial_number
        &&& {
            ||| self.class_code is None && self.subclass_code is None && self.protocol_code is None
            ||| self.admits_class(
                device.device_class,
                device.device_subclass,
                device.device_protocol,
            )
            ||| self.admits_some_configuration(device.configurations)
        }
    }
}

/// Some filter admits the device; an empty list of filters admits every device.
pub open spec fn admitted(filters: Seq<FilterView>, device: DeviceView) -> bool {
    filters.len() == 0 || exists|k: int|
        0 <= k < filters.len() && (#[trigger] filters[k]).admits(device)
}

/// The place of the first device that the filters admit.
pub open spec fn first_admitted(filters: Seq<FilterView>, devices: Seq<DeviceView>) -> Option<int>
    decreases devices.len(),
{
    if devices.len() == 0 {
        None
    } else if admitted(filters, devices[0]) {
        Some(0)
    } else {
        match first_admitted(filters, devices.drop_first()) {
            Some(i) => Some(i + 1),
            None => None,
        }
    }
}

/// `first_admitted` gives the smallest place of an admitted device, and none only where no
/// device is admitted.
pub proof fn lemma_first_admitted(filters: Seq<FilterView>, devices: Seq<DeviceView>)
    ensures
        match first_admitted(filters, devices) {
            Some(i) => {
                &&& 0 <= i < devices.len()
                &&& admitted(filters, devices[i])
                &&& forall|j: int| 0 <= j < i ==> !admitted(filters, #[trigger] devices[j])
            },
            None => forall|j: int|
                0 <= j < devices.len() ==> !admitted(filters, #[trigger] devices[j]),
        },
    decreases devices.len(),
{
    if devices.len() > 0 {
        let rest = devices.drop_first();
        lemma_first_admitted(filters, rest);
        assert forall|j: int| 0 < j < devices.len() implies #[trigger] devices[j] == rest[j - 1] by {
        }
    }
}

/// The views of a list of devices.
pub open spec fn device_views(devices: Seq<UsbDevice>) -> Seq<DeviceView> {
    Seq::new(devices.len(), |i: int| devices[i]@)
}

impl UsbDeviceFilter {
    /// Whether the filter selects the device.
    pub fn matches(&self, device: &UsbDevice) -> (matched: bool)
        ensures
            matched == self@.admits(device@),
    {
        if let Some(vendor_id) = self.vendor_id {
            if device.vendor_id != vendor_id {
                return false;
            }
        }
        if let Some(product_id) = self.product_id {
            if device.product_id != product_id {
                return false;
            }
        }
        if let Some(wanted) = &self.serial_number {
            match &device.serial_number {
                Some(serial_number) => if !(*serial_number == *wanted) {
                    return false;
                },
                None => return false,
            }
        }
        if self.class_code.is_none() && self.subclass_code.is_none()
            && self.protocol_code.is_none() {
            return true;
        }
        if self.matches_class_triple(
            device.device_class,
            device.device_subclass,
            device.device_protocol,
        ) {
            return true;
        }
        self.matches_an_interface(device)
    }

    /// Whether some alternate setting of some interface of some configuration has the class
    /// triple that the filter asks for.
    fn matches_an_interface(&self, device: &UsbDevice) -> (matched: bool)
        ensures
            matched == self@.admits_some_configuration(device@.configurations),
    {
        let ghost configurations = device@.configurations;
        let mut c: usize = 0;
        while c < device.configurations.len()
            invariant
                c <= device.configurations@.len(),
                configurations == device@.configurations,
                forall|n: int|
                    0 <= n < c ==> !self@.admits_configuration(#[trigger] configurations[n]),
            decreases device.configurations@.len() - c,
        {
            let configuration = &device.configurations[c];
            assert(configurations[c as int] == configuration@);
            let mut i: usize = 0;
            while i < configuration.interfaces.len()
                invariant
                    i <= configuration.interfaces@.len(),
                    forall|n: int|
                        0 <= n < i ==> !self@.admits_interface(
                            #[trigger] configuration@.interfaces[n],
                        ),
                    c < device.configurations@.len(),
                    configurations == device@.configurations,
                    configurations[c as int] == configuration@,
                decreases configuration.interfaces@.len() - i,
            {
                let interface = &configuration.interfaces[i];
                assert(configuration@.interfaces[i as int] == interface@);
                let mut a: usize = 0;
                while a < interface.alternates.len()
                    invariant
                        a <= interface.alternates@.len(),
                        forall|n: int|
                            0 <= n < a ==> !self@.admits_alternate(
                                #[trigger] interface@.alternates[n],
                            ),
                        i < configuration.interfaces@.len(),
                        configuration@.interfaces[i as int] == interface@,
                        c < device.configurations@.len(),
                        configurations == device@.configurations,
                        configurations[c as int] == configuration@,
                    decreases interface.alternates@.len() - a,
                {
                    let alternate = &interface.alternates[a];
                    assert(interface@.alternates[a as int] == alternate@);
                    if self.matches_class_triple(
                        alternate.interface_class,
                        alternate.interface_subclass,
                        alternate.interface_protocol,
                    ) {
                        assert(self@.admits_alternate(interface@.alternates[a as int]));
                        assert(self@.admits_interface(configuration@.interfaces[i as int]));
                        assert(self@.admits_configuration(configurations[c as int]));
                        return true;
                    }
                    a = a + 1;
                }
                i = i + 1;
            }
            c = c + 1;
        }
        false
    }

    /// Whether the class triple is what the filter asks for.
    fn matches_class_triple(&self, class: u8, subclass: u8, protocol: u8) -> (matched: bool)
        ensures
            matched == self@.admits_class(class, subclass, protocol),
    {
        match self.class_code {
            None => return true,
            Some(c) => if c != class {
                return false;
            },
        }
        match self.subclass_code {
            None => return true,
            Some(s) => if s != subclass {
                return false;
            },
        }
        match self.protocol_code {
            None => true,
            Some(p) => p == protocol,
        }
    }
}

/// Whether any of the filters selects the device; an empty list selects every device.
pub fn matches_any(filters: &[UsbDeviceFilter], device: &UsbDevice) -> (matched: bool)
    ensures
        matched == admitted(filter_views(filters@), device@),
{
    if filters.len() == 0 {
        return true;
    }
    let ghost views = filter_views(filters@);
    let mut k: usize = 0;
    while k < filters.len()
        invariant
            k <= filters@.len(),
            views == filter_views(filters@),
            forall|n: int| 0 <= n < k ==> !(#[trigger] views[n]).admits(device@),
        decreases filters@.len() - k,
    {
        assert(views[k as int] == filters@[k as int]@);
        if filters[k].matches(device) {
            return true;
        }
        k = k + 1;
    }
    false
}

/// Looking for a device gives that place: that of the first that the filters admit.
pub open spec fn finds(
    filters: Seq<FilterView>,
    devices: Seq<DeviceView>,
    place: Result<usize, Error>,
) -> bool {
    match first_admitted(filters, devices) {
        Some(i) => place is Ok && place->Ok_0 == i && i < devices.len(),
        None => place == Err::<usize, Error>(Error::NotFound),
    }
}

/// The first of the devices that any of the filters selects.
pub fn find_matching_device(devices: &Vec<UsbDevice>, filters: &[UsbDeviceFilter]) -> (place: Result<
    usize,
    Error,
>)
    ensures
        finds(filter_views(filters@), device_views(devices@), place),
{
    let ghost wanted = filter_views(filters@);
    let ghost views = device_views(devices@);
    let mut i: usize = 0;
    while i < devices.len()
        invariant
            i <= devices@.len(),
            wanted == filter_views(filters@),
            views == device_views(devices@),
            forall|n: int| 0 <= n < i ==> !admitted(wanted, #[trigger] views[n]),
        decreases devices@.len() - i,
    {
        assert(views[i as int] == devices@[i as int]@);
        if matches_any(filters, &devices[i]) {
            proof {
                lemma_first_admitted(wanted, views);
            }
            return Ok(i);
        }
        i = i + 1;
    }
    proof {
        lemma_first_admitted(wanted, views);
    }
    Err(Error::NotFound)
}

} // verus!

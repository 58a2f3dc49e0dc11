//! The landing page of a device: where the WebUSB platform capability of its BOS descriptor says
//! it is, and what its URL descriptor says it is.
use crate::types::{text, UsbControlTransferParameters, UsbRecipient, UsbRequestType};
use vstd::prelude::*;

verus! {

/// The standard request that reads a descriptor.
pub const GET_DESCRIPTOR_REQUEST: u8 = 0x06;

/// The descriptor type of a binary device object store (BOS).
pub const BOS_DESCRIPTOR_TYPE: u16 = 0x0F;

/// The descriptor type of a device capability in a BOS.
pub const CAPABILITY_DESCRIPTOR_TYPE: u8 = 0x10;

/// The capability type of a platform capability.
pub const PLATFORM_CAPABILITY_TYPE: u8 = 0x05;

/// The length of a BOS descriptor without its capabilities.
pub const BOS_HEADER_LENGTH: u16 = 5;

/// The length of a WebUSB platform capability descriptor.
pub const WEBUSB_CAPABILITY_LENGTH: u8 = 24;

/// The index of the vendor request that reads a URL descriptor.
pub const GET_URL_REQUEST: u16 = 0x02;

/// The descriptor type of a WebUSB URL.
pub const URL_DESCRIPTOR_TYPE: u8 = 0x03;

/// The longest URL descriptor.
pub const URL_DESCRIPTOR_LENGTH: u16 = 255;

/// A control transfer in.
#[derive(Copy, Clone, Debug)]
pub struct ControlRequest {
    pub setup: UsbControlTransferParameters,
    pub length: u16,
}

/// The UUID `3408b638-09a9-47a0-8bfd-a0768815b665` of the WebUSB platform capability, as it
/// stands in a descriptor.
pub open spec fn webusb_uuid() -> Seq<u8> {
    seq![
        0x38u8,
        0xB6u8,
        0x08u8,
        0x34u8,
        0xA9u8,
        0x09u8,
        0xA0u8,
        0x47u8,
        0x8Bu8,
        0xFDu8,
        0xA0u8,
        0x76u8,
        0x88u8,
        0x15u8,
        0xB6u8,
        0x65u8,
    ]
}

/// The bytes start with a WebUSB platform capability descriptor.
pub open spec fn is_webusb_capability(bytes: Seq<u8>) -> bool {
    &&& bytes.len() >= WEBUSB_CAPABILITY_LENGTH
    &&& bytes[0] >= WEBUSB_CAPABILITY_LENGTH
    &&& bytes[1] == CAPABILITY_DESCRIPTOR_TYPE
    &&& bytes[2] == PLATFORM_CAPABILITY_TYPE
    &&& bytes.subrange(4, 20) == webusb_uuid()
}

/// The vendor code and landing page of the first WebUSB platform capability in a chain of
/// descriptors. The chain ends at a descriptor that is too short or that does not fit.
pub open spec fn webusb_capability(chain: Seq<u8>) -> Option<(u8, u8)>
    decreases chain.len(),
{
    if chain.len() < 3 || chain[0] < 3 || chain[0] > chain.len() {
        None
    } else if is_webusb_capability(chain) {
        Some((chain[22], chain[23]))
    } else {
        webusb_capability(chain.skip(chain[0] as int))
    }
}

/// The vendor code and landing page in a BOS descriptor; landing page 0 means that there is none.
pub open spec fn bos_landing_page(bos: Seq<u8>) -> Option<(u8, u8)> {
    if bos.len() < BOS_HEADER_LENGTH || bos[0] < BOS_HEADER_LENGTH || bos[0] > bos.len() || bos[1]
        != BOS_DESCRIPTOR_TYPE {
        None
    } else {
        match webusb_capability(bos.skip(bos[0] as int)) {
            Some((vendor_code, landing_page)) => if landing_page == 0 {
                None
            } else {
                Some((vendor_code, landing_page))
            },
            None => None,
        }
    }
}

/// What a URL starts with, by the scheme byte of its descriptor.
pub open spec fn url_prefix(scheme: u8) -> Option<Seq<char>> {
    if scheme == 0 {
        Some("http://"@)
    } else if scheme == 1 {
        Some("https://"@)
    } else if scheme == 255 {
        Some(""@)
    } else {
        None
    }
}

/// The URL in a URL descriptor.
pub open spec fn descriptor_url(bytes: Seq<u8>) -> Option<Seq<char>> {
    if bytes.len() < 3 || bytes[0] < 3 || bytes[0] > bytes.len() || bytes[1]
        != URL_DESCRIPTOR_TYPE {
        None
    } else {
        let rest = bytes.subrange(3, bytes[0] as int);
        match url_prefix(bytes[2]) {
            Some(prefix) => if vstd::utf8::valid_utf8(rest) {
                Some(prefix + vstd::utf8::decode_utf8(rest))
            } else {
                None
            },
            None => None,
        }
    }
}

/// Calls `String::from_utf8`. Claims that the call gives a string just where the bytes are valid
/// UTF-8, and that the string is what they decode to.
#[verifier::external_body]
fn string_from_utf8(bytes: Vec<u8>) -> (decoded: Option<String>)
    ensures
        match decoded {
            Some(s) => vstd::utf8::valid_utf8(bytes@) && s@ == vstd::utf8::decode_utf8(bytes@),
            None => !vstd::utf8::valid_utf8(bytes@),
        },
{
    String::from_utf8(bytes).ok()
}

/// The bytes of a slice from one place up to another.
fn copy_range(bytes: &[u8], start: usize, end: usize) -> (copy: Vec<u8>)
    requires
        start <= end <= bytes@.len(),
    ensures
        copy@ == bytes@.subrange(start as int, end as int),
{
    let mut copy: Vec<u8> = Vec::new();
    let mut i: usize = start;
    while i < end
        invariant
            start <= i <= end <= bytes@.len(),
            copy@ == bytes@.subrange(start as int, i as int),
        decreases end - i,
    {
        copy.push(bytes[i]);
        i = i + 1;
        assert(copy@ =~= bytes@.subrange(start as int, i as int));
    }
    copy
}

/// Whether the WebUSB UUID stands at that place.
fn has_webusb_uuid(bytes: &[u8], at: usize) -> (found: bool)
    requires
        at + 16 <= bytes@.len(),
    ensures
        found == (bytes@.subrange(at as int, at + 16) == webusb_uuid()),
{
    let uuid: [u8; 16] = [
        0x38,
        0xB6,
        0x08,
        0x34,
        0xA9,
        0x09,
        0xA0,
        0x47,
        0x8B,
        0xFD,
        0xA0,
        0x76,
        0x88,
        0x15,
        0xB6,
        0x65,
    ];
    assert(uuid@ =~= webusb_uuid());
    let ghost part = bytes@.subrange(at as int, at + 16);
    let mut i: usize = 0;
    while i < 16
        invariant
            i <= 16,
            at + 16 <= bytes.len(),
            uuid@ == webusb_uuid(),
            part == bytes@.subrange(at as int, at + 16),
            forall|j: int| 0 <= j < i ==> part[j] == webusb_uuid()[j],
        decreases 16 - i,
    {
        assert(part[i as int] == bytes@[at + i]);
        if bytes[at + i] != uuid[i] {
            return false;
        }
        i = i + 1;
    }
    assert(part =~= webusb_uuid());
    true
}

/// The vendor code and the landing page of the WebUSB platform capability in a BOS descriptor.
pub fn parse_bos(bos: &[u8]) -> (found: Option<(u8, u8)>)
    ensures
        found == bos_landing_page(bos@),
{
    if bos.len() < BOS_HEADER_LENGTH as usize || (bos[0] as u16) < BOS_HEADER_LENGTH || bos[0] as usize
        > bos.len() || bos[1] as u16 != BOS_DESCRIPTOR_TYPE {
        return None;
    }
    let mut at: usize = bos[0] as usize;
    while bos.len() - at >= 3
        invariant
            at <= bos@.len(),
            5 <= bos@.len(),
            5 <= bos@[0] <= bos@.len(),
            bos@[1] == BOS_DESCRIPTOR_TYPE,
            webusb_capability(bos@.skip(bos@[0] as int)) == webusb_capability(
                bos@.skip(at as int),
            ),
        decreases bos@.len() - at,
    {
        let ghost chain = bos@.skip(at as int);
        let length: usize = bos[at] as usize;
        if length < 3 || length > bos.len() - at {
            return None;
        }
        assert(chain[1] == bos@[at + 1]);
        assert(chain[2] == bos@[at + 2]);
        if length >= WEBUSB_CAPABILITY_LENGTH as usize && bos[at + 1] == CAPABILITY_DESCRIPTOR_TYPE
            && bos[at + 2] == PLATFORM_CAPABILITY_TYPE {
            let found = has_webusb_uuid(bos, at + 4);
            assert(chain.subrange(4, 20) =~= bos@.subrange(at + 4, at + 20));
            if found {
                if bos[at + 23] == 0 {
                    return None;
                }
                return Some((bos[at + 22], bos[at + 23]));
            }
        }
        assert(chain.skip(length as int) =~= bos@.skip(at + length));
        at = at + length;
    }
    None
}

/// The URL in a URL descriptor.
pub fn parse_webusb_url(descriptor: &[u8]) -> (url: Option<String>)
    ensures
        text(url) == descriptor_url(descriptor@),
{
    if descriptor.len() < 3 || descriptor[0] < 3 || descriptor[0] as usize > descriptor.len()
        || descriptor[1] != URL_DESCRIPTOR_TYPE {
        return None;
    }
    let mut url = match descriptor[2] {
        0 => "http://".to_string(),
        1 => "https://".to_string(),
        255 => "".to_string(),
        _ => return None,
    };
    match string_from_utf8(copy_range(descriptor, 3, descriptor[0] as usize)) {
        Some(rest) => {
            url.append(rest.as_str());
            Some(url)
        },
        None => None,
    }
}

/// A request for the first bytes of the BOS descriptor.
pub open spec fn bos_read(length: u16) -> ControlRequest {
    ControlRequest {
        setup: UsbControlTransferParameters {
            request_type: UsbRequestType::Standard,
            recipient: UsbRecipient::Device,
            request: GET_DESCRIPTOR_REQUEST,
            value: 0x0F00,
            index: 0,
        },
        length,
    }
}

/// The first request for a landing page: the header of the BOS descriptor.
pub open spec fn first_request() -> ControlRequest {
    bos_read(BOS_HEADER_LENGTH)
}

/// Reading the landing page starts with the header of the BOS descriptor.
pub fn bos_header_request() -> (request: ControlRequest)
    ensures
        request == first_request(),
{
    ControlRequest {
        setup: UsbControlTransferParameters {
            request_type: UsbRequestType::Standard,
            recipient: UsbRecipient::Device,
            request: GET_DESCRIPTOR_REQUEST,
            value: 0x0F00,
            index: 0,
        },
        length: BOS_HEADER_LENGTH,
    }
}

/// The request that follows a BOS header: the whole BOS descriptor, as long as the header says.
pub open spec fn request_after_header(header: Seq<u8>) -> Option<ControlRequest> {
    if header.len() < BOS_HEADER_LENGTH {
        None
    } else {
        Some(bos_read((header[2] + 256 * header[3]) as u16))
    }
}

/// After the header, the whole BOS descriptor is read, as long as the header says it is. A header
/// that is too short ends the reading.
pub fn bos_request(header: &[u8]) -> (request: Option<ControlRequest>)
    ensures
        request == request_after_header(header@),
{
    if header.len() < BOS_HEADER_LENGTH as usize {
        return None;
    }
    let total_length: u16 = header[2] as u16 + 256 * (header[3] as u16);
    Some(ControlRequest { length: total_length, ..bos_header_request() })
}

/// The request that follows a BOS descriptor: the URL descriptor of its landing page, if any.
pub open spec fn request_after_bos(bos: Seq<u8>) -> Option<ControlRequest> {
    match bos_landing_page(bos) {
        Some((vendor_code, landing_page)) => Some(
            ControlRequest {
                setup: UsbControlTransferParameters {
                    request_type: UsbRequestType::Vendor,
                    recipient: UsbRecipient::Device,
                    request: vendor_code,
                    value: landing_page as u16,
                    index: GET_URL_REQUEST,
                },
                length: URL_DESCRIPTOR_LENGTH,
            },
        ),
        None => None,
    }
}

/// After the BOS descriptor, the URL descriptor is read with the vendor request that the WebUSB
/// platform capability gives. A device without a landing page ends the reading.
pub fn url_request(bos: &[u8]) -> (request: Option<ControlRequest>)
    ensures
        request == request_after_bos(bos@),
{
    match parse_bos(bos) {
        Some((vendor_code, landing_page)) => Some(
            ControlRequest {
                setup: UsbControlTransferParameters {
                    request_type: UsbRequestType::Vendor,
                    recipient: UsbRecipient::Device,
                    request: vendor_code,
                    value: landing_page as u16,
                    index: GET_URL_REQUEST,
                },
                length: URL_DESCRIPTOR_LENGTH,
            },
        ),
        None => None,
    }
}

} // verus!

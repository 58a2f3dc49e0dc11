//! Laws of landing pages: a device that describes one is found to have it.
use crate::descriptors::{bos_landing_page, descriptor_url, first_request, is_webusb_capability,
    request_after_bos, request_after_header, url_prefix, webusb_capability, webusb_uuid,
    ControlRequest, BOS_DESCRIPTOR_TYPE, URL_DESCRIPTOR_TYPE};
use crate::types::{UsbRecipient, UsbRequestType};
use vstd::prelude::*;

verus! {

/// The URL descriptor of that scheme for that text.
pub open spec fn url_descriptor(scheme: u8, url: Seq<char>) -> Seq<u8> {
    let bytes = vstd::utf8::encode_utf8(url);
    seq![(3 + bytes.len()) as u8, URL_DESCRIPTOR_TYPE, scheme] + bytes
}

/// What is written into a URL descriptor is read back from it, behind what the scheme stands for,
/// also where more bytes follow. (A descriptor cannot be longer than its length byte can say.)
pub proof fn law_url_is_read_back(scheme: u8, url: Seq<char>, more: Seq<u8>)
    requires
        vstd::utf8::encode_utf8(url).len() <= 252,
    ensures
        descriptor_url(url_descriptor(scheme, url) + more) == match url_prefix(scheme) {
            Some(prefix) => Some(prefix + url),
            None => None,
        },
{
    let bytes = vstd::utf8::encode_utf8(url);
    let descriptor = url_descriptor(scheme, url) + more;
    vstd::utf8::encode_utf8_valid_utf8(url);
    vstd::utf8::encode_utf8_decode_utf8(url);
    assert(descriptor.subrange(3, (3 + bytes.len()) as int) =~= bytes);
}

/// A descriptor that is not a WebUSB platform capability is passed over.
pub proof fn law_other_capabilities_are_skipped(descriptor: Seq<u8>, chain: Seq<u8>)
    requires
        3 <= descriptor.len() <= 255,
        descriptor[0] == descriptor.len(),
        !is_webusb_capability(descriptor + chain),
    ensures
        webusb_capability(descriptor + chain) == webusb_capability(chain),
{
    assert((descriptor + chain).skip(descriptor.len() as int) =~= chain);
}

/// Where a WebUSB platform capability comes first, its vendor code and landing page are found,
/// whatever follows; landing page 0 counts as none.
pub proof fn law_capability_is_found(header: Seq<u8>, capability: Seq<u8>, chain: Seq<u8>)
    requires
        5 <= header.len() <= 255,
        header[0] == header.len(),
        header[1] == BOS_DESCRIPTOR_TYPE,
        is_webusb_capability(capability),
        capability[0] == capability.len(),
    ensures
        bos_landing_page(header + capability + chain) == (if capability[23] == 0 {
            None
        } else {
            Some((capability[22], capability[23]))
        }),
{
    let bos = header + capability + chain;
    let rest = bos.skip(header.len() as int);
    assert(rest =~= capability + chain);
    assert(rest.subrange(4, 20) =~= capability.subrange(4, 20));
}

/// The UUID 3408b638-09a9-47a0-8bfd-a0768815b665 stands in the bytes from place 4 on, the first
/// three of its groups with their low bytes first.
pub open spec fn holds_webusb_uuid(bytes: Seq<u8>) -> bool {
    &&& bytes[4] == 0x38 && bytes[5] == 0xB6 && bytes[6] == 0x08 && bytes[7] == 0x34
    &&& bytes[8] == 0xA9 && bytes[9] == 0x09
    &&& bytes[10] == 0xA0 && bytes[11] == 0x47
    &&& bytes[12] == 0x8B && bytes[13] == 0xFD
    &&& bytes[14] == 0xA0 && bytes[15] == 0x76 && bytes[16] == 0x88 && bytes[17] == 0x15
    &&& bytes[18] == 0xB6 && bytes[19] == 0x65
}

/// The bytes start with a device capability of the platform kind that is at least 24 bytes long and
/// has the UUID of WebUSB.
pub open spec fn starts_with_webusb(bytes: Seq<u8>) -> bool {
    &&& bytes.len() >= 24
    &&& bytes[0] >= 24
    &&& bytes[1] == 0x10
    &&& bytes[2] == 0x05
    &&& holds_webusb_uuid(bytes)
}

/// The capability of WebUSB is told by its length, its type and its UUID.
pub proof fn law_webusb_capability_is_told_by_uuid(bytes: Seq<u8>)
    ensures
        is_webusb_capability(bytes) <==> starts_with_webusb(bytes),
{
    if bytes.len() >= 24 {
        let part = bytes.subrange(4, 20);
        let uuid = webusb_uuid();
        assert forall|i: int| 0 <= i < 16 implies #[trigger] part[i] == bytes[4 + i] by {}
        if starts_with_webusb(bytes) {
            assert(part =~= uuid);
        }
        if part == uuid {
            assert(bytes[4] == part[0] && bytes[5] == part[1] && bytes[6] == part[2] && bytes[7]
                == part[3] && bytes[8] == part[4] && bytes[9] == part[5] && bytes[10] == part[6]
                && bytes[11] == part[7] && bytes[12] == part[8] && bytes[13] == part[9]
                && bytes[14] == part[10] && bytes[15] == part[11] && bytes[16] == part[12]
                && bytes[17] == part[13] && bytes[18] == part[14] && bytes[19] == part[15]);
        }
    }
}

/// A chain of descriptors is gone through by their lengths: it ends where a descriptor is shorter
/// than three bytes or longer than what is left; the first capability of WebUSB gives its vendor
/// code and landing page, from bytes 22 and 23; and any other descriptor is passed over.
pub proof fn law_chain_is_gone_through(chain: Seq<u8>)
    ensures
        ({
            let fits = chain.len() >= 3 && chain[0] >= 3 && chain[0] <= chain.len();
            &&& !fits ==> webusb_capability(chain) is None
            &&& fits && starts_with_webusb(chain) ==> webusb_capability(chain) == Some(
                (chain[22], chain[23]),
            )
            &&& fits && !starts_with_webusb(chain) ==> webusb_capability(chain)
                == webusb_capability(chain.subrange(chain[0] as int, chain.len() as int))
        }),
{
    law_webusb_capability_is_told_by_uuid(chain);
    if chain.len() >= 3 && chain[0] >= 3 && chain[0] <= chain.len() {
        assert(chain.skip(chain[0] as int) =~= chain.subrange(
            chain[0] as int,
            chain.len() as int,
        ));
    }
}

/// A landing page is found just where the bytes are a BOS descriptor and the chain behind its
/// header gives one that is not 0; it is the one that the chain gives.
pub proof fn law_landing_page_is_that_of_the_chain(bos: Seq<u8>)
    ensures
        ({
            let is_bos = bos.len() >= 5 && bos[0] >= 5 && bos[0] <= bos.len() && bos[1] == 0x0F;
            let chain = bos.subrange(bos[0] as int, bos.len() as int);
            &&& !is_bos ==> bos_landing_page(bos) is None
            &&& is_bos ==> match webusb_capability(chain) {
                None => bos_landing_page(bos) is None,
                Some((code, page)) => bos_landing_page(bos) == (if page == 0 {
                    None
                } else {
                    Some((code, page))
                }),
            }
        }),
{
    if bos.len() >= 5 && bos[0] <= bos.len() {
        assert(bos.skip(bos[0] as int) =~= bos.subrange(bos[0] as int, bos.len() as int));
    }
}

/// A URL descriptor gives a URL just where it is one, at least three bytes long and all there, its
/// scheme is known and its text is UTF-8; the URL is the text behind what the scheme stands for.
pub proof fn law_url_is_that_of_the_descriptor(bytes: Seq<u8>)
    ensures
        ({
            let is_url = bytes.len() >= 3 && bytes[0] >= 3 && bytes[0] <= bytes.len() && bytes[1]
                == 0x03;
            let words = bytes.subrange(3, bytes[0] as int);
            let known = bytes[2] == 0 || bytes[2] == 1 || bytes[2] == 255;
            &&& descriptor_url(bytes) is Some <==> is_url && known && vstd::utf8::valid_utf8(words)
            &&& descriptor_url(bytes) matches Some(url) ==> {
                &&& bytes[2] == 0 ==> url == "http://"@ + vstd::utf8::decode_utf8(words)
                &&& bytes[2] == 1 ==> url == "https://"@ + vstd::utf8::decode_utf8(words)
                &&& bytes[2] == 255 ==> url == vstd::utf8::decode_utf8(words)
            }
        }),
{
    reveal_strlit("");
    if bytes.len() >= 3 && bytes[0] >= 3 && bytes[0] <= bytes.len() {
        let words = vstd::utf8::decode_utf8(bytes.subrange(3, bytes[0] as int));
        assert(""@ + words =~= words);
    }
}

/// The request reads that many bytes of the BOS descriptor of the device.
pub open spec fn reads_bos(request: ControlRequest, length: int) -> bool {
    &&& request.setup.request_type == UsbRequestType::Standard
    &&& request.setup.recipient == UsbRecipient::Device
    &&& request.setup.request == 0x06
    &&& request.setup.value == 0x0F00
    &&& request.setup.index == 0
    &&& request.length == length
}

/// A landing page is asked for in three requests: the first five bytes of the BOS descriptor; all
/// of it, as long as those say; and the URL descriptor of the landing page that it gives, with the
/// vendor code that it gives. What is missing ends the asking.
pub proof fn law_landing_page_requests(header: Seq<u8>, bos: Seq<u8>)
    ensures
        reads_bos(first_request(), 5),
        request_after_header(header) is None <==> header.len() < 5,
        request_after_header(header) matches Some(request) ==> reads_bos(
            request,
            header[2] + 256 * header[3],
        ),
        request_after_bos(bos) is None <==> bos_landing_page(bos) is None,
        request_after_bos(bos) matches Some(request) ==> {
            let (vendor_code, landing_page) = bos_landing_page(bos)->Some_0;
            &&& request.setup.request_type == UsbRequestType::Vendor
            &&& request.setup.recipient == UsbRecipient::Device
            &&& request.setup.request == vendor_code
            &&& request.setup.value == landing_page
            &&& request.setup.index == 0x02
            &&& request.length == 255
        },
{
}

} // verus!

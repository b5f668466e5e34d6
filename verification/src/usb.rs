//! Plain USB facts shared by the backends and the flasher: what a device on the
//! bus looks like before it is opened, and the vendor requests sent to it once it is.

use vstd::prelude::*;

use crate::host::Direction;

verus! {

/// One interface (alternate setting) of a device on the bus.
#[derive(Debug, Clone, Copy, PartialEq, Eq, Structural)]
pub struct UsbInterfaceInfo {
    /// Interface number.
    pub number: u8,
    /// Interface class.
    pub class: u8,
    /// Interface subclass.
    pub sub_class: u8,
}

/// A device on the bus, as the operating system lists it.
#[derive(Debug, Clone)]
pub struct UsbDeviceInfo {
    pub vendor_id: u16,
    pub product_id: u16,
    /// Product string, if known.
    pub product: Option<String>,
    /// Serial number, if present.
    pub serial: Option<String>,
    /// Host-controller-relative bus identifier.
    pub bus_id: String,
    /// Device address on the bus.
    pub address: u8,
    /// Every interface alternate setting of the active configuration.
    pub interfaces: Vec<UsbInterfaceInfo>,
}

/// What a [`UsbDeviceInfo`] holds.
#[verifier::ext_equal]
pub struct UsbDeviceInfoView {
    pub vendor_id: u16,
    pub product_id: u16,
    pub product: Option<Seq<char>>,
    pub serial: Option<Seq<char>>,
    pub bus_id: Seq<char>,
    pub address: u8,
    pub interfaces: Seq<UsbInterfaceInfo>,
}

/// The text of an optional string.
pub open spec fn optional_text(s: Option<String>) -> Option<Seq<char>> {
    match s {
        Some(s) => Some(s@),
        None => None,
    }
}

impl View for UsbDeviceInfo {
    type V = UsbDeviceInfoView;

    open spec fn view(&self) -> UsbDeviceInfoView {
        UsbDeviceInfoView {
            vendor_id: self.vendor_id,
            product_id: self.product_id,
            product: optional_text(self.product),
            serial: optional_text(self.serial),
            bus_id: self.bus_id@,
            address: self.address,
            interfaces: self.interfaces@,
        }
    }
}

/// What a list of devices holds.
pub open spec fn info_views(s: Seq<UsbDeviceInfo>) -> Seq<UsbDeviceInfoView> {
    Seq::new(s.len(), |i: int| s[i]@)
}

/// Copy an optional string.
pub(crate) fn copy_text(s: &Option<String>) -> (r: Option<String>)
    ensures
        optional_text(r) == optional_text(*s),
{
    match s {
        Some(s) => Some(s.clone()),
        None => None,
    }
}

/// The number of the first interface with the given class and subclass.
pub open spec fn first_interface(
    interfaces: Seq<UsbInterfaceInfo>,
    class: u8,
    sub_class: u8,
) -> Option<u8>
    decreases interfaces.len(),
{
    if interfaces.len() == 0 {
        None
    } else if interfaces[0].class == class && interfaces[0].sub_class == sub_class {
        Some(interfaces[0].number)
    } else {
        first_interface(interfaces.skip(1), class, sub_class)
    }
}

/// Number of the first interface with the given class and subclass.
pub fn find_interface(dev: &UsbDeviceInfo, class: u8, sub_class: u8) -> (r: Option<u8>)
    ensures
        r == first_interface(dev@.interfaces, class, sub_class),
{
    let ghost all = dev.interfaces@;
    let mut i: usize = 0;
    assert(all.skip(0) =~= all);
    while i < dev.interfaces.len()
        invariant
            all == dev.interfaces@,
            i <= all.len(),
            first_interface(all, class, sub_class) == first_interface(
                all.skip(i as int),
                class,
                sub_class,
            ),
        decreases all.len() - i,
    {
        let one = dev.interfaces[i];
        if one.class == class && one.sub_class == sub_class {
            return Some(one.number);
        }
        assert(all.skip(i as int).skip(1) =~= all.skip(i + 1));
        i = i + 1;
    }
    None
}

/// An interface of a class and subclass is found exactly when there is one.
pub proof fn interface_is_found(interfaces: Seq<UsbInterfaceInfo>, class: u8, sub_class: u8)
    ensures
        first_interface(interfaces, class, sub_class) is Some <==> exists|i: int|
            0 <= i < interfaces.len() && (#[trigger] interfaces[i]).class == class
                && interfaces[i].sub_class == sub_class,
    decreases interfaces.len(),
{
    if interfaces.len() > 0 && !(interfaces[0].class == class && interfaces[0].sub_class
        == sub_class) {
        let rest = interfaces.skip(1);
        interface_is_found(rest, class, sub_class);
        if exists|i: int|
            0 <= i < interfaces.len() && (#[trigger] interfaces[i]).class == class
                && interfaces[i].sub_class == sub_class {
            let i = choose|i: int|
                0 <= i < interfaces.len() && (#[trigger] interfaces[i]).class == class
                    && interfaces[i].sub_class == sub_class;
            assert(rest[i - 1] == interfaces[i]);
        }
        if exists|j: int|
            0 <= j < rest.len() && (#[trigger] rest[j]).class == class && rest[j].sub_class
                == sub_class {
            let j = choose|j: int|
                0 <= j < rest.len() && (#[trigger] rest[j]).class == class && rest[j].sub_class
                    == sub_class;
            assert(interfaces[j + 1] == rest[j]);
        }
    }
}

/// Of several interfaces of a class and subclass the first is found, by its number,
/// whatever stands before it (of another class or subclass) and behind it.
pub proof fn first_interface_is_the_first(
    before: Seq<UsbInterfaceInfo>,
    one: UsbInterfaceInfo,
    after: Seq<UsbInterfaceInfo>,
)
    requires
        forall|i: int|
            0 <= i < before.len() ==> (#[trigger] before[i]).class != one.class
                || before[i].sub_class != one.sub_class,
    ensures
        first_interface(before.push(one) + after, one.class, one.sub_class) == Some(one.number),
    decreases before.len(),
{
    let all = before.push(one) + after;
    if before.len() > 0 {
        let rest = before.skip(1);
        assert(before[0].class != one.class || before[0].sub_class != one.sub_class);
        assert(all.skip(1) =~= rest.push(one) + after);
        assert forall|i: int| 0 <= i < rest.len() implies (#[trigger] rest[i]).class != one.class
            || rest[i].sub_class != one.sub_class by {
            assert(rest[i] == before[i + 1]);
        }
        first_interface_is_the_first(rest, one, after);
    }
}

/// Which strings to read from an opened device, and in which language.
#[derive(Debug, Clone, Copy, PartialEq, Eq, Structural)]
pub struct StringPlan {
    pub lang: u16,
    /// Index of the product string, if the device has one.
    pub product: Option<u8>,
    /// Index of the serial-number string, if the device has one.
    pub serial: Option<u8>,
}

/// The string index `i`, unless it is 0, which means that there is no string.
pub open spec fn nonzero(i: u8) -> Option<u8> {
    if i == 0 {
        None
    } else {
        Some(i)
    }
}

/// The strings to read: none at all without a language, and none for a string that the
/// device lacks.
pub open spec fn string_plan(
    langs: Option<Seq<u16>>,
    product_index: u8,
    serial_index: u8,
) -> Option<StringPlan> {
    match langs {
        Some(l) => if l.len() == 0 {
            None
        } else {
            Some(
                StringPlan {
                    lang: l[0],
                    product: nonzero(product_index),
                    serial: nonzero(serial_index),
                },
            )
        },
        None => None,
    }
}

/// Strings are read in the first language that the device lists, each under its own
/// index; index 0 is no string, and without a language nothing is read.
pub proof fn strings_are_read_in_the_first_language(
    lang: u16,
    others: Seq<u16>,
    product_index: u8,
    serial_index: u8,
)
    ensures
        string_plan(None, product_index, serial_index) is None,
        string_plan(Some(Seq::empty()), product_index, serial_index) is None,
        ({
            let plan = string_plan(Some(seq![lang] + others), product_index, serial_index);
            &&& plan is Some
            &&& plan->0.lang == lang
            &&& plan->0.product is Some <==> product_index != 0
            &&& plan->0.product is Some ==> plan->0.product->0 == product_index
            &&& plan->0.serial is Some <==> serial_index != 0
            &&& plan->0.serial is Some ==> plan->0.serial->0 == serial_index
        }),
{
}

/// Plan the best-effort product and serial reads: none at all when the device
/// lists no language (or could not be asked), and none for a string it lacks.
pub fn plan_strings(langs: &Option<Vec<u16>>, product_index: u8, serial_index: u8) -> (r: Option<
    StringPlan,
>)
    ensures
        r == string_plan(
            match *langs {
                Some(l) => Some(l@),
                None => None,
            },
            product_index,
            serial_index,
        ),
{
    match langs {
        Some(l) => {
            if l.len() == 0 {
                return None;
            }
            let product = if product_index == 0 {
                None
            } else {
                Some(product_index)
            };
            let serial = if serial_index == 0 {
                None
            } else {
                Some(serial_index)
            };
            Some(StringPlan { lang: l[0], product, serial })
        },
        None => None,
    }
}

/// Who a control request is addressed to.
#[derive(Debug, Clone, Copy, PartialEq, Eq, Structural)]
pub enum Recipient {
    Device,
    Interface,
    Endpoint,
    Other,
}

/// The `bmRequestType` byte of a vendor request: direction in bit 7, the vendor
/// mark in bits 5-6, the recipient below.
pub open spec fn vendor_type(dir: Direction, recipient: Recipient) -> u8 {
    let d: int = match dir {
        Direction::In => 128,
        Direction::Out => 0,
    };
    let r: int = match recipient {
        Recipient::Device => 0,
        Recipient::Interface => 1,
        Recipient::Endpoint => 2,
        Recipient::Other => 3,
    };
    (d + 64 + r) as u8
}

/// Calls `rawusb::request_type` for a vendor request. It builds a `bmRequestType`
/// byte from its three parts: bit 7 for the direction (set for IN), bits 5-6 for
/// the type (2 for vendor), and the recipient's number in the low bits.
#[verifier::external_body]
fn vendor_request_type(dir: Direction, recipient: Recipient) -> (b: u8)
    ensures
        b == vendor_type(dir, recipient),
{
    let d = match dir {
        Direction::In => rawusb::Direction::In,
        Direction::Out => rawusb::Direction::Out,
    };
    let r = match recipient {
        Recipient::Device => rawusb::Recipient::Device,
        Recipient::Interface => rawusb::Recipient::Interface,
        Recipient::Endpoint => rawusb::Recipient::Endpoint,
        Recipient::Other => rawusb::Recipient::Other,
    };
    rawusb::request_type(d, rawusb::ControlType::Vendor, r)
}

/// A vendor control request, ready to be put on the wire.
#[derive(Debug, Clone, Copy, PartialEq, Eq, Structural)]
pub struct VendorRequest {
    pub request_type: u8,
    pub request: u8,
    pub value: u16,
    pub index: u16,
    /// Bytes to read, for an IN request; 0 for an OUT request.
    pub length: u16,
}

impl VendorRequest {
    /// A request that reads `length` bytes.
    pub open spec fn reads(
        recipient: Recipient,
        request: u8,
        value: u16,
        index: u16,
        length: u16,
    ) -> VendorRequest {
        VendorRequest {
            request_type: vendor_type(Direction::In, recipient),
            request,
            value,
            index,
            length,
        }
    }

    /// A request that sends no data.
    pub open spec fn tells(recipient: Recipient, request: u8, value: u16, index: u16) -> VendorRequest {
        VendorRequest {
            request_type: vendor_type(Direction::Out, recipient),
            request,
            value,
            index,
            length: 0,
        }
    }
}

/// Vendor control IN request for `length` bytes.
pub fn vendor_in(recipient: Recipient, request: u8, value: u16, index: u16, length: u16) -> (r:
    VendorRequest)
    ensures
        r == VendorRequest::reads(recipient, request, value, index, length),
{
    VendorRequest {
        request_type: vendor_request_type(Direction::In, recipient),
        request,
        value,
        index,
        length,
    }
}

/// Vendor control OUT request.
pub fn vendor_out(recipient: Recipient, request: u8, value: u16, index: u16) -> (r: VendorRequest)
    ensures
        r == VendorRequest::tells(recipient, request, value, index),
{
    VendorRequest {
        request_type: vendor_request_type(Direction::Out, recipient),
        request,
        value,
        index,
        length: 0,
    }
}

/// A vendor request carries the number, value and index it was made with; one that reads
/// says so in the top bit of its type and for how many bytes, one that does not has none.
/// The low bits of the type are 0 for the device, 1 for an interface, 2 for an endpoint
/// and 3 for anything else.
pub proof fn vendor_requests_say_what_was_asked(
    recipient: Recipient,
    request: u8,
    value: u16,
    index: u16,
    length: u16,
)
    ensures
        ({
            let to = match recipient {
                Recipient::Device => 0int,
                Recipient::Interface => 1,
                Recipient::Endpoint => 2,
                Recipient::Other => 3,
            };
            let r = VendorRequest::reads(recipient, request, value, index, length);
            let t = VendorRequest::tells(recipient, request, value, index);
            &&& r.request_type == 0xC0 + to
            &&& t.request_type == 0x40 + to
            &&& r.request == request && t.request == request
            &&& r.value == value && t.value == value
            &&& r.index == index && t.index == index
            &&& r.length == length && t.length == 0
        }),
{
}

/// The parts of a vendor request's type byte can be read back from it.
pub proof fn vendor_type_fields(dir: Direction, recipient: Recipient)
    ensures
        vendor_type(dir, recipient) >= 128 <==> dir == Direction::In,
        (vendor_type(dir, recipient) / 32) % 4 == 2,
        vendor_type(dir, recipient) % 32 <= 3,
{
}

} // verus!

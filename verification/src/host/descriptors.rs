//! Lenient, **forensic** USB descriptor parsing and a parsed device model.
//!
//! Unlike a normal USB stack, parsing here never fails on malformed input: a
//! truncated, over-long, or out-of-order descriptor is recorded (in
//! [`UsbDeviceModel::anomalies`], or surfaced as a short/raw descriptor) rather
//! than rejected. The goal is to faithfully represent whatever a device actually
//! sent - including things a compliant device never would.

use std::collections::BTreeMap;

use vstd::prelude::*;
use vstd::slice::slice_subrange;
use vstd::slice::slice_to_vec;

use crate::bytes;
use crate::capture::Speed;
use crate::host::descriptor_type;
use crate::host::DeviceDescriptor;
use crate::utf16;

verus! {

/// One descriptor as it appears in a descriptor blob: its declared length and
/// type plus the actual bytes captured for it (which may be shorter than
/// `length` claims, if the blob was truncated).
#[derive(Debug, Clone, PartialEq, Eq)]
pub struct RawDescriptor {
    /// `bLength` as declared in byte 0.
    pub length: u8,
    /// `bDescriptorType` (byte 1), or 0 if the descriptor was too short to have one.
    pub descriptor_type: u8,
    /// The bytes actually present for this descriptor.
    pub bytes: Vec<u8>,
    /// True if fewer than `length` bytes were available (the blob was truncated
    /// here), or if `length` was zero and the rest could not be framed.
    pub truncated: bool,
}

/// What a [`RawDescriptor`] holds.
#[verifier::ext_equal]
pub struct RawDescriptorView {
    pub length: u8,
    pub descriptor_type: u8,
    pub bytes: Seq<u8>,
    pub truncated: bool,
}

impl View for RawDescriptor {
    type V = RawDescriptorView;

    open spec fn view(&self) -> RawDescriptorView {
        RawDescriptorView {
            length: self.length,
            descriptor_type: self.descriptor_type,
            bytes: self.bytes@,
            truncated: self.truncated,
        }
    }
}

/// What a sequence of raw descriptors holds.
pub open spec fn raw_views(s: Seq<RawDescriptor>) -> Seq<RawDescriptorView> {
    Seq::new(s.len(), |i: int| s[i]@)
}

/// The first descriptor framed at the start of a non-empty blob.
pub open spec fn first_descriptor(blob: Seq<u8>) -> RawDescriptorView {
    let length = blob[0];
    let taken: int = if length == 0 {
        1
    } else if length as int > blob.len() {
        blob.len() as int
    } else {
        length as int
    };
    RawDescriptorView {
        length,
        descriptor_type: if taken >= 2 {
            blob[1]
        } else {
            0
        },
        bytes: blob.take(taken),
        truncated: length == 0 || length as int > blob.len(),
    }
}

/// The descriptors of a blob, framed by `bLength`: each starts where the one
/// before it ends. A zero `bLength` is recorded as one byte and ends the walk,
/// as does a descriptor that runs past the end of the blob.
pub open spec fn walked(blob: Seq<u8>) -> Seq<RawDescriptorView>
    decreases blob.len(),
{
    if blob.len() == 0 {
        Seq::empty()
    } else {
        let d = first_descriptor(blob);
        if d.truncated {
            seq![d]
        } else {
            seq![d] + walked(blob.skip(d.length as int))
        }
    }
}

/// The bytes of a sequence of descriptors, in order.
pub open spec fn joined(ds: Seq<RawDescriptorView>) -> Seq<u8>
    decreases ds.len(),
{
    if ds.len() == 0 {
        Seq::empty()
    } else {
        ds[0].bytes + joined(ds.skip(1))
    }
}

/// No byte is lost or reordered by a walk: the descriptors' bytes joined together
/// are a prefix of the blob, and the whole blob unless a zero `bLength` stopped
/// the walk. Only the last descriptor can be truncated, and every other one has
/// exactly the bytes that it declares.
pub proof fn walk_keeps_every_byte(blob: Seq<u8>)
    ensures
        ({
            let ds = walked(blob);
            &&& joined(ds).is_prefix_of(blob)
            &&& (forall|i: int| 0 <= i < ds.len() ==> (#[trigger] ds[i]).length != 0) ==> joined(ds)
                == blob
            &&& forall|i: int|
                0 <= i < ds.len() - 1 ==> !(#[trigger] ds[i]).truncated && ds[i].bytes.len()
                    == ds[i].length && ds[i].length > 0
            &&& blob.len() > 0 ==> ds.len() > 0
        }),
    decreases blob.len(),
{
    let ds = walked(blob);
    if blob.len() > 0 {
        let d = first_descriptor(blob);
        assert(ds[0] == d);
        if d.truncated {
            assert(ds.skip(1) =~= Seq::<RawDescriptorView>::empty());
            assert(joined(ds.skip(1)) =~= Seq::<u8>::empty());
            assert(joined(ds) =~= d.bytes);
            if d.length != 0 {
                assert(joined(ds) =~= blob);
            }
        } else {
            let rest = blob.skip(d.length as int);
            walk_keeps_every_byte(rest);
            assert(ds.skip(1) =~= walked(rest));
            assert(joined(ds) == d.bytes + joined(walked(rest)));
            assert(blob =~= d.bytes + rest);
            assert forall|i: int| 0 <= i < ds.len() - 1 implies !(#[trigger] ds[i]).truncated
                && ds[i].bytes.len() == ds[i].length && ds[i].length > 0 by {
                if i > 0 {
                    assert(ds[i] == walked(rest)[i - 1]);
                }
            }
            if forall|i: int| 0 <= i < ds.len() ==> (#[trigger] ds[i]).length != 0 {
                assert forall|i: int| 0 <= i < walked(rest).len() implies (#[trigger] walked(
                    rest,
                )[i]).length != 0 by {
                    assert(walked(rest)[i] == ds[i + 1]);
                }
                assert(joined(ds) =~= blob);
            }
        }
    } else {
        assert(joined(ds) =~= blob);
    }
}

/// Every descriptor of a walk is its own bytes: `bLength` is the first of them, the
/// type the second (0 without one), and it is marked truncated exactly if it holds
/// fewer bytes than it declares or declares none.
pub proof fn walked_descriptors_are_their_bytes(blob: Seq<u8>, i: int)
    requires
        0 <= i < walked(blob).len(),
    ensures
        ({
            let d = walked(blob)[i];
            &&& d.bytes.len() > 0
            &&& d.length == d.bytes[0]
            &&& d.descriptor_type == (if d.bytes.len() >= 2 {
                d.bytes[1]
            } else {
                0
            })
            &&& d.truncated <==> d.length == 0 || d.bytes.len() < d.length
            &&& d.length == 0 ==> d.bytes.len() == 1
            &&& !d.truncated ==> d.bytes.len() == d.length
        }),
    decreases blob.len(),
{
    let d = first_descriptor(blob);
    if !d.truncated {
        let rest = blob.skip(d.length as int);
        if i > 0 {
            walked_descriptors_are_their_bytes(rest, i - 1);
            assert(walked(blob)[i] == walked(rest)[i - 1]);
        }
    }
}

/// The bytes of a list of descriptors, one after the other.
pub open spec fn laid_out(ds: Seq<Seq<u8>>) -> Seq<u8>
    decreases ds.len(),
{
    if ds.len() == 0 {
        Seq::empty()
    } else {
        ds[0] + laid_out(ds.skip(1))
    }
}

/// Descriptors that each start with their own length, laid out one after the other,
/// are walked as exactly those descriptors, in order, each whole and with its type.
pub proof fn walk_reads_back(ds: Seq<Seq<u8>>)
    requires
        forall|i: int|
            0 <= i < ds.len() ==> (#[trigger] ds[i]).len() > 0 && ds[i][0] == ds[i].len(),
    ensures
        walked(laid_out(ds)).len() == ds.len(),
        forall|i: int|
            0 <= i < ds.len() ==> ({
                let d = #[trigger] walked(laid_out(ds))[i];
                &&& d.bytes == ds[i]
                &&& !d.truncated
                &&& d.length == ds[i].len()
                &&& d.descriptor_type == (if ds[i].len() >= 2 {
                    ds[i][1]
                } else {
                    0
                })
            }),
    decreases ds.len(),
{
    let blob = laid_out(ds);
    if ds.len() > 0 {
        let tail = ds.skip(1);
        assert forall|i: int| 0 <= i < tail.len() implies (#[trigger] tail[i]).len() > 0
            && tail[i][0] == tail[i].len() by {
            assert(tail[i] == ds[i + 1]);
        }
        walk_reads_back(tail);
        let d = first_descriptor(blob);
        assert(ds[0].len() > 0 && ds[0][0] == ds[0].len());
        assert(blob[0] == ds[0][0]);
        assert(blob.take(ds[0].len() as int) =~= ds[0]);
        assert(blob.skip(ds[0].len() as int) =~= laid_out(tail));
        assert(walked(blob) == seq![d] + walked(laid_out(tail)));
        assert forall|i: int| 0 <= i < ds.len() implies ({
            let d = #[trigger] walked(blob)[i];
            &&& d.bytes == ds[i]
            &&& !d.truncated
            &&& d.length == ds[i].len()
            &&& d.descriptor_type == (if ds[i].len() >= 2 {
                ds[i][1]
            } else {
                0
            })
        }) by {
            if i > 0 {
                assert(walked(blob)[i] == walked(laid_out(tail))[i - 1]);
                assert(tail[i - 1] == ds[i]);
            }
        }
    }
}

/// Walk a descriptor blob into its constituent descriptors by `bLength`.
///
/// Tolerates a zero `bLength` (which would otherwise loop forever) and a final
/// descriptor that runs past the end of the buffer, marking both `truncated`.
/// A trailing partial descriptor (1 byte) is still reported.
pub fn walk(blob: &[u8]) -> (ds: Vec<RawDescriptor>)
    ensures
        raw_views(ds@) == walked(blob@),
{
    let mut out: Vec<RawDescriptor> = Vec::new();
    let mut i: usize = 0;
    let n: usize = blob.len();
    assert(blob@.skip(0) =~= blob@);
    assert(raw_views(out@) + walked(blob@.skip(0)) =~= walked(blob@));
    while i < n
        invariant
            i <= n == blob@.len(),
            raw_views(out@) + walked(blob@.skip(i as int)) == walked(blob@),
        decreases n - i,
    {
        let ghost rest = blob@.skip(i as int);
        let ghost before = raw_views(out@);
        let length: u8 = blob[i];
        let left: usize = n - i;
        // A bLength of 0 is illegal and would never advance - record one byte and
        // stop walking (the rest can't be framed).
        let (taken, truncated): (usize, bool) = if length == 0 {
            (1, true)
        } else if length as usize > left {
            (left, true)
        } else {
            (length as usize, false)
        };
        let descriptor_type: u8 = if taken >= 2 {
            blob[i + 1]
        } else {
            0
        };
        let d = RawDescriptor {
            length,
            descriptor_type,
            bytes: slice_to_vec(slice_subrange(blob, i, i + taken)),
            truncated,
        };
        proof {
            assert(d@.bytes =~= first_descriptor(rest).bytes);
            assert(d@ == first_descriptor(rest));
        }
        out.push(d);
        assert(raw_views(out@) =~= before.push(first_descriptor(rest)));
        if truncated {
            assert(raw_views(out@) =~= walked(blob@));
            return out;
        }
        proof {
            assert(rest.skip(length as int) =~= blob@.skip(i + length));
            assert(raw_views(out@) + walked(blob@.skip(i + length)) =~= before + walked(rest));
        }
        i = i + length as usize;
    }
    assert(blob@.skip(i as int) =~= Seq::<u8>::empty());
    assert(raw_views(out@) =~= walked(blob@));
    out
}

/// Parsed standard **configuration descriptor** (9 bytes).
#[derive(Debug, Clone, Copy, PartialEq, Eq, Structural)]
pub struct ConfigurationDescriptor {
    pub total_length: u16,
    pub num_interfaces: u8,
    pub configuration_value: u8,
    pub configuration_index: u8,
    pub attributes: u8,
    pub max_power: u8,
}

impl ConfigurationDescriptor {
    /// The configuration descriptor that `b` starts with; none in fewer than 9 bytes.
    pub open spec fn parsed(b: Seq<u8>) -> Option<ConfigurationDescriptor> {
        if b.len() < 9 {
            None
        } else {
            Some(
                ConfigurationDescriptor {
                    total_length: bytes::u16_le(b[2], b[3]),
                    num_interfaces: b[4],
                    configuration_value: b[5],
                    configuration_index: b[6],
                    attributes: b[7],
                    max_power: b[8],
                },
            )
        }
    }

    /// Parse the first 9 bytes; returns `None` if there aren't enough bytes.
    pub fn parse(b: &[u8]) -> (r: Option<ConfigurationDescriptor>)
        ensures
            r == Self::parsed(b@),
    {
        if b.len() < 9 {
            return None;
        }
        Some(
            ConfigurationDescriptor {
                total_length: bytes::read_u16_le(b[2], b[3]),
                num_interfaces: b[4],
                configuration_value: b[5],
                configuration_index: b[6],
                attributes: b[7],
                max_power: b[8],
            },
        )
    }
}

/// Parsed standard **interface descriptor** (9 bytes).
#[derive(Debug, Clone, Copy, PartialEq, Eq, Structural)]
pub struct InterfaceDescriptor {
    pub interface_number: u8,
    pub alternate_setting: u8,
    pub num_endpoints: u8,
    pub class: u8,
    pub subclass: u8,
    pub protocol: u8,
    pub interface_index: u8,
}

impl InterfaceDescriptor {
    /// The interface descriptor that `b` starts with; none in fewer than 9 bytes.
    pub open spec fn parsed(b: Seq<u8>) -> Option<InterfaceDescriptor> {
        if b.len() < 9 {
            None
        } else {
            Some(
                InterfaceDescriptor {
                    interface_number: b[2],
                    alternate_setting: b[3],
                    num_endpoints: b[4],
                    class: b[5],
                    subclass: b[6],
                    protocol: b[7],
                    interface_index: b[8],
                },
            )
        }
    }

    /// Parse the first 9 bytes; returns `None` if there aren't enough bytes.
    pub fn parse(b: &[u8]) -> (r: Option<InterfaceDescriptor>)
        ensures
            r == Self::parsed(b@),
    {
        if b.len() < 9 {
            return None;
        }
        Some(
            InterfaceDescriptor {
                interface_number: b[2],
                alternate_setting: b[3],
                num_endpoints: b[4],
                class: b[5],
                subclass: b[6],
                protocol: b[7],
                interface_index: b[8],
            },
        )
    }
}

/// Configuration and interface descriptors laid out as the standard says, 9 bytes each,
/// are read back field by field, whatever their first two bytes and whatever follows;
/// fewer bytes are neither.
pub proof fn configuration_and_interface_layout(
    length: u8,
    desc_type: u8,
    c: ConfigurationDescriptor,
    i: InterfaceDescriptor,
    tail: Seq<u8>,
    short: Seq<u8>,
)
    requires
        short.len() < 9,
    ensures
        ConfigurationDescriptor::parsed(
            seq![
                length,
                desc_type,
                (c.total_length % 256) as u8,
                (c.total_length / 256) as u8,
                c.num_interfaces,
                c.configuration_value,
                c.configuration_index,
                c.attributes,
                c.max_power,
            ] + tail,
        ) == Some(c),
        InterfaceDescriptor::parsed(
            seq![
                length,
                desc_type,
                i.interface_number,
                i.alternate_setting,
                i.num_endpoints,
                i.class,
                i.subclass,
                i.protocol,
                i.interface_index,
            ] + tail,
        ) == Some(i),
        ConfigurationDescriptor::parsed(short) is None,
        InterfaceDescriptor::parsed(short) is None,
{
}

/// Endpoint transfer type (`bmAttributes` bits 0-1).
#[derive(Debug, Clone, Copy, PartialEq, Eq, Structural)]
pub enum TransferType {
    Control,
    Isochronous,
    Bulk,
    Interrupt,
}

/// Parsed standard **endpoint descriptor** (7 bytes).
#[derive(Debug, Clone, Copy, PartialEq, Eq, Structural)]
pub struct EndpointDescriptor {
    pub address: u8,
    pub attributes: u8,
    pub max_packet_size: u16,
    pub interval: u8,
}

impl EndpointDescriptor {
    /// The endpoint descriptor that `b` starts with; none in fewer than 7 bytes.
    pub open spec fn parsed(b: Seq<u8>) -> Option<EndpointDescriptor> {
        if b.len() < 7 {
            None
        } else {
            Some(
                EndpointDescriptor {
                    address: b[2],
                    attributes: b[3],
                    max_packet_size: bytes::u16_le(b[4], b[5]),
                    interval: b[6],
                },
            )
        }
    }

    /// Parse the first 7 bytes; returns `None` if there aren't enough bytes.
    pub fn parse(b: &[u8]) -> (r: Option<EndpointDescriptor>)
        ensures
            r == Self::parsed(b@),
    {
        if b.len() < 7 {
            return None;
        }
        Some(
            EndpointDescriptor {
                address: b[2],
                attributes: b[3],
                max_packet_size: bytes::read_u16_le(b[4], b[5]),
                interval: b[6],
            },
        )
    }

    /// The endpoint number (low 4 bits of `bEndpointAddress`).
    pub open spec fn endpoint_number(self) -> u8 {
        self.address % 16
    }

    /// Whether this is an IN endpoint (bit 7 of `bEndpointAddress`).
    pub open spec fn points_in(self) -> bool {
        self.address >= 128
    }

    /// The transfer type (bits 0-1 of `bmAttributes`).
    pub open spec fn kind(self) -> TransferType {
        if self.attributes % 4 == 0 {
            TransferType::Control
        } else if self.attributes % 4 == 1 {
            TransferType::Isochronous
        } else if self.attributes % 4 == 2 {
            TransferType::Bulk
        } else {
            TransferType::Interrupt
        }
    }

    /// Endpoint number (low 4 bits of `bEndpointAddress`).
    pub fn number(self) -> (n: u8)
        ensures
            n == self.endpoint_number(),
    {
        self.address % 16
    }

    /// True if this is an IN endpoint (bit 7 of `bEndpointAddress`).
    pub fn is_in(self) -> (r: bool)
        ensures
            r == self.points_in(),
    {
        self.address >= 128
    }

    /// Transfer type from `bmAttributes`.
    pub fn transfer_type(self) -> (t: TransferType)
        ensures
            t == self.kind(),
    {
        match self.attributes % 4 {
            0 => TransferType::Control,
            1 => TransferType::Isochronous,
            2 => TransferType::Bulk,
            _ => TransferType::Interrupt,
        }
    }
}

/// An endpoint descriptor laid out as the standard says, 7 bytes, is read back field by
/// field, whatever follows; fewer bytes are none.
pub proof fn endpoint_layout(
    length: u8,
    desc_type: u8,
    e: EndpointDescriptor,
    tail: Seq<u8>,
    short: Seq<u8>,
)
    requires
        short.len() < 7,
    ensures
        EndpointDescriptor::parsed(
            seq![
                length,
                desc_type,
                e.address,
                e.attributes,
                (e.max_packet_size % 256) as u8,
                (e.max_packet_size / 256) as u8,
                e.interval,
            ] + tail,
        ) == Some(e),
        EndpointDescriptor::parsed(short) is None,
{
}

/// The address of an endpoint packs its direction (bit 7, set for IN) and its number
/// (bits 0-3), and its attributes pack the transfer type (bits 0-1: 0 control, 1
/// isochronous, 2 bulk, 3 interrupt); the bits between and above say nothing of them.
pub proof fn endpoint_bits(
    e: EndpointDescriptor,
    inward: bool,
    reserved: u8,
    number: u8,
    above: u8,
    kind: u8,
)
    requires
        reserved < 8,
        number < 16,
        above < 64,
        kind < 4,
        e.address == (if inward {
            128int
        } else {
            0
        }) + 16 * reserved + number,
        e.attributes == 4 * above + kind,
    ensures
        e.endpoint_number() == number,
        e.points_in() == inward,
        e.kind() is Control <==> kind == 0,
        e.kind() is Isochronous <==> kind == 1,
        e.kind() is Bulk <==> kind == 2,
        e.kind() is Interrupt <==> kind == 3,
{
}

/// A decoded USB **string descriptor**.
pub struct StringDescriptor;

impl StringDescriptor {
    /// The 16-bit units of a string descriptor; none when `b` is not one.
    pub open spec fn units(b: Seq<u8>) -> Seq<u16> {
        if b.len() < 2 || b[1] != descriptor_type::STRING {
            Seq::empty()
        } else {
            utf16::le_units(b.skip(2))
        }
    }

    /// The text of a string descriptor.
    pub open spec fn text(b: Seq<u8>) -> Seq<char> {
        utf16::decode_utf16(Self::units(b))
    }

    /// Decode a UTF-16LE string descriptor (2-byte header, then the text).
    /// Lossy: invalid surrogate pairs become U+FFFD rather than erroring.
    pub fn decode(b: &[u8]) -> (s: String)
        ensures
            s@ == Self::text(b@),
    {
        let units = Self::parse_langids(b);
        utf16::decode_units(&units)
    }

    /// Parse the LANGID list from string descriptor index 0.
    pub fn parse_langids(b: &[u8]) -> (u: Vec<u16>)
        ensures
            u@ == Self::units(b@),
    {
        if b.len() < 2 || b[1] != descriptor_type::STRING {
            return Vec::new();
        }
        utf16::read_units(b, 2)
    }
}

/// The units of a string descriptor follow its two-byte head, two bytes each, the byte
/// of least weight first, as many as there are in full; another descriptor has none.
/// Its text is the units as UTF-16.
pub proof fn string_descriptor_layout(b: Seq<u8>, i: int)
    ensures
        StringDescriptor::units(b).len() == (if b.len() >= 2 && b[1] == 3 {
            (b.len() - 2) / 2
        } else {
            0
        }),
        b.len() >= 2 && b[1] == 3 && 0 <= i && 4 + 2 * i <= b.len() ==> StringDescriptor::units(
            b,
        )[i] == b[2 + 2 * i] + 256 * b[3 + 2 * i],
        StringDescriptor::text(b) == utf16::decode_utf16(StringDescriptor::units(b)),
{
}

/// One interface (alternate setting) with its endpoints and any class-specific
/// descriptors that followed it.
#[derive(Debug, Clone, PartialEq, Eq)]
pub struct Interface {
    pub descriptor: InterfaceDescriptor,
    pub endpoints: Vec<EndpointDescriptor>,
    /// Descriptors between this interface and its endpoints / the next interface
    /// that aren't standard endpoints (HID, CDC, audio, vendor, ...).
    pub class_specific: Vec<RawDescriptor>,
}

/// What an [`Interface`] holds.
#[verifier::ext_equal]
pub struct InterfaceView {
    pub descriptor: InterfaceDescriptor,
    pub endpoints: Seq<EndpointDescriptor>,
    pub class_specific: Seq<RawDescriptorView>,
}

impl View for Interface {
    type V = InterfaceView;

    open spec fn view(&self) -> InterfaceView {
        InterfaceView {
            descriptor: self.descriptor,
            endpoints: self.endpoints@,
            class_specific: raw_views(self.class_specific@),
        }
    }
}

/// What a sequence of interfaces holds.
pub open spec fn interface_views(s: Seq<Interface>) -> Seq<InterfaceView> {
    Seq::new(s.len(), |i: int| s[i]@)
}

/// A configuration with its interfaces (one entry per interface descriptor,
/// including alternate settings).
#[derive(Debug, Clone, PartialEq, Eq)]
pub struct Configuration {
    pub descriptor: ConfigurationDescriptor,
    pub interfaces: Vec<Interface>,
    /// Descriptors before the first interface (e.g. an IAD) or otherwise
    /// unattributed, kept raw.
    pub other: Vec<RawDescriptor>,
}

/// What a [`Configuration`] holds.
#[verifier::ext_equal]
pub struct ConfigurationView {
    pub descriptor: ConfigurationDescriptor,
    pub interfaces: Seq<InterfaceView>,
    pub other: Seq<RawDescriptorView>,
}

impl View for Configuration {
    type V = ConfigurationView;

    open spec fn view(&self) -> ConfigurationView {
        ConfigurationView {
            descriptor: self.descriptor,
            interfaces: interface_views(self.interfaces@),
            other: raw_views(self.other@),
        }
    }
}

impl ConfigurationView {
    /// Attach one descriptor to the tree: an interface opens a new entry, an
    /// endpoint joins the last interface, and anything else - including an
    /// interface or endpoint too short to parse - is kept raw, in the last
    /// interface or, before the first, in `other`.
    pub open spec fn attach(self, d: RawDescriptorView) -> ConfigurationView {
        let iface = InterfaceDescriptor::parsed(d.bytes);
        let ep = EndpointDescriptor::parsed(d.bytes);
        if d.descriptor_type == descriptor_type::INTERFACE && iface is Some {
            ConfigurationView {
                interfaces: self.interfaces.push(
                    InterfaceView {
                        descriptor: iface->0,
                        endpoints: Seq::empty(),
                        class_specific: Seq::empty(),
                    },
                ),
                ..self
            }
        } else if self.interfaces.len() == 0 {
            ConfigurationView { other: self.other.push(d), ..self }
        } else {
            let last = self.interfaces.last();
            let grown = if d.descriptor_type == descriptor_type::ENDPOINT && ep is Some {
                InterfaceView { endpoints: last.endpoints.push(ep->0), ..last }
            } else {
                InterfaceView { class_specific: last.class_specific.push(d), ..last }
            };
            ConfigurationView {
                interfaces: self.interfaces.update(self.interfaces.len() - 1, grown),
                ..self
            }
        }
    }

    /// The tree after attaching every descriptor of `ds` in order.
    pub open spec fn attach_all(self, ds: Seq<RawDescriptorView>) -> ConfigurationView
        decreases ds.len(),
    {
        if ds.len() == 0 {
            self
        } else {
            self.attach_all(ds.drop_last()).attach(ds.last())
        }
    }

    /// The configuration that a blob describes; none when the blob is too short
    /// for its own configuration descriptor.
    pub open spec fn parsed(blob: Seq<u8>) -> Option<ConfigurationView> {
        match ConfigurationDescriptor::parsed(blob) {
            None => None,
            Some(descriptor) => Some(
                (ConfigurationView {
                    descriptor,
                    interfaces: Seq::empty(),
                    other: Seq::empty(),
                }).attach_all(walked(blob).skip(1)),
            ),
        }
    }

    /// How many descriptors the tree holds, besides the configuration's own.
    pub open spec fn count(self) -> nat {
        self.other.len() + interfaces_count(self.interfaces)
    }
}

/// How many descriptors a list of interfaces holds.
pub open spec fn interfaces_count(s: Seq<InterfaceView>) -> nat
    decreases s.len(),
{
    if s.len() == 0 {
        0
    } else {
        interfaces_count(s.drop_last()) + 1 + s.last().endpoints.len()
            + s.last().class_specific.len()
    }
}

/// Parsing a configuration loses no descriptor: the tree holds exactly as many
/// as the walk found after the configuration descriptor itself.
pub proof fn configuration_loses_nothing(blob: Seq<u8>)
    ensures
        ConfigurationView::parsed(blob) matches Some(c) ==> c.count() == walked(blob).len() - 1,
{
    if ConfigurationDescriptor::parsed(blob) is Some {
        let start = ConfigurationView {
            descriptor: ConfigurationDescriptor::parsed(blob)->0,
            interfaces: Seq::empty(),
            other: Seq::empty(),
        };
        lemma_attach_all_count(start, walked(blob).skip(1));
        walk_keeps_every_byte(blob);
    }
}

proof fn lemma_attach_all_count(c: ConfigurationView, ds: Seq<RawDescriptorView>)
    ensures
        c.attach_all(ds).count() == c.count() + ds.len(),
    decreases ds.len(),
{
    if ds.len() > 0 {
        lemma_attach_all_count(c, ds.drop_last());
        let mid = c.attach_all(ds.drop_last());
        let d = ds.last();
        let after = mid.attach(d);
        if after.interfaces.len() == mid.interfaces.len() + 1 {
            assert(after.interfaces.drop_last() =~= mid.interfaces);
        } else if mid.interfaces.len() > 0 {
            assert(after.interfaces.drop_last() =~= mid.interfaces.drop_last());
        }
    }
}

/// Attaching a descriptor changes one place of the tree and no other: an interface
/// (9 bytes or more) opens an entry at the end; an endpoint (7 bytes or more) joins the
/// endpoints of the last interface; anything else joins the class-specific descriptors
/// of the last interface, or the others of the configuration while there is none.
pub proof fn attach_changes_one_place(c: ConfigurationView, d: RawDescriptorView)
    ensures
        ({
            let t = c.attach(d);
            let n = c.interfaces.len() as int;
            let opens = d.descriptor_type == 4 && d.bytes.len() >= 9;
            let joins = d.descriptor_type == 5 && d.bytes.len() >= 7;
            &&& t.descriptor == c.descriptor
            &&& t.interfaces.len() == n + (if opens {
                1int
            } else {
                0
            })
            &&& forall|i: int| 0 <= i < n - 1 ==> #[trigger] t.interfaces[i] == c.interfaces[i]
            &&& opens ==> {
                &&& n > 0 ==> t.interfaces[n - 1] == c.interfaces[n - 1]
                &&& Some(t.interfaces[n].descriptor) == InterfaceDescriptor::parsed(d.bytes)
                &&& t.interfaces[n].endpoints.len() == 0
                &&& t.interfaces[n].class_specific.len() == 0
                &&& t.other == c.other
            }
            &&& !opens && n == 0 ==> t.other == c.other.push(d)
            &&& !opens && n > 0 ==> {
                let (last, grown) = (c.interfaces[n - 1], t.interfaces[n - 1]);
                &&& t.other == c.other
                &&& grown.descriptor == last.descriptor
                &&& joins ==> {
                    &&& grown.class_specific == last.class_specific
                    &&& grown.endpoints.drop_last() == last.endpoints
                    &&& grown.endpoints.len() == last.endpoints.len() + 1
                    &&& Some(grown.endpoints.last()) == EndpointDescriptor::parsed(d.bytes)
                }
                &&& !joins ==> {
                    &&& grown.endpoints == last.endpoints
                    &&& grown.class_specific == last.class_specific.push(d)
                }
            }
        }),
{
    let n = c.interfaces.len() as int;
    let t = c.attach(d);
    if n > 0 && !(d.descriptor_type == 4 && d.bytes.len() >= 9) {
        let (last, grown) = (c.interfaces[n - 1], t.interfaces[n - 1]);
        if d.descriptor_type == 5 && d.bytes.len() >= 7 {
            assert(grown.endpoints.drop_last() =~= last.endpoints);
        }
    }
}

/// A parsed configuration holds the configuration descriptor that the blob starts
/// with.
pub proof fn configuration_keeps_its_descriptor(blob: Seq<u8>)
    ensures
        ConfigurationView::parsed(blob) matches Some(c) ==> Some(c.descriptor)
            == ConfigurationDescriptor::parsed(blob),
{
    if ConfigurationDescriptor::parsed(blob) is Some {
        let start = ConfigurationView {
            descriptor: ConfigurationDescriptor::parsed(blob)->0,
            interfaces: Seq::empty(),
            other: Seq::empty(),
        };
        lemma_attach_all_descriptor(start, walked(blob).skip(1));
    }
}

proof fn lemma_attach_all_descriptor(c: ConfigurationView, ds: Seq<RawDescriptorView>)
    ensures
        c.attach_all(ds).descriptor == c.descriptor,
    decreases ds.len(),
{
    if ds.len() > 0 {
        lemma_attach_all_descriptor(c, ds.drop_last());
    }
}

/// A whole descriptor with the given bytes.
pub open spec fn whole(b: Seq<u8>) -> RawDescriptorView {
    RawDescriptorView {
        length: b[0],
        descriptor_type: if b.len() >= 2 {
            b[1]
        } else {
            0
        },
        bytes: b,
        truncated: false,
    }
}

/// Whether a descriptor is whole, and neither an interface nor an endpoint.
pub open spec fn is_plain(d: RawDescriptorView) -> bool {
    &&& d.bytes.len() > 0 && d.bytes[0] == d.bytes.len()
    &&& d == whole(d.bytes)
    &&& d.descriptor_type != 4 && d.descriptor_type != 5
}

/// The bytes of each descriptor of a list.
pub open spec fn bytes_of(ds: Seq<RawDescriptorView>) -> Seq<Seq<u8>> {
    Seq::new(ds.len(), |i: int| ds[i].bytes)
}

/// A whole descriptor for each of a list of byte strings.
pub open spec fn wholes(bs: Seq<Seq<u8>>) -> Seq<RawDescriptorView> {
    Seq::new(bs.len(), |i: int| whole(bs[i]))
}

/// The 9 bytes of an interface descriptor.
pub open spec fn interface_bytes(i: InterfaceDescriptor) -> Seq<u8> {
    seq![
        9u8,
        4,
        i.interface_number,
        i.alternate_setting,
        i.num_endpoints,
        i.class,
        i.subclass,
        i.protocol,
        i.interface_index,
    ]
}

/// The 7 bytes of an endpoint descriptor.
pub open spec fn endpoint_bytes(e: EndpointDescriptor) -> Seq<u8> {
    seq![
        7u8,
        5,
        e.address,
        e.attributes,
        (e.max_packet_size % 256) as u8,
        (e.max_packet_size / 256) as u8,
        e.interval,
    ]
}

/// The descriptors of an interface: its own, the class-specific ones, its endpoints.
pub open spec fn interface_parts(i: InterfaceView) -> Seq<Seq<u8>> {
    seq![interface_bytes(i.descriptor)] + bytes_of(i.class_specific) + Seq::new(
        i.endpoints.len(),
        |k: int| endpoint_bytes(i.endpoints[k]),
    )
}

/// The descriptors of a list of interfaces.
pub open spec fn all_interface_parts(s: Seq<InterfaceView>) -> Seq<Seq<u8>>
    decreases s.len(),
{
    if s.len() == 0 {
        Seq::empty()
    } else {
        all_interface_parts(s.drop_last()) + interface_parts(s.last())
    }
}

/// The descriptors of a configuration: its own, those before the first interface, and
/// those of each interface.
pub open spec fn configuration_parts(c: ConfigurationView) -> Seq<Seq<u8>> {
    let d = c.descriptor;
    seq![
        seq![
            9u8,
            2,
            (d.total_length % 256) as u8,
            (d.total_length / 256) as u8,
            d.num_interfaces,
            d.configuration_value,
            d.configuration_index,
            d.attributes,
            d.max_power,
        ],
    ] + bytes_of(c.other) + all_interface_parts(c.interfaces)
}

/// Whether every raw descriptor of a configuration is plain.
pub open spec fn has_plain_parts(c: ConfigurationView) -> bool {
    &&& forall|k: int| 0 <= k < c.other.len() ==> is_plain(#[trigger] c.other[k])
    &&& forall|i: int, k: int|
        0 <= i < c.interfaces.len() && 0 <= k < c.interfaces[i].class_specific.len() ==> is_plain(
            #[trigger] c.interfaces[i].class_specific[k],
        )
}

proof fn lemma_attach_concat(
    c: ConfigurationView,
    a: Seq<RawDescriptorView>,
    b: Seq<RawDescriptorView>,
)
    ensures
        c.attach_all(a + b) == c.attach_all(a).attach_all(b),
    decreases b.len(),
{
    if b.len() == 0 {
        assert(a + b =~= a);
    } else {
        lemma_attach_concat(c, a, b.drop_last());
        assert((a + b).drop_last() =~= a + b.drop_last());
    }
}

proof fn lemma_attach_others(c: ConfigurationView, ds: Seq<RawDescriptorView>)
    requires
        c.interfaces.len() == 0,
        forall|k: int| 0 <= k < ds.len() ==> is_plain(#[trigger] ds[k]),
    ensures
        c.attach_all(ds) == (ConfigurationView { other: c.other + ds, ..c }),
    decreases ds.len(),
{
    if ds.len() == 0 {
        assert(c.other + ds =~= c.other);
    } else {
        lemma_attach_others(c, ds.drop_last());
        assert(is_plain(ds[ds.len() - 1]));
        assert(c.other + ds =~= (c.other + ds.drop_last()).push(ds.last()));
    }
}

proof fn lemma_attach_class_specific(c: ConfigurationView, ds: Seq<RawDescriptorView>)
    requires
        c.interfaces.len() > 0,
        forall|k: int| 0 <= k < ds.len() ==> is_plain(#[trigger] ds[k]),
    ensures
        ({
            let last = c.interfaces.last();
            c.attach_all(ds) == (ConfigurationView {
                interfaces: c.interfaces.drop_last().push(
                    InterfaceView { class_specific: last.class_specific + ds, ..last },
                ),
                ..c
            })
        }),
    decreases ds.len(),
{
    let last = c.interfaces.last();
    let grown = InterfaceView { class_specific: last.class_specific + ds, ..last };
    if ds.len() == 0 {
        assert(last.class_specific + ds =~= last.class_specific);
        assert(c.interfaces.drop_last().push(grown) =~= c.interfaces);
    } else {
        lemma_attach_class_specific(c, ds.drop_last());
        assert(is_plain(ds[ds.len() - 1]));
        let mid = c.attach_all(ds.drop_last());
        assert(mid.interfaces.last().class_specific == last.class_specific + ds.drop_last());
        assert(last.class_specific + ds =~= (last.class_specific + ds.drop_last()).push(ds.last()));
        assert(mid.interfaces.update(mid.interfaces.len() - 1, grown)
            =~= c.interfaces.drop_last().push(grown));
    }
}

proof fn lemma_attach_endpoints(c: ConfigurationView, es: Seq<EndpointDescriptor>)
    requires
        c.interfaces.len() > 0,
    ensures
        ({
            let last = c.interfaces.last();
            c.attach_all(wholes(Seq::new(es.len(), |k: int| endpoint_bytes(es[k])))) == (
            ConfigurationView {
                interfaces: c.interfaces.drop_last().push(
                    InterfaceView { endpoints: last.endpoints + es, ..last },
                ),
                ..c
            })
        }),
    decreases es.len(),
{
    let last = c.interfaces.last();
    let grown = InterfaceView { endpoints: last.endpoints + es, ..last };
    let ds = wholes(Seq::new(es.len(), |k: int| endpoint_bytes(es[k])));
    if es.len() == 0 {
        assert(last.endpoints + es =~= last.endpoints);
        assert(c.interfaces.drop_last().push(grown) =~= c.interfaces);
    } else {
        let before = es.drop_last();
        lemma_attach_endpoints(c, before);
        let shorter = wholes(Seq::new(before.len(), |k: int| endpoint_bytes(before[k])));
        assert(ds.drop_last() =~= shorter);
        let e = es.last();
        assert(ds.last() == whole(endpoint_bytes(e)));
        endpoint_layout(7, 5, e, Seq::empty(), Seq::empty());
        assert(endpoint_bytes(e) + Seq::empty() =~= endpoint_bytes(e));
        let mid = c.attach_all(shorter);
        assert(mid.interfaces.last().endpoints == last.endpoints + before);
        assert(last.endpoints + es =~= (last.endpoints + before).push(e));
        assert(mid.interfaces.update(mid.interfaces.len() - 1, grown)
            =~= c.interfaces.drop_last().push(grown));
    }
}

proof fn lemma_attach_interface(c: ConfigurationView, i: InterfaceView)
    requires
        forall|k: int| 0 <= k < i.class_specific.len() ==> is_plain(#[trigger] i.class_specific[k]),
    ensures
        c.attach_all(wholes(interface_parts(i))) == (ConfigurationView {
            interfaces: c.interfaces.push(i),
            ..c
        }),
{
    let head = interface_bytes(i.descriptor);
    let eps = Seq::new(i.endpoints.len(), |k: int| endpoint_bytes(i.endpoints[k]));
    let (a, b, e) = (wholes(seq![head]), i.class_specific, wholes(eps));
    assert(wholes(interface_parts(i)) =~= a + b + e) by {
        assert forall|k: int| 0 <= k < b.len() implies whole(#[trigger] b[k].bytes) == b[k] by {
            assert(is_plain(b[k]));
        }
    }
    lemma_attach_concat(c, a + b, e);
    lemma_attach_concat(c, a, b);
    configuration_and_interface_layout(
        9,
        4,
        c.descriptor,
        i.descriptor,
        Seq::empty(),
        Seq::empty(),
    );
    assert(head + Seq::empty() =~= head);
    assert(a.drop_last() =~= Seq::empty());
    assert(a.last() == whole(head));
    let opened = c.attach_all(a);
    assert(c.attach_all(a.drop_last()) == c);
    let bare = InterfaceView {
        descriptor: i.descriptor,
        endpoints: Seq::empty(),
        class_specific: Seq::empty(),
    };
    assert(opened == (ConfigurationView { interfaces: c.interfaces.push(bare), ..c }));
    lemma_attach_class_specific(opened, b);
    assert(opened.interfaces.drop_last() =~= c.interfaces);
    assert(bare.class_specific + b =~= b);
    let filled = opened.attach_all(b);
    lemma_attach_endpoints(filled, i.endpoints);
    assert(filled.interfaces.drop_last() =~= c.interfaces);
    assert(bare.endpoints + i.endpoints =~= i.endpoints);
}

proof fn lemma_attach_interfaces(c: ConfigurationView, s: Seq<InterfaceView>)
    requires
        forall|i: int, k: int|
            0 <= i < s.len() && 0 <= k < s[i].class_specific.len() ==> is_plain(
                #[trigger] s[i].class_specific[k],
            ),
    ensures
        c.attach_all(wholes(all_interface_parts(s))) == (ConfigurationView {
            interfaces: c.interfaces + s,
            ..c
        }),
    decreases s.len(),
{
    if s.len() == 0 {
        assert(wholes(all_interface_parts(s)) =~= Seq::empty());
        assert(c.interfaces + s =~= c.interfaces);
    } else {
        let before = s.drop_last();
        assert forall|i: int, k: int|
            0 <= i < before.len() && 0 <= k < before[i].class_specific.len() implies is_plain(
            #[trigger] before[i].class_specific[k],
        ) by {
            assert(is_plain(s[i].class_specific[k]));
        }
        lemma_attach_interfaces(c, before);
        let last = s.last();
        assert forall|k: int| 0 <= k < last.class_specific.len() implies is_plain(
            #[trigger] last.class_specific[k],
        ) by {
            assert(is_plain(s[s.len() - 1].class_specific[k]));
        }
        let mid = c.attach_all(wholes(all_interface_parts(before)));
        lemma_attach_interface(mid, last);
        assert(wholes(all_interface_parts(s)) =~= wholes(all_interface_parts(before)) + wholes(
            interface_parts(last),
        ));
        lemma_attach_concat(
            c,
            wholes(all_interface_parts(before)),
            wholes(interface_parts(last)),
        );
        assert(c.interfaces + s =~= (c.interfaces + before).push(last));
    }
}

proof fn lemma_parts_are_framed(s: Seq<InterfaceView>, j: int)
    requires
        forall|i: int, k: int|
            0 <= i < s.len() && 0 <= k < s[i].class_specific.len() ==> is_plain(
                #[trigger] s[i].class_specific[k],
            ),
        0 <= j < all_interface_parts(s).len(),
    ensures
        all_interface_parts(s)[j].len() > 0 && all_interface_parts(s)[j][0]
            == all_interface_parts(s)[j].len(),
    decreases s.len(),
{
    if s.len() > 0 {
        let before = s.drop_last();
        let n = all_interface_parts(before).len() as int;
        if j < n {
            assert forall|i: int, k: int|
                0 <= i < before.len() && 0 <= k < before[i].class_specific.len() implies is_plain(
                #[trigger] before[i].class_specific[k],
            ) by {
                assert(is_plain(s[i].class_specific[k]));
            }
            lemma_parts_are_framed(before, j);
        } else {
            let last = s.last();
            let m = last.class_specific.len() as int;
            assert(all_interface_parts(s)[j] == interface_parts(last)[j - n]);
            if 1 <= j - n <= m {
                assert(is_plain(s[s.len() - 1].class_specific[j - n - 1]));
            }
        }
    }
}

/// A configuration laid out as the standard says - its own descriptor, then others, then
/// each interface with its class-specific descriptors and its endpoints - is parsed back
/// as exactly that tree: every descriptor in its place, every field as it was.
pub proof fn configuration_reads_back(c: ConfigurationView)
    requires
        has_plain_parts(c),
    ensures
        ConfigurationView::parsed(laid_out(configuration_parts(c))) == Some(c),
{
    let parts = configuration_parts(c);
    let blob = laid_out(parts);
    let head = parts[0];
    configuration_and_interface_layout(
        9,
        2,
        c.descriptor,
        arbitrary(),
        laid_out(parts.skip(1)),
        Seq::empty(),
    );
    assert(blob == head + laid_out(parts.skip(1)));
    assert(ConfigurationDescriptor::parsed(blob) == Some(c.descriptor));
    let n = c.other.len() as int;
    assert forall|i: int| 0 <= i < parts.len() implies (#[trigger] parts[i]).len() > 0
        && parts[i][0] == parts[i].len() by {
        if 1 <= i <= n {
            assert(is_plain(c.other[i - 1]));
            assert(parts[i] == c.other[i - 1].bytes);
        } else if i > n {
            lemma_parts_are_framed(c.interfaces, i - 1 - n);
        }
    }
    walk_reads_back(parts);
    let rest = all_interface_parts(c.interfaces);
    assert(walked(blob) =~= wholes(parts)) by {
        assert forall|i: int| 0 <= i < parts.len() implies walked(blob)[i] == whole(parts[i]) by {
            assert(parts[i].len() > 0 && parts[i][0] == parts[i].len());
            assert(walked(blob)[i] =~= whole(parts[i]));
        }
    }
    assert(wholes(parts).skip(1) =~= c.other + wholes(rest)) by {
        assert forall|k: int| 0 <= k < n implies whole(#[trigger] c.other[k].bytes)
            == c.other[k] by {
            assert(is_plain(c.other[k]));
        }
    }
    let start = ConfigurationView {
        descriptor: c.descriptor,
        interfaces: Seq::empty(),
        other: Seq::empty(),
    };
    lemma_attach_concat(start, c.other, wholes(rest));
    lemma_attach_others(start, c.other);
    let mid = start.attach_all(c.other);
    assert(start.other + c.other =~= c.other);
    lemma_attach_interfaces(mid, c.interfaces);
    assert(mid.interfaces + c.interfaces =~= c.interfaces);
}

impl Configuration {
    /// Parse a full configuration blob (config descriptor + interfaces +
    /// endpoints + class-specific descriptors). Lenient; unknown descriptors are
    /// attached to the current interface (or `other`) as [`RawDescriptor`]s.
    pub fn parse(blob: &[u8]) -> (r: Option<Configuration>)
        ensures
            r is Some <==> ConfigurationView::parsed(blob@) is Some,
            r matches Some(c) ==> Some(c@) == ConfigurationView::parsed(blob@),
    {
        let descriptor = match ConfigurationDescriptor::parse(blob) {
            Some(d) => d,
            None => return None,
        };
        let ds = walk(blob);
        let ghost all = raw_views(ds@);
        let mut c = Configuration { descriptor, interfaces: Vec::new(), other: Vec::new() };
        let ghost start = c@;
        proof {
            walk_keeps_every_byte(blob@);
            assert(start.interfaces =~= Seq::empty());
            assert(start.other =~= Seq::empty());
            assert(all.len() == ds@.len());
        }
        let mut own = true;
        for d in it: ds.into_iter()
            invariant
                it.seq() == ds@,
                all == raw_views(ds@),
                own == (it.index() == 0),
                it.index() == 0 ==> c@ == start,
                it.index() > 0 ==> c@ == start.attach_all(all.subrange(1, it.index() as int)),
        {
            let ghost k = it.index() as int;
            assert(d@ == all[k]);
            if own {
                own = false;
                assert(all.subrange(1, 1) =~= Seq::empty());
            } else {
                c.push_descriptor(d);
                assert(all.subrange(1, k + 1).drop_last() =~= all.subrange(1, k));
            }
        }
        assert(all.subrange(1, all.len() as int) =~= all.skip(1));
        Some(c)
    }

    /// Attach one descriptor to the tree.
    fn push_descriptor(&mut self, d: RawDescriptor)
        ensures
            final(self)@ == old(self)@.attach(d@),
    {
        let ghost before = self@;
        if d.descriptor_type == descriptor_type::INTERFACE {
            if let Some(id) = InterfaceDescriptor::parse(d.bytes.as_slice()) {
                self.interfaces.push(
                    Interface {
                        descriptor: id,
                        endpoints: Vec::new(),
                        class_specific: Vec::new(),
                    },
                );
                assert(self@.interfaces =~~= before.attach(d@).interfaces);
                return ;
            }
        }
        match self.interfaces.pop() {
            None => {
                self.other.push(d);
                assert(self@.other =~= before.attach(d@).other);
                assert(self@.interfaces =~= before.interfaces);
            },
            Some(mut last) => {
                let ghost kept = last@;
                assert(kept == before.interfaces.last());
                let ep = if d.descriptor_type == descriptor_type::ENDPOINT {
                    EndpointDescriptor::parse(d.bytes.as_slice())
                } else {
                    None
                };
                match ep {
                    Some(ep) => last.endpoints.push(ep),
                    None => {
                        last.class_specific.push(d);
                        assert(last@.class_specific =~= kept.class_specific.push(d@));
                    },
                }
                self.interfaces.push(last);
                assert(self@.interfaces =~~= before.attach(d@).interfaces);
            },
        }
    }
}

/// The result of [`UsbHost::examine`](crate::host::UsbHost::examine): everything
/// learned about an attached device.
#[derive(Debug, Clone, PartialEq, Eq)]
pub struct UsbDeviceModel {
    /// Address the device is answering at.
    pub address: u8,
    /// Speed detected at reset, if known.
    pub speed: Option<Speed>,
    /// Parsed device descriptor.
    pub device_descriptor: DeviceDescriptor,
    /// Raw device descriptor bytes.
    pub raw_device_descriptor: Vec<u8>,
    /// Parsed configurations (one per `bNumConfigurations`, as far as readable).
    pub configurations: Vec<Configuration>,
    /// String descriptors read, keyed by `(index, langid)`.
    pub strings: BTreeMap<(u8, u16), String>,
    /// Non-fatal oddities seen while examining (truncated descriptors, STALLs,
    /// count mismatches, ...) - the forensic record.
    pub anomalies: Vec<String>,
}

/// What a [`UsbDeviceModel`] holds.
#[verifier::ext_equal]
pub struct UsbDeviceModelView {
    pub address: u8,
    pub speed: Option<Speed>,
    pub device_descriptor: DeviceDescriptor,
    pub raw_device_descriptor: Seq<u8>,
    pub configurations: Seq<ConfigurationView>,
    pub strings: Map<(u8, u16), Seq<char>>,
    pub anomalies: Seq<Seq<char>>,
}

/// What a list of configurations holds.
pub open spec fn configuration_views(s: Seq<Configuration>) -> Seq<ConfigurationView> {
    Seq::new(s.len(), |i: int| s[i]@)
}

/// The texts of a list of strings.
pub open spec fn text_views(s: Seq<String>) -> Seq<Seq<char>> {
    Seq::new(s.len(), |i: int| s[i]@)
}

/// The texts of a table of strings.
pub open spec fn string_table(m: Map<(u8, u16), String>) -> Map<(u8, u16), Seq<char>> {
    m.map_values(|s: String| s@)
}

impl View for UsbDeviceModel {
    type V = UsbDeviceModelView;

    open spec fn view(&self) -> UsbDeviceModelView {
        UsbDeviceModelView {
            address: self.address,
            speed: self.speed,
            device_descriptor: self.device_descriptor,
            raw_device_descriptor: self.raw_device_descriptor@,
            configurations: configuration_views(self.configurations@),
            strings: string_table(self.strings@),
            anomalies: text_views(self.anomalies@),
        }
    }
}

} // verus!

//! Backend for the Great Scott Gadgets **Cynthion** running the USB Analyzer
//! gateware (USB ID `1d50:615b`).
//!
//! The analyzer is controlled with vendor control requests directed at the
//! capture interface, and streams captured traffic over a bulk IN endpoint as a
//! sequence of 16-bit-aligned records.
//!
//! # Attribution
//!
//! The control protocol (vendor request numbers and the State register
//! bitfield), the captured-record stream format, and [`clk_to_ns`] follow those
//! of Great Scott Gadgets' Packetry (<https://github.com/greatscottgadgets/packetry>),
//! BSD-3-Clause, Copyright (c) 2022-2024 Great Scott Gadgets.

use vstd::prelude::*;
use vstd::slice::slice_subrange;
use vstd::slice::slice_to_vec;
use vstd::string::*;

use crate::backend::Backend;
use crate::bytes;
use crate::capture::CaptureData;
use crate::capture::CaptureDataView;
use crate::capture::CaptureItem;
use crate::capture::CaptureItemView;
use crate::capture::CaptureOptions;
use crate::capture::Speed;
use crate::device::Capabilities;
use crate::device::State;
use crate::error;
use crate::error::Error;
use crate::error::ErrorView;
use crate::error::Result;
use crate::text;
use crate::usb;
use crate::usb::Recipient;
use crate::usb::UsbDeviceInfo;
use crate::usb::UsbDeviceInfoView;
use crate::usb::VendorRequest;

verus! {

/// Vendor ID of the analyzer.
pub const VID: u16 = 0x1d50;

/// Product ID of the analyzer.
pub const PID: u16 = 0x615b;

/// Vendor-specific class of the analyzer capture interface.
pub const CLASS: u8 = 0xff;

/// Subclass identifying the analyzer capture interface.
pub const SUBCLASS: u8 = 0x10;

/// Bulk IN endpoint carrying the capture stream.
pub const ENDPOINT: u8 = 0x81;

/// Size of each bulk read.
pub const READ_LEN: usize = 0x4000;

// Vendor request numbers (recipient = interface).
pub const REQ_GET_STATE: u8 = 0;

pub const REQ_SET_STATE: u8 = 1;

pub const REQ_GET_SPEEDS: u8 = 2;

pub const REQ_GET_VERSION: u8 = 4;

/// The Cynthion analyzer backend.
pub struct Cynthion;

/// Whether a device is a Cynthion running the analyzer: its IDs, and an interface
/// of the capture class.
pub open spec fn is_analyzer(info: UsbDeviceInfoView) -> bool {
    &&& info.vendor_id == VID
    &&& info.product_id == PID
    &&& usb::first_interface(info.interfaces, CLASS, SUBCLASS) is Some
}

impl Backend for Cynthion {
    open spec fn named(&self) -> Seq<char> {
        "cynthion"@
    }

    open spec fn handles(&self, info: UsbDeviceInfoView) -> bool {
        is_analyzer(info)
    }

    fn name(&self) -> (s: &'static str) {
        "cynthion"
    }

    fn matches(&self, info: &UsbDeviceInfo) -> (r: bool) {
        info.vendor_id == VID && info.product_id == PID && usb::find_interface(
            info,
            CLASS,
            SUBCLASS,
        ).is_some()
    }
}

/// The interface to claim.
pub open spec fn claimed(info: UsbDeviceInfoView) -> Option<u8> {
    usb::first_interface(info.interfaces, CLASS, SUBCLASS)
}

/// The value of a register, given the bytes that came.
pub open spec fn register_in(data: Seq<u8>) -> Option<u8> {
    if data.len() > 0 {
        Some(data[0])
    } else {
        None
    }
}

/// The interface that is claimed is the first of class 0xFF and subclass 0x10.
pub proof fn capture_interface_is_claimed(
    info: UsbDeviceInfoView,
    before: Seq<usb::UsbInterfaceInfo>,
    one: usb::UsbInterfaceInfo,
    after: Seq<usb::UsbInterfaceInfo>,
)
    requires
        info.interfaces == before.push(one) + after,
        one.class == 0xFF,
        one.sub_class == 0x10,
        forall|i: int|
            0 <= i < before.len() ==> (#[trigger] before[i]).class != 0xFF || before[i].sub_class
                != 0x10,
    ensures
        claimed(info) == Some(one.number),
{
    usb::first_interface_is_the_first(before, one, after);
}

/// A register is the first byte that comes; an empty answer holds none.
pub proof fn register_is_the_first_byte(value: u8, rest: Seq<u8>)
    ensures
        register_in(seq![value] + rest) == Some(value),
        register_in(Seq::empty()) is None,
{
}

/// Whether this is what an analyzer can do that reported these registers.
pub open spec fn capable(c: Capabilities, speeds: u8, protocol_version: Option<u8>) -> bool {
    &&& c.supported_speeds@ == speeds_in(speeds)
    &&& c.can_capture
    &&& c.can_control_vbus
    &&& c.protocol_version == protocol_version
}

/// An analyzer can capture, and switch VBUS, at each speed whose bit it set, and has the
/// version that it reported.
pub proof fn analyzer_can_do_what_it_reports(
    c: Capabilities,
    speeds: u8,
    protocol_version: Option<u8>,
    s: Speed,
)
    requires
        capable(c, speeds, protocol_version),
    ensures
        c.can_capture && c.can_control_vbus,
        c.protocol_version == protocol_version,
        c.supported_speeds@.contains(s) <==> (speeds as int / (match s {
            Speed::Auto => 1int,
            Speed::Low => 2,
            Speed::Full => 4,
            Speed::High => 8,
        })) % 2 == 1,
{
    speeds_match_mask(speeds, s);
}

impl Cynthion {
    /// The interface to claim when opening the device.
    pub fn capture_interface(&self, info: &UsbDeviceInfo) -> (r: Result<u8>)
        ensures
            match claimed(info@) {
                Some(n) => r == Ok::<u8, Error>(n),
                None => r matches Err(e) && e@ == ErrorView::Unsupported(
                    "no analyzer interface on device"@,
                ),
            },
    {
        match usb::find_interface(info, CLASS, SUBCLASS) {
            Some(n) => Ok(n),
            None => Err(Error::Unsupported("no analyzer interface on device")),
        }
    }

    /// What an analyzer can do, given the registers read from it on opening: its
    /// supported-speeds mask, and its protocol version if it reported one.
    pub fn capabilities(&self, speeds: u8, protocol_version: Option<u8>) -> (c: Capabilities)
        ensures
            capable(c, speeds, protocol_version),
    {
        Capabilities {
            supported_speeds: decode_speeds(speeds),
            can_capture: true,
            can_control_vbus: true,
            protocol_version,
        }
    }
}

/// The request that reads a register of the analyzer interface.
pub open spec fn register_read(iface_num: u8, request: u8) -> VendorRequest {
    VendorRequest::reads(Recipient::Interface, request, 0, iface_num as u16, 64)
}

/// The request that sets the State register of the analyzer interface.
pub open spec fn state_write(iface_num: u8, state: u8) -> VendorRequest {
    VendorRequest::tells(Recipient::Interface, REQ_SET_STATE, state as u16, iface_num as u16)
}

/// The registers are asked for, and the State register is set, by vendor requests to the
/// capture interface: the register's number in the request, the interface's in the index,
/// and the state in the value. State, speeds and version are read by requests 0, 2 and 4.
pub proof fn registers_are_reached_by_number(iface_num: u8, request: u8, state: u8)
    ensures
        register_read(iface_num, request) == (VendorRequest {
            request_type: 0xC1,
            request,
            value: 0,
            index: iface_num as u16,
            length: 64,
        }),
        state_write(iface_num, state) == (VendorRequest {
            request_type: 0x41,
            request: 1,
            value: state as u16,
            index: iface_num as u16,
            length: 0,
        }),
        REQ_GET_STATE == 0,
        REQ_GET_SPEEDS == 2,
        REQ_GET_VERSION == 4,
        ENDPOINT == 0x81,
{
}

/// The request that reads a one-byte vendor register from the analyzer interface.
pub fn register_request(iface_num: u8, request: u8) -> (r: VendorRequest)
    ensures
        r == register_read(iface_num, request),
{
    usb::vendor_in(Recipient::Interface, request, 0, iface_num as u16, 64)
}

/// The value of a register, given the bytes the device answered with.
pub fn register_value(data: &[u8], request: u8) -> (r: Result<u8>)
    ensures
        match register_in(data@) {
            Some(v) => r == Ok::<u8, Error>(v),
            None => error::is_protocol_error(
                r,
                "empty response to request "@ + text::decimal(request as nat),
            ),
        },
{
    if data.len() > 0 {
        Ok(data[0])
    } else {
        let mut m = "empty response to request ".to_owned();
        text::push_decimal(&mut m, request as u64);
        Err(Error::Protocol(m))
    }
}

/// The request that writes the analyzer State register.
pub fn state_request(iface_num: u8, state: u8) -> (r: VendorRequest)
    ensures
        r == state_write(iface_num, state),
{
    usb::vendor_out(Recipient::Interface, REQ_SET_STATE, state as u16, iface_num as u16)
}

/// The State register values that stop and run a capture.
#[derive(Debug, Clone, Copy, PartialEq, Eq, Structural)]
pub struct CapturePlan {
    /// Written first, to start from a stopped state, and again to end the capture.
    pub stop_state: u8,
    /// Written next, to enable capture.
    pub run_state: u8,
}

/// The states that stop and run a capture with the given options.
pub open spec fn planned(options: CaptureOptions) -> CapturePlan {
    CapturePlan {
        stop_state: state_byte(options.speed, false, false),
        run_state: state_byte(options.speed, true, options.vbus_passthrough),
    }
}

/// A planned capture runs at the speed asked for, with power to the target exactly if
/// that was asked for, and stops without it; nothing else is switched on in either state.
pub proof fn capture_runs_as_asked(options: CaptureOptions)
    ensures
        ({
            let plan = planned(options);
            let run = state_of(plan.run_state);
            let stop = state_of(plan.stop_state);
            &&& run.enable && !stop.enable
            &&& run.speed == options.speed && stop.speed == options.speed
            &&& run.target_c_vbus_en == options.vbus_passthrough
            &&& !stop.target_c_vbus_en
            &&& plan.run_state < 16
            &&& plan.stop_state < 8
        }),
{
}

/// Plan a capture session with the given options; refused when the device does
/// not support the speed.
pub fn plan_capture(capabilities: &Capabilities, options: CaptureOptions) -> (r: Result<
    CapturePlan,
>)
    ensures
        if capabilities.supported_speeds@.contains(options.speed) {
            r == Ok::<_, Error>(planned(options))
        } else {
            r matches Err(e) && e@ == ErrorView::Unsupported("speed not supported by this device"@)
        },
{
    let mut i: usize = 0;
    while i < capabilities.supported_speeds.len()
        invariant
            i <= capabilities.supported_speeds@.len(),
            forall|k: int| 0 <= k < i ==> capabilities.supported_speeds@[k] != options.speed,
        decreases capabilities.supported_speeds@.len() - i,
    {
        if capabilities.supported_speeds[i] == options.speed {
            assert(capabilities.supported_speeds@.contains(options.speed));
            return Ok(
                CapturePlan {
                    stop_state: encode_state(options.speed, false, false),
                    run_state: encode_state(options.speed, true, options.vbus_passthrough),
                },
            );
        }
        i = i + 1;
    }
    Err(Error::Unsupported("speed not supported by this device"))
}

/// One record at the start of the capture stream.
#[verifier::ext_equal]
pub struct Record {
    /// Bytes it takes, padding included.
    pub size: nat,
    /// Clock cycles since the record before it.
    pub delta: u16,
    pub data: CaptureDataView,
}

/// The big-endian value of two bytes.
pub open spec fn u16_be(hi: u8, lo: u8) -> u16 {
    bytes::u16_le(lo, hi)
}

/// The record that `b` starts with, if it is complete.
///
/// An event is `[0xFF, code, cycle_delta_be:2]`; a packet is
/// `[len_be:2, cycle_delta_be:2, payload, pad?]`, padded to 16 bits.
pub open spec fn record_at(b: Seq<u8>) -> Option<Record> {
    if b.len() < 4 {
        None
    } else if b[0] == 0xFF {
        Some(
            Record { size: 4, delta: u16_be(b[2], b[3]), data: CaptureDataView::Event(b[1]) },
        )
    } else {
        let len = u16_be(b[0], b[1]) as int;
        let total = 4 + len + len % 2;
        if b.len() < total {
            None
        } else {
            Some(
                Record {
                    size: total as nat,
                    delta: u16_be(b[2], b[3]),
                    data: CaptureDataView::Packet(b.subrange(4, 4 + len)),
                },
            )
        }
    }
}

/// A record's fields are where the device puts them. An event is the mark 0xFF, its code,
/// and the cycles, more weight first; a packet is its length and the cycles in the same
/// order, and its bytes, one more behind an odd number of them. Until all of it is there,
/// there is no record.
pub proof fn record_layout(b: Seq<u8>)
    ensures
        b.len() < 4 ==> record_at(b) is None,
        b.len() >= 4 && b[0] == 0xFF ==> {
            &&& record_at(b) is Some
            &&& record_at(b)->0.size == 4
            &&& record_at(b)->0.delta == 256 * b[2] + b[3]
            &&& record_at(b)->0.data == CaptureDataView::Event(b[1])
        },
        b.len() >= 4 && b[0] != 0xFF ==> {
            let n = 256 * b[0] + b[1];
            let whole = 4 + n + n % 2;
            &&& record_at(b) is Some <==> b.len() >= whole
            &&& record_at(b) is Some ==> {
                &&& record_at(b)->0.size == whole
                &&& record_at(b)->0.delta == 256 * b[2] + b[3]
                &&& record_at(b)->0.data == CaptureDataView::Packet(b.subrange(4, 4 + n))
            }
        },
{
    if b.len() >= 4 {
        bytes::byte_orders(0, 0, b[1], b[0], 0, 0);
        bytes::byte_orders(0, 0, b[3], b[2], 0, 0);
    }
}

/// What a [`RecordParser`] holds: the bytes not decoded yet and the running
/// 60 MHz clock-cycle total.
#[verifier::ext_equal]
pub struct RecordParserView {
    pub pending: Seq<u8>,
    pub cycles: u64,
}

impl RecordParserView {
    /// The clock total after the next record; unchanged when there is none.
    pub open spec fn next_cycles(self) -> int {
        match record_at(self.pending) {
            Some(rec) => self.cycles + rec.delta,
            None => self.cycles as int,
        }
    }

    /// Whether the time of the next record fits the 64-bit nanosecond clock.
    pub open spec fn next_fits(self) -> bool {
        cycles_to_ns(self.next_cycles()) <= u64::MAX
    }

    /// The parser with more bytes to decode.
    pub open spec fn extended(self, data: Seq<u8>) -> RecordParserView {
        RecordParserView { pending: self.pending + data, ..self }
    }

    /// The parser after decoding the next record, and the item it is; unchanged,
    /// and nothing, when there is no complete record.
    pub open spec fn next(self) -> (RecordParserView, Option<CaptureItemView>) {
        match record_at(self.pending) {
            None => (self, None),
            Some(rec) => (
                RecordParserView {
                    pending: self.pending.skip(rec.size as int),
                    cycles: (self.cycles + rec.delta) as u64,
                },
                Some(
                    CaptureItemView {
                        timestamp_ns: cycles_to_ns(self.cycles + rec.delta) as u64,
                        data: rec.data,
                    },
                ),
            ),
        }
    }
}

/// Stateful decoder for the analyzer's bulk record stream.
///
/// Feed it raw bytes with [`RecordParser::extend`] and pull decoded items with
/// [`RecordParser::next_item`]. It owns no USB handle, so it is fully testable
/// over in-memory byte buffers.
pub struct RecordParser {
    /// Unparsed bytes; the valid range is `buf[pos..]`.
    buf: Vec<u8>,
    pos: usize,
    /// Running 60 MHz clock-cycle total.
    cycles: u64,
}

impl View for RecordParser {
    type V = RecordParserView;

    closed spec fn view(&self) -> RecordParserView {
        RecordParserView { pending: self.buf@.skip(self.pos as int), cycles: self.cycles }
    }
}

impl RecordParser {
    #[verifier::type_invariant]
    spec fn in_bounds(self) -> bool {
        self.pos <= self.buf@.len()
    }

    /// A parser that has seen nothing yet.
    pub fn new() -> (p: Self)
        ensures
            p@ == (RecordParserView { pending: Seq::empty(), cycles: 0 }),
    {
        let p = RecordParser { buf: Vec::new(), pos: 0, cycles: 0 };
        assert(p@.pending =~= Seq::empty());
        p
    }

    /// Append freshly read bytes, compacting away already-consumed ones first.
    pub fn extend(&mut self, data: &[u8])
        ensures
            final(self)@ == old(self)@.extended(data@),
    {
        proof {
            use_type_invariant(&*self);
        }
        let ghost before = self@;
        let n: usize = self.buf.len();
        let mut buf = slice_to_vec(slice_subrange(self.buf.as_slice(), self.pos, n));
        assert(buf@ =~= before.pending);
        bytes::push_bytes(&mut buf, data);
        *self = RecordParser { buf, pos: 0, cycles: self.cycles };
        assert(self@.pending =~= before.pending + data@);
    }

    /// Whether the time of the next record fits the 64-bit nanosecond clock, as
    /// [`next_item`](RecordParser::next_item) needs.
    pub fn next_fits(&self) -> (r: bool)
        ensures
            r == self@.next_fits(),
    {
        proof {
            use_type_invariant(&*self);
        }
        let left: usize = self.buf.len() - self.pos;
        assert(left == self@.pending.len());
        let mut cycles: u128 = self.cycles as u128;
        if left >= 4 {
            let b0: u8 = self.buf[self.pos];
            let b1: u8 = self.buf[self.pos + 1];
            let delta: u16 = bytes::read_u16_le(self.buf[self.pos + 3], self.buf[self.pos + 2]);
            let len: usize = bytes::read_u16_le(b1, b0) as usize;
            if b0 == 0xFF || left >= 4 + len + len % 2 {
                cycles = cycles + delta as u128;
            }
        }
        assert(cycles == self@.next_cycles());
        50 * cycles / 3 <= u64::MAX as u128
    }

    /// Decode the next complete record, or `None` if more bytes are needed.
    pub fn next_item(&mut self) -> (r: Option<CaptureItem>)
        requires
            old(self)@.next_fits(),
        ensures
            final(self)@ == old(self)@.next().0,
            match r {
                Some(item) => old(self)@.next().1 == Some(item@),
                None => old(self)@.next().1 is None,
            },
    {
        proof {
            use_type_invariant(&*self);
        }
        let ghost before = self@;
        let pos: usize = self.pos;
        let left: usize = self.buf.len() - pos;
        assert(left == before.pending.len());
        if left < 4 {
            return None;
        }
        let b0: u8 = self.buf[pos];
        let b1: u8 = self.buf[pos + 1];
        let delta: u16 = bytes::read_u16_le(self.buf[pos + 3], self.buf[pos + 2]);
        if b0 == 0xFF {
            // Event record: [0xFF, code, cycle_delta_be:2].
            let cycles: u64 = self.cycles + delta as u64;
            self.pos = pos + 4;
            self.cycles = cycles;
            assert(self@.pending =~= before.pending.skip(4));
            Some(CaptureItem { timestamp_ns: clk_to_ns(cycles), data: CaptureData::Event(b1) })
        } else {
            // Packet record: [len_be:2, cycle_delta_be:2, payload, pad?].
            let len: usize = bytes::read_u16_le(b1, b0) as usize;
            let total: usize = 4 + len + len % 2;  // 16-bit alignment padding
            if left < total {
                return None;
            }
            let payload = slice_to_vec(
                slice_subrange(self.buf.as_slice(), pos + 4, pos + 4 + len),
            );
            assert(payload@ =~= before.pending.subrange(4, 4 + len));
            let cycles: u64 = self.cycles + delta as u64;
            self.pos = pos + total;
            self.cycles = cycles;
            assert(self@.pending =~= before.pending.skip(total as int));
            Some(
                CaptureItem { timestamp_ns: clk_to_ns(cycles), data: CaptureData::Packet(payload) },
            )
        }
    }
}

/// The speeds whose bit is set in a supported-speeds mask, in protocol order.
pub open spec fn speeds_in(mask: u8) -> Seq<Speed> {
    speed_if(mask, Speed::Auto) + speed_if(mask, Speed::Low) + speed_if(mask, Speed::Full)
        + speed_if(mask, Speed::High)
}

/// The one-element list of a speed if its bit is set in the mask, else nothing.
pub open spec fn speed_if(mask: u8, s: Speed) -> Seq<Speed> {
    if (mask as int / s.weight()) % 2 == 1 {
        seq![s]
    } else {
        Seq::empty()
    }
}

/// Decode the supported-speeds bitmask into a list of speeds.
pub fn decode_speeds(mask: u8) -> (v: Vec<Speed>)
    ensures
        v@ == speeds_in(mask),
{
    let mut v: Vec<Speed> = Vec::new();
    push_speed(&mut v, mask, Speed::Auto);
    push_speed(&mut v, mask, Speed::Low);
    push_speed(&mut v, mask, Speed::Full);
    push_speed(&mut v, mask, Speed::High);
    assert(v@ =~= speeds_in(mask));
    v
}

/// Append a speed if its bit is set in the mask.
fn push_speed(v: &mut Vec<Speed>, mask: u8, s: Speed)
    ensures
        final(v)@ == old(v)@ + speed_if(mask, s),
{
    let ghost before = v@;
    if (mask / s.mask_bit()) % 2 == 1 {
        v.push(s);
    }
    assert(v@ =~= before + speed_if(mask, s));
}

/// A speed is decoded from a mask exactly when its bit is set.
pub proof fn speeds_match_mask(mask: u8, s: Speed)
    ensures
        speeds_in(mask).contains(s) <==> (mask as int / s.weight()) % 2 == 1,
{
    broadcast use vstd::seq_lib::group_seq_properties;

    assert forall|t: Speed| speed_if(mask, t).contains(s) <==> s == t && (mask as int / t.weight())
        % 2 == 1 by {
        if (mask as int / t.weight()) % 2 == 1 {
            assert(speed_if(mask, t)[0] == t);
        }
    }
    assert(speed_if(mask, s).contains(s) <==> (mask as int / s.weight()) % 2 == 1);
    assert(speed_if(mask, Speed::Auto).contains(s) <==> s == Speed::Auto && (mask as int
        / Speed::Auto.weight()) % 2 == 1);
    assert(speed_if(mask, Speed::Low).contains(s) <==> s == Speed::Low && (mask as int
        / Speed::Low.weight()) % 2 == 1);
    assert(speed_if(mask, Speed::Full).contains(s) <==> s == Speed::Full && (mask as int
        / Speed::Full.weight()) % 2 == 1);
    assert(speed_if(mask, Speed::High).contains(s) <==> s == Speed::High && (mask as int
        / Speed::High.weight()) % 2 == 1);
}

/// The speeds of a mask are listed in protocol order, none twice.
pub proof fn speeds_are_listed_in_order(mask: u8)
    ensures
        forall|i: int, j: int|
            0 <= i < j < speeds_in(mask).len() ==> (#[trigger] speeds_in(mask)[i]).code() < (
            #[trigger] speeds_in(mask)[j]).code(),
        speeds_in(mask).len() == (mask as int % 2) + (mask as int / 2 % 2) + (mask as int / 4 % 2)
            + (mask as int / 8 % 2),
{
}

/// The State register byte: enable in bit 0, speed in bits 1-2, TARGET-C VBUS in bit 3.
pub open spec fn state_byte(speed: Speed, enable: bool, vbus_passthrough: bool) -> u8 {
    ((if enable {
        1int
    } else {
        0
    }) + 2 * speed.code() + (if vbus_passthrough {
        8int
    } else {
        0
    })) as u8
}

/// The State register that a byte holds.
pub open spec fn state_of(byte: u8) -> State {
    State {
        enable: byte % 2 == 1,
        speed: Speed::of_code(((byte / 2) % 4) as int),
        target_c_vbus_en: (byte / 8) % 2 == 1,
        control_vbus_en: (byte / 16) % 2 == 1,
        aux_vbus_en: (byte / 32) % 2 == 1,
        target_a_discharge: (byte / 64) % 2 == 1,
        power_control_enable: byte / 128 == 1,
    }
}

/// The bits of the State register: 0 enables, 1 and 2 are the speed, 3 to 5 switch VBUS of
/// TARGET-C, CONTROL and AUX, 6 discharges TARGET-A, 7 enables power control. Each is read
/// from its own bit, whatever the others are.
pub proof fn state_bits(
    enable: u8,
    speed: u8,
    target_c: u8,
    control: u8,
    aux: u8,
    discharge: u8,
    power: u8,
)
    requires
        enable < 2,
        speed < 4,
        target_c < 2,
        control < 2,
        aux < 2,
        discharge < 2,
        power < 2,
    ensures
        ({
            let s = state_of(
                (enable + 2 * speed + 8 * target_c + 16 * control + 32 * aux + 64 * discharge + 128
                    * power) as u8,
            );
            &&& s.enable <==> enable == 1
            &&& s.speed.code() == speed
            &&& s.target_c_vbus_en <==> target_c == 1
            &&& s.control_vbus_en <==> control == 1
            &&& s.aux_vbus_en <==> aux == 1
            &&& s.target_a_discharge <==> discharge == 1
            &&& s.power_control_enable <==> power == 1
        }),
{
    let x = enable + 2 * speed + 8 * target_c + 16 * control + 32 * aux + 64 * discharge + 128
        * power;
    assert(x / 2 == speed + 4 * target_c + 8 * control + 16 * aux + 32 * discharge + 64 * power);
    assert(x / 8 == target_c + 2 * control + 4 * aux + 8 * discharge + 16 * power);
    assert(x / 16 == control + 2 * aux + 4 * discharge + 8 * power);
    assert(x / 32 == aux + 2 * discharge + 4 * power);
    assert(x / 64 == discharge + 2 * power);
    assert(x / 128 == power);
}

/// Encode an analyzer State register byte.
pub fn encode_state(speed: Speed, enable: bool, vbus_passthrough: bool) -> (b: u8)
    ensures
        b == state_byte(speed, enable, vbus_passthrough),
{
    let mut byte: u8 = 2 * speed.encode();  // speed
    if enable {
        byte = byte + 1;  // enable
    }
    if vbus_passthrough {
        byte = byte + 8;  // target_c_vbus_en
    }
    byte
}

/// Decode an analyzer State register byte.
pub fn decode_state(byte: u8) -> (s: State)
    ensures
        s == state_of(byte),
{
    State {
        enable: byte % 2 == 1,
        speed: Speed::from_encoded((byte / 2) % 4),
        target_c_vbus_en: (byte / 8) % 2 == 1,
        control_vbus_en: (byte / 16) % 2 == 1,
        aux_vbus_en: (byte / 32) % 2 == 1,
        target_a_discharge: (byte / 64) % 2 == 1,
        power_control_enable: byte / 128 == 1,
    }
}

/// Decoding an encoded state gives back what was encoded, and no other bit is set.
pub proof fn state_round_trip(speed: Speed, enable: bool, vbus_passthrough: bool)
    ensures
        state_of(state_byte(speed, enable, vbus_passthrough)) == (State {
            enable,
            speed,
            target_c_vbus_en: vbus_passthrough,
            control_vbus_en: false,
            aux_vbus_en: false,
            target_a_discharge: false,
            power_control_enable: false,
        }),
{
}

/// Nanoseconds in a count of 60 MHz clock cycles, rounded down.
pub open spec fn cycles_to_ns(cycles: int) -> int {
    50 * cycles / 3
}

/// Convert a count of 60 MHz clock cycles to nanoseconds.
///
/// Three cycles span 50 ns exactly; the lookup table corrects the remainder so
/// the result tracks the device clock without drifting.
pub fn clk_to_ns(clk_cycles: u64) -> (ns: u64)
    requires
        cycles_to_ns(clk_cycles as int) <= u64::MAX,
    ensures
        ns == cycles_to_ns(clk_cycles as int),
{
    let correction: u64 = match clk_cycles % 3 {
        0 => 0,
        1 => 16,
        _ => 33,
    };
    (clk_cycles / 3) * 50 + correction
}

/// The clock does not drift: however many cycles are counted, the time is within
/// a nanosecond of the exact one, and it never runs backwards.
pub proof fn clock_does_not_drift(cycles: int, later: int)
    requires
        0 <= cycles <= later,
    ensures
        3 * cycles_to_ns(cycles) <= 50 * cycles < 3 * cycles_to_ns(cycles) + 3,
        cycles_to_ns(cycles) <= cycles_to_ns(later),
{
}

/// The bytes of a packet record.
pub open spec fn packet_record(delta: u16, payload: Seq<u8>) -> Seq<u8> {
    bytes::be16(payload.len() as u16) + bytes::be16(delta) + payload + (if payload.len() % 2 == 1 {
        seq![0u8]
    } else {
        Seq::empty()
    })
}

/// The bytes of an event record.
pub open spec fn event_record(code: u8, delta: u16) -> Seq<u8> {
    seq![0xFFu8, code] + bytes::be16(delta)
}

/// Records are read back as they were laid out, whatever follows them. (A payload
/// of 0xFF00 bytes or more has no record of its own: its length would start with
/// the mark of an event.)
pub proof fn records_read_back(delta: u16, payload: Seq<u8>, code: u8, tail: Seq<u8>)
    requires
        payload.len() < 0xFF00,
    ensures
        record_at(packet_record(delta, payload) + tail) == Some(
            Record {
                size: packet_record(delta, payload).len(),
                delta,
                data: CaptureDataView::Packet(payload),
            },
        ),
        record_at(event_record(code, delta) + tail) == Some(
            Record { size: 4, delta, data: CaptureDataView::Event(code) },
        ),
{
    let p = packet_record(delta, payload) + tail;
    assert(p.subrange(4, 4 + payload.len() as int) =~= payload);
}

/// The items that can be decoded from `pending`, with the clock at `cycles`.
pub open spec fn decoded(pending: Seq<u8>, cycles: int) -> Seq<(int, CaptureDataView)>
    decreases pending.len(),
{
    match record_at(pending) {
        None => Seq::empty(),
        Some(rec) => seq![(cycles_to_ns(cycles + rec.delta), rec.data)] + decoded(
            pending.skip(rec.size as int),
            cycles + rec.delta,
        ),
    }
}

/// The bytes left, and the clock, when everything that can be decoded has been.
pub open spec fn undecoded(pending: Seq<u8>, cycles: int) -> (Seq<u8>, int)
    decreases pending.len(),
{
    match record_at(pending) {
        None => (pending, cycles),
        Some(rec) => undecoded(pending.skip(rec.size as int), cycles + rec.delta),
    }
}

/// A record that is complete stays the same record when more bytes follow.
proof fn lemma_record_is_stable(a: Seq<u8>, b: Seq<u8>)
    requires
        record_at(a) is Some,
    ensures
        record_at(a + b) == record_at(a),
        0 < (record_at(a)->0).size <= a.len(),
{
    if a[0] != 0xFF {
        let len = u16_be(a[0], a[1]) as int;
        assert((a + b).subrange(4, 4 + len) =~= a.subrange(4, 4 + len));
    }
}

/// How a stream is cut into reads does not matter: decoding what came first, then
/// the rest, gives the same items and leaves the same bytes as decoding it whole.
pub proof fn chunking_does_not_matter(a: Seq<u8>, b: Seq<u8>, cycles: int)
    ensures
        ({
            let (left, clock) = undecoded(a, cycles);
            &&& decoded(a + b, cycles) == decoded(a, cycles) + decoded(left + b, clock)
            &&& undecoded(a + b, cycles) == undecoded(left + b, clock)
        }),
    decreases a.len(),
{
    match record_at(a) {
        None => {
            assert(decoded(a, cycles) + decoded(a + b, cycles) =~= decoded(a + b, cycles));
        },
        Some(rec) => {
            lemma_record_is_stable(a, b);
            let rest = a.skip(rec.size as int);
            assert((a + b).skip(rec.size as int) =~= rest + b);
            chunking_does_not_matter(rest, b, cycles + rec.delta);
            let (left, clock) = undecoded(a, cycles);
            assert(decoded(a + b, cycles) =~= decoded(a, cycles) + decoded(left + b, clock));
        },
    }
}

/// A record of the analyzer's stream.
pub enum StreamRecord {
    Packet { delta: u16, payload: Seq<u8> },
    Event { delta: u16, code: u8 },
}

impl StreamRecord {
    /// Clock cycles since the record before it.
    pub open spec fn delta(self) -> u16 {
        match self {
            StreamRecord::Packet { delta, .. } => delta,
            StreamRecord::Event { delta, .. } => delta,
        }
    }

    /// What the record carries.
    pub open spec fn data(self) -> CaptureDataView {
        match self {
            StreamRecord::Packet { payload, .. } => CaptureDataView::Packet(payload),
            StreamRecord::Event { code, .. } => CaptureDataView::Event(code),
        }
    }

    /// The bytes of the record.
    pub open spec fn bytes(self) -> Seq<u8> {
        match self {
            StreamRecord::Packet { delta, payload } => packet_record(delta, payload),
            StreamRecord::Event { delta, code } => event_record(code, delta),
        }
    }

    /// Whether the record can be told from others: a payload of 0xFF00 bytes or more
    /// would start with the mark of an event.
    pub open spec fn encodable(self) -> bool {
        self matches StreamRecord::Packet { payload, .. } ==> payload.len() < 0xFF00
    }
}

/// The bytes of a list of records, one after the other.
pub open spec fn encoded(rs: Seq<StreamRecord>) -> Seq<u8>
    decreases rs.len(),
{
    if rs.len() == 0 {
        Seq::empty()
    } else {
        rs[0].bytes() + encoded(rs.skip(1))
    }
}

/// The clock after the first `k` records: the sum of their deltas.
pub open spec fn clock_after(rs: Seq<StreamRecord>, k: int) -> int
    decreases k,
{
    if k <= 0 {
        0
    } else {
        clock_after(rs, k - 1) + rs[k - 1].delta()
    }
}

/// The items that a list of records stands for, with the clock at `cycles` before
/// the first: what each carries, at the time that the deltas add up to.
pub open spec fn items(rs: Seq<StreamRecord>, cycles: int) -> Seq<(int, CaptureDataView)> {
    Seq::new(
        rs.len(),
        |k: int| (cycles_to_ns(cycles + clock_after(rs, k + 1)), rs[k].data()),
    )
}

proof fn lemma_clock_after(rs: Seq<StreamRecord>, k: int)
    requires
        0 <= k < rs.len(),
    ensures
        clock_after(rs, k + 1) == rs[0].delta() + clock_after(rs.skip(1), k),
    decreases k,
{
    reveal_with_fuel(clock_after, 2);
    if k > 0 {
        lemma_clock_after(rs, k - 1);
        assert(rs.skip(1)[k - 1] == rs[k]);
    }
}

/// A record in front of other bytes is the first one read, and they follow.
proof fn lemma_first_record(r: StreamRecord, tail: Seq<u8>)
    requires
        r.encodable(),
    ensures
        record_at(r.bytes() + tail) == Some(
            Record { size: r.bytes().len(), delta: r.delta(), data: r.data() },
        ),
        (r.bytes() + tail).skip(r.bytes().len() as int) == tail,
{
    match r {
        StreamRecord::Packet { delta, payload } => {
            records_read_back(delta, payload, 0, tail);
        },
        StreamRecord::Event { delta, code } => {
            records_read_back(delta, Seq::empty(), code, tail);
        },
    }
    assert((r.bytes() + tail).skip(r.bytes().len() as int) =~= tail);
}

/// The items of a list of records are that of the first, then those of the others.
proof fn lemma_items(rs: Seq<StreamRecord>, cycles: int)
    requires
        rs.len() > 0,
    ensures
        items(rs, cycles) == seq![(cycles_to_ns(cycles + rs[0].delta()), rs[0].data())] + items(
            rs.skip(1),
            cycles + rs[0].delta(),
        ),
{
    let rest = items(rs.skip(1), cycles + rs[0].delta());
    let split = seq![(cycles_to_ns(cycles + rs[0].delta()), rs[0].data())] + rest;
    assert forall|k: int| 0 <= k < rs.len() implies items(rs, cycles)[k] == split[k] by {
        lemma_clock_after(rs, k);
        if k > 0 {
            assert(split[k] == rest[k - 1]);
            assert(rs.skip(1)[k - 1] == rs[k]);
        } else {
            assert(clock_after(rs.skip(1), 0) == 0);
        }
    }
    assert(items(rs, cycles) =~= split);
}

/// A whole stream reads back as its records: exactly those, in order, each at the
/// time that the deltas up to it add up to, with no byte left over.
pub proof fn stream_reads_back(rs: Seq<StreamRecord>, cycles: int)
    requires
        forall|k: int| 0 <= k < rs.len() ==> (#[trigger] rs[k]).encodable(),
    ensures
        decoded(encoded(rs), cycles) == items(rs, cycles),
        undecoded(encoded(rs), cycles) == (
            Seq::<u8>::empty(),
            cycles + clock_after(rs, rs.len() as int),
        ),
    decreases rs.len(),
{
    if rs.len() == 0 {
        assert(encoded(rs) =~= Seq::<u8>::empty());
        assert(decoded(encoded(rs), cycles) =~= items(rs, cycles));
    } else {
        let tail = rs.skip(1);
        assert(rs[0].encodable());
        lemma_first_record(rs[0], encoded(tail));
        assert forall|k: int| 0 <= k < tail.len() implies (#[trigger] tail[k]).encodable() by {
            assert(tail[k] == rs[k + 1]);
        }
        stream_reads_back(tail, cycles + rs[0].delta());
        lemma_clock_after(rs, tail.len() as int);
        lemma_items(rs, cycles);
    }
}

/// A call of a [`RecordParser`].
pub enum ParserCall {
    /// `extend` with these bytes.
    Extend(Seq<u8>),
    /// `next_item`.
    Next,
}

/// The bytes that a list of calls feeds, in order.
pub open spec fn fed(calls: Seq<ParserCall>) -> Seq<u8>
    decreases calls.len(),
{
    if calls.len() == 0 {
        Seq::empty()
    } else {
        (match calls[0] {
            ParserCall::Extend(data) => data,
            ParserCall::Next => Seq::empty(),
        }) + fed(calls.skip(1))
    }
}

/// The parser after a list of calls, and the items they hand out, in order.
pub open spec fn after_calls(p: RecordParserView, calls: Seq<ParserCall>) -> (
    RecordParserView,
    Seq<CaptureItemView>,
)
    decreases calls.len(),
{
    if calls.len() == 0 {
        (p, Seq::empty())
    } else {
        match calls[0] {
            ParserCall::Extend(data) => after_calls(p.extended(data), calls.skip(1)),
            ParserCall::Next => {
                let (q, item) = p.next();
                let (end, rest) = after_calls(q, calls.skip(1));
                match item {
                    Some(i) => (end, seq![i] + rest),
                    None => (end, rest),
                }
            },
        }
    }
}

/// Items as they are handed out, with their times in 64 bits.
pub open spec fn handed_out(s: Seq<(int, CaptureDataView)>) -> Seq<CaptureItemView> {
    Seq::new(s.len(), |k: int| CaptureItemView { timestamp_ns: s[k].0 as u64, data: s[k].1 })
}

proof fn lemma_clock_grows(pending: Seq<u8>, cycles: int)
    ensures
        undecoded(pending, cycles).1 >= cycles,
    decreases pending.len(),
{
    if record_at(pending) is Some {
        let rec = record_at(pending)->0;
        lemma_record_is_stable(pending, Seq::empty());
        lemma_clock_grows(pending.skip(rec.size as int), cycles + rec.delta);
    }
}

/// What has been handed out, and what can still be decoded, are together what all
/// the bytes fed so far decode to.
proof fn lemma_calls(p: RecordParserView, calls: Seq<ParserCall>)
    requires
        cycles_to_ns(undecoded(p.pending + fed(calls), p.cycles as int).1) <= u64::MAX,
    ensures
        ({
            let (end, out) = after_calls(p, calls);
            let all = p.pending + fed(calls);
            &&& out + handed_out(decoded(end.pending, end.cycles as int)) == handed_out(
                decoded(all, p.cycles as int),
            )
            &&& undecoded(end.pending, end.cycles as int) == undecoded(all, p.cycles as int)
        }),
    decreases calls.len(),
{
    let all = p.pending + fed(calls);
    let c = p.cycles as int;
    if calls.len() == 0 {
        assert(all =~= p.pending);
        let d = handed_out(decoded(all, c));
        assert(Seq::<CaptureItemView>::empty() + d =~= d);
    } else {
        let rest = calls.skip(1);
        match calls[0] {
            ParserCall::Extend(data) => {
                assert(p.extended(data).pending + fed(rest) =~= all);
                lemma_calls(p.extended(data), rest);
            },
            ParserCall::Next => match record_at(p.pending) {
                None => {
                    assert(p.pending + fed(rest) =~= all);
                    lemma_calls(p, rest);
                },
                Some(rec) => {
                    let (q, item) = p.next();
                    lemma_record_is_stable(p.pending, fed(rest));
                    assert(all =~= p.pending + fed(rest));
                    assert(all.skip(rec.size as int) =~= q.pending + fed(rest));
                    lemma_clock_grows(all.skip(rec.size as int), c + rec.delta);
                    assert(q.cycles == c + rec.delta);
                    lemma_calls(q, rest);
                    let (end, out) = after_calls(q, rest);
                    let i = item->0;
                    let tail = decoded(q.pending + fed(rest), c + rec.delta);
                    assert(decoded(all, c) == seq![(cycles_to_ns(c + rec.delta), rec.data)] + tail);
                    assert(handed_out(decoded(all, c)) =~= seq![i] + handed_out(tail));
                    let left = handed_out(decoded(end.pending, end.cycles as int));
                    assert((seq![i] + out) + left =~= seq![i] + (out + left));
                },
            },
        }
    }
}

/// However a stream of records is cut into pieces, and wherever between them items
/// are asked for: once no more come, the items handed out are exactly the records, in
/// order, each at the time that the deltas up to it add up to, and no byte is left.
pub proof fn parser_reads_the_stream_back(rs: Seq<StreamRecord>, calls: Seq<ParserCall>)
    requires
        forall|k: int| 0 <= k < rs.len() ==> (#[trigger] rs[k]).encodable(),
        fed(calls) == encoded(rs),
        cycles_to_ns(clock_after(rs, rs.len() as int)) <= u64::MAX,
        ({
            let start = RecordParserView { pending: Seq::empty(), cycles: 0 };
            after_calls(start, calls).0.next().1 is None
        }),
    ensures
        ({
            let start = RecordParserView { pending: Seq::empty(), cycles: 0 };
            let (end, out) = after_calls(start, calls);
            &&& out == handed_out(items(rs, 0))
            &&& end.pending.len() == 0
            &&& end.cycles == clock_after(rs, rs.len() as int)
        }),
{
    let start = RecordParserView { pending: Seq::empty(), cycles: 0 };
    let (end, out) = after_calls(start, calls);
    assert(start.pending + fed(calls) =~= encoded(rs));
    stream_reads_back(rs, 0);
    lemma_calls(start, calls);
    let none = handed_out(decoded(end.pending, end.cycles as int));
    assert(none =~= Seq::<CaptureItemView>::empty());
    assert(out + none =~= out);
}

/// The next record is refused only if its time does not fit 64 bits of nanoseconds, which it
/// does for the first five centuries of a capture.
pub proof fn clock_fits_for_centuries(p: RecordParserView)
    ensures
        p.cycles < 1_000_000_000_000_000_000 ==> p.next_fits(),
        p.next_fits() <==> (match record_at(p.pending) {
            Some(rec) => 50 * (p.cycles + rec.delta) < 3 * 0x1_0000_0000_0000_0000,
            None => 50 * p.cycles < 3 * 0x1_0000_0000_0000_0000,
        }),
{
}

/// Timestamps never decrease along a stream, and none is before the clock it
/// started from.
pub proof fn timestamps_ascend(pending: Seq<u8>, cycles: int)
    requires
        0 <= cycles,
    ensures
        forall|i: int|
            0 <= i < decoded(pending, cycles).len() ==> cycles_to_ns(cycles) <= (
            #[trigger] decoded(pending, cycles)[i]).0,
        forall|i: int, j: int|
            0 <= i <= j < decoded(pending, cycles).len() ==> (#[trigger] decoded(
                pending,
                cycles,
            )[i]).0 <= (#[trigger] decoded(pending, cycles)[j]).0,
    decreases pending.len(),
{
    if record_at(pending) is Some {
        let rec = record_at(pending)->0;
        lemma_record_is_stable(pending, Seq::empty());
        let rest = pending.skip(rec.size as int);
        let later = cycles + rec.delta;
        timestamps_ascend(rest, later);
        let all = decoded(pending, cycles);
        let tail = decoded(rest, later);
        assert forall|i: int| 0 <= i < all.len() implies cycles_to_ns(cycles) <= (
        #[trigger] all[i]).0 by {
            if i > 0 {
                assert(all[i] == tail[i - 1]);
            }
        }
        assert forall|i: int, j: int| 0 <= i <= j < all.len() implies (#[trigger] all[i]).0 <= (
        #[trigger] all[j]).0 by {
            if i > 0 {
                assert(all[i] == tail[i - 1]);
            }
            if j > 0 {
                assert(all[j] == tail[j - 1]);
            }
        }
    }
}

/// What an active capture does next.
#[derive(Debug)]
pub enum CaptureStep {
    /// Hand out this item.
    Item(CaptureItem),
    /// Read more bytes from the device, and report them.
    Read,
    /// The stream has ended.
    Ended,
}

/// An active capture: decides when to read from the device, what to hand out, and
/// when the analyzer has to be told to stop. It performs no I/O itself.
pub struct CynthionCapture {
    /// State byte to write to disable capture.
    stop_state: u8,
    parser: RecordParser,
    /// Stream has ended (EOF or error).
    done: bool,
    /// Capture has been disabled.
    stopped: bool,
}

/// What a [`CynthionCapture`] holds.
#[verifier::ext_equal]
pub struct CynthionCaptureView {
    pub stop_state: u8,
    pub parser: RecordParserView,
    pub done: bool,
    pub stopped: bool,
}

impl View for CynthionCapture {
    type V = CynthionCaptureView;

    closed spec fn view(&self) -> CynthionCaptureView {
        CynthionCaptureView {
            stop_state: self.stop_state,
            parser: self.parser@,
            done: self.done,
            stopped: self.stopped,
        }
    }
}

/// What an active capture does next, in terms of what it hands out.
pub enum CaptureStepView {
    Item(CaptureItemView),
    Read,
    Ended,
}

impl View for CaptureStep {
    type V = CaptureStepView;

    open spec fn view(&self) -> CaptureStepView {
        match *self {
            CaptureStep::Item(item) => CaptureStepView::Item(item@),
            CaptureStep::Read => CaptureStepView::Read,
            CaptureStep::Ended => CaptureStepView::Ended,
        }
    }
}

impl CynthionCaptureView {
    /// A capture that has just been enabled.
    pub open spec fn started(stop_state: u8) -> CynthionCaptureView {
        CynthionCaptureView {
            stop_state,
            parser: RecordParserView { pending: Seq::empty(), cycles: 0 },
            done: false,
            stopped: false,
        }
    }

    /// The capture after its next step, and that step.
    pub open spec fn stepped(self) -> (CynthionCaptureView, CaptureStepView) {
        if self.done {
            (self, CaptureStepView::Ended)
        } else {
            let (parser, item) = self.parser.next();
            match item {
                Some(i) => (CynthionCaptureView { parser, ..self }, CaptureStepView::Item(i)),
                None => (self, CaptureStepView::Read),
            }
        }
    }

    /// The capture after a read that brought `data`.
    pub open spec fn received(self, data: Seq<u8>) -> CynthionCaptureView {
        if data.len() == 0 {
            CynthionCaptureView { done: true, ..self }
        } else {
            CynthionCaptureView { parser: self.parser.extended(data), ..self }
        }
    }

    /// The capture after a read that failed.
    pub open spec fn failed(self) -> CynthionCaptureView {
        CynthionCaptureView { done: true, ..self }
    }

    /// The capture after it was stopped, and the State byte to write for that.
    pub open spec fn halted(self) -> (CynthionCaptureView, Option<u8>) {
        (
            CynthionCaptureView { stopped: true, ..self },
            if self.stopped {
                None
            } else {
                Some(self.stop_state)
            },
        )
    }
}

/// A capture is told to stop once: the first time, with the byte it was started with; and
/// stopping changes nothing of what it has read.
pub proof fn capture_is_stopped_once(c: CynthionCaptureView, stop_state: u8)
    ensures
        CynthionCaptureView::started(stop_state).halted().1 == Some(stop_state),
        !c.stopped ==> c.halted().1 == Some(c.stop_state),
        c.stopped ==> c.halted().1 is None,
        c.halted().0.halted().1 is None,
        c.halted().0.halted().0 == c.halted().0,
        c.halted().0.parser == c.parser,
        c.halted().0.done == c.done,
        c.halted().0.stop_state == c.stop_state,
{
}

/// A read that brings nothing, or fails, ends the stream for good: from then on every step
/// says so and nothing is handed out, whatever was left to decode.
pub proof fn capture_ends_for_good(c: CynthionCaptureView, more: Seq<u8>)
    ensures
        c.received(Seq::empty()).stepped().1 is Ended,
        c.failed().stepped().1 is Ended,
        c.failed().stepped().0 == c.failed(),
        c.done ==> c.stepped().1 is Ended && c.stepped().0.done && c.received(more).done
            && c.failed().done && c.halted().0.done,
        !c.done && more.len() > 0 ==> !c.received(more).done,
        !c.done ==> !(c.stepped().1 is Ended) && !c.stepped().0.done,
{
}

/// As long as a capture runs, it hands out what its parser decodes of the bytes read, one
/// item a step, and asks for a read exactly when there is no whole record; stepping and
/// reading leave the stop byte, and whether it was written, alone.
pub proof fn capture_hands_out_the_records(c: CynthionCaptureView, data: Seq<u8>)
    requires
        !c.done,
        data.len() > 0,
    ensures
        c.stepped().1 is Read <==> record_at(c.parser.pending) is None,
        c.stepped().1 is Read ==> c.stepped().0 == c,
        c.stepped().1 is Item <==> record_at(c.parser.pending) is Some,
        c.stepped().1 is Item ==> Some(c.stepped().1->Item_0) == c.parser.next().1
            && c.stepped().0.parser == c.parser.next().0,
        c.received(data).parser.pending == c.parser.pending + data,
        c.received(data).parser.cycles == c.parser.cycles,
        c.stepped().0.stop_state == c.stop_state && c.stepped().0.stopped == c.stopped,
        c.received(data).stop_state == c.stop_state && c.received(data).stopped == c.stopped,
{
}

impl CynthionCapture {
    /// A capture that has just been enabled.
    pub fn new(stop_state: u8) -> (c: CynthionCapture)
        ensures
            c@ == CynthionCaptureView::started(stop_state),
    {
        CynthionCapture { stop_state, parser: RecordParser::new(), done: false, stopped: false }
    }

    /// Whether the time of the next item fits the 64-bit nanosecond clock, as
    /// [`step`](CynthionCapture::step) needs.
    pub fn next_fits(&self) -> (r: bool)
        ensures
            r == self@.parser.next_fits(),
    {
        self.parser.next_fits()
    }

    /// Decide what to do next: once ended, nothing; else the next complete item if
    /// there is one, and a read if not.
    pub fn step(&mut self) -> (s: CaptureStep)
        requires
            old(self)@.parser.next_fits(),
        ensures
            final(self)@ == old(self)@.stepped().0,
            s@ == old(self)@.stepped().1,
    {
        if self.done {
            return CaptureStep::Ended;
        }
        match self.parser.next_item() {
            Some(item) => CaptureStep::Item(item),
            None => CaptureStep::Read,
        }
    }

    /// Report what a read brought. An empty read ends the stream.
    pub fn received(&mut self, data: &[u8])
        ensures
            final(self)@ == old(self)@.received(data@),
    {
        if data.len() == 0 {
            self.done = true;
        } else {
            self.parser.extend(data);
        }
    }

    /// Report that a read failed, which ends the stream.
    pub fn failed(&mut self)
        ensures
            final(self)@ == old(self)@.failed(),
    {
        self.done = true;
    }

    /// Stop the capture: the State byte to write, or `None` if it was stopped before.
    pub fn stop(&mut self) -> (r: Option<u8>)
        ensures
            r == old(self)@.halted().1,
            final(self)@ == old(self)@.halted().0,
    {
        if self.stopped {
            return None;
        }
        self.stopped = true;
        Some(self.stop_state)
    }

    /// The State byte that stops this capture, for a detached stop handle.
    pub fn stop_state(&self) -> (b: u8)
        ensures
            b == self@.stop_state,
    {
        self.stop_state
    }
}

} // verus!

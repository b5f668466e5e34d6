//! USB **host** capability: driving a device under test (DUT) directly, the way
//! the Cynthion will once host gateware exists.
//!
//! This module is deliberately **forensics-first**: alongside the convenient
//! high-level operations ([`UsbHost::control_transfer`], [`UsbHost::enumerate`])
//! it exposes a low-level [`UsbHost::raw_transaction`] that can emit deliberately
//! non-compliant traffic (bad/absent CRC, forced data toggle, no retry) and a
//! [`WireEvent`] stream that records exactly what happened on the bus - including
//! errors a compliant host would hide.
//!
//! The types here are transport-agnostic. A concrete implementation states what
//! its primitive operations do in [`HostModel`](model::HostModel); everything
//! built on top of them ([`enumerate`](UsbHost::enumerate),
//! [`examine`](UsbHost::examine), the recipes of [`UsbForensics`]) is specified in
//! terms of that model. [`crate::mock`] provides a software implementation.

use vstd::prelude::*;
use vstd::string::*;

use std::collections::BTreeMap;

use crate::bytes;
use crate::capture::Speed;
use crate::error;
use crate::error::Error;
use crate::error::Result;
use crate::text;

pub mod descriptor_type;
pub mod descriptors;
pub mod forensics;
pub mod model;
mod notes;
pub mod request;

pub use descriptors::{
    Configuration, ConfigurationDescriptor, EndpointDescriptor, Interface, InterfaceDescriptor,
    RawDescriptor, StringDescriptor, TransferType, UsbDeviceModel,
};
pub use forensics::UsbForensics;
pub use model::HostModel;

verus! {

/// USB packet identifier (the 4-bit PID value).
#[derive(Debug, Clone, Copy, PartialEq, Eq, Structural)]
pub enum Pid {
    // Token
    Out,
    In,
    Sof,
    Setup,
    // Data
    Data0,
    Data1,
    Data2,
    MData,
    // Handshake
    Ack,
    Nak,
    Stall,
    Nyet,
    // Special
    Pre,  // also ERR (same value)
    Split,
    Ping,
    Reserved,
}

impl Pid {
    /// The 4-bit code of a packet identifier.
    pub open spec fn code(self) -> int {
        match self {
            Pid::Out => 0x1,
            Pid::In => 0x9,
            Pid::Sof => 0x5,
            Pid::Setup => 0xD,
            Pid::Data0 => 0x3,
            Pid::Data1 => 0xB,
            Pid::Data2 => 0x7,
            Pid::MData => 0xF,
            Pid::Ack => 0x2,
            Pid::Nak => 0xA,
            Pid::Stall => 0xE,
            Pid::Nyet => 0x6,
            Pid::Pre => 0xC,
            Pid::Split => 0x8,
            Pid::Ping => 0x4,
            Pid::Reserved => 0x0,
        }
    }

    /// The 4-bit PID value as it appears in the low nibble on the wire.
    pub fn value(self) -> (v: u8)
        ensures
            v == self.code(),
            v < 16,
    {
        match self {
            Pid::Out => 0x1,
            Pid::In => 0x9,
            Pid::Sof => 0x5,
            Pid::Setup => 0xD,
            Pid::Data0 => 0x3,
            Pid::Data1 => 0xB,
            Pid::Data2 => 0x7,
            Pid::MData => 0xF,
            Pid::Ack => 0x2,
            Pid::Nak => 0xA,
            Pid::Stall => 0xE,
            Pid::Nyet => 0x6,
            Pid::Pre => 0xC,
            Pid::Split => 0x8,
            Pid::Ping => 0x4,
            Pid::Reserved => 0x0,
        }
    }

    /// Decode a 4-bit PID value (low nibble; higher bits are ignored).
    pub fn from_value(v: u8) -> (p: Pid)
        ensures
            p.code() == v % 16,
    {
        match v % 16 {
            0x1 => Pid::Out,
            0x9 => Pid::In,
            0x5 => Pid::Sof,
            0xD => Pid::Setup,
            0x3 => Pid::Data0,
            0xB => Pid::Data1,
            0x7 => Pid::Data2,
            0xF => Pid::MData,
            0x2 => Pid::Ack,
            0xA => Pid::Nak,
            0xE => Pid::Stall,
            0x6 => Pid::Nyet,
            0xC => Pid::Pre,
            0x8 => Pid::Split,
            0x4 => Pid::Ping,
            _ => Pid::Reserved,
        }
    }

    /// The full PID byte on the wire: low nibble = PID, high nibble = its complement.
    pub open spec fn wire_code(self) -> int {
        self.code() + 16 * (15 - self.code())
    }

    /// The full PID byte on the wire: low nibble = PID, high nibble = its complement.
    pub fn wire_byte(self) -> (b: u8)
        ensures
            b == self.wire_code(),
    {
        let p: u8 = self.value();
        p + 16 * (15 - p)
    }
}

/// A packet identifier is determined by its code, so decoding what was encoded
/// gives it back; and on the wire the two nibbles of its byte always add up to 15.
pub proof fn pid_round_trip(p: Pid, q: Pid)
    ensures
        0 <= p.code() < 16,
        p.code() == q.code() ==> p == q,
        ({
            let wire = p.code() + 16 * (15 - p.code());
            wire % 16 == p.code() && wire / 16 + wire % 16 == 15
        }),
{
}

/// The bits of a packet identifier say what it is. The two low bits give its kind:
/// 01 for a token, 11 for data, 10 for a handshake, 00 for a special packet. Bits 2
/// and 3 tell those of a kind apart. On the wire the code stands in the low nibble and
/// its complement, bit for bit, in the high one.
pub proof fn pid_bits(p: Pid)
    ensures
        p.code() % 4 == 1 <==> (p is Out || p is In || p is Sof || p is Setup),
        p.code() % 4 == 3 <==> (p is Data0 || p is Data1 || p is Data2 || p is MData),
        p.code() % 4 == 2 <==> (p is Ack || p is Nak || p is Stall || p is Nyet),
        p.code() % 4 == 0 <==> (p is Pre || p is Split || p is Ping || p is Reserved),
        (p.code() / 4) % 2 == 1 <==> (p is Sof || p is Setup || p is Data2 || p is MData
            || p is Nyet || p is Stall || p is Ping || p is Pre),
        p.code() / 8 == 1 <==> (p is In || p is Setup || p is Data1 || p is MData || p is Nak
            || p is Stall || p is Split || p is Pre),
        0 <= p.wire_code() < 256,
        p.wire_code() % 16 == p.code(),
        p.wire_code() / 16 + p.wire_code() % 16 == 15,
{
}

/// The numbers that the USB standard gives to descriptor types and requests.
pub proof fn standard_numbers()
    ensures
        descriptor_type::DEVICE == 1,
        descriptor_type::CONFIGURATION == 2,
        descriptor_type::STRING == 3,
        descriptor_type::INTERFACE == 4,
        descriptor_type::ENDPOINT == 5,
        request::GET_STATUS == 0,
        request::CLEAR_FEATURE == 1,
        request::SET_FEATURE == 3,
        request::SET_ADDRESS == 5,
        request::GET_DESCRIPTOR == 6,
        request::SET_DESCRIPTOR == 7,
        request::GET_CONFIGURATION == 8,
        request::SET_CONFIGURATION == 9,
{
}

/// Transfer direction relative to the host.
#[derive(Debug, Clone, Copy, PartialEq, Eq, Structural)]
pub enum Direction {
    /// Device-to-host.
    In,
    /// Host-to-device.
    Out,
}

/// A USB control SETUP packet (the 8 bytes of `bmRequestType` to `wLength`).
#[derive(Debug, Clone, Copy, PartialEq, Eq, Structural)]
pub struct Setup {
    pub request_type: u8,
    pub request: u8,
    pub value: u16,
    pub index: u16,
    pub length: u16,
}

impl Setup {
    /// The 8 on-the-wire bytes (little-endian fields).
    pub open spec fn wire(self) -> Seq<u8> {
        seq![self.request_type, self.request] + bytes::le16(self.value) + bytes::le16(self.index)
            + bytes::le16(self.length)
    }

    /// The packet that 8 on-the-wire bytes hold.
    pub open spec fn of_wire(b: Seq<u8>) -> Setup {
        Setup {
            request_type: b[0],
            request: b[1],
            value: bytes::u16_le(b[2], b[3]),
            index: bytes::u16_le(b[4], b[5]),
            length: bytes::u16_le(b[6], b[7]),
        }
    }

    /// The standard request for `len` bytes of a descriptor.
    pub open spec fn descriptor_request(desc_type: u8, index: u8, lang: u16, len: u16) -> Setup {
        Setup {
            request_type: 0x80,
            request: request::GET_DESCRIPTOR,
            value: (256 * desc_type + index) as u16,
            index: lang,
            length: len,
        }
    }

    /// The standard request that assigns a device address.
    pub open spec fn address_request(address: u8) -> Setup {
        Setup {
            request_type: 0x00,
            request: request::SET_ADDRESS,
            value: address as u16,
            index: 0,
            length: 0,
        }
    }

    /// Serialize to the 8 on-the-wire bytes (little-endian fields).
    pub fn to_bytes(self) -> (b: [u8; 8])
        ensures
            b@ == self.wire(),
    {
        let b: [u8; 8] = [
            self.request_type,
            self.request,
            (self.value % 256) as u8,
            (self.value / 256) as u8,
            (self.index % 256) as u8,
            (self.index / 256) as u8,
            (self.length % 256) as u8,
            (self.length / 256) as u8,
        ];
        assert(b@ =~= self.wire());
        b
    }

    /// Read the packet from its 8 on-the-wire bytes.
    pub(crate) fn from_bytes(b: [u8; 8]) -> (s: Setup)
        ensures
            s == Self::of_wire(b@),
    {
        Setup {
            request_type: b[0],
            request: b[1],
            value: bytes::read_u16_le(b[2], b[3]),
            index: bytes::read_u16_le(b[4], b[5]),
            length: bytes::read_u16_le(b[6], b[7]),
        }
    }

    /// The standard request for `len` bytes of a descriptor.
    pub(crate) fn get_descriptor(desc_type: u8, index: u8, lang: u16, len: u16) -> (s: Setup)
        ensures
            s == Self::descriptor_request(desc_type, index, lang, len),
    {
        Setup {
            request_type: 0x80,
            request: request::GET_DESCRIPTOR,
            value: 256 * (desc_type as u16) + index as u16,
            index: lang,
            length: len,
        }
    }

    /// Whether the data stage flows device-to-host (bit 7 of `bmRequestType`).
    pub open spec fn flows_in(self) -> bool {
        self.request_type >= 128
    }

    /// True if the data stage flows device-to-host (bit 7 of `bmRequestType`).
    pub fn is_in(self) -> (r: bool)
        ensures
            r == self.flows_in(),
    {
        self.request_type >= 128
    }
}

/// A SETUP packet takes 8 bytes on the wire, and reading them gives it back.
pub proof fn setup_round_trip(s: Setup)
    ensures
        s.wire().len() == 8,
        Setup::of_wire(s.wire()) == s,
{
}

/// The fields of a SETUP packet stand on the wire in the order of the standard, the
/// 16-bit ones with the byte of least weight first, and the direction of the data
/// stage is bit 7 of the first byte, whatever the seven below it say.
pub proof fn setup_layout(s: Setup, kind: u8)
    requires
        kind < 128,
    ensures
        ({
            let w = s.wire();
            &&& w[0] == s.request_type
            &&& w[1] == s.request
            &&& w[2] + 256 * w[3] == s.value
            &&& w[4] + 256 * w[5] == s.index
            &&& w[6] + 256 * w[7] == s.length
        }),
        (Setup { request_type: (128 + kind) as u8, ..s }).flows_in(),
        !(Setup { request_type: kind, ..s }).flows_in(),
{
}

/// The standard requests, byte for byte as they go on the wire: GET_DESCRIPTOR has the
/// type in the high and the index in the low byte of `wValue`, the language in
/// `wIndex` and the length in `wLength`; SET_ADDRESS has the address in `wValue`.
pub proof fn standard_requests(desc_type: u8, index: u8, lang: u16, len: u16, address: u8)
    ensures
        Setup::descriptor_request(desc_type, index, lang, len).wire() == seq![
            0x80u8,
            6,
            index,
            desc_type,
            (lang % 256) as u8,
            (lang / 256) as u8,
            (len % 256) as u8,
            (len / 256) as u8,
        ],
        Setup::address_request(address).wire() == seq![0u8, 5, address, 0, 0, 0, 0, 0],
{
    assert(Setup::descriptor_request(desc_type, index, lang, len).wire() =~= seq![
        0x80u8,
        6,
        index,
        desc_type,
        (lang % 256) as u8,
        (lang / 256) as u8,
        (len % 256) as u8,
        (len / 256) as u8,
    ]);
    assert(Setup::address_request(address).wire() =~= seq![0u8, 5, address, 0, 0, 0, 0, 0]);
}

/// Handshake observed (or, for IN transfers, sent) at the end of a transaction.
#[derive(Debug, Clone, Copy, PartialEq, Eq, Structural)]
pub enum Handshake {
    Ack,
    Nak,
    Stall,
    Nyet,
    /// No handshake (e.g. isochronous, or a timeout).
    Absent,
}

/// A bus-level anomaly observed during a transaction or on the wire.
///
/// A forensics host records these rather than silently retrying or hiding them.
#[derive(Debug, Clone, PartialEq, Eq)]
pub enum BusError {
    /// No response within the bus turnaround timeout.
    Timeout,
    /// Token CRC5 mismatch.
    Crc5,
    /// Data CRC16 mismatch.
    Crc16,
    /// Bit-stuffing violation.
    BitStuff,
    /// Packet longer than the endpoint's maximum (babble).
    Babble,
    /// PID check nibble did not match its complement.
    PidCheck,
    /// A PID other than the protocol allowed at this point.
    UnexpectedPid(u8),
    /// Fewer bytes than expected.
    ShortPacket,
    /// Receive FIFO overran (the known HS bulk hazard).
    Overflow,
    /// Anything else, described.
    Other(String),
}

/// What a [`BusError`] says.
pub enum BusErrorView {
    Timeout,
    Crc5,
    Crc16,
    BitStuff,
    Babble,
    PidCheck,
    UnexpectedPid(u8),
    ShortPacket,
    Overflow,
    Other(Seq<char>),
}

impl View for BusError {
    type V = BusErrorView;

    open spec fn view(&self) -> BusErrorView {
        match *self {
            BusError::Timeout => BusErrorView::Timeout,
            BusError::Crc5 => BusErrorView::Crc5,
            BusError::Crc16 => BusErrorView::Crc16,
            BusError::BitStuff => BusErrorView::BitStuff,
            BusError::Babble => BusErrorView::Babble,
            BusError::PidCheck => BusErrorView::PidCheck,
            BusError::UnexpectedPid(p) => BusErrorView::UnexpectedPid(p),
            BusError::ShortPacket => BusErrorView::ShortPacket,
            BusError::Overflow => BusErrorView::Overflow,
            BusError::Other(s) => BusErrorView::Other(s@),
        }
    }
}

/// What a list of bus errors says.
pub open spec fn bus_error_views(s: Seq<BusError>) -> Seq<BusErrorView> {
    Seq::new(s.len(), |i: int| s[i]@)
}

/// Forensic controls for a single [`RawTransaction`].
///
/// Defaults are all "behave compliantly".
#[derive(Debug, Clone, Copy, PartialEq, Eq, Structural)]
pub struct TxFlags {
    /// Do not retry on NAK/timeout - report exactly what happened, once.
    pub no_retry: bool,
    /// Append a deliberately corrupted CRC.
    pub corrupt_crc: bool,
    /// Send no CRC at all (raw bytes only).
    pub no_crc: bool,
    /// Force the data toggle: `Some(false)` = DATA0, `Some(true)` = DATA1.
    /// `None` uses the tracked per-endpoint toggle.
    pub force_toggle: Option<bool>,
    /// The handshake the caller expects (recorded/asserted); `None` accepts any.
    pub expect: Option<Handshake>,
    /// Corrupt the PID's check nibble (the high-nibble complement) - an illegal
    /// packet a compliant host would never send.
    pub bad_pid_check: bool,
    /// Send a deliberately wrong token CRC5.
    pub crc5_error: bool,
    /// Send this exact data PID (DATA0/DATA1/DATA2/MDATA) regardless of the
    /// tracked toggle - to provoke or study toggle handling.
    pub force_data_pid: Option<Pid>,
    /// Append this many extra junk bytes past the declared length (babble).
    pub extra_bytes: usize,
    /// Cut the data packet short (drop its trailing byte) - a short/runt packet.
    pub truncate: bool,
}

impl TxFlags {
    /// Flags that ask for no violation.
    pub open spec fn compliant() -> TxFlags {
        TxFlags {
            no_retry: false,
            corrupt_crc: false,
            no_crc: false,
            force_toggle: None,
            expect: None,
            bad_pid_check: false,
            crc5_error: false,
            force_data_pid: None,
            extra_bytes: 0,
            truncate: false,
        }
    }
}

impl Default for TxFlags {
    fn default() -> (f: TxFlags)
        ensures
            f == TxFlags::compliant(),
    {
        TxFlags {
            no_retry: false,
            corrupt_crc: false,
            no_crc: false,
            force_toggle: None,
            expect: None,
            bad_pid_check: false,
            crc5_error: false,
            force_data_pid: None,
            extra_bytes: 0,
            truncate: false,
        }
    }
}

/// Stage-level forensic controls for a [`control transfer`](UsbHost::control_raw),
/// independent of the SETUP bytes themselves. Defaults are all compliant.
///
/// The SETUP packet (8 bytes) is passed separately and may itself be arbitrary
/// (illegal `bmRequestType`, mismatched `wLength`, reserved requests...); these
/// options control how the *stages* are driven around it.
#[derive(Debug, Clone, Copy)]
pub struct ControlForensics {
    /// Drive the data stage for exactly this many bytes instead of the SETUP's
    /// `wLength` - to under/over-run on purpose (e.g. `wLength`=64 but read 0).
    pub data_len_override: Option<usize>,
    /// Skip the status stage entirely (a transfer with no handshake close).
    pub skip_status: bool,
    /// Drive the status stage in the wrong direction (IN where OUT is required,
    /// or vice-versa).
    pub status_wrong_dir: bool,
    /// Per-transaction wire violations applied to the data stage.
    pub flags: TxFlags,
}

impl ControlForensics {
    /// Options that drive every stage compliantly.
    pub open spec fn compliant() -> ControlForensics {
        ControlForensics {
            data_len_override: None,
            skip_status: false,
            status_wrong_dir: false,
            flags: TxFlags::compliant(),
        }
    }
}

impl Default for ControlForensics {
    fn default() -> (c: ControlForensics)
        ensures
            c == ControlForensics::compliant(),
    {
        ControlForensics {
            data_len_override: None,
            skip_status: false,
            status_wrong_dir: false,
            flags: TxFlags::default(),
        }
    }
}

/// Defaults ask for no violation at all.
pub proof fn defaults_are_compliant()
    ensures
        ({
            let c = ControlForensics::compliant();
            &&& c.data_len_override is None && !c.skip_status && !c.status_wrong_dir
            &&& c.flags == TxFlags::compliant()
            &&& !c.flags.no_retry && !c.flags.corrupt_crc && !c.flags.no_crc
            &&& c.flags.force_toggle is None && c.flags.expect is None
            &&& !c.flags.bad_pid_check && !c.flags.crc5_error && c.flags.force_data_pid is None
            &&& c.flags.extra_bytes == 0 && !c.flags.truncate
        }),
{
}

/// A single low-level USB transaction (token + optional data + handshake).
///
/// This is the forensic primitive: full control over address/endpoint/PID/data
/// and the ability to violate the spec via [`TxFlags`].
#[derive(Debug, Clone)]
pub struct RawTransaction {
    /// Token PID (`Setup`/`In`/`Out`/`Ping`/`Sof`).
    pub pid: Pid,
    /// Device address (0-127).
    pub address: u8,
    /// Endpoint number (0-15).
    pub endpoint: u8,
    /// Payload for OUT/SETUP tokens (ignored for IN).
    pub data: Vec<u8>,
    /// Forensic flags.
    pub flags: TxFlags,
}

/// What a [`RawTransaction`] holds.
#[verifier::ext_equal]
pub struct RawTransactionView {
    pub pid: Pid,
    pub address: u8,
    pub endpoint: u8,
    pub data: Seq<u8>,
    pub flags: TxFlags,
}

impl View for RawTransaction {
    type V = RawTransactionView;

    open spec fn view(&self) -> RawTransactionView {
        RawTransactionView {
            pid: self.pid,
            address: self.address,
            endpoint: self.endpoint,
            data: self.data@,
            flags: self.flags,
        }
    }
}

/// Outcome of a [`RawTransaction`] or bulk/interrupt transfer.
#[derive(Debug, Clone)]
pub struct TransactionResult {
    /// Handshake received (OUT/SETUP) or sent (IN).
    pub handshake: Handshake,
    /// Payload received (IN); empty otherwise.
    pub data: Vec<u8>,
    /// Capture timestamp (ns) when the transaction started.
    pub start_ns: u64,
    /// Wall duration of the transaction (ns).
    pub duration_ns: u64,
    /// Any anomalies observed.
    pub errors: Vec<BusError>,
}

/// What a [`TransactionResult`] holds.
#[verifier::ext_equal]
pub struct TransactionResultView {
    pub handshake: Handshake,
    pub data: Seq<u8>,
    pub start_ns: u64,
    pub duration_ns: u64,
    pub errors: Seq<BusErrorView>,
}

impl View for TransactionResult {
    type V = TransactionResultView;

    open spec fn view(&self) -> TransactionResultView {
        TransactionResultView {
            handshake: self.handshake,
            data: self.data@,
            start_ns: self.start_ns,
            duration_ns: self.duration_ns,
            errors: bus_error_views(self.errors@),
        }
    }
}

/// Outcome of a complete control transfer (setup + data + status stages).
#[derive(Debug, Clone)]
pub struct ControlResult {
    /// IN data returned by the device (empty for OUT transfers).
    pub data: Vec<u8>,
    /// The device STALLed the request.
    pub stalled: bool,
    /// Anomalies observed across the stages.
    pub errors: Vec<BusError>,
    /// Total duration (ns).
    pub duration_ns: u64,
}

/// What a [`ControlResult`] holds.
#[verifier::ext_equal]
pub struct ControlResultView {
    pub data: Seq<u8>,
    pub stalled: bool,
    pub errors: Seq<BusErrorView>,
    pub duration_ns: u64,
}

impl View for ControlResult {
    type V = ControlResultView;

    open spec fn view(&self) -> ControlResultView {
        ControlResultView {
            data: self.data@,
            stalled: self.stalled,
            errors: bus_error_views(self.errors@),
            duration_ns: self.duration_ns,
        }
    }
}

/// The answers to the two requests that read a configuration.
#[derive(Debug)]
pub struct ConfigurationAnswers {
    /// To the request for the 9-byte header.
    pub head: Result<ControlResult>,
    /// To the request for the whole; `None` if the header could not be had.
    pub blob: Option<Result<ControlResult>>,
}

impl ConfigurationAnswers {
    /// The configuration that came back, parsed as a whole.
    pub fn configuration(&self) -> (r: Result<Configuration>)
        ensures
            error::result_view(r) == model::configuration_of(*self),
    {
        if let Err(e) = &self.head {
            return Err(e.copied());
        }
        match &self.blob {
            Some(Err(e)) => Err(e.copied()),
            Some(Ok(blob)) => match Configuration::parse(blob.data.as_slice()) {
                Some(c) => Ok(c),
                None => Err(Error::Protocol("configuration descriptor too short".to_owned())),
            },
            None => Err(Error::Protocol("configuration descriptor too short".to_owned())),
        }
    }
}

/// State of the target port.
#[derive(Debug, Clone, Copy, PartialEq, Eq, Structural)]
pub struct PortStatus {
    /// A device is attached (line state / pull-up detected).
    pub connected: bool,
    /// Detected speed, if known.
    pub speed: Option<Speed>,
    /// Measured VBUS (mV), if available.
    pub vbus_mv: Option<u32>,
    /// A bus reset is currently being driven.
    pub reset_in_progress: bool,
}

/// One entry in the host's timestamped wire log.
#[derive(Debug, Clone)]
pub struct WireEvent {
    /// Capture timestamp in nanoseconds (same 60 MHz timebase as capture).
    pub timestamp_ns: u64,
    pub kind: WireEventKind,
}

/// Kind of a [`WireEvent`].
#[derive(Debug, Clone, PartialEq, Eq)]
pub enum WireEventKind {
    /// A packet seen on the bus (raw bytes include the PID byte).
    Packet { pid: Pid, data: Vec<u8> },
    /// A handshake packet.
    Handshake(Handshake),
    /// Start-of-frame with its frame number.
    Sof(u16),
    /// Host drove a bus reset.
    BusReset,
    /// Device connected (with detected speed if known).
    Connect(Option<Speed>),
    /// Device disconnected.
    Disconnect,
    /// A bus anomaly.
    Error(BusError),
    Suspend,
    Resume,
}

/// What a [`WireEventKind`] says.
pub enum WireEventKindView {
    Packet { pid: Pid, data: Seq<u8> },
    Handshake(Handshake),
    Sof(u16),
    BusReset,
    Connect(Option<Speed>),
    Disconnect,
    Error(BusErrorView),
    Suspend,
    Resume,
}

/// What a [`WireEvent`] holds.
pub struct WireEventView {
    pub timestamp_ns: u64,
    pub kind: WireEventKindView,
}

impl View for WireEventKind {
    type V = WireEventKindView;

    open spec fn view(&self) -> WireEventKindView {
        match *self {
            WireEventKind::Packet { pid, data } => WireEventKindView::Packet { pid, data: data@ },
            WireEventKind::Handshake(h) => WireEventKindView::Handshake(h),
            WireEventKind::Sof(n) => WireEventKindView::Sof(n),
            WireEventKind::BusReset => WireEventKindView::BusReset,
            WireEventKind::Connect(s) => WireEventKindView::Connect(s),
            WireEventKind::Disconnect => WireEventKindView::Disconnect,
            WireEventKind::Error(e) => WireEventKindView::Error(e@),
            WireEventKind::Suspend => WireEventKindView::Suspend,
            WireEventKind::Resume => WireEventKindView::Resume,
        }
    }
}

impl View for WireEvent {
    type V = WireEventView;

    open spec fn view(&self) -> WireEventView {
        WireEventView { timestamp_ns: self.timestamp_ns, kind: self.kind@ }
    }
}

/// What a wire log holds.
pub open spec fn event_views(s: Seq<WireEvent>) -> Seq<WireEventView> {
    Seq::new(s.len(), |i: int| s[i]@)
}

/// Parsed standard USB **device descriptor** (18 bytes).
#[derive(Debug, Clone, Copy, PartialEq, Eq, Structural)]
pub struct DeviceDescriptor {
    pub usb_version: u16,
    pub class: u8,
    pub subclass: u8,
    pub protocol: u8,
    pub max_packet_size0: u8,
    pub vendor_id: u16,
    pub product_id: u16,
    pub device_version: u16,
    pub manufacturer_index: u8,
    pub product_index: u8,
    pub serial_index: u8,
    pub num_configurations: u8,
}

/// Byte `i` of `b`, or 0 past its end.
pub open spec fn byte_or_zero(b: Seq<u8>, i: int) -> u8 {
    if 0 <= i < b.len() {
        b[i]
    } else {
        0
    }
}

impl DeviceDescriptor {
    /// The fields found at their places in `b`; bytes that are not there read as 0.
    pub open spec fn fields(b: Seq<u8>) -> DeviceDescriptor {
        DeviceDescriptor {
            usb_version: bytes::u16_le(byte_or_zero(b, 2), byte_or_zero(b, 3)),
            class: byte_or_zero(b, 4),
            subclass: byte_or_zero(b, 5),
            protocol: byte_or_zero(b, 6),
            max_packet_size0: byte_or_zero(b, 7),
            vendor_id: bytes::u16_le(byte_or_zero(b, 8), byte_or_zero(b, 9)),
            product_id: bytes::u16_le(byte_or_zero(b, 10), byte_or_zero(b, 11)),
            device_version: bytes::u16_le(byte_or_zero(b, 12), byte_or_zero(b, 13)),
            manufacturer_index: byte_or_zero(b, 14),
            product_index: byte_or_zero(b, 15),
            serial_index: byte_or_zero(b, 16),
            num_configurations: byte_or_zero(b, 17),
        }
    }

    /// What keeps `b` from being a device descriptor, in words; `None` when it is one.
    pub open spec fn defect(b: Seq<u8>) -> Option<Seq<char>> {
        if b.len() < 18 {
            Some("device descriptor too short: "@ + text::decimal(b.len()) + " bytes"@)
        } else if b[1] != descriptor_type::DEVICE {
            Some(
                "not a device descriptor (bDescriptorType = 0x"@ + text::hex_fixed(b[1] as nat, 2)
                    + ")"@,
            )
        } else {
            None
        }
    }

    /// Parse the 18-byte device descriptor.
    pub fn parse(b: &[u8]) -> (r: Result<DeviceDescriptor>)
        ensures
            match Self::defect(b@) {
                None => r == Ok::<DeviceDescriptor, Error>(Self::fields(b@)),
                Some(why) => error::is_protocol_error(r, why),
            },
    {
        if b.len() < 18 {
            let mut m = "device descriptor too short: ".to_owned();
            text::push_decimal(&mut m, b.len() as u64);
            m.append(" bytes");
            return Err(Error::Protocol(m));
        }
        if b[1] != descriptor_type::DEVICE {
            let mut m = "not a device descriptor (bDescriptorType = 0x".to_owned();
            text::push_hex(&mut m, b[1] as u64, 2);
            m.append(")");
            return Err(Error::Protocol(m));
        }
        Ok(Self::from_prefix(b))
    }

    /// Read the fields that `b` reaches; the ones past its end are 0.
    pub fn from_prefix(b: &[u8]) -> (d: DeviceDescriptor)
        ensures
            d == Self::fields(b@),
    {
        DeviceDescriptor {
            usb_version: bytes::read_u16_le(get_or_zero(b, 2), get_or_zero(b, 3)),
            class: get_or_zero(b, 4),
            subclass: get_or_zero(b, 5),
            protocol: get_or_zero(b, 6),
            max_packet_size0: get_or_zero(b, 7),
            vendor_id: bytes::read_u16_le(get_or_zero(b, 8), get_or_zero(b, 9)),
            product_id: bytes::read_u16_le(get_or_zero(b, 10), get_or_zero(b, 11)),
            device_version: bytes::read_u16_le(get_or_zero(b, 12), get_or_zero(b, 13)),
            manufacturer_index: get_or_zero(b, 14),
            product_index: get_or_zero(b, 15),
            serial_index: get_or_zero(b, 16),
            num_configurations: get_or_zero(b, 17),
        }
    }
}

/// A device descriptor laid out as the standard says, 18 bytes with the 16-bit fields
/// least weight first, is read back field by field, whatever follows it; only one that
/// is too short or has another type is refused.
pub proof fn device_descriptor_layout(d: DeviceDescriptor, desc_type: u8, tail: Seq<u8>)
    ensures
        ({
            let b = seq![
                18u8,
                desc_type,
                (d.usb_version % 256) as u8,
                (d.usb_version / 256) as u8,
                d.class,
                d.subclass,
                d.protocol,
                d.max_packet_size0,
                (d.vendor_id % 256) as u8,
                (d.vendor_id / 256) as u8,
                (d.product_id % 256) as u8,
                (d.product_id / 256) as u8,
                (d.device_version % 256) as u8,
                (d.device_version / 256) as u8,
                d.manufacturer_index,
                d.product_index,
                d.serial_index,
                d.num_configurations,
            ] + tail;
            &&& DeviceDescriptor::fields(b) == d
            &&& DeviceDescriptor::defect(b) is None <==> desc_type == 1
        }),
{
}

/// A descriptor that breaks off is read as if zeros followed, and is refused below 18
/// bytes.
pub proof fn short_device_descriptor(b: Seq<u8>, missing: nat)
    ensures
        DeviceDescriptor::fields(b + Seq::new(missing, |i: int| 0u8)) == DeviceDescriptor::fields(
            b,
        ),
        b.len() < 18 ==> DeviceDescriptor::defect(b) is Some,
{
    let padded = b + Seq::new(missing, |i: int| 0u8);
    assert forall|i: int| byte_or_zero(padded, i) == #[trigger] byte_or_zero(b, i) by {
    }
    assert(DeviceDescriptor::fields(padded) == DeviceDescriptor::fields(b)) by {
        assert(byte_or_zero(padded, 2) == byte_or_zero(b, 2));
        assert(byte_or_zero(padded, 3) == byte_or_zero(b, 3));
        assert(byte_or_zero(padded, 4) == byte_or_zero(b, 4));
        assert(byte_or_zero(padded, 5) == byte_or_zero(b, 5));
        assert(byte_or_zero(padded, 6) == byte_or_zero(b, 6));
        assert(byte_or_zero(padded, 7) == byte_or_zero(b, 7));
        assert(byte_or_zero(padded, 8) == byte_or_zero(b, 8));
        assert(byte_or_zero(padded, 9) == byte_or_zero(b, 9));
        assert(byte_or_zero(padded, 10) == byte_or_zero(b, 10));
        assert(byte_or_zero(padded, 11) == byte_or_zero(b, 11));
        assert(byte_or_zero(padded, 12) == byte_or_zero(b, 12));
        assert(byte_or_zero(padded, 13) == byte_or_zero(b, 13));
        assert(byte_or_zero(padded, 14) == byte_or_zero(b, 14));
        assert(byte_or_zero(padded, 15) == byte_or_zero(b, 15));
        assert(byte_or_zero(padded, 16) == byte_or_zero(b, 16));
        assert(byte_or_zero(padded, 17) == byte_or_zero(b, 17));
    }
}

/// Byte `i` of `b`, or 0 past its end.
fn get_or_zero(b: &[u8], i: usize) -> (v: u8)
    ensures
        v == byte_or_zero(b@, i as int),
{
    if i < b.len() {
        b[i]
    } else {
        0
    }
}

/// Result of a successful enumeration.
#[derive(Debug, Clone)]
pub struct EnumeratedDevice {
    /// Address assigned during enumeration.
    pub address: u8,
    /// Speed detected at reset.
    pub speed: Option<Speed>,
    /// Parsed device descriptor.
    pub device_descriptor: DeviceDescriptor,
    /// Raw device descriptor bytes.
    pub raw_device_descriptor: Vec<u8>,
}

/// What an [`EnumeratedDevice`] holds.
#[verifier::ext_equal]
pub struct EnumeratedDeviceView {
    pub address: u8,
    pub speed: Option<Speed>,
    pub device_descriptor: DeviceDescriptor,
    pub raw_device_descriptor: Seq<u8>,
}

impl View for EnumeratedDevice {
    type V = EnumeratedDeviceView;

    open spec fn view(&self) -> EnumeratedDeviceView {
        EnumeratedDeviceView {
            address: self.address,
            speed: self.speed,
            device_descriptor: self.device_descriptor,
            raw_device_descriptor: self.raw_device_descriptor@,
        }
    }
}

/// A magic device acting as a USB host that drives a downstream device.
///
/// High-level methods are convenient; [`raw_transaction`](UsbHost::raw_transaction)
/// and [`poll_events`](UsbHost::poll_events) are the forensic core.
pub trait UsbHost: HostModel {
    /// Enable or disable VBUS to the target port.
    fn set_vbus(&mut self, on: bool) -> (r: Result<()>)
        ensures
            Self::set_vbus_step(*old(self), on, *final(self), r),
    ;

    /// Read the current target-port status.
    fn port_status(&mut self) -> (r: Result<PortStatus>)
        ensures
            Self::port_status_step(*old(self), *final(self), r),
    ;

    /// Drive a USB bus reset; returns the speed detected afterwards.
    fn bus_reset(&mut self) -> (r: Result<Option<Speed>>)
        ensures
            Self::bus_reset_step(*old(self), *final(self), r),
    ;

    /// Perform a control transfer from **raw SETUP bytes** with stage-level
    /// forensic control - the low-level control primitive.
    ///
    /// `setup` is the 8 SETUP bytes exactly as they go on the wire (any value,
    /// including illegal `bmRequestType` / mismatched `wLength`). `opts` controls
    /// the data and status stages (see [`ControlForensics`]). For a compliant
    /// transfer, prefer [`control_transfer`](UsbHost::control_transfer).
    fn control_raw(
        &mut self,
        address: u8,
        setup: [u8; 8],
        data_out: &[u8],
        opts: ControlForensics,
    ) -> (r: Result<ControlResult>)
        ensures
            Self::control_step(*old(self), address, setup@, data_out@, opts, *final(self), r),
    ;

    /// Perform a full, compliant control transfer to the device at `address`.
    ///
    /// For IN transfers `data_out` is ignored and the returned [`ControlResult::data`]
    /// holds the device's response; for OUT transfers `data_out` is the payload.
    /// Defaults to [`control_raw`](UsbHost::control_raw) with compliant options.
    fn control_transfer(&mut self, address: u8, setup: Setup, data_out: &[u8]) -> (r: Result<
        ControlResult,
    >)
        ensures
            Self::control_step(
                *old(self),
                address,
                setup.wire(),
                data_out@,
                ControlForensics::compliant(),
                *final(self),
                r,
            ),
    {
        self.control_raw(address, setup.to_bytes(), data_out, ControlForensics::default())
    }

    /// Perform a bulk or interrupt transfer on `endpoint`.
    fn transfer(
        &mut self,
        address: u8,
        endpoint: u8,
        dir: Direction,
        data: &[u8],
        max_len: usize,
    ) -> (r: Result<TransactionResult>)
        ensures
            Self::transfer_step(
                *old(self),
                address,
                endpoint,
                dir,
                data@,
                max_len,
                *final(self),
                r,
            ),
    ;

    /// Issue one low-level transaction with full forensic control.
    fn raw_transaction(&mut self, tx: RawTransaction) -> (r: Result<TransactionResult>)
        ensures
            Self::transaction_step(*old(self), tx@, *final(self), r),
    ;

    /// Drain any pending wire-log events (non-blocking).
    fn poll_events(&mut self) -> (r: Result<Vec<WireEvent>>)
        ensures
            Self::poll_step(*old(self), *final(self), r),
    ;

    /// Enumerate the attached device: reset, read the descriptor head at address 0,
    /// assign an address, then read the full device descriptor.
    ///
    /// Built entirely on the methods above; override only if the device needs a
    /// non-standard sequence.
    fn enumerate(&mut self) -> (r: Result<EnumeratedDevice>)
        default_ensures
            model::enumerates::<Self>(*old(self), *final(self), error::result_view(r)),
    {
        let nothing: &[u8] = &[];
        assert(nothing@ =~= Seq::<u8>::empty());
        let ghost s0 = *self;
        let reset = self.bus_reset();
        let ghost s1 = *self;
        let ghost mut t = model::EnumerateTrace::<Self> {
            reset,
            after_reset: s1,
            head: arbitrary(),
            after_head: arbitrary(),
            set_address: arbitrary(),
            after_set_address: arbitrary(),
            full: arbitrary(),
        };
        let speed = match reset {
            Ok(speed) => speed,
            Err(e) => {
                assert(model::enumerate_run(s0, t, *self, Err(e@)));
                return Err(e);
            },
        };

        // Read the first 8 bytes at address 0 to learn bMaxPacketSize0.
        let head = self.control_transfer(
            0,
            Setup::get_descriptor(descriptor_type::DEVICE, 0, 0, 8),
            nothing,
        );
        proof {
            t = model::EnumerateTrace { head, after_head: *self, ..t };
        }
        let head = match head {
            Ok(head) => head,
            Err(e) => {
                assert(model::enumerate_run(s0, t, *self, Err(e@)));
                return Err(e);
            },
        };
        if head.stalled || head.data.len() < 8 {
            let e = Error::Protocol(
                "device did not return descriptor head at address 0".to_owned(),
            );
            assert(model::enumerate_run(s0, t, *self, Err(e@)));
            return Err(e);
        }

        // Assign address 1 (single-device bring-up).
        let address: u8 = 1;
        let set_addr = self.control_transfer(
            0,
            Setup {
                request_type: 0x00,
                request: request::SET_ADDRESS,
                value: address as u16,
                index: 0,
                length: 0,
            },
            nothing,
        );
        proof {
            t = model::EnumerateTrace { set_address: set_addr, after_set_address: *self, ..t };
        }
        let set_addr = match set_addr {
            Ok(set_addr) => set_addr,
            Err(e) => {
                assert(model::enumerate_run(s0, t, *self, Err(e@)));
                return Err(e);
            },
        };
        if set_addr.stalled {
            let e = Error::Protocol("SET_ADDRESS was STALLed".to_owned());
            assert(model::enumerate_run(s0, t, *self, Err(e@)));
            return Err(e);
        }

        // Read the full 18-byte device descriptor at the new address.
        let full = self.control_transfer(
            address,
            Setup::get_descriptor(descriptor_type::DEVICE, 0, 0, 18),
            nothing,
        );
        proof {
            t = model::EnumerateTrace { full, ..t };
        }
        let full = match full {
            Ok(full) => full,
            Err(e) => {
                assert(model::enumerate_run(s0, t, *self, Err(e@)));
                return Err(e);
            },
        };
        if full.stalled || full.data.len() < 18 {
            let e = Error::Protocol("device did not return full device descriptor".to_owned());
            assert(model::enumerate_run(s0, t, *self, Err(e@)));
            return Err(e);
        }
        let device_descriptor = match DeviceDescriptor::parse(full.data.as_slice()) {
            Ok(d) => d,
            Err(e) => {
                assert(model::enumerate_run(s0, t, *self, Err(e@)));
                return Err(e);
            },
        };
        let d = EnumeratedDevice {
            address,
            speed,
            device_descriptor,
            raw_device_descriptor: full.data,
        };
        assert(model::enumerate_run(s0, t, *self, Ok(d@)));
        Ok(d)
    }

    /// `GET_DESCRIPTOR` for an arbitrary descriptor type/index/language, asking
    /// for `len` bytes. Returns the whole outcome, so that a STALL can be told from
    /// an empty answer.
    fn request_descriptor(
        &mut self,
        address: u8,
        desc_type: u8,
        index: u8,
        lang: u16,
        len: u16,
    ) -> (r: Result<ControlResult>)
        ensures
            model::requests::<Self>(
                *old(self),
                address,
                Setup::descriptor_request(desc_type, index, lang, len),
                *final(self),
                r,
            ),
    {
        let nothing: &[u8] = &[];
        assert(nothing@ =~= Seq::<u8>::empty());
        self.control_transfer(address, Setup::get_descriptor(desc_type, index, lang, len), nothing)
    }

    /// `GET_DESCRIPTOR` for an arbitrary descriptor type/index/language, asking
    /// for `len` bytes. Returns the raw bytes the device sent (which may be
    /// shorter, or - forensically - longer if you asked for more than exists).
    fn get_descriptor(
        &mut self,
        address: u8,
        desc_type: u8,
        index: u8,
        lang: u16,
        len: u16,
    ) -> (r: Result<Vec<u8>>)
        ensures
            model::reads_descriptor::<Self>(
                *old(self),
                address,
                desc_type,
                index,
                lang,
                len,
                *final(self),
                error::result_view(r),
            ),
    {
        let c = self.request_descriptor(address, desc_type, index, lang, len);
        match c {
            Ok(c) => Ok(c.data),
            Err(e) => Err(e),
        }
    }

    /// Read and decode a string descriptor at `index` in `lang` (UTF-16LE).
    /// `index` 0 conventionally returns the LANGID list; this decodes it as text
    /// anyway (use [`StringDescriptor::parse_langids`] for langids).
    fn get_string(&mut self, address: u8, index: u8, lang: u16) -> (r: Result<String>)
        ensures
            model::reads_string::<Self>(
                *old(self),
                address,
                index,
                lang,
                *final(self),
                error::result_view(r),
            ),
    {
        let raw = self.get_descriptor(address, descriptor_type::STRING, index, lang, 255);
        match raw {
            Ok(raw) => Ok(StringDescriptor::decode(raw.as_slice())),
            Err(e) => Err(e),
        }
    }

    /// Request configuration `cfg_index` in full: the 9-byte header to learn
    /// `wTotalLength`, then the whole blob.
    fn request_configuration(&mut self, address: u8, cfg_index: u8) -> (a: ConfigurationAnswers)
        ensures
            model::requests_configuration::<Self>(
                *old(self),
                address,
                cfg_index,
                *final(self),
                a,
            ),
    {
        let ghost s0 = *self;
        let head = self.request_descriptor(
            address,
            descriptor_type::CONFIGURATION,
            cfg_index,
            0,
            9,
        );
        let ghost after_head = *self;
        let blob = match &head {
            Ok(head) => {
                let total: u16 = match ConfigurationDescriptor::parse(head.data.as_slice()) {
                    Some(c) => c.total_length,
                    None => head.data.len() as u16,
                };
                Some(
                    self.request_descriptor(
                        address,
                        descriptor_type::CONFIGURATION,
                        cfg_index,
                        0,
                        total,
                    ),
                )
            },
            Err(_) => None,
        };
        let a = ConfigurationAnswers { head, blob };
        assert(model::configuration_run(s0, address, cfg_index, after_head, a, *self));
        a
    }

    /// Read configuration `cfg_index` in full (9-byte header to learn
    /// `wTotalLength`, then the whole blob) and parse it into a [`Configuration`].
    fn read_configuration(&mut self, address: u8, cfg_index: u8) -> (r: Result<Configuration>)
        ensures
            model::reads_configuration::<Self>(
                *old(self),
                address,
                cfg_index,
                *final(self),
                error::result_view(r),
            ),
    {
        let a = self.request_configuration(address, cfg_index);
        a.configuration()
    }

    /// **Analyze** the device at `address`: read the device descriptor, every
    /// configuration, and the referenced string descriptors into a
    /// [`UsbDeviceModel`]. Lenient - oddities are collected in
    /// [`UsbDeviceModel::anomalies`] instead of aborting; the fields of a short
    /// device descriptor that did not come through are 0.
    fn examine(&mut self, address: u8) -> (r: Result<UsbDeviceModel>)
        ensures
            model::examines::<Self>(*old(self), address, *final(self), error::result_view(r)),
    {
        let ghost s0 = *self;
        let device = self.request_descriptor(address, descriptor_type::DEVICE, 0, 0, 18);
        let ghost mut t = model::ExamineTrace::<Self> {
            device,
            after_device: *self,
            status: arbitrary(),
            after_status: arbitrary(),
            langids: arbitrary(),
            cfgs: Seq::empty(),
            cfg_hosts: Seq::empty(),
            strs: Seq::empty(),
            str_hosts: Seq::empty(),
        };
        let device = match device {
            Ok(device) => device,
            Err(e) => {
                assert(model::examine_run(s0, address, t, *self, Err(e@)));
                return Err(e);
            },
        };
        let mut anomalies: Vec<String> = Vec::new();
        notes::note_device(&mut anomalies, &device);
        let device_descriptor = DeviceDescriptor::from_prefix(device.data.as_slice());
        let status = self.port_status();
        proof {
            t = model::ExamineTrace { status, after_status: *self, ..t };
        }
        let speed = match status {
            Ok(p) => p.speed,
            Err(_) => None,
        };

        // Pick a language for strings: first LANGID, else en-US.
        let listed = self.request_descriptor(address, descriptor_type::STRING, 0, 0, 255);
        proof {
            t = model::ExamineTrace { langids: listed, cfg_hosts: seq![*self], ..t };
        }
        notes::note_string(&mut anomalies, 0, &listed);
        let lang = choose_language(&listed);
        let mut configurations: Vec<Configuration> = Vec::new();
        let mut cfg: u8 = 0;
        let ghost noted = descriptors::text_views(anomalies@);
        proof {
            assert(noted =~= model::device_notes(device) + model::string_notes(0, listed));
            assert(descriptors::configuration_views(configurations@) =~= model::readable(t.cfgs));
            assert(noted + model::all_answer_notes(t.cfgs) =~= noted);
        }
        while cfg < device_descriptor.num_configurations
            invariant
                cfg <= device_descriptor.num_configurations,
                cfg == t.cfgs.len(),
                model::configuration_chain(address, t.cfg_hosts, t.cfgs),
                t.cfg_hosts.last() == *self,
                t.device == Ok::<ControlResult, Error>(device),
                t.langids == listed,
                t.status == status,
                t.strs.len() == 0,
                model::requests(
                    s0,
                    address,
                    Setup::descriptor_request(descriptor_type::DEVICE, 0, 0, 18),
                    t.after_device,
                    t.device,
                ),
                Self::port_status_step(t.after_device, t.after_status, t.status),
                model::requests(
                    t.after_status,
                    address,
                    Setup::descriptor_request(descriptor_type::STRING, 0, 0, 255),
                    t.cfg_hosts[0],
                    t.langids,
                ),
                descriptors::configuration_views(configurations@) == model::readable(t.cfgs),
                descriptors::text_views(anomalies@) == noted + model::all_answer_notes(t.cfgs),
            decreases device_descriptor.num_configurations - cfg,
        {
            let ghost was = t;
            let ghost had = configurations@;
            let answers = self.request_configuration(address, cfg);
            proof {
                t = model::ExamineTrace {
                    cfgs: was.cfgs.push(answers),
                    cfg_hosts: was.cfg_hosts.push(*self),
                    ..was
                };
                assert(t.cfgs.drop_last() =~= was.cfgs);
                assert forall|i: int| #![trigger t.cfgs[i]] 0 <= i < t.cfgs.len() implies
                    model::requests_configuration(
                    t.cfg_hosts[i],
                    address,
                    i as u8,
                    t.cfg_hosts[i + 1],
                    t.cfgs[i],
                ) by {
                    if i < was.cfgs.len() {
                        assert(t.cfgs[i] == was.cfgs[i]);
                    }
                }
            }
            let one = answers.configuration();
            notes::note_configuration(&mut anomalies, cfg, &answers, &one);
            assert(descriptors::text_views(anomalies@) =~= noted + model::all_answer_notes(t.cfgs));
            if let Ok(c) = one {
                configurations.push(c);
                assert(descriptors::configuration_views(configurations@)
                    =~= descriptors::configuration_views(had).push(c@));
            }
            cfg = cfg + 1;
        }

        // Collect the strings that the descriptors refer to.
        let mut strings: BTreeMap<(u8, u16), String> = BTreeMap::new();
        let mut idx: u8 = 0;
        let ghost cs = model::readable(t.cfgs);
        let ghost dd = device_descriptor;
        let ghost want = model::wanted(dd, cs, 255);
        let ghost noted = descriptors::text_views(anomalies@);
        proof {
            t = model::ExamineTrace { str_hosts: seq![*self], ..t };
            assert(descriptors::string_table(strings@) =~= model::string_entries(
                want,
                lang,
                t.strs,
            ));
            assert(noted + model::all_string_notes(want, t.strs) =~= noted);
            model::wanted_is_exact(dd, cs, 255);
        }
        let ghost t0 = t;
        while idx < 255
            invariant
                cs == descriptors::configuration_views(configurations@),
                dd == device_descriptor,
                want == model::wanted(dd, cs, 255),
                t == (model::ExamineTrace { strs: t.strs, str_hosts: t.str_hosts, ..t0 }),
                model::string_chain(address, want, lang, t.str_hosts, t.strs),
                t.strs.len() == model::wanted(dd, cs, idx as nat).len(),
                model::wanted(dd, cs, idx as nat).is_prefix_of(want),
                t.str_hosts[0] == t0.str_hosts[0],
                t.str_hosts.last() == *self,
                descriptors::string_table(strings@) == model::string_entries(want, lang, t.strs),
                descriptors::text_views(anomalies@) == noted + model::all_string_notes(
                    want,
                    t.strs,
                ),
            decreases 255 - idx,
        {
            idx = idx + 1;
            if is_referenced(&device_descriptor, &configurations, idx) {
                let ghost was = t;
                let ghost had = strings@;
                proof {
                    model::lemma_wanted_prefix(dd, cs, idx as nat, 255);
                    let upto = model::wanted(dd, cs, idx as nat);
                    assert(upto == model::wanted(dd, cs, (idx - 1) as nat).push(idx));
                    assert(want.subrange(0, upto.len() as int)[was.strs.len() as int] == idx);
                }
                let one = self.request_descriptor(address, descriptor_type::STRING, idx, lang, 255);
                proof {
                    t = model::ExamineTrace {
                        strs: was.strs.push(one),
                        str_hosts: was.str_hosts.push(*self),
                        ..was
                    };
                    assert(t.strs.drop_last() =~= was.strs);
                    assert forall|k: int| #![trigger t.strs[k]] 0 <= k < t.strs.len() implies
                        model::requests(
                        t.str_hosts[k],
                        address,
                        Setup::descriptor_request(descriptor_type::STRING, want[k], lang, 255),
                        t.str_hosts[k + 1],
                        t.strs[k],
                    ) by {
                        if k < was.strs.len() {
                            assert(t.strs[k] == was.strs[k]);
                        }
                    }
                }
                notes::note_string(&mut anomalies, idx, &one);
                assert(descriptors::text_views(anomalies@) =~= noted + model::all_string_notes(
                    want,
                    t.strs,
                ));
                if let Ok(c) = one {
                    if !c.stalled {
                        let s = StringDescriptor::decode(c.data.as_slice());
                        strings.insert((idx, lang), s);
                        assert(descriptors::string_table(strings@) =~= descriptors::string_table(
                            had,
                        ).insert((idx, lang), s@));
                    }
                }
            }
            proof {
                model::lemma_wanted_prefix(dd, cs, idx as nat, 255);
            }
        }
        let m = UsbDeviceModel {
            address,
            speed,
            device_descriptor,
            raw_device_descriptor: device.data,
            configurations,
            strings,
            anomalies,
        };
        assert(m@ =~= model::examined(address, t));
        assert(model::examine_run(s0, address, t, *self, Ok(m@)));
        Ok(m)
    }
}

/// The language to ask strings in.
fn choose_language(listed: &Result<ControlResult>) -> (lang: u16)
    ensures
        lang == model::first_language(*listed),
{
    match listed {
        Ok(c) => {
            let langids = StringDescriptor::parse_langids(c.data.as_slice());
            if langids.len() > 0 {
                langids[0]
            } else {
                0x0409
            }
        },
        Err(_) => 0x0409,
    }
}

/// Whether some descriptor refers to string `i`.
fn is_referenced(d: &DeviceDescriptor, cs: &Vec<Configuration>, i: u8) -> (r: bool)
    ensures
        r == model::refers_to(*d, descriptors::configuration_views(cs@), i),
{
    if d.manufacturer_index == i || d.product_index == i || d.serial_index == i {
        return true;
    }
    let ghost views = descriptors::configuration_views(cs@);
    let mut k: usize = 0;
    while k < cs.len()
        invariant
            k <= cs@.len(),
            views == descriptors::configuration_views(cs@),
            forall|a: int| 0 <= a < k ==> !model::configuration_refers_to(#[trigger] views[a], i),
        decreases cs@.len() - k,
    {
        let c = &cs[k];
        assert(c@ == views[k as int]);
        if c.descriptor.configuration_index == i {
            return true;
        }
        let mut j: usize = 0;
        while j < c.interfaces.len()
            invariant
                j <= c.interfaces@.len(),
                k < cs@.len(),
                c@ == views[k as int],
                views == descriptors::configuration_views(cs@),
                forall|b: int|
                    0 <= b < j ==> (#[trigger] c@.interfaces[b]).descriptor.interface_index != i,
            decreases c.interfaces@.len() - j,
        {
            assert(c@.interfaces[j as int] == c.interfaces@[j as int]@);
            if c.interfaces[j].descriptor.interface_index == i {
                assert(model::configuration_refers_to(views[k as int], i));
                return true;
            }
            j = j + 1;
        }
        k = k + 1;
    }
    false
}

} // verus!

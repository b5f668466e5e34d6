//! High-level USB **Power Delivery link**: one Cynthion Type-C port (a FUSB302B
//! behind the `pd_bridge` gateware), and the procedures run on it.
//!
//! [`PdLink`] holds the state of the conversation: the port, the active CC line,
//! the MessageID, the VBUS route, and an optional [`PdTrace`] of everything sent
//! and received. Bringing up VBUS ([`VbusBringUp`]), cycling it ([`VbusCycle`]) and
//! negotiating as a source ([`SourceNegotiation`]) are procedures that say what to
//! do with the controller next ([`LinkAction`]) and are told how it went
//! ([`LinkEvent`]); they perform no I/O themselves.

use vstd::prelude::*;
use vstd::slice::slice_to_vec;
use vstd::std_specs::convert::FromSpecImpl;
use vstd::string::*;

use crate::error::Error;
use crate::error::ErrorView;
use crate::error::Result;
use crate::flash::PdLine;
use crate::pcapng;
use crate::pcapng::IfaceDescView;
use crate::pcapng::PdDirection;
use crate::pcapng::PdSop;
use crate::pcapng::TraceFileView;
use crate::pd;
use crate::pd::trace;
use crate::pd::trace::PdTrace;
use crate::pd::trace::PdTraceView;
use crate::pd::PdMessage;
use crate::pd::PdMessageClass;
use crate::pd::PdPort;
use crate::pd::Vdm;

verus! {

/// The controller line of a port.
pub open spec fn line_of(p: PdPort) -> PdLine {
    match p {
        PdPort::TargetC => PdLine::TargetC,
        PdPort::Aux => PdLine::Aux,
    }
}

/// The port of a controller line.
pub open spec fn port_of(l: PdLine) -> PdPort {
    match l {
        PdLine::TargetC => PdPort::TargetC,
        PdLine::Aux => PdPort::Aux,
    }
}

impl From<PdPort> for PdLine {
    fn from(p: PdPort) -> (l: PdLine) {
        match p {
            PdPort::TargetC => PdLine::TargetC,
            PdPort::Aux => PdLine::Aux,
        }
    }
}

impl FromSpecImpl<PdPort> for PdLine {
    open spec fn obeys_from_spec() -> bool {
        true
    }

    open spec fn from_spec(p: PdPort) -> PdLine {
        line_of(p)
    }
}

impl From<PdLine> for PdPort {
    fn from(l: PdLine) -> (p: PdPort) {
        match l {
            PdLine::TargetC => PdPort::TargetC,
            PdLine::Aux => PdPort::Aux,
        }
    }
}

impl FromSpecImpl<PdLine> for PdPort {
    open spec fn obeys_from_spec() -> bool {
        true
    }

    open spec fn from_spec(l: PdLine) -> PdPort {
        port_of(l)
    }
}

/// A port and its controller line are the same place under two names, and each trace
/// interface is one port: 0 is TARGET-C, 1 is AUX.
pub proof fn ports_and_lines_agree(p: PdPort)
    ensures
        line_of(p) is TargetC <==> p is TargetC,
        line_of(p) is Aux <==> p is Aux,
        port_of(line_of(p)) == p,
        interface_id(line_of(p)) == 0 <==> p is TargetC,
        interface_id(line_of(p)) == 1 <==> p is Aux,
{
}

/// Where to source VBUS for a device on TARGET-C.
#[derive(Debug, Clone, Copy, PartialEq, Eq, Structural)]
pub enum VbusSource {
    /// AUX supply if one is present, else CONTROL/host 5 V.
    Auto,
    /// Only route the AUX supply.
    Aux,
    /// Only route CONTROL / host 5 V.
    Control,
    /// Don't touch VBUS.
    Untouched,
}

/// The VBUS switches of the board, each on or off.
#[derive(Debug, Clone, Copy, PartialEq, Eq, Structural)]
pub struct VbusSwitches {
    /// Releases the AUX input shutoff.
    pub aux_in: bool,
    /// Puts the AUX supply on the rail.
    pub aux: bool,
    /// Releases the CONTROL input shutoff.
    pub control_in: bool,
    /// Puts CONTROL / host 5 V on the rail.
    pub control: bool,
    /// Connects TARGET-C to the rail.
    pub target_c: bool,
    /// Discharges the TARGET-A rail.
    pub target_a_discharge: bool,
}

impl VbusSwitches {
    /// Every switch open.
    pub open spec fn all_off() -> VbusSwitches {
        VbusSwitches {
            aux_in: false,
            aux: false,
            control_in: false,
            control: false,
            target_c: false,
            target_a_discharge: false,
        }
    }

    /// AUX 5 V to TARGET-C.
    pub open spec fn aux_to_target() -> VbusSwitches {
        VbusSwitches { aux_in: true, aux: true, target_c: true, ..VbusSwitches::all_off() }
    }

    /// CONTROL / host 5 V to TARGET-C.
    pub open spec fn control_to_target() -> VbusSwitches {
        VbusSwitches { control_in: true, control: true, target_c: true, ..VbusSwitches::all_off() }
    }

    /// TARGET-C being discharged, with no supply on the rail.
    pub open spec fn discharging() -> VbusSwitches {
        VbusSwitches { target_c: true, target_a_discharge: true, ..VbusSwitches::all_off() }
    }

    /// The AUX and CONTROL supplies are never on the rail together: nothing feeds
    /// back into the host.
    pub open spec fn no_back_feed(self) -> bool {
        !((self.aux || self.aux_in) && (self.control || self.control_in))
    }

    /// Every switch open.
    pub fn none_on() -> (s: VbusSwitches)
        ensures
            s == Self::all_off(),
    {
        VbusSwitches {
            aux_in: false,
            aux: false,
            control_in: false,
            control: false,
            target_c: false,
            target_a_discharge: false,
        }
    }

    /// AUX 5 V to TARGET-C.
    pub fn aux_route() -> (s: VbusSwitches)
        ensures
            s == Self::aux_to_target(),
    {
        VbusSwitches {
            aux_in: true,
            aux: true,
            control_in: false,
            control: false,
            target_c: true,
            target_a_discharge: false,
        }
    }

    /// CONTROL / host 5 V to TARGET-C.
    pub fn control_route() -> (s: VbusSwitches)
        ensures
            s == Self::control_to_target(),
    {
        VbusSwitches {
            aux_in: false,
            aux: false,
            control_in: true,
            control: true,
            target_c: true,
            target_a_discharge: false,
        }
    }

    /// TARGET-C being discharged, with no supply on the rail.
    pub fn discharge() -> (s: VbusSwitches)
        ensures
            s == Self::discharging(),
    {
        VbusSwitches {
            aux_in: false,
            aux: false,
            control_in: false,
            control: false,
            target_c: true,
            target_a_discharge: true,
        }
    }
}

/// Whether a switch setting is AUX 5 V to TARGET-C and nothing else: the AUX input
/// released, AUX on the rail, TARGET-C connected to it.
pub open spec fn feeds_from_aux(s: VbusSwitches) -> bool {
    s.aux_in && s.aux && s.target_c && !s.control_in && !s.control && !s.target_a_discharge
}

/// Whether a switch setting is CONTROL / host 5 V to TARGET-C and nothing else.
pub open spec fn feeds_from_control(s: VbusSwitches) -> bool {
    s.control_in && s.control && s.target_c && !s.aux_in && !s.aux && !s.target_a_discharge
}

/// Whether a switch setting takes every supply off the rail and discharges TARGET-C.
pub open spec fn drains(s: VbusSwitches) -> bool {
    s.target_c && s.target_a_discharge && !s.aux_in && !s.aux && !s.control_in && !s.control
}

/// Whether a switch setting has every switch open.
pub open spec fn is_open(s: VbusSwitches) -> bool {
    !s.aux_in && !s.aux && !s.control_in && !s.control && !s.target_c && !s.target_a_discharge
}

/// The named switch settings are what they are called, switch by switch, and each is the
/// only such setting.
pub proof fn settings_are_what_they_are_called(s: VbusSwitches)
    ensures
        is_open(s) <==> s == VbusSwitches::all_off(),
        feeds_from_aux(s) <==> s == VbusSwitches::aux_to_target(),
        feeds_from_control(s) <==> s == VbusSwitches::control_to_target(),
        drains(s) <==> s == VbusSwitches::discharging(),
{
}

/// pcapng interface id of a port.
pub open spec fn interface_id(port: PdLine) -> u32 {
    match port {
        PdLine::TargetC => 0,
        PdLine::Aux => 1,
    }
}

/// pcapng interface id for a port (interface 0 = TARGET-C, 1 = AUX).
pub fn iface_id(port: PdLine) -> (id: u32)
    ensures
        id == interface_id(port),
{
    match port {
        PdLine::TargetC => 0,
        PdLine::Aux => 1,
    }
}

/// The header of a message originated as a source/DFP, Spec Rev 3.0: the fixed
/// role and revision bits, the type in bits 0-4, the MessageID in bits 9-11, the
/// object count in bits 12-14.
pub open spec fn source_header_of(msg_type: u16, ndo: u16, msg_id: u16) -> u16 {
    (0x01A0 + msg_type % 32 + 512 * (msg_id % 8) + 4096 * (ndo % 8)) as u16
}

/// 16-bit PD message header for a message we originate as a source/DFP, Spec
/// Rev 3.0 (power-role=source bit8, data-role=DFP bit5, SpecRev=10 bits6-7).
pub fn source_header(msg_type: u16, ndo: u16, msg_id: u16) -> (h: u16)
    ensures
        h == source_header_of(msg_type, ndo, msg_id),
{
    0x01A0 + msg_type % 32 + 512 * (msg_id % 8) + 4096 * (ndo % 8)
}

/// Every field of a source header can be read back from it: type, MessageID and
/// object count (each as much as fits its bits), source power role (bit 8), DFP
/// data role (bit 5), revision 3.0 (bits 6-7 = 2); it is never an extended message.
pub proof fn source_header_fields(msg_type: u16, ndo: u16, msg_id: u16)
    ensures
        ({
            let h = source_header_of(msg_type, ndo, msg_id);
            &&& h % 32 == msg_type % 32
            &&& (h / 32) % 2 == 1
            &&& (h / 64) % 4 == 2
            &&& (h / 256) % 2 == 1
            &&& (h / 512) % 8 == msg_id % 8
            &&& (h / 4096) % 8 == ndo % 8
            &&& h / 32768 == 0
        }),
{
    lemma_header_word((msg_type % 32) as int, (msg_id % 8) as int, (ndo % 8) as int);
}

/// The fields packed into a source header do not overlap.
proof fn lemma_header_word(t: int, m: int, n: int)
    requires
        0 <= t < 32,
        0 <= m < 8,
        0 <= n < 8,
    ensures
        ({
            let h = 0x01A0 + t + 512 * m + 4096 * n;
            &&& 0 <= h < 32768
            &&& h % 32 == t
            &&& (h / 32) % 2 == 1
            &&& (h / 64) % 4 == 2
            &&& (h / 256) % 2 == 1
            &&& (h / 512) % 8 == m
            &&& (h / 4096) % 8 == n
        }),
{
    let h = 0x01A0 + t + 512 * m + 4096 * n;
    assert(h == 32 * (13 + 16 * m + 128 * n) + t);
    assert(h / 32 == 13 + 16 * m + 128 * n);
    assert(h / 64 == 6 + 8 * m + 64 * n);
    assert(h / 256 == 1 + 2 * m + 16 * n);
    assert(h / 512 == m + 8 * n);
    assert(h / 4096 == n);
}

/// A USB Power Delivery link on one Cynthion Type-C port.
pub struct PdLink {
    port: PdLine,
    cc: u8,
    msg_id: u16,
    vbus_route: VbusSwitches,
    trace: Option<PdTrace>,
}

/// What a [`PdLink`] holds.
#[verifier::ext_equal]
pub struct PdLinkView {
    pub port: PdLine,
    /// The active CC line (1 or 2), or 0 before one is known.
    pub cc: u8,
    /// The MessageID of the next message originated here.
    pub msg_id: u16,
    /// The VBUS route last brought up; every switch off before that.
    pub vbus_route: VbusSwitches,
    pub trace: Option<PdTraceView>,
}

impl View for PdLink {
    type V = PdLinkView;

    closed spec fn view(&self) -> PdLinkView {
        PdLinkView {
            port: self.port,
            cc: self.cc,
            msg_id: self.msg_id,
            vbus_route: self.vbus_route,
            trace: match self.trace {
                Some(t) => Some(t@),
                None => None,
            },
        }
    }
}

impl PdLinkView {
    /// The link after one more MessageID has been used.
    pub open spec fn advanced(self) -> PdLinkView {
        PdLinkView { msg_id: ((self.msg_id + 1) % 65536) as u16, ..self }
    }

    /// Whether one more message can be recorded.
    pub open spec fn has_room(self, elapsed_us: u64) -> bool {
        self.trace matches Some(t) ==> t.has_room(elapsed_us)
    }

    /// The link with one more message in its trace `t`.
    pub open spec fn recorded(
        self,
        t: PdTraceView,
        dir: PdDirection,
        message: Seq<u8>,
        elapsed_us: u64,
    ) -> PdLinkView {
        PdLinkView {
            trace: Some(
                t.recorded(
                    interface_id(self.port),
                    dir,
                    PdSop::Sop,
                    self.cc,
                    None,
                    message,
                    elapsed_us,
                ),
            ),
            ..self
        }
    }
}

/// A message that a link records is found again in the trace file: on the interface of
/// the link's port, at its time, as an SOP message in its direction on the link's CC
/// line, without a CRC, byte for byte; and one more message is counted.
pub proof fn recorded_message_is_found(
    l: PdLinkView,
    ifaces: Seq<IfaceDescView>,
    t: PdTraceView,
    dir: PdDirection,
    message: Seq<u8>,
    elapsed_us: u64,
)
    requires
        t.out == Some(pcapng::file_header(ifaces)),
        forall|i: int| 0 <= i < ifaces.len() ==> pcapng::describable(#[trigger] ifaces[i]),
        message.len() + 72 < 0x1_0000_0000,
        t.has_room(elapsed_us),
    ensures
        ({
            let l1 = l.recorded(t, dir, message, elapsed_us);
            &&& l1.trace matches Some(t1) && t1.count == t.count + 1 && {
                let file = TraceFileView::parsed(t1.out->0);
                &&& t1.out is Some
                &&& file matches Ok(f) && f.packets.len() == 1 && {
                    let p = f.packets[0];
                    &&& p.iface_id == 0 <==> l.port is TargetC
                    &&& p.iface_id == 1 <==> l.port is Aux
                    &&& p.ts == t.base_unix_us + elapsed_us
                    &&& p.data.skip(8) == message
                    &&& pcapng::pseudo_header_of(p.data) matches Some(h) && h.sop is Sop
                        && h.direction == dir && h.crc is None && (h.cc == 2 <==> l.cc == 2)
                }
            }
            &&& l1 == (PdLinkView { trace: l1.trace, ..l })
        }),
{
    let m = trace::RecordedMessage {
        iface_id: interface_id(l.port),
        dir,
        sop: PdSop::Sop,
        cc: l.cc,
        crc: None,
        message,
        elapsed_us,
    };
    trace::recorded_messages_read_back(ifaces, t, seq![m]);
    assert(seq![m].drop_last() =~= Seq::empty());
    assert(seq![m].last() == m);
    assert(t.recorded_all(seq![m].drop_last()) == t);
    assert(t.packets(seq![m])[0].data.skip(8) == seq![m][0].message);
}

/// The message that carries a structured Vendor-Defined Message, and the link after
/// building it.
pub open spec fn vdm_sent(vdm: Vdm, header: Option<u16>, l: PdLinkView) -> (Seq<u8>, PdLinkView) {
    let objects = seq![vdm.header_word()] + vdm.objects@;
    match header {
        Some(h) => (pd::message_bytes(h, objects), l),
        None => (
            pd::message_bytes(
                source_header_of(15, (objects.len() % 65536) as u16, l.msg_id),
                objects,
            ),
            l.advanced(),
        ),
    }
}

/// A Vendor-Defined Message carries its header word and then its objects. A header that
/// is given goes out as it is, and the link stays as it is; without one, the message is
/// a Vendor_Defined message (type 15) with the next MessageID, which is used up.
pub proof fn vdm_carries_its_objects(vdm: Vdm, header: Option<u16>, l: PdLinkView)
    ensures
        ({
            let (m, l1) = vdm_sent(vdm, header, l);
            let objects = seq![vdm.header_word()] + vdm.objects@;
            &&& pd::objects_of(m) == objects
            &&& match header {
                Some(h) => pd::header_of(m) == Some(h) && l1 == l,
                None => is_from_source(m, 15, l.msg_id, objects) && l1.msg_id == (l.msg_id + 1)
                    % 65536,
            }
            &&& l1 == (PdLinkView { msg_id: l1.msg_id, ..l })
        }),
{
    let objects = seq![vdm.header_word()] + vdm.objects@;
    match header {
        Some(h) => {
            pd::message_round_trip(h, objects);
        },
        None => {
            lemma_from_source(15, l.msg_id, objects);
            pd::message_round_trip(
                source_header_of(15, (objects.len() % 65536) as u16, l.msg_id),
                objects,
            );
        },
    }
}

/// MessageIDs count up: the header of the next message carries the next of the eight
/// IDs, and using one changes nothing else of the link.
pub proof fn message_ids_count_up(l: PdLinkView, msg_type: u16, ndo: u16)
    ensures
        ({
            let now = source_header_of(msg_type, ndo, l.msg_id);
            let then = source_header_of(msg_type, ndo, l.advanced().msg_id);
            (then / 512) % 8 == ((now / 512) % 8 + 1) % 8
        }),
        l.advanced().port == l.port,
        l.advanced().cc == l.cc,
        l.advanced().vbus_route == l.vbus_route,
        l.advanced().trace == l.trace,
{
    source_header_fields(msg_type, ndo, l.msg_id);
    source_header_fields(msg_type, ndo, l.advanced().msg_id);
}

impl PdLinkView {
    /// A link on `port` that has done nothing yet.
    pub open spec fn fresh(port: PdPort) -> PdLinkView {
        PdLinkView {
            port: line_of(port),
            cc: 0,
            msg_id: 0,
            vbus_route: VbusSwitches::all_off(),
            trace: None,
        }
    }
}

/// A new link is on the port asked for, knows no CC line, has brought no VBUS up and records
/// nothing; its first message has MessageID 0, its second 1.
pub proof fn new_link_has_done_nothing(port: PdPort, msg_type: u16, ndo: u16)
    ensures
        ({
            let l = PdLinkView::fresh(port);
            let h = source_header_of(msg_type, ndo, l.msg_id);
            let h1 = source_header_of(msg_type, ndo, l.advanced().msg_id);
            &&& port_of(l.port) == port
            &&& l.cc == 0
            &&& is_open(l.vbus_route)
            &&& l.trace is None
            &&& (h / 512) % 8 == 0
            &&& (h1 / 512) % 8 == 1
        }),
{
    let l = PdLinkView::fresh(port);
    source_header_fields(msg_type, ndo, l.msg_id);
    source_header_fields(msg_type, ndo, l.advanced().msg_id);
}

impl PdLink {
    /// A PD link on `port`, whose board must be running the `pd_bridge` gateware.
    pub fn new(port: PdPort) -> (l: PdLink)
        ensures
            l@ == PdLinkView::fresh(port),
    {
        PdLink {
            port: PdLine::from(port),
            cc: 0,
            msg_id: 0,
            vbus_route: VbusSwitches::none_on(),
            trace: None,
        }
    }

    /// Attach a trace recorder; every message sent or received is recorded to it
    /// (console, and pcapng if the trace has a writer).
    pub fn set_trace(&mut self, trace: PdTrace)
        ensures
            final(self)@ == (PdLinkView { trace: Some(trace@), ..old(self)@ }),
    {
        self.trace = Some(trace);
    }

    /// The port this link drives.
    pub fn port(&self) -> (p: PdPort)
        ensures
            p == port_of(self@.port),
    {
        PdPort::from(self.port)
    }

    /// The active CC line (1 or 2), or 0 before `setup_source`/`setup_sink`.
    pub fn cc(&self) -> (cc: u8)
        ensures
            cc == self@.cc,
    {
        self.cc
    }

    /// Mutable access to the attached trace, if any.
    pub fn trace_mut(&mut self) -> (r: Option<&mut PdTrace>)
        ensures
            match r {
                Some(t) => old(self)@.trace == Some((*t)@) && final(self)@ == (PdLinkView {
                    trace: Some((*final(t))@),
                    ..old(self)@
                }),
                None => old(self)@.trace is None && final(self)@ == old(self)@,
            },
    {
        self.trace.as_mut()
    }

    /// Recover the trace, consuming the link.
    pub fn into_parts(self) -> (t: Option<PdTrace>)
        ensures
            match t {
                Some(t) => self@.trace == Some(t@),
                None => self@.trace is None,
            },
    {
        self.trace
    }

    /// Note the CC line found when presenting as a PD source (Rp): 1 or 2, or 0 if
    /// no sink was detected. Returns it.
    pub fn setup_source(&mut self, cc: u8) -> (r: u8)
        ensures
            r == cc,
            final(self)@ == (PdLinkView { cc, ..old(self)@ }),
    {
        self.cc = cc;
        cc
    }

    /// Note the CC line found when presenting as a PD sink (Rd): 1 or 2, or 0 if
    /// nothing is attached. Returns it.
    pub fn setup_sink(&mut self, cc: u8) -> (r: u8)
        ensures
            r == cc,
            final(self)@ == (PdLinkView { cc, ..old(self)@ }),
    {
        self.cc = cc;
        cc
    }

    /// Build a source/DFP Rev 3.0 header for the next message, advancing the
    /// MessageID. Useful when assembling custom messages with [`PdMessage`].
    pub fn next_source_header(&mut self, msg_type: u16, ndo: u16) -> (h: u16)
        ensures
            h == source_header_of(msg_type, ndo, old(self)@.msg_id),
            final(self)@ == old(self)@.advanced(),
    {
        let h: u16 = source_header(msg_type, ndo, self.msg_id);
        self.msg_id = self.msg_id.wrapping_add(1);
        h
    }

    /// The message that carries a structured Vendor-Defined Message. `header`
    /// overrides the 16-bit PD message header (for forensic / non-compliant
    /// cases); when `None`, a source/DFP Rev 3.0 Vendor_Defined header is built and
    /// the MessageID advanced.
    pub fn send_vdm(&mut self, vdm: &Vdm, header: Option<u16>) -> (m: PdMessage)
        ensures
            (m@, final(self)@) == vdm_sent(*vdm, header, old(self)@),
    {
        let mut objects: Vec<u32> = Vec::new();
        objects.push(vdm.vdm_header());
        objects.extend_from_slice(vdm.objects.as_slice());
        assert(objects@ =~= seq![vdm.header_word()] + vdm.objects@);
        let h: u16 = match header {
            Some(h) => h,
            None => self.next_source_header(15, (objects.len() % 65536) as u16),
        };
        PdMessage::from_objects(h, objects.as_slice())
    }

    /// Whether one more message can be recorded, as [`record`](PdLink::record) needs.
    pub fn has_room(&self, elapsed_us: u64) -> (r: bool)
        ensures
            r == self@.has_room(elapsed_us),
    {
        match &self.trace {
            Some(t) => t.has_room(elapsed_us),
            None => true,
        }
    }

    /// Record a message sent or received, `elapsed_us` microseconds into the trace.
    /// Returns its console line, or `None` without a trace.
    pub fn record(&mut self, dir: PdDirection, msg: &PdMessage, elapsed_us: u64, ts: &str) -> (line:
        Option<String>)
        requires
            old(self)@.has_room(elapsed_us),
        ensures
            match old(self)@.trace {
                Some(t) => {
                    &&& line matches Some(l) && l@ == trace::message_text(
                        (t.count + 1) as nat,
                        ts@,
                        dir,
                        msg@,
                    )
                    &&& final(self)@ == old(self)@.recorded(t, dir, msg@, elapsed_us)
                },
                None => line is None && final(self)@ == old(self)@,
            },
    {
        let id: u32 = iface_id(self.port);
        let cc: u8 = self.cc;
        let mut held: Option<PdTrace> = None;
        std::mem::swap(&mut held, &mut self.trace);
        match held {
            Some(mut t) => {
                let line = t.record(id, dir, PdSop::Sop, cc, None, msg, elapsed_us, ts);
                self.trace = Some(t);
                Some(line)
            },
            None => None,
        }
    }

    /// Start bringing up 5 V VBUS on TARGET-C: prefer an AUX supply, fall back to
    /// CONTROL/host 5 V. Only valid on TARGET-C.
    pub fn bring_up_vbus(&self, mode: VbusSource) -> (r: Result<VbusBringUp>)
        ensures
            if self@.port == PdLine::TargetC {
                r matches Ok(b) && b@ == (VbusBringUpView { mode, stage: VbusStage::Begin })
            } else {
                r matches Err(e) && e@ == ErrorView::Unsupported(
                    "VBUS bring-up is only for TARGET-C"@,
                )
            },
    {
        match self.port {
            PdLine::TargetC => Ok(VbusBringUp { mode, stage: VbusStage::Begin }),
            PdLine::Aux => Err(Error::Unsupported("VBUS bring-up is only for TARGET-C")),
        }
    }

    /// Remember the route that was brought up, for cycling VBUS later.
    pub fn set_vbus_route(&mut self, route: VbusSwitches)
        ensures
            final(self)@ == (PdLinkView { vbus_route: route, ..old(self)@ }),
    {
        self.vbus_route = route;
    }

    /// Start dropping and discharging TARGET-C VBUS and re-applying the last
    /// brought-up route, forcing a fresh Type-C attach (so a sink re-opens its
    /// Source_Capabilities window).
    pub fn cycle_vbus(&self) -> (c: VbusCycle)
        ensures
            c@ == (VbusCycleView { route: self@.vbus_route, done: 0 }),
    {
        VbusCycle { route: self.vbus_route, done: 0 }
    }

    /// Start a source-initiated PD negotiation, advertising `pdos` (e.g.
    /// `(100 << 10) | 150` for a 5 V @ 1.5 A fixed PDO).
    pub fn negotiate_source(&self, pdos: &[u32]) -> (n: SourceNegotiation)
        ensures
            n@ == NegotiationView::started(pdos@),
    {
        let n = SourceNegotiation {
            pdos: slice_to_vec(pdos),
            attempt: 0,
            stage: NegotiationStage::Begin,
            request: None,
        };
        n
    }
}

/// Something to do with the port's controller or the board.
#[derive(Debug)]
pub enum LinkAction {
    /// Set the VBUS switches.
    SetSwitches(VbusSwitches),
    /// Present as a sink on this line, and report the CC line found.
    SetupSink(PdLine),
    /// Read the STATUS0 register of this line's controller, and report its value.
    ReadStatus(PdLine),
    /// Wait this many milliseconds.
    Sleep(u64),
    /// Load a message into the TX FIFO without transmitting it.
    Stage(PdMessage),
    /// Transmit the staged message, which is this one, and record it.
    Fire(PdMessage),
    /// Read (and so clear) the result of the last transmission.
    TxResult,
    /// Open a window of this many milliseconds, and report whether it is open.
    OpenWindow(u64),
    /// Report whether the window is still open.
    CheckWindow,
    /// Read one message from the RX FIFO, record it, and report it.
    Poll,
    /// Transmit a message and record it.
    Send(PdMessage),
}

/// What a [`LinkAction`] holds.
pub enum LinkActionView {
    SetSwitches(VbusSwitches),
    SetupSink(PdLine),
    ReadStatus(PdLine),
    Sleep(u64),
    Stage(Seq<u8>),
    Fire(Seq<u8>),
    TxResult,
    OpenWindow(u64),
    CheckWindow,
    Poll,
    Send(Seq<u8>),
}

impl View for LinkAction {
    type V = LinkActionView;

    open spec fn view(&self) -> LinkActionView {
        match *self {
            LinkAction::SetSwitches(s) => LinkActionView::SetSwitches(s),
            LinkAction::SetupSink(l) => LinkActionView::SetupSink(l),
            LinkAction::ReadStatus(l) => LinkActionView::ReadStatus(l),
            LinkAction::Sleep(ms) => LinkActionView::Sleep(ms),
            LinkAction::Stage(m) => LinkActionView::Stage(m@),
            LinkAction::Fire(m) => LinkActionView::Fire(m@),
            LinkAction::TxResult => LinkActionView::TxResult,
            LinkAction::OpenWindow(ms) => LinkActionView::OpenWindow(ms),
            LinkAction::CheckWindow => LinkActionView::CheckWindow,
            LinkAction::Poll => LinkActionView::Poll,
            LinkAction::Send(m) => LinkActionView::Send(m@),
        }
    }
}

/// How a [`LinkAction`] went.
#[derive(Debug)]
pub enum LinkEvent {
    /// It was done.
    Done,
    /// It failed.
    Failed,
    /// The CC line found, or the register value read.
    Value(u8),
    /// A message was received.
    Message(PdMessage),
    /// No message is waiting.
    Empty,
    /// Whether the window is open.
    Window(bool),
}

/// What a [`LinkEvent`] holds.
pub enum LinkEventView {
    Done,
    Failed,
    Value(u8),
    Message(Seq<u8>),
    Empty,
    Window(bool),
}

impl View for LinkEvent {
    type V = LinkEventView;

    open spec fn view(&self) -> LinkEventView {
        match *self {
            LinkEvent::Done => LinkEventView::Done,
            LinkEvent::Failed => LinkEventView::Failed,
            LinkEvent::Value(v) => LinkEventView::Value(v),
            LinkEvent::Message(m) => LinkEventView::Message(m@),
            LinkEvent::Empty => LinkEventView::Empty,
            LinkEvent::Window(b) => LinkEventView::Window(b),
        }
    }
}

impl LinkEventView {
    /// The reported value; 0 when there is none.
    pub open spec fn value(self) -> u8 {
        match self {
            LinkEventView::Value(v) => v,
            _ => 0,
        }
    }

    /// Whether STATUS0 was reported with its VBUS bit (bit 7) set.
    pub open spec fn vbus_ok(self) -> bool {
        self.value() >= 128
    }
}

impl LinkEvent {
    fn is_failed(&self) -> (r: bool)
        ensures
            r == (self@ is Failed),
    {
        match self {
            LinkEvent::Failed => true,
            _ => false,
        }
    }

    fn value(&self) -> (v: u8)
        ensures
            v == self@.value(),
    {
        match self {
            LinkEvent::Value(v) => *v,
            _ => 0,
        }
    }
}

/// How far bringing up VBUS has come: what is being waited for.
#[derive(Debug, Clone, Copy, PartialEq, Eq, Structural)]
pub enum VbusStage {
    Begin,
    /// Every switch is being opened.
    AllOff,
    /// A sink is being presented on AUX.
    AuxSink,
    /// The AUX controller is being asked for VBUS, this many times before.
    AuxPoll(u8),
    /// Waiting between two looks at AUX.
    AuxPause(u8),
    /// The AUX supply is being routed.
    AuxRoute,
    /// CONTROL is being routed.
    ControlRoute,
    /// Waiting for CONTROL to settle.
    ControlPause,
    /// The TARGET-C controller is being asked for VBUS.
    ControlCheck,
    Over,
}

/// What to do next while bringing up VBUS.
#[derive(Debug)]
pub enum VbusStep {
    Do(LinkAction),
    /// VBUS is up from the labelled source, by this route.
    Up(&'static str, VbusSwitches),
    /// The procedure has failed.
    Fail(Error),
    /// The action before this failed: return its error.
    PassError,
}

/// What a [`VbusStep`] holds.
pub enum VbusStepView {
    Do(LinkActionView),
    Up(Seq<char>, VbusSwitches),
    Fail(ErrorView),
    PassError,
}

impl View for VbusStep {
    type V = VbusStepView;

    open spec fn view(&self) -> VbusStepView {
        match *self {
            VbusStep::Do(a) => VbusStepView::Do(a@),
            VbusStep::Up(l, s) => VbusStepView::Up(l@, s),
            VbusStep::Fail(e) => VbusStepView::Fail(e@),
            VbusStep::PassError => VbusStepView::PassError,
        }
    }
}

/// Bringing up 5 V VBUS on TARGET-C. Only ever 5 V; AUX and CONTROL are never on
/// the rail together (no back-feed into the host).
pub struct VbusBringUp {
    mode: VbusSource,
    stage: VbusStage,
}

/// What a [`VbusBringUp`] holds.
pub struct VbusBringUpView {
    pub mode: VbusSource,
    pub stage: VbusStage,
}

impl View for VbusBringUp {
    type V = VbusBringUpView;

    closed spec fn view(&self) -> VbusBringUpView {
        VbusBringUpView { mode: self.mode, stage: self.stage }
    }
}

impl VbusBringUpView {
    /// Nothing on AUX: fall back to CONTROL, unless only AUX was asked for.
    pub open spec fn without_aux(self) -> (VbusStage, VbusStepView) {
        if self.mode == VbusSource::Aux {
            (
                VbusStage::Over,
                VbusStepView::Fail(ErrorView::Protocol("no powered supply detected on AUX"@)),
            )
        } else {
            (
                VbusStage::ControlRoute,
                VbusStepView::Do(
                    LinkActionView::SetSwitches(VbusSwitches::control_to_target()),
                ),
            )
        }
    }

    /// The next stage and step, given how the action before went.
    pub open spec fn next(self, e: LinkEventView) -> (VbusStage, VbusStepView) {
        match self.stage {
            VbusStage::Begin => if self.mode == VbusSource::Untouched {
                (
                    VbusStage::Over,
                    VbusStepView::Fail(
                        ErrorView::Protocol("no VBUS source available (mode None)"@),
                    ),
                )
            } else {
                (
                    VbusStage::AllOff,
                    VbusStepView::Do(LinkActionView::SetSwitches(VbusSwitches::all_off())),
                )
            },
            VbusStage::AllOff => if e is Failed {
                (VbusStage::Over, VbusStepView::PassError)
            } else if self.mode == VbusSource::Control {
                self.without_aux()
            } else {
                (VbusStage::AuxSink, VbusStepView::Do(LinkActionView::SetupSink(PdLine::Aux)))
            },
            VbusStage::AuxSink => if e is Failed {
                (VbusStage::Over, VbusStepView::PassError)
            } else if e.value() == 0 {
                self.without_aux()
            } else {
                (VbusStage::AuxPoll(0), VbusStepView::Do(LinkActionView::ReadStatus(PdLine::Aux)))
            },
            VbusStage::AuxPoll(n) => if e is Failed {
                (VbusStage::Over, VbusStepView::PassError)
            } else if e.vbus_ok() {
                (
                    VbusStage::AuxRoute,
                    VbusStepView::Do(LinkActionView::SetSwitches(VbusSwitches::aux_to_target())),
                )
            } else {
                (VbusStage::AuxPause(n), VbusStepView::Do(LinkActionView::Sleep(100)))
            },
            VbusStage::AuxPause(n) => if n < 19 {
                (
                    VbusStage::AuxPoll((n + 1) as u8),
                    VbusStepView::Do(LinkActionView::ReadStatus(PdLine::Aux)),
                )
            } else {
                self.without_aux()
            },
            VbusStage::AuxRoute => if e is Failed {
                (VbusStage::Over, VbusStepView::PassError)
            } else {
                (
                    VbusStage::Over,
                    VbusStepView::Up("AUX 5 V"@, VbusSwitches::aux_to_target()),
                )
            },
            VbusStage::ControlRoute => if e is Failed {
                (VbusStage::Over, VbusStepView::PassError)
            } else {
                (VbusStage::ControlPause, VbusStepView::Do(LinkActionView::Sleep(150)))
            },
            VbusStage::ControlPause => (
                VbusStage::ControlCheck,
                VbusStepView::Do(LinkActionView::ReadStatus(PdLine::TargetC)),
            ),
            VbusStage::ControlCheck => (
                VbusStage::Over,
                VbusStepView::Up(
                    if e.vbus_ok() {
                        "CONTROL / host 5 V"@
                    } else {
                        "CONTROL / host 5 V (VBUS not yet confirmed)"@
                    },
                    VbusSwitches::control_to_target(),
                ),
            ),
            VbusStage::Over => (VbusStage::Over, VbusStepView::PassError),
        }
    }

    /// How many more steps the procedure can take at most.
    pub open spec fn steps_left(self) -> int {
        match self.stage {
            VbusStage::Begin => 48,
            VbusStage::AllOff => 47,
            VbusStage::AuxSink => 46,
            VbusStage::AuxPoll(n) => 45 - 2 * n,
            VbusStage::AuxPause(n) => 44 - 2 * n,
            VbusStage::ControlRoute => 4,
            VbusStage::ControlPause => 3,
            VbusStage::ControlCheck => 2,
            VbusStage::AuxRoute => 1,
            VbusStage::Over => 0,
        }
    }

    /// Reachable: at most 20 looks at AUX, and each supply only when it may be used.
    pub open spec fn wf(self) -> bool {
        &&& self.stage matches VbusStage::AuxPoll(n) ==> n < 20
        &&& self.stage matches VbusStage::AuxPause(n) ==> n < 20
        &&& self.mode == VbusSource::Control ==> !(self.stage is AuxSink || self.stage is AuxPoll
            || self.stage is AuxPause || self.stage is AuxRoute)
        &&& self.mode == VbusSource::Aux ==> !(self.stage is ControlRoute || self.stage
            is ControlPause || self.stage is ControlCheck)
        &&& self.mode == VbusSource::Untouched ==> self.stage is Begin || self.stage is Over
    }
}

impl VbusBringUp {
    fn without_aux(&mut self) -> (s: VbusStep)
        ensures
            (final(self)@.stage, s@) == old(self)@.without_aux(),
            final(self)@.mode == old(self)@.mode,
    {
        if self.mode == VbusSource::Aux {
            self.stage = VbusStage::Over;
            VbusStep::Fail(Error::Protocol("no powered supply detected on AUX".to_owned()))
        } else {
            self.stage = VbusStage::ControlRoute;
            VbusStep::Do(LinkAction::SetSwitches(VbusSwitches::control_route()))
        }
    }

    /// Decide what to do next, given how the action before went ([`LinkEvent::Done`]
    /// to begin with).
    pub fn step(&mut self, event: LinkEvent) -> (s: VbusStep)
        ensures
            (final(self)@.stage, s@) == old(self)@.next(event@),
            final(self)@.mode == old(self)@.mode,
    {
        match self.stage {
            VbusStage::Begin => {
                if self.mode == VbusSource::Untouched {
                    self.stage = VbusStage::Over;
                    return VbusStep::Fail(
                        Error::Protocol("no VBUS source available (mode None)".to_owned()),
                    );
                }
                self.stage = VbusStage::AllOff;
                VbusStep::Do(LinkAction::SetSwitches(VbusSwitches::none_on()))
            },
            VbusStage::AllOff => {
                if event.is_failed() {
                    self.stage = VbusStage::Over;
                    return VbusStep::PassError;
                }
                if self.mode == VbusSource::Control {
                    return self.without_aux();
                }
                self.stage = VbusStage::AuxSink;
                VbusStep::Do(LinkAction::SetupSink(PdLine::Aux))
            },
            VbusStage::AuxSink => {
                if event.is_failed() {
                    self.stage = VbusStage::Over;
                    return VbusStep::PassError;
                }
                if event.value() == 0 {
                    return self.without_aux();
                }
                self.stage = VbusStage::AuxPoll(0);
                VbusStep::Do(LinkAction::ReadStatus(PdLine::Aux))
            },
            VbusStage::AuxPoll(n) => {
                if event.is_failed() {
                    self.stage = VbusStage::Over;
                    return VbusStep::PassError;
                }
                if event.value() >= 128 {
                    self.stage = VbusStage::AuxRoute;
                    return VbusStep::Do(LinkAction::SetSwitches(VbusSwitches::aux_route()));
                }
                self.stage = VbusStage::AuxPause(n);
                VbusStep::Do(LinkAction::Sleep(100))
            },
            VbusStage::AuxPause(n) => {
                if n < 19 {
                    self.stage = VbusStage::AuxPoll(n + 1);
                    return VbusStep::Do(LinkAction::ReadStatus(PdLine::Aux));
                }
                self.without_aux()
            },
            VbusStage::AuxRoute => {
                self.stage = VbusStage::Over;
                if event.is_failed() {
                    return VbusStep::PassError;
                }
                VbusStep::Up("AUX 5 V", VbusSwitches::aux_route())
            },
            VbusStage::ControlRoute => {
                if event.is_failed() {
                    self.stage = VbusStage::Over;
                    return VbusStep::PassError;
                }
                self.stage = VbusStage::ControlPause;
                VbusStep::Do(LinkAction::Sleep(150))
            },
            VbusStage::ControlPause => {
                self.stage = VbusStage::ControlCheck;
                VbusStep::Do(LinkAction::ReadStatus(PdLine::TargetC))
            },
            VbusStage::ControlCheck => {
                self.stage = VbusStage::Over;
                if event.value() >= 128 {
                    VbusStep::Up("CONTROL / host 5 V", VbusSwitches::control_route())
                } else {
                    VbusStep::Up(
                        "CONTROL / host 5 V (VBUS not yet confirmed)",
                        VbusSwitches::control_route(),
                    )
                }
            },
            VbusStage::Over => VbusStep::PassError,
        }
    }
}

/// Bringing up VBUS is safe and ends, whatever the controllers answer. The first
/// thing it does, unless VBUS is not to be touched, is to open every switch; it
/// never puts AUX and CONTROL on the rail together; a supply that was not asked
/// for is never routed; and every step brings it closer to its end.
pub proof fn bring_up_is_safe(b: VbusBringUpView, e: LinkEventView)
    requires
        b.wf(),
    ensures
        ({
            let (stage, step) = b.next(e);
            let after = VbusBringUpView { mode: b.mode, stage };
            &&& after.wf()
            &&& b.stage != VbusStage::Over ==> after.steps_left() < b.steps_left()
            &&& step matches VbusStepView::Do(LinkActionView::SetSwitches(s)) ==> {
                &&& s.no_back_feed()
                &&& s.aux ==> b.mode == VbusSource::Auto || b.mode == VbusSource::Aux
                &&& s.control ==> b.mode == VbusSource::Auto || b.mode == VbusSource::Control
            }
            &&& step matches VbusStepView::Up(label, s) ==> s.no_back_feed() && s.target_c
            &&& b.stage == VbusStage::Begin ==> (step == VbusStepView::Do(
                LinkActionView::SetSwitches(VbusSwitches::all_off()),
            ) <==> b.mode != VbusSource::Untouched)
            &&& b.stage == VbusStage::Begin && b.mode == VbusSource::Untouched ==> step is Fail
        }),
{
}

/// The route reported at the end is the one that was last switched on: VBUS is
/// reported up only after its own switches were set and nothing failed.
pub proof fn bring_up_reports_its_route(b: VbusBringUpView, e: LinkEventView)
    ensures
        b.next(e).1 matches VbusStepView::Up(label, s) ==> {
            &&& b.stage == VbusStage::AuxRoute && s == VbusSwitches::aux_to_target() && !(e
                is Failed) || b.stage == VbusStage::ControlCheck && s
                == VbusSwitches::control_to_target()
        },
        forall|c: VbusBringUpView, d: LinkEventView|
            (#[trigger] c.next(d)).0 == VbusStage::AuxRoute ==> c.next(d).1 == VbusStepView::Do(
                LinkActionView::SetSwitches(VbusSwitches::aux_to_target()),
            ),
        forall|c: VbusBringUpView, d: LinkEventView|
            (#[trigger] c.next(d)).0 == VbusStage::ControlRoute ==> c.next(d).1
                == VbusStepView::Do(
                LinkActionView::SetSwitches(VbusSwitches::control_to_target()),
            ),
{
}

/// Whether a stage of bringing up VBUS waits for this action.
pub open spec fn bring_up_awaits(stage: VbusStage, a: LinkActionView) -> bool {
    match stage {
        VbusStage::AllOff => a matches LinkActionView::SetSwitches(s) && is_open(s),
        VbusStage::AuxSink => a matches LinkActionView::SetupSink(l) && l is Aux,
        VbusStage::AuxPoll(_) => a matches LinkActionView::ReadStatus(l) && l is Aux,
        VbusStage::AuxPause(_) => a matches LinkActionView::Sleep(ms) && ms == 100,
        VbusStage::AuxRoute => a matches LinkActionView::SetSwitches(s) && feeds_from_aux(s),
        VbusStage::ControlRoute => a matches LinkActionView::SetSwitches(s) && feeds_from_control(s),
        VbusStage::ControlPause => a matches LinkActionView::Sleep(ms) && ms == 150,
        VbusStage::ControlCheck => a matches LinkActionView::ReadStatus(l) && l is TargetC,
        VbusStage::Begin | VbusStage::Over => false,
    }
}

/// Bringing up VBUS asks for exactly what its stages wait for, and goes from one to the
/// next by what it is told: AUX is tried unless only CONTROL is wanted; it is routed as
/// soon as a look at it shows VBUS (bit 7 of STATUS0), and given up when no sink role
/// could be set up or 20 looks showed none; CONTROL is then routed unless only AUX is
/// wanted. A failed action ends it, but for the last look at CONTROL, which only
/// decides whether VBUS is reported as confirmed.
pub proof fn bring_up_step_by_step(b: VbusBringUpView, e: LinkEventView)
    ensures
        ({
            let (stage, step) = b.next(e);
            let gives_up = if b.mode is Aux {
                stage is Over && step is Fail
            } else {
                stage is ControlRoute
            };
            let shows_vbus = e matches LinkEventView::Value(v) && v >= 128;
            let found = e matches LinkEventView::Value(v) && v != 0;
            &&& step matches VbusStepView::Do(a) ==> bring_up_awaits(stage, a)
            &&& !(step is Do) ==> stage is Over
            &&& b.stage is Begin ==> (if b.mode is Untouched {
                step is Fail
            } else {
                stage is AllOff
            })
            &&& e is Failed && (b.stage is AllOff || b.stage is AuxSink || b.stage is AuxPoll
                || b.stage is AuxRoute || b.stage is ControlRoute) ==> step is PassError
            &&& !(e is Failed) && b.stage is AllOff ==> (if b.mode is Control {
                stage is ControlRoute
            } else {
                stage is AuxSink
            })
            &&& !(e is Failed) && b.stage is AuxSink ==> (if found {
                stage == VbusStage::AuxPoll(0)
            } else {
                gives_up
            })
            &&& !(e is Failed) ==> (b.stage matches VbusStage::AuxPoll(n) ==> (if shows_vbus {
                stage is AuxRoute
            } else {
                stage == VbusStage::AuxPause(n)
            }))
            &&& b.stage matches VbusStage::AuxPause(n) ==> (if n < 19 {
                stage == VbusStage::AuxPoll((n + 1) as u8)
            } else {
                gives_up
            })
            &&& !(e is Failed) && b.stage is AuxRoute ==> (step matches VbusStepView::Up(label, s)
                && label == "AUX 5 V"@ && feeds_from_aux(s))
            &&& !(e is Failed) && b.stage is ControlRoute ==> stage is ControlPause
            &&& b.stage is ControlPause ==> stage is ControlCheck
            &&& b.stage is ControlCheck ==> (step matches VbusStepView::Up(label, s)
                && feeds_from_control(s) && label == (if shows_vbus {
                "CONTROL / host 5 V"@
            } else {
                "CONTROL / host 5 V (VBUS not yet confirmed)"@
            }))
        }),
{
}

/// A run of bringing up VBUS: the stage before each step and after the last, and how the
/// action before each step went.
pub struct BringUpRun {
    pub mode: VbusSource,
    pub stages: Seq<VbusStage>,
    pub events: Seq<LinkEventView>,
}

impl BringUpRun {
    /// What step `k` is.
    pub open spec fn step(self, k: int) -> VbusStepView {
        (VbusBringUpView { mode: self.mode, stage: self.stages[k] }).next(self.events[k]).1
    }

    /// Whether each stage follows from the one before it.
    pub open spec fn follows(self) -> bool {
        &&& self.stages.len() == self.events.len() + 1
        &&& self.stages[0] == VbusStage::Begin
        &&& forall|k: int|
            #![trigger self.events[k]]
            0 <= k < self.events.len() ==> self.stages[k + 1] == (VbusBringUpView {
                mode: self.mode,
                stage: self.stages[k],
            }).next(self.events[k]).0
    }

    /// The switch setting that the first `n` steps asked for last, if they asked for any.
    pub open spec fn setting(self, n: int) -> Option<VbusSwitches>
        decreases n,
    {
        if n <= 0 {
            None
        } else {
            match self.step(n - 1) {
                VbusStepView::Do(LinkActionView::SetSwitches(s)) => Some(s),
                _ => self.setting(n - 1),
            }
        }
    }

    /// Whether one of the first `n` steps was told that AUX has VBUS, having asked it.
    pub open spec fn saw_aux(self, n: int) -> bool {
        exists|k: int|
            1 <= k < n && self.step(k - 1) == VbusStepView::Do(
                LinkActionView::ReadStatus(PdLine::Aux),
            ) && (#[trigger] self.events[k] matches LinkEventView::Value(v) && v >= 128)
    }
}

proof fn lemma_bring_up_run(run: BringUpRun, n: int)
    requires
        run.follows(),
        0 <= n <= run.events.len(),
    ensures
        ({
            let stage = run.stages[n];
            &&& stage is Begin ==> run.setting(n) is None
            &&& (stage is AllOff || stage is AuxSink || stage is AuxPoll || stage is AuxPause) ==> (
            run.setting(n) matches Some(s) && is_open(s))
            &&& stage is AuxRoute ==> (run.setting(n) matches Some(s) && feeds_from_aux(s))
                && run.saw_aux(n)
            &&& (stage is ControlRoute || stage is ControlPause || stage is ControlCheck) ==> (
            run.setting(n) matches Some(s) && feeds_from_control(s))
            &&& stage is AuxPoll ==> n > 0 && run.step(n - 1) == VbusStepView::Do(
                LinkActionView::ReadStatus(PdLine::Aux),
            )
        }),
    decreases n,
{
    if n > 0 {
        let k = n - 1;
        lemma_bring_up_run(run, k);
        let b = VbusBringUpView { mode: run.mode, stage: run.stages[k] };
        let e = run.events[k];
        bring_up_step_by_step(b, e);
        assert(run.stages[k + 1] == b.next(e).0);
        if run.stages[n] is AuxRoute {
            assert(run.stages[k] is AuxPoll);
            assert(run.events[k] matches LinkEventView::Value(v) && v >= 128);
        }
    }
}

/// VBUS is reported up only when it is: along any run, the route reported is the switch
/// setting asked for last, and it connects TARGET-C to exactly one supply. That is AUX
/// only if AUX was asked for its status and showed VBUS.
pub proof fn vbus_is_up_when_reported(run: BringUpRun, n: int)
    requires
        run.follows(),
        0 <= n < run.events.len(),
    ensures
        run.step(n) matches VbusStepView::Up(label, s) ==> {
            &&& run.setting(n) == Some(s)
            &&& s.target_c && !s.target_a_discharge
            &&& s.aux != s.control && s.aux == s.aux_in && s.control == s.control_in
            &&& s.aux ==> run.saw_aux(n) && !(run.mode is Control)
            &&& s.control ==> !(run.mode is Aux)
            &&& !(run.mode is Untouched)
        },
        n == 0 && !(run.mode is Untouched) ==> (run.step(n) matches VbusStepView::Do(
            LinkActionView::SetSwitches(s),
        ) && is_open(s)),
{
    lemma_bring_up_run(run, n);
    lemma_bring_up_modes(run, n);
    bring_up_step_by_step(
        VbusBringUpView { mode: run.mode, stage: run.stages[n] },
        run.events[n],
    );
}

proof fn lemma_bring_up_modes(run: BringUpRun, n: int)
    requires
        run.follows(),
        0 <= n <= run.events.len(),
    ensures
        (VbusBringUpView { mode: run.mode, stage: run.stages[n] }).wf(),
    decreases n,
{
    if n > 0 {
        lemma_bring_up_modes(run, n - 1);
        let b = VbusBringUpView { mode: run.mode, stage: run.stages[n - 1] };
        bring_up_is_safe(b, run.events[n - 1]);
        assert(run.stages[n - 1 + 1] == b.next(run.events[n - 1]).0);
    }
}

/// Dropping and discharging TARGET-C VBUS, then re-applying a route.
pub struct VbusCycle {
    route: VbusSwitches,
    done: u8,
}

/// What a [`VbusCycle`] holds: the route, and how many actions have been asked for.
pub struct VbusCycleView {
    pub route: VbusSwitches,
    pub done: u8,
}

impl View for VbusCycle {
    type V = VbusCycleView;

    closed spec fn view(&self) -> VbusCycleView {
        VbusCycleView { route: self.route, done: self.done }
    }
}

impl VbusCycleView {
    /// What the cycle becomes, and the next action if there is one.
    pub open spec fn next(self) -> (VbusCycleView, Option<LinkActionView>) {
        if self.done >= 3 {
            (self, None)
        } else {
            (
                VbusCycleView { done: (self.done + 1) as u8, ..self },
                Some(
                    if self.done == 0 {
                        LinkActionView::SetSwitches(VbusSwitches::discharging())
                    } else if self.done == 1 {
                        LinkActionView::Sleep(600)
                    } else {
                        LinkActionView::SetSwitches(self.route)
                    },
                ),
            )
        }
    }
}

/// Cycling VBUS is three actions and no more: every supply off the rail and TARGET-C
/// discharged, 600 ms of that, and the route back on, which is left as it was.
pub proof fn cycling_brings_the_route_back(route: VbusSwitches)
    ensures
        ({
            let (c1, drop) = (VbusCycleView { route, done: 0 }).next();
            let (c2, wait) = c1.next();
            let (c3, back) = c2.next();
            let (c4, over) = c3.next();
            &&& drop matches Some(LinkActionView::SetSwitches(s)) && drains(s)
            &&& wait matches Some(LinkActionView::Sleep(ms)) && ms == 600
            &&& back matches Some(LinkActionView::SetSwitches(s)) && s == route
            &&& over is None && c4 == c3
            &&& c1.route == route && c2.route == route && c3.route == route
        }),
{
}

impl VbusCycle {
    /// The next action, or `None` when VBUS is back. To be dropped when an action fails.
    pub fn step(&mut self) -> (a: Option<LinkAction>)
        ensures
            final(self)@ == old(self)@.next().0,
            match a {
                Some(a) => old(self)@.next().1 == Some(a@),
                None => old(self)@.next().1 is None,
            },
    {
        let n: u8 = self.done;
        if n >= 3 {
            return None;
        }
        self.done = n + 1;
        if n == 0 {
            Some(LinkAction::SetSwitches(VbusSwitches::discharge()))
        } else if n == 1 {
            Some(LinkAction::Sleep(600))
        } else {
            Some(LinkAction::SetSwitches(self.route))
        }
    }
}

/// How far a negotiation has come: what is being waited for.
#[derive(Debug, Clone, Copy, PartialEq, Eq, Structural)]
pub enum NegotiationStage {
    Begin,
    /// Source_Capabilities is being staged.
    Staging,
    /// VBUS is being dropped and discharged.
    Dropping,
    /// Waiting for the discharge.
    Discharging,
    /// VBUS is being re-applied.
    Reapplying,
    /// Waiting out the sink's attach debounce.
    Settling,
    /// Source_Capabilities is being fired.
    Firing,
    /// The result of the transmission is being read.
    Observing,
    /// The listening window is being checked.
    Listening,
    /// The RX FIFO is being read.
    Polling,
    /// Waiting before the next look at the RX FIFO.
    Pausing,
    /// Accept is being sent.
    Accepting,
    /// PS_RDY is being sent.
    Readying,
    Over,
}

/// What to do next while negotiating.
#[derive(Debug)]
pub enum NegotiationStep {
    Do(LinkAction),
    /// The sink made this Request and was answered.
    Agreed(PdMessage),
    /// No Request arrived.
    NoRequest,
    /// The action before this failed: return its error.
    PassError,
}

/// What a [`NegotiationStep`] holds.
pub enum NegotiationStepView {
    Do(LinkActionView),
    Agreed(Seq<u8>),
    NoRequest,
    PassError,
}

impl View for NegotiationStep {
    type V = NegotiationStepView;

    open spec fn view(&self) -> NegotiationStepView {
        match *self {
            NegotiationStep::Do(a) => NegotiationStepView::Do(a@),
            NegotiationStep::Agreed(m) => NegotiationStepView::Agreed(m@),
            NegotiationStep::NoRequest => NegotiationStepView::NoRequest,
            NegotiationStep::PassError => NegotiationStepView::PassError,
        }
    }
}

/// A source-initiated PD negotiation with the timing the spec demands, worked
/// around the slow JTAG-I2C link: pre-stage `Source_Capabilities`, cycle VBUS for a
/// fresh attach, fire the caps inside the sink's `tSinkWaitCap` window, then listen
/// for the `Request`. On receiving it, reply `Accept` + `PS_RDY` (best effort: a
/// reply that fails to go out changes nothing) and hand out the Request message.
/// Up to four attempts.
pub struct SourceNegotiation {
    pdos: Vec<u32>,
    attempt: u32,
    stage: NegotiationStage,
    request: Option<PdMessage>,
}

/// What a [`SourceNegotiation`] holds.
#[verifier::ext_equal]
pub struct NegotiationView {
    pub pdos: Seq<u32>,
    /// How many attempts have ended without a Request.
    pub attempt: int,
    pub stage: NegotiationStage,
    pub request: Option<Seq<u8>>,
}

impl View for SourceNegotiation {
    type V = NegotiationView;

    closed spec fn view(&self) -> NegotiationView {
        NegotiationView {
            pdos: self.pdos@,
            attempt: self.attempt as int,
            stage: self.stage,
            request: match self.request {
                Some(m) => Some(m@),
                None => None,
            },
        }
    }
}

/// Whether a message is a Request (data message type 2).
pub open spec fn is_request(raw: Seq<u8>) -> bool {
    pd::header_of(raw) matches Some(h) && pd::class_of(h) == PdMessageClass::Data && h % 32 == 2
}

/// A control message of the given type with the link's next MessageID.
pub open spec fn control_message(msg_type: u16, msg_id: u16) -> Seq<u8> {
    pd::message_bytes(source_header_of(msg_type, 0, msg_id), Seq::empty())
}

impl NegotiationView {
    /// A negotiation that is to begin.
    pub open spec fn started(pdos: Seq<u32>) -> NegotiationView {
        NegotiationView { pdos, attempt: 0, stage: NegotiationStage::Begin, request: None }
    }

    /// Source_Capabilities with the advertised objects and the given MessageID.
    pub open spec fn capabilities(self, msg_id: u16) -> Seq<u8> {
        pd::message_bytes(
            source_header_of(1, (self.pdos.len() % 65536) as u16, msg_id),
            self.pdos,
        )
    }

    pub open spec fn at(self, stage: NegotiationStage) -> NegotiationView {
        NegotiationView { stage, ..self }
    }

    /// What the negotiation and the link become and what is done next, given how
    /// the action before went.
    pub open spec fn next(self, link: PdLinkView, e: LinkEventView) -> (
        NegotiationView,
        PdLinkView,
        NegotiationStepView,
    ) {
        match self.stage {
            NegotiationStage::Begin => (
                self.at(NegotiationStage::Staging),
                link,
                NegotiationStepView::Do(LinkActionView::Stage(self.capabilities(link.msg_id))),
            ),
            NegotiationStage::Staging => if e is Failed {
                (self.at(NegotiationStage::Over), link, NegotiationStepView::PassError)
            } else if link.vbus_route != VbusSwitches::all_off() {
                (
                    self.at(NegotiationStage::Dropping),
                    link,
                    NegotiationStepView::Do(
                        LinkActionView::SetSwitches(VbusSwitches::discharging()),
                    ),
                )
            } else {
                (
                    self.at(NegotiationStage::Settling),
                    link,
                    NegotiationStepView::Do(LinkActionView::Sleep(180)),
                )
            },
            NegotiationStage::Dropping => if e is Failed {
                (self.at(NegotiationStage::Over), link, NegotiationStepView::PassError)
            } else {
                (
                    self.at(NegotiationStage::Discharging),
                    link,
                    NegotiationStepView::Do(LinkActionView::Sleep(600)),
                )
            },
            NegotiationStage::Discharging => (
                self.at(NegotiationStage::Reapplying),
                link,
                NegotiationStepView::Do(LinkActionView::SetSwitches(link.vbus_route)),
            ),
            NegotiationStage::Reapplying => if e is Failed {
                (self.at(NegotiationStage::Over), link, NegotiationStepView::PassError)
            } else {
                (
                    self.at(NegotiationStage::Settling),
                    link,
                    NegotiationStepView::Do(LinkActionView::Sleep(180)),
                )
            },
            NegotiationStage::Settling => (
                self.at(NegotiationStage::Firing),
                link,
                NegotiationStepView::Do(LinkActionView::Fire(self.capabilities(link.msg_id))),
            ),
            NegotiationStage::Firing => if e is Failed {
                (self.at(NegotiationStage::Over), link, NegotiationStepView::PassError)
            } else {
                (
                    self.at(NegotiationStage::Observing),
                    link.advanced(),
                    NegotiationStepView::Do(LinkActionView::TxResult),
                )
            },
            NegotiationStage::Observing => (
                self.at(NegotiationStage::Listening),
                link,
                NegotiationStepView::Do(LinkActionView::OpenWindow(1200)),
            ),
            NegotiationStage::Listening => if e == LinkEventView::Window(true) {
                (
                    self.at(NegotiationStage::Polling),
                    link,
                    NegotiationStepView::Do(LinkActionView::Poll),
                )
            } else if self.attempt < 3 {
                (
                    NegotiationView {
                        attempt: self.attempt + 1,
                        stage: NegotiationStage::Staging,
                        ..self
                    },
                    link,
                    NegotiationStepView::Do(LinkActionView::Stage(self.capabilities(link.msg_id))),
                )
            } else {
                (self.at(NegotiationStage::Over), link, NegotiationStepView::NoRequest)
            },
            NegotiationStage::Polling => match e {
                LinkEventView::Failed => (
                    self.at(NegotiationStage::Over),
                    link,
                    NegotiationStepView::PassError,
                ),
                LinkEventView::Message(m) => if is_request(m) {
                    (
                        NegotiationView {
                            stage: NegotiationStage::Accepting,
                            request: Some(m),
                            ..self
                        },
                        link.advanced(),
                        NegotiationStepView::Do(
                            LinkActionView::Send(control_message(3, link.msg_id)),
                        ),
                    )
                } else {
                    (
                        self.at(NegotiationStage::Listening),
                        link,
                        NegotiationStepView::Do(LinkActionView::CheckWindow),
                    )
                },
                _ => (
                    self.at(NegotiationStage::Pausing),
                    link,
                    NegotiationStepView::Do(LinkActionView::Sleep(15)),
                ),
            },
            NegotiationStage::Pausing => (
                self.at(NegotiationStage::Listening),
                link,
                NegotiationStepView::Do(LinkActionView::CheckWindow),
            ),
            NegotiationStage::Accepting => (
                self.at(NegotiationStage::Readying),
                link.advanced(),
                NegotiationStepView::Do(LinkActionView::Send(control_message(6, link.msg_id))),
            ),
            NegotiationStage::Readying => (
                NegotiationView { stage: NegotiationStage::Over, request: None, ..self },
                link,
                match self.request {
                    Some(m) => NegotiationStepView::Agreed(m),
                    None => NegotiationStepView::NoRequest,
                },
            ),
            NegotiationStage::Over => (self, link, NegotiationStepView::NoRequest),
        }
    }

    /// Reachable: at most four attempts, and a Request is held exactly while it is
    /// being answered.
    pub open spec fn wf(self) -> bool {
        &&& 0 <= self.attempt < 4
        &&& (self.stage == NegotiationStage::Accepting || self.stage
            == NegotiationStage::Readying) <==> self.request is Some
        &&& self.request matches Some(m) ==> is_request(m)
    }
}

impl SourceNegotiation {
    fn capabilities(&self, msg_id: u16) -> (m: PdMessage)
        ensures
            m@ == self@.capabilities(msg_id),
    {
        let header: u16 = source_header(1, (self.pdos.len() % 65536) as u16, msg_id);
        PdMessage::from_objects(header, self.pdos.as_slice())
    }

    /// Decide what to do next, given how the action before went ([`LinkEvent::Done`]
    /// to begin with).
    pub fn step(&mut self, link: &mut PdLink, event: LinkEvent) -> (s: NegotiationStep)
        requires
            old(self)@.wf(),
        ensures
            (final(self)@, final(link)@, s@) == old(self)@.next(old(link)@, event@),
            final(self)@.wf(),
    {
        match self.stage {
            NegotiationStage::Begin => {
                self.stage = NegotiationStage::Staging;
                NegotiationStep::Do(LinkAction::Stage(self.capabilities(link.msg_id)))
            },
            NegotiationStage::Staging => {
                if event.is_failed() {
                    self.stage = NegotiationStage::Over;
                    return NegotiationStep::PassError;
                }
                if link.vbus_route != VbusSwitches::none_on() {
                    self.stage = NegotiationStage::Dropping;
                    NegotiationStep::Do(LinkAction::SetSwitches(VbusSwitches::discharge()))
                } else {
                    self.stage = NegotiationStage::Settling;
                    NegotiationStep::Do(LinkAction::Sleep(180))
                }
            },
            NegotiationStage::Dropping => {
                if event.is_failed() {
                    self.stage = NegotiationStage::Over;
                    return NegotiationStep::PassError;
                }
                self.stage = NegotiationStage::Discharging;
                NegotiationStep::Do(LinkAction::Sleep(600))
            },
            NegotiationStage::Discharging => {
                self.stage = NegotiationStage::Reapplying;
                NegotiationStep::Do(LinkAction::SetSwitches(link.vbus_route))
            },
            NegotiationStage::Reapplying => {
                if event.is_failed() {
                    self.stage = NegotiationStage::Over;
                    return NegotiationStep::PassError;
                }
                self.stage = NegotiationStage::Settling;
                NegotiationStep::Do(LinkAction::Sleep(180))
            },
            NegotiationStage::Settling => {
                self.stage = NegotiationStage::Firing;
                NegotiationStep::Do(LinkAction::Fire(self.capabilities(link.msg_id)))
            },
            NegotiationStage::Firing => {
                if event.is_failed() {
                    self.stage = NegotiationStage::Over;
                    return NegotiationStep::PassError;
                }
                link.msg_id = link.msg_id.wrapping_add(1);
                self.stage = NegotiationStage::Observing;
                NegotiationStep::Do(LinkAction::TxResult)
            },
            NegotiationStage::Observing => {
                self.stage = NegotiationStage::Listening;
                NegotiationStep::Do(LinkAction::OpenWindow(1200))
            },
            NegotiationStage::Listening => {
                if let LinkEvent::Window(true) = event {
                    self.stage = NegotiationStage::Polling;
                    return NegotiationStep::Do(LinkAction::Poll);
                }
                if self.attempt < 3 {
                    self.attempt = self.attempt + 1;
                    self.stage = NegotiationStage::Staging;
                    NegotiationStep::Do(LinkAction::Stage(self.capabilities(link.msg_id)))
                } else {
                    self.stage = NegotiationStage::Over;
                    NegotiationStep::NoRequest
                }
            },
            NegotiationStage::Polling => match event {
                LinkEvent::Failed => {
                    self.stage = NegotiationStage::Over;
                    NegotiationStep::PassError
                },
                LinkEvent::Message(m) => {
                    let wanted = match m.header() {
                        Some(h) => h / 32768 == 0 && (h / 4096) % 8 != 0 && h % 32 == 2,
                        None => false,
                    };
                    if wanted {
                        let accept: u16 = link.next_source_header(3, 0);
                        self.request = Some(m);
                        self.stage = NegotiationStage::Accepting;
                        let none: [u32; 0] = [];
                        assert(none@ =~= Seq::<u32>::empty());
                        NegotiationStep::Do(
                            LinkAction::Send(PdMessage::from_objects(accept, &none)),
                        )
                    } else {
                        self.stage = NegotiationStage::Listening;
                        NegotiationStep::Do(LinkAction::CheckWindow)
                    }
                },
                _ => {
                    self.stage = NegotiationStage::Pausing;
                    NegotiationStep::Do(LinkAction::Sleep(15))
                },
            },
            NegotiationStage::Pausing => {
                self.stage = NegotiationStage::Listening;
                NegotiationStep::Do(LinkAction::CheckWindow)
            },
            NegotiationStage::Accepting => {
                let ready: u16 = link.next_source_header(6, 0);
                self.stage = NegotiationStage::Readying;
                let none: [u32; 0] = [];
                assert(none@ =~= Seq::<u32>::empty());
                NegotiationStep::Do(LinkAction::Send(PdMessage::from_objects(ready, &none)))
            },
            NegotiationStage::Readying => {
                self.stage = NegotiationStage::Over;
                let mut request: Option<PdMessage> = None;
                std::mem::swap(&mut request, &mut self.request);
                match request {
                    Some(m) => NegotiationStep::Agreed(m),
                    None => NegotiationStep::NoRequest,
                }
            },
            NegotiationStage::Over => NegotiationStep::NoRequest,
        }
    }
}

/// A negotiation follows the protocol, whatever the sink does: it reports agreement
/// only on a Request, after Accept and PS_RDY in that order; it sends Accept only in
/// answer to a Request; each of Source_Capabilities, Accept and PS_RDY uses one
/// MessageID; and the only switch settings it asks for are the discharge and the
/// link's own route.
pub proof fn negotiation_follows_the_protocol(
    n: NegotiationView,
    link: PdLinkView,
    e: LinkEventView,
)
    requires
        n.wf(),
    ensures
        ({
            let (n1, link1, step) = n.next(link, e);
            &&& n1.wf()
            &&& n.attempt <= n1.attempt <= n.attempt + 1
            &&& step matches NegotiationStepView::Agreed(m) ==> n.stage
                == NegotiationStage::Readying && n.request == Some(m) && is_request(m)
            &&& n1.stage == NegotiationStage::Accepting ==> (e matches LinkEventView::Message(m)
                && is_request(m)) && step == NegotiationStepView::Do(
                LinkActionView::Send(control_message(3, link.msg_id)),
            )
            &&& n1.stage == NegotiationStage::Readying ==> n.stage == NegotiationStage::Accepting
                && step == NegotiationStepView::Do(
                LinkActionView::Send(control_message(6, link.msg_id)),
            )
            &&& step matches NegotiationStepView::Do(LinkActionView::Send(m)) ==> n1.stage
                == NegotiationStage::Accepting || n1.stage == NegotiationStage::Readying
            &&& step matches NegotiationStepView::Do(LinkActionView::SetSwitches(s)) ==> s
                == VbusSwitches::discharging() || s == link.vbus_route
            &&& (link1 == link || link1 == link.advanced())
        }),
{
}

/// Whether a message is one that a source originates: of this type, with this MessageID
/// and these objects, and with the object count in its header.
pub open spec fn is_from_source(m: Seq<u8>, msg_type: int, msg_id: u16, objects: Seq<u32>) -> bool {
    &&& pd::header_of(m) matches Some(h) && {
        &&& pd::type_of(h) == msg_type
        &&& pd::count_of(h) == objects.len() % 8
        &&& (h / 512) % 8 == msg_id % 8
        &&& (h / 256) % 2 == 1
        &&& h / 32768 == 0
    }
    &&& pd::objects_of(m) == objects
}

/// How much of a count fits three bits does not change when it is cut to 16 first.
proof fn lemma_cut_count(n: nat)
    ensures
        (n % 65536) % 8 == n % 8,
{
    let q = n / 65536;
    assert(n == 65536 * q + n % 65536);
    assert(n == 8 * (8192 * q) + n % 65536);
}

/// A message is from a source if its header says so and its objects are these.
proof fn lemma_header_from_source(h: u16, msg_type: u16, msg_id: u16, objects: Seq<u32>)
    requires
        h % 32 == msg_type,
        (h / 4096) % 8 == objects.len() % 8,
        (h / 512) % 8 == msg_id % 8,
        (h / 256) % 2 == 1,
        h / 32768 == 0,
    ensures
        is_from_source(pd::message_bytes(h, objects), msg_type as int, msg_id, objects),
{
    pd::message_round_trip(h, objects);
}

proof fn lemma_from_source(msg_type: u16, msg_id: u16, objects: Seq<u32>)
    requires
        msg_type < 32,
    ensures
        is_from_source(
            pd::message_bytes(
                source_header_of(msg_type, (objects.len() % 65536) as u16, msg_id),
                objects,
            ),
            msg_type as int,
            msg_id,
            objects,
        ),
{
    let ndo = (objects.len() % 65536) as u16;
    source_header_fields(msg_type, ndo, msg_id);
    lemma_cut_count(objects.len());
    lemma_header_from_source(
        source_header_of(msg_type, ndo, msg_id),
        msg_type,
        msg_id,
        objects,
    );
}

/// Whether a stage of a negotiation waits for this action: staging and firing are of
/// Source_Capabilities (type 1) with the advertised objects, the answers are Accept
/// (type 3) and PS_RDY (type 6), and the VBUS route is the link's own.
pub open spec fn negotiation_awaits(
    stage: NegotiationStage,
    pdos: Seq<u32>,
    link: PdLinkView,
    a: LinkActionView,
) -> bool {
    match stage {
        NegotiationStage::Staging => a matches LinkActionView::Stage(m) && is_from_source(
            m,
            1,
            link.msg_id,
            pdos,
        ),
        NegotiationStage::Dropping => a matches LinkActionView::SetSwitches(s) && drains(s),
        NegotiationStage::Discharging => a matches LinkActionView::Sleep(ms) && ms == 600,
        NegotiationStage::Reapplying => a matches LinkActionView::SetSwitches(s) && s
            == link.vbus_route,
        NegotiationStage::Settling => a matches LinkActionView::Sleep(ms) && ms == 180,
        NegotiationStage::Firing => a matches LinkActionView::Fire(m) && is_from_source(
            m,
            1,
            link.msg_id,
            pdos,
        ),
        NegotiationStage::Observing => a is TxResult,
        NegotiationStage::Listening => (a matches LinkActionView::OpenWindow(ms) && ms == 1200)
            || a is CheckWindow,
        NegotiationStage::Polling => a is Poll,
        NegotiationStage::Pausing => a matches LinkActionView::Sleep(ms) && ms == 15,
        NegotiationStage::Accepting => a matches LinkActionView::Send(m) && is_from_source(
            m,
            3,
            link.msg_id,
            Seq::empty(),
        ),
        NegotiationStage::Readying => a matches LinkActionView::Send(m) && is_from_source(
            m,
            6,
            link.msg_id,
            Seq::empty(),
        ),
        NegotiationStage::Begin | NegotiationStage::Over => false,
    }
}

/// A negotiation asks for exactly what its stages wait for, in the order of the
/// protocol: stage the capabilities; if a route is up, drop VBUS, let it discharge and
/// put the route back on; let it settle; fire; look at the result; then listen while the
/// window is open, and try again (four times in all) when it closes. A Request is
/// answered with Accept, then PS_RDY, and handed out. A message that was fired or
/// answered with uses up one MessageID, and nothing else of the link changes.
pub proof fn negotiation_step_by_step(n: NegotiationView, link: PdLinkView, e: LinkEventView)
    ensures
        ({
            let (n1, link1, step) = n.next(link, e);
            let again = if n.attempt < 3 {
                n1.stage is Staging && n1.attempt == n.attempt + 1
            } else {
                n1.stage is Over && step is NoRequest
            };
            let requested = e matches LinkEventView::Message(m) && is_request(m);
            &&& n1.pdos == n.pdos
            &&& step matches NegotiationStepView::Do(a) ==> negotiation_awaits(
                n1.stage,
                n.pdos,
                link,
                a,
            )
            &&& !(step is Do) ==> n1.stage is Over
            &&& n.stage is Begin ==> n1.stage is Staging
            &&& e is Failed && (n.stage is Staging || n.stage is Dropping || n.stage is Reapplying
                || n.stage is Firing || n.stage is Polling) ==> step is PassError
            &&& !(e is Failed) && n.stage is Staging ==> (if is_open(link.vbus_route) {
                n1.stage is Settling
            } else {
                n1.stage is Dropping
            })
            &&& !(e is Failed) && n.stage is Dropping ==> n1.stage is Discharging
            &&& n.stage is Discharging ==> n1.stage is Reapplying
            &&& !(e is Failed) && n.stage is Reapplying ==> n1.stage is Settling
            &&& n.stage is Settling ==> n1.stage is Firing
            &&& !(e is Failed) && n.stage is Firing ==> n1.stage is Observing
            &&& n.stage is Observing ==> n1.stage is Listening && (step matches
                NegotiationStepView::Do(a) && a is OpenWindow)
            &&& n.stage is Listening ==> (if e matches LinkEventView::Window(open) && open {
                n1.stage is Polling
            } else {
                again
            })
            &&& n.stage is Polling && requested ==> n1.stage is Accepting && e
                == LinkEventView::Message(n1.request->0) && n1.request is Some
            &&& n.stage is Polling && e is Message && !requested ==> n1.stage is Listening && (step
                matches NegotiationStepView::Do(a) && a is CheckWindow)
            &&& n.stage is Polling && !(e is Message) && !(e is Failed) ==> n1.stage is Pausing
            &&& n.stage is Pausing ==> n1.stage is Listening && (step matches
                NegotiationStepView::Do(a) && a is CheckWindow)
            &&& n.stage is Accepting ==> n1.stage is Readying && n1.request == n.request
            &&& n.stage is Readying ==> (match n.request {
                Some(m) => step == NegotiationStepView::Agreed(m),
                None => step is NoRequest,
            })
            &&& link1.msg_id == (if n1.stage is Observing || n1.stage is Accepting || n1.stage
                is Readying {
                (link.msg_id + 1) % 65536
            } else {
                link.msg_id as int
            })
            &&& link1 == (PdLinkView { msg_id: link1.msg_id, ..link })
        }),
{
    lemma_from_source(1, link.msg_id, n.pdos);
    lemma_from_source(3, link.msg_id, Seq::empty());
    lemma_from_source(6, link.msg_id, Seq::empty());
}

/// A Request is a data message of type 2: what it asks for does not matter, nor do the
/// other fields of its header.
pub proof fn requests_are_recognized(m: Seq<u8>)
    ensures
        is_request(m) <==> (m.len() >= 2 && m[0] % 32 == 2 && m[1] < 128 && (m[1] / 16) % 8 != 0),
{
    if m.len() >= 2 {
        let h = m[0] + 256 * m[1];
        assert(h == 4096 * (m[1] / 16) as int + (256 * (m[1] % 16) + m[0]));
        assert(h / 4096 == (m[1] / 16) as int);
        assert(h / 32768 == (m[1] / 128) as int);
        assert(h == 32 * (8 * m[1] + (m[0] / 32)) + (m[0] % 32));
    }
}

/// A run of a negotiation: the negotiation and the link before each step and after the
/// last, and how the action before each step went. The actions may change the link, but
/// neither its VBUS route nor its MessageID.
pub struct NegotiationRun {
    pub states: Seq<NegotiationView>,
    pub links: Seq<PdLinkView>,
    pub events: Seq<LinkEventView>,
}

/// A negotiation begins by staging Source_Capabilities with just the objects it was given and
/// the link's MessageID, whatever the event; no attempt is used up and no request held.
pub proof fn negotiation_begins_with_its_objects(
    pdos: Seq<u32>,
    link: PdLinkView,
    e: LinkEventView,
)
    ensures
        ({
            let n = NegotiationView::started(pdos);
            let (n1, link1, step) = n.next(link, e);
            &&& n.attempt == 0 && n.request is None
            &&& link1 == link
            &&& step matches NegotiationStepView::Do(LinkActionView::Stage(m)) && is_from_source(
                m,
                1,
                link.msg_id,
                pdos,
            )
        }),
{
    lemma_from_source(1, link.msg_id, pdos);
}

impl NegotiationRun {
    /// What step `k` is.
    pub open spec fn step(self, k: int) -> NegotiationStepView {
        self.states[k].next(self.links[k], self.events[k]).2
    }

    /// Whether each state follows from the one before it, on a link with this route.
    pub open spec fn follows(self, route: VbusSwitches) -> bool {
        &&& self.states.len() == self.events.len() + 1
        &&& self.links.len() == self.events.len()
        &&& self.states[0].stage == NegotiationStage::Begin
        &&& forall|k: int|
            #![trigger self.events[k]]
            0 <= k < self.events.len() ==> {
                let (state1, link1, step) = self.states[k].next(self.links[k], self.events[k]);
                &&& self.states[k + 1] == state1
                &&& self.links[k].vbus_route == route
                &&& k + 1 < self.events.len() ==> self.links[k + 1].msg_id == link1.msg_id
            }
    }

    /// The switch setting that the first `n` steps asked for last, if they asked for any.
    pub open spec fn setting(self, n: int) -> Option<VbusSwitches>
        decreases n,
    {
        if n <= 0 {
            None
        } else {
            match self.step(n - 1) {
                NegotiationStepView::Do(LinkActionView::SetSwitches(s)) => Some(s),
                _ => self.setting(n - 1),
            }
        }
    }

    /// Whether VBUS has been drained for 600 ms since capabilities were last fired.
    pub open spec fn drained(self, n: int) -> bool
        decreases n,
    {
        if n <= 0 {
            false
        } else {
            match self.step(n - 1) {
                NegotiationStepView::Do(LinkActionView::Fire(_)) => false,
                NegotiationStepView::Do(LinkActionView::Sleep(ms)) => self.drained(n - 1) || (ms
                    >= 600 && (self.setting(n - 1) matches Some(s) && drains(s))),
                _ => self.drained(n - 1),
            }
        }
    }

    /// The message that the first `n` steps staged last, if they staged any.
    pub open spec fn staged(self, n: int) -> Option<Seq<u8>>
        decreases n,
    {
        if n <= 0 {
            None
        } else {
            match self.step(n - 1) {
                NegotiationStepView::Do(LinkActionView::Stage(m)) => Some(m),
                _ => self.staged(n - 1),
            }
        }
    }
}

proof fn lemma_negotiation_run(run: NegotiationRun, route: VbusSwitches, n: int)
    requires
        run.follows(route),
        0 <= n <= run.events.len(),
    ensures
        ({
            let stage = run.states[n].stage;
            let early = stage is Begin || stage is Staging;
            let dropping = stage is Dropping || stage is Discharging;
            &&& dropping ==> (run.setting(n) matches Some(s) && drains(s)) && !is_open(route)
            &&& !is_open(route) && !early && !dropping && !(stage is Over) ==> run.setting(n)
                == Some(route)
            &&& is_open(route) ==> run.setting(n) is None
            &&& !is_open(route) && (stage is Reapplying || stage is Settling) ==> run.drained(n)
            &&& stage is Discharging ==> n > 0 && run.step(n - 1) == NegotiationStepView::Do(
                LinkActionView::Sleep(600),
            ) && run.drained(n)
            &&& run.states[n].pdos == run.states[0].pdos
            &&& (n < run.events.len() && (stage is Staging || dropping || stage is Reapplying || stage
                is Settling)) ==> run.staged(n) == Some(
                run.states[n].capabilities(run.links[n].msg_id),
            )
        }),
    decreases n,
{
    if n > 0 {
        let k = n - 1;
        lemma_negotiation_run(run, route, k);
        let e = run.events[k];
        negotiation_step_by_step(run.states[k], run.links[k], e);
        assert(run.states[k + 1] == run.states[k].next(run.links[k], e).0);
    }
}

/// The sink sees a fresh attach and has power when Source_Capabilities is fired: along any
/// run on a link whose route is up, the switch setting asked for last before a firing is
/// that route, and since the firing before (or the beginning) VBUS was drained for 600 ms.
/// On a link without a route no switch is touched. What is fired is what was staged, and
/// carries the advertised objects.
pub proof fn capabilities_are_fired_into_a_fresh_attach(
    run: NegotiationRun,
    route: VbusSwitches,
    n: int,
)
    requires
        run.follows(route),
        0 <= n < run.events.len(),
    ensures
        run.step(n) matches NegotiationStepView::Do(LinkActionView::Fire(m)) ==> {
            &&& run.staged(n) == Some(m)
            &&& is_from_source(m, 1, run.links[n].msg_id, run.states[0].pdos)
            &&& !is_open(route) ==> run.setting(n) == Some(route) && run.drained(n)
            &&& is_open(route) ==> run.setting(n) is None
        },
        run.step(n) is Agreed || run.step(n) is NoRequest ==> (run.states[n].stage is Over
            || run.setting(n) == (if is_open(route) {
            None
        } else {
            Some(route)
        })),
{
    lemma_negotiation_run(run, route, n);
    negotiation_step_by_step(run.states[n], run.links[n], run.events[n]);
}

/// What to do after one look at the RX FIFO while receiving with a timeout.
#[derive(Debug, Clone, Copy, PartialEq, Eq, Structural)]
pub enum RecvStep {
    /// Hand out the message that came.
    Deliver,
    /// The time is over without a message.
    GiveUp,
    /// Wait 15 ms and look again.
    Wait,
}

/// What to do after one look at the RX FIFO while receiving with a timeout.
pub open spec fn recv_next(received: bool, expired: bool) -> RecvStep {
    if received {
        RecvStep::Deliver
    } else if expired {
        RecvStep::GiveUp
    } else {
        RecvStep::Wait
    }
}

/// No message is lost and no time wasted: one that came is always handed out, and only
/// while there is none does the clock decide between waiting and giving up.
pub proof fn receiving_loses_nothing(received: bool, expired: bool)
    ensures
        recv_next(received, expired) is Deliver <==> received,
        recv_next(received, expired) is GiveUp <==> expired && !received,
        recv_next(received, expired) is Wait <==> !expired && !received,
{
}

/// Receive the next message within a timeout: a message that came is handed out even
/// when the time is over.
pub fn recv_step(received: bool, expired: bool) -> (s: RecvStep)
    ensures
        s == recv_next(received, expired),
{
    if received {
        RecvStep::Deliver
    } else if expired {
        RecvStep::GiveUp
    } else {
        RecvStep::Wait
    }
}

/// What to do after one look at the RX FIFO while recording replies.
#[derive(Debug, Clone, Copy, PartialEq, Eq, Structural)]
pub enum DrainStep {
    /// The time is over.
    Done,
    /// Look again at once.
    Poll,
    /// Wait this many milliseconds and look again.
    Pause(u64),
}

/// What to do after one look at the RX FIFO while recording replies.
pub open spec fn drain_next(open: bool, received: bool) -> DrainStep {
    if !open {
        DrainStep::Done
    } else if received {
        DrainStep::Poll
    } else {
        DrainStep::Pause(10)
    }
}

/// Replies are recorded exactly while the window is open, and the FIFO is left alone for
/// 10 ms only after it was found empty.
pub proof fn draining_ends_with_the_window(open: bool, received: bool)
    ensures
        drain_next(open, received) is Done <==> !open,
        drain_next(open, received) is Poll <==> open && received,
        drain_next(open, received) matches DrainStep::Pause(ms) ==> ms == 10,
{
}

/// Record replies for as long as the window is open: look again at once after a
/// message, and after a pause when there was none.
pub fn drain_step(open: bool, received: bool) -> (s: DrainStep)
    ensures
        s == drain_next(open, received),
{
    if !open {
        DrainStep::Done
    } else if received {
        DrainStep::Poll
    } else {
        DrainStep::Pause(10)
    }
}

} // verus!

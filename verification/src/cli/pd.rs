//! The Power Delivery commands: what they do step by step, and what they print.
//!
//! Each command is a procedure that says what to do next and is told how it went;
//! none performs I/O itself.

use vstd::prelude::*;
use vstd::slice::slice_to_vec;
use vstd::string::*;

use crate::cli::args::port_name;
use crate::cli::args::SendPlan;
use crate::flash::PdLine;
use crate::host::descriptors;
use crate::pcapng;
use crate::pcapng::IfaceDesc;
use crate::pcapng::IfaceDescView;
use crate::pcapng::PcapNgWriter;
use crate::pcapng::LINKTYPE_USB_TYPE_C_PD;
use crate::pd;
use crate::pd::link;
use crate::pd::link::LinkEvent;
use crate::pd::link::LinkEventView;
use crate::pd::link::PdLink;
use crate::pd::link::PdLinkView;
use crate::pd::link::VbusSource;
use crate::pd::link::VbusSwitches;
use crate::pd::trace;
use crate::pd::trace::PdTrace;
use crate::pd::trace::PdTraceView;
use crate::pd::PdMessage;
use crate::pd::PdPort;
use crate::text;

verus! {

/// The one object advertised when acting as a source: 5 V @ 1.5 A fixed
/// (50 mV and 10 mA units).
pub const PDO_5V_1A5: u32 = 102550;

/// How far `pd-listen` has come: what is being waited for.
#[derive(Debug, Clone, Copy, PartialEq, Eq, Structural)]
pub enum ListenStage {
    Begin,
    /// The INTERRUPT register is being read.
    Reading,
    /// The RX FIFO is being drained.
    Draining,
    /// Waiting before the next pass.
    Pausing,
    Over,
}

/// What to do next while listening.
#[derive(Debug, Clone, Copy, PartialEq, Eq, Structural)]
pub enum ListenStep {
    /// Read the INTERRUPT register and report its value.
    ReadInterrupts,
    /// Read one message from the RX FIFO, record it, and report it.
    Poll,
    /// Wait this many milliseconds.
    Sleep(u64),
    Finish,
    /// The action before this failed: return its error.
    PassError,
}

/// Listening for PD messages, by passes rather than by the clock (bit-banged I2C is
/// slow): each pass latches the interrupt bits and drains the RX FIFO, and the first
/// pass that brings Source_Capabilities is the last.
pub struct PdListen {
    passes: u32,
    irq_seen: u8,
    got_caps: bool,
    stage: ListenStage,
}

/// What a [`PdListen`] holds.
pub struct PdListenView {
    /// Passes left, the current one included.
    pub passes: u32,
    /// The interrupt bits seen so far.
    pub irq_seen: u8,
    /// Whether Source_Capabilities has been seen.
    pub got_caps: bool,
    pub stage: ListenStage,
}

impl View for PdListen {
    type V = PdListenView;

    closed spec fn view(&self) -> PdListenView {
        PdListenView {
            passes: self.passes,
            irq_seen: self.irq_seen,
            got_caps: self.got_caps,
            stage: self.stage,
        }
    }
}

impl PdListenView {
    /// Listening that is to begin.
    pub open spec fn started(passes: u32) -> PdListenView {
        PdListenView { passes, irq_seen: 0, got_caps: false, stage: ListenStage::Begin }
    }

    /// The start of a pass, with `passes` left.
    pub open spec fn pass(self, passes: u32) -> (PdListenView, ListenStep) {
        if passes == 0 {
            (PdListenView { passes, stage: ListenStage::Over, ..self }, ListenStep::Finish)
        } else {
            (
                PdListenView { passes, stage: ListenStage::Reading, ..self },
                ListenStep::ReadInterrupts,
            )
        }
    }

    /// What the procedure becomes and does next, given how the action before went.
    pub open spec fn next(self, e: LinkEventView) -> (PdListenView, ListenStep) {
        match self.stage {
            ListenStage::Begin => self.pass(self.passes),
            ListenStage::Reading => (
                PdListenView {
                    irq_seen: self.irq_seen | e.value(),
                    stage: ListenStage::Draining,
                    ..self
                },
                ListenStep::Poll,
            ),
            ListenStage::Draining => match e {
                LinkEventView::Failed => (
                    PdListenView { stage: ListenStage::Over, ..self },
                    ListenStep::PassError,
                ),
                LinkEventView::Message(m) => (
                    PdListenView {
                        got_caps: self.got_caps || trace::is_source_capabilities(m),
                        ..self
                    },
                    ListenStep::Poll,
                ),
                _ => if self.got_caps {
                    (PdListenView { stage: ListenStage::Over, ..self }, ListenStep::Finish)
                } else {
                    (PdListenView { stage: ListenStage::Pausing, ..self }, ListenStep::Sleep(10))
                },
            },
            ListenStage::Pausing => self.pass(
                if self.passes > 0 {
                    (self.passes - 1) as u32
                } else {
                    0
                },
            ),
            ListenStage::Over => (self, ListenStep::Finish),
        }
    }
}

impl PdListen {
    /// Listen for at most this many passes.
    pub fn new(passes: u32) -> (l: PdListen)
        ensures
            l@ == PdListenView::started(passes),
    {
        PdListen { passes, irq_seen: 0, got_caps: false, stage: ListenStage::Begin }
    }

    /// The interrupt bits seen so far.
    pub fn irq_seen(&self) -> (b: u8)
        ensures
            b == self@.irq_seen,
    {
        self.irq_seen
    }

    /// Decide what to do next, given how the action before went ([`LinkEvent::Done`]
    /// to begin with).
    pub fn step(&mut self, event: LinkEvent) -> (s: ListenStep)
        ensures
            (final(self)@, s) == old(self)@.next(event@),
    {
        match self.stage {
            ListenStage::Begin => {
                if self.passes == 0 {
                    self.stage = ListenStage::Over;
                    ListenStep::Finish
                } else {
                    self.stage = ListenStage::Reading;
                    ListenStep::ReadInterrupts
                }
            },
            ListenStage::Reading => {
                let bits: u8 = match event {
                    LinkEvent::Value(v) => v,
                    _ => 0,
                };
                self.irq_seen = self.irq_seen | bits;
                self.stage = ListenStage::Draining;
                ListenStep::Poll
            },
            ListenStage::Draining => match event {
                LinkEvent::Failed => {
                    self.stage = ListenStage::Over;
                    ListenStep::PassError
                },
                LinkEvent::Message(m) => {
                    self.got_caps = self.got_caps || trace::has_source_capabilities(&m);
                    ListenStep::Poll
                },
                _ => {
                    if self.got_caps {
                        self.stage = ListenStage::Over;
                        ListenStep::Finish
                    } else {
                        self.stage = ListenStage::Pausing;
                        ListenStep::Sleep(10)
                    }
                },
            },
            ListenStage::Pausing => {
                if self.passes > 0 {
                    self.passes = self.passes - 1;
                }
                if self.passes == 0 {
                    self.stage = ListenStage::Over;
                    ListenStep::Finish
                } else {
                    self.stage = ListenStage::Reading;
                    ListenStep::ReadInterrupts
                }
            },
            ListenStage::Over => ListenStep::Finish,
        }
    }
}

/// Listening gives up after its passes and not before Source_Capabilities: it
/// finishes only with none left or with the capabilities seen, a pass is used up
/// only by a pause, and what has been seen stays seen.
pub proof fn listening_is_bounded(l: PdListenView, e: LinkEventView)
    ensures
        ({
            let (l1, step) = l.next(e);
            &&& l1.passes <= l.passes
            &&& l.got_caps ==> l1.got_caps
            &&& step == ListenStep::Finish && l.stage != ListenStage::Over ==> l1.passes == 0
                || l1.got_caps
            &&& l.stage == ListenStage::Pausing && l.passes > 0 ==> l1.passes == l.passes - 1
            &&& l.stage != ListenStage::Pausing ==> l1.passes == l.passes
        }),
{
}

/// Listening asks for exactly what its stages wait for, pass by pass: read the interrupt
/// bits, drain the RX FIFO until it is empty, and go on after 10 ms, unless the
/// capabilities were seen or no pass is left. Reading latches every bit that is reported
/// and drops none; only a Source_Capabilities message counts as the capabilities; only a
/// failed look at the FIFO ends it with an error.
pub proof fn listening_step_by_step(l: PdListenView, e: LinkEventView)
    ensures
        ({
            let (l1, step) = l.next(e);
            let bits: u8 = match e {
                LinkEventView::Value(v) => v,
                _ => 0,
            };
            let left = if l.stage is Pausing && l.passes > 0 {
                l.passes - 1
            } else {
                l.passes as int
            };
            &&& l1.stage is Reading <==> step is ReadInterrupts
            &&& l1.stage is Draining <==> step is Poll
            &&& l1.stage is Pausing ==> step == ListenStep::Sleep(10)
            &&& l1.stage is Over <==> step is Finish || step is PassError
            &&& l.stage is Begin || l.stage is Pausing ==> (if left == 0 {
                step is Finish
            } else {
                step is ReadInterrupts
            })
            &&& l.stage is Reading ==> step is Poll && l1.irq_seen & l.irq_seen == l.irq_seen
                && l1.irq_seen & bits == bits && l1.irq_seen & !l.irq_seen & !bits == 0
            &&& !(l.stage is Reading) ==> l1.irq_seen == l.irq_seen
            &&& l.stage is Draining ==> (match e {
                LinkEventView::Failed => step is PassError,
                LinkEventView::Message(m) => step is Poll && (l1.got_caps <==> l.got_caps
                    || trace::is_source_capabilities(m)),
                _ => if l.got_caps {
                    step is Finish
                } else {
                    l1.stage is Pausing
                },
            })
            &&& !(l.stage is Draining && e is Message) ==> l1.got_caps == l.got_caps
        }),
{
    let (a, b) = (l.irq_seen, e.value());
    assert((a | b) & a == a && (a | b) & b == b && (a | b) & !a & !b == 0) by (bit_vector);
}

/// Listening begins with nothing seen: it reads the interrupts if there is a pass to make, and
/// ends at once if there is none.
pub proof fn listening_begins_with_nothing_seen(passes: u32, e: LinkEventView)
    ensures
        ({
            let l = PdListenView::started(passes);
            let (l1, step) = l.next(e);
            &&& l.irq_seen == 0 && !l.got_caps && l.passes == passes
            &&& l1.irq_seen == 0 && !l1.got_caps && l1.passes == passes
            &&& passes > 0 ==> step is ReadInterrupts
            &&& passes == 0 ==> step is Finish
        }),
{
}

/// What a source's CC level (the low bits of STATUS0) says about its current.
pub fn rp_name(bc: u8) -> (s: &'static str)
    ensures
        s@ == rp_text(bc),
{
    match bc {
        0 => "none/vRa",
        1 => "default USB (~0.5 A)",
        2 => "1.5 A @ 5 V",
        _ => "3.0 A @ 5 V",
    }
}

/// What a source's CC level says about its current.
pub open spec fn rp_text(bc: u8) -> Seq<char> {
    if bc == 0 {
        "none/vRa"@
    } else if bc == 1 {
        "default USB (~0.5 A)"@
    } else if bc == 2 {
        "1.5 A @ 5 V"@
    } else {
        "3.0 A @ 5 V"@
    }
}

/// `present` or `absent`, after the VBUS bit of STATUS0.
pub open spec fn presence(s0: u8) -> Seq<char> {
    if s0 >= 128 {
        "present"@
    } else {
        "absent"@
    }
}

fn presence_of(s0: u8) -> (s: &'static str)
    ensures
        s@ == presence(s0),
{
    if s0 >= 128 {
        "present"
    } else {
        "absent"
    }
}

/// A source's CC level names the current it offers, more for a higher level, and VBUS is
/// bit 7 of STATUS0, whatever the seven below it say.
pub proof fn status_bits(low: u8, level: u8)
    requires
        low < 128,
    ensures
        presence((128 + low) as u8) == "present"@,
        presence(low) == "absent"@,
        rp_text(level) == (if level >= 3 {
            "3.0 A @ 5 V"@
        } else {
            seq!["none/vRa"@, "default USB (~0.5 A)"@, "1.5 A @ 5 V"@][level as int]
        }),
{
}

/// The line that shows STATUS0 of a sink.
pub open spec fn status_text(s0: u8) -> Seq<char> {
    "  STATUS0 = 0x"@ + text::hex_fixed(s0 as nat, 2) + "  VBUS="@ + presence(s0)
        + ", source Rp = "@ + rp_text((s0 % 4) as u8) + ", BMC activity="@ + text::decimal(
        ((s0 / 64) % 2) as nat,
    )
}

/// The line about STATUS0 shows its bits: VBUS in bit 7, BMC activity in bit 6, the CC
/// level in bits 0-1, whatever the others are.
pub proof fn status_line_shows_the_bits(vbus: u8, activity: u8, middle: u8, level: u8)
    requires
        vbus < 2,
        activity < 2,
        middle < 16,
        level < 4,
    ensures
        ({
            let s0 = 128 * vbus + 64 * activity + 4 * middle + level;
            status_text(s0 as u8) == "  STATUS0 = 0x"@ + text::hex_fixed(s0 as nat, 2)
                + "  VBUS="@ + (if vbus == 1 {
                "present"@
            } else {
                "absent"@
            }) + ", source Rp = "@ + rp_text(level) + ", BMC activity="@ + text::decimal(
                activity as nat,
            )
        }),
{
    let s0 = 128 * vbus + 64 * activity + 4 * middle + level;
    assert(s0 == 64 * (2 * vbus + activity) + (4 * middle + level));
    assert(s0 / 64 == 2 * vbus + activity);
}

/// The line that shows STATUS0 of a sink.
pub fn status_line(s0: u8) -> (s: String)
    ensures
        s@ == status_text(s0),
{
    let mut s = "  STATUS0 = 0x".to_owned();
    text::push_hex(&mut s, s0 as u64, 2);
    s.append("  VBUS=");
    s.append(presence_of(s0));
    s.append(", source Rp = ");
    s.append(rp_name(s0 % 4));
    s.append(", BMC activity=");
    text::push_decimal(&mut s, ((s0 / 64) % 2) as u64);
    s
}

/// The lines that close `pd-listen`: how many messages, the interrupt bits
/// (CRC_CHK 0x10, ACTIVITY 0x40, BC_LVL 0x01), and, with no message, what that means.
pub open spec fn listen_report_text(count: u32, irq: u8) -> Seq<Seq<char>> {
    let summary = "Done \u{2014} "@ + text::decimal(count as nat)
        + " PD message(s) captured. (latched INTERRUPT bits: 0x"@ + text::hex_fixed(irq as nat, 2)
        + " \u{2014} CRC_CHK="@ + text::decimal(((irq / 16) % 2) as nat) + ", ACTIVITY="@
        + text::decimal(((irq / 64) % 2) as nat) + ", BC_LVL="@ + text::decimal((irq % 2) as nat)
        + ")"@;
    if count > 0 {
        seq![summary]
    } else if (irq / 16) % 2 == 1 {
        seq![
            summary,
            "Note: good PD messages were received (CRC_CHK latched) but the FIFO read returned none \u{2014} RX-decode bug; I'll fix it."@,
        ]
    } else if (irq / 64) % 2 == 1 {
        seq![
            summary,
            "Note: BMC activity seen but no good CRC \u{2014} messages are arriving garbled (wrong CC polarity or SpecRev)."@,
        ]
    } else {
        seq![
            summary,
            "No BMC activity at all: this source isn't transmitting USB-PD on the measured CC (Type-C current only, or wrong port)."@,
        ]
    }
}

/// The report on a capture tells its count and three interrupt bits, CRC_CHK in bit 4,
/// ACTIVITY in bit 6 and BC_LVL in bit 0, whatever the others are. A note follows exactly
/// if nothing was captured: on undecoded messages if CRC_CHK is set, else on garbled
/// ones if there was activity, else on silence.
pub proof fn listen_report_shows_the_bits(
    count: u32,
    top: u8,
    activity: u8,
    bit5: u8,
    crc: u8,
    middle: u8,
    level: u8,
)
    requires
        top < 2,
        activity < 2,
        bit5 < 2,
        crc < 2,
        middle < 8,
        level < 2,
    ensures
        ({
            let irq = 128 * top + 64 * activity + 32 * bit5 + 16 * crc + 2 * middle + level;
            let lines = listen_report_text(count, irq as u8);
            let note = if crc == 1 {
                "Note: good PD messages were received (CRC_CHK latched) but the FIFO read returned none \u{2014} RX-decode bug; I'll fix it."@
            } else if activity == 1 {
                "Note: BMC activity seen but no good CRC \u{2014} messages are arriving garbled (wrong CC polarity or SpecRev)."@
            } else {
                "No BMC activity at all: this source isn't transmitting USB-PD on the measured CC (Type-C current only, or wrong port)."@
            };
            &&& lines[0] == "Done \u{2014} "@ + text::decimal(count as nat)
                + " PD message(s) captured. (latched INTERRUPT bits: 0x"@ + text::hex_fixed(
                irq as nat,
                2,
            ) + " \u{2014} CRC_CHK="@ + text::decimal(crc as nat) + ", ACTIVITY="@
                + text::decimal(activity as nat) + ", BC_LVL="@ + text::decimal(level as nat)
                + ")"@
            &&& count > 0 <==> lines.len() == 1
            &&& count == 0 ==> lines.len() == 2 && lines[1] == note
        }),
{
    let irq = 128 * top + 64 * activity + 32 * bit5 + 16 * crc + 2 * middle + level;
    assert(irq == 64 * (2 * top + activity) + (32 * bit5 + 16 * crc + 2 * middle + level));
    assert(irq / 64 == 2 * top + activity);
    assert(irq == 16 * (8 * top + 4 * activity + 2 * bit5 + crc) + (2 * middle + level));
    assert(irq / 16 == 8 * top + 4 * activity + 2 * bit5 + crc);
    assert(irq == 2 * (64 * top + 32 * activity + 16 * bit5 + 8 * crc + middle) + level);
}

/// The lines that close `pd-listen`.
pub fn listen_report(count: u32, irq: u8) -> (out: Vec<String>)
    ensures
        descriptors::text_views(out@) == listen_report_text(count, irq),
{
    let mut s = "Done \u{2014} ".to_owned();
    text::push_decimal(&mut s, count as u64);
    s.append(" PD message(s) captured. (latched INTERRUPT bits: 0x");
    text::push_hex(&mut s, irq as u64, 2);
    s.append(" \u{2014} CRC_CHK=");
    text::push_decimal(&mut s, ((irq / 16) % 2) as u64);
    s.append(", ACTIVITY=");
    text::push_decimal(&mut s, ((irq / 64) % 2) as u64);
    s.append(", BC_LVL=");
    text::push_decimal(&mut s, (irq % 2) as u64);
    s.append(")");
    let mut out: Vec<String> = Vec::new();
    out.push(s);
    if count == 0 {
        if (irq / 16) % 2 == 1 {
            out.push(
                "Note: good PD messages were received (CRC_CHK latched) but the FIFO read returned none \u{2014} RX-decode bug; I'll fix it.".to_owned(),
            );
        } else if (irq / 64) % 2 == 1 {
            out.push(
                "Note: BMC activity seen but no good CRC \u{2014} messages are arriving garbled (wrong CC polarity or SpecRev).".to_owned(),
            );
        } else {
            out.push(
                "No BMC activity at all: this source isn't transmitting USB-PD on the measured CC (Type-C current only, or wrong port).".to_owned(),
            );
        }
    }
    assert(descriptors::text_views(out@) =~= listen_report_text(count, irq));
    out
}

/// How far `pd-source` has come: what is being waited for.
#[derive(Debug, Clone, Copy, PartialEq, Eq, Structural)]
pub enum SourceStage {
    Begin,
    /// The run time is being checked.
    Running,
    /// Source_Capabilities is being sent.
    Sending,
    /// The reply window is being checked.
    Replying,
    /// The RX FIFO is being read.
    Polling,
    /// Waiting before the next look at the RX FIFO.
    Pausing,
    Over,
}

/// What to do next while acting as a source.
#[derive(Debug)]
pub enum SourceStep {
    /// Report whether the run time is not over.
    CheckRun,
    /// Transmit a message and record it.
    Send(PdMessage),
    /// Open a reply window of this many milliseconds, and report whether it and the
    /// run time are both open.
    OpenWindow(u64),
    /// Report whether the reply window and the run time are both open.
    CheckWindow,
    /// Read one message from the RX FIFO, record it, and report it.
    Poll,
    /// Wait this many milliseconds.
    Sleep(u64),
    Finish,
    /// The action before this failed: return its error.
    PassError,
}

/// What a [`SourceStep`] holds.
pub enum SourceStepView {
    CheckRun,
    Send(Seq<u8>),
    OpenWindow(u64),
    CheckWindow,
    Poll,
    Sleep(u64),
    Finish,
    PassError,
}

impl View for SourceStep {
    type V = SourceStepView;

    open spec fn view(&self) -> SourceStepView {
        match *self {
            SourceStep::CheckRun => SourceStepView::CheckRun,
            SourceStep::Send(m) => SourceStepView::Send(m@),
            SourceStep::OpenWindow(ms) => SourceStepView::OpenWindow(ms),
            SourceStep::CheckWindow => SourceStepView::CheckWindow,
            SourceStep::Poll => SourceStepView::Poll,
            SourceStep::Sleep(ms) => SourceStepView::Sleep(ms),
            SourceStep::Finish => SourceStepView::Finish,
            SourceStep::PassError => SourceStepView::PassError,
        }
    }
}

/// Source_Capabilities with the one advertised object.
pub open spec fn advertisement(msg_id: u16) -> Seq<u8> {
    pd::message_bytes(link::source_header_of(1, 1, msg_id), seq![PDO_5V_1A5])
}

/// What `pd-source` and the link become and do next, given how the action before
/// went: advertise, listen for replies in a short window, and over again until the
/// run time is over.
pub open spec fn source_next(stage: SourceStage, l: PdLinkView, e: LinkEventView) -> (
    SourceStage,
    PdLinkView,
    SourceStepView,
) {
    match stage {
        SourceStage::Begin => (SourceStage::Running, l, SourceStepView::CheckRun),
        SourceStage::Running => if e == LinkEventView::Window(true) {
            (SourceStage::Sending, l.advanced(), SourceStepView::Send(advertisement(l.msg_id)))
        } else {
            (SourceStage::Over, l, SourceStepView::Finish)
        },
        SourceStage::Sending => if e is Failed {
            (SourceStage::Over, l, SourceStepView::PassError)
        } else {
            (SourceStage::Replying, l, SourceStepView::OpenWindow(300))
        },
        SourceStage::Replying => if e == LinkEventView::Window(true) {
            (SourceStage::Polling, l, SourceStepView::Poll)
        } else {
            (SourceStage::Running, l, SourceStepView::CheckRun)
        },
        SourceStage::Polling => match e {
            LinkEventView::Failed => (SourceStage::Over, l, SourceStepView::PassError),
            LinkEventView::Message(_) => (SourceStage::Replying, l, SourceStepView::CheckWindow),
            _ => (SourceStage::Pausing, l, SourceStepView::Sleep(10)),
        },
        SourceStage::Pausing => (SourceStage::Replying, l, SourceStepView::CheckWindow),
        SourceStage::Over => (SourceStage::Over, l, SourceStepView::Finish),
    }
}

/// What `pd-source` advertises is one fixed supply of 5 V and 1.5 A, in a
/// Source_Capabilities message with the next MessageID.
pub proof fn advertises_5v_1a5(msg_id: u16)
    ensures
        link::is_from_source(advertisement(msg_id), 1, msg_id, seq![PDO_5V_1A5]),
        (pd::Pdo { raw: PDO_5V_1A5 }).fixed() == Some((5000u32, 1500u32)),
{
    link::source_header_fields(1, 1, msg_id);
    pd::message_round_trip(link::source_header_of(1, 1, msg_id), seq![PDO_5V_1A5]);
    pd::fixed_supply_layout(0, 100, 150);
}

/// Acting as a source goes round as long as the run time lasts: advertise, with one
/// MessageID each time, then listen for 300 ms, looking at the RX FIFO again at once
/// after a message and after 10 ms when there was none. Only a failed transmission or a
/// failed look at the FIFO ends it with an error, and only the run time ends it otherwise.
pub proof fn source_step_by_step(stage: SourceStage, l: PdLinkView, e: LinkEventView)
    ensures
        ({
            let (stage1, l1, step) = source_next(stage, l, e);
            let open = e matches LinkEventView::Window(w) && w;
            &&& stage1 is Running <==> step is CheckRun
            &&& stage1 is Sending <==> step is Send
            &&& stage1 is Polling <==> step is Poll
            &&& stage1 is Replying <==> step is OpenWindow || step is CheckWindow
            &&& stage1 is Pausing <==> step is Sleep
            &&& stage1 is Over <==> step is Finish || step is PassError
            &&& step matches SourceStepView::Send(m) ==> m == advertisement(l.msg_id)
            &&& step matches SourceStepView::OpenWindow(ms) ==> ms == 300 && stage is Sending
            &&& step matches SourceStepView::Sleep(ms) ==> ms == 10
            &&& stage is Begin ==> step is CheckRun
            &&& stage is Running ==> (if open {
                step is Send
            } else {
                step is Finish
            })
            &&& stage is Sending ==> (if e is Failed {
                step is PassError
            } else {
                step is OpenWindow
            })
            &&& stage is Replying ==> (if open {
                step is Poll
            } else {
                step is CheckRun
            })
            &&& stage is Polling ==> (match e {
                LinkEventView::Failed => step is PassError,
                LinkEventView::Message(_) => step is CheckWindow,
                _ => step is Sleep,
            })
            &&& stage is Pausing ==> step is CheckWindow
            &&& l1 == (PdLinkView { msg_id: l1.msg_id, ..l })
            &&& l1.msg_id == (if step is Send {
                (l.msg_id + 1) % 65536
            } else {
                l.msg_id as int
            })
        }),
{
}

/// Decide what `pd-source` does next, given how the action before went
/// ([`LinkEvent::Done`] to begin with).
pub fn source_step(stage: SourceStage, l: &mut PdLink, event: LinkEvent) -> (r: (
    SourceStage,
    SourceStep,
))
    ensures
        (r.0, final(l)@, r.1@) == source_next(stage, old(l)@, event@),
{
    match stage {
        SourceStage::Begin => (SourceStage::Running, SourceStep::CheckRun),
        SourceStage::Running => {
            if let LinkEvent::Window(true) = event {
                let header: u16 = l.next_source_header(1, 1);
                let objects: [u32; 1] = [PDO_5V_1A5];
                assert(objects@ =~= seq![PDO_5V_1A5]);
                (
                    SourceStage::Sending,
                    SourceStep::Send(PdMessage::from_objects(header, &objects)),
                )
            } else {
                (SourceStage::Over, SourceStep::Finish)
            }
        },
        SourceStage::Sending => match event {
            LinkEvent::Failed => (SourceStage::Over, SourceStep::PassError),
            _ => (SourceStage::Replying, SourceStep::OpenWindow(300)),
        },
        SourceStage::Replying => {
            if let LinkEvent::Window(true) = event {
                (SourceStage::Polling, SourceStep::Poll)
            } else {
                (SourceStage::Running, SourceStep::CheckRun)
            }
        },
        SourceStage::Polling => match event {
            LinkEvent::Failed => (SourceStage::Over, SourceStep::PassError),
            LinkEvent::Message(_) => (SourceStage::Replying, SourceStep::CheckWindow),
            _ => (SourceStage::Pausing, SourceStep::Sleep(10)),
        },
        SourceStage::Pausing => (SourceStage::Replying, SourceStep::CheckWindow),
        SourceStage::Over => (SourceStage::Over, SourceStep::Finish),
    }
}

/// The line that closes a traced command.
pub open spec fn traced_text(count: u32) -> Seq<char> {
    "Done \u{2014} "@ + text::decimal(count as nat) + " PD message(s) traced."@
}

/// The closing line counts the messages that were traced.
pub proof fn closing_line_counts_the_messages(count: u32)
    ensures
        traced_text(count) == "Done \u{2014} "@ + text::decimal(count as nat)
            + " PD message(s) traced."@,
        text::number(text::decimal(count as nat), 10) == count,
{
    text::decimal_reads_back(count as nat);
}

/// The line that closes a traced command.
pub fn traced_line(count: u32) -> (s: String)
    ensures
        s@ == traced_text(count),
{
    let mut s = "Done \u{2014} ".to_owned();
    text::push_decimal(&mut s, count as u64);
    s.append(" PD message(s) traced.");
    s
}

/// How far `charge` has come: what is being waited for.
#[derive(Debug, Clone, Copy, PartialEq, Eq, Structural)]
pub enum ChargeStage {
    Begin,
    /// Every switch is being opened.
    AllOff,
    /// A sink is being presented on AUX.
    AuxSink,
    /// The AUX controller is being asked for VBUS, this many times before.
    AuxPoll(u8),
    /// Waiting between two looks at AUX.
    AuxPause(u8),
    /// A source is being presented on TARGET-C.
    TargetSource,
    /// AUX is being routed to TARGET-C.
    Routing,
    /// Waiting for VBUS to settle.
    Settling,
    /// The TARGET-C controller is being asked for VBUS.
    Checking,
    Over,
}

/// What to do next while setting up a charge.
#[derive(Debug, Clone, Copy, PartialEq, Eq, Structural)]
pub enum ChargeAction {
    /// Set the VBUS switches, and report the byte written and the byte read back.
    SetSwitches(VbusSwitches),
    /// Present as a sink on this line, and report the CC line found.
    SetupSink(PdLine),
    /// Present as a source on this line, and report the CC line found.
    SetupSource(PdLine),
    /// Read the STATUS0 register of this line's controller, and report its value.
    ReadStatus(PdLine),
    /// Wait this many milliseconds.
    Sleep(u64),
    /// Charging has been set up, as far as it could.
    Finish,
    /// It cannot be set up.
    Fail,
    /// The action before this failed: return its error.
    PassError,
}

/// How an action of `charge` went.
#[derive(Debug, Clone, Copy, PartialEq, Eq, Structural)]
pub enum ChargeEvent {
    /// It was done.
    Done,
    /// It failed.
    Failed,
    /// The CC line found, or the register value read.
    Value(u8),
    /// The switch byte that was written, and the one that was read back.
    Switches(u8, u8),
}

impl ChargeEvent {
    /// The reported value; 0 when there is none.
    pub open spec fn number(self) -> u8 {
        match self {
            ChargeEvent::Value(v) => v,
            _ => 0,
        }
    }
}

/// The line about the switch byte that was written and the one read back.
pub open spec fn routed_text(want: u8, got: u8) -> Seq<char> {
    if got == want {
        "Routed AUX 5 V -> TARGET-C (VBUS switches 0x"@ + text::hex_fixed(want as nat, 2)
            + ", read-back verified)."@
    } else {
        "Set VBUS switches to 0x"@ + text::hex_fixed(want as nat, 2) + " (status read-back 0x"@
            + text::hex_fixed(got as nat, 2)
            + "); continuing \u{2014} VBUS presence is checked below."@
    }
}

/// The line about the switch byte that was written and the one read back.
fn routed_line(want: u8, got: u8) -> (s: String)
    ensures
        s@ == routed_text(want, got),
{
    if got == want {
        let mut s = "Routed AUX 5 V -> TARGET-C (VBUS switches 0x".to_owned();
        text::push_hex(&mut s, want as u64, 2);
        s.append(", read-back verified).");
        s
    } else {
        let mut s = "Set VBUS switches to 0x".to_owned();
        text::push_hex(&mut s, want as u64, 2);
        s.append(" (status read-back 0x");
        text::push_hex(&mut s, got as u64, 2);
        s.append("); continuing \u{2014} VBUS presence is checked below.");
        s
    }
}

/// The next stage, action, and line to print (if any) of `charge`: present a sink on
/// AUX so that its supply turns on VBUS (it is never asked for more than the default
/// 5 V), present a source on TARGET-C, and route AUX to it. CONTROL (the host) is
/// never enabled.
pub open spec fn charge_next(stage: ChargeStage, e: ChargeEvent) -> (
    ChargeStage,
    ChargeAction,
    Option<Seq<char>>,
) {
    match stage {
        ChargeStage::Begin => (
            ChargeStage::AllOff,
            ChargeAction::SetSwitches(VbusSwitches::all_off()),
            None,
        ),
        ChargeStage::AllOff => if e == ChargeEvent::Failed {
            (ChargeStage::Over, ChargeAction::PassError, None)
        } else {
            (ChargeStage::AuxSink, ChargeAction::SetupSink(PdLine::Aux), None)
        },
        ChargeStage::AuxSink => if e == ChargeEvent::Failed {
            (ChargeStage::Over, ChargeAction::PassError, None)
        } else if e.number() == 0 {
            (
                ChargeStage::Over,
                ChargeAction::Fail,
                Some(
                    "no PD supply detected on AUX \u{2014} plug the power supply into AUX"@,
                ),
            )
        } else {
            (ChargeStage::AuxPoll(0), ChargeAction::ReadStatus(PdLine::Aux), None)
        },
        ChargeStage::AuxPoll(n) => if e == ChargeEvent::Failed {
            (ChargeStage::Over, ChargeAction::PassError, None)
        } else if e.number() >= 128 {
            (
                ChargeStage::TargetSource,
                ChargeAction::SetupSource(PdLine::TargetC),
                Some("AUX supply attached; VBUS up at 5 V."@),
            )
        } else {
            (ChargeStage::AuxPause(n), ChargeAction::Sleep(100), None)
        },
        ChargeStage::AuxPause(n) => if n < 19 {
            (ChargeStage::AuxPoll((n + 1) as u8), ChargeAction::ReadStatus(PdLine::Aux), None)
        } else {
            (
                ChargeStage::Over,
                ChargeAction::Fail,
                Some("AUX supply did not bring up VBUS"@),
            )
        },
        ChargeStage::TargetSource => if e == ChargeEvent::Failed {
            (ChargeStage::Over, ChargeAction::PassError, None)
        } else {
            (
                ChargeStage::Routing,
                ChargeAction::SetSwitches(VbusSwitches::aux_to_target()),
                Some(
                    if e.number() == 0 {
                        "warning: no sink detected on TARGET-C (is the device plugged in?) \u{2014} routing VBUS anyway"@
                    } else {
                        "TARGET-C presenting source (Rp) on CC"@ + text::decimal(
                            e.number() as nat,
                        ) + "."@
                    },
                ),
            )
        },
        ChargeStage::Routing => if e == ChargeEvent::Failed {
            (ChargeStage::Over, ChargeAction::PassError, None)
        } else {
            (
                ChargeStage::Settling,
                ChargeAction::Sleep(100),
                match e {
                    ChargeEvent::Switches(want, got) => Some(routed_text(want, got)),
                    _ => None,
                },
            )
        },
        ChargeStage::Settling => (
            ChargeStage::Checking,
            ChargeAction::ReadStatus(PdLine::TargetC),
            None,
        ),
        ChargeStage::Checking => if e == ChargeEvent::Failed {
            (ChargeStage::Over, ChargeAction::PassError, None)
        } else {
            (
                ChargeStage::Over,
                ChargeAction::Finish,
                Some(
                    if e.number() >= 128 {
                        "TARGET-C: 5 V VBUS present + source presented \u{2014} the device should now be charging."@
                    } else {
                        "TARGET-C STATUS0=0x"@ + text::hex_fixed(e.number() as nat, 2)
                            + ": VBUS not detected \u{2014} check the device/cable on TARGET-C."@
                    },
                ),
            )
        },
        ChargeStage::Over => (ChargeStage::Over, ChargeAction::Finish, None),
    }
}

/// Decide what `charge` does and prints next, given how the action before went
/// ([`ChargeEvent::Done`] to begin with).
pub fn charge_step(stage: ChargeStage, e: ChargeEvent) -> (r: (
    ChargeStage,
    ChargeAction,
    Option<String>,
))
    ensures
        ({
            let (stage1, action, line) = charge_next(stage, e);
            &&& r.0 == stage1
            &&& r.1 == action
            &&& match r.2 {
                Some(s) => line == Some(s@),
                None => line is None,
            }
        }),
{
    let number: u8 = match e {
        ChargeEvent::Value(v) => v,
        _ => 0,
    };
    let failed = e == ChargeEvent::Failed;
    match stage {
        ChargeStage::Begin => (
            ChargeStage::AllOff,
            ChargeAction::SetSwitches(VbusSwitches::none_on()),
            None,
        ),
        ChargeStage::AllOff => {
            if failed {
                return (ChargeStage::Over, ChargeAction::PassError, None);
            }
            (ChargeStage::AuxSink, ChargeAction::SetupSink(PdLine::Aux), None)
        },
        ChargeStage::AuxSink => {
            if failed {
                return (ChargeStage::Over, ChargeAction::PassError, None);
            }
            if number == 0 {
                return (
                    ChargeStage::Over,
                    ChargeAction::Fail,
                    Some(
                        "no PD supply detected on AUX \u{2014} plug the power supply into AUX".to_owned(),
                    ),
                );
            }
            (ChargeStage::AuxPoll(0), ChargeAction::ReadStatus(PdLine::Aux), None)
        },
        ChargeStage::AuxPoll(n) => {
            if failed {
                return (ChargeStage::Over, ChargeAction::PassError, None);
            }
            if number >= 128 {
                (
                    ChargeStage::TargetSource,
                    ChargeAction::SetupSource(PdLine::TargetC),
                    Some("AUX supply attached; VBUS up at 5 V.".to_owned()),
                )
            } else {
                (ChargeStage::AuxPause(n), ChargeAction::Sleep(100), None)
            }
        },
        ChargeStage::AuxPause(n) => {
            if n < 19 {
                (ChargeStage::AuxPoll(n + 1), ChargeAction::ReadStatus(PdLine::Aux), None)
            } else {
                (
                    ChargeStage::Over,
                    ChargeAction::Fail,
                    Some("AUX supply did not bring up VBUS".to_owned()),
                )
            }
        },
        ChargeStage::TargetSource => {
            if failed {
                return (ChargeStage::Over, ChargeAction::PassError, None);
            }
            let line = if number == 0 {
                "warning: no sink detected on TARGET-C (is the device plugged in?) \u{2014} routing VBUS anyway".to_owned()
            } else {
                let mut s = "TARGET-C presenting source (Rp) on CC".to_owned();
                text::push_decimal(&mut s, number as u64);
                s.append(".");
                s
            };
            (
                ChargeStage::Routing,
                ChargeAction::SetSwitches(VbusSwitches::aux_route()),
                Some(line),
            )
        },
        ChargeStage::Routing => {
            if failed {
                return (ChargeStage::Over, ChargeAction::PassError, None);
            }
            let line = match e {
                ChargeEvent::Switches(want, got) => Some(routed_line(want, got)),
                _ => None,
            };
            (ChargeStage::Settling, ChargeAction::Sleep(100), line)
        },
        ChargeStage::Settling => (
            ChargeStage::Checking,
            ChargeAction::ReadStatus(PdLine::TargetC),
            None,
        ),
        ChargeStage::Checking => {
            if failed {
                return (ChargeStage::Over, ChargeAction::PassError, None);
            }
            let line = if number >= 128 {
                "TARGET-C: 5 V VBUS present + source presented \u{2014} the device should now be charging.".to_owned()
            } else {
                let mut s = "TARGET-C STATUS0=0x".to_owned();
                text::push_hex(&mut s, number as u64, 2);
                s.append(": VBUS not detected \u{2014} check the device/cable on TARGET-C.");
                s
            };
            (ChargeStage::Over, ChargeAction::Finish, Some(line))
        },
        ChargeStage::Over => (ChargeStage::Over, ChargeAction::Finish, None),
    }
}

/// The line about routing shows both bytes, in two hexadecimal digits each, and calls the
/// setting verified exactly if they are the same.
pub proof fn routing_is_told_truly(want: u8, got: u8)
    ensures
        want == got ==> routed_text(want, got)
            == "Routed AUX 5 V -> TARGET-C (VBUS switches 0x"@ + text::hex_fixed(got as nat, 2)
            + ", read-back verified)."@,
        want != got ==> routed_text(want, got) == "Set VBUS switches to 0x"@ + text::hex_fixed(
            want as nat,
            2,
        ) + " (status read-back 0x"@ + text::hex_fixed(got as nat, 2)
            + "); continuing \u{2014} VBUS presence is checked below."@,
{
}

/// Charging tells what happened: that AUX brought up VBUS, on which CC line the source is
/// presented (or that no sink was found), what was written to the switches, and what
/// STATUS0 of TARGET-C was if it shows no VBUS. It is silent otherwise.
pub proof fn charging_is_told_truly(stage: ChargeStage, e: ChargeEvent)
    requires
        !(e is Failed),
    ensures
        ({
            let line = charge_next(stage, e).2;
            let v: u8 = match e {
                ChargeEvent::Value(v) => v,
                _ => 0,
            };
            &&& stage is AuxSink ==> (line is Some <==> v == 0)
            &&& stage is AuxPoll ==> line == (if v >= 128 {
                Some("AUX supply attached; VBUS up at 5 V."@)
            } else {
                None
            })
            &&& stage is TargetSource && v != 0 ==> line == Some(
                "TARGET-C presenting source (Rp) on CC"@ + text::decimal(v as nat) + "."@,
            )
            &&& stage is TargetSource && v == 0 ==> line == Some(
                "warning: no sink detected on TARGET-C (is the device plugged in?) \u{2014} routing VBUS anyway"@,
            )
            &&& stage is Routing ==> line == (match e {
                ChargeEvent::Switches(want, got) => Some(routed_text(want, got)),
                _ => None,
            })
            &&& stage is Checking && v < 128 ==> line == Some(
                "TARGET-C STATUS0=0x"@ + text::hex_fixed(v as nat, 2)
                    + ": VBUS not detected \u{2014} check the device/cable on TARGET-C."@,
            )
            &&& stage is Begin || stage is AllOff || stage is Settling || stage is Over ==> line
                is None
        }),
{
}

/// Charging is safe, whatever the controllers answer: it starts with every switch
/// open, never puts CONTROL (the host) on the rail, and routes AUX only after AUX
/// was seen to have VBUS.
pub proof fn charging_is_safe(stage: ChargeStage, e: ChargeEvent)
    ensures
        charge_next(stage, e).1 matches ChargeAction::SetSwitches(s) ==> !s.control
            && !s.control_in && s.no_back_feed(),
        stage == ChargeStage::Begin ==> charge_next(stage, e).1 == ChargeAction::SetSwitches(
            VbusSwitches::all_off(),
        ),
        (charge_next(stage, e).1 matches ChargeAction::SetSwitches(s) && s.aux) ==> stage
            == ChargeStage::TargetSource,
        charge_next(stage, e).0 == ChargeStage::TargetSource ==> stage is AuxPoll && e.number()
            >= 128,
{
}

/// Whether a stage of `charge` waits for this action.
pub open spec fn charge_awaits(stage: ChargeStage, a: ChargeAction) -> bool {
    match stage {
        ChargeStage::AllOff => a matches ChargeAction::SetSwitches(s) && link::is_open(s),
        ChargeStage::AuxSink => a matches ChargeAction::SetupSink(l) && l is Aux,
        ChargeStage::AuxPoll(_) => a matches ChargeAction::ReadStatus(l) && l is Aux,
        ChargeStage::AuxPause(_) => a matches ChargeAction::Sleep(ms) && ms == 100,
        ChargeStage::TargetSource => a matches ChargeAction::SetupSource(l) && l is TargetC,
        ChargeStage::Routing => a matches ChargeAction::SetSwitches(s) && link::feeds_from_aux(s),
        ChargeStage::Settling => a matches ChargeAction::Sleep(ms) && ms == 100,
        ChargeStage::Checking => a matches ChargeAction::ReadStatus(l) && l is TargetC,
        ChargeStage::Begin => false,
        ChargeStage::Over => a is Finish || a is Fail || a is PassError,
    }
}

/// Charging asks for exactly what its stages wait for, and goes from one to the next by
/// what it is told: switches open, a sink on AUX, looks at AUX until it shows VBUS (bit 7
/// of STATUS0; 20 looks at most), a source on TARGET-C, AUX 5 V routed to it, and a last
/// look at TARGET-C. It fails without a supply on AUX or without VBUS from it, passes on
/// the error of an action, and otherwise finishes, saying whether TARGET-C has VBUS.
pub proof fn charge_step_by_step(stage: ChargeStage, e: ChargeEvent)
    ensures
        ({
            let (stage1, action, line) = charge_next(stage, e);
            let shows_vbus = e matches ChargeEvent::Value(v) && v >= 128;
            let found = e matches ChargeEvent::Value(v) && v != 0;
            &&& charge_awaits(stage1, action)
            &&& e is Failed && (stage is AllOff || stage is AuxSink || stage is AuxPoll || stage
                is TargetSource || stage is Routing || stage is Checking) ==> action is PassError
            &&& stage is Begin ==> stage1 is AllOff
            &&& !(e is Failed) && stage is AllOff ==> stage1 is AuxSink
            &&& !(e is Failed) && stage is AuxSink ==> (if found {
                stage1 == ChargeStage::AuxPoll(0)
            } else {
                action is Fail
            })
            &&& !(e is Failed) ==> (stage matches ChargeStage::AuxPoll(n) ==> (if shows_vbus {
                stage1 is TargetSource
            } else {
                stage1 == ChargeStage::AuxPause(n)
            }))
            &&& stage matches ChargeStage::AuxPause(n) ==> (if n < 19 {
                stage1 == ChargeStage::AuxPoll((n + 1) as u8)
            } else {
                action is Fail
            })
            &&& !(e is Failed) && stage is TargetSource ==> stage1 is Routing
            &&& !(e is Failed) && stage is Routing ==> stage1 is Settling
            &&& stage is Settling ==> stage1 is Checking
            &&& !(e is Failed) && stage is Checking ==> action is Finish && (line matches Some(l) && (
            shows_vbus <==> l
                == "TARGET-C: 5 V VBUS present + source presented \u{2014} the device should now be charging."@))
            &&& action is Fail ==> line is Some
        }),
{
    if stage is Checking {
        reveal_strlit("TARGET-C: 5 V VBUS present + source presented \u{2014} the device should now be charging.");
        reveal_strlit("TARGET-C STATUS0=0x");
        let other = charge_next(stage, e).2->0;
        if !(e is Failed) && e.number() < 128 {
            assert(other[8] == ' ');
        }
    }
}

/// A run of `charge` from its beginning: the stage before each step and after the last,
/// and how the action before each step went.
pub struct ChargeRun {
    pub stages: Seq<ChargeStage>,
    pub events: Seq<ChargeEvent>,
}

impl ChargeRun {
    /// What step `k` asks for.
    pub open spec fn action(self, k: int) -> ChargeAction {
        charge_next(self.stages[k], self.events[k]).1
    }

    /// Whether each stage follows from the one before it.
    pub open spec fn follows(self) -> bool {
        &&& self.stages.len() == self.events.len() + 1
        &&& self.stages[0] == ChargeStage::Begin
        &&& forall|k: int|
            #![trigger self.events[k]]
            0 <= k < self.events.len() ==> self.stages[k + 1] == charge_next(
                self.stages[k],
                self.events[k],
            ).0
    }

    /// The switch setting that the first `n` steps asked for last, if they asked for any.
    pub open spec fn setting(self, n: int) -> Option<VbusSwitches>
        decreases n,
    {
        if n <= 0 {
            None
        } else {
            match self.action(n - 1) {
                ChargeAction::SetSwitches(s) => Some(s),
                _ => self.setting(n - 1),
            }
        }
    }

    /// Whether one of the first `n` steps was told that AUX has VBUS, having asked it.
    pub open spec fn saw_aux(self, n: int) -> bool {
        exists|k: int|
            1 <= k < n && self.action(k - 1) == ChargeAction::ReadStatus(PdLine::Aux) && (
            #[trigger] self.events[k] matches ChargeEvent::Value(v) && v >= 128)
    }

    /// Whether one of the first `n` steps presented a source on TARGET-C.
    pub open spec fn presented(self, n: int) -> bool {
        exists|k: int|
            0 <= k < n && #[trigger] self.action(k) == ChargeAction::SetupSource(PdLine::TargetC)
    }
}

proof fn lemma_charge_run(run: ChargeRun, n: int)
    requires
        run.follows(),
        0 <= n <= run.events.len(),
    ensures
        ({
            let stage = run.stages[n];
            let routed = stage is Routing || stage is Settling || stage is Checking;
            &&& stage is Begin ==> run.setting(n) is None
            &&& (stage is AllOff || stage is AuxSink || stage is AuxPoll || stage is AuxPause || stage
                is TargetSource) ==> (run.setting(n) matches Some(s) && link::is_open(s))
            &&& routed ==> (run.setting(n) matches Some(s) && link::feeds_from_aux(s))
            &&& stage is TargetSource || routed ==> run.saw_aux(n) && run.presented(n)
            &&& stage is AuxPoll ==> n > 0 && run.action(n - 1) == ChargeAction::ReadStatus(
                PdLine::Aux,
            )
        }),
    decreases n,
{
    if n > 0 {
        let k = n - 1;
        lemma_charge_run(run, k);
        let e = run.events[k];
        charge_step_by_step(run.stages[k], e);
        assert(run.stages[k + 1] == charge_next(run.stages[k], e).0);
        if run.stages[n] is TargetSource {
            assert(run.stages[k] is AuxPoll);
            assert(run.action(k) == ChargeAction::SetupSource(PdLine::TargetC));
            assert(run.events[k] matches ChargeEvent::Value(v) && v >= 128);
        }
        if run.stages[k] is TargetSource || run.stages[k] is Routing || run.stages[k] is Settling {
            let j = choose|j: int|
                0 <= j < k && #[trigger] run.action(j) == ChargeAction::SetupSource(
                    PdLine::TargetC,
                );
            assert(run.action(j) == ChargeAction::SetupSource(PdLine::TargetC));
            let i = choose|i: int|
                1 <= i < k && run.action(i - 1) == ChargeAction::ReadStatus(PdLine::Aux) && (
                #[trigger] run.events[i] matches ChargeEvent::Value(v) && v >= 128);
            assert(run.events[i] matches ChargeEvent::Value(v) && v >= 128);
        }
    }
}

/// Charging does charge: a run that comes to its end without failing has AUX 5 V switched
/// to TARGET-C as its last setting, after AUX was asked and showed VBUS and a source was
/// presented on TARGET-C. No other setting is ever asked for, but every switch open at
/// the beginning.
pub proof fn charging_charges(run: ChargeRun, n: int)
    requires
        run.follows(),
        0 <= n < run.events.len(),
        !(run.stages[n] is Over),
    ensures
        run.action(n) is Finish ==> {
            &&& run.setting(n) matches Some(s) && link::feeds_from_aux(s)
            &&& run.saw_aux(n)
            &&& run.presented(n)
        },
        run.action(n) matches ChargeAction::SetSwitches(s) ==> link::is_open(s) && n == 0
            || link::feeds_from_aux(s) && run.saw_aux(n + 1) && run.presented(n),
{
    lemma_charge_run(run, n);
    lemma_charge_begin(run, n);
    charge_step_by_step(run.stages[n], run.events[n]);
    if run.stages[n] is TargetSource {
        let i = choose|i: int|
            1 <= i < n && run.action(i - 1) == ChargeAction::ReadStatus(PdLine::Aux) && (
            #[trigger] run.events[i] matches ChargeEvent::Value(v) && v >= 128);
        assert(run.events[i] matches ChargeEvent::Value(v) && v >= 128);
    }
}

proof fn lemma_charge_begin(run: ChargeRun, n: int)
    requires
        run.follows(),
        0 <= n <= run.events.len(),
    ensures
        run.stages[n] is Begin <==> n == 0,
    decreases n,
{
    if n > 0 {
        lemma_charge_begin(run, n - 1);
        charge_step_by_step(run.stages[n - 1], run.events[n - 1]);
        assert(run.stages[n - 1 + 1] == charge_next(run.stages[n - 1], run.events[n - 1]).0);
    }
}

/// The PHY role to present before sending.
#[derive(Debug, Clone, Copy, PartialEq, Eq, Structural)]
pub enum Role {
    /// Present Rp (we are the power source / DFP).
    Source,
    /// Present Rd (we are the sink / UFP).
    Sink,
    /// Leave the PHY as-is; just transmit.
    Raw,
}

/// How far `pd-send` has come: what is being waited for.
#[derive(Debug, Clone, Copy, PartialEq, Eq, Structural)]
pub enum SendStage {
    Begin,
    /// VBUS is being brought up.
    BringingUp,
    /// The PHY role is being set up.
    SettingUp,
    /// A contract is being negotiated.
    Negotiating,
    /// The raw message at this place is being sent.
    Raw(usize),
    /// Replies to the raw message at this place are being drained.
    RawDrain(usize),
    /// The VDM is being sent.
    VdmSend,
    /// Replies to the VDM are being drained.
    VdmDrain,
    /// Replies are being traced.
    Listening,
    Over,
}

/// What `pd-send` does next.
#[derive(Debug)]
pub enum SendStep {
    /// Bring up VBUS from this source, and report the label of the source used.
    BringUpVbus(VbusSource),
    /// Present as a source, and report the CC line found.
    SetupSource,
    /// Present as a sink, and report the CC line found.
    SetupSink,
    /// Negotiate as a source, advertising [`PDO_5V_1A5`], and report the outcome.
    Negotiate,
    /// Transmit a message and record it.
    Send(PdMessage),
    /// Read and record replies for this many milliseconds.
    Drain(u64),
    /// Read and record replies for the listening time.
    Listen,
    Finish,
    /// It cannot go on, for the reason given in the last line.
    Fail,
    /// The action before this failed: return its error.
    PassError,
}

/// What a [`SendStep`] holds.
pub enum SendStepView {
    BringUpVbus(VbusSource),
    SetupSource,
    SetupSink,
    Negotiate,
    Send(Seq<u8>),
    Drain(u64),
    Listen,
    Finish,
    Fail,
    PassError,
}

impl View for SendStep {
    type V = SendStepView;

    open spec fn view(&self) -> SendStepView {
        match *self {
            SendStep::BringUpVbus(v) => SendStepView::BringUpVbus(v),
            SendStep::SetupSource => SendStepView::SetupSource,
            SendStep::SetupSink => SendStepView::SetupSink,
            SendStep::Negotiate => SendStepView::Negotiate,
            SendStep::Send(m) => SendStepView::Send(m@),
            SendStep::Drain(ms) => SendStepView::Drain(ms),
            SendStep::Listen => SendStepView::Listen,
            SendStep::Finish => SendStepView::Finish,
            SendStep::Fail => SendStepView::Fail,
            SendStep::PassError => SendStepView::PassError,
        }
    }
}

/// How an action of `pd-send` went.
#[derive(Debug, Clone, Copy)]
pub enum SendEvent {
    /// It was done.
    Done,
    /// It failed.
    Failed,
    /// VBUS is up, from the labelled source.
    Up(&'static str),
    /// The CC line found.
    Cc(u8),
    /// Whether a Request arrived.
    Requested(bool),
}

/// A run of `pd-send`: where it sends, in which role, and what.
pub struct SendSession {
    pub port: PdPort,
    pub role: Role,
    pub vbus: VbusSource,
    pub negotiate: bool,
    /// Overrides the message header of the VDM.
    pub header: Option<u16>,
    pub plan: SendPlan,
}

/// The label of a port.
pub open spec fn port_label(p: PdPort) -> Seq<char> {
    match p {
        PdPort::TargetC => "TARGET-C"@,
        PdPort::Aux => "AUX"@,
    }
}

/// The message that carries the session's VDM, and the link after building it.
pub open spec fn vdm_message(s: SendSession, l: PdLinkView) -> (Seq<u8>, PdLinkView) {
    link::vdm_sent(s.plan.vdm->0, s.header, l)
}

/// What happens from the raw message at place `i` on: the raw messages, then the
/// VDM, then listening.
pub open spec fn send_from(s: SendSession, i: int, l: PdLinkView) -> (
    SendStage,
    PdLinkView,
    SendStepView,
) {
    if 0 <= i < s.plan.raws@.len() {
        (SendStage::Raw(i as usize), l, SendStepView::Send(s.plan.raws@[i]@))
    } else if s.plan.vdm is Some {
        let (m, l1) = vdm_message(s, l);
        (SendStage::VdmSend, l1, SendStepView::Send(m))
    } else {
        (SendStage::Listening, l, SendStepView::Listen)
    }
}

/// What happens once the PHY role is set up: a negotiation if asked for (and
/// acting as a source), then the messages.
pub open spec fn after_role(s: SendSession, l: PdLinkView) -> (
    SendStage,
    PdLinkView,
    SendStepView,
    Seq<Seq<char>>,
) {
    if s.negotiate && s.role == Role::Source {
        (SendStage::Negotiating, l, SendStepView::Negotiate, Seq::empty())
    } else {
        let (stage, l1, step) = send_from(s, 0, l);
        (
            stage,
            l1,
            step,
            if s.negotiate {
                seq!["note: --negotiate only applies to --role source; skipping."@]
            } else {
                Seq::empty()
            },
        )
    }
}

/// The next stage, link, step and lines to print of `pd-send`, given how the action
/// before went.
pub open spec fn send_next(s: SendSession, stage: SendStage, l: PdLinkView, e: SendEvent) -> (
    SendStage,
    PdLinkView,
    SendStepView,
    Seq<Seq<char>>,
) {
    let none = Seq::<Seq<char>>::empty();
    if e == SendEvent::Failed && stage != SendStage::Begin && stage != SendStage::Over {
        (SendStage::Over, l, SendStepView::PassError, none)
    } else {
        match stage {
            SendStage::Begin => match s.role {
                Role::Source => if s.vbus != VbusSource::Untouched && s.port == PdPort::TargetC {
                    (SendStage::BringingUp, l, SendStepView::BringUpVbus(s.vbus), none)
                } else {
                    (SendStage::SettingUp, l, SendStepView::SetupSource, none)
                },
                Role::Sink => (SendStage::SettingUp, l, SendStepView::SetupSink, none),
                Role::Raw => after_role(s, l),
            },
            SendStage::BringingUp => (
                SendStage::SettingUp,
                l,
                SendStepView::SetupSource,
                match e {
                    SendEvent::Up(label) => seq![
                        "VBUS on "@ + port_label(s.port) + " via "@ + label@ + "."@,
                    ],
                    _ => none,
                },
            ),
            SendStage::SettingUp => {
                let cc: u8 = match e {
                    SendEvent::Cc(cc) => cc,
                    _ => 0,
                };
                if cc == 0 {
                    (
                        SendStage::Over,
                        l,
                        SendStepView::Fail,
                        seq![
                            if s.role == Role::Source {
                                "no PD sink detected on "@ + port_label(s.port)
                                    + " \u{2014} is the device plugged in?"@
                            } else {
                                "no source detected on "@ + port_label(s.port)
                            },
                        ],
                    )
                } else {
                    let (stage1, l1, step, lines) = after_role(s, l);
                    let line = (if s.role == Role::Source {
                        "Presenting source (Rp) on "@
                    } else {
                        "Presenting sink (Rd) on "@
                    }) + port_label(s.port) + " CC"@ + text::decimal(cc as nat) + "."@;
                    (stage1, l1, step, seq![line] + lines)
                }
            },
            SendStage::Negotiating => {
                let (stage1, l1, step) = send_from(s, 0, l);
                (
                    stage1,
                    l1,
                    step,
                    seq![
                        if e == SendEvent::Requested(true) {
                            "Got a Request from the sink \u{2014} two-way PD achieved!"@
                        } else {
                            "No Request from sink yet; sending the rest without a contract."@
                        },
                    ],
                )
            },
            SendStage::Raw(i) => (SendStage::RawDrain(i), l, SendStepView::Drain(150), none),
            SendStage::RawDrain(i) => {
                let (stage1, l1, step) = send_from(s, i + 1, l);
                (stage1, l1, step, none)
            },
            SendStage::VdmSend => (SendStage::VdmDrain, l, SendStepView::Drain(150), none),
            SendStage::VdmDrain => (SendStage::Listening, l, SendStepView::Listen, none),
            SendStage::Listening => (SendStage::Over, l, SendStepView::Finish, none),
            SendStage::Over => (SendStage::Over, l, SendStepView::Finish, none),
        }
    }
}

impl SendSession {
    fn send_from(&self, i: usize, l: &mut PdLink) -> (r: (SendStage, SendStep))
        ensures
            (r.0, final(l)@, r.1@) == send_from(*self, i as int, old(l)@),
    {
        if i < self.plan.raws.len() {
            let m = PdMessage { raw: slice_to_vec(self.plan.raws[i].raw.as_slice()) };
            return (SendStage::Raw(i), SendStep::Send(m));
        }
        match &self.plan.vdm {
            Some(v) => {
                let m = l.send_vdm(v, self.header);
                (SendStage::VdmSend, SendStep::Send(m))
            },
            None => (SendStage::Listening, SendStep::Listen),
        }
    }

    fn after_role(&self, l: &mut PdLink, lines: &mut Vec<String>) -> (r: (SendStage, SendStep))
        ensures
            ({
                let (stage, l1, step, more) = after_role(*self, old(l)@);
                &&& r.0 == stage
                &&& final(l)@ == l1
                &&& r.1@ == step
                &&& descriptors::text_views(final(lines)@) == descriptors::text_views(old(lines)@)
                    + more
            }),
    {
        let ghost before = lines@;
        if self.negotiate {
            if self.role == Role::Source {
                assert(descriptors::text_views(lines@) + Seq::<Seq<char>>::empty()
                    =~= descriptors::text_views(before));
                return (SendStage::Negotiating, SendStep::Negotiate);
            }
            lines.push("note: --negotiate only applies to --role source; skipping.".to_owned());
        }
        assert(descriptors::text_views(lines@) =~= descriptors::text_views(before) + after_role(
            *self,
            l@,
        ).3);
        self.send_from(0, l)
    }

    /// Decide what `pd-send` does and prints next, given how the action before went
    /// ([`SendEvent::Done`] to begin with).
    pub fn step(&self, stage: SendStage, l: &mut PdLink, e: SendEvent) -> (r: (
        SendStage,
        SendStep,
        Vec<String>,
    ))
        ensures
            ({
                let (stage1, l1, step, lines) = send_next(*self, stage, old(l)@, e);
                &&& r.0 == stage1
                &&& final(l)@ == l1
                &&& r.1@ == step
                &&& descriptors::text_views(r.2@) == lines
            }),
    {
        let mut lines: Vec<String> = Vec::new();
        assert(descriptors::text_views(lines@) =~= Seq::<Seq<char>>::empty());
        let failed = match e {
            SendEvent::Failed => true,
            _ => false,
        };
        if failed && stage != SendStage::Begin && stage != SendStage::Over {
            return (SendStage::Over, SendStep::PassError, lines);
        }
        match stage {
            SendStage::Begin => match self.role {
                Role::Source => {
                    if self.vbus != VbusSource::Untouched && self.port == PdPort::TargetC {
                        (SendStage::BringingUp, SendStep::BringUpVbus(self.vbus), lines)
                    } else {
                        (SendStage::SettingUp, SendStep::SetupSource, lines)
                    }
                },
                Role::Sink => (SendStage::SettingUp, SendStep::SetupSink, lines),
                Role::Raw => {
                    let (stage1, step) = self.after_role(l, &mut lines);
                    assert(descriptors::text_views(lines@) =~= after_role(*self, old(l)@).3);
                    (stage1, step, lines)
                },
            },
            SendStage::BringingUp => {
                if let SendEvent::Up(label) = e {
                    let mut s = "VBUS on ".to_owned();
                    s.append(port_name(self.port));
                    s.append(" via ");
                    s.append(label);
                    s.append(".");
                    lines.push(s);
                    assert(descriptors::text_views(lines@) =~= seq![s@]);
                }
                (SendStage::SettingUp, SendStep::SetupSource, lines)
            },
            SendStage::SettingUp => {
                let cc: u8 = match e {
                    SendEvent::Cc(cc) => cc,
                    _ => 0,
                };
                if cc == 0 {
                    let s = if self.role == Role::Source {
                        let mut s = "no PD sink detected on ".to_owned();
                        s.append(port_name(self.port));
                        s.append(" \u{2014} is the device plugged in?");
                        s
                    } else {
                        let mut s = "no source detected on ".to_owned();
                        s.append(port_name(self.port));
                        s
                    };
                    lines.push(s);
                    assert(descriptors::text_views(lines@) =~= seq![s@]);
                    return (SendStage::Over, SendStep::Fail, lines);
                }
                let mut s = if self.role == Role::Source {
                    "Presenting source (Rp) on ".to_owned()
                } else {
                    "Presenting sink (Rd) on ".to_owned()
                };
                s.append(port_name(self.port));
                s.append(" CC");
                text::push_decimal(&mut s, cc as u64);
                s.append(".");
                lines.push(s);
                assert(descriptors::text_views(lines@) =~= seq![s@]);
                let (stage1, step) = self.after_role(l, &mut lines);
                (stage1, step, lines)
            },
            SendStage::Negotiating => {
                let got = match e {
                    SendEvent::Requested(r) => r,
                    _ => false,
                };
                let s = if got {
                    "Got a Request from the sink \u{2014} two-way PD achieved!".to_owned()
                } else {
                    "No Request from sink yet; sending the rest without a contract.".to_owned()
                };
                lines.push(s);
                assert(descriptors::text_views(lines@) =~= seq![s@]);
                let (stage1, step) = self.send_from(0, l);
                (stage1, step, lines)
            },
            SendStage::Raw(i) => (SendStage::RawDrain(i), SendStep::Drain(150), lines),
            SendStage::RawDrain(i) => {
                let next: usize = if i < self.plan.raws.len() {
                    i + 1
                } else {
                    i
                };
                let (stage1, step) = self.send_from(next, l);
                (stage1, step, lines)
            },
            SendStage::VdmSend => (SendStage::VdmDrain, SendStep::Drain(150), lines),
            SendStage::VdmDrain => (SendStage::Listening, SendStep::Listen, lines),
            SendStage::Listening => (SendStage::Over, SendStep::Finish, lines),
            SendStage::Over => (SendStage::Over, SendStep::Finish, lines),
        }
    }
}

/// Each step of `pd-send` sends at most one message, and only the one whose turn it
/// is: the first raw message once the role is set up, each other one after the drain
/// of the one before it, and the VDM after the last. VBUS is touched only by a source
/// on TARGET-C that was not told to leave it alone.
pub proof fn each_step_sends_what_is_next(
    s: SendSession,
    stage: SendStage,
    l: PdLinkView,
    e: SendEvent,
)
    ensures
        ({
            let (stage1, l1, step, lines) = send_next(s, stage, l, e);
            &&& step matches SendStepView::Send(m) ==> {
                ||| stage1 matches SendStage::Raw(i) && i < s.plan.raws@.len() && m
                    == s.plan.raws@[i as int]@
                ||| stage1 == SendStage::VdmSend && s.plan.vdm is Some && m == vdm_message(s, l).0
            }
            &&& stage1 == SendStage::Raw(0) ==> stage is Begin || stage is SettingUp
                || stage is Negotiating
            &&& stage1 matches SendStage::Raw(i) ==> (i == 0 || stage == SendStage::RawDrain(
                (i - 1) as usize,
            ))
            &&& stage1 == SendStage::VdmSend ==> (s.plan.raws@.len() == 0 || (stage matches
                SendStage::RawDrain(i) && i + 1 >= s.plan.raws@.len()))
            &&& step matches SendStepView::BringUpVbus(v) ==> v == s.vbus && v
                != VbusSource::Untouched && s.role == Role::Source && s.port == PdPort::TargetC
        }),
{
    assert(s.plan.raws.len() == s.plan.raws@.len());
}

/// `pd-send` asks for exactly what its stages wait for. A source on TARGET-C has VBUS
/// brought up first, unless it is to be left alone; then the role is set up (none for a
/// raw sender), and the command fails if no partner is found; a source negotiates if it
/// is asked to. After each message replies are drained for 150 ms, and after the last
/// they are listened to. The error of an action ends it. Only a VDM without a header of
/// its own uses up a MessageID, and nothing else of the link changes.
pub proof fn send_step_by_step(s: SendSession, stage: SendStage, l: PdLinkView, e: SendEvent)
    ensures
        ({
            let (stage1, l1, step, lines) = send_next(s, stage, l, e);
            let failed = e == SendEvent::Failed && !(stage is Begin) && !(stage is Over);
            let ready = (stage is Begin && s.role is Raw) || (stage is SettingUp && !failed && (e
                matches SendEvent::Cc(cc) && cc != 0));
            let to_bring_up = s.role is Source && s.port is TargetC && !(s.vbus is Untouched);
            &&& stage1 is BringingUp <==> step is BringUpVbus
            &&& stage1 is SettingUp <==> step is SetupSource || step is SetupSink
            &&& stage1 is Negotiating <==> step is Negotiate
            &&& stage1 is Raw || stage1 is VdmSend <==> step is Send
            &&& stage1 is RawDrain || stage1 is VdmDrain <==> step is Drain
            &&& stage1 is Listening <==> step is Listen
            &&& stage1 is Over <==> step is Finish || step is Fail || step is PassError
            &&& step matches SendStepView::Drain(ms) ==> ms == 150
            &&& failed <==> step is PassError
            &&& step is SetupSink ==> s.role is Sink
            &&& step is SetupSource ==> s.role is Source || stage is BringingUp
            &&& stage is BringingUp && !failed ==> step is SetupSource
            &&& stage is Begin && s.role is Source ==> (step is BringUpVbus <==> to_bring_up)
            &&& stage is Begin && !(s.role is Raw) && !(step is BringUpVbus) ==> stage1 is SettingUp
            &&& step is Fail <==> stage is SettingUp && !failed && !ready
            &&& ready ==> (step is Negotiate <==> s.negotiate && s.role is Source)
            &&& step is Negotiate ==> ready
            &&& ready && !(step is Negotiate) ==> step is Send || step is Listen
            &&& stage is Negotiating && !failed ==> step is Send || step is Listen
            &&& !failed ==> (stage matches SendStage::Raw(i) ==> stage1 == SendStage::RawDrain(i))
            &&& stage is RawDrain && !failed ==> step is Send || step is Listen
            &&& stage is VdmSend && !failed ==> stage1 is VdmDrain
            &&& stage is VdmDrain && !failed ==> step is Listen
            &&& stage is Listening && !failed ==> step is Finish
            &&& step is Listen && !(stage is VdmDrain) ==> s.plan.vdm is None
            &&& l1 == (PdLinkView { msg_id: l1.msg_id, ..l })
            &&& l1.msg_id == (if stage1 is VdmSend && s.header is None {
                (l.msg_id + 1) % 65536
            } else {
                l.msg_id as int
            })
        }),
{
    if s.plan.vdm is Some {
        link::vdm_carries_its_objects(s.plan.vdm->0, s.header, l);
    }
}

/// `pd-send` tells what happened: where VBUS came from, in which role it is on which CC
/// line of the port (or that no partner was found there), and whether a Request came.
pub proof fn sending_is_told_truly(s: SendSession, stage: SendStage, l: PdLinkView, e: SendEvent)
    requires
        e != SendEvent::Failed,
    ensures
        ({
            let (stage1, l1, step, lines) = send_next(s, stage, l, e);
            let port = if s.port is TargetC {
                "TARGET-C"@
            } else {
                "AUX"@
            };
            &&& stage is BringingUp ==> (e matches SendEvent::Up(label) ==> lines == seq![
                "VBUS on "@ + port + " via "@ + label@ + "."@,
            ])
            &&& stage is SettingUp && !(step is Fail) ==> (e matches SendEvent::Cc(cc) && lines[0]
                == (if s.role is Source {
                "Presenting source (Rp) on "@
            } else {
                "Presenting sink (Rd) on "@
            }) + port + " CC"@ + text::decimal(cc as nat) + "."@)
            &&& step is Fail ==> lines == seq![
                if s.role is Source {
                    "no PD sink detected on "@ + port + " \u{2014} is the device plugged in?"@
                } else {
                    "no source detected on "@ + port
                },
            ]
            &&& stage is Negotiating ==> lines == seq![
                if e matches SendEvent::Requested(r) && r {
                    "Got a Request from the sink \u{2014} two-way PD achieved!"@
                } else {
                    "No Request from sink yet; sending the rest without a contract."@
                },
            ]
            &&& (stage is Raw || stage is RawDrain || stage is VdmSend || stage is VdmDrain || stage
                is Listening || stage is Over) ==> lines.len() == 0
        }),
{
}

/// A run of `pd-send` from its beginning: the stage before each step and after the
/// last, the link that each step finds (the actions in between may change it), and
/// how the action before each step went.
pub struct SendRun {
    pub stages: Seq<SendStage>,
    pub links: Seq<PdLinkView>,
    pub events: Seq<SendEvent>,
}

impl SendRun {
    /// What step `k` is.
    pub open spec fn step(self, s: SendSession, k: int) -> SendStepView {
        send_next(s, self.stages[k], self.links[k], self.events[k]).2
    }

    /// Whether each stage follows from the one before it.
    pub open spec fn follows(self, s: SendSession) -> bool {
        &&& self.stages.len() == self.events.len() + 1
        &&& self.links.len() == self.events.len()
        &&& self.stages[0] == SendStage::Begin
        &&& forall|k: int|
            #![trigger self.events[k]]
            0 <= k < self.events.len() ==> self.stages[k + 1] == send_next(
                s,
                self.stages[k],
                self.links[k],
                self.events[k],
            ).0
    }

    /// The messages that the first `n` steps send, in order.
    pub open spec fn sent(self, s: SendSession, n: int) -> Seq<Seq<u8>>
        decreases n,
    {
        if n <= 0 {
            Seq::empty()
        } else {
            match self.step(s, n - 1) {
                SendStepView::Send(m) => self.sent(s, n - 1).push(m),
                _ => self.sent(s, n - 1),
            }
        }
    }

    /// Whether step `k` ends the run early: the action before it failed, or no
    /// partner was found.
    pub open spec fn breaks_off(self, s: SendSession, k: int) -> bool {
        self.events[k] == SendEvent::Failed || self.step(s, k) == SendStepView::Fail
    }

    /// Whether step `k` sends the VDM, as the message `m`.
    pub open spec fn sends_vdm(self, s: SendSession, k: int, m: Seq<u8>) -> bool {
        &&& self.stages[k + 1] == SendStage::VdmSend
        &&& self.step(s, k) == SendStepView::Send(m)
        &&& m == vdm_message(s, self.links[k]).0
    }
}

/// How many messages there are to send.
pub open spec fn send_total(s: SendSession) -> nat {
    s.plan.raws@.len() + (if s.plan.vdm is Some {
        1nat
    } else {
        0
    })
}

/// How many messages have been sent on reaching a stage, where the stage tells.
pub open spec fn sent_by(s: SendSession, stage: SendStage) -> Option<nat> {
    match stage {
        SendStage::Begin | SendStage::BringingUp | SendStage::SettingUp
        | SendStage::Negotiating => Some(0),
        SendStage::Raw(i) => Some((i + 1) as nat),
        SendStage::RawDrain(i) => Some((i + 1) as nat),
        SendStage::VdmSend | SendStage::VdmDrain | SendStage::Listening => Some(send_total(s)),
        SendStage::Over => None,
    }
}

/// How far along a stage is.
pub open spec fn send_rank(s: SendSession, stage: SendStage) -> int {
    let n = s.plan.raws@.len() as int;
    match stage {
        SendStage::Begin => 0,
        SendStage::BringingUp => 1,
        SendStage::SettingUp => 2,
        SendStage::Negotiating => 3,
        SendStage::Raw(i) => 4 + 2 * i,
        SendStage::RawDrain(i) => 5 + 2 * i,
        SendStage::VdmSend => 4 + 2 * n,
        SendStage::VdmDrain => 5 + 2 * n,
        SendStage::Listening => 6 + 2 * n,
        SendStage::Over => 7 + 2 * n,
    }
}

/// Whether a stage can be reached.
pub open spec fn send_reachable(s: SendSession, stage: SendStage) -> bool {
    match stage {
        SendStage::Raw(i) | SendStage::RawDrain(i) => i < s.plan.raws@.len(),
        SendStage::VdmSend | SendStage::VdmDrain => s.plan.vdm is Some,
        _ => true,
    }
}

/// One step keeps count, and comes further unless the run is over.
proof fn lemma_send_step(s: SendSession, stage: SendStage, l: PdLinkView, e: SendEvent)
    requires
        send_reachable(s, stage),
    ensures
        ({
            let (stage1, l1, step, lines) = send_next(s, stage, l, e);
            let more: nat = if step is Send {
                1
            } else {
                0
            };
            &&& send_reachable(s, stage1)
            &&& stage != SendStage::Over ==> send_rank(s, stage1) > send_rank(s, stage)
            &&& stage == SendStage::Over ==> stage1 == SendStage::Over && !(step is Send)
            &&& sent_by(s, stage1) matches Some(n) ==> sent_by(s, stage) == Some((n - more) as nat)
                && n >= more
            &&& stage1 == SendStage::Over ==> !(step is Send)
            &&& (stage1 == SendStage::Over && stage != SendStage::Over) ==> (stage
                == SendStage::Listening || (e == SendEvent::Failed || step == SendStepView::Fail))
            &&& step matches SendStepView::Send(m) ==> {
                let n = (sent_by(s, stage1)->0 - 1) as int;
                if n < s.plan.raws@.len() {
                    m == s.plan.raws@[n]@
                } else {
                    n == s.plan.raws@.len() && stage1 == SendStage::VdmSend && m == vdm_message(
                        s,
                        l,
                    ).0
                }
            }
        }),
{
    assert(s.plan.raws.len() == s.plan.raws@.len());
}

proof fn lemma_send_run(s: SendSession, run: SendRun, n: int)
    requires
        run.follows(s),
        0 <= n <= run.events.len(),
    ensures
        ({
            let sent = run.sent(s, n);
            let raws = s.plan.raws@;
            &&& send_reachable(s, run.stages[n])
            &&& run.stages[n] != SendStage::Over ==> n <= send_rank(s, run.stages[n])
            &&& sent_by(s, run.stages[n]) matches Some(c) ==> sent.len() == c
            &&& sent.len() <= send_total(s)
            &&& forall|i: int|
                0 <= i < sent.len() && i < raws.len() ==> #[trigger] sent[i] == raws[i]@
            &&& sent.len() > raws.len() ==> exists|k: int|
                0 <= k < n && #[trigger] run.sends_vdm(s, k, sent[raws.len() as int])
            &&& run.stages[n] == SendStage::Over ==> sent.len() == send_total(s) || exists|k: int|
                0 <= k < n && #[trigger] run.breaks_off(s, k)
        }),
    decreases n,
{
    if n > 0 {
        let k = n - 1;
        lemma_send_run(s, run, k);
        let stage1 = send_next(s, run.stages[k], run.links[k], run.events[k]).0;
        assert(run.stages[k + 1] == stage1);
        lemma_send_step(s, run.stages[k], run.links[k], run.events[k]);
        let before = run.sent(s, k);
        let sent = run.sent(s, n);
        let at = s.plan.raws@.len() as int;
        if run.step(s, k) is Send {
            let m = run.step(s, k)->Send_0;
            assert(sent == before.push(m));
            if before.len() == at {
                assert(run.sends_vdm(s, k, sent[at]));
            }
        }
        if sent.len() > at && before.len() > at {
            let j = choose|j: int| 0 <= j < k && #[trigger] run.sends_vdm(s, j, before[at]);
            assert(run.sends_vdm(s, j, sent[at]));
        }
        if stage1 == SendStage::Over {
            if run.stages[k] == SendStage::Over {
                if sent.len() != send_total(s) {
                    let j = choose|j: int| 0 <= j < k && #[trigger] run.breaks_off(s, j);
                    assert(run.breaks_off(s, j));
                }
            } else if run.stages[k] != SendStage::Listening {
                assert(run.breaks_off(s, k));
            }
        }
    }
}

/// `pd-send` sends exactly what was planned: along any run from the beginning, the
/// messages sent are the raw ones verbatim, in order, then the VDM if there is one,
/// and nothing more. All of them have been sent when the replies are listened to, and
/// when the run is over without having broken off. Every run is over after a number of
/// steps that the plan bounds.
pub proof fn sends_what_was_planned(s: SendSession, run: SendRun)
    requires
        run.follows(s),
    ensures
        ({
            let sent = run.sent(s, run.events.len() as int);
            let raws = s.plan.raws@;
            &&& sent.len() <= send_total(s)
            &&& forall|i: int|
                0 <= i < sent.len() && i < raws.len() ==> #[trigger] sent[i] == raws[i]@
            &&& sent.len() > raws.len() ==> exists|k: int|
                0 <= k < run.events.len() && #[trigger] run.sends_vdm(
                    s,
                    k,
                    sent[raws.len() as int],
                )
            &&& run.stages.last() == SendStage::Listening ==> sent.len() == send_total(s)
            &&& (run.stages.last() == SendStage::Over && forall|k: int|
                0 <= k < run.events.len() ==> !#[trigger] run.breaks_off(s, k)) ==> sent.len()
                == send_total(s)
            &&& run.events.len() >= 7 + 2 * raws.len() ==> run.stages.last() == SendStage::Over
        }),
{
    lemma_send_run(s, run, run.events.len() as int);
}

/// The lines that close `pd-send`: whether the partner transmitted (BMC activity)
/// and whether a good message arrived, and what it means if none did.
pub open spec fn activity_text(irq: u8, s0: u8) -> Seq<Seq<char>> {
    let summary = "  partner activity: BMC="@ + text::decimal(((irq / 64) % 2) as nat)
        + " goodCRC="@ + text::decimal(((irq / 16) % 2) as nat) + "  (INTERRUPT=0x"@
        + text::hex_fixed(irq as nat, 2) + ", STATUS0=0x"@ + text::hex_fixed(s0 as nat, 2)
        + ", VBUS="@ + presence(s0) + ")"@;
    if (irq / 16) % 2 == 1 {
        seq![summary]
    } else if (irq / 64) % 2 == 1 {
        seq![
            summary,
            "  note: the partner IS transmitting (BMC=1) but no message decoded (goodCRC=0) \u{2014} messages are arriving garbled. Likely CC polarity for RX, SpecRev, or we're colliding by transmitting over its replies (INTERRUPT collision bit 0x02)."@,
        ]
    } else {
        seq![
            summary,
            "  note: no BMC activity from the partner \u{2014} it may have fallen back to Type-C 5 V before our caps arrived, or isn't running PD on this CC."@,
        ]
    }
}

/// The report on the partner shows BMC activity (bit 6 of INTERRUPT), a good CRC (bit 4)
/// and VBUS (bit 7 of STATUS0), whatever the other bits are. A note follows exactly if
/// there was no good CRC: on garbled messages if there was activity, else on silence.
pub proof fn activity_shows_the_bits(
    top: u8,
    activity: u8,
    bit5: u8,
    crc: u8,
    low: u8,
    vbus: u8,
    rest: u8,
)
    requires
        top < 2,
        activity < 2,
        bit5 < 2,
        crc < 2,
        low < 16,
        vbus < 2,
        rest < 128,
    ensures
        ({
            let irq = 128 * top + 64 * activity + 32 * bit5 + 16 * crc + low;
            let s0 = 128 * vbus + rest;
            let lines = activity_text(irq as u8, s0 as u8);
            &&& lines[0] == "  partner activity: BMC="@ + text::decimal(activity as nat)
                + " goodCRC="@ + text::decimal(crc as nat) + "  (INTERRUPT=0x"@ + text::hex_fixed(
                irq as nat,
                2,
            ) + ", STATUS0=0x"@ + text::hex_fixed(s0 as nat, 2) + ", VBUS="@ + (if vbus == 1 {
                "present"@
            } else {
                "absent"@
            }) + ")"@
            &&& crc == 1 <==> lines.len() == 1
            &&& crc == 0 ==> lines.len() == 2 && lines[1] == (if activity == 1 {
                "  note: the partner IS transmitting (BMC=1) but no message decoded (goodCRC=0) \u{2014} messages are arriving garbled. Likely CC polarity for RX, SpecRev, or we're colliding by transmitting over its replies (INTERRUPT collision bit 0x02)."@
            } else {
                "  note: no BMC activity from the partner \u{2014} it may have fallen back to Type-C 5 V before our caps arrived, or isn't running PD on this CC."@
            })
        }),
{
    let irq = 128 * top + 64 * activity + 32 * bit5 + 16 * crc + low;
    assert(irq == 64 * (2 * top + activity) + (32 * bit5 + 16 * crc + low));
    assert(irq / 64 == 2 * top + activity);
    assert(irq == 16 * (8 * top + 4 * activity + 2 * bit5 + crc) + low);
    assert(irq / 16 == 8 * top + 4 * activity + 2 * bit5 + crc);
}

/// The lines that close `pd-send`.
pub fn activity_lines(irq: u8, s0: u8) -> (out: Vec<String>)
    ensures
        descriptors::text_views(out@) == activity_text(irq, s0),
{
    let mut s = "  partner activity: BMC=".to_owned();
    text::push_decimal(&mut s, ((irq / 64) % 2) as u64);
    s.append(" goodCRC=");
    text::push_decimal(&mut s, ((irq / 16) % 2) as u64);
    s.append("  (INTERRUPT=0x");
    text::push_hex(&mut s, irq as u64, 2);
    s.append(", STATUS0=0x");
    text::push_hex(&mut s, s0 as u64, 2);
    s.append(", VBUS=");
    s.append(presence_of(s0));
    s.append(")");
    let mut out: Vec<String> = Vec::new();
    out.push(s);
    if (irq / 16) % 2 == 0 {
        if (irq / 64) % 2 == 1 {
            out.push(
                "  note: the partner IS transmitting (BMC=1) but no message decoded (goodCRC=0) \u{2014} messages are arriving garbled. Likely CC polarity for RX, SpecRev, or we're colliding by transmitting over its replies (INTERRUPT collision bit 0x02).".to_owned(),
            );
        } else {
            out.push(
                "  note: no BMC activity from the partner \u{2014} it may have fallen back to Type-C 5 V before our caps arrived, or isn't running PD on this CC.".to_owned(),
            );
        }
    }
    assert(descriptors::text_views(out@) =~= activity_text(irq, s0));
    out
}

/// How `pd-listen` opens.
pub open spec fn listen_opening_text(
    port: PdPort,
    cc: u8,
    seconds: Seq<char>,
) -> core::result::Result<Seq<char>, Seq<char>> {
    if cc == 0 {
        Err(
            "no USB-C source detected on "@ + port_label(port)
                + " (CC lines idle) \u{2014} plug a charger/source into "@ + port_label(port),
        )
    } else {
        Ok(
            "FUSB302B set as sink on "@ + port_label(port) + " CC"@ + text::decimal(cc as nat)
                + "; listening "@ + seconds + "s for PD messages..."@,
        )
    }
}

/// Listening opens exactly if a CC line is active, and tells the port, the line and for how
/// long; without one it is told which port has no source.
pub proof fn listening_opens_on_an_active_line(port: PdPort, cc: u8, seconds: Seq<char>)
    ensures
        ({
            let label = if port is TargetC {
                "TARGET-C"@
            } else {
                "AUX"@
            };
            &&& cc != 0 ==> listen_opening_text(port, cc, seconds) == Ok::<_, Seq<char>>(
                "FUSB302B set as sink on "@ + label + " CC"@ + text::decimal(cc as nat)
                    + "; listening "@ + seconds + "s for PD messages..."@,
            )
            &&& cc == 0 ==> listen_opening_text(port, cc, seconds) == Err::<Seq<char>, _>(
                "no USB-C source detected on "@ + label
                    + " (CC lines idle) \u{2014} plug a charger/source into "@ + label,
            )
        }),
{
}

/// How `pd-listen` opens, once a sink is presented on `cc`: what it does for how many
/// seconds, or why it gives up.
pub fn listen_opening(port: PdPort, cc: u8, seconds: &str) -> (r: core::result::Result<
    String,
    String,
>)
    ensures
        match r {
            Ok(s) => listen_opening_text(port, cc, seconds@) == Ok::<_, Seq<char>>(s@),
            Err(s) => listen_opening_text(port, cc, seconds@) == Err::<Seq<char>, _>(s@),
        },
{
    let name = port_name(port);
    if cc == 0 {
        let mut s = "no USB-C source detected on ".to_owned();
        s.append(name);
        s.append(" (CC lines idle) \u{2014} plug a charger/source into ");
        s.append(name);
        return Err(s);
    }
    let mut s = "FUSB302B set as sink on ".to_owned();
    s.append(name);
    s.append(" CC");
    text::push_decimal(&mut s, cc as u64);
    s.append("; listening ");
    s.append(seconds);
    s.append("s for PD messages...");
    Ok(s)
}

/// The lines that open `pd-source`: whether VBUS is there, and a warning if not.
pub open spec fn source_opening_text(cc: u8, s0: u8, seconds: Seq<char>) -> Seq<Seq<char>> {
    let banner = "FUSB302B set as source on CC"@ + text::decimal(cc as nat) + " (VBUS "@ + (if s0
        >= 128 {
        "present"@
    } else {
        "ABSENT"@
    }) + "); advertising Source_Capabilities for "@ + seconds + "s..."@;
    if s0 >= 128 {
        seq![banner]
    } else {
        seq![
            banner,
            "  warning: VBUS not detected \u{2014} a sink won't negotiate without VBUS. Bring it up first (e.g. `usbmagic charge`) or use `pd-send` which can route it."@,
        ]
    }
}

/// Opening `pd-source` tells the CC line and whether VBUS is there (bit 7 of STATUS0), and
/// warns exactly if it is not.
pub proof fn source_opening_shows_vbus(cc: u8, vbus: bool, rest: u8, seconds: Seq<char>)
    requires
        rest < 128,
    ensures
        ({
            let s0 = (if vbus {
                128int
            } else {
                0
            }) + rest;
            let lines = source_opening_text(cc, s0 as u8, seconds);
            &&& lines[0] == "FUSB302B set as source on CC"@ + text::decimal(cc as nat)
                + " (VBUS "@ + (if vbus {
                "present"@
            } else {
                "ABSENT"@
            }) + "); advertising Source_Capabilities for "@ + seconds + "s..."@
            &&& lines.len() == (if vbus {
                1int
            } else {
                2
            })
        }),
{
}

/// How `pd-source` opens, once a source is presented on `cc` and STATUS0 was read: the
/// lines to print, or why it gives up.
pub fn source_opening(port: PdPort, cc: u8, s0: u8, seconds: &str) -> (r: core::result::Result<
    Vec<String>,
    String,
>)
    ensures
        match r {
            Ok(lines) => cc != 0 && descriptors::text_views(lines@) == source_opening_text(
                cc,
                s0,
                seconds@,
            ),
            Err(s) => cc == 0 && s@ == "no PD consumer (sink) detected on "@ + port_label(port)
                + " \u{2014} is the device plugged into "@ + port_label(port) + "?"@,
        },
{
    if cc == 0 {
        let name = port_name(port);
        let mut s = "no PD consumer (sink) detected on ".to_owned();
        s.append(name);
        s.append(" \u{2014} is the device plugged into ");
        s.append(name);
        s.append("?");
        return Err(s);
    }
    let mut s = "FUSB302B set as source on CC".to_owned();
    text::push_decimal(&mut s, cc as u64);
    s.append(" (VBUS ");
    if s0 >= 128 {
        s.append("present");
    } else {
        s.append("ABSENT");
    }
    s.append("); advertising Source_Capabilities for ");
    s.append(seconds);
    s.append("s...");
    let mut lines: Vec<String> = Vec::new();
    lines.push(s);
    if s0 < 128 {
        lines.push(
            "  warning: VBUS not detected \u{2014} a sink won't negotiate without VBUS. Bring it up first (e.g. `usbmagic charge`) or use `pd-send` which can route it.".to_owned(),
        );
    }
    assert(descriptors::text_views(lines@) =~= source_opening_text(cc, s0, seconds@));
    Ok(lines)
}

/// The interfaces of a PD trace file: both ports, in the order of their interface
/// ids.
pub open spec fn port_interfaces() -> Seq<IfaceDescView> {
    seq![
        IfaceDescView {
            name: "TARGET-C"@,
            linktype: LINKTYPE_USB_TYPE_C_PD,
            snaplen: 4096,
        },
        IfaceDescView { name: "AUX"@, linktype: LINKTYPE_USB_TYPE_C_PD, snaplen: 4096 },
    ]
}

/// Each port has its own interface in a PD trace file, at the place of its interface id,
/// under its label, with the link type of PD packets.
pub proof fn ports_have_their_interfaces(p: PdPort)
    ensures
        ({
            let id = link::interface_id(link::line_of(p)) as int;
            &&& port_interfaces().len() == 2
            &&& 0 <= id < 2
            &&& port_interfaces()[id].name == port_label(p)
            &&& port_interfaces()[id].linktype == 304
            &&& port_interfaces()[id].snaplen == 4096
        }),
        port_label(p) == (if p is TargetC {
            "TARGET-C"@
        } else {
            "AUX"@
        }),
{
}

/// Build a PD trace that starts at a wall-clock time, backed by a pcapng stream with
/// both ports as interfaces (0 = TARGET-C, 1 = AUX) if it is to be dumped.
pub fn make_trace(dump: bool, base_unix_us: u64) -> (t: PdTrace)
    ensures
        t@ == (PdTraceView {
            out: if dump {
                Some(pcapng::file_header(port_interfaces()))
            } else {
                None
            },
            base_unix_us,
            count: 0,
        }),
{
    if !dump {
        return PdTrace::new(None, base_unix_us);
    }
    let ifaces: [IfaceDesc; 2] = [
        IfaceDesc { name: "TARGET-C", linktype: LINKTYPE_USB_TYPE_C_PD, snaplen: 4096 },
        IfaceDesc { name: "AUX", linktype: LINKTYPE_USB_TYPE_C_PD, snaplen: 4096 },
    ];
    let w = PcapNgWriter::new(Vec::new(), &ifaces);
    proof {
        assert(pcapng::iface_views(ifaces@) =~= port_interfaces());
        assert(w.out@ =~= pcapng::file_header(port_interfaces()));
    }
    PdTrace::new(Some(w), base_unix_us)
}

} // verus!

//! Bidirectional PD message trace: pretty-print every transmitted and received
//! message, and optionally record it to a pcapng stream under
//! [`LINKTYPE_USB_TYPE_C_PD`](crate::pcapng::LINKTYPE_USB_TYPE_C_PD).

use vstd::prelude::*;
use vstd::slice::slice_to_vec;
use vstd::string::*;

use crate::bytes;
use crate::pcapng;
use crate::pcapng::pd_pseudo_header;
use crate::pcapng::IfaceDescView;
use crate::pcapng::PcapNgWriter;
use crate::pcapng::PdPseudoHeader;
use crate::pcapng::TraceFileView;
use crate::pcapng::TracePacketView;
use crate::pd;
use crate::pd::PdMessage;
use crate::pd::PdMessageClass;
use crate::pd::Pdo;
use crate::text;

pub use crate::pcapng::{PdDirection, PdSop};

verus! {

/// The name of a control message type.
pub open spec fn control_name(t: int) -> Seq<char> {
    if t == 1 {
        "GoodCRC"@
    } else if t == 2 {
        "GotoMin"@
    } else if t == 3 {
        "Accept"@
    } else if t == 4 {
        "Reject"@
    } else if t == 5 {
        "Ping"@
    } else if t == 6 {
        "PS_RDY"@
    } else if t == 7 {
        "Get_Source_Cap"@
    } else if t == 8 {
        "Get_Sink_Cap"@
    } else if t == 9 {
        "DR_Swap"@
    } else if t == 10 {
        "PR_Swap"@
    } else if t == 11 {
        "VCONN_Swap"@
    } else if t == 12 {
        "Wait"@
    } else if t == 13 {
        "Soft_Reset"@
    } else {
        "Control(?)"@
    }
}

/// The name of a data message type.
pub open spec fn data_name(t: int) -> Seq<char> {
    if t == 1 {
        "Source_Capabilities"@
    } else if t == 2 {
        "Request"@
    } else if t == 3 {
        "BIST"@
    } else if t == 4 {
        "Sink_Capabilities"@
    } else if t == 5 {
        "Battery_Status"@
    } else if t == 6 {
        "Alert"@
    } else if t == 15 {
        "Vendor_Defined"@
    } else {
        "Data(?)"@
    }
}

/// The name of a message, given its bytes.
pub open spec fn name_of(raw: Seq<u8>) -> Seq<char> {
    match pd::header_of(raw) {
        None => "(empty)"@,
        Some(h) => match pd::class_of(h) {
            PdMessageClass::Control => control_name((h % 32) as int),
            PdMessageClass::Data => data_name((h % 32) as int),
            PdMessageClass::Extended => "Extended"@,
        },
    }
}

/// Whether a message is a Source_Capabilities message.
pub open spec fn is_source_capabilities(raw: Seq<u8>) -> bool {
    pd::header_of(raw) matches Some(h) && pd::class_of(h) == PdMessageClass::Data && h % 32 == 1
}

/// The message types are named in the order of their numbers, and a type that is not
/// assigned here has no name of its own.
pub proof fn message_types_have_their_names(t: int)
    ensures
        ({
            let control = seq![
                "GoodCRC"@,
                "GotoMin"@,
                "Accept"@,
                "Reject"@,
                "Ping"@,
                "PS_RDY"@,
                "Get_Source_Cap"@,
                "Get_Sink_Cap"@,
                "DR_Swap"@,
                "PR_Swap"@,
                "VCONN_Swap"@,
                "Wait"@,
                "Soft_Reset"@,
            ];
            let data = seq![
                "Source_Capabilities"@,
                "Request"@,
                "BIST"@,
                "Sink_Capabilities"@,
                "Battery_Status"@,
                "Alert"@,
            ];
            &&& control_name(t) == (if 1 <= t <= 13 {
                control[t - 1]
            } else {
                "Control(?)"@
            })
            &&& data_name(t) == (if 1 <= t <= 6 {
                data[t - 1]
            } else if t == 15 {
                "Vendor_Defined"@
            } else {
                "Data(?)"@
            })
        }),
{
}

/// A message's name is read from its first two bytes: the type from the low five bits
/// of the first, what kind of message it is from the high four of the second. Nothing
/// behind them, and no role, revision or MessageID between them, changes it.
pub proof fn name_is_read_from_the_header(raw: Seq<u8>)
    ensures
        raw.len() < 2 ==> name_of(raw) == "(empty)"@ && !is_source_capabilities(raw),
        raw.len() >= 2 ==> {
            let t = raw[0] as int % 32;
            &&& raw[1] >= 128 ==> name_of(raw) == "Extended"@
            &&& raw[1] < 16 ==> name_of(raw) == control_name(t)
            &&& 16 <= raw[1] < 128 ==> name_of(raw) == data_name(t)
            &&& is_source_capabilities(raw) <==> 16 <= raw[1] < 128 && t == 1
        },
{
    if raw.len() >= 2 {
        let h = raw[0] + 256 * raw[1];
        bytes::byte_orders(0, 0, raw[0], raw[1], 0, 0);
        assert(h / 4096 == raw[1] / 16);
        assert(h / 32768 == raw[1] / 128);
        assert(h % 32 == raw[0] % 32) by {
            assert(h == 32 * (8 * raw[1]) + raw[0]);
        }
    }
}

/// Human-readable PD message-type name (control / data / extended).
pub fn pd_message_name(msg: &PdMessage) -> (s: &'static str)
    ensures
        s@ == name_of(msg@),
{
    let mt: u8 = match msg.message_type() {
        Some(t) => t,
        None => 0,
    };
    match msg.class() {
        Some(PdMessageClass::Control) => match mt {
            1 => "GoodCRC",
            2 => "GotoMin",
            3 => "Accept",
            4 => "Reject",
            5 => "Ping",
            6 => "PS_RDY",
            7 => "Get_Source_Cap",
            8 => "Get_Sink_Cap",
            9 => "DR_Swap",
            10 => "PR_Swap",
            11 => "VCONN_Swap",
            12 => "Wait",
            13 => "Soft_Reset",
            _ => "Control(?)",
        },
        Some(PdMessageClass::Data) => match mt {
            1 => "Source_Capabilities",
            2 => "Request",
            3 => "BIST",
            4 => "Sink_Capabilities",
            5 => "Battery_Status",
            6 => "Alert",
            15 => "Vendor_Defined",
            _ => "Data(?)",
        },
        Some(PdMessageClass::Extended) => "Extended",
        None => "(empty)",
    }
}

/// Whether a message is a Source_Capabilities message.
pub(crate) fn has_source_capabilities(msg: &PdMessage) -> (r: bool)
    ensures
        r == is_source_capabilities(msg@),
{
    match msg.header() {
        Some(h) => h / 32768 == 0 && (h / 4096) % 8 != 0 && h % 32 == 1,
        None => false,
    }
}

/// A count of thousandths as a number with two decimals, cut after the second.
pub open spec fn two_decimals(thousandths: int) -> Seq<char> {
    text::decimal((thousandths / 1000) as nat) + "."@ + seq![
        text::digit_char(((thousandths / 100) % 10) as nat),
        text::digit_char(((thousandths / 10) % 10) as nat),
    ]
}

/// The breakdown of one power data object.
pub open spec fn pdo_text(raw: u32) -> Seq<char> {
    let pdo = Pdo { raw };
    match pdo.fixed() {
        Some((mv, ma)) => two_decimals(mv as int) + " V @ "@ + two_decimals(ma as int)
            + " A (fixed)"@,
        None => match pdo.programmable() {
            Some((min_mv, max_mv, max_ma)) => two_decimals(min_mv as int) + "\u{2013}"@
                + two_decimals(max_mv as int) + " V @ "@ + two_decimals(max_ma as int) + " A (PPS)"@,
            None => "0x"@ + text::hex_fixed(raw as nat, 8),
        },
    }
}

/// One line per power data object, numbered from 1.
pub open spec fn pdo_lines(objects: Seq<u32>) -> Seq<char>
    decreases objects.len(),
{
    if objects.len() == 0 {
        Seq::empty()
    } else {
        pdo_lines(objects.drop_last()) + "\n       PDO"@ + text::decimal(objects.len()) + ": "@
            + pdo_text(objects.last())
    }
}

/// The arrow that shows a direction.
pub open spec fn arrow(dir: PdDirection) -> Seq<char> {
    match dir {
        PdDirection::FromDut => "RX <-"@,
        PdDirection::ToDut => "TX ->"@,
    }
}

/// The console text of one message: index, time, direction, name, header, object
/// count and bytes, and for Source_Capabilities the objects one by one.
pub open spec fn message_text(
    index: nat,
    ts: Seq<char>,
    dir: PdDirection,
    raw: Seq<u8>,
) -> Seq<char> {
    let header = match pd::header_of(raw) {
        Some(h) => h,
        None => 0,
    };
    let line = "#"@ + text::pad_right(text::decimal(index), 3) + " ["@ + text::pad_left(ts, 7)
        + "s] "@ + arrow(dir) + " "@ + text::pad_right(name_of(raw), 20) + " hdr=0x"@
        + text::hex_fixed(header as nat, 4) + " obj="@ + text::decimal(((header / 4096) % 8) as nat)
        + " raw="@ + text::hex_bytes(raw);
    if is_source_capabilities(raw) {
        line + pdo_lines(pd::objects_of(raw))
    } else {
        line
    }
}

/// A number with two decimals is the largest such number that is no more than the
/// count of thousandths: the whole part, a point, tenths and hundredths.
pub proof fn two_decimals_round_down(thousandths: int)
    requires
        0 <= thousandths,
    ensures
        ({
            let s = two_decimals(thousandths);
            let n = s.len() - 3;
            let shown = 1000 * text::number(s.take(n), 10) + 100 * text::digit_value(s[n + 1]) + 10
                * text::digit_value(s[n + 2]);
            &&& n > 0
            &&& s[n] == '.'
            &&& '0' <= s[n + 1] <= '9'
            &&& '0' <= s[n + 2] <= '9'
            &&& shown <= thousandths < shown + 10
        }),
{
    reveal_strlit(".");
    let whole = (thousandths / 1000) as nat;
    let s = two_decimals(thousandths);
    let n = s.len() - 3;
    text::decimal_reads_back(whole);
    assert(s.take(n) =~= text::decimal(whole));
}

/// An object of a supply is told in volts and amps: a fixed one (high bits 00) by its
/// 50 mV and 10 mA counts, a programmable one (high bits 1100) by its 100 mV and 50 mA
/// counts, lowest voltage first; any other is shown as its eight hexadecimal digits.
pub proof fn objects_are_told_in_volts_and_amps(raw: u32)
    ensures
        raw < 0x4000_0000 ==> pdo_text(raw) == two_decimals(50 * (raw as int / 1024 % 1024))
            + " V @ "@ + two_decimals(10 * (raw as int % 1024)) + " A (fixed)"@,
        0xC000_0000 <= raw < 0xD000_0000 ==> pdo_text(raw) == two_decimals(
            100 * (raw as int / 256 % 256),
        ) + "\u{2013}"@ + two_decimals(100 * (raw as int / 131072 % 256)) + " V @ "@
            + two_decimals(50 * (raw as int % 128)) + " A (PPS)"@,
        0x4000_0000 <= raw < 0xC000_0000 || 0xD000_0000 <= raw ==> pdo_text(raw) == "0x"@
            + text::hex_fixed(raw as nat, 8),
{
}

/// Every object gets a line of its own, under its number counted from 1, in the order
/// of the message.
pub proof fn objects_are_listed_in_order(objects: Seq<u32>, more: Seq<u32>, next: u32)
    ensures
        pdo_lines(Seq::empty()) == Seq::<char>::empty(),
        pdo_lines(objects.push(next)) == pdo_lines(objects) + "\n       PDO"@ + text::decimal(
            objects.len() + 1,
        ) + ": "@ + pdo_text(next),
        pdo_lines(objects) == pdo_lines(objects + more).take(pdo_lines(objects).len() as int),
        pdo_lines(objects).len() <= pdo_lines(objects + more).len(),
    decreases more.len(),
{
    assert(objects.push(next).drop_last() =~= objects);
    if more.len() == 0 {
        assert(objects + more =~= objects);
        assert(pdo_lines(objects).take(pdo_lines(objects).len() as int) =~= pdo_lines(objects));
    } else {
        objects_are_listed_in_order(objects, more.drop_last(), next);
        assert((objects + more).drop_last() =~= objects + more.drop_last());
        let n = pdo_lines(objects).len() as int;
        assert(pdo_lines(objects + more).take(n) =~= pdo_lines(objects + more.drop_last()).take(n));
    }
}

/// A message's line says, in this order, which message it is, when and which way it
/// went, what it is, what its first two bytes hold (second first) and how many objects
/// they declare, and ends with every byte; what was received has an arrow pointing in,
/// what was sent one pointing out. Only Source_Capabilities are broken down below it.
pub proof fn line_shows_the_message(index: nat, ts: Seq<char>, dir: PdDirection, raw: Seq<u8>)
    requires
        raw.len() >= 2,
    ensures
        ({
            let way = if dir is FromDut {
                "RX <-"@
            } else {
                "TX ->"@
            };
            let line = "#"@ + text::pad_right(text::decimal(index), 3) + " ["@ + text::pad_left(
                ts,
                7,
            ) + "s] "@ + way + " "@ + text::pad_right(name_of(raw), 20) + " hdr=0x"@
                + text::hex_fixed((raw[0] + 256 * raw[1]) as nat, 4) + " obj="@ + text::decimal(
                (raw[1] as int / 16 % 8) as nat,
            ) + " raw="@ + text::hex_bytes(raw);
            &&& 16 <= raw[1] < 128 && raw[0] % 32 == 1 ==> message_text(index, ts, dir, raw) == line
                + pdo_lines(pd::objects_of(raw))
            &&& !(16 <= raw[1] < 128 && raw[0] % 32 == 1) ==> message_text(index, ts, dir, raw)
                == line
        }),
{
    bytes::byte_orders(0, 0, raw[0], raw[1], 0, 0);
    name_is_read_from_the_header(raw);
    let h = raw[0] + 256 * raw[1];
    assert(h / 4096 == raw[1] / 16);
}

/// A message of less than two bytes is shown as an empty one, with a header of zero.
pub proof fn line_shows_an_empty_message(
    index: nat,
    ts: Seq<char>,
    dir: PdDirection,
    raw: Seq<u8>,
)
    requires
        raw.len() < 2,
    ensures
        message_text(index, ts, dir, raw) == "#"@ + text::pad_right(text::decimal(index), 3)
            + " ["@ + text::pad_left(ts, 7) + "s] "@ + (if dir is FromDut {
            "RX <-"@
        } else {
            "TX ->"@
        }) + " "@ + text::pad_right("(empty)"@, 20) + " hdr=0x"@ + text::hex_fixed(0, 4) + " obj="@
            + text::decimal(0) + " raw="@ + text::hex_bytes(raw),
{
}

/// Append a count of thousandths as a number with two decimals.
fn push_two_decimals(out: &mut String, thousandths: u32)
    ensures
        final(out)@ == old(out)@ + two_decimals(thousandths as int),
{
    let ghost start = out@;
    text::push_decimal(out, (thousandths / 1000) as u64);
    out.append(".");
    out.push((48 + ((thousandths / 100) % 10) as u8) as char);
    out.push((48 + ((thousandths / 10) % 10) as u8) as char);
    assert(out@ =~= start + two_decimals(thousandths as int));
}

/// Append the breakdown of one power data object.
fn push_pdo(out: &mut String, raw: u32)
    ensures
        final(out)@ == old(out)@ + pdo_text(raw),
{
    let ghost start = out@;
    let pdo = Pdo { raw };
    match pdo.fixed_voltage_mv() {
        Some(mv) => {
            let ma: u32 = match pdo.fixed_max_current_ma() {
                Some(ma) => ma,
                None => 0,
            };
            push_two_decimals(out, mv);
            out.append(" V @ ");
            push_two_decimals(out, ma);
            out.append(" A (fixed)");
        },
        None => match pdo.pps() {
            Some((min_mv, max_mv, max_ma)) => {
                push_two_decimals(out, min_mv);
                out.append("\u{2013}");
                push_two_decimals(out, max_mv);
                out.append(" V @ ");
                push_two_decimals(out, max_ma);
                out.append(" A (PPS)");
            },
            None => {
                out.append("0x");
                text::push_hex(out, raw as u64, 8);
            },
        },
    }
    assert(out@ =~= start + pdo_text(raw));
}

/// Format one PD message as a console line (plus PDO breakdown for
/// Source_Capabilities), tagged with direction and a running index/timestamp.
/// `ts` is the time in seconds, to three decimals.
pub fn format_pd_message(index: u32, ts: &str, dir: PdDirection, msg: &PdMessage) -> (s: String)
    ensures
        s@ == message_text(index as nat, ts@, dir, msg@),
{
    let mut s = "#".to_owned();
    let number = text::decimal_string(index as u64);
    text::push_padded_right(&mut s, number.as_str(), 3);
    s.append(" [");
    text::push_padded_left(&mut s, ts, 7);
    s.append("s] ");
    match dir {
        PdDirection::FromDut => s.append("RX <-"),
        PdDirection::ToDut => s.append("TX ->"),
    }
    s.append(" ");
    text::push_padded_right(&mut s, pd_message_name(msg), 20);
    s.append(" hdr=0x");
    let header: u16 = match msg.header() {
        Some(h) => h,
        None => 0,
    };
    text::push_hex(&mut s, header as u64, 4);
    s.append(" obj=");
    text::push_decimal(&mut s, ((header / 4096) % 8) as u64);
    s.append(" raw=");
    text::push_hex_bytes(&mut s, msg.raw.as_slice());
    if has_source_capabilities(msg) {
        let ghost line = s@;
        let objects = msg.objects();
        let mut i: usize = 0;
        assert(objects@.take(0) =~= Seq::<u32>::empty());
        assert(s@ =~= line + pdo_lines(objects@.take(0)));
        while i < objects.len()
            invariant
                i <= objects@.len(),
                s@ == line + pdo_lines(objects@.take(i as int)),
            decreases objects@.len() - i,
        {
            s.append("\n       PDO");
            text::push_decimal(&mut s, i as u64 + 1);
            s.append(": ");
            push_pdo(&mut s, objects[i]);
            proof {
                let t = objects@.take(i + 1);
                assert(t.drop_last() =~= objects@.take(i as int));
                assert(s@ =~= line + pdo_lines(t));
            }
            i = i + 1;
        }
        assert(objects@.take(i as int) =~= objects@);
    }
    s
}

/// Records PD messages as console lines and (optionally) in a pcapng stream.
///
/// Interface ids map to ports by convention (interface 0 = TARGET-C, 1 = AUX);
/// the caller passes the id matching the IDB order it created the writer with.
pub struct PdTrace {
    writer: Option<PcapNgWriter>,
    base_unix_us: u64,
    count: u32,
}

/// What a [`PdTrace`] holds.
#[verifier::ext_equal]
pub struct PdTraceView {
    /// The pcapng bytes not handed over yet; none for a console-only trace.
    pub out: Option<Seq<u8>>,
    pub base_unix_us: u64,
    pub count: u32,
}

impl View for PdTrace {
    type V = PdTraceView;

    closed spec fn view(&self) -> PdTraceView {
        PdTraceView {
            out: match self.writer {
                Some(w) => Some(w.out@),
                None => None,
            },
            base_unix_us: self.base_unix_us,
            count: self.count,
        }
    }
}

impl PdTraceView {
    /// Whether one more message can be counted and stamped.
    pub open spec fn has_room(self, elapsed_us: u64) -> bool {
        self.count < u32::MAX && self.base_unix_us + elapsed_us <= u64::MAX
    }

    /// The trace with one more message in it: one more counted, and, if a stream is
    /// kept, one more packet in it.
    pub open spec fn recorded(
        self,
        iface_id: u32,
        dir: PdDirection,
        sop: PdSop,
        cc: u8,
        crc: Option<u32>,
        message: Seq<u8>,
        elapsed_us: u64,
    ) -> PdTraceView {
        PdTraceView {
            out: match self.out {
                Some(out) => Some(
                    out + pcapng::packet_block(
                        iface_id,
                        (self.base_unix_us + elapsed_us) as u64,
                        pcapng::pseudo_header(sop, dir, cc, crc) + message,
                    ),
                ),
                None => None,
            },
            base_unix_us: self.base_unix_us,
            count: (self.count + 1) as u32,
        }
    }
}

impl PdTrace {
    /// Create a trace. `writer` is the pcapng sink (already initialized with the
    /// interface table), or `None` for console-only; `base_unix_us` is the
    /// wall-clock time it starts at, in microseconds since the Unix epoch.
    pub fn new(writer: Option<PcapNgWriter>, base_unix_us: u64) -> (t: PdTrace)
        ensures
            t@ == (PdTraceView {
                out: match writer {
                    Some(w) => Some(w.out@),
                    None => None,
                },
                base_unix_us,
                count: 0,
            }),
    {
        PdTrace { writer, base_unix_us, count: 0 }
    }

    /// Number of messages recorded so far.
    pub fn count(&self) -> (n: u32)
        ensures
            n == self@.count,
    {
        self.count
    }

    /// Whether one more message can be counted and stamped, as
    /// [`record`](PdTrace::record) needs.
    pub fn has_room(&self, elapsed_us: u64) -> (r: bool)
        ensures
            r == self@.has_room(elapsed_us),
    {
        self.count < u32::MAX && self.base_unix_us <= u64::MAX - elapsed_us
    }

    /// Record one message, `elapsed_us` microseconds into the trace: returns its
    /// console line (with the time given as `ts`, in seconds) and, if a pcapng
    /// writer is attached, appends a packet (pseudo-header + message bytes) on
    /// `iface_id`.
    pub fn record(
        &mut self,
        iface_id: u32,
        dir: PdDirection,
        sop: PdSop,
        cc: u8,
        crc: Option<u32>,
        msg: &PdMessage,
        elapsed_us: u64,
        ts: &str,
    ) -> (line: String)
        requires
            old(self)@.has_room(elapsed_us),
        ensures
            line@ == message_text((old(self)@.count + 1) as nat, ts@, dir, msg@),
            final(self)@ == old(self)@.recorded(iface_id, dir, sop, cc, crc, msg@, elapsed_us),
    {
        self.count = self.count + 1;
        let line = format_pd_message(self.count, ts, dir, msg);
        let unix_us: u64 = self.base_unix_us + elapsed_us;
        let mut writer: Option<PcapNgWriter> = None;
        std::mem::swap(&mut writer, &mut self.writer);
        if let Some(mut w) = writer {
            let header = pd_pseudo_header(sop, dir, cc, crc);
            let mut data = slice_to_vec(&header);
            bytes::push_bytes(&mut data, msg.raw.as_slice());
            w.write_packet(iface_id, unix_us, data.as_slice());
            self.writer = Some(w);
        }
        line
    }

    /// Hand over the pcapng bytes written so far, if there is a writer.
    pub fn flush(&mut self) -> (b: Vec<u8>)
        ensures
            match old(self)@.out {
                Some(out) => b@ == out && final(self)@ == (PdTraceView {
                    out: Some(Seq::empty()),
                    ..old(self)@
                }),
                None => b@.len() == 0 && final(self)@ == old(self)@,
            },
    {
        let mut writer: Option<PcapNgWriter> = None;
        std::mem::swap(&mut writer, &mut self.writer);
        match writer {
            Some(mut w) => {
                let b = w.flush();
                self.writer = Some(w);
                assert(self@.out->0 =~= Seq::<u8>::empty());
                b
            },
            None => Vec::new(),
        }
    }
}

/// One message as it was recorded.
pub struct RecordedMessage {
    pub iface_id: u32,
    pub dir: PdDirection,
    pub sop: PdSop,
    pub cc: u8,
    pub crc: Option<u32>,
    pub message: Seq<u8>,
    pub elapsed_us: u64,
}

impl PdTraceView {
    /// The trace after recording some messages one after the other.
    pub open spec fn recorded_all(self, messages: Seq<RecordedMessage>) -> PdTraceView
        decreases messages.len(),
    {
        if messages.len() == 0 {
            self
        } else {
            let m = messages.last();
            self.recorded_all(messages.drop_last()).recorded(
                m.iface_id,
                m.dir,
                m.sop,
                m.cc,
                m.crc,
                m.message,
                m.elapsed_us,
            )
        }
    }

    /// The packets of a trace file that some messages are recorded as.
    pub open spec fn packets(self, messages: Seq<RecordedMessage>) -> Seq<TracePacketView> {
        Seq::new(
            messages.len(),
            |i: int|
                TracePacketView {
                    iface_id: messages[i].iface_id,
                    ts: (self.base_unix_us + messages[i].elapsed_us) as u64,
                    data: pcapng::pseudo_header(
                        messages[i].sop,
                        messages[i].dir,
                        messages[i].cc,
                        messages[i].crc,
                    ) + messages[i].message,
                },
        )
    }
}

/// There is room for a message until the count or the clock is at its end.
pub proof fn trace_has_room_until_the_end(t: PdTraceView, elapsed_us: u64)
    ensures
        t.has_room(elapsed_us) <==> t.count < 0xFFFF_FFFF && t.base_unix_us + elapsed_us
            < 0x1_0000_0000_0000_0000,
{
}

/// Every message counts once, whether or not a stream is kept, and neither the time the
/// trace starts at nor whether it has a stream changes.
pub proof fn every_message_is_counted(t: PdTraceView, messages: Seq<RecordedMessage>)
    requires
        t.count + messages.len() <= u32::MAX,
    ensures
        t.recorded_all(messages).count == t.count + messages.len(),
        t.recorded_all(messages).base_unix_us == t.base_unix_us,
        t.recorded_all(messages).out is Some <==> t.out is Some,
    decreases messages.len(),
{
    if messages.len() > 0 {
        every_message_is_counted(t, messages.drop_last());
    }
}

proof fn lemma_recorded_packets(t: PdTraceView, messages: Seq<RecordedMessage>)
    requires
        t.out is Some,
    ensures
        t.recorded_all(messages).out == Some(
            t.out->0 + pcapng::packet_blocks(t.packets(messages)),
        ),
        t.recorded_all(messages).base_unix_us == t.base_unix_us,
    decreases messages.len(),
{
    if messages.len() == 0 {
        assert(t.out->0 + pcapng::packet_blocks(t.packets(messages)) =~= t.out->0);
    } else {
        let before = messages.drop_last();
        lemma_recorded_packets(t, before);
        assert(t.packets(messages).drop_last() =~= t.packets(before));
        let p = t.packets(messages).last();
        let block = pcapng::packet_block(p.iface_id, p.ts, p.data);
        assert(t.out->0 + pcapng::packet_blocks(t.packets(before)) + block =~= t.out->0 + (
        pcapng::packet_blocks(t.packets(before)) + block));
    }
}

/// A trace file reads back as what was recorded into it: the ports by name, and
/// every message in order, with its port, its time, its direction, packet type and
/// CRC, and its bytes.
pub proof fn recorded_messages_read_back(
    ifaces: Seq<IfaceDescView>,
    t: PdTraceView,
    messages: Seq<RecordedMessage>,
)
    requires
        t.out == Some(pcapng::file_header(ifaces)),
        forall|i: int| 0 <= i < ifaces.len() ==> pcapng::describable(#[trigger] ifaces[i]),
        forall|i: int|
            0 <= i < messages.len() ==> (#[trigger] messages[i]).message.len() + 72
                < 0x1_0000_0000 && t.base_unix_us + messages[i].elapsed_us <= u64::MAX,
    ensures
        TraceFileView::parsed(t.recorded_all(messages).out->0) == Ok::<_, Seq<char>>(
            TraceFileView {
                interfaces: pcapng::read_back_all(ifaces),
                packets: t.packets(messages),
            },
        ),
        forall|i: int|
            0 <= i < messages.len() ==> {
                let p = #[trigger] t.packets(messages)[i];
                let m = messages[i];
                &&& p.iface_id == m.iface_id
                &&& p.ts == t.base_unix_us + m.elapsed_us
                &&& p.data.skip(8) == m.message
                &&& pcapng::pseudo_header_of(p.data) matches Some(h) && h.sop == m.sop
                    && h.direction == m.dir && h.crc == m.crc && h.cc == (if m.cc == 2 {
                    2u8
                } else {
                    1u8
                })
            },
{
    lemma_recorded_packets(t, messages);
    assert forall|i: int| 0 <= i < messages.len() implies {
        let p = #[trigger] t.packets(messages)[i];
        let m = messages[i];
        &&& p.data.len() == 8 + m.message.len()
        &&& p.data.skip(8) == m.message
        &&& pcapng::pseudo_header_of(p.data) == Some(
            PdPseudoHeader {
                sop: m.sop,
                direction: m.dir,
                cc: if m.cc == 2 {
                    2
                } else {
                    1
                },
                crc: m.crc,
            },
        )
    } by {
        let m = messages[i];
        pcapng::pseudo_header_round_trip(m.sop, m.dir, m.cc, m.crc, m.message);
    }
    pcapng::trace_reads_back(ifaces, t.packets(messages));
}

} // verus!

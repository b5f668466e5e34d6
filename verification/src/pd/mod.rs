//! USB **Power Delivery** capability over the Type-C CC lines.
//!
//! On the Cynthion this is implemented by the FUSB302B controllers on the
//! TARGET-C and AUX ports (driven by the FPGA over I2C). The BMC physical layer
//! lives in the controller; this trait models the policy/message layer plus raw
//! register access for forensic work, including custom Vendor-Defined Messages
//! and VCONN control.

use std::time::Duration;

use vstd::prelude::*;
use vstd::string::*;

use crate::bytes;
use crate::error;
use crate::error::Error;
use crate::error::Result;
use crate::text;

pub mod link;
pub mod trace;

verus! {

broadcast use bytes::lemma_le32_len;

/// Which Type-C port's PD controller to address.
#[derive(Debug, Clone, Copy, PartialEq, Eq, Structural)]
pub enum PdPort {
    /// TARGET-C - the device-under-test Type-C port.
    TargetC,
    /// AUX Type-C port.
    Aux,
}

/// CC line on which the connection was detected.
#[derive(Debug, Clone, Copy, PartialEq, Eq, Structural)]
pub enum CcOrientation {
    /// Neither line: nothing is connected.
    Open,
    Cc1,
    Cc2,
}

/// Snapshot of the CC / attach state reported by the controller.
#[derive(Debug, Clone, Copy, PartialEq, Eq, Structural)]
pub struct CcStatus {
    /// A partner is attached.
    pub attached: bool,
    /// Which CC line is active.
    pub orientation: CcOrientation,
    /// VCONN is currently sourced.
    pub vconn: bool,
    /// We are presenting as a source (Rp); else sink (Rd).
    pub is_source: bool,
}

/// USB-PD message kind, distinguishing control vs data vs extended.
#[derive(Debug, Clone, Copy, PartialEq, Eq, Structural)]
pub enum PdMessageClass {
    Control,
    Data,
    Extended,
}

/// A USB Power Delivery message: the 16-bit header plus its data objects.
///
/// Carried as raw little-endian bytes (header first) so non-compliant or unknown
/// messages round-trip losslessly; accessors decode the standard header fields.
#[derive(Debug, Clone, PartialEq, Eq)]
pub struct PdMessage {
    /// Header + payload, exactly as on the wire (BMC payload, no CRC/preamble).
    pub raw: Vec<u8>,
}

impl View for PdMessage {
    type V = Seq<u8>;

    open spec fn view(&self) -> Seq<u8> {
        self.raw@
    }
}

/// The little-endian bytes of a list of 32-bit words.
pub open spec fn words_le(ws: Seq<u32>) -> Seq<u8>
    decreases ws.len(),
{
    if ws.len() == 0 {
        Seq::empty()
    } else {
        words_le(ws.drop_last()) + bytes::le32(ws.last())
    }
}

/// The complete 32-bit little-endian words held in `b`; trailing bytes are ignored.
pub open spec fn le_words(b: Seq<u8>) -> Seq<u32> {
    Seq::new(
        b.len() / 4,
        |i: int| bytes::u32_le(b[4 * i], b[4 * i + 1], b[4 * i + 2], b[4 * i + 3]),
    )
}

/// Words read back from their layout are the words laid out.
proof fn lemma_le_words_round_trip(ws: Seq<u32>)
    ensures
        words_le(ws).len() == 4 * ws.len(),
        le_words(words_le(ws)) == ws,
    decreases ws.len(),
{
    if ws.len() > 0 {
        lemma_le_words_round_trip(ws.drop_last());
        bytes::lemma_le32_round_trip(ws.last());
        let head = words_le(ws.drop_last());
        assert forall|i: int| 0 <= i < ws.len() implies le_words(words_le(ws))[i] == ws[i] by {
            if i < ws.len() - 1 {
                assert(le_words(head)[i] == ws.drop_last()[i]);
            }
        }
    }
    assert(le_words(words_le(ws)) =~= ws);
}

/// The bytes of a message with the given header and data objects.
pub open spec fn message_bytes(header: u16, objects: Seq<u32>) -> Seq<u8> {
    bytes::le16(header) + words_le(objects)
}

/// The header of a message, if it has one.
pub open spec fn header_of(raw: Seq<u8>) -> Option<u16> {
    if raw.len() >= 2 {
        Some(bytes::u16_le(raw[0], raw[1]))
    } else {
        None
    }
}

/// The data objects of a message.
pub open spec fn objects_of(raw: Seq<u8>) -> Seq<u32> {
    if raw.len() < 2 {
        Seq::empty()
    } else {
        le_words(raw.skip(2))
    }
}

/// The class that a header declares.
pub open spec fn class_of(h: u16) -> PdMessageClass {
    if h / 32768 == 1 {
        PdMessageClass::Extended
    } else if (h / 4096) % 8 == 0 {
        PdMessageClass::Control
    } else {
        PdMessageClass::Data
    }
}

/// The message type that a header declares.
pub open spec fn type_of(h: u16) -> u8 {
    (h % 32) as u8
}

/// The number of data objects that a header declares.
pub open spec fn count_of(h: u16) -> u8 {
    ((h / 4096) % 8) as u8
}

/// A header is the first two bytes of a message, and its fields are where the
/// standard puts them: the type in bits 0-4, the data role in bit 5, the revision in
/// bits 6-7, the power role in bit 8, the MessageID in bits 9-11, the object count in
/// bits 12-14, the extended mark in bit 15. Whatever the other fields and the rest of
/// the message are, the type, the count and the class are read from theirs.
pub proof fn header_layout(
    msg_type: u8,
    data_role: u8,
    revision: u8,
    power_role: u8,
    msg_id: u8,
    count: u8,
    extended: u8,
    rest: Seq<u8>,
)
    requires
        msg_type < 32,
        data_role < 2,
        revision < 4,
        power_role < 2,
        msg_id < 8,
        count < 8,
        extended < 2,
    ensures
        ({
            let h = msg_type + 32 * data_role + 64 * revision + 256 * power_role + 512 * msg_id
                + 4096 * count + 32768 * extended;
            let raw = seq![(h % 256) as u8, (h / 256) as u8] + rest;
            &&& header_of(raw) == Some(h as u16)
            &&& type_of(h as u16) == msg_type
            &&& count_of(h as u16) == count
            &&& class_of(h as u16) == PdMessageClass::Extended <==> extended == 1
            &&& class_of(h as u16) == PdMessageClass::Control <==> extended == 0 && count == 0
            &&& class_of(h as u16) == PdMessageClass::Data <==> extended == 0 && count > 0
        }),
{
    let h = msg_type + 32 * data_role + 64 * revision + 256 * power_role + 512 * msg_id + 4096
        * count + 32768 * extended;
    let low = msg_type + 32 * data_role + 64 * revision + 256 * power_role + 512 * msg_id;
    assert(h == 4096 * (count + 8 * extended) + low);
    assert(h / 4096 == count + 8 * extended);
    assert(h / 32768 == extended);
    assert(h == 32 * (data_role + 2 * revision + 8 * power_role + 16 * msg_id + 128 * count + 1024
        * extended) + msg_type);
    let raw = seq![(h % 256) as u8, (h / 256) as u8] + rest;
    assert(raw[0] == (h % 256) as u8 && raw[1] == (h / 256) as u8);
}

/// A message of fewer than two bytes has no header and no objects; in any other, the
/// objects follow the header, four bytes each, the byte of least weight first, as many
/// as there are in full, whatever the header says.
pub proof fn object_layout(raw: Seq<u8>, i: int)
    ensures
        header_of(raw) is None <==> raw.len() < 2,
        objects_of(raw).len() == (if raw.len() < 2 {
            0
        } else {
            (raw.len() - 2) / 4
        }),
        0 <= i && 6 + 4 * i <= raw.len() ==> objects_of(raw)[i] == raw[2 + 4 * i] + 256 * raw[3 + 4
            * i] + 65536 * raw[4 + 4 * i] + 16777216 * raw[5 + 4 * i],
{
    if 0 <= i && 6 + 4 * i <= raw.len() {
        bytes::byte_orders(0, 0, raw[2 + 4 * i], raw[3 + 4 * i], raw[4 + 4 * i], raw[5 + 4 * i]);
    }
}

/// A message built from a header and objects gives both back unchanged.
pub proof fn message_round_trip(header: u16, objects: Seq<u32>)
    ensures
        header_of(message_bytes(header, objects)) == Some(header),
        objects_of(message_bytes(header, objects)) == objects,
        message_bytes(header, objects).len() == 2 + 4 * objects.len(),
{
    lemma_le_words_round_trip(objects);
    assert(message_bytes(header, objects).skip(2) =~= words_le(objects));
}

/// A message whose length is a whole number of objects is exactly its header and
/// its objects: nothing else is in it, whatever the header says.
pub proof fn message_is_lossless(raw: Seq<u8>)
    requires
        raw.len() >= 2,
        (raw.len() - 2) % 4 == 0,
    ensures
        raw == message_bytes(header_of(raw)->0, objects_of(raw)),
{
    bytes::lemma_u16_le_bytes(raw[0], raw[1]);
    lemma_words_of_bytes(raw.skip(2));
    assert(raw =~= seq![raw[0], raw[1]] + raw.skip(2));
}

proof fn lemma_words_of_bytes(b: Seq<u8>)
    requires
        b.len() % 4 == 0,
    ensures
        words_le(le_words(b)) == b,
    decreases b.len(),
{
    if b.len() > 0 {
        let n = b.len() - 4;
        lemma_words_of_bytes(b.take(n));
        assert(le_words(b).drop_last() =~= le_words(b.take(n)));
        bytes::lemma_u32_le_bytes(b[n], b[n + 1], b[n + 2], b[n + 3]);
        assert(words_le(le_words(b)) =~= b);
    } else {
        assert(words_le(le_words(b)) =~= b);
    }
}

impl PdMessage {
    /// Build from a 16-bit header and a list of 32-bit data objects.
    pub fn from_objects(header: u16, objects: &[u32]) -> (m: PdMessage)
        ensures
            m@ == message_bytes(header, objects@),
    {
        let mut raw: Vec<u8> = Vec::new();
        bytes::push_le16(&mut raw, header);
        let mut i: usize = 0;
        assert(objects@.take(0) =~= Seq::<u32>::empty());
        assert(raw@ =~= message_bytes(header, objects@.take(0)));
        while i < objects.len()
            invariant
                i <= objects@.len(),
                raw@ == message_bytes(header, objects@.take(i as int)),
            decreases objects@.len() - i,
        {
            bytes::push_le32(&mut raw, objects[i]);
            proof {
                let t = objects@.take(i + 1);
                assert(t.drop_last() =~= objects@.take(i as int));
                assert(raw@ =~= message_bytes(header, t));
            }
            i = i + 1;
        }
        assert(objects@.take(i as int) =~= objects@);
        PdMessage { raw }
    }

    /// The 16-bit message header, if present.
    pub fn header(&self) -> (h: Option<u16>)
        ensures
            h == header_of(self@),
    {
        if self.raw.len() >= 2 {
            Some(bytes::read_u16_le(self.raw[0], self.raw[1]))
        } else {
            None
        }
    }

    /// Message type field (header bits 0-4).
    pub fn message_type(&self) -> (t: Option<u8>)
        ensures
            t == (match header_of(self@) {
                Some(h) => Some(type_of(h)),
                None => None,
            }),
    {
        match self.header() {
            Some(h) => Some((h % 32) as u8),
            None => None,
        }
    }

    /// Number of 32-bit data objects (header bits 12-14).
    pub fn num_data_objects(&self) -> (n: Option<u8>)
        ensures
            n == (match header_of(self@) {
                Some(h) => Some(count_of(h)),
                None => None,
            }),
    {
        match self.header() {
            Some(h) => Some(((h / 4096) % 8) as u8),
            None => None,
        }
    }

    /// Whether this is a control (no data objects), data, or extended message.
    pub fn class(&self) -> (c: Option<PdMessageClass>)
        ensures
            c == (match header_of(self@) {
                Some(h) => Some(class_of(h)),
                None => None,
            }),
    {
        let h: u16 = match self.header() {
            Some(h) => h,
            None => return None,
        };
        if h / 32768 == 1 {
            Some(PdMessageClass::Extended)
        } else if (h / 4096) % 8 == 0 {
            Some(PdMessageClass::Control)
        } else {
            Some(PdMessageClass::Data)
        }
    }

    /// The data objects (each 32-bit, little-endian) following the header.
    pub fn objects(&self) -> (ws: Vec<u32>)
        ensures
            ws@ == objects_of(self@),
    {
        let mut ws: Vec<u32> = Vec::new();
        let n: usize = self.raw.len();
        if n < 2 {
            return ws;
        }
        let ghost body = self@.skip(2);
        let count: usize = (n - 2) / 4;
        let mut i: usize = 0;
        while i < count
            invariant
                i <= count,
                n == self.raw@.len(),
                n >= 2,
                count == (n - 2) / 4,
                body == self.raw@.skip(2),
                ws@ == le_words(body).take(i as int),
            decreases count - i,
        {
            let k: usize = 2 + 4 * i;
            ws.push(
                bytes::read_u32_le(self.raw[k], self.raw[k + 1], self.raw[k + 2], self.raw[k + 3]),
            );
            i = i + 1;
            assert(ws@ =~= le_words(body).take(i as int));
        }
        assert(ws@ =~= le_words(body));
        ws
    }
}

/// A Power Data Object as advertised in a Source_Capabilities message.
///
/// Kept as the raw 32-bit value plus convenience decoders for the common
/// Fixed-supply PDO; exotic PDOs are still accessible via [`Pdo::raw`].
#[derive(Debug, Clone, Copy, PartialEq, Eq, Structural)]
pub struct Pdo {
    pub raw: u32,
}

impl Pdo {
    /// The two type bits (30-31).
    pub open spec fn kind(self) -> int {
        (self.raw / 0x4000_0000) as int
    }

    /// Voltage and current of a fixed supply, in millivolts and milliamps.
    pub open spec fn fixed(self) -> Option<(u32, u32)> {
        if self.kind() == 0 {
            Some(
                ((((self.raw / 1024) % 1024) * 50) as u32, ((self.raw % 1024) * 10) as u32),
            )
        } else {
            None
        }
    }

    /// Lowest voltage, highest voltage and highest current of a programmable
    /// supply, in millivolts and milliamps.
    pub open spec fn programmable(self) -> Option<(u32, u32, u32)> {
        if self.kind() == 3 && (self.raw / 0x1000_0000) % 4 == 0 {
            Some(
                (
                    (((self.raw / 256) % 256) * 100) as u32,
                    (((self.raw / 131072) % 256) * 100) as u32,
                    ((self.raw % 128) * 50) as u32,
                ),
            )
        } else {
            None
        }
    }

    /// True if this is a Fixed Supply PDO (type bits 30-31 == 0).
    pub fn is_fixed(self) -> (r: bool)
        ensures
            r == (self.kind() == 0),
    {
        self.raw / 0x4000_0000 == 0
    }

    /// Fixed-supply voltage in millivolts (50 mV units, bits 10-19).
    pub fn fixed_voltage_mv(self) -> (v: Option<u32>)
        ensures
            v == (match self.fixed() {
                Some((mv, _)) => Some(mv),
                None => None,
            }),
    {
        if self.is_fixed() {
            Some(((self.raw / 1024) % 1024) * 50)
        } else {
            None
        }
    }

    /// Fixed-supply maximum current in milliamps (10 mA units, bits 0-9).
    pub fn fixed_max_current_ma(self) -> (i: Option<u32>)
        ensures
            i == (match self.fixed() {
                Some((_, ma)) => Some(ma),
                None => None,
            }),
    {
        if self.is_fixed() {
            Some((self.raw % 1024) * 10)
        } else {
            None
        }
    }

    /// True if this is an Augmented PDO (APDO), e.g. a PPS supply (bits 30-31 == 0b11).
    pub fn is_augmented(self) -> (r: bool)
        ensures
            r == (self.kind() == 3),
    {
        self.raw / 0x4000_0000 == 3
    }

    /// If this is a PPS (SPR Programmable Power Supply) APDO, returns
    /// `(min_mv, max_mv, max_ma)`. PPS is APDO subtype 0 (bits 28-29 == 0).
    pub fn pps(self) -> (r: Option<(u32, u32, u32)>)
        ensures
            r == self.programmable(),
    {
        if !self.is_augmented() || (self.raw / 0x1000_0000) % 4 != 0 {
            return None;
        }
        let max_mv: u32 = ((self.raw / 131072) % 256) * 100;  // 100 mV units
        let min_mv: u32 = ((self.raw / 256) % 256) * 100;  // 100 mV units
        let max_ma: u32 = (self.raw % 128) * 50;  // 50 mA units
        Some((min_mv, max_mv, max_ma))
    }
}

/// A power data object is a fixed or a programmable supply, never both, and every
/// voltage and current that fits its fields is read back from them.
pub proof fn pdo_fields(raw: u32, volts_50mv: u32, amps_10ma: u32)
    requires
        volts_50mv < 1024,
        amps_10ma < 1024,
    ensures
        (Pdo { raw }).fixed() is None || (Pdo { raw }).programmable() is None,
        (Pdo { raw: (volts_50mv * 1024 + amps_10ma) as u32 }).fixed() == Some(
            ((volts_50mv * 50) as u32, (amps_10ma * 10) as u32),
        ),
{
    let w = (volts_50mv * 1024 + amps_10ma) as u32;
    assert(w / 1024 == volts_50mv && w % 1024 == amps_10ma);
}

/// A fixed supply, whatever its ten flag bits, is read as the voltage in bits 10-19
/// (50 mV each) and the current in bits 0-9 (10 mA each).
pub proof fn fixed_supply_layout(flags: u32, volts_50mv: u32, amps_10ma: u32)
    requires
        flags < 1024,
        volts_50mv < 1024,
        amps_10ma < 1024,
    ensures
        ({
            let pdo = Pdo { raw: (flags * 0x10_0000 + volts_50mv * 1024 + amps_10ma) as u32 };
            &&& pdo.kind() == 0
            &&& pdo.fixed() == Some(((volts_50mv * 50) as u32, (amps_10ma * 10) as u32))
            &&& pdo.programmable() is None
        }),
{
    let w = flags * 0x10_0000 + volts_50mv * 1024 + amps_10ma;
    assert(w == 1024 * (flags * 1024 + volts_50mv) + amps_10ma);
    assert(w / 1024 == flags * 1024 + volts_50mv && w % 1024 == amps_10ma);
    assert((flags * 1024 + volts_50mv) % 1024 == volts_50mv);
}

/// A programmable supply, whatever its reserved bits and its power-limited flag, is
/// read as the lowest voltage in bits 8-15 and the highest in bits 17-24 (100 mV each)
/// and the current in bits 0-6 (50 mA each).
pub proof fn programmable_supply_layout(
    top: u32,
    max_100mv: u32,
    bit16: u32,
    min_100mv: u32,
    bit7: u32,
    amps_50ma: u32,
)
    requires
        top < 8,
        max_100mv < 256,
        bit16 < 2,
        min_100mv < 256,
        bit7 < 2,
        amps_50ma < 128,
    ensures
        ({
            let raw = 0xC000_0000 + 0x200_0000 * top + 0x2_0000 * max_100mv + 0x1_0000 * bit16 + 256
                * min_100mv + 128 * bit7 + amps_50ma;
            let pdo = Pdo { raw: raw as u32 };
            &&& pdo.kind() == 3
            &&& pdo.fixed() is None
            &&& pdo.programmable() == Some(
                ((min_100mv * 100) as u32, (max_100mv * 100) as u32, (amps_50ma * 50) as u32),
            )
        }),
{
    lemma_programmable_word(
        top as int,
        max_100mv as int,
        bit16 as int,
        min_100mv as int,
        bit7 as int,
        amps_50ma as int,
    );
}

/// The fields packed into a programmable supply do not overlap.
proof fn lemma_programmable_word(top: int, max: int, bit16: int, min: int, bit7: int, amps: int)
    requires
        0 <= top < 8,
        0 <= max < 256,
        0 <= bit16 < 2,
        0 <= min < 256,
        0 <= bit7 < 2,
        0 <= amps < 128,
    ensures
        ({
            let w = 0xC000_0000 + 0x200_0000 * top + 0x2_0000 * max + 0x1_0000 * bit16 + 256 * min
                + 128 * bit7 + amps;
            &&& 0 <= w < 0x1_0000_0000
            &&& w / 0x4000_0000 == 3
            &&& (w / 0x1000_0000) % 4 == 0
            &&& (w / 256) % 256 == min
            &&& (w / 131072) % 256 == max
            &&& w % 128 == amps
        }),
{
    let w = 0xC000_0000 + 0x200_0000 * top + 0x2_0000 * max + 0x1_0000 * bit16 + 256 * min + 128
        * bit7 + amps;
    let low = 128 * bit7 + amps;
    let above = 0xC0_0000 + 0x2_0000 * top + 0x200 * max + 0x100 * bit16 + min;
    let high = 0x6000 + 0x100 * top + max;
    assert(w == 256 * above + low);
    assert(w / 256 == above);
    assert(above == 256 * (0xC000 + 0x200 * top + 2 * max + bit16) + min);
    assert(w == 0x2_0000 * high + (0x1_0000 * bit16 + 256 * min + low));
    assert(w / 0x2_0000 == high);
    assert(high == 256 * (0x60 + top) + max);
    assert(w == 128 * (2 * above + bit7) + amps);
    assert(w / 0x1000_0000 == 12);
}

/// The two type bits decide what an object is: only 00 is a fixed supply, and only 11
/// with the subtype bits 00 is a programmable one.
pub proof fn supply_kinds(kind: u32, subtype: u32, rest: u32)
    requires
        kind < 4,
        subtype < 4,
        rest < 0x1000_0000,
    ensures
        ({
            let pdo = Pdo { raw: (kind * 0x4000_0000 + subtype * 0x1000_0000 + rest) as u32 };
            &&& pdo.kind() == kind
            &&& pdo.fixed() is Some <==> kind == 0
            &&& pdo.programmable() is Some <==> kind == 3 && subtype == 0
        }),
{
    let w = kind * 0x4000_0000 + subtype * 0x1000_0000 + rest;
    assert(w == 0x1000_0000 * (4 * kind + subtype) + rest);
    assert(w / 0x1000_0000 == 4 * kind + subtype);
    assert(w / 0x4000_0000 == kind);
}

/// A Vendor-Defined Message (structured VDM), the primary vehicle for custom PD.
#[derive(Debug, Clone, PartialEq, Eq)]
pub struct Vdm {
    /// Standard or Vendor ID (header bits 16-31).
    pub svid: u16,
    /// Command (header bits 0-4).
    pub command: u8,
    /// Command type (header bits 6-7): 0=REQ, 1=ACK, 2=NAK, 3=BUSY.
    pub command_type: u8,
    /// Object position (header bits 8-10), 0 if unused.
    pub object_position: u8,
    /// Following VDOs (vendor data objects).
    pub objects: Vec<u32>,
}

impl Vdm {
    /// The structured-VDM header word.
    pub open spec fn header_word(self) -> u32 {
        (self.svid * 65536 + 32768 + (self.object_position % 8) * 256 + (self.command_type % 4) * 64
            + self.command % 32) as u32
    }

    /// Encode as a structured-VDM header word (the first data object).
    pub fn vdm_header(&self) -> (h: u32)
        ensures
            h == self.header_word(),
    {
        (self.svid as u32) * 65536 + 32768 + ((self.object_position % 8) as u32) * 256 + ((
        self.command_type % 4) as u32) * 64 + (self.command % 32) as u32
    }
}

/// Every field of a structured VDM can be read back from its header word, the word
/// always carries the structured mark (bit 15), and no other bit is set.
pub proof fn vdm_header_fields(v: Vdm)
    ensures
        v.header_word() / 65536 == v.svid,
        (v.header_word() / 32768) % 2 == 1,
        (v.header_word() / 2048) % 16 == 0,
        (v.header_word() / 32) % 2 == 0,
        (v.header_word() / 256) % 8 == v.object_position % 8,
        (v.header_word() / 64) % 4 == v.command_type % 4,
        v.header_word() % 32 == v.command % 32,
{
    lemma_vdm_word(
        v.svid as int,
        (v.object_position % 8) as int,
        (v.command_type % 4) as int,
        (v.command % 32) as int,
    );
}

/// The fields packed into a structured-VDM header word do not overlap.
proof fn lemma_vdm_word(s: int, o: int, t: int, c: int)
    requires
        0 <= s < 65536,
        0 <= o < 8,
        0 <= t < 4,
        0 <= c < 32,
    ensures
        ({
            let h = s * 65536 + 32768 + o * 256 + t * 64 + c;
            &&& 0 <= h < 0x1_0000_0000
            &&& h / 65536 == s
            &&& (h / 32768) % 2 == 1
            &&& (h / 2048) % 16 == 0
            &&& (h / 32) % 2 == 0
            &&& (h / 256) % 8 == o
            &&& (h / 64) % 4 == t
            &&& h % 32 == c
        }),
{
    let h = s * 65536 + 32768 + o * 256 + t * 64 + c;
    let a = 2 * s + 1;
    let b = 256 * s + 128 + o;
    let d = 1024 * s + 512 + 4 * o + t;
    assert(h == 32768 * a + (o * 256 + t * 64 + c));
    assert(h / 32768 == a);
    assert(h == 256 * b + (t * 64 + c));
    assert(h / 256 == b);
    assert(h == 64 * d + c);
    assert(h / 64 == d);
    assert(b == 8 * (32 * s + 16) + o);
    assert(d == 4 * (256 * s + 128 + o) + t);
    assert(h == 32 * (2 * d) + c);
    assert(h / 32 == 2 * d);
    assert(h == 2048 * (16 * a) + (o * 256 + t * 64 + c));
    assert(h / 2048 == 16 * a);
}

/// What the primitive operations of a [`PowerDelivery`] controller may do: anything,
/// unless a controller says more.
pub trait PdModel: Sized {
    /// `cc_status(port)` may lead from `pre` to `post` and return `r`.
    open spec fn cc_status_step(pre: Self, port: PdPort, post: Self, r: Result<CcStatus>) -> bool {
        true
    }

    /// `set_vconn(port, on)` may lead from `pre` to `post` and return `r`.
    open spec fn set_vconn_step(
        pre: Self,
        port: PdPort,
        on: bool,
        post: Self,
        r: Result<()>,
    ) -> bool {
        true
    }

    /// `pd_send(port, message)` may lead from `pre` to `post` and return `r`.
    open spec fn send_step(
        pre: Self,
        port: PdPort,
        message: Seq<u8>,
        post: Self,
        r: Result<()>,
    ) -> bool {
        true
    }

    /// `pd_recv(port, timeout)` may lead from `pre` to `post` and return `r`.
    open spec fn recv_step(
        pre: Self,
        port: PdPort,
        timeout: Duration,
        post: Self,
        r: Result<Option<PdMessage>>,
    ) -> bool {
        true
    }

    /// `controller_read(port, reg)` may lead from `pre` to `post` and return `r`.
    open spec fn read_register_step(
        pre: Self,
        port: PdPort,
        reg: u8,
        post: Self,
        r: Result<u8>,
    ) -> bool {
        true
    }

    /// `controller_write(port, reg, value)` may lead from `pre` to `post` and return `r`.
    open spec fn write_register_step(
        pre: Self,
        port: PdPort,
        reg: u8,
        value: u8,
        post: Self,
        r: Result<()>,
    ) -> bool {
        true
    }
}

/// Driving USB Power Delivery on a Type-C port.
pub trait PowerDelivery: PdModel {
    /// Read the CC/attach status of a port.
    fn cc_status(&mut self, port: PdPort) -> (r: Result<CcStatus>)
        ensures
            Self::cc_status_step(*old(self), port, *final(self), r),
    ;

    /// Enable or disable VCONN output (e.g. to power an e-marked cable).
    fn set_vconn(&mut self, port: PdPort, on: bool) -> (r: Result<()>)
        ensures
            Self::set_vconn_step(*old(self), port, on, *final(self), r),
    ;

    /// Transmit a raw PD message on a port.
    fn pd_send(&mut self, port: PdPort, message: &PdMessage) -> (r: Result<()>)
        ensures
            Self::send_step(*old(self), port, message@, *final(self), r),
    ;

    /// Receive the next PD message within `timeout`, if any.
    fn pd_recv(&mut self, port: PdPort, timeout: Duration) -> (r: Result<Option<PdMessage>>)
        ensures
            Self::recv_step(*old(self), port, timeout, *final(self), r),
    ;

    /// Read a raw controller (FUSB302B) register - forensic/low-level access.
    fn controller_read(&mut self, port: PdPort, reg: u8) -> (r: Result<u8>)
        ensures
            Self::read_register_step(*old(self), port, reg, *final(self), r),
    ;

    /// Write a raw controller (FUSB302B) register.
    fn controller_write(&mut self, port: PdPort, reg: u8, value: u8) -> (r: Result<()>)
        ensures
            Self::write_register_step(*old(self), port, reg, value, *final(self), r),
    ;

    /// Send a structured Vendor-Defined Message. Default builds the message from
    /// the VDM header + objects and calls [`pd_send`](PowerDelivery::pd_send).
    ///
    /// `header` is the 16-bit PD message header the caller wants to use (so the
    /// message type / spec-rev / role bits stay under the caller's control - a
    /// forensic tool must be able to set them freely, including illegal combos).
    /// By default a header whose data-object count is not the number of objects is
    /// refused, and nothing is sent.
    fn send_vdm(&mut self, port: PdPort, header: u16, vdm: &Vdm) -> (r: Result<()>)
        default_ensures
            ({
                let objects = seq![vdm.header_word()] + vdm.objects@;
                let declared = (header / 4096) % 8;
                if declared == objects.len() {
                    Self::send_step(
                        *old(self),
                        port,
                        message_bytes(header, objects),
                        *final(self),
                        r,
                    )
                } else {
                    &&& *final(self) == *old(self)
                    &&& error::is_protocol_error(
                        r,
                        "VDM header declares "@ + text::decimal(declared as nat)
                            + " data objects but "@ + text::decimal(objects.len())
                            + " were provided"@,
                    )
                }
            }),
    {
        let mut objects: Vec<u32> = Vec::new();
        objects.push(vdm.vdm_header());
        objects.extend_from_slice(vdm.objects.as_slice());
        assert(objects@ =~= seq![vdm.header_word()] + vdm.objects@);
        // Sanity: the header's data-object count should match what we send.
        let ndo: usize = ((header / 4096) % 8) as usize;
        if ndo != objects.len() {
            let mut m = "VDM header declares ".to_owned();
            text::push_decimal(&mut m, ndo as u64);
            m.append(" data objects but ");
            text::push_decimal(&mut m, objects.len() as u64);
            m.append(" were provided");
            return Err(Error::Protocol(m));
        }
        let message = PdMessage::from_objects(header, objects.as_slice());
        self.pd_send(port, &message)
    }
}

} // verus!

//! Minimal **pcapng** writer and reader for USB Type-C Power Delivery traces.
//!
//! PD messages don't fit any existing link-layer type, so we emit them under a
//! new, purpose-defined link type [`LINKTYPE_USB_TYPE_C_PD`]: each packet is an
//! 8-byte [pseudo-header](pd_pseudo_header) (version, SOP type, direction, flags,
//! CRC) followed by the Power Delivery message exactly as in section 6.2
//! "Messages" of the USB Power Delivery specification (the 16-bit header plus any
//! data objects; no preamble, no on-wire CRC bytes).
//!
//! The number 304 is **provisional** - the next currently-unallocated link type
//! when this was written - pending an official allocation. The format follows the
//! guidance in libpcap issue #1036.
//!
//! pcapng is used (not legacy pcap) so multiple capture ports map cleanly onto
//! separate Interface Description Blocks: by convention interface 0 = TARGET-C,
//! interface 1 = AUX, so the port is encoded by the packet's interface id and the
//! pseudo-header stays instrument-agnostic.

use vstd::prelude::*;
use vstd::slice::slice_subrange;
use vstd::slice::slice_to_vec;
use vstd::string::*;

use crate::bytes;
use crate::error;
use crate::error::Error;
use crate::error::Result;
use crate::text;

verus! {

broadcast use bytes::lemma_le32_len;

/// Provisional pcapng/pcap link type for USB Type-C Power Delivery packets:
/// an 8-byte pseudo-header followed by a PD message.
pub const LINKTYPE_USB_TYPE_C_PD: u32 = 304;

/// SOP* sequence a PD message was framed with (pseudo-header `sop_type`).
#[derive(Debug, Clone, Copy, PartialEq, Eq, Structural)]
pub enum PdSop {
    /// SOP - port-to-port (the device under test).
    Sop,
    /// SOP' - to the near-end cable plug.
    SopPrime,
    /// SOP'' - to the far-end cable plug.
    SopDoublePrime,
    /// SOP'_Debug.
    SopPrimeDebug,
    /// SOP''_Debug.
    SopDoublePrimeDebug,
    /// Hard Reset ordered set.
    HardReset,
    /// Cable Reset ordered set.
    CableReset,
    /// Framing not known / not recorded.
    Unknown,
}

impl PdSop {
    /// The `sop_type` value.
    pub open spec fn code(self) -> u8 {
        match self {
            PdSop::Sop => 0,
            PdSop::SopPrime => 1,
            PdSop::SopDoublePrime => 2,
            PdSop::SopPrimeDebug => 3,
            PdSop::SopDoublePrimeDebug => 4,
            PdSop::HardReset => 5,
            PdSop::CableReset => 6,
            PdSop::Unknown => 0xFF,
        }
    }

    /// The framing of a `sop_type` value; unassigned values are unknown framing.
    pub open spec fn of_code(b: u8) -> PdSop {
        if b == 0 {
            PdSop::Sop
        } else if b == 1 {
            PdSop::SopPrime
        } else if b == 2 {
            PdSop::SopDoublePrime
        } else if b == 3 {
            PdSop::SopPrimeDebug
        } else if b == 4 {
            PdSop::SopDoublePrimeDebug
        } else if b == 5 {
            PdSop::HardReset
        } else if b == 6 {
            PdSop::CableReset
        } else {
            PdSop::Unknown
        }
    }

    /// The `sop_type` value.
    pub fn wire(self) -> (b: u8)
        ensures
            b == self.code(),
    {
        match self {
            PdSop::Sop => 0,
            PdSop::SopPrime => 1,
            PdSop::SopDoublePrime => 2,
            PdSop::SopPrimeDebug => 3,
            PdSop::SopDoublePrimeDebug => 4,
            PdSop::HardReset => 5,
            PdSop::CableReset => 6,
            PdSop::Unknown => 0xFF,
        }
    }

    /// The framing of a `sop_type` value.
    pub fn from_wire(b: u8) -> (s: PdSop)
        ensures
            s == Self::of_code(b),
    {
        match b {
            0 => PdSop::Sop,
            1 => PdSop::SopPrime,
            2 => PdSop::SopDoublePrime,
            3 => PdSop::SopPrimeDebug,
            4 => PdSop::SopDoublePrimeDebug,
            5 => PdSop::HardReset,
            6 => PdSop::CableReset,
            _ => PdSop::Unknown,
        }
    }
}

/// The name of a framing.
pub open spec fn sop_text(sop: PdSop) -> Seq<char> {
    match sop {
        PdSop::Sop => "SOP"@,
        PdSop::SopPrime => "SOP'"@,
        PdSop::SopDoublePrime => "SOP''"@,
        PdSop::SopPrimeDebug => "SOP'_Debug"@,
        PdSop::SopDoublePrimeDebug => "SOP''_Debug"@,
        PdSop::HardReset => "Hard Reset"@,
        PdSop::CableReset => "Cable Reset"@,
        PdSop::Unknown => "?"@,
    }
}

/// Human-readable name of a framing.
pub fn sop_name(sop: PdSop) -> (s: &'static str)
    ensures
        s@ == sop_text(sop),
{
    match sop {
        PdSop::Sop => "SOP",
        PdSop::SopPrime => "SOP'",
        PdSop::SopDoublePrime => "SOP''",
        PdSop::SopPrimeDebug => "SOP'_Debug",
        PdSop::SopDoublePrimeDebug => "SOP''_Debug",
        PdSop::HardReset => "Hard Reset",
        PdSop::CableReset => "Cable Reset",
        PdSop::Unknown => "?",
    }
}

/// The framings are numbered in order from 0, unknown framing is 255, and each number
/// that is not assigned is unknown framing too; reading a number undoes writing it.
pub proof fn framings_are_numbered_in_order(sop: PdSop, b: u8)
    ensures
        ({
            let all = seq![
                PdSop::Sop,
                PdSop::SopPrime,
                PdSop::SopDoublePrime,
                PdSop::SopPrimeDebug,
                PdSop::SopDoublePrimeDebug,
                PdSop::HardReset,
                PdSop::CableReset,
            ];
            let names = seq![
                "SOP"@,
                "SOP'"@,
                "SOP''"@,
                "SOP'_Debug"@,
                "SOP''_Debug"@,
                "Hard Reset"@,
                "Cable Reset"@,
            ];
            &&& PdSop::of_code(sop.code()) == sop
            &&& b < 7 ==> PdSop::of_code(b) == all[b as int] && all[b as int].code() == b
                && sop_text(all[b as int]) == names[b as int]
            &&& b >= 7 ==> PdSop::of_code(b) == PdSop::Unknown
            &&& PdSop::Unknown.code() == 255
            &&& sop_text(PdSop::Unknown) == "?"@
        }),
{
}

/// Direction of a PD message relative to the device under test.
#[derive(Debug, Clone, Copy, PartialEq, Eq, Structural)]
pub enum PdDirection {
    /// Sent by the DUT toward our instrument (a received message).
    FromDut,
    /// Sent by our instrument toward the DUT (a transmitted message).
    ToDut,
}

impl PdDirection {
    /// The `direction` value.
    pub open spec fn code(self) -> u8 {
        match self {
            PdDirection::FromDut => 0,
            PdDirection::ToDut => 1,
        }
    }

    /// The `direction` value.
    pub fn wire(self) -> (b: u8)
        ensures
            b == self.code(),
    {
        match self {
            PdDirection::FromDut => 0,
            PdDirection::ToDut => 1,
        }
    }
}

// Pseudo-header flag bits.
pub const FLAG_CRC_PRESENT: u8 = 1;

pub const FLAG_CRC_VALID: u8 = 2;

/// Set for CC2, clear for CC1.
pub const FLAG_CC2: u8 = 4;

/// The bytes of a pseudo-header.
pub open spec fn pseudo_header(
    sop: PdSop,
    dir: PdDirection,
    cc: u8,
    crc: Option<u32>,
) -> Seq<u8> {
    let line: int = if cc == 2 {
        FLAG_CC2 as int
    } else {
        0
    };
    let check: int = if crc is Some {
        FLAG_CRC_PRESENT + FLAG_CRC_VALID
    } else {
        0
    };
    seq![1u8, sop.code(), dir.code(), (line + check) as u8] + bytes::le32(
        match crc {
            Some(c) => c,
            None => 0,
        },
    )
}

/// Build the 8-byte [`LINKTYPE_USB_TYPE_C_PD`] pseudo-header.
///
/// Layout (all multi-byte fields little-endian):
/// ```text
///   0  u8   version       = 1
///   1  u8   sop_type      (PdSop)
///   2  u8   direction     0 = from DUT (rx), 1 = to DUT (tx)
///   3  u8   flags         bit0 CRC_PRESENT, bit1 CRC_VALID, bit2 CC_POLARITY (0=CC1,1=CC2)
///   4  u32  crc32         on-wire CRC-32 if CRC_PRESENT, else 0
/// ```
/// `cc` is 1 or 2 (0 = unknown, recorded as CC1). `crc` is `Some` only when the
/// real on-wire CRC was captured - controllers with hardware AUTO_CRC (e.g. the
/// FUSB302B) check/append it themselves, so we pass `None` and clear CRC_PRESENT.
pub fn pd_pseudo_header(sop: PdSop, dir: PdDirection, cc: u8, crc: Option<u32>) -> (h: [u8; 8])
    ensures
        h@ == pseudo_header(sop, dir, cc, crc),
{
    let mut flags: u8 = 0;
    if cc == 2 {
        flags = flags + FLAG_CC2;
    }
    let crc_val: u32 = match crc {
        Some(c) => {
            flags = flags + (FLAG_CRC_PRESENT + FLAG_CRC_VALID);
            c
        },
        None => 0,
    };
    let h: [u8; 8] = [
        1,  // version
        sop.wire(),
        dir.wire(),
        flags,
        (crc_val % 256) as u8,
        ((crc_val / 256) % 256) as u8,
        ((crc_val / 65536) % 256) as u8,
        (crc_val / 16777216) as u8,
    ];
    proof {
        reveal(bytes::le32);
    }
    assert(h@ =~= pseudo_header(sop, dir, cc, crc));
    h
}

/// A decoded pseudo-header.
#[derive(Debug, Clone, Copy, PartialEq, Eq, Structural)]
pub struct PdPseudoHeader {
    pub sop: PdSop,
    pub direction: PdDirection,
    /// The CC line, 1 or 2.
    pub cc: u8,
    /// The on-wire CRC-32, if it was captured.
    pub crc: Option<u32>,
}

/// The pseudo-header that a packet starts with; none when the packet is too short
/// or the version is not 1.
pub open spec fn pseudo_header_of(b: Seq<u8>) -> Option<PdPseudoHeader> {
    if b.len() < 8 || b[0] != 1 {
        None
    } else {
        Some(
            PdPseudoHeader {
                sop: PdSop::of_code(b[1]),
                direction: if b[2] == 1 {
                    PdDirection::ToDut
                } else {
                    PdDirection::FromDut
                },
                cc: if (b[3] / 4) % 2 == 1 {
                    2
                } else {
                    1
                },
                crc: if b[3] % 2 == 1 {
                    Some(bytes::u32_le(b[4], b[5], b[6], b[7]))
                } else {
                    None
                },
            },
        )
    }
}

/// Decode the pseudo-header that a packet starts with.
pub fn parse_pd_pseudo_header(b: &[u8]) -> (r: Option<PdPseudoHeader>)
    ensures
        r == pseudo_header_of(b@),
{
    if b.len() < 8 || b[0] != 1 {
        return None;
    }
    let direction = if b[2] == 1 {
        PdDirection::ToDut
    } else {
        PdDirection::FromDut
    };
    let cc: u8 = if (b[3] / 4) % 2 == 1 {
        2
    } else {
        1
    };
    let crc = if b[3] % 2 == 1 {
        Some(bytes::read_u32_le(b[4], b[5], b[6], b[7]))
    } else {
        None
    };
    Some(PdPseudoHeader { sop: PdSop::from_wire(b[1]), direction, cc, crc })
}

/// A pseudo-header takes 8 bytes, and decoding it gives back what was encoded,
/// whatever follows; a CC line that is not known reads as CC1.
pub proof fn pseudo_header_round_trip(
    sop: PdSop,
    dir: PdDirection,
    cc: u8,
    crc: Option<u32>,
    message: Seq<u8>,
)
    ensures
        pseudo_header(sop, dir, cc, crc).len() == 8,
        pseudo_header_of(pseudo_header(sop, dir, cc, crc) + message) == Some(
            PdPseudoHeader {
                sop,
                direction: dir,
                cc: if cc == 2 {
                    2
                } else {
                    1
                },
                crc,
            },
        ),
        (pseudo_header(sop, dir, cc, crc) + message).skip(8) == message,
{
    if let Some(c) = crc {
        bytes::lemma_le32_round_trip(c);
    }
    assert((pseudo_header(sop, dir, cc, crc) + message).skip(8) =~= message);
}

/// Every field of a pseudo-header stands where the format puts it: the version 1, the
/// framing's number, 0 for what came from the device under test and 1 for what went to
/// it, the flags (1 for a CRC that is there, 2 for one that is good, 4 for CC2), and the
/// CRC in little-endian order, zero if there is none.
pub proof fn pseudo_header_layout(sop: PdSop, dir: PdDirection, cc: u8, crc: Option<u32>)
    ensures
        ({
            let h = pseudo_header(sop, dir, cc, crc);
            &&& h.len() == 8
            &&& h[0] == 1
            &&& h[1] == sop.code()
            &&& h[2] == (if dir is ToDut {
                1int
            } else {
                0
            })
            &&& h[3] == (if crc is Some {
                3int
            } else {
                0
            }) + (if cc == 2 {
                4int
            } else {
                0
            })
            &&& h[4] + 256 * h[5] + 65536 * h[6] + 16777216 * h[7] == (match crc {
                Some(c) => c as int,
                None => 0,
            })
        }),
{
    let c = match crc {
        Some(c) => c,
        None => 0,
    };
    bytes::byte_orders(0, c, 0, 0, 0, 0);
}

/// A pseudo-header is decoded field by field, whatever the other fields and what follows:
/// the framing from the second byte, the direction from the third, whether there is a
/// CRC and which line from bits 0 and 2 of the fourth, the CRC from the last four. The
/// other bits of the flags change nothing; a short packet or another version is refused.
pub proof fn pseudo_header_fields(b: Seq<u8>, crc: u8, valid: u8, line: u8, high: u8)
    requires
        crc < 2,
        valid < 2,
        line < 2,
        high < 32,
        b.len() >= 8 ==> b[3] == crc + 2 * valid + 4 * line + 8 * high,
    ensures
        b.len() < 8 || b[0] != 1 ==> pseudo_header_of(b) is None,
        b.len() >= 8 && b[0] == 1 ==> {
            let h = pseudo_header_of(b);
            &&& h is Some
            &&& h->0.sop == PdSop::of_code(b[1])
            &&& h->0.direction is ToDut <==> b[2] == 1
            &&& h->0.cc == line + 1
            &&& h->0.crc is Some <==> crc == 1
            &&& h->0.crc is Some ==> h->0.crc->0 == b[4] + 256 * b[5] + 65536 * b[6] + 16777216
                * b[7]
        },
{
    if b.len() >= 8 {
        bytes::byte_orders(0, 0, b[4], b[5], b[6], b[7]);
        assert(b[3] as int / 4 == line + 2 * high);
    }
}

/// Description of one capture interface (one pcapng IDB).
pub struct IfaceDesc<'a> {
    /// Human-readable name (pcapng `if_name` option), e.g. "TARGET-C".
    pub name: &'a str,
    /// Link type for this interface.
    pub linktype: u32,
    /// Snap length advertised for this interface.
    pub snaplen: u32,
}

/// What an [`IfaceDesc`] holds.
pub struct IfaceDescView {
    pub name: Seq<char>,
    pub linktype: u32,
    pub snaplen: u32,
}

impl<'a> View for IfaceDesc<'a> {
    type V = IfaceDescView;

    open spec fn view(&self) -> IfaceDescView {
        IfaceDescView { name: self.name@, linktype: self.linktype, snaplen: self.snaplen }
    }
}

/// What a list of interface descriptions holds.
pub open spec fn iface_views(s: Seq<IfaceDesc<'_>>) -> Seq<IfaceDescView> {
    Seq::new(s.len(), |i: int| s[i]@)
}

// Block types.
pub const BT_SHB: u32 = 0x0A0D_0D0A;

pub const BT_IDB: u32 = 0x0000_0001;

pub const BT_EPB: u32 = 0x0000_0006;

pub const BYTE_ORDER_MAGIC: u32 = 0x1A2B_3C4D;

/// `n` zero bytes.
pub open spec fn zeros(n: nat) -> Seq<u8> {
    Seq::new(n, |i: int| 0u8)
}

/// `s` followed by as many zero bytes as reach a multiple of 4.
pub open spec fn padded(s: Seq<u8>) -> Seq<u8> {
    s + zeros(((4 - s.len() % 4) % 4) as nat)
}

/// A block: type, total length, body padded to 32 bits, total length again.
pub open spec fn block(block_type: u32, body: Seq<u8>) -> Seq<u8> {
    let total = ((12 + padded(body).len()) % 0x1_0000_0000) as u32;
    bytes::le32(block_type) + bytes::le32(total) + padded(body) + bytes::le32(total)
}

/// A block body with one more option (code, length, value, padding to 32 bits).
pub open spec fn with_option(body: Seq<u8>, code: u16, value: Seq<u8>) -> Seq<u8> {
    padded(body + bytes::le16(code) + bytes::le16((value.len() % 65536) as u16) + value)
}

/// The body of the section header: byte-order magic, version 1.0, length unknown.
pub open spec fn section_body() -> Seq<u8> {
    bytes::le32(BYTE_ORDER_MAGIC) + bytes::le16(1) + bytes::le16(0) + Seq::new(8, |i: int| 0xFFu8)
}

/// The body of an interface description: link type, snap length, and the options
/// for name and microsecond timestamps.
pub open spec fn interface_body(i: IfaceDescView) -> Seq<u8> {
    let fixed = bytes::le16((i.linktype % 65536) as u16) + bytes::le16(0) + bytes::le32(i.snaplen);
    let named = with_option(fixed, 2, vstd::utf8::encode_utf8(i.name));
    with_option(with_option(named, 9, seq![6u8]), 0, Seq::empty())
}

/// The interface description blocks of a list of interfaces.
pub open spec fn interface_blocks(ifaces: Seq<IfaceDescView>) -> Seq<u8>
    decreases ifaces.len(),
{
    if ifaces.len() == 0 {
        Seq::empty()
    } else {
        interface_blocks(ifaces.drop_last()) + block(BT_IDB, interface_body(ifaces.last()))
    }
}

/// Everything that a file starts with.
pub open spec fn file_header(ifaces: Seq<IfaceDescView>) -> Seq<u8> {
    block(BT_SHB, section_body()) + interface_blocks(ifaces)
}

/// The body of a packet block.
pub open spec fn packet_body(iface_id: u32, ts_unix_us: u64, data: Seq<u8>) -> Seq<u8> {
    let len = (data.len() % 0x1_0000_0000) as u32;
    padded(
        bytes::le32(iface_id) + bytes::le32((ts_unix_us / 0x1_0000_0000) as u32) + bytes::le32(
            (ts_unix_us % 0x1_0000_0000) as u32,
        ) + bytes::le32(len) + bytes::le32(len) + data,
    )
}

/// A packet block.
pub open spec fn packet_block(iface_id: u32, ts_unix_us: u64, data: Seq<u8>) -> Seq<u8> {
    block(BT_EPB, packet_body(iface_id, ts_unix_us, data))
}

/// Writes a USB-PD trace as a pcapng stream.
///
/// Timestamps are microseconds since the Unix epoch (`if_tsresol` = 6). The bytes
/// gather in `out` until [`flush`](PcapNgWriter::flush) hands them over.
pub struct PcapNgWriter {
    pub out: Vec<u8>,
}

impl PcapNgWriter {
    /// Create a writer, emitting the Section Header Block and one Interface
    /// Description Block per entry in `interfaces` (interface id = index).
    pub fn new(out: Vec<u8>, interfaces: &[IfaceDesc<'_>]) -> (w: PcapNgWriter)
        ensures
            w.out@ == out@ + file_header(iface_views(interfaces@)),
    {
        let ghost start = out@;
        let mut out = out;
        // Section Header Block.
        let mut shb: Vec<u8> = Vec::new();
        bytes::push_le32(&mut shb, BYTE_ORDER_MAGIC);
        bytes::push_le16(&mut shb, 1);  // major
        bytes::push_le16(&mut shb, 0);  // minor
        bytes::push_le32(&mut shb, 0xFFFF_FFFF);  // section length: unknown
        bytes::push_le32(&mut shb, 0xFFFF_FFFF);
        proof {
            assert(bytes::le32(0xFFFF_FFFF) =~= seq![0xFFu8, 0xFF, 0xFF, 0xFF]) by {
                reveal(bytes::le32);
            }
            assert(shb@ =~= section_body());
        }
        write_block(&mut out, BT_SHB, shb.as_slice());
        let ghost all = iface_views(interfaces@);
        let ghost head = out@;
        let mut i: usize = 0;
        assert(all.take(0) =~= Seq::<IfaceDescView>::empty());
        assert(out@ =~= head + interface_blocks(all.take(0)));
        while i < interfaces.len()
            invariant
                i <= interfaces@.len(),
                all == iface_views(interfaces@),
                out@ == head + interface_blocks(all.take(i as int)),
            decreases interfaces@.len() - i,
        {
            let iface = &interfaces[i];
            let mut idb: Vec<u8> = Vec::new();
            bytes::push_le16(&mut idb, (iface.linktype % 65536) as u16);
            bytes::push_le16(&mut idb, 0);  // reserved
            bytes::push_le32(&mut idb, iface.snaplen);
            // Options: if_name (code 2), if_tsresol (code 9, microseconds), endofopt.
            push_option(&mut idb, 2, iface.name.as_bytes());
            let micros: [u8; 1] = [6];
            push_option(&mut idb, 9, &micros);  // 10^-6 s
            let nothing: [u8; 0] = [];
            push_option(&mut idb, 0, &nothing);  // opt_endofopt
            proof {
                assert(micros@ =~= seq![6u8]);
                assert(nothing@ =~= Seq::<u8>::empty());
                assert(idb@ =~= interface_body(all[i as int]));
                assert(all.take(i + 1).drop_last() =~= all.take(i as int));
            }
            write_block(&mut out, BT_IDB, idb.as_slice());
            i = i + 1;
            assert(out@ =~= head + interface_blocks(all.take(i as int)));
        }
        assert(all.take(i as int) =~= all);
        assert(out@ =~= start + file_header(all));
        PcapNgWriter { out }
    }

    /// Append one packet on `iface_id`, timestamped `ts_unix_us` microseconds
    /// since the Unix epoch. `data` is the full link-layer payload (pseudo-header
    /// + PD message).
    pub fn write_packet(&mut self, iface_id: u32, ts_unix_us: u64, data: &[u8])
        ensures
            final(self).out@ == old(self).out@ + packet_block(iface_id, ts_unix_us, data@),
    {
        let len: u32 = (data.len() as u64 % 0x1_0000_0000) as u32;
        let mut epb: Vec<u8> = Vec::new();
        bytes::push_le32(&mut epb, iface_id);
        bytes::push_le32(&mut epb, (ts_unix_us / 0x1_0000_0000) as u32);  // ts high
        bytes::push_le32(&mut epb, (ts_unix_us % 0x1_0000_0000) as u32);  // ts low
        bytes::push_le32(&mut epb, len);  // captured len
        bytes::push_le32(&mut epb, len);  // original len
        bytes::push_bytes(&mut epb, data);
        pad(&mut epb);  // pad packet data to 32 bits (within the block body)
        assert(epb@ =~= packet_body(iface_id, ts_unix_us, data@));
        write_block(&mut self.out, BT_EPB, epb.as_slice());
    }

    /// Hand over the buffered output.
    pub fn flush(&mut self) -> (b: Vec<u8>)
        ensures
            b@ == old(self).out@,
            final(self).out@.len() == 0,
    {
        let mut b: Vec<u8> = Vec::new();
        std::mem::swap(&mut b, &mut self.out);
        b
    }
}

/// Append zero bytes up to a multiple of 4.
fn pad(out: &mut Vec<u8>)
    ensures
        final(out)@ == padded(old(out)@),
{
    let ghost start = out@;
    let n: usize = out.len();
    let missing: usize = (4 - n % 4) % 4;
    let mut i: usize = 0;
    assert(out@ =~= start + zeros(0));
    while i < missing
        invariant
            i <= missing,
            out@ == start + zeros(i as nat),
        decreases missing - i,
    {
        out.push(0);
        i = i + 1;
        assert(out@ =~= start + zeros(i as nat));
    }
}

/// Write a generic pcapng block: type, total length, body (padded to 32 bits),
/// trailing total length.
fn write_block(out: &mut Vec<u8>, block_type: u32, body: &[u8])
    ensures
        final(out)@ == old(out)@ + block(block_type, body@),
{
    let ghost start = out@;
    let mut filled = slice_to_vec(body);
    pad(&mut filled);
    let n: u64 = filled.len() as u64;
    let total: u32 = ((n % 0x1_0000_0000 + 12) % 0x1_0000_0000) as u32;
    assert(total == (12 + n) % 0x1_0000_0000) by {
        let q = n / 0x1_0000_0000;
        assert(n == 0x1_0000_0000 * q + n % 0x1_0000_0000);
    }
    bytes::push_le32(out, block_type);
    bytes::push_le32(out, total);
    bytes::push_bytes(out, filled.as_slice());
    bytes::push_le32(out, total);
    proof {
        let (t, n, f) = (bytes::le32(block_type), bytes::le32(total), filled@);
        bytes::lemma_regroup(start, t, n);
        bytes::lemma_regroup(start, t + n, f);
        bytes::lemma_regroup(start, t + n + f, n);
    }
}

/// Append a pcapng option (code, value padded to 32 bits) to a block body.
fn push_option(body: &mut Vec<u8>, code: u16, value: &[u8])
    ensures
        final(body)@ == with_option(old(body)@, code, value@),
{
    bytes::push_le16(body, code);
    bytes::push_le16(body, (value.len() % 65536) as u16);
    bytes::push_bytes(body, value);
    pad(body);
}

/// Every block is a whole number of 32-bit words, and says so at both ends: below
/// 4 GiB the leading and the trailing length are the length of the block.
#[verifier::rlimit(40)]
pub proof fn block_is_framed(block_type: u32, body: Seq<u8>)
    requires
        body.len() + 16 < 0x1_0000_0000,
    ensures
        ({
            let b = block(block_type, body);
            &&& b.len() % 4 == 0
            &&& b.len() == 12 + padded(body).len()
            &&& word(b, 0) == block_type
            &&& word(b, 4) == b.len()
            &&& word(b, b.len() - 4) == b.len()
            &&& b.subrange(8, b.len() - 4) == padded(body)
        }),
{
    let b = block(block_type, body);
    let total = (12 + padded(body).len()) as u32;
    bytes::lemma_le32_round_trip(block_type);
    bytes::lemma_le32_round_trip(total);
    assert(b =~= bytes::le32(block_type) + bytes::le32(total) + padded(body) + bytes::le32(total));
    assert(b.subrange(8, b.len() - 4) =~= padded(body));
    let n = b.len() - 4;
    assert(b[n] == bytes::le32(total)[0]);
    assert(b[n + 1] == bytes::le32(total)[1]);
    assert(b[n + 2] == bytes::le32(total)[2]);
    assert(b[n + 3] == bytes::le32(total)[3]);
}

/// The 32-bit little-endian word at offset `i`.
pub open spec fn word(b: Seq<u8>, i: int) -> u32 {
    bytes::u32_le(b[i], b[i + 1], b[i + 2], b[i + 3])
}

/// One interface of a trace file.
#[derive(Debug, Clone, PartialEq, Eq)]
pub struct TraceInterface {
    /// The bytes of the interface's name, if it has one.
    pub name: Option<Vec<u8>>,
    pub linktype: u32,
    /// Timestamp resolution: units of 10^-tsresol seconds.
    pub tsresol: u8,
}

/// One packet of a trace file.
#[derive(Debug, Clone, PartialEq, Eq)]
pub struct TracePacket {
    pub iface_id: u32,
    /// Timestamp, in units of the interface's resolution.
    pub ts: u64,
    pub data: Vec<u8>,
}

/// A decoded trace file.
#[derive(Debug, Clone, PartialEq, Eq)]
pub struct TraceFile {
    pub interfaces: Vec<TraceInterface>,
    pub packets: Vec<TracePacket>,
}

/// What a [`TraceInterface`] holds.
#[verifier::ext_equal]
pub struct TraceInterfaceView {
    pub name: Option<Seq<u8>>,
    pub linktype: u32,
    pub tsresol: u8,
}

/// What a [`TracePacket`] holds.
#[verifier::ext_equal]
pub struct TracePacketView {
    pub iface_id: u32,
    pub ts: u64,
    pub data: Seq<u8>,
}

/// What a [`TraceFile`] holds.
#[verifier::ext_equal]
pub struct TraceFileView {
    pub interfaces: Seq<TraceInterfaceView>,
    pub packets: Seq<TracePacketView>,
}

impl View for TraceInterface {
    type V = TraceInterfaceView;

    open spec fn view(&self) -> TraceInterfaceView {
        TraceInterfaceView {
            name: match self.name {
                Some(n) => Some(n@),
                None => None,
            },
            linktype: self.linktype,
            tsresol: self.tsresol,
        }
    }
}

impl View for TracePacket {
    type V = TracePacketView;

    open spec fn view(&self) -> TracePacketView {
        TracePacketView { iface_id: self.iface_id, ts: self.ts, data: self.data@ }
    }
}

impl View for TraceFile {
    type V = TraceFileView;

    open spec fn view(&self) -> TraceFileView {
        TraceFileView {
            interfaces: Seq::new(self.interfaces@.len(), |i: int| self.interfaces@[i]@),
            packets: Seq::new(self.packets@.len(), |i: int| self.packets@[i]@),
        }
    }
}

impl TraceInterface {
    /// The interface's name as text, if it has one.
    pub fn name_text(&self) -> (r: Option<String>)
        ensures
            match self@.name {
                Some(b) => r matches Some(s) && s@ == text::lossy_utf8(b) && (
                vstd::utf8::valid_utf8(b) ==> s@ == vstd::utf8::decode_utf8(b)),
                None => r is None,
            },
    {
        match &self.name {
            Some(b) => Some(text::decode_utf8_lossy(b.as_slice())),
            None => None,
        }
    }
}

/// The length of the block that `b` starts with, or what is wrong with it.
pub open spec fn frame(b: Seq<u8>) -> core::result::Result<int, Seq<char>> {
    if b.len() < 12 {
        Err("truncated block"@)
    } else {
        let total = word(b, 4) as int;
        if total < 12 || total % 4 != 0 {
            Err("bad block length"@)
        } else if total > b.len() {
            Err("truncated block"@)
        } else if word(b, total - 4) != total {
            Err("block lengths differ"@)
        } else {
            Ok(total)
        }
    }
}

/// The name and resolution that a list of interface options gives, starting from
/// the ones given. The list ends with the end-of-options mark, or where it breaks off.
pub open spec fn interface_options(
    b: Seq<u8>,
    name: Option<Seq<u8>>,
    tsresol: u8,
) -> (Option<Seq<u8>>, u8)
    decreases b.len(),
{
    if b.len() < 4 {
        (name, tsresol)
    } else {
        let code = bytes::u16_le(b[0], b[1]);
        let len = bytes::u16_le(b[2], b[3]) as int;
        let next = 4 + len + (4 - len % 4) % 4;
        if code == 0 || b.len() < next {
            (name, tsresol)
        } else {
            let value = b.subrange(4, 4 + len);
            let name1 = if code == 2 {
                Some(value)
            } else {
                name
            };
            let tsresol1 = if code == 9 && len > 0 {
                value[0]
            } else {
                tsresol
            };
            interface_options(b.skip(next), name1, tsresol1)
        }
    }
}

impl TraceFileView {
    /// The file with one more block taken in; blocks of other types are skipped.
    pub open spec fn absorb(self, block_type: u32, body: Seq<u8>) -> core::result::Result<
        TraceFileView,
        Seq<char>,
    > {
        if block_type == BT_IDB {
            if body.len() < 8 {
                Err("short interface description"@)
            } else {
                let (name, tsresol) = interface_options(body.skip(8), None, 6);
                Ok(
                    TraceFileView {
                        interfaces: self.interfaces.push(
                            TraceInterfaceView {
                                name,
                                linktype: bytes::u16_le(body[0], body[1]) as u32,
                                tsresol,
                            },
                        ),
                        ..self
                    },
                )
            }
        } else if block_type == BT_EPB {
            if body.len() < 20 || word(body, 12) > body.len() - 20 {
                Err("short packet block"@)
            } else {
                Ok(
                    TraceFileView {
                        packets: self.packets.push(
                            TracePacketView {
                                iface_id: word(body, 0),
                                ts: (word(body, 4) * 0x1_0000_0000 + word(body, 8)) as u64,
                                data: body.subrange(20, 20 + word(body, 12)),
                            },
                        ),
                        ..self
                    },
                )
            }
        } else if block_type == BT_SHB {
            Err("more than one section"@)
        } else {
            Ok(self)
        }
    }

    /// The file with all the blocks of `b` taken in.
    pub open spec fn absorb_all(self, b: Seq<u8>) -> core::result::Result<TraceFileView, Seq<char>>
        decreases b.len(),
    {
        if b.len() == 0 {
            Ok(self)
        } else {
            match frame(b) {
                Err(why) => Err(why),
                Ok(total) => match self.absorb(word(b, 0), b.subrange(8, total - 4)) {
                    Err(why) => Err(why),
                    Ok(next) => next.absorb_all(b.skip(total)),
                },
            }
        }
    }

    /// The file that `b` holds, or what is wrong with it. A file is one
    /// little-endian section: its header block, then other blocks.
    pub open spec fn parsed(b: Seq<u8>) -> core::result::Result<TraceFileView, Seq<char>> {
        match frame(b) {
            Err(why) => Err(why),
            Ok(total) => if word(b, 0) != BT_SHB || total < 28 {
                Err("no section header"@)
            } else if word(b, 8) != BYTE_ORDER_MAGIC {
                Err("unsupported byte order"@)
            } else {
                (TraceFileView { interfaces: Seq::empty(), packets: Seq::empty() }).absorb_all(
                    b.skip(total),
                )
            },
        }
    }
}

/// A protocol error with the given text.
fn malformed<T>(why: &str) -> (r: Result<T>)
    ensures
        error::is_protocol_error(r, why@),
{
    Err(Error::Protocol(why.to_owned()))
}

/// The 32-bit little-endian word at offset `i`.
fn read_word(b: &[u8], i: usize) -> (w: u32)
    requires
        i + 4 <= b@.len(),
    ensures
        w == word(b@, i as int),
{
    bytes::read_u32_le(b[i], b[i + 1], b[i + 2], b[i + 3])
}

/// The length of the block that `b` starts with.
fn read_frame(b: &[u8]) -> (r: Result<usize>)
    ensures
        match frame(b@) {
            Ok(total) => r matches Ok(n) && n == total && 12 <= n <= b@.len(),
            Err(why) => error::is_protocol_error(r, why),
        },
{
    if b.len() < 12 {
        return malformed("truncated block");
    }
    let total: usize = read_word(b, 4) as usize;
    if total < 12 || total % 4 != 0 {
        return malformed("bad block length");
    }
    if total > b.len() {
        return malformed("truncated block");
    }
    if read_word(b, total - 4) as usize != total {
        return malformed("block lengths differ");
    }
    Ok(total)
}

/// The name and resolution that a list of interface options gives.
fn read_options(b: &[u8]) -> (r: (Option<Vec<u8>>, u8))
    ensures
        ({
            let (name, tsresol) = interface_options(b@, None, 6);
            &&& r.1 == tsresol
            &&& match r.0 {
                Some(n) => name == Some(n@),
                None => name is None,
            }
        }),
{
    let mut name: Option<Vec<u8>> = None;
    let mut tsresol: u8 = 6;
    let ghost mut seen: Option<Seq<u8>> = None;
    let mut rest = b;
    while rest.len() >= 4
        invariant
            interface_options(rest@, seen, tsresol) == interface_options(b@, None, 6),
            match name {
                Some(n) => seen == Some(n@),
                None => seen is None,
            },
        decreases rest@.len(),
    {
        let code: u16 = bytes::read_u16_le(rest[0], rest[1]);
        let len: usize = bytes::read_u16_le(rest[2], rest[3]) as usize;
        let next: usize = 4 + len + (4 - len % 4) % 4;
        if code == 0 || rest.len() < next {
            return (name, tsresol);
        }
        let value = slice_subrange(rest, 4, 4 + len);
        if code == 2 {
            name = Some(slice_to_vec(value));
            proof {
                seen = Some(value@);
            }
        }
        if code == 9 && len > 0 {
            tsresol = value[0];
        }
        let n: usize = rest.len();
        let ghost before = rest@;
        rest = slice_subrange(rest, next, n);
        assert(rest@ =~= before.skip(next as int));
    }
    (name, tsresol)
}

impl TraceFile {
    /// Take in one more block.
    fn absorb(&mut self, block_type: u32, body: &[u8]) -> (r: Result<()>)
        ensures
            match old(self)@.absorb(block_type, body@) {
                Ok(next) => r is Ok && final(self)@ == next,
                Err(why) => error::is_protocol_error(r, why),
            },
    {
        let ghost before = self@;
        let n: usize = body.len();
        if block_type == BT_IDB {
            if n < 8 {
                return malformed("short interface description");
            }
            let opts = slice_subrange(body, 8, n);
            assert(opts@ =~= body@.skip(8));
            let (name, tsresol) = read_options(opts);
            let linktype: u32 = bytes::read_u16_le(body[0], body[1]) as u32;
            self.interfaces.push(TraceInterface { name, linktype, tsresol });
            assert(self@.interfaces =~= before.absorb(block_type, body@)->Ok_0.interfaces);
            assert(self@.packets =~= before.packets);
        } else if block_type == BT_EPB {
            if n < 20 {
                return malformed("short packet block");
            }
            let captured: usize = read_word(body, 12) as usize;
            if captured > n - 20 {
                return malformed("short packet block");
            }
            let high: u64 = read_word(body, 4) as u64;
            let low: u64 = read_word(body, 8) as u64;
            self.packets.push(
                TracePacket {
                    iface_id: read_word(body, 0),
                    ts: high * 0x1_0000_0000 + low,
                    data: slice_to_vec(slice_subrange(body, 20, 20 + captured)),
                },
            );
            assert(self@.packets =~= before.absorb(block_type, body@)->Ok_0.packets);
            assert(self@.interfaces =~= before.interfaces);
        } else if block_type == BT_SHB {
            return malformed("more than one section");
        }
        Ok(())
    }
}

/// Decode a pcapng file: one little-endian section with its interfaces and packets.
pub fn parse_pcapng(buf: &[u8]) -> (r: Result<TraceFile>)
    ensures
        match TraceFileView::parsed(buf@) {
            Ok(file) => r matches Ok(f) && f@ == file,
            Err(why) => error::is_protocol_error(r, why),
        },
{
    let total: usize = match read_frame(buf) {
        Ok(total) => total,
        Err(e) => return Err(e),
    };
    if read_word(buf, 0) != BT_SHB || total < 28 {
        return malformed("no section header");
    }
    if read_word(buf, 8) != BYTE_ORDER_MAGIC {
        return malformed("unsupported byte order");
    }
    let mut file = TraceFile { interfaces: Vec::new(), packets: Vec::new() };
    let ghost start = TraceFileView { interfaces: Seq::empty(), packets: Seq::empty() };
    let n: usize = buf.len();
    let mut rest = slice_subrange(buf, total, n);
    let ghost all = rest@;
    proof {
        assert(all =~= buf@.skip(total as int));
        assert(file@ =~= start);
    }
    while rest.len() > 0
        invariant
            file@.absorb_all(rest@) == start.absorb_all(all),
            TraceFileView::parsed(buf@) == start.absorb_all(all),
        decreases rest@.len(),
    {
        let size: usize = match read_frame(rest) {
            Ok(size) => size,
            Err(e) => return Err(e),
        };
        let ghost before = rest@;
        let block_type: u32 = read_word(rest, 0);
        let body = slice_subrange(rest, 8, size - 4);
        match file.absorb(block_type, body) {
            Ok(_) => {},
            Err(e) => return Err(e),
        }
        let left: usize = rest.len();
        rest = slice_subrange(rest, size, left);
        assert(rest@ =~= before.skip(size as int));
    }
    Ok(file)
}

/// The packet blocks of a list of packets.
pub open spec fn packet_blocks(packets: Seq<TracePacketView>) -> Seq<u8>
    decreases packets.len(),
{
    if packets.len() == 0 {
        Seq::empty()
    } else {
        packet_blocks(packets.drop_last()) + packet_block(
            packets.last().iface_id,
            packets.last().ts,
            packets.last().data,
        )
    }
}

/// The interface that a description is read back as.
pub open spec fn read_back(i: IfaceDescView) -> TraceInterfaceView {
    TraceInterfaceView {
        name: Some(vstd::utf8::encode_utf8(i.name)),
        linktype: i.linktype,
        tsresol: 6,
    }
}

/// Whether a description fits the 16-bit fields of its block.
pub open spec fn describable(i: IfaceDescView) -> bool {
    i.linktype < 65536 && vstd::utf8::encode_utf8(i.name).len() < 65536
}

/// A block in front of other bytes is framed as that block.
#[verifier::rlimit(40)]
proof fn lemma_absorb_block(f: TraceFileView, block_type: u32, body: Seq<u8>, rest: Seq<u8>)
    requires
        body.len() + 16 < 0x1_0000_0000,
    ensures
        f.absorb_all(block(block_type, body) + rest) == (match f.absorb(block_type, padded(body)) {
            Ok(next) => next.absorb_all(rest),
            Err(why) => Err(why),
        }),
        frame(block(block_type, body) + rest) == Ok::<_, Seq<char>>(
            block(block_type, body).len() as int,
        ),
{
    let b = block(block_type, body);
    let all = b + rest;
    block_is_framed(block_type, body);
    let total = b.len() as int;
    assert(word(all, 0) == word(b, 0));
    assert(word(all, 4) == word(b, 4));
    assert(word(all, total - 4) == word(b, total - 4));
    assert(all.subrange(8, total - 4) =~= b.subrange(8, total - 4));
    assert(all.skip(total) =~= rest);
}

/// An option laid out on its own.
spec fn option_bytes(code: u16, value: Seq<u8>) -> Seq<u8> {
    padded(bytes::le16(code) + bytes::le16((value.len() % 65536) as u16) + value)
}

/// An aligned prefix does not change how much padding is missing.
proof fn lemma_missing(n: int, m: int)
    requires
        0 <= n,
        0 <= m,
        n % 4 == 0,
    ensures
        (4 - (n + m) % 4) % 4 == (4 - m % 4) % 4,
        (m + (4 - m % 4) % 4) % 4 == 0,
        0 <= (4 - m % 4) % 4 < 4,
{
}

/// Padding after an aligned prefix is padding of what follows it.
proof fn lemma_padded_suffix(a: Seq<u8>, b: Seq<u8>)
    requires
        a.len() % 4 == 0,
    ensures
        padded(a + b) == a + padded(b),
        padded(b).len() % 4 == 0,
        b.len() <= padded(b).len() < b.len() + 4,
{
    lemma_missing(a.len() as int, b.len() as int);
    let pad = zeros(((4 - b.len() % 4) % 4) as nat);
    assert((a + b).len() == a.len() + b.len());
    assert(padded(b) == b + pad);
    assert(padded(a + b) == a + b + pad);
    bytes::lemma_regroup(a, b, pad);
}

/// On an aligned body, adding an option appends it.
proof fn lemma_with_option(body: Seq<u8>, code: u16, value: Seq<u8>)
    requires
        body.len() % 4 == 0,
    ensures
        with_option(body, code, value) == body + option_bytes(code, value),
        option_bytes(code, value).len() % 4 == 0,
{
    let (c, n) = (bytes::le16(code), bytes::le16((value.len() % 65536) as u16));
    bytes::lemma_regroup(body, c, n);
    bytes::lemma_regroup(body, c + n, value);
    lemma_padded_suffix(body, c + n + value);
}

/// An option in front of others is read and the others follow.
#[verifier::rlimit(40)]
proof fn lemma_read_option(
    code: u16,
    value: Seq<u8>,
    rest: Seq<u8>,
    name: Option<Seq<u8>>,
    tsresol: u8,
)
    requires
        code != 0,
        value.len() < 65536,
    ensures
        interface_options(option_bytes(code, value) + rest, name, tsresol) == interface_options(
            rest,
            if code == 2 {
                Some(value)
            } else {
                name
            },
            if code == 9 && value.len() > 0 {
                value[0]
            } else {
                tsresol
            },
        ),
{
    let o = option_bytes(code, value);
    let all = o + rest;
    let len = value.len() as int;
    bytes::lemma_le16_round_trip(code);
    bytes::lemma_le16_round_trip(len as u16);
    assert(all[0] == bytes::le16(code)[0] && all[1] == bytes::le16(code)[1]);
    assert(all[2] == bytes::le16(len as u16)[0] && all[3] == bytes::le16(len as u16)[1]);
    assert(o.len() == 4 + len + (4 - len % 4) % 4);
    assert(all.subrange(4, 4 + len) =~= value);
    assert(all.skip(o.len() as int) =~= rest);
}

/// Words laid out one after the other are found at their offsets, and the data
/// after them.
#[verifier::rlimit(40)]
proof fn lemma_five_words(
    w0: Seq<u8>,
    w1: Seq<u8>,
    w2: Seq<u8>,
    w3: Seq<u8>,
    w4: Seq<u8>,
    data: Seq<u8>,
)
    requires
        w0.len() == 4,
        w1.len() == 4,
        w2.len() == 4,
        w3.len() == 4,
        w4.len() == 4,
    ensures
        ({
            let b = padded(w0 + w1 + w2 + w3 + w4 + data);
            &&& word(b, 0) == word(w0, 0)
            &&& word(b, 4) == word(w1, 0)
            &&& word(b, 8) == word(w2, 0)
            &&& word(b, 12) == word(w3, 0)
            &&& b.subrange(20, 20 + data.len() as int) == data
            &&& b.len() % 4 == 0
            &&& 20 + data.len() <= b.len() < 24 + data.len()
            &&& padded(b) == b
        }),
{
    let b = padded(w0 + w1 + w2 + w3 + w4 + data);
    assert(b.subrange(20, 20 + data.len() as int) =~= data);
    assert(padded(b) =~= b);
}

/// The parts of an interface description are found at their offsets.
#[verifier::rlimit(40)]
proof fn lemma_interface_parts(
    linktype: Seq<u8>,
    reserved: Seq<u8>,
    snaplen: Seq<u8>,
    name: Seq<u8>,
)
    requires
        linktype.len() == 2,
        reserved.len() == 2,
        snaplen.len() == 4,
        name.len() < 65536,
    ensures
        ({
            let body = with_option(
                with_option(with_option(linktype + reserved + snaplen, 2, name), 9, seq![6u8]),
                0,
                Seq::empty(),
            );
            &&& body.len() % 4 == 0
            &&& 8 <= body.len() < 65536 + 64
            &&& padded(body) == body
            &&& body[0] == linktype[0]
            &&& body[1] == linktype[1]
            &&& interface_options(body.skip(8), None, 6) == (Some(name), 6u8)
        }),
{
    let fixed = linktype + reserved + snaplen;
    let (o2, o9, o0) = (
        option_bytes(2, name),
        option_bytes(9, seq![6u8]),
        option_bytes(0, Seq::<u8>::empty()),
    );
    lemma_with_option(fixed, 2, name);
    lemma_with_option(fixed + o2, 9, seq![6u8]);
    lemma_with_option(fixed + o2 + o9, 0, Seq::<u8>::empty());
    let body = fixed + o2 + o9 + o0;
    assert(o9.len() == 8 && o0.len() == 4);
    assert(padded(body) =~= body);
    assert(body.skip(8) =~= o2 + (o9 + o0));
    lemma_read_option(2, name, o9 + o0, None, 6);
    lemma_read_option(9, seq![6u8], o0, Some(name), 6);
    assert(o0[0] == 0 && o0[1] == 0);
    assert(interface_options(o0, Some(name), 6) == (Some(name), 6u8));
}

/// An interface description made of the given parts is taken in as that interface.
proof fn lemma_absorb_parts(
    f: TraceFileView,
    linktype: Seq<u8>,
    reserved: Seq<u8>,
    snaplen: Seq<u8>,
    name: Seq<u8>,
)
    requires
        linktype.len() == 2,
        reserved.len() == 2,
        snaplen.len() == 4,
        name.len() < 65536,
    ensures
        ({
            let body = with_option(
                with_option(with_option(linktype + reserved + snaplen, 2, name), 9, seq![6u8]),
                0,
                Seq::empty(),
            );
            &&& padded(body) == body
            &&& body.len() + 16 < 0x1_0000_0000
            &&& f.absorb(BT_IDB, body) == Ok::<_, Seq<char>>(
                TraceFileView {
                    interfaces: f.interfaces.push(
                        TraceInterfaceView {
                            name: Some(name),
                            linktype: bytes::u16_le(linktype[0], linktype[1]) as u32,
                            tsresol: 6,
                        },
                    ),
                    ..f
                },
            )
        }),
{
    lemma_interface_parts(linktype, reserved, snaplen, name);
}

#[verifier::rlimit(40)]
proof fn lemma_interface_body(f: TraceFileView, i: IfaceDescView)
    requires
        describable(i),
    ensures
        padded(interface_body(i)) == interface_body(i),
        interface_body(i).len() + 16 < 0x1_0000_0000,
        f.absorb(BT_IDB, interface_body(i)) == Ok::<_, Seq<char>>(
            TraceFileView { interfaces: f.interfaces.push(read_back(i)), ..f },
        ),
{
    let lt = (i.linktype % 65536) as u16;
    let (w0, w1, w2) = (bytes::le16(lt), bytes::le16(0), bytes::le32(i.snaplen));
    bytes::lemma_le16_round_trip(lt);
    lemma_absorb_parts(f, w0, w1, w2, vstd::utf8::encode_utf8(i.name));
}

proof fn lemma_absorb_interface(f: TraceFileView, i: IfaceDescView, rest: Seq<u8>)
    requires
        describable(i),
    ensures
        f.absorb_all(block(BT_IDB, interface_body(i)) + rest) == (TraceFileView {
            interfaces: f.interfaces.push(read_back(i)),
            ..f
        }).absorb_all(rest),
{
    let body = interface_body(i);
    let g = TraceFileView { interfaces: f.interfaces.push(read_back(i)), ..f };
    assert(padded(body) == body && body.len() + 16 < 0x1_0000_0000 && f.absorb(BT_IDB, body)
        == Ok::<_, Seq<char>>(g)) by {
        lemma_interface_body(f, i);
    }
    lemma_absorb_block(f, BT_IDB, body, rest);
}

/// A packet body made of the given words is taken in as that packet.
proof fn lemma_absorb_words(
    f: TraceFileView,
    p: TracePacketView,
    w0: Seq<u8>,
    w1: Seq<u8>,
    w2: Seq<u8>,
    w3: Seq<u8>,
)
    requires
        w0.len() == 4 && word(w0, 0) == p.iface_id,
        w1.len() == 4 && w2.len() == 4,
        word(w1, 0) * 0x1_0000_0000 + word(w2, 0) == p.ts,
        w3.len() == 4 && word(w3, 0) == p.data.len(),
    ensures
        ({
            let body = padded(w0 + w1 + w2 + w3 + w3 + p.data);
            f.absorb(BT_EPB, body) == Ok::<_, Seq<char>>(
                TraceFileView { packets: f.packets.push(p), ..f },
            )
        }),
{
    lemma_five_words(w0, w1, w2, w3, w3, p.data);
}

proof fn lemma_absorb_packet(f: TraceFileView, p: TracePacketView, rest: Seq<u8>)
    requires
        p.data.len() + 64 < 0x1_0000_0000,
    ensures
        f.absorb_all(packet_block(p.iface_id, p.ts, p.data) + rest) == (TraceFileView {
            packets: f.packets.push(p),
            ..f
        }).absorb_all(rest),
{
    let (high, low) = ((p.ts / 0x1_0000_0000) as u32, (p.ts % 0x1_0000_0000) as u32);
    let len = (p.data.len() % 0x1_0000_0000) as u32;
    let (w0, w1, w2, w3) = (
        bytes::le32(p.iface_id),
        bytes::le32(high),
        bytes::le32(low),
        bytes::le32(len),
    );
    let body = padded(w0 + w1 + w2 + w3 + w3 + p.data);
    assert(packet_body(p.iface_id, p.ts, p.data) == body);
    assert(high * 0x1_0000_0000 + low == p.ts);
    assert(w0.len() == 4 && word(w0, 0) == p.iface_id && w1.len() == 4 && word(w1, 0) == high
        && w2.len() == 4 && word(w2, 0) == low && w3.len() == 4 && word(w3, 0) == len) by {
        bytes::lemma_le32_round_trip(p.iface_id);
        bytes::lemma_le32_round_trip(high);
        bytes::lemma_le32_round_trip(low);
        bytes::lemma_le32_round_trip(len);
    }
    lemma_five_words(w0, w1, w2, w3, w3, p.data);
    lemma_absorb_words(f, p, w0, w1, w2, w3);
    lemma_absorb_block(f, BT_EPB, body, rest);
}

/// The interfaces that a list of descriptions is read back as.
pub open spec fn read_back_all(ifaces: Seq<IfaceDescView>) -> Seq<TraceInterfaceView> {
    Seq::new(ifaces.len(), |k: int| read_back(ifaces[k]))
}

proof fn lemma_absorb_interfaces(f: TraceFileView, ifaces: Seq<IfaceDescView>, rest: Seq<u8>)
    requires
        forall|i: int| 0 <= i < ifaces.len() ==> describable(#[trigger] ifaces[i]),
    ensures
        f.absorb_all(interface_blocks(ifaces) + rest) == (TraceFileView {
            interfaces: f.interfaces + read_back_all(ifaces),
            ..f
        }).absorb_all(rest),
    decreases ifaces.len(),
{
    if ifaces.len() == 0 {
        assert(interface_blocks(ifaces) + rest =~= rest);
        assert(f.interfaces + read_back_all(ifaces) =~= f.interfaces);
    } else {
        let before = ifaces.drop_last();
        let last = ifaces[ifaces.len() - 1];
        let mid = TraceFileView { interfaces: f.interfaces + read_back_all(before), ..f };
        assert(mid.interfaces.push(read_back(last)) =~= f.interfaces + read_back_all(ifaces)) by {
            assert(read_back_all(ifaces) =~= read_back_all(before).push(read_back(last)));
        }
        let b = block(BT_IDB, interface_body(last));
        bytes::lemma_regroup(interface_blocks(before), b, rest);
        lemma_absorb_interfaces(f, before, b + rest);
        lemma_absorb_interface(mid, last, rest);
    }
}

proof fn lemma_absorb_packets(f: TraceFileView, packets: Seq<TracePacketView>, rest: Seq<u8>)
    requires
        forall|i: int|
            0 <= i < packets.len() ==> (#[trigger] packets[i]).data.len() + 64 < 0x1_0000_0000,
    ensures
        f.absorb_all(packet_blocks(packets) + rest) == (TraceFileView {
            packets: f.packets + packets,
            ..f
        }).absorb_all(rest),
    decreases packets.len(),
{
    if packets.len() == 0 {
        assert(packet_blocks(packets) + rest =~= rest);
        assert(f.packets + packets =~= f.packets);
    } else {
        let last = packets.last();
        let b = packet_block(last.iface_id, last.ts, last.data);
        bytes::lemma_regroup(packet_blocks(packets.drop_last()), b, rest);
        lemma_absorb_packets(f, packets.drop_last(), b + rest);
        let mid = TraceFileView { packets: f.packets + packets.drop_last(), ..f };
        assert(packets[packets.len() - 1].data.len() + 64 < 0x1_0000_0000);
        lemma_absorb_packet(mid, last, rest);
        assert(mid.packets.push(last) =~= f.packets + packets);
    }
}

/// The section header is recognized and skipped.
#[verifier::rlimit(40)]
proof fn lemma_section_header(rest: Seq<u8>)
    ensures
        TraceFileView::parsed(block(BT_SHB, section_body()) + rest) == (TraceFileView {
            interfaces: Seq::empty(),
            packets: Seq::empty(),
        }).absorb_all(rest),
{
    let shb = block(BT_SHB, section_body());
    let all = shb + rest;
    let magic = bytes::le32(BYTE_ORDER_MAGIC);
    bytes::lemma_le32_round_trip(BYTE_ORDER_MAGIC);
    let start = TraceFileView { interfaces: Seq::empty(), packets: Seq::empty() };
    lemma_absorb_block(start, BT_SHB, section_body(), rest);
    block_is_framed(BT_SHB, section_body());
    assert(padded(section_body()) =~= section_body());
    let body = shb.subrange(8, shb.len() - 4);
    assert(body == section_body());
    assert(shb[8] == body[0] && shb[9] == body[1] && shb[10] == body[2] && shb[11] == body[3]);
    assert(body[0] == magic[0] && body[1] == magic[1] && body[2] == magic[2] && body[3]
        == magic[3]);
    assert(word(all, 8) == word(magic, 0));
    assert(word(all, 0) == word(shb, 0));
    assert(all.skip(28) =~= rest);
}

/// Reading a trace back gives what was written: every interface with its name and
/// link type, and every packet with its interface, timestamp and bytes, in order.
pub proof fn trace_reads_back(ifaces: Seq<IfaceDescView>, packets: Seq<TracePacketView>)
    requires
        forall|i: int| 0 <= i < ifaces.len() ==> describable(#[trigger] ifaces[i]),
        forall|i: int|
            0 <= i < packets.len() ==> (#[trigger] packets[i]).data.len() + 64 < 0x1_0000_0000,
    ensures
        TraceFileView::parsed(file_header(ifaces) + packet_blocks(packets)) == Ok::<_, Seq<char>>(
            TraceFileView { interfaces: read_back_all(ifaces), packets },
        ),
{
    let start = TraceFileView { interfaces: Seq::empty(), packets: Seq::empty() };
    let rest = interface_blocks(ifaces) + packet_blocks(packets);
    bytes::lemma_regroup(
        block(BT_SHB, section_body()),
        interface_blocks(ifaces),
        packet_blocks(packets),
    );
    lemma_section_header(rest);
    lemma_absorb_interfaces(start, ifaces, packet_blocks(packets));
    let mid = TraceFileView { interfaces: start.interfaces + read_back_all(ifaces), ..start };
    assert(mid.interfaces =~= read_back_all(ifaces));
    lemma_absorb_packets(mid, packets, Seq::empty());
    assert(packet_blocks(packets) + Seq::empty() =~= packet_blocks(packets));
    assert(mid.packets + packets =~= packets);
}

/// A file starts with a section header of 28 bytes: its type, its length, the byte-order
/// magic, version 1.0, eight bytes that leave the section's length open, and its length
/// again.
#[verifier::rlimit(40)]
pub proof fn section_header_bytes()
    ensures
        block(BT_SHB, section_body()) == seq![
            0x0Au8,
            0x0D,
            0x0D,
            0x0A,
            28,
            0,
            0,
            0,
            0x4D,
            0x3C,
            0x2B,
            0x1A,
            1,
            0,
            0,
            0,
            0xFF,
            0xFF,
            0xFF,
            0xFF,
            0xFF,
            0xFF,
            0xFF,
            0xFF,
            28,
            0,
            0,
            0,
        ],
{
    reveal(bytes::le32);
    assert(section_body().len() == 16);
    assert(padded(section_body()) =~= section_body());
}

/// A packet block is laid out as the format says: type 6, its length, the interface, the
/// time in microseconds as its upper and its lower 32 bits, the length twice, the bytes,
/// zeros up to a multiple of four, and its length again.
#[verifier::rlimit(40)]
pub proof fn packet_block_layout(iface_id: u32, ts: u64, data: Seq<u8>)
    requires
        data.len() + 64 < 0x1_0000_0000,
    ensures
        ({
            let b = packet_block(iface_id, ts, data);
            let n = data.len() as int;
            &&& 32 + n <= b.len() < 36 + n
            &&& b.len() % 4 == 0
            &&& word(b, 0) == 6
            &&& word(b, 4) == b.len()
            &&& word(b, 8) == iface_id
            &&& word(b, 12) * 0x1_0000_0000 + word(b, 16) == ts
            &&& word(b, 20) == n
            &&& word(b, 24) == n
            &&& b.subrange(28, 28 + n) == data
            &&& forall|i: int| 28 + n <= i < b.len() - 4 ==> #[trigger] b[i] == 0
            &&& word(b, b.len() - 4) == b.len()
        }),
{
    let (high, low) = ((ts / 0x1_0000_0000) as u32, (ts % 0x1_0000_0000) as u32);
    let len = data.len() as u32;
    let (w0, w1, w2, w3) = (
        bytes::le32(iface_id),
        bytes::le32(high),
        bytes::le32(low),
        bytes::le32(len),
    );
    bytes::lemma_le32_round_trip(iface_id);
    bytes::lemma_le32_round_trip(high);
    bytes::lemma_le32_round_trip(low);
    bytes::lemma_le32_round_trip(len);
    let body = padded(w0 + w1 + w2 + w3 + w3 + data);
    assert(packet_body(iface_id, ts, data) == body);
    lemma_five_words(w0, w1, w2, w3, w3, data);
    block_is_framed(BT_EPB, body);
    let b = packet_block(iface_id, ts, data);
    let inner = b.subrange(8, b.len() - 4);
    assert(inner == body);
    assert forall|k: int| 8 <= k < 8 + body.len() implies #[trigger] b[k] == body[k - 8] by {
        assert(inner[k - 8] == b[k]);
    }
    assert(body[16] == w3[0] && body[17] == w3[1] && body[18] == w3[2] && body[19] == w3[3]);
    let n = data.len() as int;
    assert(b.subrange(28, 28 + n) =~= data) by {
        assert forall|i: int| 0 <= i < n implies b[28 + i] == data[i] by {
            assert(body.subrange(20, 20 + n)[i] == data[i]);
        }
    }
    assert(forall|i: int| 20 + n <= i < body.len() ==> #[trigger] body[i] == 0);
}

/// A packet too long for its 32-bit length has what is left of whole rounds of it there.
pub proof fn packet_length_wraps(iface_id: u32, ts: u64, data: Seq<u8>)
    ensures
        word(packet_body(iface_id, ts, data), 12) == data.len() % 0x1_0000_0000,
{
    let (high, low) = ((ts / 0x1_0000_0000) as u32, (ts % 0x1_0000_0000) as u32);
    let len = (data.len() % 0x1_0000_0000) as u32;
    let w3 = bytes::le32(len);
    bytes::lemma_le32_round_trip(len);
    lemma_five_words(bytes::le32(iface_id), bytes::le32(high), bytes::le32(low), w3, w3, data);
}

/// An interface description is laid out as the format says: the link type, two bytes of
/// zero, the snap length, the name under code 2, microseconds (10 to the power of minus
/// 6) under code 9, and the end of the options, each option with its length and padded
/// to four bytes.
#[verifier::rlimit(40)]
pub proof fn interface_description_layout(i: IfaceDescView)
    requires
        describable(i),
    ensures
        ({
            let b = interface_body(i);
            let name = vstd::utf8::encode_utf8(i.name);
            let n = name.len() as int;
            let end = 12 + n + (4 - n % 4) % 4;
            &&& b.len() == end + 12
            &&& b[0] + 256 * b[1] == i.linktype
            &&& b[2] == 0 && b[3] == 0
            &&& word(b, 4) == i.snaplen
            &&& b[8] == 2 && b[9] == 0
            &&& b[10] + 256 * b[11] == n
            &&& b.subrange(12, 12 + n) == name
            &&& forall|k: int| 12 + n <= k < end ==> #[trigger] b[k] == 0
            &&& b.subrange(end, end + 12) == seq![9u8, 0, 1, 0, 6, 0, 0, 0, 0, 0, 0, 0]
            &&& BT_IDB == 1
        }),
{
    let name = vstd::utf8::encode_utf8(i.name);
    let n = name.len() as int;
    let lt = bytes::le16((i.linktype % 65536) as u16);
    let sl = bytes::le32(i.snaplen);
    bytes::byte_orders((i.linktype % 65536) as u16, 0, 0, 0, 0, 0);
    bytes::lemma_le32_round_trip(i.snaplen);
    bytes::byte_orders(n as u16, 0, 0, 0, 0, 0);
    let fixed = lt + bytes::le16(0) + sl;
    let (o2, o9, o0) = (
        option_bytes(2, name),
        option_bytes(9, seq![6u8]),
        option_bytes(0, Seq::<u8>::empty()),
    );
    lemma_with_option(fixed, 2, name);
    lemma_with_option(fixed + o2, 9, seq![6u8]);
    lemma_with_option(fixed + o2 + o9, 0, Seq::<u8>::empty());
    let b = interface_body(i);
    assert(b == fixed + o2 + o9 + o0);
    assert(o2.len() == 4 + n + (4 - n % 4) % 4);
    let end = 12 + n + (4 - n % 4) % 4;
    assert(b[4] == sl[0] && b[5] == sl[1] && b[6] == sl[2] && b[7] == sl[3]);
    assert(b.subrange(12, 12 + n) =~= name) by {
        assert forall|k: int| 0 <= k < n implies b[12 + k] == name[k] by {
            assert(b[12 + k] == o2[4 + k]);
        }
    }
    assert(o9 =~= seq![9u8, 0, 1, 0, 6, 0, 0, 0]);
    assert(o0 =~= seq![0u8, 0, 0, 0]);
    assert(b.subrange(end, end + 12) =~= o9 + o0);
    assert(o9 + o0 =~= seq![9u8, 0, 1, 0, 6, 0, 0, 0, 0, 0, 0, 0]);
}

/// A file that breaks off within a packet is refused as truncated, wherever it breaks
/// off, and whatever was written before.
pub proof fn truncated_trace_is_refused(
    ifaces: Seq<IfaceDescView>,
    packets: Seq<TracePacketView>,
    last: TracePacketView,
    kept: int,
)
    requires
        forall|i: int| 0 <= i < ifaces.len() ==> describable(#[trigger] ifaces[i]),
        forall|i: int|
            0 <= i < packets.len() ==> (#[trigger] packets[i]).data.len() + 64 < 0x1_0000_0000,
        last.data.len() + 64 < 0x1_0000_0000,
        0 < kept < packet_block(last.iface_id, last.ts, last.data).len(),
    ensures
        TraceFileView::parsed(
            file_header(ifaces) + packet_blocks(packets) + packet_block(
                last.iface_id,
                last.ts,
                last.data,
            ).take(kept),
        ) == Err::<TraceFileView, _>("truncated block"@),
{
    let b = packet_block(last.iface_id, last.ts, last.data);
    let rest = b.take(kept);
    packet_block_layout(last.iface_id, last.ts, last.data);
    let start = TraceFileView { interfaces: Seq::empty(), packets: Seq::empty() };
    let shb = block(BT_SHB, section_body());
    assert(file_header(ifaces) + packet_blocks(packets) + rest =~= shb + (interface_blocks(ifaces)
        + (packet_blocks(packets) + rest)));
    lemma_section_header(interface_blocks(ifaces) + (packet_blocks(packets) + rest));
    lemma_absorb_interfaces(start, ifaces, packet_blocks(packets) + rest);
    let mid = TraceFileView { interfaces: start.interfaces + read_back_all(ifaces), ..start };
    lemma_absorb_packets(mid, packets, rest);
    if kept >= 12 {
        assert(word(rest, 4) == word(b, 4));
    }
}

/// What is read of the blocks: a block of a type that says nothing here is passed over,
/// a second section is refused, and so is a packet that claims more bytes than its block
/// has.
pub proof fn blocks_are_taken_by_type(
    f: TraceFileView,
    block_type: u32,
    body: Seq<u8>,
    rest: Seq<u8>,
)
    requires
        body.len() + 16 < 0x1_0000_0000,
        body.len() % 4 == 0,
    ensures
        block_type != 1 && block_type != 6 && block_type != 0x0A0D_0D0A ==> f.absorb_all(
            block(block_type, body) + rest,
        ) == f.absorb_all(rest),
        block_type == 0x0A0D_0D0A ==> f.absorb_all(block(block_type, body) + rest) == Err::<
            TraceFileView,
            _,
        >("more than one section"@),
        block_type == 6 && body.len() >= 20 && word(body, 12) > body.len() - 20 ==> f.absorb_all(
            block(block_type, body) + rest,
        ) == Err::<TraceFileView, _>("short packet block"@),
        block_type == 6 && body.len() < 20 ==> f.absorb_all(block(block_type, body) + rest) == Err::<
            TraceFileView,
            _,
        >("short packet block"@),
        block_type == 1 && body.len() < 8 ==> f.absorb_all(block(block_type, body) + rest) == Err::<
            TraceFileView,
            _,
        >("short interface description"@),
{
    assert(padded(body) =~= body);
    lemma_absorb_block(f, block_type, body, rest);
}

/// A file is refused unless it starts with a little-endian section header.
pub proof fn other_files_are_refused(block_type: u32, body: Seq<u8>, rest: Seq<u8>)
    requires
        body.len() + 16 < 0x1_0000_0000,
        body.len() % 4 == 0,
    ensures
        block_type != 0x0A0D_0D0A || body.len() < 16 ==> TraceFileView::parsed(
            block(block_type, body) + rest,
        ) == Err::<TraceFileView, _>("no section header"@),
        block_type == 0x0A0D_0D0A && body.len() >= 16 && word(body, 0) != 0x1A2B_3C4D
            ==> TraceFileView::parsed(block(block_type, body) + rest) == Err::<TraceFileView, _>(
            "unsupported byte order"@,
        ),
{
    let b = block(block_type, body);
    let all = b + rest;
    let start = TraceFileView { interfaces: Seq::empty(), packets: Seq::empty() };
    assert(padded(body) =~= body);
    lemma_absorb_block(start, block_type, body, rest);
    block_is_framed(block_type, body);
    assert(word(all, 0) == word(b, 0));
    if body.len() >= 16 {
        let inner = b.subrange(8, b.len() - 4);
        assert(inner == body);
        assert(b[8] == inner[0] && b[9] == inner[1] && b[10] == inner[2] && b[11] == inner[3]);
        assert(word(all, 8) == word(body, 0));
    }
}

/// A block is refused that gives a length under 12, one that is no multiple of four, one
/// past the end, or two different lengths at its ends; any other is as long as it says.
pub proof fn blocks_are_as_long_as_they_say(b: Seq<u8>)
    ensures
        frame(b) matches Ok(n) ==> 12 <= n <= b.len() && n % 4 == 0 && b[4] + 256 * b[5] + 65536
            * b[6] + 16777216 * b[7] == n && b[n - 4] + 256 * b[n - 3] + 65536 * b[n - 2] + 16777216
            * b[n - 1] == n,
        b.len() >= 12 && frame(b) is Err ==> {
            let n = b[4] + 256 * b[5] + 65536 * b[6] + 16777216 * b[7];
            ||| n < 12
            ||| n % 4 != 0
            ||| n > b.len()
            ||| b[n - 4] + 256 * b[n - 3] + 65536 * b[n - 2] + 16777216 * b[n - 1] != n
        },
        b.len() < 12 ==> frame(b) == Err::<int, _>("truncated block"@),
{
    if b.len() >= 12 {
        bytes::byte_orders(0, 0, b[4], b[5], b[6], b[7]);
        let n = word(b, 4) as int;
        bytes::byte_orders(0, 0, b[n - 4], b[n - 3], b[n - 2], b[n - 1]);
    }
}

/// The options of an interface are read one by one: code 2 gives the name, the first byte
/// of code 9 the resolution, any other code nothing, and a later one of a code wins; code
/// 0 ends them. Without a resolution, times are microseconds.
pub proof fn options_are_read_by_code(
    code: u16,
    value: Seq<u8>,
    rest: Seq<u8>,
    name: Option<Seq<u8>>,
    tsresol: u8,
)
    requires
        value.len() < 65536,
    ensures
        ({
            let pad = Seq::new(((4 - value.len() % 4) % 4) as nat, |i: int| 0u8);
            let b = seq![
                (code % 256) as u8,
                (code / 256) as u8,
                (value.len() % 256) as u8,
                (value.len() / 256) as u8,
            ] + value + pad + rest;
            &&& code == 2 ==> interface_options(b, name, tsresol) == interface_options(
                rest,
                Some(value),
                tsresol,
            )
            &&& code == 9 && value.len() > 0 ==> interface_options(b, name, tsresol)
                == interface_options(rest, name, value[0])
            &&& code != 0 && code != 2 && code != 9 ==> interface_options(b, name, tsresol)
                == interface_options(rest, name, tsresol)
            &&& code == 0 ==> interface_options(b, name, tsresol) == (name, tsresol)
            &&& interface_options(Seq::empty(), name, tsresol) == (name, tsresol)
        }),
{
    let pad = Seq::new(((4 - value.len() % 4) % 4) as nat, |i: int| 0u8);
    let b = seq![
        (code % 256) as u8,
        (code / 256) as u8,
        (value.len() % 256) as u8,
        (value.len() / 256) as u8,
    ] + value + pad + rest;
    assert(b =~= option_bytes(code, value) + rest);
    if code != 0 {
        lemma_read_option(code, value, rest, name, tsresol);
    }
}

} // verus!

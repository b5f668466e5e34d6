//! Minimal pcap writer producing files that open directly in Wireshark.
//!
//! Captured packets are written with link type `LINKTYPE_USB_2_0` (288), which
//! expects raw USB 2.0 packets beginning with the PID byte - exactly what the
//! Cynthion analyzer streams. Nanosecond timestamp resolution is used so the
//! device's 60 MHz timing is preserved.

use vstd::prelude::*;

use crate::bytes;

verus! {

broadcast use bytes::lemma_le32_len;

/// pcap link type for raw USB 2.0 packets (PID-first).
pub const LINKTYPE_USB_2_0: u32 = 288;

/// Magic number selecting nanosecond-resolution timestamps.
pub const PCAP_MAGIC_NANOS: u32 = 0xa1b2_3c4d;

/// Snap length advertised in the header (larger than any USB 2.0 packet).
pub const SNAPLEN: u32 = 262_144;

/// The global header: magic, version 2.4, no time-zone offset, no accuracy
/// figure, snap length, link type.
pub open spec fn global_header() -> Seq<u8> {
    bytes::le32(PCAP_MAGIC_NANOS) + bytes::le16(2) + bytes::le16(4) + bytes::le32(0) + bytes::le32(
        0,
    ) + bytes::le32(SNAPLEN) + bytes::le32(LINKTYPE_USB_2_0)
}

/// One packet record, with its time given in nanoseconds since the Unix epoch.
/// The seconds and the lengths are 32-bit fields and hold that much of them.
pub open spec fn record(unix_ns: int, data: Seq<u8>) -> Seq<u8> {
    let len = (data.len() % 0x1_0000_0000) as u32;
    bytes::le32(((unix_ns / 1_000_000_000) % 0x1_0000_0000) as u32) + bytes::le32(
        (unix_ns % 1_000_000_000) as u32,
    ) + bytes::le32(len) + bytes::le32(len) + data
}

/// Writes captured packets to a `.pcap` stream.
///
/// The bytes gather in `out` until [`flush`](PcapWriter::flush) hands them over.
pub struct PcapWriter {
    pub out: Vec<u8>,
    /// Wall-clock anchor (Unix nanoseconds) that capture time 0 maps to.
    pub base_unix_ns: u128,
}

impl PcapWriter {
    /// Create a writer and emit the global header.
    ///
    /// `base_unix_ns` is the absolute time (nanoseconds since the Unix epoch)
    /// corresponding to a capture timestamp of 0; per-packet timestamps are
    /// added to it.
    pub fn new(out: Vec<u8>, base_unix_ns: u128) -> (w: PcapWriter)
        ensures
            w.out@ == out@ + global_header(),
            w.base_unix_ns == base_unix_ns,
    {
        let ghost start = out@;
        let mut out = out;
        bytes::push_le32(&mut out, PCAP_MAGIC_NANOS);
        bytes::push_le16(&mut out, 2);  // version major
        bytes::push_le16(&mut out, 4);  // version minor
        bytes::push_le32(&mut out, 0);  // thiszone (GMT)
        bytes::push_le32(&mut out, 0);  // sigfigs
        bytes::push_le32(&mut out, SNAPLEN);  // snaplen
        bytes::push_le32(&mut out, LINKTYPE_USB_2_0);  // network
        assert(out@ =~= start + global_header());
        PcapWriter { out, base_unix_ns }
    }

    /// Append one packet, timestamped `ts_ns` nanoseconds into the capture.
    pub fn write_packet(&mut self, ts_ns: u64, data: &[u8])
        requires
            old(self).base_unix_ns + ts_ns <= u128::MAX,
        ensures
            final(self).out@ == old(self).out@ + record(old(self).base_unix_ns + ts_ns, data@),
            final(self).base_unix_ns == old(self).base_unix_ns,
    {
        let ghost start = self.out@;
        let abs: u128 = self.base_unix_ns + ts_ns as u128;
        let sec: u32 = ((abs / 1_000_000_000) % 0x1_0000_0000) as u32;
        let nsec: u32 = (abs % 1_000_000_000) as u32;
        let len: u32 = (data.len() as u64 % 0x1_0000_0000) as u32;
        bytes::push_le32(&mut self.out, sec);  // ts_sec
        bytes::push_le32(&mut self.out, nsec);  // ts_nsec
        bytes::push_le32(&mut self.out, len);  // incl_len
        bytes::push_le32(&mut self.out, len);  // orig_len
        bytes::push_bytes(&mut self.out, data);
        assert(self.out@ =~= start + record(abs as int, data@));
    }

    /// Hand over the buffered output.
    pub fn flush(&mut self) -> (b: Vec<u8>)
        ensures
            b@ == old(self).out@,
            final(self).out@.len() == 0,
            final(self).base_unix_ns == old(self).base_unix_ns,
    {
        let mut b: Vec<u8> = Vec::new();
        std::mem::swap(&mut b, &mut self.out);
        b
    }
}

/// The 32-bit little-endian field at offset `i`.
pub open spec fn field(b: Seq<u8>, i: int) -> u32 {
    bytes::u32_le(b[i], b[i + 1], b[i + 2], b[i + 3])
}

/// A file starts with the 24 bytes that make a reader take it for little-endian USB 2.0
/// packets with nanosecond times: the magic number, version 2.4, eight bytes of zero,
/// the snap length and the link type.
pub proof fn file_header_bytes()
    ensures
        global_header() == seq![
            0x4Du8,
            0x3C,
            0xB2,
            0xA1,
            2,
            0,
            4,
            0,
            0,
            0,
            0,
            0,
            0,
            0,
            0,
            0,
            0,
            0,
            4,
            0,
            0x20,
            1,
            0,
            0,
        ],
{
    reveal(bytes::le32);
}

/// Of a time past the 32-bit second count, a record holds what is left of whole rounds of
/// it: times that are a round apart are recorded alike.
pub proof fn record_time_wraps(unix_ns: int, data: Seq<u8>)
    requires
        0 <= unix_ns,
    ensures
        record(unix_ns + 0x1_0000_0000 * 1_000_000_000, data) == record(unix_ns, data),
{
    let later = unix_ns + 0x1_0000_0000 * 1_000_000_000;
    assert(later / 1_000_000_000 == unix_ns / 1_000_000_000 + 0x1_0000_0000);
    assert(later % 1_000_000_000 == unix_ns % 1_000_000_000);
}

/// A packet too long for the 32-bit lengths has what is left of whole rounds of them there.
pub proof fn record_length_wraps(unix_ns: int, data: Seq<u8>)
    ensures
        field(record(unix_ns, data), 8) == data.len() % 0x1_0000_0000,
        field(record(unix_ns, data), 12) == data.len() % 0x1_0000_0000,
{
    let r = record(unix_ns, data);
    let len = (data.len() % 0x1_0000_0000) as u32;
    let w = bytes::le32(len);
    bytes::lemma_le32_round_trip(len);
    assert(r[8] == w[0] && r[9] == w[1] && r[10] == w[2] && r[11] == w[3]);
    assert(r[12] == w[0] && r[13] == w[1] && r[14] == w[2] && r[15] == w[3]);
}

/// A record keeps the packet and its time: for a time before the 32-bit second
/// count runs out and a packet under 4 GiB, the fields of the record give the
/// time to the nanosecond and the length, and the data follows.
pub proof fn record_reads_back(unix_ns: int, data: Seq<u8>)
    requires
        0 <= unix_ns < 0x1_0000_0000 * 1_000_000_000,
        data.len() < 0x1_0000_0000,
    ensures
        ({
            let r = record(unix_ns, data);
            &&& r.len() == 16 + data.len()
            &&& field(r, 0) * 1_000_000_000 + field(r, 4) == unix_ns
            &&& field(r, 4) < 1_000_000_000
            &&& field(r, 8) == data.len()
            &&& field(r, 12) == data.len()
            &&& r.skip(16) == data
        }),
{
    let r = record(unix_ns, data);
    let sec = (unix_ns / 1_000_000_000) as u32;
    let nsec = (unix_ns % 1_000_000_000) as u32;
    let len = data.len() as u32;
    bytes::lemma_le32_round_trip(sec);
    bytes::lemma_le32_round_trip(nsec);
    bytes::lemma_le32_round_trip(len);
    assert(r =~= bytes::le32(sec) + bytes::le32(nsec) + bytes::le32(len) + bytes::le32(len) + data);
    assert(field(r, 0) == sec);
    assert(field(r, 4) == nsec);
    assert(field(r, 8) == len);
    assert(field(r, 12) == len);
    assert(r.skip(16) =~= data);
}

} // verus!

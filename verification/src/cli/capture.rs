//! The accounting of a capture session: what is done with each item, and what is
//! printed about it.

use vstd::prelude::*;
use vstd::string::*;

use crate::capture::CaptureData;
use crate::capture::CaptureDataView;
use crate::capture::CaptureItem;
use crate::capture::CaptureItemView;
use crate::capture::Speed;
use crate::pcap;
use crate::pcap::PcapWriter;
use crate::text;

verus! {

/// The bytes of a packet as hexadecimal pairs separated by spaces.
pub open spec fn spaced_hex(b: Seq<u8>) -> Seq<char>
    decreases b.len(),
{
    if b.len() == 0 {
        Seq::empty()
    } else if b.len() == 1 {
        text::hex_fixed(b[0] as nat, 2)
    } else {
        spaced_hex(b.drop_last()) + " "@ + text::hex_fixed(b.last() as nat, 2)
    }
}

/// Bytes are shown as pairs of digits with one space between them, in order: the digits of
/// byte `i` are at `3 * i`.
pub proof fn spaced_hex_layout(b: Seq<u8>, i: int)
    requires
        0 <= i < b.len(),
    ensures
        ({
            let s = spaced_hex(b);
            &&& s.len() == 3 * b.len() - 1
            &&& 16 * text::digit_value(s[3 * i]) + text::digit_value(s[3 * i + 1]) == b[i]
            &&& i + 1 < b.len() ==> s[3 * i + 2] == ' '
        }),
    decreases b.len(),
{
    reveal_strlit(" ");
    reveal_with_fuel(text::hex_fixed, 3);
    let s = spaced_hex(b);
    if b.len() > 1 {
        let before = b.drop_last();
        let j = if i < before.len() {
            i
        } else {
            0
        };
        spaced_hex_layout(before, j);
        let t = spaced_hex(before);
        assert(s == t + " "@ + text::hex_fixed(b.last() as nat, 2));
    }
}

/// The one-line summary of a packet: its number, time, length, and first 16 bytes.
pub open spec fn packet_text(index: nat, ts_ns: nat, b: Seq<u8>) -> Seq<char> {
    let shown = if b.len() > 16 {
        b.take(16)
    } else {
        b
    };
    "#"@ + text::pad_right(text::decimal(index), 6) + " ["@ + text::pad_left(
        text::decimal(ts_ns),
        12,
    ) + " ns] "@ + text::pad_left(text::decimal(b.len()), 4) + " B  "@ + spaced_hex(shown) + (
    if b.len() > 16 {
        " ..."@
    } else {
        ""@
    })
}

/// The line that reports an event.
pub open spec fn event_text(ts_ns: nat, code: u8) -> Seq<char> {
    "["@ + text::pad_left(text::decimal(ts_ns), 12) + " ns] event 0x"@ + text::hex_fixed(
        code as nat,
        2,
    )
}

/// A packet's line gives its number, its time, how many bytes it has, and those bytes; past
/// sixteen, the first sixteen of them and a mark that there are more.
pub proof fn packet_line_shows_the_packet(index: nat, ts_ns: nat, b: Seq<u8>)
    ensures
        ({
            let head = "#"@ + text::pad_right(text::decimal(index), 6) + " ["@ + text::pad_left(
                text::decimal(ts_ns),
                12,
            ) + " ns] "@ + text::pad_left(text::decimal(b.len()), 4) + " B  "@;
            &&& b.len() <= 16 ==> packet_text(index, ts_ns, b) == head + spaced_hex(b)
            &&& b.len() > 16 ==> packet_text(index, ts_ns, b) == head + spaced_hex(
                b.subrange(0, 16),
            ) + " ..."@
        }),
{
    reveal_strlit("");
    assert(b.len() > 16 ==> b.take(16) =~= b.subrange(0, 16));
    assert(packet_text(index, ts_ns, b) + ""@ =~= packet_text(index, ts_ns, b));
}

/// The one-line summary of a packet.
pub fn packet_summary(index: u64, ts_ns: u64, bytes: &[u8]) -> (s: String)
    ensures
        s@ == packet_text(index as nat, ts_ns as nat, bytes@),
{
    let mut s = "#".to_owned();
    let number = text::decimal_string(index);
    text::push_padded_right(&mut s, number.as_str(), 6);
    s.append(" [");
    let time = text::decimal_string(ts_ns);
    text::push_padded_left(&mut s, time.as_str(), 12);
    s.append(" ns] ");
    let length = text::decimal_string(bytes.len() as u64);
    text::push_padded_left(&mut s, length.as_str(), 4);
    s.append(" B  ");
    let shown: usize = if bytes.len() > 16 {
        16
    } else {
        bytes.len()
    };
    let ghost head = s@;
    let mut i: usize = 0;
    assert(bytes@.take(0) =~= Seq::<u8>::empty());
    assert(s@ =~= head + spaced_hex(bytes@.take(0)));
    while i < shown
        invariant
            i <= shown <= bytes@.len(),
            s@ == head + spaced_hex(bytes@.take(i as int)),
        decreases shown - i,
    {
        if i > 0 {
            s.append(" ");
        }
        text::push_hex(&mut s, bytes[i] as u64, 2);
        proof {
            let t = bytes@.take(i + 1);
            assert(t.drop_last() =~= bytes@.take(i as int));
            assert(s@ =~= head + spaced_hex(t));
        }
        i = i + 1;
    }
    if bytes.len() > 16 {
        s.append(" ...");
    } else {
        assert(bytes@.take(i as int) =~= bytes@);
        s.append("");
    }
    s
}

/// The line that reports an event.
pub fn event_line(ts_ns: u64, code: u8) -> (s: String)
    ensures
        s@ == event_text(ts_ns as nat, code),
{
    let mut s = "[".to_owned();
    let time = text::decimal_string(ts_ns);
    text::push_padded_left(&mut s, time.as_str(), 12);
    s.append(" ns] event 0x");
    text::push_hex(&mut s, code as u64, 2);
    s
}

/// A line to print about a captured item.
pub enum CaptureLine {
    /// To standard output.
    Packet(String),
    /// To standard error.
    Event(String),
}

/// A capture session: counts the items, writes packets to a pcap stream if there is
/// one, and otherwise describes them.
pub struct CaptureSession {
    pub pcap: Option<PcapWriter>,
    pub packets: u64,
    pub events: u64,
    /// Stop after this many packets.
    pub max_packets: Option<u64>,
    /// Describe events even when writing a pcap stream.
    pub verbose: bool,
}

/// What a [`CaptureSession`] holds.
#[verifier::ext_equal]
pub struct CaptureSessionView {
    /// The pcap bytes not handed over yet, and the time they are anchored to.
    pub pcap: Option<(Seq<u8>, u128)>,
    pub packets: u64,
    pub events: u64,
    pub max_packets: Option<u64>,
    pub verbose: bool,
}

impl View for CaptureSession {
    type V = CaptureSessionView;

    open spec fn view(&self) -> CaptureSessionView {
        CaptureSessionView {
            pcap: match self.pcap {
                Some(w) => Some((w.out@, w.base_unix_ns)),
                None => None,
            },
            packets: self.packets,
            events: self.events,
            max_packets: self.max_packets,
            verbose: self.verbose,
        }
    }
}

impl CaptureSessionView {
    /// Whether one more item can be counted and, at this time, written.
    pub open spec fn has_room(self, ts_ns: u64) -> bool {
        &&& self.packets < u64::MAX
        &&& self.events < u64::MAX
        &&& self.pcap matches Some((_, base)) ==> base + ts_ns <= u128::MAX
    }

    /// The session after one more item.
    pub open spec fn after(self, item: CaptureItemView) -> CaptureSessionView {
        match item.data {
            CaptureDataView::Packet(b) => CaptureSessionView {
                packets: (self.packets + 1) as u64,
                pcap: match self.pcap {
                    Some((out, base)) => Some(
                        (out + pcap::record(base + item.timestamp_ns, b), base),
                    ),
                    None => None,
                },
                ..self
            },
            CaptureDataView::Event(_) => CaptureSessionView {
                events: (self.events + 1) as u64,
                ..self
            },
        }
    }

    /// Whether the session ends with this item: the last packet asked for.
    pub open spec fn ends_with(self, item: CaptureItemView) -> bool {
        item.data is Packet && (self.max_packets matches Some(max) && self.packets + 1 >= max)
    }
}

/// What is printed about an item.
pub enum CaptureLineView {
    Packet(Seq<char>),
    Event(Seq<char>),
}

/// What an optional line holds.
pub open spec fn line_view(line: Option<CaptureLine>) -> Option<CaptureLineView> {
    match line {
        Some(CaptureLine::Packet(s)) => Some(CaptureLineView::Packet(s@)),
        Some(CaptureLine::Event(s)) => Some(CaptureLineView::Event(s@)),
        None => None,
    }
}

impl CaptureSessionView {
    /// What is printed about an item: packets if no stream is written, events then or if
    /// asked for.
    pub open spec fn told(self, item: CaptureItemView) -> Option<CaptureLineView> {
        match item.data {
            CaptureDataView::Packet(b) => if self.pcap is Some {
                None
            } else {
                Some(
                    CaptureLineView::Packet(
                        packet_text((self.packets + 1) as nat, item.timestamp_ns as nat, b),
                    ),
                )
            },
            CaptureDataView::Event(code) => if self.pcap is Some && !self.verbose {
                None
            } else {
                Some(CaptureLineView::Event(event_text(item.timestamp_ns as nat, code)))
            },
        }
    }
}

/// A packet counts as a packet and an event as an event, and neither changes what was asked
/// for. A packet is written behind what was written before, at the session's start plus its
/// own time; an event is not written.
pub proof fn items_are_counted_and_written(s: CaptureSessionView, item: CaptureItemView)
    requires
        s.has_room(item.timestamp_ns),
    ensures
        ({
            let t = s.after(item);
            &&& item.data is Packet ==> t.packets == s.packets + 1 && t.events == s.events
            &&& item.data is Event ==> t.packets == s.packets && t.events == s.events + 1 && t.pcap
                == s.pcap
            &&& t.max_packets == s.max_packets && t.verbose == s.verbose
            &&& t.pcap is Some <==> s.pcap is Some
            &&& (item.data matches CaptureDataView::Packet(b) && s.pcap matches Some((out, base))
                && base + item.timestamp_ns < 0x1_0000_0000 * 1_000_000_000 && b.len()
                < 0x1_0000_0000) ==> {
                let (out, base) = s.pcap->0;
                let b = item.data->Packet_0;
                let (now, anchor) = t.pcap->0;
                let r = now.skip(out.len() as int);
                &&& now.take(out.len() as int) == out
                &&& anchor == base
                &&& pcap::field(r, 0) * 1_000_000_000 + pcap::field(r, 4) == base
                    + item.timestamp_ns
                &&& pcap::field(r, 8) == b.len()
                &&& r.skip(16) == b
            }
        }),
{
    if let CaptureDataView::Packet(b) = item.data {
        if let Some((out, base)) = s.pcap {
            let (all, _) = s.after(item).pcap->0;
            let r = pcap::record(base + item.timestamp_ns, b);
            assert(all.skip(out.len() as int) =~= r);
            assert(all.take(out.len() as int) =~= out);
            if base + item.timestamp_ns < 0x1_0000_0000 * 1_000_000_000 && b.len()
                < 0x1_0000_0000 {
                pcap::record_reads_back(base + item.timestamp_ns, b);
            }
        }
    }
}

/// With a stream to write, packets are not described and events only if asked for; without
/// one, every item is. A packet's line carries the number it is counted under, and either
/// line the item's time and what it carries.
pub proof fn items_are_told_apart(s: CaptureSessionView, item: CaptureItemView)
    requires
        s.has_room(item.timestamp_ns),
    ensures
        s.told(item) is Some <==> s.pcap is None || item.data is Event && s.verbose,
        s.told(item) is Some ==> (s.told(item)->0 is Packet <==> item.data is Packet),
        item.data is Packet && s.told(item) is Some ==> s.told(item) == Some(
            CaptureLineView::Packet(
                packet_text(
                    s.after(item).packets as nat,
                    item.timestamp_ns as nat,
                    item.data->Packet_0,
                ),
            ),
        ),
        item.data is Event && s.told(item) is Some ==> s.told(item) == Some(
            CaptureLineView::Event(
                "["@ + text::pad_left(text::decimal(item.timestamp_ns as nat), 12)
                    + " ns] event 0x"@ + text::hex_fixed(item.data->Event_0 as nat, 2),
            ),
        ),
{
}

impl CaptureSession {
    /// Whether one more item can be counted and, at this time, written, as
    /// [`item`](CaptureSession::item) needs.
    pub fn has_room(&self, ts_ns: u64) -> (r: bool)
        ensures
            r == self@.has_room(ts_ns),
    {
        let fits = match &self.pcap {
            Some(w) => w.base_unix_ns <= u128::MAX - ts_ns as u128,
            None => true,
        };
        self.packets < u64::MAX && self.events < u64::MAX && fits
    }

    /// Take in one item: what to print about it, and whether to stop.
    pub fn item(&mut self, item: &CaptureItem) -> (r: (Option<CaptureLine>, bool))
        requires
            old(self)@.has_room(item.timestamp_ns),
        ensures
            final(self)@ == old(self)@.after(item@),
            r.1 == old(self)@.ends_with(item@),
            line_view(r.0) == old(self)@.told(item@),
    {
        match &item.data {
            CaptureData::Packet(bytes) => {
                self.packets = self.packets + 1;
                let mut held: Option<PcapWriter> = None;
                std::mem::swap(&mut held, &mut self.pcap);
                let line = match held {
                    Some(mut w) => {
                        w.write_packet(item.timestamp_ns, bytes.as_slice());
                        self.pcap = Some(w);
                        None
                    },
                    None => Some(
                        CaptureLine::Packet(
                            packet_summary(self.packets, item.timestamp_ns, bytes.as_slice()),
                        ),
                    ),
                };
                let stop = match self.max_packets {
                    Some(max) => self.packets >= max,
                    None => false,
                };
                (line, stop)
            },
            CaptureData::Event(code) => {
                self.events = self.events + 1;
                if self.pcap.is_none() || self.verbose {
                    (Some(CaptureLine::Event(event_line(item.timestamp_ns, *code))), false)
                } else {
                    (None, false)
                }
            },
        }
    }
}

/// The line that announces a capture.
pub open spec fn banner_text(speed: Speed, duration: Option<Seq<char>>) -> Seq<char> {
    "Capturing at "@ + speed.name() + " speed"@ + (match duration {
        Some(d) => " for "@ + d + "s"@,
        None => ""@,
    }) + "... (Ctrl-C to stop)"@
}

/// The line that closes a capture.
pub open spec fn closing_text(packets: nat, events: nat, elapsed: Seq<char>) -> Seq<char> {
    "Captured "@ + text::decimal(packets) + " packets, "@ + text::decimal(events) + " events in "@
        + elapsed + "s."@
}

/// A capture is announced with its speed and, if that is limited, how long it lasts; and closed
/// with how many packets and how many events it took, and how long it did last.
pub proof fn capture_is_announced_and_closed(
    speed: Speed,
    d: Seq<char>,
    packets: nat,
    events: nat,
)
    ensures
        banner_text(speed, Some(d)) == "Capturing at "@ + speed.name() + " speed"@ + (" for "@ + d
            + "s"@) + "... (Ctrl-C to stop)"@,
        banner_text(speed, None) == "Capturing at "@ + speed.name() + " speed"@
            + "... (Ctrl-C to stop)"@,
        closing_text(packets, events, d) == "Captured "@ + text::decimal(packets) + " packets, "@
            + text::decimal(events) + " events in "@ + d + "s."@,
{
    reveal_strlit("");
    let head = "Capturing at "@ + speed.name() + " speed"@;
    assert(head + ""@ =~= head);
}

/// The line that announces a capture; `duration` is its length in seconds, if it
/// is limited.
pub fn banner(speed: Speed, duration: Option<&str>) -> (s: String)
    ensures
        s@ == banner_text(
            speed,
            match duration {
                Some(d) => Some(d@),
                None => None,
            },
        ),
{
    let mut s = "Capturing at ".to_owned();
    s.append(speed.as_str());
    s.append(" speed");
    let ghost head = s@;
    match duration {
        Some(d) => {
            s.append(" for ");
            s.append(d);
            s.append("s");
            assert(s@ =~= head + (" for "@ + d@ + "s"@));
        },
        None => s.append(""),
    }
    s.append("... (Ctrl-C to stop)");
    s
}

/// The line that closes a capture; `elapsed` is its length in seconds.
pub fn closing(packets: u64, events: u64, elapsed: &str) -> (s: String)
    ensures
        s@ == closing_text(packets as nat, events as nat, elapsed@),
{
    let mut s = "Captured ".to_owned();
    text::push_decimal(&mut s, packets);
    s.append(" packets, ");
    text::push_decimal(&mut s, events);
    s.append(" events in ");
    s.append(elapsed);
    s.append("s.");
    s
}

/// There is room for an item until a count or the clock of the stream is at its end.
pub proof fn session_has_room_until_the_end(s: CaptureSessionView, ts_ns: u64)
    ensures
        s.has_room(ts_ns) <==> s.packets < u64::MAX && s.events < u64::MAX && (match s.pcap {
            Some((_, base)) => base + ts_ns <= u128::MAX,
            None => true,
        }),
{
}

/// A session ends with a packet only, and without a limit with none.
pub proof fn sessions_end_with_packets(s: CaptureSessionView, item: CaptureItemView)
    ensures
        item.data is Event ==> !s.ends_with(item),
        s.max_packets is None ==> !s.ends_with(item),
{
}

/// A session with a packet limit ends exactly when that many packets have come:
/// as long as it goes on, fewer have been counted.
pub proof fn count_limit_is_honored(s: CaptureSessionView, item: CaptureItemView, max: u64)
    requires
        s.max_packets == Some(max),
        s.packets < max,
    ensures
        s.ends_with(item) ==> s.after(item).packets == max,
        !s.ends_with(item) ==> s.after(item).packets < max && s.after(item).max_packets == Some(
            max,
        ),
{
}

} // verus!

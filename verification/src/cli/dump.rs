//! `pd-dump`: a recorded trace as text.

use vstd::prelude::*;
use vstd::slice::slice_subrange;
use vstd::slice::slice_to_vec;
use vstd::string::*;

use crate::host::descriptors;
use crate::pcapng;
use crate::pcapng::parse_pd_pseudo_header;
use crate::pcapng::sop_name;
use crate::pcapng::PdDirection;
use crate::pcapng::PdSop;
use crate::pcapng::TraceFile;
use crate::pcapng::TraceFileView;
use crate::pcapng::TraceInterface;
use crate::pcapng::TraceInterfaceView;
use crate::pcapng::LINKTYPE_USB_TYPE_C_PD;
use crate::pd::trace;
use crate::pd::trace::format_pd_message;
use crate::pd::PdMessage;
use crate::text;

verus! {

/// What an interface is called: its name, or `?` if it has none.
pub open spec fn shown_name(i: TraceInterfaceView) -> Seq<char> {
    match i.name {
        Some(b) => text::lossy_utf8(b),
        None => "?"@,
    }
}

/// What an interface is called: its name, or `?` if it has none.
pub fn interface_name(i: &TraceInterface) -> (s: String)
    ensures
        s@ == shown_name(i@),
{
    match i.name_text() {
        Some(s) => s,
        None => "?".to_owned(),
    }
}

/// The line that shows an interface.
pub open spec fn interface_text(index: nat, name: Seq<char>, linktype: u32) -> Seq<char> {
    "  ["@ + text::decimal(index) + "] "@ + name + " (linktype "@ + text::decimal(linktype as nat)
        + (if linktype == LINKTYPE_USB_TYPE_C_PD {
        " = USB_TYPE_C_PD"@
    } else {
        ""@
    }) + ")"@
}

/// The line that shows an interface.
pub fn interface_line(index: usize, name: &str, linktype: u32) -> (s: String)
    ensures
        s@ == interface_text(index as nat, name@, linktype),
{
    let mut s = "  [".to_owned();
    text::push_decimal(&mut s, index as u64);
    s.append("] ");
    s.append(name);
    s.append(" (linktype ");
    text::push_decimal(&mut s, linktype as u64);
    if linktype == LINKTYPE_USB_TYPE_C_PD {
        s.append(" = USB_TYPE_C_PD");
    } else {
        s.append("");
    }
    s.append(")");
    s
}

/// The lines that open a dump: the interfaces one by one, and how many packets
/// there are.
pub open spec fn heading_text(f: TraceFileView) -> Seq<Seq<char>> {
    seq![text::decimal(f.interfaces.len()) + " interface(s):"@] + Seq::new(
        f.interfaces.len(),
        |i: int| interface_text(i as nat, shown_name(f.interfaces[i]), f.interfaces[i].linktype),
    ) + seq![text::decimal(f.packets.len()) + " packet(s):"@]
}

/// The lines that open a dump.
pub fn heading(f: &TraceFile) -> (out: Vec<String>)
    ensures
        descriptors::text_views(out@) == heading_text(f@),
{
    let mut out: Vec<String> = Vec::new();
    let mut s = text::decimal_string(f.interfaces.len() as u64);
    s.append(" interface(s):");
    out.push(s);
    let mut i: usize = 0;
    let n: usize = f.interfaces.len();
    while i < n
        invariant
            n == f.interfaces@.len(),
            i <= n,
            out@.len() == i + 1,
            out@[0]@ == text::decimal(f@.interfaces.len()) + " interface(s):"@,
            forall|k: int|
                0 <= k < i ==> (#[trigger] out@[k + 1])@ == interface_text(
                    k as nat,
                    shown_name(f@.interfaces[k]),
                    f@.interfaces[k].linktype,
                ),
        decreases n - i,
    {
        let name = interface_name(&f.interfaces[i]);
        out.push(interface_line(i, name.as_str(), f.interfaces[i].linktype));
        i = i + 1;
    }
    let mut s = text::decimal_string(f.packets.len() as u64);
    s.append(" packet(s):");
    out.push(s);
    proof {
        let lines = descriptors::text_views(out@);
        let want = heading_text(f@);
        assert forall|k: int| 0 <= k < want.len() implies lines[k] == want[k] by {
            if 0 < k <= n {
                assert(out@[(k - 1) + 1]@ == want[k]);
            }
        }
        assert(lines =~= want);
    }
    out
}

/// A dump opens with how many interfaces there are, each of them in order under its number
/// from 0, with its name and link type, and how many packets there are. The link type of PD
/// traces is 304.
pub proof fn heading_lists_the_interfaces(f: TraceFileView, i: int)
    requires
        0 <= i < f.interfaces.len(),
    ensures
        ({
            let lines = heading_text(f);
            let t = f.interfaces[i];
            let shown = "  ["@ + text::decimal(i as nat) + "] "@ + shown_name(t) + " (linktype "@
                + text::decimal(t.linktype as nat);
            &&& lines.len() == f.interfaces.len() + 2
            &&& lines[0] == text::decimal(f.interfaces.len()) + " interface(s):"@
            &&& t.linktype == 304 ==> lines[i + 1] == shown + " = USB_TYPE_C_PD"@ + ")"@
            &&& t.linktype != 304 ==> lines[i + 1] == shown + ")"@
            &&& lines.last() == text::decimal(f.packets.len()) + " packet(s):"@
            &&& t.name matches Some(b) ==> shown_name(t) == text::lossy_utf8(b)
            &&& t.name is None ==> shown_name(t) == "?"@
        }),
{
    reveal_strlit("");
    let t = f.interfaces[i];
    let shown = "  ["@ + text::decimal(i as nat) + "] "@ + shown_name(t) + " (linktype "@
        + text::decimal(t.linktype as nat);
    assert(shown + ""@ =~= shown);
}

/// What the rest of a dump needs to know about a packet besides its bytes.
pub struct PacketContext {
    /// What its interface is called; `?` if it is not known.
    pub port: String,
    /// The link type of its interface; 0 if it is not known.
    pub linktype: u32,
    /// The time since the first packet, in units of 10^-tsresol seconds.
    pub elapsed: u64,
    /// The timestamp resolution of its interface; microseconds if it is not known.
    pub tsresol: u8,
}

/// What the interface of packet `i` is called, its link type, and its timestamp
/// resolution.
pub open spec fn packet_interface(f: TraceFileView, i: int) -> (Seq<char>, u32, u8) {
    let id = f.packets[i].iface_id as int;
    if id < f.interfaces.len() {
        (shown_name(f.interfaces[id]), f.interfaces[id].linktype, f.interfaces[id].tsresol)
    } else {
        ("?"@, 0, 6)
    }
}

/// The time of packet `i` since the first, in units of its timestamp; 0 if it is before.
pub open spec fn elapsed(f: TraceFileView, i: int) -> int {
    if f.packets[i].ts >= f.packets[0].ts {
        f.packets[i].ts - f.packets[0].ts
    } else {
        0
    }
}

/// A packet is told with the interface it was seen on, and with a time that starts at 0 with
/// the first packet and goes on as the timestamps do. An interface that the file does not
/// describe is `?`, with no link type, and times in microseconds.
pub proof fn packets_are_told_with_their_interface(f: TraceFileView, i: int, j: int)
    requires
        0 <= i < f.packets.len(),
        0 <= j < f.packets.len(),
        f.packets[0].ts <= f.packets[i].ts,
    ensures
        ({
            let id = f.packets[i].iface_id as int;
            let (port, linktype, tsresol) = packet_interface(f, i);
            &&& id < f.interfaces.len() ==> port == shown_name(f.interfaces[id]) && linktype
                == f.interfaces[id].linktype && tsresol == f.interfaces[id].tsresol
            &&& id >= f.interfaces.len() ==> port == "?"@ && linktype == 0 && tsresol == 6
        }),
        elapsed(f, 0) == 0,
        f.packets[i].ts <= f.packets[j].ts ==> elapsed(f, j) - elapsed(f, i) == f.packets[j].ts
            - f.packets[i].ts,
        f.packets[j].ts < f.packets[0].ts ==> elapsed(f, j) == 0,
{
}

/// What the rest of a dump needs to know about packet `i` besides its bytes.
pub fn packet_context(f: &TraceFile, i: usize) -> (c: PacketContext)
    requires
        i < f.packets@.len(),
    ensures
        (c.port@, c.linktype, c.tsresol) == packet_interface(f@, i as int),
        c.elapsed == elapsed(f@, i as int),
{
    assert(f@.packets[i as int] == f.packets@[i as int]@);
    assert(f@.packets[0] == f.packets@[0]@);
    let first: u64 = f.packets[0].ts;
    let ts: u64 = f.packets[i].ts;
    let elapsed: u64 = if ts >= first {
        ts - first
    } else {
        0
    };
    let id: u32 = f.packets[i].iface_id;
    if (id as u64) < (f.interfaces.len() as u64) {
        let iface = &f.interfaces[id as usize];
        assert(f@.interfaces[id as int] == iface@);
        PacketContext {
            port: interface_name(iface),
            linktype: iface.linktype,
            elapsed,
            tsresol: iface.tsresol,
        }
    } else {
        PacketContext { port: "?".to_owned(), linktype: 0, elapsed, tsresol: 6 }
    }
}

/// A CRC as text.
pub open spec fn crc_text(crc: Option<u32>) -> Seq<char> {
    match crc {
        Some(c) => "0x"@ + text::hex_fixed(c as nat, 8),
        None => "n/a (hw AUTO_CRC)"@,
    }
}

/// The lines that show a packet: a PD message with where it was seen (and its bytes,
/// if asked for), or what can be shown of anything else.
pub open spec fn packet_text(
    index: nat,
    ts: Seq<char>,
    port: Seq<char>,
    linktype: u32,
    data: Seq<u8>,
    hex: bool,
) -> Seq<Seq<char>> {
    match pcapng::pseudo_header_of(data) {
        Some(h) if linktype == LINKTYPE_USB_TYPE_C_PD => {
            let message = trace::message_text(
                index % 0x1_0000_0000,
                ts,
                h.direction,
                data.skip(8),
            );
            let seen = "       port="@ + port + " sop="@ + pcapng::sop_text(h.sop) + " cc"@
                + text::decimal(h.cc as nat) + " crc="@ + crc_text(h.crc);
            if hex {
                seq![message, seen, "       bytes="@ + text::hex_bytes(data)]
            } else {
                seq![message, seen]
            }
        },
        _ => seq![
            "#"@ + text::pad_right(text::decimal(index), 3) + " ["@ + text::pad_left(ts, 7)
                + "s] iface="@ + port + " linktype="@ + text::decimal(linktype as nat) + " "@
                + text::decimal(data.len()) + " bytes raw="@ + text::hex_bytes(data),
        ],
    }
}

/// The lines that show a packet. `index` counts from 1, and `ts` is its time in
/// seconds, to three decimals.
pub fn packet_lines(
    index: u64,
    ts: &str,
    port: &str,
    linktype: u32,
    data: &[u8],
    hex: bool,
) -> (out: Vec<String>)
    ensures
        descriptors::text_views(out@) == packet_text(index as nat, ts@, port@, linktype, data@, hex),
{
    let mut out: Vec<String> = Vec::new();
    let header = parse_pd_pseudo_header(data);
    if linktype == LINKTYPE_USB_TYPE_C_PD {
        if let Some(h) = header {
            let rest = slice_subrange(data, 8, data.len());
            assert(rest@ =~= data@.skip(8));
            let msg = PdMessage { raw: slice_to_vec(rest) };
            out.push(
                format_pd_message((index % 0x1_0000_0000) as u32, ts, h.direction, &msg),
            );
            let mut s = "       port=".to_owned();
            s.append(port);
            s.append(" sop=");
            s.append(sop_name(h.sop));
            s.append(" cc");
            text::push_decimal(&mut s, h.cc as u64);
            s.append(" crc=");
            let ghost head = s@;
            match h.crc {
                Some(c) => {
                    s.append("0x");
                    text::push_hex(&mut s, c as u64, 8);
                    assert(s@ =~= head + crc_text(h.crc));
                },
                None => s.append("n/a (hw AUTO_CRC)"),
            }
            out.push(s);
            if hex {
                let mut s = "       bytes=".to_owned();
                text::push_hex_bytes(&mut s, data);
                out.push(s);
            }
            assert(descriptors::text_views(out@) =~= packet_text(
                index as nat,
                ts@,
                port@,
                linktype,
                data@,
                hex,
            ));
            return out;
        }
    }
    let mut s = "#".to_owned();
    let number = text::decimal_string(index);
    text::push_padded_right(&mut s, number.as_str(), 3);
    s.append(" [");
    text::push_padded_left(&mut s, ts, 7);
    s.append("s] iface=");
    s.append(port);
    s.append(" linktype=");
    text::push_decimal(&mut s, linktype as u64);
    s.append(" ");
    text::push_decimal(&mut s, data.len() as u64);
    s.append(" bytes raw=");
    text::push_hex_bytes(&mut s, data);
    out.push(s);
    assert(descriptors::text_views(out@) =~= packet_text(
        index as nat,
        ts@,
        port@,
        linktype,
        data@,
        hex,
    ));
    out
}

/// A packet of another link type, or without a pseudo-header, is shown on one line as it is:
/// its number and time, its interface and link type, how many bytes it has, and all of them.
pub proof fn dump_shows_other_packets_whole(
    index: nat,
    ts: Seq<char>,
    port: Seq<char>,
    linktype: u32,
    data: Seq<u8>,
    hex: bool,
)
    requires
        linktype != 304 || data.len() < 8 || data[0] != 1,
    ensures
        packet_text(index, ts, port, linktype, data, hex) == seq![
            "#"@ + text::pad_right(text::decimal(index), 3) + " ["@ + text::pad_left(ts, 7)
                + "s] iface="@ + port + " linktype="@ + text::decimal(linktype as nat) + " "@
                + text::decimal(data.len()) + " bytes raw="@ + text::hex_bytes(data),
        ],
{
}

/// A dump shows a recorded message as the console did when it was recorded, and
/// then where it was seen: its port, its packet type, its CC line (CC1 if it was not
/// known) and its CRC.
pub proof fn dump_shows_what_was_recorded(
    sop: PdSop,
    dir: PdDirection,
    cc: u8,
    crc: Option<u32>,
    message: Seq<u8>,
    index: nat,
    ts: Seq<char>,
    port: Seq<char>,
    hex: bool,
)
    requires
        index < 0x1_0000_0000,
    ensures
        ({
            let lines = packet_text(
                index,
                ts,
                port,
                LINKTYPE_USB_TYPE_C_PD,
                pcapng::pseudo_header(sop, dir, cc, crc) + message,
                hex,
            );
            &&& lines.len() == if hex {
                3int
            } else {
                2
            }
            &&& lines[0] == trace::message_text(index, ts, dir, message)
            &&& hex ==> lines[2] == "       bytes="@ + text::hex_bytes(
                pcapng::pseudo_header(sop, dir, cc, crc) + message,
            )
            &&& crc is None ==> crc_text(crc) == "n/a (hw AUTO_CRC)"@
            &&& crc matches Some(c) ==> crc_text(crc) == "0x"@ + text::hex_fixed(c as nat, 8)
            &&& lines[1] == "       port="@ + port + " sop="@ + pcapng::sop_text(sop) + " cc"@
                + text::decimal(
                if cc == 2 {
                    2
                } else {
                    1
                },
            ) + " crc="@ + crc_text(crc)
        }),
{
    pcapng::pseudo_header_round_trip(sop, dir, cc, crc, message);
}

} // verus!

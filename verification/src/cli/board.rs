//! The board commands (`flash`, `apollo`, `pd-probe`): what is chosen and printed.

use vstd::prelude::*;
use vstd::string::*;

use crate::flash::ApolloDevice;
use crate::flash::ApolloDeviceView;
use crate::flash::BoardMode;
use crate::flash::FlashTarget;
use crate::text;

verus! {

/// What the PD bridge gateware reports as its identity (`uPDB`).
pub const PD_BRIDGE_ID: u32 = 0x7550_4442;

/// The name of a board mode.
pub open spec fn mode_text(m: BoardMode) -> Seq<char> {
    match m {
        BoardMode::Apollo => "Apollo"@,
        BoardMode::Gateware => "Gateware"@,
        BoardMode::NotFound => "NotFound"@,
    }
}

/// The line that says which board was found.
pub open spec fn found_text(d: ApolloDeviceView) -> Seq<char> {
    "Found Cynthion in "@ + mode_text(d.mode) + " mode (bus "@ + d.bus_id + " addr "@
        + text::decimal(d.address as nat) + (match d.serial {
        Some(s) => ", serial "@ + s,
        None => ""@,
    }) + ")."@
}

/// The line that says which board was found.
pub fn found_line(d: &ApolloDevice) -> (s: String)
    ensures
        s@ == found_text(d@),
{
    let mut s = "Found Cynthion in ".to_owned();
    match d.mode {
        BoardMode::Apollo => s.append("Apollo"),
        BoardMode::Gateware => s.append("Gateware"),
        BoardMode::NotFound => s.append("NotFound"),
    }
    s.append(" mode (bus ");
    s.append(d.bus_id.as_str());
    s.append(" addr ");
    text::push_decimal(&mut s, d.address as u64);
    let ghost head = s@;
    match &d.serial {
        Some(serial) => {
            s.append(", serial ");
            s.append(serial.as_str());
            assert(s@ =~= head + (", serial "@ + serial@));
        },
        None => s.append(""),
    }
    s.append(").");
    s
}

/// The line names the mode, the bus, the address and, if there is one, the serial number
/// of the board that was found.
pub proof fn found_line_shows_the_board(d: ApolloDeviceView)
    ensures
        ({
            let mode = match d.mode {
                BoardMode::Apollo => "Apollo"@,
                BoardMode::Gateware => "Gateware"@,
                BoardMode::NotFound => "NotFound"@,
            };
            let place = "Found Cynthion in "@ + mode + " mode (bus "@ + d.bus_id + " addr "@
                + text::decimal(d.address as nat);
            &&& d.serial matches Some(s) ==> found_text(d) == place + (", serial "@ + s) + ")."@
            &&& d.serial is None ==> found_text(d) == place + ")."@
        }),
{
    reveal_strlit("");
    let place = "Found Cynthion in "@ + mode_text(d.mode) + " mode (bus "@ + d.bus_id + " addr "@
        + text::decimal(d.address as nat);
    assert(place + ""@ =~= place);
}

/// Where a bitstream goes.
pub open spec fn target_of(persistent: bool) -> FlashTarget {
    if persistent {
        FlashTarget::Flash
    } else {
        FlashTarget::Sram
    }
}

/// The line that says what is being flashed.
pub open spec fn flashing_text(path: Seq<char>, length: nat, target: FlashTarget) -> Seq<char> {
    "Flashing "@ + path + " ("@ + text::decimal(length) + " bytes) to "@ + (match target {
        FlashTarget::Flash => "SPI flash"@,
        FlashTarget::Sram => "FPGA SRAM"@,
    }) + "..."@
}

/// What is to last goes into the flash, anything else into SRAM, and the line says which, of
/// what file and how many bytes.
pub proof fn flashing_line_names_the_target(path: Seq<char>, length: nat)
    ensures
        flashing_text(path, length, target_of(true)) == "Flashing "@ + path + " ("@ + text::decimal(
            length,
        ) + " bytes) to "@ + "SPI flash"@ + "..."@,
        flashing_text(path, length, target_of(false)) == "Flashing "@ + path + " ("@
            + text::decimal(length) + " bytes) to "@ + "FPGA SRAM"@ + "..."@,
        target_of(true) is Flash,
        target_of(false) is Sram,
{
}

/// Where a bitstream goes: persistently into flash if asked for, else into SRAM.
pub fn flash_target(persistent: bool) -> (t: FlashTarget)
    ensures
        t == target_of(persistent),
{
    if persistent {
        FlashTarget::Flash
    } else {
        FlashTarget::Sram
    }
}

/// The line that says what is being flashed.
pub fn flashing_line(path: &str, length: usize, target: FlashTarget) -> (s: String)
    ensures
        s@ == flashing_text(path@, length as nat, target),
{
    let mut s = "Flashing ".to_owned();
    s.append(path);
    s.append(" (");
    text::push_decimal(&mut s, length as u64);
    s.append(" bytes) to ");
    match target {
        FlashTarget::Flash => s.append("SPI flash"),
        FlashTarget::Sram => s.append("FPGA SRAM"),
    }
    s.append("...");
    s
}

/// Whether a file name has the extension `bit`.
pub open spec fn is_bitstream(name: Seq<char>) -> bool {
    name.len() > 4 && name.skip(name.len() - 4) == seq!['.', 'b', 'i', 't']
}

/// Whether `a` comes before `b` alphabetically, or is the same.
pub open spec fn alphabetical(a: Seq<char>, b: Seq<char>) -> bool
    decreases a.len(),
{
    if a.len() == 0 {
        true
    } else if b.len() == 0 {
        false
    } else if a[0] == b[0] {
        alphabetical(a.skip(1), b.skip(1))
    } else {
        (a[0] as int) < (b[0] as int)
    }
}

/// A bitstream is a file whose name is something, then `.bit`.
pub proof fn bitstreams_end_in_bit(stem: Seq<char>)
    ensures
        is_bitstream(stem + seq!['.', 'b', 'i', 't']) <==> stem.len() > 0,
{
    let name = stem + seq!['.', 'b', 'i', 't'];
    assert(name.skip(name.len() - 4) =~= seq!['.', 'b', 'i', 't']);
}

/// Names are in the order of a dictionary: the first character in which two names differ
/// decides, and a name stands before every longer one that starts with it.
pub proof fn names_are_in_dictionary_order(
    start: Seq<char>,
    a: char,
    b: char,
    s: Seq<char>,
    t: Seq<char>,
)
    ensures
        a != b ==> (alphabetical(start + seq![a] + s, start + seq![b] + t) <==> (a as int) < (
        b as int)),
        alphabetical(start, start + t),
        t.len() > 0 ==> !alphabetical(start + t, start),
    decreases start.len(),
{
    if start.len() > 0 {
        let rest = start.skip(1);
        names_are_in_dictionary_order(rest, a, b, s, t);
        assert((start + seq![a] + s).skip(1) =~= rest + seq![a] + s);
        assert((start + seq![b] + t).skip(1) =~= rest + seq![b] + t);
        assert((start + t).skip(1) =~= rest + t);
    }
}

fn has_bit_extension(name: &str) -> (r: bool)
    ensures
        r == is_bitstream(name@),
{
    let n: usize = name.unicode_len();
    if n <= 4 {
        return false;
    }
    let r = name.get_char(n - 4) == '.' && name.get_char(n - 3) == 'b' && name.get_char(n - 2)
        == 'i' && name.get_char(n - 1) == 't';
    proof {
        let end = name@.skip(n - 4);
        if r {
            assert(end =~= seq!['.', 'b', 'i', 't']);
        } else {
            assert(end[0] != '.' || end[1] != 'b' || end[2] != 'i' || end[3] != 't');
        }
    }
    r
}

fn comes_first(a: &str, b: &str) -> (r: bool)
    ensures
        r == alphabetical(a@, b@),
{
    let n: usize = a.unicode_len();
    let m: usize = b.unicode_len();
    let mut i: usize = 0;
    assert(a@.skip(0) =~= a@ && b@.skip(0) =~= b@);
    while i < n && i < m
        invariant
            n == a@.len(),
            m == b@.len(),
            i <= n,
            i <= m,
            alphabetical(a@, b@) == alphabetical(a@.skip(i as int), b@.skip(i as int)),
        decreases n - i,
    {
        let x: char = a.get_char(i);
        let y: char = b.get_char(i);
        if x != y {
            return (x as u32) < (y as u32);
        }
        assert(a@.skip(i as int).skip(1) =~= a@.skip(i + 1));
        assert(b@.skip(i as int).skip(1) =~= b@.skip(i + 1));
        i = i + 1;
    }
    i == n
}

proof fn lemma_total(a: Seq<char>, b: Seq<char>)
    ensures
        alphabetical(a, b) || alphabetical(b, a),
        alphabetical(a, a),
    decreases a.len(),
{
    if a.len() > 0 {
        if b.len() > 0 {
            lemma_total(a.skip(1), b.skip(1));
        } else {
            lemma_total(a.skip(1), b);
        }
    }
}

proof fn lemma_transitive(a: Seq<char>, b: Seq<char>, c: Seq<char>)
    requires
        alphabetical(a, b),
        alphabetical(b, c),
    ensures
        alphabetical(a, c),
    decreases a.len(),
{
    if a.len() > 0 && b.len() > 0 && c.len() > 0 && a[0] == b[0] && b[0] == c[0] {
        lemma_transitive(a.skip(1), b.skip(1), c.skip(1));
    }
}

/// The vendored bitstream among the files of the firmware directory: the first
/// `*.bit` alphabetically.
pub fn default_firmware(names: &Vec<String>) -> (r: Option<usize>)
    ensures
        match r {
            Some(i) => i < names@.len() && is_bitstream(names@[i as int]@) && forall|k: int|
                0 <= k < names@.len() && is_bitstream(#[trigger] names@[k]@) ==> alphabetical(
                    names@[i as int]@,
                    names@[k]@,
                ),
            None => forall|k: int| 0 <= k < names@.len() ==> !is_bitstream(#[trigger] names@[k]@),
        },
{
    let mut best: Option<usize> = None;
    let n: usize = names.len();
    let mut i: usize = 0;
    while i < n
        invariant
            n == names@.len(),
            i <= n,
            match best {
                Some(b) => b < i && is_bitstream(names@[b as int]@) && forall|k: int|
                    0 <= k < i && is_bitstream(#[trigger] names@[k]@) ==> alphabetical(
                        names@[b as int]@,
                        names@[k]@,
                    ),
                None => forall|k: int| 0 <= k < i ==> !is_bitstream(#[trigger] names@[k]@),
            },
        decreases n - i,
    {
        if has_bit_extension(names[i].as_str()) {
            match best {
                Some(b) => {
                    proof {
                        lemma_total(names@[b as int]@, names@[i as int]@);
                        lemma_total(names@[i as int]@, names@[i as int]@);
                    }
                    if !comes_first(names[b].as_str(), names[i].as_str()) {
                        proof {
                            assert forall|k: int|
                                0 <= k < i && is_bitstream(#[trigger] names@[k]@) implies
                                alphabetical(names@[i as int]@, names@[k]@) by {
                                lemma_transitive(
                                    names@[i as int]@,
                                    names@[b as int]@,
                                    names@[k]@,
                                );
                            }
                        }
                        best = Some(i);
                    }
                },
                None => {
                    proof {
                        lemma_total(names@[i as int]@, names@[i as int]@);
                    }
                    best = Some(i);
                },
            }
        }
        i = i + 1;
    }
    best
}

/// The line that shows a JTAG identity code.
pub open spec fn idcode_text(idcode: u32, known: u32) -> Seq<char> {
    "JTAG IDCODE: 0x"@ + text::hex_fixed(idcode as nat, 8) + (if idcode == known {
        " (ECP5 LFE5U-12F)"@
    } else {
        ""@
    })
}

/// The line that shows the identity register of the PD bridge gateware.
pub open spec fn bridge_id_text(id: u32) -> Seq<char> {
    "REG_ID      = 0x"@ + text::hex_fixed(id as nat, 8) + " "@ + (if id == PD_BRIDGE_ID {
        "(uPDB \u{2713})"@
    } else {
        "(unexpected!)"@
    })
}

/// Identities are shown in eight hexadecimal digits, and are named exactly if they are the ones
/// expected: that of the FPGA, and `uPDB` in ASCII for the bridge.
pub proof fn identities_are_named_when_known(idcode: u32, known: u32, id: u32)
    ensures
        idcode == known ==> idcode_text(idcode, known) == "JTAG IDCODE: 0x"@ + text::hex_fixed(
            idcode as nat,
            8,
        ) + " (ECP5 LFE5U-12F)"@,
        idcode != known ==> idcode_text(idcode, known) == "JTAG IDCODE: 0x"@ + text::hex_fixed(
            idcode as nat,
            8,
        ),
        id == 'u' as int * 0x100_0000 + 'P' as int * 0x1_0000 + 'D' as int * 0x100 + 'B' as int
            ==> bridge_id_text(id) == "REG_ID      = 0x"@ + text::hex_fixed(id as nat, 8) + " "@
            + "(uPDB \u{2713})"@,
        id != 'u' as int * 0x100_0000 + 'P' as int * 0x1_0000 + 'D' as int * 0x100 + 'B' as int
            ==> bridge_id_text(id) == "REG_ID      = 0x"@ + text::hex_fixed(id as nat, 8) + " "@
            + "(unexpected!)"@,
{
    reveal_strlit("");
    let shown = "JTAG IDCODE: 0x"@ + text::hex_fixed(idcode as nat, 8);
    assert(shown + ""@ =~= shown);
}

/// The line that shows a JTAG identity code; `known` is that of the board's FPGA.
pub fn idcode_line(idcode: u32, known: u32) -> (s: String)
    ensures
        s@ == idcode_text(idcode, known),
{
    let mut s = "JTAG IDCODE: 0x".to_owned();
    text::push_hex(&mut s, idcode as u64, 8);
    if idcode == known {
        s.append(" (ECP5 LFE5U-12F)");
    } else {
        s.append("");
    }
    s
}

/// The line that shows the identity register of the PD bridge gateware.
pub fn bridge_id_line(id: u32) -> (s: String)
    ensures
        s@ == bridge_id_text(id),
{
    let mut s = "REG_ID      = 0x".to_owned();
    text::push_hex(&mut s, id as u64, 8);
    s.append(" ");
    if id == PD_BRIDGE_ID {
        s.append("(uPDB \u{2713})");
    } else {
        s.append("(unexpected!)");
    }
    s
}

/// A number in hexadecimal, without leading zeros.
pub open spec fn hex(n: nat) -> Seq<char>
    decreases n,
{
    if n < 16 {
        seq![text::hex_char(n)]
    } else {
        hex(n / 16).push(text::hex_char(n % 16))
    }
}

/// A number in hexadecimal reads back as itself, and starts with 0 only if it is 0.
pub proof fn short_hex_reads_back(n: nat)
    ensures
        text::number(hex(n), 16) == n,
        hex(n).len() > 0,
        hex(n)[0] == '0' ==> n == 0,
        forall|i: int|
            0 <= i < hex(n).len() ==> ('0' <= #[trigger] hex(n)[i] <= '9' || 'a' <= hex(n)[i]
                <= 'f'),
    decreases n,
{
    reveal_with_fuel(text::number, 2);
    let h = hex(n);
    if n < 16 {
        assert(h.drop_last() =~= Seq::<char>::empty());
    } else {
        short_hex_reads_back(n / 16);
        assert(h.drop_last() =~= hex(n / 16));
        assert(h[0] == hex(n / 16)[0]);
        assert forall|i: int| 0 <= i < h.len() implies ('0' <= #[trigger] h[i] <= '9' || 'a' <= h[i]
            <= 'f') by {
            if i < h.len() - 1 {
                assert(h[i] == hex(n / 16)[i]);
            }
        }
    }
}

fn push_short_hex(out: &mut String, n: u32)
    ensures
        final(out)@ == old(out)@ + hex(n as nat),
    decreases n,
{
    let ghost start = out@;
    if n >= 16 {
        push_short_hex(out, n / 16);
    }
    let d: u8 = (n % 16) as u8;
    if d < 10 {
        out.push((48 + d) as char);
    } else {
        out.push((87 + d) as char);
    }
    assert(out@ =~= start + hex(n as nat));
}

/// The line that shows the input pins of the PD bridge.
pub open spec fn gpio_text(gpio_in: u32) -> Seq<char> {
    "REG_GPIO_IN = 0x"@ + hex(gpio_in as nat) + "  (SDA="@ + text::decimal((gpio_in % 2) as nat)
        + ", FUSB302B_INT="@ + text::decimal(((gpio_in / 2) % 2) as nat) + ")"@
}

/// The line that shows the device ID of a FUSB302B.
pub open spec fn fusb302_id_text(id: u8) -> Seq<char> {
    "FUSB302B DeviceID (reg 0x01) = 0x"@ + text::hex_fixed(id as nat, 2) + "  (version 0x"@
        + text::hex_fixed((id / 16) as nat, 1) + ", rev 0x"@ + text::hex_fixed((id % 4) as nat, 1)
        + ")"@ + (if id != 0 && id != 0xff {
        " \u{2713}"@
    } else {
        " (no device?)"@
    })
}

/// The line shows the pins as they are: the level of the data line is bit 0, that of the
/// interrupt line bit 1, whatever the other bits are.
pub proof fn gpio_line_shows_the_pins(sda: u32, irq: u32, rest: u32)
    requires
        sda < 2,
        irq < 2,
        rest < 0x4000_0000,
    ensures
        gpio_text((sda + 2 * irq + 4 * rest) as u32) == "REG_GPIO_IN = 0x"@ + hex(
            (sda + 2 * irq + 4 * rest) as nat,
        ) + "  (SDA="@ + text::decimal(sda as nat) + ", FUSB302B_INT="@ + text::decimal(irq as nat)
            + ")"@,
{
    let x = sda + 2 * irq + 4 * rest;
    assert(x / 2 == irq + 2 * rest);
}

/// The line shows the version, which is the upper four bits, and the revision, which is the
/// lower two; an ID of all zeros or all ones is marked as that of no device.
pub proof fn id_line_shows_version_and_revision(version: u8, middle: u8, revision: u8)
    requires
        version < 16,
        middle < 4,
        revision < 4,
    ensures
        ({
            let id = (16 * version + 4 * middle + revision) as u8;
            let shown = "FUSB302B DeviceID (reg 0x01) = 0x"@ + text::hex_fixed(id as nat, 2)
                + "  (version 0x"@ + text::hex_fixed(version as nat, 1) + ", rev 0x"@
                + text::hex_fixed(revision as nat, 1) + ")"@;
            &&& id == 0 || id == 255 ==> fusb302_id_text(id) == shown + " (no device?)"@
            &&& id != 0 && id != 255 ==> fusb302_id_text(id) == shown + " \u{2713}"@
        }),
{
    let id = 16 * version + 4 * middle + revision;
    assert(id / 16 == version);
    assert(id % 4 == revision) by {
        assert(id == 4 * (4 * version + middle) + revision);
    }
}

/// The line that shows the input pins of the PD bridge (bit 0 = SDA, bit 1 = INT#).
pub fn gpio_line(gpio_in: u32) -> (s: String)
    ensures
        s@ == gpio_text(gpio_in),
{
    let mut s = "REG_GPIO_IN = 0x".to_owned();
    push_short_hex(&mut s, gpio_in);
    s.append("  (SDA=");
    text::push_decimal(&mut s, (gpio_in % 2) as u64);
    s.append(", FUSB302B_INT=");
    text::push_decimal(&mut s, ((gpio_in / 2) % 2) as u64);
    s.append(")");
    s
}

/// The line that shows the device ID of a FUSB302B: version in the upper half,
/// revision in the low two bits. All zeros or all ones mean that nothing answered.
pub fn fusb302_id_line(id: u8) -> (s: String)
    ensures
        s@ == fusb302_id_text(id),
{
    let mut s = "FUSB302B DeviceID (reg 0x01) = 0x".to_owned();
    text::push_hex(&mut s, id as u64, 2);
    s.append("  (version 0x");
    text::push_hex(&mut s, (id / 16) as u64, 1);
    s.append(", rev 0x");
    text::push_hex(&mut s, (id % 4) as u64, 1);
    s.append(")");
    if id != 0 && id != 0xff {
        s.append(" \u{2713}");
    } else {
        s.append(" (no device?)");
    }
    s
}

} // verus!

//! Choosing a device and a capture speed, and describing devices.

use vstd::prelude::*;
use vstd::string::*;

use crate::capture::Speed;
use crate::device;
use crate::device::Capabilities;
use crate::device::DeviceDescription;
use crate::device::DeviceDescriptionView;
use crate::device::State;
use crate::error;
use crate::error::ErrorView;
use crate::error::Result;
use crate::host::descriptors;
use crate::text;

verus! {

/// Why no device was selected.
#[derive(Debug, Clone, Copy, PartialEq, Eq, Structural)]
pub enum SelectError {
    /// There is no device at all.
    NoDevices,
    /// No serial number contains the given text.
    NoMatch,
    /// This many serial numbers contain the given text.
    TooMany(usize),
    /// There are several devices and no text was given.
    Ambiguous,
}

/// Whether a device has a serial number that contains the given text.
pub open spec fn serial_matches(d: DeviceDescriptionView, sel: Seq<char>) -> bool {
    d.serial matches Some(s) && text::contains_str(s, sel)
}

/// The places of the devices whose serial number contains the given text.
pub open spec fn matching(ds: Seq<DeviceDescriptionView>, sel: Seq<char>) -> Seq<int>
    decreases ds.len(),
{
    if ds.len() == 0 {
        Seq::empty()
    } else if serial_matches(ds.last(), sel) {
        matching(ds.drop_last(), sel).push(ds.len() - 1)
    } else {
        matching(ds.drop_last(), sel)
    }
}

/// The selected device: the only one, or the only one whose serial number contains the text.
pub open spec fn selected(
    all: Seq<DeviceDescriptionView>,
    sel: Option<Seq<char>>,
) -> core::result::Result<int, SelectError> {
    if all.len() == 0 {
        Err(SelectError::NoDevices)
    } else {
        match sel {
            Some(sel) => {
                let m = matching(all, sel);
                if m.len() == 0 {
                    Err(SelectError::NoMatch)
                } else if m.len() == 1 {
                    Ok(m[0])
                } else {
                    Err(SelectError::TooMany(m.len() as usize))
                }
            },
            None => if all.len() == 1 {
                Ok(0)
            } else {
                Err(SelectError::Ambiguous)
            },
        }
    }
}

/// The matching devices are listed in order, none twice.
proof fn lemma_matching_ascends(ds: Seq<DeviceDescriptionView>, sel: Seq<char>)
    ensures
        forall|j: int, k: int|
            0 <= j < k < matching(ds, sel).len() ==> matching(ds, sel)[j] < matching(ds, sel)[k],
        matching(ds, sel).len() <= ds.len(),
    decreases ds.len(),
{
    if ds.len() > 0 {
        lemma_matching_ascends(ds.drop_last(), sel);
        matching_is_exact(ds.drop_last(), sel);
    }
}

/// A device is selected by a text exactly if its serial number is the only one that has the
/// text in it, and without a text exactly if it is the only device; otherwise it is told
/// whether there is none or how many there are.
pub proof fn selection_is_of_the_only_one(
    all: Seq<DeviceDescriptionView>,
    sel: Option<Seq<char>>,
    i: int,
)
    requires
        0 <= i < all.len(),
    ensures
        sel is None ==> (selected(all, sel) == Ok::<int, SelectError>(i) <==> all.len() == 1),
        sel is None && all.len() > 1 ==> selected(all, sel) == Err::<int, SelectError>(
            SelectError::Ambiguous,
        ),
        sel matches Some(s) ==> (selected(all, sel) == Ok::<int, SelectError>(i) <==> (
        serial_matches(all[i], s) && forall|k: int|
            0 <= k < all.len() && k != i ==> !serial_matches(#[trigger] all[k], s))),
        sel matches Some(s) ==> (selected(all, sel) == Err::<int, SelectError>(SelectError::NoMatch)
            <==> forall|k: int| 0 <= k < all.len() ==> !serial_matches(#[trigger] all[k], s)),
        selected(Seq::empty(), sel) == Err::<int, SelectError>(SelectError::NoDevices),
{
    if let Some(s) = sel {
        let m = matching(all, s);
        matching_is_exact(all, s);
        lemma_matching_ascends(all, s);
        if m.len() == 1 && m[0] == i {
            assert forall|k: int| 0 <= k < all.len() && k != i implies !serial_matches(
                #[trigger] all[k],
                s,
            ) by {
                if serial_matches(all[k], s) {
                    assert(m.contains(k));
                }
            }
        }
        if serial_matches(all[i], s) && forall|k: int|
            0 <= k < all.len() && k != i ==> !serial_matches(#[trigger] all[k], s) {
            assert(m.contains(i));
            if m.len() > 1 {
                assert(serial_matches(all[m[0]], s) && serial_matches(all[m[1]], s));
                assert(m[0] < m[1]);
            }
            assert(m[0] == i) by {
                assert(serial_matches(all[m[0]], s));
            }
        }
        if m.len() == 0 {
            assert forall|k: int| 0 <= k < all.len() implies !serial_matches(
                #[trigger] all[k],
                s,
            ) by {
                if serial_matches(all[k], s) {
                    assert(m.contains(k));
                }
            }
        } else {
            assert(serial_matches(all[m[0]], s));
        }
    }
}

/// A serial number matches a text that is a part of it; a device without one matches none.
pub proof fn serial_numbers_match_their_parts(
    d: DeviceDescriptionView,
    before: Seq<char>,
    sel: Seq<char>,
    after: Seq<char>,
)
    ensures
        d.serial is None ==> !serial_matches(d, sel),
        d.serial == Some(before + sel + after) ==> serial_matches(d, sel),
        d.serial == Some(before) && before.len() < sel.len() ==> !serial_matches(d, sel),
{
    text::containing_is_being_a_part(before, sel, after);
}

/// Pick the one selected device: the only one, or the only one whose serial number
/// contains `sel`.
pub fn select(ds: &Vec<DeviceDescription>, sel: Option<&str>) -> (r: core::result::Result<
    usize,
    SelectError,
>)
    ensures
        match selected(
            device::description_views(ds@),
            match sel {
                Some(sel) => Some(sel@),
                None => None,
            },
        ) {
            Ok(i) => r matches Ok(k) && k == i && k < ds@.len(),
            Err(e) => r == Err::<usize, SelectError>(e),
        },
        r matches Err(SelectError::TooMany(n)) ==> n == matching(
            device::description_views(ds@),
            sel->0@,
        ).len(),
{
    if ds.len() == 0 {
        return Err(SelectError::NoDevices);
    }
    let sel = match sel {
        Some(sel) => sel,
        None => {
            if ds.len() > 1 {
                return Err(SelectError::Ambiguous);
            }
            return Ok(0);
        },
    };
    let ghost all = device::description_views(ds@);
    let mut first: usize = 0;
    let mut count: usize = 0;
    let mut i: usize = 0;
    assert(all.take(0) =~= Seq::<DeviceDescriptionView>::empty());
    while i < ds.len()
        invariant
            i <= ds@.len(),
            all == device::description_views(ds@),
            count <= i,
            count == matching(all.take(i as int), sel@).len(),
            count > 0 ==> first == matching(all.take(i as int), sel@)[0],
        decreases ds@.len() - i,
    {
        proof {
            assert(all.take(i + 1).drop_last() =~= all.take(i as int));
            assert(all.take(i + 1).last() == ds@[i as int]@);
        }
        let hit = match &ds[i].serial {
            Some(s) => text::contains(s.as_str(), sel),
            None => false,
        };
        if hit {
            if count == 0 {
                first = i;
            }
            count = count + 1;
        }
        i = i + 1;
    }
    proof {
        assert(all.take(i as int) =~= all);
        matching_is_exact(all, sel@);
    }
    if count == 0 {
        Err(SelectError::NoMatch)
    } else if count == 1 {
        Ok(first)
    } else {
        Err(SelectError::TooMany(count))
    }
}

/// The matching devices are exactly those whose serial number contains the text.
pub proof fn matching_is_exact(ds: Seq<DeviceDescriptionView>, sel: Seq<char>)
    ensures
        forall|k: int|
            0 <= k < matching(ds, sel).len() ==> 0 <= #[trigger] matching(ds, sel)[k] < ds.len()
                && serial_matches(ds[matching(ds, sel)[k]], sel),
        forall|i: int|
            0 <= i < ds.len() && serial_matches(#[trigger] ds[i], sel) ==> matching(
                ds,
                sel,
            ).contains(i),
    decreases ds.len(),
{
    if ds.len() > 0 {
        let rest = ds.drop_last();
        matching_is_exact(rest, sel);
        let m = matching(ds, sel);
        let p = matching(rest, sel);
        assert forall|k: int| 0 <= k < m.len() implies 0 <= #[trigger] m[k] < ds.len()
            && serial_matches(ds[m[k]], sel) by {
            if k < p.len() {
                assert(m[k] == p[k]);
                assert(rest[p[k]] == ds[p[k]]);
            }
        }
        assert forall|i: int| 0 <= i < ds.len() && serial_matches(#[trigger] ds[i], sel) implies
            m.contains(i) by {
            if i < rest.len() {
                assert(rest[i] == ds[i]);
                let k = choose|k: int| 0 <= k < p.len() && p[k] == i;
                assert(m[k] == i);
            } else {
                assert(m[p.len() as int] == i);
            }
        }
    }
}

/// A text with `before` in front and `after` behind, or nothing.
pub open spec fn wrapped(before: Seq<char>, s: Option<Seq<char>>, after: Seq<char>) -> Seq<char> {
    match s {
        Some(s) => before + s + after,
        None => Seq::empty(),
    }
}

/// The line that lists a device.
pub open spec fn listing(d: DeviceDescriptionView) -> Seq<char> {
    "  "@ + text::pad_right(d.backend, 9) + " "@ + text::hex_fixed(d.vendor_id as nat, 4) + ":"@
        + text::hex_fixed(d.product_id as nat, 4) + "  bus "@ + d.bus_id + " addr "@
        + text::decimal(d.address as nat) + wrapped("  "@, d.product, ""@) + wrapped(
        "  ["@,
        d.serial,
        "]"@,
    )
}

/// A device's line gives its backend, its IDs, where it is, and what else is known: product
/// and serial number, each only if there is one.
pub proof fn device_line_shows_the_device(d: DeviceDescriptionView)
    ensures
        ({
            let place = "  "@ + text::pad_right(d.backend, 9) + " "@ + text::hex_fixed(
                d.vendor_id as nat,
                4,
            ) + ":"@ + text::hex_fixed(d.product_id as nat, 4) + "  bus "@ + d.bus_id + " addr "@
                + text::decimal(d.address as nat);
            &&& d.product is None && d.serial is None ==> listing(d) == place
            &&& d.product is Some && d.serial is None ==> listing(d) == place + ("  "@
                + d.product->0)
            &&& d.product is None && d.serial is Some ==> listing(d) == place + ("  ["@ + d.serial->0
                + "]"@)
            &&& d.product is Some && d.serial is Some ==> listing(d) == place + ("  "@
                + d.product->0) + ("  ["@ + d.serial->0 + "]"@)
        }),
{
    reveal_strlit("");
    let place = "  "@ + text::pad_right(d.backend, 9) + " "@ + text::hex_fixed(
        d.vendor_id as nat,
        4,
    ) + ":"@ + text::hex_fixed(d.product_id as nat, 4) + "  bus "@ + d.bus_id + " addr "@
        + text::decimal(d.address as nat);
    assert(place + Seq::<char>::empty() =~= place);
    if let Some(p) = d.product {
        assert("  "@ + p + ""@ =~= "  "@ + p);
        assert(place + ("  "@ + p) + Seq::<char>::empty() =~= place + ("  "@ + p));
    }
}

/// The line that lists a device.
pub fn device_line(d: &DeviceDescription) -> (s: String)
    ensures
        s@ == listing(d@),
{
    let mut s = "  ".to_owned();
    text::push_padded_right(&mut s, d.backend, 9);
    s.append(" ");
    text::push_hex(&mut s, d.vendor_id as u64, 4);
    s.append(":");
    text::push_hex(&mut s, d.product_id as u64, 4);
    s.append("  bus ");
    s.append(d.bus_id.as_str());
    s.append(" addr ");
    text::push_decimal(&mut s, d.address as u64);
    let ghost head = s@;
    if let Some(p) = &d.product {
        s.append("  ");
        s.append(p.as_str());
        proof {
            reveal_strlit("");
        }
    }
    assert(s@ =~= head + wrapped("  "@, d@.product, ""@));
    let ghost named = s@;
    if let Some(n) = &d.serial {
        s.append("  [");
        s.append(n.as_str());
        s.append("]");
    }
    assert(s@ =~= named + wrapped("  ["@, d@.serial, "]"@));
    s
}

/// The names of a list of speeds, separated by commas.
pub open spec fn speed_list(speeds: Seq<Speed>) -> Seq<char>
    decreases speeds.len(),
{
    if speeds.len() == 0 {
        Seq::empty()
    } else if speeds.len() == 1 {
        speeds[0].name()
    } else {
        speed_list(speeds.drop_last()) + ", "@ + speeds.last().name()
    }
}

/// Speeds are named in order, with a comma and a space between two of them and nowhere else.
pub proof fn speeds_are_named_in_order(speeds: Seq<Speed>, next: Speed)
    ensures
        speed_list(Seq::empty()) == Seq::<char>::empty(),
        speed_list(seq![next]) == next.name(),
        speeds.len() > 0 ==> speed_list(speeds.push(next)) == speed_list(speeds) + ", "@
            + next.name(),
{
    assert(speeds.push(next).drop_last() =~= speeds);
}

/// The names of a list of speeds, separated by commas.
pub fn join_speeds(speeds: &Vec<Speed>) -> (s: String)
    ensures
        s@ == speed_list(speeds@),
{
    let mut s = String::new();
    let mut i: usize = 0;
    assert(speeds@.take(0) =~= Seq::<Speed>::empty());
    assert(s@ =~= speed_list(speeds@.take(0)));
    while i < speeds.len()
        invariant
            i <= speeds@.len(),
            s@ == speed_list(speeds@.take(i as int)),
        decreases speeds@.len() - i,
    {
        if i > 0 {
            s.append(", ");
        }
        s.append(speeds[i].as_str());
        proof {
            let t = speeds@.take(i + 1);
            assert(t.drop_last() =~= speeds@.take(i as int));
            assert(s@ =~= speed_list(t));
        }
        i = i + 1;
    }
    assert(speeds@.take(i as int) =~= speeds@);
    s
}

/// The line that `before` starts and an optional text ends; none without the text.
pub open spec fn line_if(before: Seq<char>, s: Option<Seq<char>>) -> Seq<Seq<char>> {
    match s {
        Some(s) => seq![before + s],
        None => Seq::empty(),
    }
}

/// The lines that describe a device and what it can do.
pub open spec fn details(d: DeviceDescriptionView, caps: Capabilities) -> Seq<Seq<char>> {
    let speeds = speed_list(caps.supported_speeds@);
    seq![
        "Backend:   "@ + d.backend,
        "USB ID:    "@ + text::hex_fixed(d.vendor_id as nat, 4) + ":"@ + text::hex_fixed(
            d.product_id as nat,
            4,
        ),
    ] + line_if("Product:   "@, d.product) + line_if("Serial:    "@, d.serial) + seq![
        "Bus:       "@ + d.bus_id + " addr "@ + text::decimal(d.address as nat),
        "Speeds:    "@ + (if speeds.len() == 0 {
            "<none>"@
        } else {
            speeds
        }),
    ] + line_if(
        "Protocol:  v"@,
        match caps.protocol_version {
            Some(v) => Some(text::decimal(v as nat)),
            None => None,
        },
    ) + seq![
        "VBUS ctrl: "@ + (if caps.can_control_vbus {
            "yes"@
        } else {
            "no"@
        }),
    ]
}

/// Some speed has some name.
proof fn lemma_speeds_are_named(speeds: Seq<Speed>)
    ensures
        speeds.len() > 0 ==> speed_list(speeds).len() > 0,
{
    reveal_strlit(", ");
    reveal_strlit("auto");
    reveal_strlit("low");
    reveal_strlit("full");
    reveal_strlit("high");
}

/// The description of a device gives, one line each: its backend, its IDs, its product and
/// serial number if there are any, where it is, its speeds, its protocol version if there is
/// one, and whether it can switch VBUS.
pub proof fn description_has_every_line(d: DeviceDescriptionView, caps: Capabilities)
    ensures
        ({
            let lines = details(d, caps);
            let p = if d.product is Some {
                1int
            } else {
                0
            };
            let s = if d.serial is Some {
                1int
            } else {
                0
            };
            let v = if caps.protocol_version is Some {
                1int
            } else {
                0
            };
            &&& lines.len() == 5 + p + s + v
            &&& lines[0] == "Backend:   "@ + d.backend
            &&& lines[1] == "USB ID:    "@ + text::hex_fixed(d.vendor_id as nat, 4) + ":"@
                + text::hex_fixed(d.product_id as nat, 4)
            &&& d.product matches Some(t) ==> lines[2] == "Product:   "@ + t
            &&& d.serial matches Some(t) ==> lines[2 + p] == "Serial:    "@ + t
            &&& lines[2 + p + s] == "Bus:       "@ + d.bus_id + " addr "@ + text::decimal(
                d.address as nat,
            )
            &&& caps.supported_speeds@.len() == 0 ==> lines[3 + p + s] == "Speeds:    "@
                + "<none>"@
            &&& caps.supported_speeds@.len() > 0 ==> lines[3 + p + s] == "Speeds:    "@
                + speed_list(caps.supported_speeds@)
            &&& caps.protocol_version matches Some(n) ==> lines[4 + p + s] == "Protocol:  v"@
                + text::decimal(n as nat)
            &&& caps.can_control_vbus ==> lines.last() == "VBUS ctrl: "@ + "yes"@
            &&& !caps.can_control_vbus ==> lines.last() == "VBUS ctrl: "@ + "no"@
        }),
{
    lemma_speeds_are_named(caps.supported_speeds@);
}

/// Append a line made of two parts.
fn push_line(out: &mut Vec<String>, before: &str, s: &str)
    ensures
        descriptors::text_views(final(out)@) == descriptors::text_views(old(out)@).push(
            before@ + s@,
        ),
{
    let ghost start = out@;
    let mut line = before.to_owned();
    line.append(s);
    out.push(line);
    assert(descriptors::text_views(out@) =~= descriptors::text_views(start).push(before@ + s@));
}

/// The lines that describe a device and what it can do.
#[verifier::rlimit(40)]
pub fn info_lines(d: &DeviceDescription, caps: &Capabilities) -> (out: Vec<String>)
    ensures
        descriptors::text_views(out@) == details(d@, *caps),
{
    let mut out: Vec<String> = Vec::new();
    assert(descriptors::text_views(out@) =~= Seq::<Seq<char>>::empty());
    push_line(&mut out, "Backend:   ", d.backend);
    let mut id = String::new();
    text::push_hex(&mut id, d.vendor_id as u64, 4);
    id.append(":");
    text::push_hex(&mut id, d.product_id as u64, 4);
    push_line(&mut out, "USB ID:    ", id.as_str());
    let ghost v = d@;
    let ghost head = seq![
        "Backend:   "@ + v.backend,
        "USB ID:    "@ + text::hex_fixed(v.vendor_id as nat, 4) + ":"@ + text::hex_fixed(
            v.product_id as nat,
            4,
        ),
    ];
    proof {
        assert(id@ =~= text::hex_fixed(v.vendor_id as nat, 4) + ":"@ + text::hex_fixed(
            v.product_id as nat,
            4,
        ));
        assert("USB ID:    "@ + id@ =~= "USB ID:    "@ + text::hex_fixed(v.vendor_id as nat, 4)
            + ":"@ + text::hex_fixed(v.product_id as nat, 4));
        assert(descriptors::text_views(out@) =~= head);
    }
    if let Some(p) = &d.product {
        push_line(&mut out, "Product:   ", p.as_str());
    }
    if let Some(s) = &d.serial {
        push_line(&mut out, "Serial:    ", s.as_str());
    }
    let ghost named = head + line_if("Product:   "@, v.product) + line_if(
        "Serial:    "@,
        v.serial,
    );
    assert(descriptors::text_views(out@) =~= named);
    let mut bus = d.bus_id.clone();
    bus.append(" addr ");
    text::push_decimal(&mut bus, d.address as u64);
    push_line(&mut out, "Bus:       ", bus.as_str());
    let speeds = join_speeds(&caps.supported_speeds);
    if speeds.as_str().unicode_len() == 0 {
        push_line(&mut out, "Speeds:    ", "<none>");
    } else {
        push_line(&mut out, "Speeds:    ", speeds.as_str());
    }
    let ghost speed_text = speed_list(caps.supported_speeds@);
    let ghost placed = named + seq![
        "Bus:       "@ + v.bus_id + " addr "@ + text::decimal(v.address as nat),
        "Speeds:    "@ + (if speed_text.len() == 0 {
            "<none>"@
        } else {
            speed_text
        }),
    ];
    proof {
        assert("Bus:       "@ + bus@ =~= "Bus:       "@ + v.bus_id + " addr "@ + text::decimal(
            v.address as nat,
        ));
        assert(descriptors::text_views(out@) =~= placed);
    }
    if let Some(n) = caps.protocol_version {
        let version = text::decimal_string(n as u64);
        push_line(&mut out, "Protocol:  v", version.as_str());
    }
    if caps.can_control_vbus {
        push_line(&mut out, "VBUS ctrl: ", "yes");
    } else {
        push_line(&mut out, "VBUS ctrl: ", "no");
    }
    assert(descriptors::text_views(out@) =~= details(v, *caps));
    out
}

/// The line that shows a device's state, or why it could not be read.
pub open spec fn state_text(state: core::result::Result<State, ErrorView>) -> Seq<char> {
    match state {
        Ok(s) => "State:     capture "@ + (if s.enable {
            "ON"@
        } else {
            "off"@
        }) + ", speed "@ + s.speed.name() + (if s.target_c_vbus_en {
            ", target-C VBUS on"@
        } else {
            ""@
        }),
        Err(e) => "State:     <error reading: "@ + e.text() + ">"@,
    }
}

/// The state's line says whether capture is on, at which speed, and, only if so, that the
/// target has power; a state that could not be read is told with the reason.
pub proof fn state_line_shows_the_state(s: State, e: ErrorView)
    ensures
        ({
            let on = "State:     capture "@ + "ON"@ + ", speed "@ + s.speed.name();
            let off = "State:     capture "@ + "off"@ + ", speed "@ + s.speed.name();
            let line = state_text(Ok(s));
            &&& s.enable && s.target_c_vbus_en ==> line == on + ", target-C VBUS on"@
            &&& s.enable && !s.target_c_vbus_en ==> line == on
            &&& !s.enable && s.target_c_vbus_en ==> line == off + ", target-C VBUS on"@
            &&& !s.enable && !s.target_c_vbus_en ==> line == off
        }),
        state_text(Err(e)) == "State:     <error reading: "@ + e.text() + ">"@,
{
    reveal_strlit("");
    let line = state_text(Ok(s));
    assert(line + ""@ =~= line);
    let on = "State:     capture "@ + "ON"@ + ", speed "@ + s.speed.name();
    let off = "State:     capture "@ + "off"@ + ", speed "@ + s.speed.name();
    assert(on + ""@ =~= on && off + ""@ =~= off);
}

/// The line that shows a device's state, or why it could not be read.
pub fn state_line(state: &Result<State>) -> (s: String)
    ensures
        s@ == state_text(
            match *state {
                Ok(s) => Ok(s),
                Err(e) => Err(e@),
            },
        ),
{
    match state {
        Ok(st) => {
            let mut s = "State:     capture ".to_owned();
            s.append(
                if st.enable {
                    "ON"
                } else {
                    "off"
                },
            );
            s.append(", speed ");
            s.append(st.speed.as_str());
            s.append(
                if st.target_c_vbus_en {
                    ", target-C VBUS on"
                } else {
                    ""
                },
            );
            s
        },
        Err(e) => {
            let mut s = "State:     <error reading: ".to_owned();
            let why = e.message();
            s.append(why.as_str());
            s.append(">");
            s
        },
    }
}

/// Why no capture speed can be used.
#[derive(Debug, Clone, Copy, PartialEq, Eq, Structural)]
pub enum SpeedError {
    /// The device supports no concrete speed.
    NoUsableSpeed,
    /// The device does not support the requested speed.
    Unsupported,
}

/// A capture speed, and whether it stands in for auto-detection.
#[derive(Debug, Clone, Copy, PartialEq, Eq, Structural)]
pub struct SpeedChoice {
    pub speed: Speed,
    /// The device has no auto-detect, and this is the fastest it supports.
    pub instead_of_auto: bool,
}

/// The speed to capture at: the requested one if supported; for `Auto` on a device
/// that does not advertise it, the fastest supported one.
pub open spec fn chosen_speed(supported: Seq<Speed>, requested: Speed) -> core::result::Result<
    SpeedChoice,
    SpeedError,
> {
    if supported.contains(requested) {
        Ok(SpeedChoice { speed: requested, instead_of_auto: false })
    } else if requested != Speed::Auto {
        Err(SpeedError::Unsupported)
    } else if supported.contains(Speed::High) {
        Ok(SpeedChoice { speed: Speed::High, instead_of_auto: true })
    } else if supported.contains(Speed::Full) {
        Ok(SpeedChoice { speed: Speed::Full, instead_of_auto: true })
    } else if supported.contains(Speed::Low) {
        Ok(SpeedChoice { speed: Speed::Low, instead_of_auto: true })
    } else {
        Err(SpeedError::NoUsableSpeed)
    }
}

fn has_speed(supported: &Vec<Speed>, s: Speed) -> (r: bool)
    ensures
        r == supported@.contains(s),
{
    let mut i: usize = 0;
    while i < supported.len()
        invariant
            i <= supported@.len(),
            forall|k: int| 0 <= k < i ==> supported@[k] != s,
        decreases supported@.len() - i,
    {
        if supported[i] == s {
            return true;
        }
        i = i + 1;
    }
    false
}

/// Choose the speed to capture at.
pub fn choose_speed(supported: &Vec<Speed>, requested: Speed) -> (r: core::result::Result<
    SpeedChoice,
    SpeedError,
>)
    ensures
        r == chosen_speed(supported@, requested),
{
    if has_speed(supported, requested) {
        return Ok(SpeedChoice { speed: requested, instead_of_auto: false });
    }
    if requested != Speed::Auto {
        return Err(SpeedError::Unsupported);
    }
    // This gateware doesn't advertise auto-detect; pick the fastest speed it does
    // support.
    if has_speed(supported, Speed::High) {
        Ok(SpeedChoice { speed: Speed::High, instead_of_auto: true })
    } else if has_speed(supported, Speed::Full) {
        Ok(SpeedChoice { speed: Speed::Full, instead_of_auto: true })
    } else if has_speed(supported, Speed::Low) {
        Ok(SpeedChoice { speed: Speed::Low, instead_of_auto: true })
    } else {
        Err(SpeedError::NoUsableSpeed)
    }
}

/// What is told when no device was selected.
pub open spec fn select_error_message(e: SelectError, quoted: Seq<char>) -> Seq<char> {
    match e {
        SelectError::NoDevices => "no magic USB devices found"@,
        SelectError::NoMatch => "no device with serial containing "@ + quoted,
        SelectError::TooMany(n) => text::decimal(n as nat) + " devices match serial "@ + quoted
            + "; be more specific"@,
        SelectError::Ambiguous => "ambiguous device selection"@,
    }
}

/// What is told about a speed that cannot be used.
pub open spec fn speed_error_message(
    e: SpeedError,
    supported: Seq<Speed>,
    requested: Speed,
) -> Seq<char> {
    match e {
        SpeedError::NoUsableSpeed => "device reports no usable capture speeds"@,
        SpeedError::Unsupported => "device does not support "@ + requested.name()
            + " speed (supported: "@ + speed_list(supported) + ")"@,
    }
}

/// What is told says whether there was no device, none or how many of that serial number, or
/// too many; and of a speed, which one was asked for and which there are.
pub proof fn refusals_say_why(
    n: usize,
    quoted: Seq<char>,
    supported: Seq<Speed>,
    requested: Speed,
)
    ensures
        select_error_message(SelectError::NoDevices, quoted) == "no magic USB devices found"@,
        select_error_message(SelectError::NoMatch, quoted) == "no device with serial containing "@
            + quoted,
        select_error_message(SelectError::TooMany(n), quoted) == text::decimal(n as nat)
            + " devices match serial "@ + quoted + "; be more specific"@,
        select_error_message(SelectError::Ambiguous, quoted) == "ambiguous device selection"@,
        speed_error_message(SpeedError::NoUsableSpeed, supported, requested)
            == "device reports no usable capture speeds"@,
        speed_error_message(SpeedError::Unsupported, supported, requested)
            == "device does not support "@ + requested.name() + " speed (supported: "@ + speed_list(
            supported,
        ) + ")"@,
{
}

/// What to tell when no device was selected, with the given text in quotes. Of an
/// ambiguous selection, [`select_hint`] and a line per device come first.
pub fn select_error_text(e: SelectError, quoted: &str) -> (s: String)
    ensures
        s@ == select_error_message(e, quoted@),
{
    match e {
        SelectError::NoDevices => "no magic USB devices found".to_owned(),
        SelectError::NoMatch => "no device with serial containing ".to_owned().concat(quoted),
        SelectError::TooMany(n) => {
            let mut s = "".to_owned();
            proof {
                reveal_strlit("");
                assert(s@ + text::decimal(n as nat) =~= text::decimal(n as nat));
            }
            text::push_decimal(&mut s, n as u64);
            s.append(" devices match serial ");
            s.append(quoted);
            s.append("; be more specific");
            s
        },
        SelectError::Ambiguous => "ambiguous device selection".to_owned(),
    }
}

/// What to tell before the devices of an ambiguous selection are listed.
pub fn select_hint() -> (s: &'static str)
    ensures
        s@ == "Multiple devices found; select one with --device <serial>:"@,
{
    "Multiple devices found; select one with --device <serial>:"
}

/// What to tell about a speed that cannot be used.
pub fn speed_error_text(e: SpeedError, supported: &Vec<Speed>, requested: Speed) -> (s: String)
    ensures
        s@ == speed_error_message(e, supported@, requested),
{
    match e {
        SpeedError::NoUsableSpeed => "device reports no usable capture speeds".to_owned(),
        SpeedError::Unsupported => {
            let mut s = "device does not support ".to_owned();
            s.append(requested.as_str());
            s.append(" speed (supported: ");
            let list = join_speeds(supported);
            s.append(list.as_str());
            s.append(")");
            s
        },
    }
}

/// A speed is chosen exactly if the requested one is supported, or, for auto-detection, any
/// is; what stands in for auto-detection is the fastest that is supported, and is marked.
pub proof fn fastest_speed_stands_in(supported: Seq<Speed>, requested: Speed, other: Speed)
    requires
        supported.contains(other),
    ensures
        supported.contains(requested) ==> chosen_speed(supported, requested) == Ok::<_, SpeedError>(
            SpeedChoice { speed: requested, instead_of_auto: false },
        ),
        !supported.contains(requested) && !(requested is Auto) ==> chosen_speed(
            supported,
            requested,
        ) == Err::<SpeedChoice, _>(SpeedError::Unsupported),
        !supported.contains(requested) && requested is Auto ==> (chosen_speed(supported, requested)
            matches Ok(c) && c.instead_of_auto && supported.contains(c.speed) && other.code()
            <= c.speed.code()),
        chosen_speed(Seq::empty(), Speed::Auto) == Err::<SpeedChoice, _>(SpeedError::NoUsableSpeed),
{
}

/// A chosen speed is always one that the device supports, and it is the requested
/// one unless that was auto-detection.
pub proof fn chosen_speed_is_supported(supported: Seq<Speed>, requested: Speed)
    ensures
        chosen_speed(supported, requested) matches Ok(c) ==> supported.contains(c.speed) && (
        c.speed == requested || requested == Speed::Auto && c.instead_of_auto),
{
}

} // verus!

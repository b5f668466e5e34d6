//! The oddities noted while a device is examined, as lines of text.

use vstd::prelude::*;

use crate::error;
use crate::error::Result;
use crate::host::descriptor_type;
use crate::host::descriptors;
use crate::host::descriptors::Configuration;
use crate::host::descriptors::Interface;
use crate::host::model;
use crate::host::BusError;
use crate::host::ConfigurationAnswers;
use crate::host::ControlResult;
use crate::host::DeviceDescriptor;
use crate::text;
use crate::usb;

verus! {

/// Adds a line.
fn push_note(notes: &mut Vec<String>, line: String)
    ensures
        descriptors::text_views(final(notes)@) == descriptors::text_views(old(notes)@) + seq![
            line@,
        ],
{
    notes.push(line);
    assert(descriptors::text_views(notes@) =~= descriptors::text_views(old(notes)@) + seq![line@]);
}

/// `what`, the number `n`, and a colon.
fn about(what: &str, n: u8) -> (s: String)
    ensures
        s@ == what@ + text::decimal(n as nat) + ": "@,
{
    let mut s = what.to_owned();
    text::push_decimal(&mut s, n as u64);
    s.append(": ");
    s
}

/// Adds `what`, the number `n`, `but`, the number `m` and `unit`.
fn push_mismatch(s: &mut String, what: &str, n: u64, m: u64, unit: &str)
    ensures
        final(s)@ == old(s)@ + what@ + text::decimal(n as nat) + " but "@ + text::decimal(m as nat)
            + unit@,
{
    s.append(what);
    text::push_decimal(s, n);
    s.append(" but ");
    text::push_decimal(s, m);
    s.append(unit);
}

/// Notes the errors that a transfer met on the bus.
fn note_bus(notes: &mut Vec<String>, about: String, c: &ControlResult)
    ensures
        descriptors::text_views(final(notes)@) == descriptors::text_views(old(notes)@)
            + model::bus_notes(about@, Ok(*c)),
{
    let ghost had = descriptors::text_views(notes@);
    let ghost views = c@.errors;
    let mut n: usize = 0;
    let mut k: usize = 0;
    assert(views.take(0) =~= Seq::empty());
    while k < c.errors.len()
        invariant
            n <= k <= c.errors@.len(),
            views == c@.errors,
            n == model::bus_error_total(views.take(k as int)),
        decreases c.errors@.len() - k,
    {
        let ghost upto = views.take(k + 1);
        assert(upto.drop_last() =~= views.take(k as int));
        assert(upto.last() == c.errors@[k as int]@);
        match &c.errors[k] {
            BusError::ShortPacket => {},
            _ => {
                n = n + 1;
            },
        }
        k = k + 1;
    }
    assert(views.take(views.len() as int) =~= views);
    if n != 0 {
        let mut m = about;
        m.append("bus errors: ");
        text::push_decimal(&mut m, n as u64);
        push_note(notes, m);
    }
    assert(descriptors::text_views(notes@) =~= had + model::bus_notes(about@, Ok(*c)));
}

/// Notes what is odd about the device descriptor itself.
pub(crate) fn note_device(notes: &mut Vec<String>, c: &ControlResult)
    ensures
        descriptors::text_views(final(notes)@) == descriptors::text_views(old(notes)@)
            + model::device_notes(*c),
{
    let ghost had = descriptors::text_views(notes@);
    let raw = c.data.as_slice();
    if c.stalled {
        push_note(notes, "device descriptor: STALLed".to_owned());
    }
    note_bus(notes, "device descriptor: ".to_owned(), c);
    if raw.len() < 18 {
        let mut m = "device descriptor was ".to_owned();
        text::push_decimal(&mut m, raw.len() as u64);
        m.append(" bytes (<18)");
        push_note(notes, m);
    } else if let Err(e) = DeviceDescriptor::parse(raw) {
        let mut m = "device descriptor: ".to_owned();
        let why = e.message();
        m.append(why.as_str());
        push_note(notes, m);
    } else if raw[0] as usize != raw.len() {
        let mut m = "device descriptor: bLength ".to_owned();
        text::push_decimal(&mut m, raw[0] as u64);
        m.append(" but ");
        text::push_decimal(&mut m, raw.len() as u64);
        m.append(" bytes");
        push_note(notes, m);
    }
    assert(descriptors::text_views(notes@) =~= had + model::device_notes(*c));
}

/// What keeps `b` from being a whole string descriptor.
fn string_defect(b: &[u8]) -> (why: Option<String>)
    ensures
        usb::optional_text(why) == model::string_defect(b@),
{
    if b.len() < 2 || b[1] != descriptor_type::STRING {
        let mut m = "not a string descriptor (".to_owned();
        text::push_decimal(&mut m, b.len() as u64);
        m.append(" bytes)");
        Some(m)
    } else if b[0] as usize != b.len() {
        let mut m = "bLength ".to_owned();
        text::push_decimal(&mut m, b[0] as u64);
        m.append(" but ");
        text::push_decimal(&mut m, b.len() as u64);
        m.append(" bytes");
        Some(m)
    } else {
        None
    }
}

/// Notes what is odd about the answer to the request for string `i`.
pub(crate) fn note_string(notes: &mut Vec<String>, i: u8, c: &Result<ControlResult>)
    ensures
        descriptors::text_views(final(notes)@) == descriptors::text_views(old(notes)@)
            + model::string_notes(i, *c),
{
    let ghost had = descriptors::text_views(notes@);
    if let Ok(c) = c {
        note_bus(notes, about("string ", i), c);
    }
    let mut m = about("string ", i);
    match c {
        Err(e) => {
            let why = e.message();
            m.append(why.as_str());
            push_note(notes, m);
        },
        Ok(c) => {
            if c.stalled {
                m.append("STALLed");
                push_note(notes, m);
            } else if let Some(why) = string_defect(c.data.as_slice()) {
                m.append(why.as_str());
                push_note(notes, m);
            }
        },
    }
    assert(descriptors::text_views(notes@) =~= had + model::string_notes(i, *c));
}

/// What is wrong with how a blob of descriptors ends.
fn walk_defect(blob: &[u8]) -> (why: Option<String>)
    ensures
        usb::optional_text(why) == model::walk_defect(blob@),
{
    let ds = descriptors::walk(blob);
    if ds.len() == 0 {
        return None;
    }
    let last = &ds[ds.len() - 1];
    assert(descriptors::walked(blob@).last() == last@);
    if !last.truncated {
        None
    } else if last.length == 0 {
        Some("descriptor with bLength 0".to_owned())
    } else {
        let mut m = "descriptor truncated: ".to_owned();
        text::push_decimal(&mut m, last.bytes.len() as u64);
        m.append(" of ");
        text::push_decimal(&mut m, last.length as u64);
        m.append(" bytes");
        Some(m)
    }
}

/// Notes the interface and endpoint descriptors that are too short.
fn note_short(notes: &mut Vec<String>, cfg: u8, blob: &[u8])
    ensures
        descriptors::text_views(final(notes)@) == descriptors::text_views(old(notes)@)
            + model::short_notes(
            cfg as nat,
            descriptors::walked(blob@),
            descriptors::walked(blob@).len() as int,
        ),
{
    let ghost had = descriptors::text_views(notes@);
    let ds = descriptors::walk(blob);
    let ghost views = descriptors::walked(blob@);
    let mut k: usize = 0;
    assert(had =~= had + model::short_notes(cfg as nat, views, 0));
    while k < ds.len()
        invariant
            k <= ds@.len(),
            views == descriptors::raw_views(ds@),
            descriptors::text_views(notes@) == had + model::short_notes(
                cfg as nat,
                views,
                k as int,
            ),
        decreases ds@.len() - k,
    {
        let d = &ds[k];
        assert(views[k as int] == d@);
        if !d.truncated && d.descriptor_type == descriptor_type::INTERFACE && d.bytes.len() < 9 {
            let mut m = about("configuration ", cfg);
            m.append("interface descriptor of only ");
            text::push_decimal(&mut m, d.bytes.len() as u64);
            m.append(" bytes");
            push_note(notes, m);
        } else if !d.truncated && d.descriptor_type == descriptor_type::ENDPOINT && d.bytes.len()
            < 7 {
            let mut m = about("configuration ", cfg);
            m.append("endpoint descriptor of only ");
            text::push_decimal(&mut m, d.bytes.len() as u64);
            m.append(" bytes");
            push_note(notes, m);
        }
        k = k + 1;
        assert(descriptors::text_views(notes@) =~= had + model::short_notes(
            cfg as nat,
            views,
            k as int,
        ));
    }
}

/// How many interfaces a list of alternate settings belongs to.
fn count_interfaces(s: &Vec<Interface>) -> (n: usize)
    ensures
        n == model::interface_total(descriptors::interface_views(s@), s@.len() as int),
{
    let ghost views = descriptors::interface_views(s@);
    let mut n: usize = 0;
    let mut k: usize = 0;
    while k < s.len()
        invariant
            k <= s@.len(),
            n <= k,
            views == descriptors::interface_views(s@),
            n == model::interface_total(views, k as int),
        decreases s@.len() - k,
    {
        let mut first = true;
        let mut j: usize = 0;
        while j < k
            invariant
                j <= k < s@.len(),
                views == descriptors::interface_views(s@),
                first == (forall|i: int|
                    0 <= i < j ==> (#[trigger] views[i]).descriptor.interface_number
                        != views[k as int].descriptor.interface_number),
            decreases k - j,
        {
            assert(views[j as int] == s@[j as int]@ && views[k as int] == s@[k as int]@);
            if s[j].descriptor.interface_number == s[k].descriptor.interface_number {
                first = false;
            }
            j = j + 1;
        }
        if first {
            n = n + 1;
        }
        k = k + 1;
    }
    n
}

/// Notes the interfaces whose endpoint count does not match.
fn note_endpoints(notes: &mut Vec<String>, cfg: u8, s: &Vec<Interface>)
    ensures
        descriptors::text_views(final(notes)@) == descriptors::text_views(old(notes)@)
            + model::endpoint_notes(
            cfg as nat,
            descriptors::interface_views(s@),
            s@.len() as int,
        ),
{
    let ghost had = descriptors::text_views(notes@);
    let ghost views = descriptors::interface_views(s@);
    let mut k: usize = 0;
    assert(had =~= had + model::endpoint_notes(cfg as nat, views, 0));
    while k < s.len()
        invariant
            k <= s@.len(),
            views == descriptors::interface_views(s@),
            descriptors::text_views(notes@) == had + model::endpoint_notes(
                cfg as nat,
                views,
                k as int,
            ),
        decreases s@.len() - k,
    {
        let i = &s[k];
        assert(views[k as int] == i@);
        if i.descriptor.num_endpoints as usize != i.endpoints.len() {
            let mut m = about("configuration ", cfg);
            m.append("interface ");
            text::push_decimal(&mut m, i.descriptor.interface_number as u64);
            m.append(" alternate ");
            text::push_decimal(&mut m, i.descriptor.alternate_setting as u64);
            push_mismatch(
                &mut m,
                " has bNumEndpoints ",
                i.descriptor.num_endpoints as u64,
                i.endpoints.len() as u64,
                " endpoints",
            );
            push_note(notes, m);
        }
        k = k + 1;
        assert(descriptors::text_views(notes@) =~= had + model::endpoint_notes(
            cfg as nat,
            views,
            k as int,
        ));
    }
}

/// Notes what is odd about a configuration that was read as `blob`.
fn note_parsed(notes: &mut Vec<String>, cfg: u8, c: &Configuration, blob: &[u8])
    requires
        blob@.len() >= 2,
    ensures
        descriptors::text_views(final(notes)@) == descriptors::text_views(old(notes)@)
            + model::configuration_notes(cfg as nat, c@, blob@),
{
    let ghost had = descriptors::text_views(notes@);
    if blob[0] != 9 || blob[1] != descriptor_type::CONFIGURATION {
        let mut m = about("configuration ", cfg);
        m.append("not a configuration descriptor (bLength ");
        text::push_decimal(&mut m, blob[0] as u64);
        m.append(", bDescriptorType 0x");
        text::push_hex(&mut m, blob[1] as u64, 2);
        m.append(")");
        push_note(notes, m);
    }
    if let Some(why) = walk_defect(blob) {
        let mut m = about("configuration ", cfg);
        m.append(why.as_str());
        push_note(notes, m);
    }
    note_short(notes, cfg, blob);
    if c.descriptor.total_length as usize != blob.len() {
        let mut m = about("configuration ", cfg);
        push_mismatch(
            &mut m,
            "wTotalLength ",
            c.descriptor.total_length as u64,
            blob.len() as u64,
            " bytes",
        );
        push_note(notes, m);
    }
    let found: usize = count_interfaces(&c.interfaces);
    if c.descriptor.num_interfaces as usize != found {
        let mut m = about("configuration ", cfg);
        push_mismatch(
            &mut m,
            "bNumInterfaces ",
            c.descriptor.num_interfaces as u64,
            found as u64,
            " interfaces",
        );
        push_note(notes, m);
    }
    note_endpoints(notes, cfg, &c.interfaces);
    assert(descriptors::text_views(notes@) =~= had + model::configuration_notes(
        cfg as nat,
        c@,
        blob@,
    ));
}

/// Notes each STALL and the bus errors met in reading configuration `cfg`, and either
/// what is odd about the configuration `one` or why there is none.
pub(crate) fn note_configuration(
    notes: &mut Vec<String>,
    cfg: u8,
    a: &ConfigurationAnswers,
    one: &Result<Configuration>,
)
    requires
        error::result_view(*one) == model::configuration_of(*a),
    ensures
        descriptors::text_views(final(notes)@) == descriptors::text_views(old(notes)@)
            + model::answer_notes(cfg as nat, *a),
{
    let ghost had = descriptors::text_views(notes@);
    if let Ok(head) = &a.head {
        if head.stalled {
            let mut m = about("configuration ", cfg);
            m.append("STALLed reading its header");
            push_note(notes, m);
        }
    }
    if let Some(Ok(blob)) = &a.blob {
        if blob.stalled {
            let mut m = about("configuration ", cfg);
            m.append("STALLed");
            push_note(notes, m);
        }
    }
    if let Ok(head) = &a.head {
        note_bus(notes, about("configuration ", cfg), head);
    }
    if let Some(Ok(blob)) = &a.blob {
        note_bus(notes, about("configuration ", cfg), blob);
    }
    match one {
        Ok(c) => {
            if let Some(Ok(blob)) = &a.blob {
                note_parsed(notes, cfg, c, blob.data.as_slice());
            }
        },
        Err(e) => {
            let mut m = about("configuration ", cfg);
            let why = e.message();
            m.append(why.as_str());
            push_note(notes, m);
        },
    }
    assert(descriptors::text_views(notes@) =~= had + model::answer_notes(cfg as nat, *a));
}

} // verus!

//! The model of a USB host: what its primitive operations may do, and what the
//! operations built on top of them do in terms of those.
//!
//! An operation is a relation between the host before the call, the arguments,
//! the host after the call, and the result. A host that answers from a real bus
//! leaves its relations open; one that is simulated can pin them down.

use vstd::prelude::*;

use crate::capture::Speed;
use crate::error::ErrorView;
use crate::error::Result;
use crate::host::descriptor_type;
use crate::host::descriptors;
use crate::host::descriptors::ConfigurationView;
use crate::host::descriptors::InterfaceView;
use crate::host::descriptors::RawDescriptorView;
use crate::host::descriptors::StringDescriptor;
use crate::host::descriptors::UsbDeviceModelView;
use crate::host::BusErrorView;
use crate::host::ConfigurationAnswers;
use crate::host::ConfigurationDescriptor;
use crate::host::ControlForensics;
use crate::host::ControlResult;
use crate::host::DeviceDescriptor;
use crate::host::Direction;
use crate::host::EnumeratedDeviceView;
use crate::host::PortStatus;
use crate::host::RawTransactionView;
use crate::host::Setup;
use crate::host::TransactionResult;
use crate::host::WireEvent;
use crate::text;

verus! {

/// What the primitive operations of a [`UsbHost`](crate::host::UsbHost) may do:
/// anything, unless a host says more.
pub trait HostModel: Sized {
    /// `set_vbus(on)` may lead from `pre` to `post` and return `r`.
    open spec fn set_vbus_step(pre: Self, on: bool, post: Self, r: Result<()>) -> bool {
        true
    }

    /// `port_status()` may lead from `pre` to `post` and return `r`.
    open spec fn port_status_step(pre: Self, post: Self, r: Result<PortStatus>) -> bool {
        true
    }

    /// `bus_reset()` may lead from `pre` to `post` and return `r`.
    open spec fn bus_reset_step(pre: Self, post: Self, r: Result<Option<Speed>>) -> bool {
        true
    }

    /// `control_raw(address, setup, data_out, opts)` may lead from `pre` to `post`
    /// and return `r`.
    open spec fn control_step(
        pre: Self,
        address: u8,
        setup: Seq<u8>,
        data_out: Seq<u8>,
        opts: ControlForensics,
        post: Self,
        r: Result<ControlResult>,
    ) -> bool {
        true
    }

    /// `transfer(address, endpoint, dir, data, max_len)` may lead from `pre` to
    /// `post` and return `r`.
    open spec fn transfer_step(
        pre: Self,
        address: u8,
        endpoint: u8,
        dir: Direction,
        data: Seq<u8>,
        max_len: usize,
        post: Self,
        r: Result<TransactionResult>,
    ) -> bool {
        true
    }

    /// `raw_transaction(tx)` may lead from `pre` to `post` and return `r`.
    open spec fn transaction_step(
        pre: Self,
        tx: RawTransactionView,
        post: Self,
        r: Result<TransactionResult>,
    ) -> bool {
        true
    }

    /// `poll_events()` may lead from `pre` to `post` and return `r`.
    open spec fn poll_step(pre: Self, post: Self, r: Result<Vec<WireEvent>>) -> bool {
        true
    }
}

/// A compliant control transfer without an OUT payload.
pub open spec fn requests<H: HostModel>(
    pre: H,
    address: u8,
    setup: Setup,
    post: H,
    r: Result<ControlResult>,
) -> bool {
    H::control_step(
        pre,
        address,
        setup.wire(),
        Seq::empty(),
        ControlForensics::compliant(),
        post,
        r,
    )
}

/// The answers, and the host after each of them, seen during an enumeration.
pub struct EnumerateTrace<H> {
    pub reset: Result<Option<Speed>>,
    pub after_reset: H,
    pub head: Result<ControlResult>,
    pub after_head: H,
    pub set_address: Result<ControlResult>,
    pub after_set_address: H,
    pub full: Result<ControlResult>,
}

/// An enumeration that met the answers in `t`: reset, descriptor head at address
/// 0, SET_ADDRESS(1), full descriptor at address 1, each step taken only when
/// the one before it succeeded.
pub open spec fn enumerate_run<H: HostModel>(
    pre: H,
    t: EnumerateTrace<H>,
    post: H,
    r: core::result::Result<EnumeratedDeviceView, ErrorView>,
) -> bool {
    &&& H::bus_reset_step(pre, t.after_reset, t.reset)
    &&& match t.reset {
        Err(e) => post == t.after_reset && r == Err::<EnumeratedDeviceView, _>(e@),
        Ok(speed) => {
            &&& requests(
                t.after_reset,
                0,
                Setup::descriptor_request(descriptor_type::DEVICE, 0, 0, 8),
                t.after_head,
                t.head,
            )
            &&& match t.head {
                Err(e) => post == t.after_head && r == Err::<EnumeratedDeviceView, _>(e@),
                Ok(head) => if head.stalled || head.data@.len() < 8 {
                    post == t.after_head && r == Err::<EnumeratedDeviceView, _>(
                        ErrorView::Protocol("device did not return descriptor head at address 0"@),
                    )
                } else {
                    &&& requests(
                        t.after_head,
                        0,
                        Setup::address_request(1),
                        t.after_set_address,
                        t.set_address,
                    )
                    &&& match t.set_address {
                        Err(e) => post == t.after_set_address && r == Err::<
                            EnumeratedDeviceView,
                            _,
                        >(e@),
                        Ok(ack) => if ack.stalled {
                            post == t.after_set_address && r == Err::<EnumeratedDeviceView, _>(
                                ErrorView::Protocol("SET_ADDRESS was STALLed"@),
                            )
                        } else {
                            &&& requests(
                                t.after_set_address,
                                1,
                                Setup::descriptor_request(descriptor_type::DEVICE, 0, 0, 18),
                                post,
                                t.full,
                            )
                            &&& r == (match t.full {
                                Err(e) => Err::<EnumeratedDeviceView, _>(e@),
                                Ok(full) => enumerated(speed, full),
                            })
                        },
                    }
                },
            }
        },
    }
}

/// What an enumeration returns, given the speed seen at reset and the answer to
/// the request for the full descriptor.
pub open spec fn enumerated(
    speed: Option<Speed>,
    full: ControlResult,
) -> core::result::Result<EnumeratedDeviceView, ErrorView> {
    if full.stalled || full.data@.len() < 18 {
        Err(ErrorView::Protocol("device did not return full device descriptor"@))
    } else {
        match DeviceDescriptor::defect(full.data@) {
            Some(why) => Err(ErrorView::Protocol(why)),
            None => Ok(
                EnumeratedDeviceView {
                    address: 1,
                    speed,
                    device_descriptor: DeviceDescriptor::fields(full.data@),
                    raw_device_descriptor: full.data@,
                },
            ),
        }
    }
}

/// Enumerating may lead from `pre` to `post` and return `r`.
pub open spec fn enumerates<H: HostModel>(
    pre: H,
    post: H,
    r: core::result::Result<EnumeratedDeviceView, ErrorView>,
) -> bool {
    exists|t: EnumerateTrace<H>| enumerate_run(pre, t, post, r)
}

/// The data that came back with a control transfer, or its error.
pub open spec fn data_of(c: Result<ControlResult>) -> core::result::Result<Seq<u8>, ErrorView> {
    match c {
        Ok(c) => Ok(c.data@),
        Err(e) => Err(e@),
    }
}

/// Asking for `len` bytes of a descriptor may lead from `pre` to `post` and return
/// the bytes `r`: exactly what the device sent, whatever it was.
pub open spec fn reads_descriptor<H: HostModel>(
    pre: H,
    address: u8,
    desc_type: u8,
    index: u8,
    lang: u16,
    len: u16,
    post: H,
    r: core::result::Result<Seq<u8>, ErrorView>,
) -> bool {
    exists|c: Result<ControlResult>|
        #[trigger] requests(
            pre,
            address,
            Setup::descriptor_request(desc_type, index, lang, len),
            post,
            c,
        ) && r == data_of(c)
}

/// Reading a string may lead from `pre` to `post` and return the text `r`.
pub open spec fn reads_string<H: HostModel>(
    pre: H,
    address: u8,
    index: u8,
    lang: u16,
    post: H,
    r: core::result::Result<Seq<char>, ErrorView>,
) -> bool {
    exists|raw: core::result::Result<Seq<u8>, ErrorView>|
        #[trigger] reads_descriptor(
            pre,
            address,
            descriptor_type::STRING,
            index,
            lang,
            255,
            post,
            raw,
        ) && r == (match raw {
            Ok(b) => Ok::<_, ErrorView>(StringDescriptor::text(b)),
            Err(e) => Err(e),
        })
}

/// How many bytes to ask for, having seen the head of a configuration: its
/// `wTotalLength`, or as many as came when the head is too short to say.
pub open spec fn total_length(head: Seq<u8>) -> u16 {
    match ConfigurationDescriptor::parsed(head) {
        Some(c) => c.total_length,
        None => head.len() as u16,
    }
}

/// Reading a configuration that met the answers `a`: to the request for the 9-byte
/// head, and, unless that failed, to the request for as many bytes as the head asks
/// for.
pub open spec fn configuration_run<H: HostModel>(
    pre: H,
    address: u8,
    cfg_index: u8,
    after_head: H,
    a: ConfigurationAnswers,
    post: H,
) -> bool {
    &&& requests(
        pre,
        address,
        Setup::descriptor_request(descriptor_type::CONFIGURATION, cfg_index, 0, 9),
        after_head,
        a.head,
    )
    &&& match a.head {
        Err(_) => post == after_head && a.blob is None,
        Ok(head) => a.blob matches Some(blob) && requests(
            after_head,
            address,
            Setup::descriptor_request(
                descriptor_type::CONFIGURATION,
                cfg_index,
                0,
                total_length(head.data@),
            ),
            post,
            blob,
        ),
    }
}

/// Requesting a configuration may lead from `pre` to `post` and be answered by `a`.
pub open spec fn requests_configuration<H: HostModel>(
    pre: H,
    address: u8,
    cfg_index: u8,
    post: H,
    a: ConfigurationAnswers,
) -> bool {
    exists|after_head: H| configuration_run(pre, address, cfg_index, after_head, a, post)
}

/// The configuration that the answers hold, parsed as a whole.
pub open spec fn configuration_of(
    a: ConfigurationAnswers,
) -> core::result::Result<ConfigurationView, ErrorView> {
    match a.head {
        Err(e) => Err(e@),
        Ok(_) => match a.blob {
            Some(Err(e)) => Err(e@),
            Some(Ok(blob)) => match ConfigurationView::parsed(blob.data@) {
                Some(c) => Ok(c),
                None => Err(ErrorView::Protocol("configuration descriptor too short"@)),
            },
            None => Err(ErrorView::Protocol("configuration descriptor too short"@)),
        },
    }
}

/// Reading a configuration may lead from `pre` to `post` and return `r`.
pub open spec fn reads_configuration<H: HostModel>(
    pre: H,
    address: u8,
    cfg_index: u8,
    post: H,
    r: core::result::Result<ConfigurationView, ErrorView>,
) -> bool {
    exists|a: ConfigurationAnswers|
        #[trigger] requests_configuration(pre, address, cfg_index, post, a) && r
            == configuration_of(a)
}

/// The answers seen while examining a device. `cfg_hosts[i]` is the host before
/// configuration `i` was read, `str_hosts[k]` the host before wanted string `k`
/// was; each list ends with the host after the last read.
pub struct ExamineTrace<H> {
    pub device: Result<ControlResult>,
    pub after_device: H,
    pub status: Result<PortStatus>,
    pub after_status: H,
    pub langids: Result<ControlResult>,
    pub cfgs: Seq<ConfigurationAnswers>,
    pub cfg_hosts: Seq<H>,
    pub strs: Seq<Result<ControlResult>>,
    pub str_hosts: Seq<H>,
}

/// The speed a port reports, if it reports at all.
pub open spec fn reported_speed(status: Result<PortStatus>) -> Option<Speed> {
    match status {
        Ok(p) => p.speed,
        Err(_) => None,
    }
}

/// The language to ask strings in: the first the device lists, else US English.
pub open spec fn first_language(langids: Result<ControlResult>) -> u16 {
    match langids {
        Ok(c) => if StringDescriptor::units(c.data@).len() > 0 {
            StringDescriptor::units(c.data@)[0]
        } else {
            0x0409
        },
        Err(_) => 0x0409,
    }
}

/// The configurations that could be read, in order.
pub open spec fn readable(cfgs: Seq<ConfigurationAnswers>) -> Seq<ConfigurationView>
    decreases cfgs.len(),
{
    if cfgs.len() == 0 {
        Seq::empty()
    } else {
        match configuration_of(cfgs.last()) {
            Ok(c) => readable(cfgs.drop_last()).push(c),
            Err(_) => readable(cfgs.drop_last()),
        }
    }
}

/// Whether a control transfer was answered with a STALL.
pub open spec fn stalled(c: Result<ControlResult>) -> bool {
    c matches Ok(c) && c.stalled
}

/// The one-line list of `s` if `c` holds, else the empty list.
pub open spec fn note(c: bool, s: Seq<char>) -> Seq<Seq<char>> {
    if c {
        seq![s]
    } else {
        Seq::empty()
    }
}

/// How many of the errors a transfer met say more than that the answer was shorter
/// than asked for.
pub open spec fn bus_error_total(errors: Seq<BusErrorView>) -> nat
    decreases errors.len(),
{
    if errors.len() == 0 {
        0
    } else if errors.last() == BusErrorView::ShortPacket {
        bus_error_total(errors.drop_last())
    } else {
        bus_error_total(errors.drop_last()) + 1
    }
}

/// The line about the errors a transfer met on the bus, if it met any.
pub open spec fn bus_notes(about: Seq<char>, c: Result<ControlResult>) -> Seq<Seq<char>> {
    match c {
        Ok(c) => note(
            bus_error_total(c@.errors) != 0,
            about + "bus errors: "@ + text::decimal(bus_error_total(c@.errors)),
        ),
        Err(_) => Seq::empty(),
    }
}

/// What a line about configuration `k` starts with.
pub open spec fn about_configuration(k: nat) -> Seq<char> {
    "configuration "@ + text::decimal(k) + ": "@
}

/// What a line about string `i` starts with.
pub open spec fn about_string(i: u8) -> Seq<char> {
    "string "@ + text::decimal(i as nat) + ": "@
}

/// What is wrong with how a blob of descriptors ends, in words; `None` if nothing is.
pub open spec fn walk_defect(blob: Seq<u8>) -> Option<Seq<char>> {
    let ds = descriptors::walked(blob);
    if ds.len() == 0 || !ds.last().truncated {
        None
    } else if ds.last().length == 0 {
        Some("descriptor with bLength 0"@)
    } else {
        Some(
            "descriptor truncated: "@ + text::decimal(ds.last().bytes.len()) + " of "@
                + text::decimal(ds.last().length as nat) + " bytes"@,
        )
    }
}

/// Whether interface `k` of a list is the first entry with its interface number (the
/// others are alternate settings).
pub open spec fn opens_interface(s: Seq<InterfaceView>, k: int) -> bool {
    forall|j: int|
        0 <= j < k ==> (#[trigger] s[j]).descriptor.interface_number
            != s[k].descriptor.interface_number
}

/// How many interfaces the first `n` entries of a list belong to.
pub open spec fn interface_total(s: Seq<InterfaceView>, n: int) -> nat
    decreases n,
{
    if n <= 0 {
        0
    } else if opens_interface(s, n - 1) {
        interface_total(s, n - 1) + 1
    } else {
        interface_total(s, n - 1)
    }
}

/// The line about an interface whose endpoint count does not match, if it does not.
pub open spec fn endpoint_note(k: nat, i: InterfaceView) -> Seq<Seq<char>> {
    note(
        i.descriptor.num_endpoints != i.endpoints.len(),
        about_configuration(k) + "interface "@ + text::decimal(
            i.descriptor.interface_number as nat,
        ) + " alternate "@ + text::decimal(i.descriptor.alternate_setting as nat)
            + " has bNumEndpoints "@ + text::decimal(i.descriptor.num_endpoints as nat) + " but "@
            + text::decimal(i.endpoints.len()) + " endpoints"@,
    )
}

/// One line per interface of the first `n` whose endpoint count does not match.
pub open spec fn endpoint_notes(k: nat, s: Seq<InterfaceView>, n: int) -> Seq<Seq<char>>
    decreases n,
{
    if n <= 0 {
        Seq::empty()
    } else {
        endpoint_notes(k, s, n - 1) + endpoint_note(k, s[n - 1])
    }
}

/// The line about an interface or endpoint descriptor that is whole but too short to
/// be one, if it is.
pub open spec fn short_note(k: nat, d: RawDescriptorView) -> Seq<Seq<char>> {
    if d.truncated {
        Seq::empty()
    } else if d.descriptor_type == descriptor_type::INTERFACE {
        note(
            d.bytes.len() < 9,
            about_configuration(k) + "interface descriptor of only "@ + text::decimal(
                d.bytes.len(),
            ) + " bytes"@,
        )
    } else if d.descriptor_type == descriptor_type::ENDPOINT {
        note(
            d.bytes.len() < 7,
            about_configuration(k) + "endpoint descriptor of only "@ + text::decimal(
                d.bytes.len(),
            ) + " bytes"@,
        )
    } else {
        Seq::empty()
    }
}

/// One line per interface or endpoint descriptor of the first `n` that is too short.
pub open spec fn short_notes(k: nat, ds: Seq<RawDescriptorView>, n: int) -> Seq<Seq<char>>
    decreases n,
{
    if n <= 0 {
        Seq::empty()
    } else {
        short_notes(k, ds, n - 1) + short_note(k, ds[n - 1])
    }
}

/// What is noted of configuration `k`, which was read as `blob`: a mistyped
/// configuration descriptor, a truncated or unframeable descriptor, interface and
/// endpoint descriptors that are too short, and counts that do not match what was
/// found.
pub open spec fn configuration_notes(
    k: nat,
    c: ConfigurationView,
    blob: Seq<u8>,
) -> Seq<Seq<char>> {
    let found = interface_total(c.interfaces, c.interfaces.len() as int);
    note(
        blob[0] != 9 || blob[1] != descriptor_type::CONFIGURATION,
        about_configuration(k) + "not a configuration descriptor (bLength "@ + text::decimal(
            blob[0] as nat,
        ) + ", bDescriptorType 0x"@ + text::hex_fixed(blob[1] as nat, 2) + ")"@,
    ) + (match walk_defect(blob) {
        Some(why) => seq![about_configuration(k) + why],
        None => Seq::empty(),
    }) + short_notes(
        k,
        descriptors::walked(blob),
        descriptors::walked(blob).len() as int,
    ) + note(
        c.descriptor.total_length != blob.len(),
        about_configuration(k) + "wTotalLength "@ + text::decimal(
            c.descriptor.total_length as nat,
        ) + " but "@ + text::decimal(blob.len()) + " bytes"@,
    ) + note(
        c.descriptor.num_interfaces != found,
        about_configuration(k) + "bNumInterfaces "@ + text::decimal(
            c.descriptor.num_interfaces as nat,
        ) + " but "@ + text::decimal(found) + " interfaces"@,
    ) + endpoint_notes(k, c.interfaces, c.interfaces.len() as int)
}

/// What is noted of the answers to a configuration: each STALL, the errors met on the
/// bus, and either what is odd about the configuration or why there is none.
pub open spec fn answer_notes(k: nat, a: ConfigurationAnswers) -> Seq<Seq<char>> {
    note(stalled(a.head), about_configuration(k) + "STALLed reading its header"@) + note(
        a.blob matches Some(blob) && stalled(blob),
        about_configuration(k) + "STALLed"@,
    ) + bus_notes(about_configuration(k), a.head) + (match a.blob {
        Some(blob) => bus_notes(about_configuration(k), blob),
        None => Seq::empty(),
    }) + (match configuration_of(a) {
        Ok(c) => configuration_notes(k, c, (a.blob->0)->Ok_0.data@),
        Err(e) => seq![about_configuration(k) + e.text()],
    })
}

/// What is noted of all configurations, in order.
pub open spec fn all_answer_notes(cfgs: Seq<ConfigurationAnswers>) -> Seq<Seq<char>>
    decreases cfgs.len(),
{
    if cfgs.len() == 0 {
        Seq::empty()
    } else {
        all_answer_notes(cfgs.drop_last()) + answer_notes((cfgs.len() - 1) as nat, cfgs.last())
    }
}

/// Whether some descriptor refers to string `i`.
pub open spec fn refers_to(d: DeviceDescriptor, cs: Seq<ConfigurationView>, i: u8) -> bool {
    ||| d.manufacturer_index == i
    ||| d.product_index == i
    ||| d.serial_index == i
    ||| exists|k: int|
        0 <= k < cs.len() && configuration_refers_to(#[trigger] cs[k], i)
}

/// Whether a configuration or one of its interfaces refers to string `i`.
pub open spec fn configuration_refers_to(c: ConfigurationView, i: u8) -> bool {
    ||| c.descriptor.configuration_index == i
    ||| exists|j: int|
        0 <= j < c.interfaces.len() && (#[trigger] c.interfaces[j]).descriptor.interface_index == i
}

/// The string indices from 1 to `n` that some descriptor refers to, ascending.
pub open spec fn wanted(d: DeviceDescriptor, cs: Seq<ConfigurationView>, n: nat) -> Seq<u8>
    decreases n,
{
    if n == 0 {
        Seq::empty()
    } else if refers_to(d, cs, n as u8) {
        wanted(d, cs, (n - 1) as nat).push(n as u8)
    } else {
        wanted(d, cs, (n - 1) as nat)
    }
}

/// What keeps `b` from being a whole string descriptor, in words; `None` when it is
/// one.
pub open spec fn string_defect(b: Seq<u8>) -> Option<Seq<char>> {
    if b.len() < 2 || b[1] != descriptor_type::STRING {
        Some("not a string descriptor ("@ + text::decimal(b.len()) + " bytes)"@)
    } else if b[0] != b.len() {
        Some(
            "bLength "@ + text::decimal(b[0] as nat) + " but "@ + text::decimal(b.len())
                + " bytes"@,
        )
    } else {
        None
    }
}

/// What is noted of the answer to the request for string `i`: the errors met on the
/// bus, and why there is no text or what is odd about the descriptor.
pub open spec fn string_notes(i: u8, c: Result<ControlResult>) -> Seq<Seq<char>> {
    bus_notes(about_string(i), c) + (match c {
        Err(e) => seq![about_string(i) + e@.text()],
        Ok(c) => if c.stalled {
            seq![about_string(i) + "STALLed"@]
        } else {
            match string_defect(c.data@) {
                Some(why) => seq![about_string(i) + why],
                None => Seq::empty(),
            }
        },
    })
}

/// The strings that could be read, keyed by index and language. One that was
/// STALLed is not among them.
pub open spec fn string_entries(
    want: Seq<u8>,
    lang: u16,
    strs: Seq<Result<ControlResult>>,
) -> Map<(u8, u16), Seq<char>>
    decreases strs.len(),
{
    if strs.len() == 0 {
        Map::empty()
    } else {
        let before = string_entries(want, lang, strs.drop_last());
        match strs.last() {
            Ok(c) => if c.stalled {
                before
            } else {
                before.insert((want[strs.len() - 1], lang), StringDescriptor::text(c.data@))
            },
            Err(_) => before,
        }
    }
}

/// What is noted of all wanted strings, in order.
pub open spec fn all_string_notes(
    want: Seq<u8>,
    strs: Seq<Result<ControlResult>>,
) -> Seq<Seq<char>>
    decreases strs.len(),
{
    if strs.len() == 0 {
        Seq::empty()
    } else {
        all_string_notes(want, strs.drop_last()) + string_notes(want[strs.len() - 1], strs.last())
    }
}

/// What is noted of the device descriptor itself: a STALL, the errors met on the bus,
/// and what keeps it from being sound.
pub open spec fn device_notes(c: ControlResult) -> Seq<Seq<char>> {
    let raw = c.data@;
    let oddities = if raw.len() < 18 {
        seq!["device descriptor was "@ + text::decimal(raw.len()) + " bytes (<18)"@]
    } else {
        match DeviceDescriptor::defect(raw) {
            Some(why) => seq!["device descriptor: "@ + ErrorView::Protocol(why).text()],
            None => note(
                raw[0] != raw.len(),
                "device descriptor: bLength "@ + text::decimal(raw[0] as nat) + " but "@
                    + text::decimal(raw.len()) + " bytes"@,
            ),
        }
    };
    note(c.stalled, "device descriptor: STALLed"@) + bus_notes("device descriptor: "@, Ok(c))
        + oddities
}

/// Each configuration in turn is read from the host that the one before it left.
pub open spec fn configuration_chain<H: HostModel>(
    address: u8,
    hosts: Seq<H>,
    cfgs: Seq<ConfigurationAnswers>,
) -> bool {
    &&& hosts.len() == cfgs.len() + 1
    &&& forall|i: int|
        #![trigger cfgs[i]]
        0 <= i < cfgs.len() ==> requests_configuration(
            hosts[i],
            address,
            i as u8,
            hosts[i + 1],
            cfgs[i],
        )
}

/// Each wanted string in turn is read from the host that the one before it left.
pub open spec fn string_chain<H: HostModel>(
    address: u8,
    want: Seq<u8>,
    lang: u16,
    hosts: Seq<H>,
    strs: Seq<Result<ControlResult>>,
) -> bool {
    &&& hosts.len() == strs.len() + 1
    &&& strs.len() <= want.len()
    &&& forall|k: int|
        #![trigger strs[k]]
        0 <= k < strs.len() ==> requests(
            hosts[k],
            address,
            Setup::descriptor_request(descriptor_type::STRING, want[k], lang, 255),
            hosts[k + 1],
            strs[k],
        )
}

/// What an examination concludes from the answers in `t`.
pub open spec fn examined<H>(address: u8, t: ExamineTrace<H>) -> UsbDeviceModelView {
    let device = t.device->Ok_0;
    let raw = device.data@;
    let d = DeviceDescriptor::fields(raw);
    let cs = readable(t.cfgs);
    let want = wanted(d, cs, 255);
    let lang = first_language(t.langids);
    UsbDeviceModelView {
        address,
        speed: reported_speed(t.status),
        device_descriptor: d,
        raw_device_descriptor: raw,
        configurations: cs,
        strings: string_entries(want, lang, t.strs),
        anomalies: device_notes(device) + string_notes(0, t.langids) + all_answer_notes(t.cfgs)
            + all_string_notes(want, t.strs),
    }
}

/// An examination that met the answers in `t`: device descriptor, port status,
/// languages, each configuration, then each string that a descriptor refers to.
/// Only a failed request for the device descriptor ends it early; everything
/// else that goes wrong is noted.
pub open spec fn examine_run<H: HostModel>(
    pre: H,
    address: u8,
    t: ExamineTrace<H>,
    post: H,
    r: core::result::Result<UsbDeviceModelView, ErrorView>,
) -> bool {
    &&& requests(
        pre,
        address,
        Setup::descriptor_request(descriptor_type::DEVICE, 0, 0, 18),
        t.after_device,
        t.device,
    )
    &&& match t.device {
        Err(e) => post == t.after_device && r == Err::<UsbDeviceModelView, _>(e@),
        Ok(device) => {
            let d = DeviceDescriptor::fields(device.data@);
            let want = wanted(d, readable(t.cfgs), 255);
            &&& H::port_status_step(t.after_device, t.after_status, t.status)
            &&& configuration_chain(address, t.cfg_hosts, t.cfgs)
            &&& t.cfgs.len() == d.num_configurations
            &&& requests(
                t.after_status,
                address,
                Setup::descriptor_request(descriptor_type::STRING, 0, 0, 255),
                t.cfg_hosts[0],
                t.langids,
            )
            &&& string_chain(address, want, first_language(t.langids), t.str_hosts, t.strs)
            &&& t.strs.len() == want.len()
            &&& t.str_hosts[0] == t.cfg_hosts.last()
            &&& post == t.str_hosts.last()
            &&& r == Ok::<_, ErrorView>(examined(address, t))
        },
    }
}

/// Examining the device at `address` may lead from `pre` to `post` and return `r`.
pub open spec fn examines<H: HostModel>(
    pre: H,
    address: u8,
    post: H,
    r: core::result::Result<UsbDeviceModelView, ErrorView>,
) -> bool {
    exists|t: ExamineTrace<H>| examine_run(pre, address, t, post, r)
}

/// The wanted strings are exactly the referenced indices other than 0, each once,
/// in ascending order.
pub proof fn wanted_is_exact(d: DeviceDescriptor, cs: Seq<ConfigurationView>, n: nat)
    requires
        n <= 255,
    ensures
        forall|k: int|
            0 <= k < wanted(d, cs, n).len() ==> 1 <= #[trigger] wanted(d, cs, n)[k] <= n
                && refers_to(d, cs, wanted(d, cs, n)[k]),
        forall|i: u8|
            1 <= i <= n && #[trigger] refers_to(d, cs, i) ==> wanted(d, cs, n).contains(i),
        forall|a: int, b: int|
            0 <= a < b < wanted(d, cs, n).len() ==> wanted(d, cs, n)[a] < wanted(d, cs, n)[b],
        wanted(d, cs, n).len() <= n,
    decreases n,
{
    if n > 0 {
        let p = (n - 1) as nat;
        let last = n as u8;
        let v = wanted(d, cs, p);
        let w = wanted(d, cs, n);
        wanted_is_exact(d, cs, p);
        assert forall|i: u8| 1 <= i <= n && #[trigger] refers_to(d, cs, i) implies w.contains(
            i,
        ) by {
            if i == last {
                assert(w[v.len() as int] == i);
            } else {
                assert(v.contains(i));
                let j = choose|j: int| 0 <= j < v.len() && v[j] == i;
                assert(w[j] == i);
            }
        }
    }
}

/// The wanted strings up to `n` start the list of those up to any larger bound.
pub proof fn lemma_wanted_prefix(d: DeviceDescriptor, cs: Seq<ConfigurationView>, n: nat, m: nat)
    requires
        n <= m,
    ensures
        wanted(d, cs, n).is_prefix_of(wanted(d, cs, m)),
    decreases m - n,
{
    if n < m {
        lemma_wanted_prefix(d, cs, n, (m - 1) as nat);
    }
}

/// A line of either list is a line of the two together.
proof fn lemma_line(a: Seq<Seq<char>>, b: Seq<Seq<char>>, line: Seq<char>)
    ensures
        a.contains(line) || b.contains(line) ==> (a + b).contains(line),
{
    if a.contains(line) {
        let j = choose|j: int| 0 <= j < a.len() && a[j] == line;
        assert((a + b)[j] == line);
    }
    if b.contains(line) {
        let j = choose|j: int| 0 <= j < b.len() && b[j] == line;
        assert((a + b)[a.len() + j] == line);
    }
}

/// A line that was added is there.
proof fn lemma_note(c: bool, line: Seq<char>)
    ensures
        c ==> note(c, line).contains(line),
{
    if c {
        assert(note(c, line)[0] == line);
    }
}

proof fn lemma_answer_note(k: nat, a: ConfigurationAnswers)
    ensures
        stalled(a.head) ==> answer_notes(k, a).contains(
            about_configuration(k) + "STALLed reading its header"@,
        ),
        a.blob matches Some(blob) && stalled(blob) ==> answer_notes(k, a).contains(
            about_configuration(k) + "STALLed"@,
        ),
{
    let head = about_configuration(k) + "STALLed reading its header"@;
    let whole = about_configuration(k) + "STALLed"@;
    let blob_stalled = a.blob matches Some(blob) && stalled(blob);
    let rest = match configuration_of(a) {
        Ok(c) => configuration_notes(k, c, (a.blob->0)->Ok_0.data@),
        Err(e) => seq![about_configuration(k) + e.text()],
    };
    lemma_note(stalled(a.head), head);
    lemma_note(blob_stalled, whole);
    let stalls = note(stalled(a.head), head) + note(blob_stalled, whole);
    lemma_line(note(stalled(a.head), head), note(blob_stalled, whole), head);
    lemma_line(note(stalled(a.head), head), note(blob_stalled, whole), whole);
    let on_bus = bus_notes(about_configuration(k), a.head);
    let after = match a.blob {
        Some(blob) => bus_notes(about_configuration(k), blob),
        None => Seq::empty(),
    };
    lemma_line(stalls, on_bus, head);
    lemma_line(stalls, on_bus, whole);
    lemma_line(stalls + on_bus, after, head);
    lemma_line(stalls + on_bus, after, whole);
    lemma_line(stalls + on_bus + after, rest, head);
    lemma_line(stalls + on_bus + after, rest, whole);
    assert(answer_notes(k, a) == stalls + on_bus + after + rest);
}

proof fn lemma_answer_notes(cfgs: Seq<ConfigurationAnswers>, k: int)
    requires
        0 <= k < cfgs.len(),
    ensures
        stalled(cfgs[k].head) ==> all_answer_notes(cfgs).contains(
            about_configuration(k as nat) + "STALLed reading its header"@,
        ),
        cfgs[k].blob matches Some(blob) && stalled(blob) ==> all_answer_notes(cfgs).contains(
            about_configuration(k as nat) + "STALLed"@,
        ),
    decreases cfgs.len(),
{
    let before = all_answer_notes(cfgs.drop_last());
    let last = answer_notes((cfgs.len() - 1) as nat, cfgs.last());
    if k < cfgs.len() - 1 {
        lemma_answer_notes(cfgs.drop_last(), k);
        assert(cfgs.drop_last()[k] == cfgs[k]);
    } else {
        lemma_answer_note(k as nat, cfgs[k]);
    }
    lemma_line(before, last, about_configuration(k as nat) + "STALLed reading its header"@);
    lemma_line(before, last, about_configuration(k as nat) + "STALLed"@);
}

proof fn lemma_string_stall(i: u8, c: Result<ControlResult>)
    requires
        stalled(c),
    ensures
        string_notes(i, c).contains(about_string(i) + "STALLed"@),
{
    let line = about_string(i) + "STALLed"@;
    assert(seq![line][0] == line);
    lemma_line(bus_notes(about_string(i), c), seq![line], line);
}

proof fn lemma_string_notes(want: Seq<u8>, lang: u16, strs: Seq<Result<ControlResult>>, k: int)
    requires
        0 <= k < strs.len() <= want.len(),
        stalled(strs[k]),
        forall|a: int, b: int| 0 <= a < b < want.len() ==> want[a] < want[b],
    ensures
        all_string_notes(want, strs).contains(about_string(want[k]) + "STALLed"@),
        !string_entries(want, lang, strs).dom().contains((want[k], lang)),
    decreases strs.len(),
{
    let line = about_string(want[k]) + "STALLed"@;
    let before = all_string_notes(want, strs.drop_last());
    let last = string_notes(want[strs.len() - 1], strs.last());
    if k < strs.len() - 1 {
        lemma_string_notes(want, lang, strs.drop_last(), k);
    } else {
        lemma_string_stall(want[k], strs[k]);
        lemma_no_entry(want, lang, strs.drop_last(), want[k]);
    }
    lemma_line(before, last, line);
}

/// There is no entry for a string that was not asked for.
proof fn lemma_no_entry(want: Seq<u8>, lang: u16, strs: Seq<Result<ControlResult>>, i: u8)
    requires
        strs.len() <= want.len(),
        forall|j: int| 0 <= j < strs.len() ==> #[trigger] want[j] != i,
    ensures
        !string_entries(want, lang, strs).dom().contains((i, lang)),
    decreases strs.len(),
{
    if strs.len() > 0 {
        lemma_no_entry(want, lang, strs.drop_last(), i);
    }
}

/// No STALL met while examining a device is passed over: one line tells of it, for
/// the device descriptor, the language list, either request for a configuration, and
/// each string; and a string that was STALLed is not among the strings read.
pub proof fn every_stall_is_noted<H: HostModel>(
    pre: H,
    address: u8,
    t: ExamineTrace<H>,
    post: H,
    m: UsbDeviceModelView,
    k: int,
)
    requires
        examine_run(pre, address, t, post, Ok(m)),
    ensures
        stalled(t.device) ==> m.anomalies.contains("device descriptor: STALLed"@),
        stalled(t.langids) ==> m.anomalies.contains(about_string(0) + "STALLed"@),
        0 <= k < t.cfgs.len() && stalled(t.cfgs[k].head) ==> m.anomalies.contains(
            about_configuration(k as nat) + "STALLed reading its header"@,
        ),
        0 <= k < t.cfgs.len() && t.cfgs[k].blob is Some && stalled(t.cfgs[k].blob->0)
            ==> m.anomalies.contains(about_configuration(k as nat) + "STALLed"@),
        ({
            let want = wanted(m.device_descriptor, m.configurations, 255);
            0 <= k < t.strs.len() && stalled(t.strs[k]) ==> m.anomalies.contains(
                about_string(want[k]) + "STALLed"@,
            ) && !m.strings.dom().contains((want[k], first_language(t.langids)))
        }),
{
    let want = wanted(m.device_descriptor, m.configurations, 255);
    let a = device_notes(t.device->Ok_0);
    let b = string_notes(0, t.langids);
    let c = all_answer_notes(t.cfgs);
    let d = all_string_notes(want, t.strs);
    assert(m == examined(address, t));
    assert(m.anomalies == a + b + c + d);
    wanted_is_exact(m.device_descriptor, m.configurations, 255);
    if stalled(t.device) {
        let line = "device descriptor: STALLed"@;
        assert(a[0] == line);
        lemma_line(a, b, line);
        lemma_line(a + b, c, line);
        lemma_line(a + b + c, d, line);
    }
    if stalled(t.langids) {
        let line = about_string(0) + "STALLed"@;
        lemma_string_stall(0, t.langids);
        lemma_line(a, b, line);
        lemma_line(a + b, c, line);
        lemma_line(a + b + c, d, line);
    }
    if 0 <= k < t.cfgs.len() {
        let head = about_configuration(k as nat) + "STALLed reading its header"@;
        let whole = about_configuration(k as nat) + "STALLed"@;
        lemma_answer_notes(t.cfgs, k);
        lemma_line(a + b, c, head);
        lemma_line(a + b + c, d, head);
        lemma_line(a + b, c, whole);
        lemma_line(a + b + c, d, whole);
    }
    if 0 <= k < t.strs.len() && stalled(t.strs[k]) {
        let line = about_string(want[k]) + "STALLed"@;
        lemma_string_notes(want, first_language(t.langids), t.strs, k);
        lemma_line(a + b + c, d, line);
    }
}

/// An enumeration resets the bus; asks at address 0 for 8 bytes of the device descriptor;
/// gives the device address 1; and asks there for all 18 bytes: each of these, and nothing
/// else, in this order, as these very bytes on the wire, as long as all went well before.
pub proof fn enumeration_asks_step_by_step<H: HostModel>(
    pre: H,
    t: EnumerateTrace<H>,
    post: H,
    r: core::result::Result<EnumeratedDeviceView, ErrorView>,
)
    requires
        enumerate_run(pre, t, post, r),
    ensures
        ({
            let head_came = t.reset is Ok && t.head is Ok && !(t.head->Ok_0).stalled
                && (t.head->Ok_0).data@.len() >= 8;
            let addressed = head_came && t.set_address is Ok && !(t.set_address->Ok_0).stalled;
            &&& H::bus_reset_step(pre, t.after_reset, t.reset)
            &&& t.reset is Ok ==> H::control_step(
                t.after_reset,
                0,
                seq![0x80u8, 6, 0, 1, 0, 0, 8, 0],
                Seq::empty(),
                ControlForensics::compliant(),
                t.after_head,
                t.head,
            )
            &&& head_came ==> H::control_step(
                t.after_head,
                0,
                seq![0u8, 5, 1, 0, 0, 0, 0, 0],
                Seq::empty(),
                ControlForensics::compliant(),
                t.after_set_address,
                t.set_address,
            )
            &&& addressed ==> H::control_step(
                t.after_set_address,
                1,
                seq![0x80u8, 6, 0, 1, 0, 0, 18, 0],
                Seq::empty(),
                ControlForensics::compliant(),
                post,
                t.full,
            )
            &&& t.reset is Err ==> post == t.after_reset
            &&& t.reset is Ok && !head_came ==> post == t.after_head
            &&& head_came && !addressed ==> post == t.after_set_address
        }),
{
    crate::host::standard_requests(1, 0, 0, 8, 1);
    crate::host::standard_requests(1, 0, 0, 18, 1);
}

/// An enumeration succeeds exactly if every request was answered, none of them with a STALL,
/// the head with at least 8 bytes and the descriptor with at least 18 of the right type; it
/// then gives the address 1, the speed seen at reset, the descriptor's bytes as they came,
/// and its fields. Otherwise it fails with the first thing that went wrong.
pub proof fn enumeration_succeeds_when_all_is_answered<H: HostModel>(
    pre: H,
    t: EnumerateTrace<H>,
    post: H,
    r: core::result::Result<EnumeratedDeviceView, ErrorView>,
)
    requires
        enumerate_run(pre, t, post, r),
    ensures
        r is Ok <==> {
            &&& t.reset is Ok
            &&& t.head is Ok && !(t.head->Ok_0).stalled && (t.head->Ok_0).data@.len() >= 8
            &&& t.set_address is Ok && !(t.set_address->Ok_0).stalled
            &&& t.full is Ok && !(t.full->Ok_0).stalled && (t.full->Ok_0).data@.len() >= 18
                && (t.full->Ok_0).data@[1] == 1
        },
        r matches Ok(d) ==> {
            &&& d.address == 1
            &&& d.speed == t.reset->Ok_0
            &&& d.raw_device_descriptor == (t.full->Ok_0).data@
            &&& d.device_descriptor == DeviceDescriptor::fields((t.full->Ok_0).data@)
        },
        t.reset is Err ==> r->Err_0 == (t.reset->Err_0)@,
        t.reset is Ok && t.head is Err ==> r->Err_0 == (t.head->Err_0)@,
        t.reset is Ok && t.head is Ok && ((t.head->Ok_0).stalled || (t.head->Ok_0).data@.len() < 8)
            ==> r->Err_0 == ErrorView::Protocol(
            "device did not return descriptor head at address 0"@,
        ),
        t.reset is Ok && t.head is Ok && !(t.head->Ok_0).stalled && (t.head->Ok_0).data@.len() >= 8
            ==> {
            &&& t.set_address is Err ==> r->Err_0 == (t.set_address->Err_0)@
            &&& t.set_address is Ok && (t.set_address->Ok_0).stalled ==> r->Err_0
                == ErrorView::Protocol("SET_ADDRESS was STALLed"@)
            &&& t.set_address is Ok && !(t.set_address->Ok_0).stalled && t.full is Err ==> r->Err_0
                == (t.full->Err_0)@
            &&& t.set_address is Ok && !(t.set_address->Ok_0).stalled && t.full is Ok && (
            (t.full->Ok_0).stalled || (t.full->Ok_0).data@.len() < 18) ==> r->Err_0
                == ErrorView::Protocol("device did not return full device descriptor"@)
        },
{
}

/// Reading a descriptor puts one request for it on the wire, with the type, index, language
/// and length asked for, and gives the bytes that came, or the error.
pub proof fn descriptors_are_asked_for_by_name<H: HostModel>(
    pre: H,
    address: u8,
    desc_type: u8,
    index: u8,
    lang: u16,
    len: u16,
    post: H,
    r: core::result::Result<Seq<u8>, ErrorView>,
    asked: Seq<u8>,
)
    requires
        asked == seq![
            0x80u8,
            6,
            index,
            desc_type,
            (lang % 256) as u8,
            (lang / 256) as u8,
            (len % 256) as u8,
            (len / 256) as u8,
        ],
    ensures
        reads_descriptor(pre, address, desc_type, index, lang, len, post, r) <==> exists|
            c: Result<ControlResult>,
        |
            {
                &&& #[trigger] H::control_step(
                    pre,
                    address,
                    asked,
                    Seq::empty(),
                    ControlForensics::compliant(),
                    post,
                    c,
                )
                &&& c matches Ok(a) ==> r == Ok::<_, ErrorView>(a.data@)
                &&& c matches Err(e) ==> r == Err::<Seq<u8>, _>(e@)
            },
{
    crate::host::standard_requests(desc_type, index, lang, len, 0);
    let setup = Setup::descriptor_request(desc_type, index, lang, len);
    if reads_descriptor(pre, address, desc_type, index, lang, len, post, r) {
        let c = choose|c: Result<ControlResult>| #[trigger]
            requests(pre, address, setup, post, c) && r == data_of(c);
        assert(H::control_step(
            pre,
            address,
            asked,
            Seq::empty(),
            ControlForensics::compliant(),
            post,
            c,
        ));
    }
    if exists|c: Result<ControlResult>|
        {
            &&& #[trigger] H::control_step(
                pre,
                address,
                asked,
                Seq::empty(),
                ControlForensics::compliant(),
                post,
                c,
            )
            &&& c matches Ok(a) ==> r == Ok::<_, ErrorView>(a.data@)
            &&& c matches Err(e) ==> r == Err::<Seq<u8>, _>(e@)
        } {
        let c = choose|c: Result<ControlResult>|
            {
                &&& #[trigger] H::control_step(
                    pre,
                    address,
                    asked,
                    Seq::empty(),
                    ControlForensics::compliant(),
                    post,
                    c,
                )
                &&& c matches Ok(a) ==> r == Ok::<_, ErrorView>(a.data@)
                &&& c matches Err(e) ==> r == Err::<Seq<u8>, _>(e@)
            };
        assert(requests(pre, address, setup, post, c) && r == data_of(c));
    }
}

/// Reading a string asks for 255 bytes of the string descriptor of that index and language,
/// and gives the text of what came.
pub proof fn strings_are_asked_for_by_name<H: HostModel>(
    pre: H,
    address: u8,
    index: u8,
    lang: u16,
    post: H,
    r: core::result::Result<Seq<char>, ErrorView>,
    asked: Seq<u8>,
)
    requires
        reads_string(pre, address, index, lang, post, r),
        asked == seq![0x80u8, 6, index, 3, (lang % 256) as u8, (lang / 256) as u8, 255, 0],
    ensures
        exists|c: Result<ControlResult>|
            {
                &&& #[trigger] H::control_step(
                    pre,
                    address,
                    asked,
                    Seq::empty(),
                    ControlForensics::compliant(),
                    post,
                    c,
                )
                &&& c matches Ok(a) ==> r == Ok::<_, ErrorView>(StringDescriptor::text(a.data@))
                &&& c matches Err(e) ==> r == Err::<Seq<char>, _>(e@)
            },
{
    let raw = choose|raw: core::result::Result<Seq<u8>, ErrorView>|
        #[trigger] reads_descriptor(
            pre,
            address,
            descriptor_type::STRING,
            index,
            lang,
            255,
            post,
            raw,
        ) && r == (match raw {
            Ok(b) => Ok::<_, ErrorView>(StringDescriptor::text(b)),
            Err(e) => Err(e),
        });
    let setup = Setup::descriptor_request(descriptor_type::STRING, index, lang, 255);
    let c = choose|c: Result<ControlResult>| #[trigger]
        requests(pre, address, setup, post, c) && raw == data_of(c);
    crate::host::standard_requests(3, index, lang, 255, 0);
    assert(H::control_step(
        pre,
        address,
        asked,
        Seq::empty(),
        ControlForensics::compliant(),
        post,
        c,
    ));
}

/// A configuration is asked for twice: first its 9-byte head, then as many bytes as the third
/// and fourth byte of the head say, or as came if it is no head. If the head is not answered,
/// nothing more is asked.
pub proof fn configurations_are_asked_for_in_full<H: HostModel>(
    pre: H,
    address: u8,
    cfg_index: u8,
    after_head: H,
    a: ConfigurationAnswers,
    post: H,
)
    requires
        configuration_run(pre, address, cfg_index, after_head, a, post),
    ensures
        H::control_step(
            pre,
            address,
            seq![0x80u8, 6, cfg_index, 2, 0, 0, 9, 0],
            Seq::empty(),
            ControlForensics::compliant(),
            after_head,
            a.head,
        ),
        a.head is Err ==> a.blob is None && post == after_head,
        a.head matches Ok(head) && head.data@.len() >= 9 ==> a.blob is Some && H::control_step(
            after_head,
            address,
            seq![
                0x80u8,
                6,
                cfg_index,
                2,
                0,
                0,
                (a.head->Ok_0).data@[2],
                (a.head->Ok_0).data@[3],
            ],
            Seq::empty(),
            ControlForensics::compliant(),
            post,
            a.blob->0,
        ),
        a.head matches Ok(head) && head.data@.len() < 9 ==> a.blob is Some && H::control_step(
            after_head,
            address,
            seq![0x80u8, 6, cfg_index, 2, 0, 0, (a.head->Ok_0).data@.len() as u8, 0],
            Seq::empty(),
            ControlForensics::compliant(),
            post,
            a.blob->0,
        ),
{
    crate::host::standard_requests(2, cfg_index, 0, 9, 0);
    if let Ok(head) = a.head {
        let b = head.data@;
        let n = total_length(b);
        crate::host::standard_requests(2, cfg_index, 0, n, 0);
        if b.len() >= 9 {
            crate::bytes::byte_orders(0, 0, b[2], b[3], 0, 0);
            assert(n == b[2] + 256 * b[3]);
        }
    }
}

/// What a configuration is read as goes by the answer to the second request: its parse, or
/// the first error; a blob too short to be one is told so.
pub proof fn configuration_is_what_came(a: ConfigurationAnswers)
    requires
        a.head is Err ==> a.blob is None,
        a.head is Ok ==> a.blob is Some,
    ensures
        a.head matches Err(e) ==> configuration_of(a) == Err::<ConfigurationView, _>(e@),
        a.head is Ok ==> {
            &&& a.blob->0 matches Err(e) ==> configuration_of(a) == Err::<ConfigurationView, _>(e@)
            &&& a.blob->0 matches Ok(b) ==> {
                &&& b.data@.len() >= 9 ==> configuration_of(a) is Ok && Some(
                    configuration_of(a)->Ok_0,
                ) == ConfigurationView::parsed(b.data@)
                &&& b.data@.len() < 9 ==> configuration_of(a) == Err::<ConfigurationView, _>(
                    ErrorView::Protocol("configuration descriptor too short"@),
                )
            }
        },
{
}

/// An examination asks for the device descriptor, then for the list of languages, then for
/// every configuration that the device says it has, by number from 0, then for each string
/// that is referred to, in the first language listed; and it reports the address it was given,
/// the speed of the port, the descriptor as it came, the configurations that could be read,
/// and the strings.
pub proof fn examination_asks_step_by_step<H: HostModel>(
    pre: H,
    address: u8,
    t: ExamineTrace<H>,
    post: H,
    m: UsbDeviceModelView,
    k: int,
)
    requires
        examine_run(pre, address, t, post, Ok(m)),
    ensures
        t.device is Ok,
        H::control_step(
            pre,
            address,
            seq![0x80u8, 6, 0, 1, 0, 0, 18, 0],
            Seq::empty(),
            ControlForensics::compliant(),
            t.after_device,
            t.device,
        ),
        H::port_status_step(t.after_device, t.after_status, t.status),
        H::control_step(
            t.after_status,
            address,
            seq![0x80u8, 6, 0, 3, 0, 0, 255, 0],
            Seq::empty(),
            ControlForensics::compliant(),
            t.cfg_hosts[0],
            t.langids,
        ),
        t.cfgs.len() == m.device_descriptor.num_configurations,
        0 <= k < t.cfgs.len() ==> exists|after_head: H|
            #[trigger] configuration_run(
                t.cfg_hosts[k],
                address,
                k as u8,
                after_head,
                t.cfgs[k],
                t.cfg_hosts[k + 1],
            ),
        0 <= k < t.strs.len() ==> {
            let i = wanted(m.device_descriptor, m.configurations, 255)[k];
            let lang = first_language(t.langids);
            H::control_step(
                t.str_hosts[k],
                address,
                seq![0x80u8, 6, i, 3, (lang % 256) as u8, (lang / 256) as u8, 255, 0],
                Seq::empty(),
                ControlForensics::compliant(),
                t.str_hosts[k + 1],
                t.strs[k],
            )
        },
        t.strs.len() == wanted(m.device_descriptor, m.configurations, 255).len(),
        post == t.str_hosts.last(),
        m.address == address,
        m.raw_device_descriptor == (t.device->Ok_0).data@,
        m.device_descriptor == DeviceDescriptor::fields((t.device->Ok_0).data@),
        t.status matches Ok(p) ==> m.speed == p.speed,
        t.status is Err ==> m.speed is None,
{
    crate::host::standard_requests(1, 0, 0, 18, 0);
    crate::host::standard_requests(3, 0, 0, 255, 0);
    if 0 <= k < t.cfgs.len() {
        assert(requests_configuration(
            t.cfg_hosts[k],
            address,
            k as u8,
            t.cfg_hosts[k + 1],
            t.cfgs[k],
        ));
    }
    if 0 <= k < t.strs.len() {
        let i = wanted(m.device_descriptor, m.configurations, 255)[k];
        crate::host::standard_requests(3, i, first_language(t.langids), 255, 0);
        let c = t.strs[k];
        assert(requests(
            t.str_hosts[k],
            address,
            Setup::descriptor_request(descriptor_type::STRING, i, first_language(t.langids), 255),
            t.str_hosts[k + 1],
            c,
        ));
    }
}

/// Only a device descriptor that cannot be asked for ends an examination, with that error.
pub proof fn examination_fails_only_at_the_start<H: HostModel>(
    pre: H,
    address: u8,
    t: ExamineTrace<H>,
    post: H,
    r: core::result::Result<UsbDeviceModelView, ErrorView>,
)
    requires
        examine_run(pre, address, t, post, r),
    ensures
        r is Err <==> t.device is Err,
        t.device matches Err(e) ==> r->Err_0 == e@ && post == t.after_device,
{
}

/// Strings are asked for in the first language that the device lists, and in US English if it
/// lists none or does not answer.
pub proof fn strings_are_in_the_first_language(c: Result<ControlResult>)
    ensures
        c is Err ==> first_language(c) == 0x0409,
        c matches Ok(a) ==> {
            let b = a.data@;
            &&& b.len() >= 4 && b[1] == 3 ==> first_language(c) == b[2] + 256 * b[3]
            &&& b.len() < 4 || b[1] != 3 ==> first_language(c) == 0x0409
        },
{
    if let Ok(a) = c {
        let b = a.data@;
        if b.len() >= 4 {
            crate::bytes::byte_orders(0, 0, b[2], b[3], 0, 0);
            assert(b.skip(2)[0] == b[2] && b.skip(2)[1] == b[3]);
        }
    }
}

/// Every string that a descriptor refers to is wanted: the device's three, that of each
/// configuration and that of each interface; and no other is. Index 0 is no string.
pub proof fn every_string_referred_to_is_wanted(
    d: DeviceDescriptor,
    cs: Seq<ConfigurationView>,
    k: int,
    j: int,
    i: u8,
)
    requires
        i != 0,
    ensures
        d.manufacturer_index == i || d.product_index == i || d.serial_index == i ==> wanted(
            d,
            cs,
            255,
        ).contains(i),
        0 <= k < cs.len() && cs[k].descriptor.configuration_index == i ==> wanted(
            d,
            cs,
            255,
        ).contains(i),
        0 <= k < cs.len() && 0 <= j < cs[k].interfaces.len()
            && cs[k].interfaces[j].descriptor.interface_index == i ==> wanted(d, cs, 255).contains(i),
        d.manufacturer_index != i && d.product_index != i && d.serial_index != i && (forall|a: int|
            0 <= a < cs.len() ==> (#[trigger] cs[a]).descriptor.configuration_index != i) && (forall|
            a: int,
            b: int,
        |
            0 <= a < cs.len() && 0 <= b < cs[a].interfaces.len() ==> (
            #[trigger] cs[a].interfaces[b]).descriptor.interface_index != i) ==> !wanted(
            d,
            cs,
            255,
        ).contains(i),
        !wanted(d, cs, 255).contains(0),
{
    let w = wanted(d, cs, 255);
    wanted_is_exact(d, cs, 255);
    if d.manufacturer_index == i || d.product_index == i || d.serial_index == i {
        assert(refers_to(d, cs, i));
    }
    if 0 <= k < cs.len() {
        if cs[k].descriptor.configuration_index == i {
            assert(configuration_refers_to(cs[k], i));
            assert(refers_to(d, cs, i));
        }
        if 0 <= j < cs[k].interfaces.len() && cs[k].interfaces[j].descriptor.interface_index == i {
            assert(configuration_refers_to(cs[k], i));
            assert(refers_to(d, cs, i));
        }
    }
    if w.contains(i) {
        let n = choose|n: int| 0 <= n < w.len() && w[n] == i;
        assert(refers_to(d, cs, w[n]));
        if exists|a: int| 0 <= a < cs.len() && configuration_refers_to(#[trigger] cs[a], i) {
            let a = choose|a: int| 0 <= a < cs.len() && configuration_refers_to(#[trigger] cs[a], i);
            if cs[a].descriptor.configuration_index != i {
                let b = choose|b: int|
                    0 <= b < cs[a].interfaces.len() && (
                    #[trigger] cs[a].interfaces[b]).descriptor.interface_index == i;
                assert(cs[a].interfaces[b].descriptor.interface_index == i);
            }
        }
    }
    if w.contains(0) {
        let n = choose|n: int| 0 <= n < w.len() && w[n] == 0;
        assert(1 <= w[n]);
    }
}

/// The configurations that could be read are reported in order; one that could not is left
/// out.
pub proof fn readable_configurations_are_kept(
    cfgs: Seq<ConfigurationAnswers>,
    next: ConfigurationAnswers,
)
    ensures
        readable(Seq::empty()) == Seq::<ConfigurationView>::empty(),
        configuration_of(next) matches Ok(c) ==> readable(cfgs.push(next)) == readable(cfgs).push(
            c,
        ),
        configuration_of(next) is Err ==> readable(cfgs.push(next)) == readable(cfgs),
{
    assert(cfgs.push(next).drop_last() =~= cfgs);
}

/// Each string that was answered without a STALL is there, under the index and language it was
/// asked for, as the text of its own answer; and there is no other.
pub proof fn strings_are_kept_under_their_index(
    want: Seq<u8>,
    lang: u16,
    strs: Seq<Result<ControlResult>>,
    k: int,
)
    requires
        0 <= k < strs.len() <= want.len(),
        forall|a: int, b: int| 0 <= a < b < want.len() ==> want[a] < want[b],
    ensures
        string_entries(want, lang, strs).dom().contains((want[k], lang)) <==> (strs[k] matches Ok(
            c,
        ) && !c.stalled),
        strs[k] matches Ok(c) && !c.stalled ==> string_entries(want, lang, strs)[(want[k], lang)]
            == StringDescriptor::text((strs[k]->Ok_0).data@),
        forall|i: u8, l: u16|
            l != lang || (forall|a: int| 0 <= a < strs.len() ==> #[trigger] want[a] != i)
                ==> !#[trigger] string_entries(want, lang, strs).dom().contains((i, l)),
    decreases strs.len(),
{
    let before = strs.drop_last();
    if k < before.len() {
        strings_are_kept_under_their_index(want, lang, before, k);
    } else {
        lemma_no_entry(want, lang, before, want[k]);
    }
    assert forall|i: u8, l: u16|
        l != lang || (forall|a: int| 0 <= a < strs.len() ==> #[trigger] want[a] != i)
        implies !#[trigger] string_entries(want, lang, strs).dom().contains((i, l)) by {
        lemma_only_entries(want, lang, strs, i, l);
    }
}

proof fn lemma_only_entries(
    want: Seq<u8>,
    lang: u16,
    strs: Seq<Result<ControlResult>>,
    i: u8,
    l: u16,
)
    requires
        strs.len() <= want.len(),
        l != lang || (forall|a: int| 0 <= a < strs.len() ==> #[trigger] want[a] != i),
    ensures
        !string_entries(want, lang, strs).dom().contains((i, l)),
    decreases strs.len(),
{
    if strs.len() > 0 {
        lemma_only_entries(want, lang, strs.drop_last(), i, l);
    }
}

/// Every error met on the bus counts, but for an answer that is merely shorter than asked for.
pub proof fn bus_errors_are_counted(errors: Seq<BusErrorView>, e: BusErrorView)
    ensures
        bus_error_total(Seq::empty()) == 0,
        bus_error_total(errors.push(e)) == bus_error_total(errors) + (if e is ShortPacket {
            0int
        } else {
            1
        }),
{
    assert(errors.push(e).drop_last() =~= errors);
}

/// Nothing is noted of a device descriptor exactly if it came without a STALL and without a
/// bus error, with at least 18 bytes, of the right type, and as long as it says.
pub proof fn sound_device_descriptor_is_not_noted(c: ControlResult)
    ensures
        device_notes(c).len() == 0 <==> {
            &&& !c.stalled
            &&& bus_error_total(c@.errors) == 0
            &&& c.data@.len() >= 18
            &&& c.data@[1] == 1
            &&& c.data@[0] == c.data@.len()
        },
{
}

/// Nothing is noted of a string exactly if it was answered, without a STALL and without a bus
/// error, by a string descriptor that is as long as it says.
pub proof fn sound_string_is_not_noted(i: u8, c: Result<ControlResult>)
    ensures
        string_notes(i, c).len() == 0 <==> {
            &&& c is Ok
            &&& !(c->Ok_0).stalled
            &&& bus_error_total((c->Ok_0)@.errors) == 0
            &&& (c->Ok_0).data@.len() >= 2
            &&& (c->Ok_0).data@[1] == 3
            &&& (c->Ok_0).data@[0] == (c->Ok_0).data@.len()
        },
{
}

proof fn lemma_no_short_notes(k: nat, ds: Seq<RawDescriptorView>, n: int)
    requires
        0 <= n <= ds.len(),
    ensures
        short_notes(k, ds, n).len() == 0 <==> forall|i: int|
            0 <= i < n && !(#[trigger] ds[i]).truncated ==> (ds[i].descriptor_type == 4
                ==> ds[i].bytes.len() >= 9) && (ds[i].descriptor_type == 5 ==> ds[i].bytes.len()
                >= 7),
    decreases n,
{
    if n > 0 {
        lemma_no_short_notes(k, ds, n - 1);
        let d = ds[n - 1];
        assert(short_notes(k, ds, n) == short_notes(k, ds, n - 1) + short_note(k, d));
    }
}

proof fn lemma_no_endpoint_notes(k: nat, s: Seq<InterfaceView>, n: int)
    requires
        0 <= n <= s.len(),
    ensures
        endpoint_notes(k, s, n).len() == 0 <==> forall|i: int|
            0 <= i < n ==> (#[trigger] s[i]).descriptor.num_endpoints == s[i].endpoints.len(),
    decreases n,
{
    if n > 0 {
        lemma_no_endpoint_notes(k, s, n - 1);
        assert(endpoint_notes(k, s, n) == endpoint_notes(k, s, n - 1) + endpoint_note(k, s[n - 1]));
    }
}

/// Nothing is noted of a configuration that was read exactly if it starts with a whole
/// configuration descriptor, ends with a whole descriptor, has no interface or endpoint
/// descriptor that is too short, and its total length, its interface count and all its
/// endpoint counts are what was found.
pub proof fn sound_configuration_is_not_noted(k: nat, c: ConfigurationView, blob: Seq<u8>)
    ensures
        configuration_notes(k, c, blob).len() == 0 <==> {
            let ds = descriptors::walked(blob);
            &&& blob[0] == 9 && blob[1] == 2
            &&& ds.len() == 0 || !ds.last().truncated
            &&& forall|i: int|
                0 <= i < ds.len() && !(#[trigger] ds[i]).truncated ==> (ds[i].descriptor_type == 4
                    ==> ds[i].bytes.len() >= 9) && (ds[i].descriptor_type == 5
                    ==> ds[i].bytes.len() >= 7)
            &&& c.descriptor.total_length == blob.len()
            &&& c.descriptor.num_interfaces == interface_total(
                c.interfaces,
                c.interfaces.len() as int,
            )
            &&& forall|i: int|
                0 <= i < c.interfaces.len() ==> (#[trigger] c.interfaces[i]).descriptor.num_endpoints
                    == c.interfaces[i].endpoints.len()
        },
{
    let ds = descriptors::walked(blob);
    lemma_no_short_notes(k, ds, ds.len() as int);
    lemma_no_endpoint_notes(k, c.interfaces, c.interfaces.len() as int);
}

/// The interface numbers of the first `n` entries of a list.
pub open spec fn interface_numbers(s: Seq<InterfaceView>, n: int) -> Set<u8>
    decreases n,
{
    if n <= 0 {
        Set::empty()
    } else {
        interface_numbers(s, n - 1).insert(s[n - 1].descriptor.interface_number)
    }
}

/// Alternate settings belong to one interface: a list has as many interfaces as it has
/// different interface numbers.
pub proof fn interfaces_are_counted_by_number(s: Seq<InterfaceView>, n: int)
    requires
        0 <= n <= s.len(),
    ensures
        interface_total(s, n) == interface_numbers(s, n).len(),
        interface_numbers(s, n).finite(),
        forall|x: u8| #[trigger]
            interface_numbers(s, n).contains(x) <==> exists|j: int|
                0 <= j < n && (#[trigger] s[j]).descriptor.interface_number == x,
    decreases n,
{
    if n > 0 {
        interfaces_are_counted_by_number(s, n - 1);
        let x = s[n - 1].descriptor.interface_number;
        let before = interface_numbers(s, n - 1);
        if opens_interface(s, n - 1) {
            assert(!before.contains(x));
        } else {
            let j = choose|j: int|
                0 <= j < n - 1 && (#[trigger] s[j]).descriptor.interface_number == x;
            assert(before.contains(x));
            assert(before.insert(x) =~= before);
        }
        assert forall|y: u8| #[trigger]
            interface_numbers(s, n).contains(y) <==> exists|j: int|
                0 <= j < n && (#[trigger] s[j]).descriptor.interface_number == y by {
            if y == x {
                assert(s[n - 1].descriptor.interface_number == y);
            }
        }
    }
}

/// Nothing is noted of the answers to a configuration exactly if both requests were answered
/// without a STALL and without a bus error, and nothing is noted of what came.
pub proof fn sound_answers_are_not_noted(k: nat, a: ConfigurationAnswers)
    requires
        a.head is Err ==> a.blob is None,
        a.head is Ok ==> a.blob is Some,
    ensures
        answer_notes(k, a).len() == 0 <==> {
            &&& a.head is Ok && a.blob->0 is Ok
            &&& !(a.head->Ok_0).stalled && !((a.blob->0)->Ok_0).stalled
            &&& bus_error_total((a.head->Ok_0)@.errors) == 0
            &&& bus_error_total(((a.blob->0)->Ok_0)@.errors) == 0
            &&& configuration_of(a) is Ok
            &&& configuration_notes(
                k,
                configuration_of(a)->Ok_0,
                ((a.blob->0)->Ok_0).data@,
            ).len() == 0
        },
{
}

/// What is noted says what it is about and what is wrong: how much shorter, which count, how
/// many errors.
pub proof fn notes_say_what_is_wrong(
    k: nat,
    i: InterfaceView,
    d: RawDescriptorView,
    about: Seq<char>,
    c: ControlResult,
    b: Seq<u8>,
)
    ensures
        about_configuration(k) == "configuration "@ + text::decimal(k) + ": "@,
        bus_error_total(c@.errors) > 0 ==> bus_notes(about, Ok(c)) == seq![
            about + "bus errors: "@ + text::decimal(bus_error_total(c@.errors)),
        ],
        i.descriptor.num_endpoints != i.endpoints.len() ==> endpoint_note(k, i) == seq![
            about_configuration(k) + "interface "@ + text::decimal(
                i.descriptor.interface_number as nat,
            ) + " alternate "@ + text::decimal(i.descriptor.alternate_setting as nat)
                + " has bNumEndpoints "@ + text::decimal(i.descriptor.num_endpoints as nat)
                + " but "@ + text::decimal(i.endpoints.len()) + " endpoints"@,
        ],
        !d.truncated && d.descriptor_type == 4 && d.bytes.len() < 9 ==> short_note(k, d) == seq![
            about_configuration(k) + "interface descriptor of only "@ + text::decimal(
                d.bytes.len(),
            ) + " bytes"@,
        ],
        !d.truncated && d.descriptor_type == 5 && d.bytes.len() < 7 ==> short_note(k, d) == seq![
            about_configuration(k) + "endpoint descriptor of only "@ + text::decimal(d.bytes.len())
                + " bytes"@,
        ],
        ({
            let ds = descriptors::walked(b);
            &&& ds.len() == 0 || !ds.last().truncated ==> walk_defect(b) is None
            &&& ds.len() > 0 && ds.last().truncated && ds.last().length == 0 ==> walk_defect(b)
                == Some("descriptor with bLength 0"@)
            &&& ds.len() > 0 && ds.last().truncated && ds.last().length != 0 ==> walk_defect(b)
                == Some(
                "descriptor truncated: "@ + text::decimal(ds.last().bytes.len()) + " of "@
                    + text::decimal(ds.last().length as nat) + " bytes"@,
            )
        }),
        b.len() < 2 || b[1] != 3 ==> string_defect(b) == Some(
            "not a string descriptor ("@ + text::decimal(b.len()) + " bytes)"@,
        ),
        b.len() >= 2 && b[1] == 3 && b[0] != b.len() ==> string_defect(b) == Some(
            "bLength "@ + text::decimal(b[0] as nat) + " but "@ + text::decimal(b.len())
                + " bytes"@,
        ),
{
}

/// A configuration that is not what it says is told so, each mismatch on a line of its own: a
/// descriptor that is no configuration's, a total length and an interface count other than
/// what came.
pub proof fn mismatches_are_noted(k: nat, c: ConfigurationView, blob: Seq<u8>)
    ensures
        ({
            let notes = configuration_notes(k, c, blob);
            let about = "configuration "@ + text::decimal(k) + ": "@;
            let found = interface_total(c.interfaces, c.interfaces.len() as int);
            &&& blob[0] != 9 || blob[1] != 2 ==> notes.contains(
                about + "not a configuration descriptor (bLength "@ + text::decimal(
                    blob[0] as nat,
                ) + ", bDescriptorType 0x"@ + text::hex_fixed(blob[1] as nat, 2) + ")"@,
            )
            &&& walk_defect(blob) matches Some(why) ==> notes.contains(about + why)
            &&& c.descriptor.total_length != blob.len() ==> notes.contains(
                about + "wTotalLength "@ + text::decimal(c.descriptor.total_length as nat)
                    + " but "@ + text::decimal(blob.len()) + " bytes"@,
            )
            &&& c.descriptor.num_interfaces != found ==> notes.contains(
                about + "bNumInterfaces "@ + text::decimal(c.descriptor.num_interfaces as nat)
                    + " but "@ + text::decimal(found) + " interfaces"@,
            )
        }),
{
    let about = about_configuration(k);
    let found = interface_total(c.interfaces, c.interfaces.len() as int);
    let n1 = about + "not a configuration descriptor (bLength "@ + text::decimal(blob[0] as nat)
        + ", bDescriptorType 0x"@ + text::hex_fixed(blob[1] as nat, 2) + ")"@;
    let n4 = about + "wTotalLength "@ + text::decimal(c.descriptor.total_length as nat) + " but "@
        + text::decimal(blob.len()) + " bytes"@;
    let n5 = about + "bNumInterfaces "@ + text::decimal(c.descriptor.num_interfaces as nat)
        + " but "@ + text::decimal(found) + " interfaces"@;
    let a = note(blob[0] != 9 || blob[1] != descriptor_type::CONFIGURATION, n1);
    let b = match walk_defect(blob) {
        Some(why) => seq![about + why],
        None => Seq::empty(),
    };
    let d = short_notes(k, descriptors::walked(blob), descriptors::walked(blob).len() as int);
    let e = note(c.descriptor.total_length != blob.len(), n4);
    let f = note(c.descriptor.num_interfaces != found, n5);
    let g = endpoint_notes(k, c.interfaces, c.interfaces.len() as int);
    assert(configuration_notes(k, c, blob) == a + b + d + e + f + g);
    lemma_note(blob[0] != 9 || blob[1] != 2, n1);
    lemma_note(c.descriptor.total_length != blob.len(), n4);
    lemma_note(c.descriptor.num_interfaces != found, n5);
    lemma_line(a, b, n1);
    lemma_line(a + b, d, n1);
    lemma_line(a + b + d, e, n1);
    lemma_line(a + b + d + e, f, n1);
    lemma_line(a + b + d + e + f, g, n1);
    if let Some(why) = walk_defect(blob) {
        let n2 = about + why;
        assert(b[0] == n2);
        lemma_line(a, b, n2);
        lemma_line(a + b, d, n2);
        lemma_line(a + b + d, e, n2);
        lemma_line(a + b + d + e, f, n2);
        lemma_line(a + b + d + e + f, g, n2);
    }
    lemma_line(a + b + d, e, n4);
    lemma_line(a + b + d + e, f, n4);
    lemma_line(a + b + d + e + f, g, n4);
    lemma_line(a + b + d + e, f, n5);
    lemma_line(a + b + d + e + f, g, n5);
}

/// What is noted is in the order of the examination: the device descriptor, the languages, the
/// configurations by number, the strings by index; nothing is noted between them.
pub proof fn notes_are_in_order<H>(
    address: u8,
    t: ExamineTrace<H>,
    cfgs: Seq<ConfigurationAnswers>,
    a: ConfigurationAnswers,
    want: Seq<u8>,
    strs: Seq<Result<ControlResult>>,
    c: Result<ControlResult>,
)
    requires
        strs.len() < want.len(),
    ensures
        all_answer_notes(Seq::empty()) == Seq::<Seq<char>>::empty(),
        all_answer_notes(cfgs.push(a)) == all_answer_notes(cfgs) + answer_notes(cfgs.len(), a),
        all_string_notes(want, Seq::empty()) == Seq::<Seq<char>>::empty(),
        all_string_notes(want, strs.push(c)) == all_string_notes(want, strs) + string_notes(
            want[strs.len() as int],
            c,
        ),
        ({
            let m = examined(address, t);
            m.anomalies == device_notes(t.device->Ok_0) + string_notes(0, t.langids)
                + all_answer_notes(t.cfgs) + all_string_notes(
                wanted(m.device_descriptor, m.configurations, 255),
                t.strs,
            )
        }),
{
    assert(cfgs.push(a).drop_last() =~= cfgs);
    assert(strs.push(c).drop_last() =~= strs);
}

/// A device descriptor that came without a STALL and without a bus error is noted on one line,
/// for the first thing that is wrong with it: too short, of another type, or not as long as it
/// says.
pub proof fn odd_device_descriptor_is_noted(c: ControlResult)
    requires
        !c.stalled,
        bus_error_total(c@.errors) == 0,
    ensures
        ({
            let b = c.data@;
            &&& b.len() < 18 ==> device_notes(c) == seq![
                "device descriptor was "@ + text::decimal(b.len()) + " bytes (<18)"@,
            ]
            &&& b.len() >= 18 && b[1] != 1 ==> device_notes(c) == seq![
                "device descriptor: "@ + ("protocol error: "@ + (
                "not a device descriptor (bDescriptorType = 0x"@ + text::hex_fixed(
                    b[1] as nat,
                    2,
                ) + ")"@)),
            ]
            &&& b.len() >= 18 && b[1] == 1 && b[0] != b.len() ==> device_notes(c) == seq![
                "device descriptor: bLength "@ + text::decimal(b[0] as nat) + " but "@
                    + text::decimal(b.len()) + " bytes"@,
            ]
        }),
{
    let b = c.data@;
    if b.len() < 18 {
        let line = "device descriptor was "@ + text::decimal(b.len()) + " bytes (<18)"@;
        assert(device_notes(c) =~= seq![line]);
    } else if b[1] == 1 && b[0] != b.len() {
        let line = "device descriptor: bLength "@ + text::decimal(b[0] as nat) + " but "@
            + text::decimal(b.len()) + " bytes"@;
        assert(device_notes(c) =~= seq![line]);
    } else if b[1] != 1 {
        let why = "not a device descriptor (bDescriptorType = 0x"@ + text::hex_fixed(
            b[1] as nat,
            2,
        ) + ")"@;
        assert(device_notes(c) =~= seq!["device descriptor: "@ + ("protocol error: "@ + why)]);
    }
}

} // verus!

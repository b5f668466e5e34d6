//! A software mock of a Cynthion in host mode, plus a simulated attached device.
//!
//! It lets the host-side stack ([`crate::host`], [`crate::pd`], [`crate::power`])
//! be developed and tested before any gateware exists. The simulated device
//! answers the standard enumeration sequence, so [`UsbHost::enumerate`] works
//! end-to-end against it.

use std::collections::BTreeMap;
use std::time::Duration;

use vstd::prelude::*;
use vstd::slice::slice_subrange;
use vstd::slice::slice_to_vec;
use vstd::string::*;

use crate::bytes;
use crate::capture::Speed;
use crate::error;
use crate::error::ErrorView;
use crate::error::Result;
use crate::host;
use crate::host::descriptor_type;
use crate::host::descriptors;
use crate::host::descriptors::ConfigurationView;
use crate::host::descriptors::UsbDeviceModelView;
use crate::host::model;
use crate::host::model::EnumerateTrace;
use crate::host::request;
use crate::host::BusError;
use crate::host::BusErrorView;
use crate::host::ConfigurationAnswers;
use crate::host::ControlForensics;
use crate::host::ControlResult;
use crate::host::ControlResultView;
use crate::host::DeviceDescriptor;
use crate::host::Direction;
use crate::host::EnumeratedDeviceView;
use crate::host::Handshake;
use crate::host::HostModel;
use crate::host::Pid;
use crate::host::PortStatus;
use crate::host::RawTransaction;
use crate::host::RawTransactionView;
use crate::host::Setup;
use crate::host::TransactionResult;
use crate::host::TransactionResultView;
use crate::host::UsbHost;
use crate::host::WireEvent;
use crate::host::WireEventKind;
use crate::host::WireEventKindView;
use crate::host::WireEventView;
use crate::pd::CcOrientation;
use crate::pd::CcStatus;
use crate::pd::PdMessage;
use crate::pd::PdModel;
use crate::pd::PdPort;
use crate::pd::PowerDelivery;
use crate::power::MonitoredPort;
use crate::power::PortPower;
use crate::power::PowerModel;
use crate::power::PowerMonitor;
use crate::utf16;

verus! {

/// A simulated USB device the [`MockHost`] enumerates and talks to.
#[derive(Debug, Clone)]
pub struct VirtualDevice {
    pub device_descriptor: [u8; 18],
    pub config_descriptor: Vec<u8>,
    /// String descriptors keyed by `(index, langid)`.
    pub strings: BTreeMap<(u8, u16), String>,
    pub speed: Speed,
    /// Current device address (0 until SET_ADDRESS).
    pub address: u8,
}

/// What a [`VirtualDevice`] holds.
#[verifier::ext_equal]
pub struct VirtualDeviceView {
    pub device_descriptor: Seq<u8>,
    pub config_descriptor: Seq<u8>,
    pub strings: Map<(u8, u16), Seq<char>>,
    pub speed: Speed,
    pub address: u8,
}

impl View for VirtualDevice {
    type V = VirtualDeviceView;

    open spec fn view(&self) -> VirtualDeviceView {
        VirtualDeviceView {
            device_descriptor: self.device_descriptor@,
            config_descriptor: self.config_descriptor@,
            strings: descriptors::string_table(self.strings@),
            speed: self.speed,
            address: self.address,
        }
    }
}

/// Whether some string is in language `lang`.
pub open spec fn has_language(strings: Map<(u8, u16), Seq<char>>, lang: u16) -> bool {
    exists|i: u8| #[trigger] strings.dom().contains((i, lang))
}

/// The languages below `n` that some string is in, ascending.
pub open spec fn languages(strings: Map<(u8, u16), Seq<char>>, n: nat) -> Seq<u16>
    decreases n,
{
    if n == 0 {
        Seq::empty()
    } else if has_language(strings, (n - 1) as u16) {
        languages(strings, (n - 1) as nat).push((n - 1) as u16)
    } else {
        languages(strings, (n - 1) as nat)
    }
}

/// A string descriptor holding `units`: its length (in one byte), its type, and
/// the units.
pub open spec fn string_descriptor_bytes(units: Seq<u16>) -> Seq<u8> {
    seq![((2 + 2 * units.len()) % 256) as u8, descriptor_type::STRING] + utf16::units_le(units)
}

impl VirtualDeviceView {
    /// The languages the device lists: those of its strings, else US English.
    pub open spec fn listed_languages(self) -> Seq<u16> {
        let found = languages(self.strings, 0x10000);
        if found.len() == 0 {
            seq![0x0409u16]
        } else {
            found
        }
    }

    /// The bytes of a string descriptor; none when the device has no such string.
    pub open spec fn string_bytes(self, index: u8, langid: u16) -> Option<Seq<u8>> {
        if index == 0 {
            Some(string_descriptor_bytes(self.listed_languages()))
        } else if self.strings.dom().contains((index, langid)) {
            Some(string_descriptor_bytes(utf16::encode_utf16(self.strings[(index, langid)])))
        } else {
            None
        }
    }

    /// The bytes of a descriptor; none when the device has no such descriptor.
    pub open spec fn descriptor(self, desc_type: u8, index: u8, langid: u16) -> Option<Seq<u8>> {
        if desc_type == descriptor_type::DEVICE {
            Some(self.device_descriptor)
        } else if desc_type == descriptor_type::CONFIGURATION {
            Some(self.config_descriptor)
        } else if desc_type == descriptor_type::STRING {
            self.string_bytes(index, langid)
        } else {
            None
        }
    }
}

/// Decoding the descriptor of a text gives the text, for every text; and decoding
/// the descriptor of a language list gives the list.
pub proof fn string_descriptor_round_trip(s: Seq<char>, langids: Seq<u16>)
    ensures
        descriptors::StringDescriptor::text(string_descriptor_bytes(utf16::encode_utf16(s))) == s,
        descriptors::StringDescriptor::units(string_descriptor_bytes(langids)) == langids,
{
    lemma_descriptor_units(utf16::encode_utf16(s));
    lemma_descriptor_units(langids);
    utf16::decode_encode_round_trip(s);
}

proof fn lemma_descriptor_units(units: Seq<u16>)
    ensures
        descriptors::StringDescriptor::units(string_descriptor_bytes(units)) == units,
        string_descriptor_bytes(units).len() == 2 + 2 * units.len(),
{
    utf16::lemma_le_units_round_trip(units);
    assert(string_descriptor_bytes(units).skip(2) =~= utf16::units_le(units));
}

/// Every listed language is that of some string, and they ascend.
proof fn lemma_languages(strings: Map<(u8, u16), Seq<char>>, n: nat)
    requires
        n <= 0x10000,
    ensures
        forall|k: int|
            0 <= k < languages(strings, n).len() ==> (#[trigger] languages(strings, n)[k]) < n
                && has_language(strings, languages(strings, n)[k]),
        forall|l: u16|
            l < n && #[trigger] has_language(strings, l) ==> languages(strings, n).contains(l),
        ascending(languages(strings, n)),
    decreases n,
{
    if n > 0 {
        let p = (n - 1) as nat;
        let v = languages(strings, p);
        let w = languages(strings, n);
        lemma_languages(strings, p);
        assert forall|l: u16| l < n && #[trigger] has_language(strings, l) implies w.contains(l) by {
            if l == p as u16 {
                assert(w[v.len() as int] == l);
            } else {
                let j = choose|j: int| 0 <= j < v.len() && v[j] == l;
                assert(w[j] == l);
            }
        }
    }
}

/// Strictly ascending.
pub open spec fn ascending(s: Seq<u16>) -> bool {
    forall|i: int, j: int| 0 <= i < j < s.len() ==> s[i] < s[j]
}

/// Two ascending lists of the same numbers are the same list.
proof fn lemma_ascending_unique(a: Seq<u16>, b: Seq<u16>)
    requires
        ascending(a),
        ascending(b),
        forall|x: u16| a.contains(x) <==> b.contains(x),
    ensures
        a == b,
    decreases a.len(),
{
    if a.len() == 0 {
        if b.len() > 0 {
            assert(b.contains(b[0]));
        }
        assert(a =~= b);
    } else if b.len() == 0 {
        assert(a.contains(a[0]));
    } else {
        assert(b.contains(a.last())) by {
            assert(a.contains(a.last()));
        }
        assert(a.contains(b.last())) by {
            assert(b.contains(b.last()));
        }
        assert(a.last() == b.last());
        let (a1, b1) = (a.drop_last(), b.drop_last());
        assert forall|x: u16| a1.contains(x) <==> b1.contains(x) by {
            if a1.contains(x) {
                let j = choose|j: int| 0 <= j < a1.len() && a1[j] == x;
                assert(a[j] == x);
                assert(b.contains(x));
                let k = choose|k: int| 0 <= k < b.len() && b[k] == x;
                assert(b1[k] == x);
            }
            if b1.contains(x) {
                let j = choose|j: int| 0 <= j < b1.len() && b1[j] == x;
                assert(b[j] == x);
                assert(a.contains(x));
                let k = choose|k: int| 0 <= k < a.len() && a[k] == x;
                assert(a1[k] == x);
            }
        }
        lemma_ascending_unique(a1, b1);
        assert(a =~= a1.push(a.last()));
        assert(b =~= b1.push(b.last()));
    }
}

/// Put `x` in its place in an ascending list, unless it is there already.
fn insert_ascending(v: &mut Vec<u16>, x: u16)
    requires
        ascending(old(v)@),
    ensures
        ascending(final(v)@),
        forall|y: u16| #[trigger] final(v)@.contains(y) <==> old(v)@.contains(y) || y == x,
{
    let ghost start = v@;
    let mut i: usize = 0;
    while i < v.len()
        invariant
            v@ == start,
            start == old(v)@,
            ascending(start),
            i <= start.len(),
            forall|k: int| 0 <= k < i ==> start[k] < x,
        decreases start.len() - i,
    {
        if v[i] == x {
            assert(start.contains(x));
            return ;
        }
        if v[i] > x {
            v.insert(i, x);
            proof {
                lemma_inserted(start, i as int, x);
            }
            return ;
        }
        i = i + 1;
    }
    v.push(x);
    proof {
        lemma_inserted(start, i as int, x);
        assert(v@ =~= start.insert(i as int, x));
    }
}

proof fn lemma_inserted(s: Seq<u16>, i: int, x: u16)
    requires
        ascending(s),
        0 <= i <= s.len(),
        forall|k: int| 0 <= k < i ==> s[k] < x,
        forall|k: int| i <= k < s.len() ==> s[k] > x,
    ensures
        ascending(s.insert(i, x)),
        forall|y: u16| #[trigger] s.insert(i, x).contains(y) <==> s.contains(y) || y == x,
{
    let t = s.insert(i, x);
    assert(t[i] == x);
    assert forall|y: u16| #[trigger] t.contains(y) <==> s.contains(y) || y == x by {
        if s.contains(y) {
            let k = choose|k: int| 0 <= k < s.len() && s[k] == y;
            if k < i {
                assert(t[k] == y);
            } else {
                assert(t[k + 1] == y);
            }
        }
        if t.contains(y) && y != x {
            let k = choose|k: int| 0 <= k < t.len() && t[k] == y;
            if k < i {
                assert(s[k] == y);
            } else {
                assert(s[k - 1] == y);
            }
        }
    }
}

impl VirtualDevice {
    /// A full-speed device (VID `0x1209` / PID `0x0001`) with one vendor-class
    /// interface (two bulk endpoints) and a few string descriptors.
    pub fn example() -> (d: VirtualDevice)
        ensures
            d@ == VirtualDeviceView::example(),
    {
        let device_descriptor: [u8; 18] = [
            18,  // bLength
            descriptor_type::DEVICE,
            0x00,
            0x02,  // bcdUSB 2.00
            0,
            0,
            0,
            64,  // bMaxPacketSize0
            0x09,
            0x12,  // idVendor 0x1209
            0x01,
            0x00,  // idProduct 0x0001
            0x00,
            0x01,  // bcdDevice 1.00
            1,  // iManufacturer
            2,  // iProduct
            3,  // iSerialNumber
            1,  // bNumConfigurations
        ];

        // Config (str 5) + one vendor interface (str 4) + two bulk endpoints.
        let config_descriptor: [u8; 32] = [
            9, descriptor_type::CONFIGURATION, 32, 0, 1, 1, 5, 0xC0, 50,
            9, descriptor_type::INTERFACE, 0, 0, 2, 0xFF, 0x00, 0x00, 4,
            7, descriptor_type::ENDPOINT, 0x81, 0x02, 0x40, 0x00, 0x00,
            7, descriptor_type::ENDPOINT, 0x01, 0x02, 0x40, 0x00, 0x00,
        ];
        let mut strings: BTreeMap<(u8, u16), String> = BTreeMap::new();
        strings.insert((1, 0x0409), "usbmagic".to_owned());
        strings.insert((2, 0x0409), "Mock Device".to_owned());
        strings.insert((3, 0x0409), "SN-0001".to_owned());
        strings.insert((4, 0x0409), "Default Interface".to_owned());
        strings.insert((5, 0x0409), "Config 1".to_owned());
        let d = VirtualDevice {
            device_descriptor,
            config_descriptor: slice_to_vec(&config_descriptor),
            strings,
            speed: Speed::Full,
            address: 0,
        };
        assert(d@.strings =~= VirtualDeviceView::example().strings);
        assert(d@ =~= VirtualDeviceView::example());
        d
    }

    /// Build the on-wire bytes of string descriptor `index` in `langid`, or
    /// `None` if the device has no such string (the device STALLs).
    fn string_descriptor(&self, index: u8, langid: u16) -> (r: Option<Vec<u8>>)
        ensures
            match r {
                Some(d) => self@.string_bytes(index, langid) == Some(d@),
                None => self@.string_bytes(index, langid) is None,
            },
    {
        let mut d: Vec<u8> = Vec::new();
        d.push(0);
        d.push(descriptor_type::STRING);
        let ghost units;
        if index == 0 {
            // LANGID list (string index 0).
            let langs = self.langids();
            let ghost head = d@;
            proof {
                units = langs@;
                assert(langs@.take(0) =~= Seq::<u16>::empty());
            }
            let mut i: usize = 0;
            while i < langs.len()
                invariant
                    i <= langs@.len(),
                    d@ == head + utf16::units_le(langs@.take(i as int)),
                decreases langs@.len() - i,
            {
                bytes::push_le16(&mut d, langs[i]);
                proof {
                    let t = langs@.take(i + 1);
                    assert(t.drop_last() =~= langs@.take(i as int));
                    assert(d@ =~= head + utf16::units_le(t));
                }
                i = i + 1;
            }
            assert(langs@.take(i as int) =~= langs@);
        } else {
            let s = match self.strings.get(&(index, langid)) {
                Some(s) => s,
                None => return None,
            };
            utf16::push_utf16_le(&mut d, s.as_str());
            proof {
                units = utf16::encode_utf16(s@);
            }
        }
        proof {
            utf16::lemma_le_units_round_trip(units);
        }
        let n: usize = d.len();
        d.set(0, (n % 256) as u8);
        assert(d@ =~= string_descriptor_bytes(units));
        Some(d)
    }

    /// The languages the device lists.
    fn langids(&self) -> (langs: Vec<u16>)
        ensures
            langs@ == self@.listed_languages(),
    {
        broadcast use vstd::std_specs::btree::group_btree_axioms;

        let mut langs: Vec<u16> = Vec::new();
        let ghost strings = self@.strings;
        let ghost keys = vstd::std_specs::iter::IteratorSpec::remaining(
            &self.strings.keys(),
        ).unref();
        for k in it: self.strings.keys()
            invariant
                ascending(langs@),
                it.seq().unref() == keys,
                keys.to_set() == self.strings@.dom(),
                forall|l: u16|
                    #[trigger] langs@.contains(l) <==> exists|j: int|
                        0 <= j < it.index() && (#[trigger] keys[j]).1 == l,
        {
            let ghost before = langs@;
            let ghost n = it.index() as int;
            insert_ascending(&mut langs, k.1);
            assert(keys[n] == *k);
            assert forall|l: u16| #[trigger] langs@.contains(l) <==> exists|j: int|
                0 <= j < n + 1 && (#[trigger] keys[j]).1 == l by {
                if before.contains(l) {
                    let j = choose|j: int| 0 <= j < n && (#[trigger] keys[j]).1 == l;
                    assert(keys[j].1 == l);
                }
            }
        }
        proof {
            let all = languages(strings, 0x10000);
            lemma_languages(strings, 0x10000);
            assert forall|l: u16| langs@.contains(l) <==> all.contains(l) by {
                if langs@.contains(l) {
                    let j = choose|j: int| 0 <= j < keys.len() && (#[trigger] keys[j]).1 == l;
                    assert(keys.to_set().contains(keys[j]));
                    assert(strings.dom().contains((keys[j].0, l)));
                    assert(has_language(strings, l));
                }
                if all.contains(l) {
                    let m = choose|m: int| 0 <= m < all.len() && all[m] == l;
                    assert(has_language(strings, all[m]));
                    let i = choose|i: u8| #[trigger] strings.dom().contains((i, l));
                    assert(keys.to_set().contains((i, l)));
                    let j = choose|j: int| 0 <= j < keys.len() && keys[j] == (i, l);
                    assert(keys[j].1 == l);
                }
            }
            lemma_ascending_unique(langs@, all);
        }
        if langs.len() == 0 {
            langs.push(0x0409);
            assert(langs@ =~= seq![0x0409u16]);
        }
        langs
    }
}

impl VirtualDeviceView {
    /// The example device.
    pub open spec fn example() -> VirtualDeviceView {
        VirtualDeviceView {
            device_descriptor: seq![
                18u8, 1, 0x00, 0x02, 0, 0, 0, 64, 0x09, 0x12, 0x01, 0x00, 0x00, 0x01, 1, 2, 3, 1,
            ],
            config_descriptor: seq![
                9u8, 2, 32, 0, 1, 1, 5, 0xC0, 50,
                9, 4, 0, 0, 2, 0xFF, 0x00, 0x00, 4,
                7, 5, 0x81, 0x02, 0x40, 0x00, 0x00,
                7, 5, 0x01, 0x02, 0x40, 0x00, 0x00,
            ],
            strings: map![
                (1u8, 0x0409u16) => "usbmagic"@,
                (2u8, 0x0409u16) => "Mock Device"@,
                (3u8, 0x0409u16) => "SN-0001"@,
                (4u8, 0x0409u16) => "Default Interface"@,
                (5u8, 0x0409u16) => "Config 1"@,
            ],
            speed: Speed::Full,
            address: 0,
        }
    }
}

/// A mock host: an in-memory stand-in for the future Cynthion host backend.
///
/// Its simulated clock counts nanoseconds and wraps around at the end of its
/// 64-bit range.
pub struct MockHost {
    vbus: bool,
    clock_ns: u64,
    events: Vec<WireEvent>,
    device: VirtualDevice,
    pd_registers: [u8; 256],
    pd_inbox: Vec<PdMessage>,
    vconn: bool,
}

/// What a [`MockHost`] holds.
#[verifier::ext_equal]
pub struct MockHostView {
    pub vbus: bool,
    pub clock_ns: u64,
    /// The wire log not drained yet.
    pub events: Seq<WireEventView>,
    pub device: VirtualDeviceView,
    pub pd_registers: Seq<u8>,
    /// The PD messages sent and not received yet.
    pub pd_inbox: Seq<Seq<u8>>,
    pub vconn: bool,
}

/// What a list of messages holds.
pub open spec fn message_views(s: Seq<PdMessage>) -> Seq<Seq<u8>> {
    Seq::new(s.len(), |i: int| s[i]@)
}

impl View for MockHost {
    type V = MockHostView;

    closed spec fn view(&self) -> MockHostView {
        MockHostView {
            vbus: self.vbus,
            clock_ns: self.clock_ns,
            events: host::event_views(self.events@),
            device: self.device@,
            pd_registers: self.pd_registers@,
            pd_inbox: message_views(self.pd_inbox@),
            vconn: self.vconn,
        }
    }
}

impl MockHostView {
    /// A fresh host with the given device attached.
    pub open spec fn fresh(device: VirtualDeviceView) -> MockHostView {
        MockHostView {
            vbus: false,
            clock_ns: 0,
            events: Seq::empty(),
            device,
            pd_registers: Seq::new(256, |i: int| 0u8),
            pd_inbox: Seq::empty(),
            vconn: false,
        }
    }

    /// The host `ns` nanoseconds later.
    pub open spec fn ticked(self, ns: int) -> MockHostView {
        MockHostView {
            clock_ns: ((self.clock_ns + ns) % 0x1_0000_0000_0000_0000) as u64,
            ..self
        }
    }

    /// The host with one more entry in its wire log, stamped with the present time.
    pub open spec fn logged(self, kind: WireEventKindView) -> MockHostView {
        MockHostView {
            events: self.events.push(WireEventView { timestamp_ns: self.clock_ns, kind }),
            ..self
        }
    }

    /// The host with its device answering at `address`.
    pub open spec fn at_address(self, address: u8) -> MockHostView {
        MockHostView { device: VirtualDeviceView { address, ..self.device }, ..self }
    }

    /// The device's speed, seen only while VBUS is on.
    pub open spec fn seen_speed(self) -> Option<Speed> {
        if self.vbus {
            Some(self.device.speed)
        } else {
            None
        }
    }

    /// The host after switching VBUS.
    pub open spec fn after_vbus(self, on: bool) -> MockHostView {
        (MockHostView { vbus: on, ..self }).ticked(1_000).logged(
            if on {
                WireEventKindView::Connect(Some(self.device.speed))
            } else {
                WireEventKindView::Disconnect
            },
        )
    }

    /// The host after a bus reset: the device is back at the default address.
    pub open spec fn after_reset(self) -> MockHostView {
        self.ticked(10_000_000).at_address(0).logged(WireEventKindView::BusReset)
    }

    /// The host after a control transfer. The SETUP packet is logged; a device
    /// that is not at `address` times out, and one that is obeys SET_ADDRESS.
    pub open spec fn after_control(self, address: u8, setup: Seq<u8>) -> MockHostView {
        let begun = self.ticked(50_000).logged(
            WireEventKindView::Packet { pid: Pid::Setup, data: setup },
        );
        if address != self.device.address {
            begun.logged(WireEventKindView::Error(BusErrorView::Timeout))
        } else if setup[1] == request::SET_ADDRESS {
            begun.at_address(setup[2])
        } else {
            begun
        }
    }

    /// What the device replies with to a request addressed to it, before any
    /// violation: a descriptor cut to `stage_len`, nothing, or (`None`) a STALL.
    pub open spec fn reply(self, setup: Setup, stage_len: int) -> Option<Seq<u8>> {
        if setup.request == request::GET_DESCRIPTOR {
            match self.device.descriptor(
                (setup.value / 256) as u8,
                (setup.value % 256) as u8,
                setup.index,
            ) {
                Some(full) => Some(
                    if stage_len < full.len() {
                        full.take(stage_len)
                    } else {
                        full
                    },
                ),
                None => None,
            }
        } else if setup.request == request::SET_ADDRESS || setup.request
            == request::SET_CONFIGURATION {
            Some(Seq::empty())
        } else {
            None
        }
    }

    /// Whether the host asks for more bytes of a descriptor than there are.
    pub open spec fn asks_too_much(self, setup: Setup, stage_len: int) -> bool {
        &&& setup.request == request::GET_DESCRIPTOR
        &&& self.device.descriptor(
            (setup.value / 256) as u8,
            (setup.value % 256) as u8,
            setup.index,
        ) matches Some(full) && stage_len > full.len()
    }

    /// What a control transfer returns.
    pub open spec fn control_answer(
        self,
        address: u8,
        setup: Seq<u8>,
        opts: ControlForensics,
    ) -> ControlResultView {
        if address != self.device.address {
            ControlResultView {
                data: Seq::empty(),
                stalled: false,
                errors: seq![BusErrorView::Timeout],
                duration_ns: 50_000,
            }
        } else {
            let s = Setup::of_wire(setup);
            let stage_len: int = match opts.data_len_override {
                Some(n) => n as int,
                None => s.length as int,
            };
            let sent = match self.reply(s, stage_len) {
                Some(b) => b,
                None => Seq::empty(),
            };
            let cut = opts.flags.truncate && sent.len() > 0;
            let kept = if cut {
                sent.drop_last()
            } else {
                sent
            };
            ControlResultView {
                data: kept + Seq::new(opts.flags.extra_bytes as nat, |i: int| 0xCDu8),
                stalled: self.reply(s, stage_len) is None,
                errors: when(self.asks_too_much(s, stage_len), BusErrorView::ShortPacket)
                    + when(cut, BusErrorView::ShortPacket)
                    + when(opts.flags.extra_bytes > 0, BusErrorView::Babble)
                    + when(opts.flags.corrupt_crc, BusErrorView::Crc16)
                    + when(opts.flags.bad_pid_check, BusErrorView::PidCheck)
                    + when(opts.flags.crc5_error, BusErrorView::Crc5)
                    + when(
                        opts.skip_status,
                        BusErrorView::Other("control transfer had no status stage"@),
                    )
                    + when(
                        opts.status_wrong_dir,
                        BusErrorView::Other("status stage driven in the wrong direction"@),
                    ),
                duration_ns: 50_000,
            }
        }
    }

    /// What a bulk or interrupt transfer returns: the mock has no real endpoints,
    /// so a device at `address` acknowledges and sends nothing.
    pub open spec fn transfer_answer(self, address: u8) -> TransactionResultView {
        TransactionResultView {
            handshake: if address == self.device.address {
                Handshake::Ack
            } else {
                Handshake::Absent
            },
            data: Seq::empty(),
            start_ns: self.clock_ns,
            duration_ns: 20_000,
            errors: when(address != self.device.address, BusErrorView::Timeout),
        }
    }

    /// What a raw transaction returns: every violation asked for is reported.
    pub open spec fn transaction_answer(self, tx: RawTransactionView) -> TransactionResultView {
        TransactionResultView {
            handshake: if tx.address == self.device.address {
                Handshake::Ack
            } else {
                Handshake::Absent
            },
            data: Seq::empty(),
            start_ns: self.clock_ns,
            duration_ns: 10_000,
            errors: when(tx.flags.corrupt_crc, BusErrorView::Crc16)
                + when(tx.flags.bad_pid_check, BusErrorView::PidCheck)
                + when(tx.flags.crc5_error, BusErrorView::Crc5)
                + when(tx.flags.extra_bytes > 0, BusErrorView::Babble)
                + when(tx.flags.truncate, BusErrorView::ShortPacket)
                + when(tx.address != self.device.address, BusErrorView::Timeout),
        }
    }

    /// What the power monitor reads on a port.
    pub open spec fn power(self, port: MonitoredPort) -> PortPower {
        PortPower {
            voltage_mv: if self.vbus {
                5000
            } else {
                0
            },
            current_ma: if self.vbus && (port == MonitoredPort::TargetA || port
                == MonitoredPort::TargetC) {
                100
            } else {
                0
            },
        }
    }
}

/// The one-element list of `e` if `c` holds, else the empty list.
pub open spec fn when(c: bool, e: BusErrorView) -> Seq<BusErrorView> {
    if c {
        seq![e]
    } else {
        Seq::empty()
    }
}

/// Append `e` to the list if `c` holds.
fn push_when(errors: &mut Vec<BusError>, c: bool, e: BusError)
    ensures
        host::bus_error_views(final(errors)@) == host::bus_error_views(old(errors)@) + when(c, e@),
{
    let ghost before = errors@;
    if c {
        errors.push(e);
    }
    assert(host::bus_error_views(errors@) =~= host::bus_error_views(before) + when(c, e@));
}

impl MockHost {
    /// Create a mock host with the given simulated device attached.
    pub fn with_device(device: VirtualDevice) -> (h: MockHost)
        ensures
            h@ == MockHostView::fresh(device@),
    {
        let h = MockHost {
            vbus: false,
            clock_ns: 0,
            events: Vec::new(),
            device,
            pd_registers: [0u8; 256],
            pd_inbox: Vec::new(),
            vconn: false,
        };
        assert(h@ =~= MockHostView::fresh(device@));
        h
    }

    /// Create a mock host with the example full-speed device.
    pub fn new() -> (h: MockHost)
        ensures
            h@ == MockHostView::fresh(VirtualDeviceView::example()),
    {
        MockHost::with_device(VirtualDevice::example())
    }

    fn tick(&mut self, ns: u64) -> (now: u64)
        ensures
            now == old(self)@.clock_ns,
            final(self)@ == old(self)@.ticked(ns as int),
    {
        let now: u64 = self.clock_ns;
        self.clock_ns = now.wrapping_add(ns);
        now
    }

    fn log(&mut self, kind: WireEventKind)
        ensures
            final(self)@ == old(self)@.logged(kind@),
    {
        let timestamp_ns: u64 = self.clock_ns;
        let ghost before = self@;
        self.events.push(WireEvent { timestamp_ns, kind });
        assert(self@.events =~= before.logged(kind@).events);
    }

    /// Nanoseconds since `start`.
    fn since(&self, start: u64) -> (d: u64)
        ensures
            d == (self@.clock_ns - start) % 0x1_0000_0000_0000_0000,
    {
        self.clock_ns.wrapping_sub(start)
    }

    /// The bytes of a descriptor of the attached device.
    fn descriptor(&self, desc_type: u8, index: u8, langid: u16) -> (r: Option<Vec<u8>>)
        ensures
            match r {
                Some(d) => self@.device.descriptor(desc_type, index, langid) == Some(d@),
                None => self@.device.descriptor(desc_type, index, langid) is None,
            },
    {
        if desc_type == descriptor_type::DEVICE {
            Some(slice_to_vec(&self.device.device_descriptor))
        } else if desc_type == descriptor_type::CONFIGURATION {
            Some(slice_to_vec(self.device.config_descriptor.as_slice()))
        } else if desc_type == descriptor_type::STRING {
            self.device.string_descriptor(index, langid)
        } else {
            None
        }
    }
}

impl Default for MockHost {
    fn default() -> (h: MockHost)
        ensures
            h@ == MockHostView::fresh(VirtualDeviceView::example()),
    {
        MockHost::new()
    }
}

impl HostModel for MockHost {
    open spec fn set_vbus_step(pre: Self, on: bool, post: Self, r: Result<()>) -> bool {
        post@ == pre@.after_vbus(on) && r is Ok
    }

    open spec fn port_status_step(pre: Self, post: Self, r: Result<PortStatus>) -> bool {
        post == pre && r == Ok::<_, error::Error>(
            PortStatus {
                connected: pre@.vbus,
                speed: pre@.seen_speed(),
                vbus_mv: Some(
                    if pre@.vbus {
                        5000
                    } else {
                        0
                    },
                ),
                reset_in_progress: false,
            },
        )
    }

    open spec fn bus_reset_step(pre: Self, post: Self, r: Result<Option<Speed>>) -> bool {
        post@ == pre@.after_reset() && r == Ok::<_, error::Error>(pre@.seen_speed())
    }

    open spec fn control_step(
        pre: Self,
        address: u8,
        setup: Seq<u8>,
        data_out: Seq<u8>,
        opts: ControlForensics,
        post: Self,
        r: Result<ControlResult>,
    ) -> bool {
        &&& post@ == pre@.after_control(address, setup)
        &&& r matches Ok(c) && c@ == pre@.control_answer(address, setup, opts)
    }

    open spec fn transfer_step(
        pre: Self,
        address: u8,
        endpoint: u8,
        dir: Direction,
        data: Seq<u8>,
        max_len: usize,
        post: Self,
        r: Result<TransactionResult>,
    ) -> bool {
        &&& post@ == pre@.ticked(20_000)
        &&& r matches Ok(t) && t@ == pre@.transfer_answer(address)
    }

    open spec fn transaction_step(
        pre: Self,
        tx: RawTransactionView,
        post: Self,
        r: Result<TransactionResult>,
    ) -> bool {
        &&& post@ == pre@.ticked(10_000).logged(
            WireEventKindView::Packet { pid: tx.pid, data: tx.data },
        )
        &&& r matches Ok(t) && t@ == pre@.transaction_answer(tx)
    }

    open spec fn poll_step(pre: Self, post: Self, r: Result<Vec<WireEvent>>) -> bool {
        &&& post@ == (MockHostView { events: Seq::empty(), ..pre@ })
        &&& r matches Ok(es) && host::event_views(es@) == pre@.events
    }
}

impl UsbHost for MockHost {
    fn set_vbus(&mut self, on: bool) -> (r: Result<()>) {
        let ghost before = self@;
        self.vbus = on;
        assert(self@ =~= (MockHostView { vbus: on, ..before }));
        self.tick(1_000);
        if on {
            let speed = self.device.speed;
            self.log(WireEventKind::Connect(Some(speed)));
        } else {
            self.log(WireEventKind::Disconnect);
        }
        Ok(())
    }

    fn port_status(&mut self) -> (r: Result<PortStatus>) {
        Ok(
            PortStatus {
                connected: self.vbus,
                speed: if self.vbus {
                    Some(self.device.speed)
                } else {
                    None
                },
                vbus_mv: Some(
                    if self.vbus {
                        5000
                    } else {
                        0
                    },
                ),
                reset_in_progress: false,
            },
        )
    }

    fn bus_reset(&mut self) -> (r: Result<Option<Speed>>) {
        self.tick(10_000_000);  // ~10 ms reset
        self.device.address = 0;  // reset returns the device to the default address
        self.log(WireEventKind::BusReset);
        if self.vbus {
            Ok(Some(self.device.speed))
        } else {
            Ok(None)
        }
    }

    #[verifier::rlimit(40)]
    fn control_raw(
        &mut self,
        address: u8,
        setup_bytes: [u8; 8],
        _data_out: &[u8],
        opts: ControlForensics,
    ) -> (r: Result<ControlResult>) {
        let ghost before = self@;
        let start: u64 = self.tick(50_000);
        let setup = Setup::from_bytes(setup_bytes);
        self.log(
            WireEventKind::Packet { pid: Pid::Setup, data: slice_to_vec(&setup_bytes) },
        );

        let mut errors: Vec<BusError> = Vec::new();
        assert(host::bus_error_views(errors@) =~= Seq::<BusErrorView>::empty());
        // No device answers at an address other than its current one.
        if address != self.device.address {
            self.log(WireEventKind::Error(BusError::Timeout));
            push_when(&mut errors, true, BusError::Timeout);
            let c = ControlResult {
                data: Vec::new(),
                stalled: false,
                errors,
                duration_ns: self.since(start),
            };
            assert(c@ =~= before.control_answer(address, setup_bytes@, opts));
            return Ok(c);
        }

        // How many data bytes the host actually clocks (forensic override).
        let stage_len: usize = match opts.data_len_override {
            Some(n) => n,
            None => setup.length as usize,
        };
        let ghost reply = before.reply(setup, stage_len as int);
        let mut data: Vec<u8> = Vec::new();
        let mut stalled = false;
        if setup.request == request::GET_DESCRIPTOR {
            let desc_type: u8 = (setup.value / 256) as u8;
            let index: u8 = (setup.value % 256) as u8;
            match self.descriptor(desc_type, index, setup.index) {
                Some(bytes) => {
                    // The device returns at most what it has; asking for more
                    // (oversized) yields a short packet, not extra data.
                    push_when(&mut errors, stage_len > bytes.len(), BusError::ShortPacket);
                    if stage_len < bytes.len() {
                        data = slice_to_vec(slice_subrange(bytes.as_slice(), 0, stage_len));
                        assert(data@ =~= bytes@.take(stage_len as int));
                    } else {
                        data = bytes;
                    }
                },
                None => {
                    stalled = true;  // unknown/missing descriptor
                },
            }
        } else if setup.request == request::SET_ADDRESS {
            self.device.address = (setup.value % 256) as u8;
        } else if setup.request != request::SET_CONFIGURATION {
            stalled = true;  // unsupported request
        }
        assert(stalled == (reply is None));
        assert(reply matches Some(b) ==> data@ =~= b);
        assert(reply is None ==> data@ =~= Seq::<u8>::empty());
        assert(host::bus_error_views(errors@) =~= when(
            before.asks_too_much(setup, stage_len as int),
            BusErrorView::ShortPacket,
        ));

        // Reflect data-stage wire violations.
        let cut = opts.flags.truncate && data.len() > 0;
        if cut {
            data.pop();
        }
        push_when(&mut errors, cut, BusError::ShortPacket);
        let ghost kept = data@;
        let mut extra: usize = 0;
        assert(data@ =~= kept + Seq::new(0, |i: int| 0xCDu8));
        while extra < opts.flags.extra_bytes
            invariant
                extra <= opts.flags.extra_bytes,
                data@ == kept + Seq::new(extra as nat, |i: int| 0xCDu8),
            decreases opts.flags.extra_bytes - extra,
        {
            data.push(0xCD);
            extra = extra + 1;
            assert(data@ =~= kept + Seq::new(extra as nat, |i: int| 0xCDu8));
        }
        push_when(&mut errors, opts.flags.extra_bytes > 0, BusError::Babble);
        push_when(&mut errors, opts.flags.corrupt_crc, BusError::Crc16);
        push_when(&mut errors, opts.flags.bad_pid_check, BusError::PidCheck);
        push_when(&mut errors, opts.flags.crc5_error, BusError::Crc5);
        push_when(
            &mut errors,
            opts.skip_status,
            BusError::Other("control transfer had no status stage".to_owned()),
        );
        push_when(
            &mut errors,
            opts.status_wrong_dir,
            BusError::Other("status stage driven in the wrong direction".to_owned()),
        );
        let c = ControlResult { data, stalled, errors, duration_ns: self.since(start) };
        assert(c@ =~= before.control_answer(address, setup_bytes@, opts));
        assert(self@ =~= before.after_control(address, setup_bytes@));
        Ok(c)
    }

    fn transfer(
        &mut self,
        address: u8,
        _endpoint: u8,
        _dir: Direction,
        _data: &[u8],
        _max_len: usize,
    ) -> (r: Result<TransactionResult>) {
        let ghost before = self@;
        let start: u64 = self.tick(20_000);
        let mut errors: Vec<BusError> = Vec::new();
        assert(host::bus_error_views(errors@) =~= Seq::<BusErrorView>::empty());
        // The mock has no real endpoints: ACK with empty IN data / accept OUT.
        let handshake = if address == self.device.address {
            Handshake::Ack
        } else {
            Handshake::Absent
        };
        push_when(&mut errors, address != self.device.address, BusError::Timeout);
        let t = TransactionResult {
            handshake,
            data: Vec::new(),
            start_ns: start,
            duration_ns: self.since(start),
            errors,
        };
        assert(t@ =~= before.transfer_answer(address));
        Ok(t)
    }

    fn raw_transaction(&mut self, tx: RawTransaction) -> (r: Result<TransactionResult>) {
        let ghost before = self@;
        let start: u64 = self.tick(10_000);
        // Faithfully reflect forensic intent in the wire log.
        let mut errors: Vec<BusError> = Vec::new();
        assert(host::bus_error_views(errors@) =~= Seq::<BusErrorView>::empty());
        push_when(&mut errors, tx.flags.corrupt_crc, BusError::Crc16);
        push_when(&mut errors, tx.flags.bad_pid_check, BusError::PidCheck);
        push_when(&mut errors, tx.flags.crc5_error, BusError::Crc5);
        push_when(&mut errors, tx.flags.extra_bytes > 0, BusError::Babble);
        push_when(&mut errors, tx.flags.truncate, BusError::ShortPacket);
        push_when(&mut errors, tx.address != self.device.address, BusError::Timeout);
        let handshake = if tx.address == self.device.address {
            Handshake::Ack
        } else {
            Handshake::Absent
        };
        self.log(WireEventKind::Packet { pid: tx.pid, data: tx.data });
        let t = TransactionResult {
            handshake,
            data: Vec::new(),
            start_ns: start,
            duration_ns: self.since(start),
            errors,
        };
        assert(t@ =~= before.transaction_answer(tx@));
        Ok(t)
    }

    fn poll_events(&mut self) -> (r: Result<Vec<WireEvent>>) {
        let ghost before = self@;
        let mut out: Vec<WireEvent> = Vec::new();
        std::mem::swap(&mut out, &mut self.events);
        assert(self@ =~= (MockHostView { events: Seq::empty(), ..before }));
        Ok(out)
    }
}

impl PdModel for MockHost {
    open spec fn cc_status_step(pre: Self, port: PdPort, post: Self, r: Result<CcStatus>) -> bool {
        post == pre && r == Ok::<_, error::Error>(
            CcStatus {
                attached: pre@.vbus,
                orientation: if pre@.vbus {
                    CcOrientation::Cc1
                } else {
                    CcOrientation::Open
                },
                vconn: pre@.vconn,
                is_source: true,
            },
        )
    }

    open spec fn set_vconn_step(
        pre: Self,
        port: PdPort,
        on: bool,
        post: Self,
        r: Result<()>,
    ) -> bool {
        post@ == (MockHostView { vconn: on, ..pre@ }) && r is Ok
    }

    open spec fn send_step(
        pre: Self,
        port: PdPort,
        message: Seq<u8>,
        post: Self,
        r: Result<()>,
    ) -> bool {
        post@ == (MockHostView { pd_inbox: pre@.pd_inbox.push(message), ..pre@ }) && r is Ok
    }

    open spec fn recv_step(
        pre: Self,
        port: PdPort,
        timeout: Duration,
        post: Self,
        r: Result<Option<PdMessage>>,
    ) -> bool {
        if pre@.pd_inbox.len() == 0 {
            post@ == pre@ && r == Ok::<_, error::Error>(None::<PdMessage>)
        } else {
            &&& post@ == (MockHostView { pd_inbox: pre@.pd_inbox.skip(1), ..pre@ })
            &&& r matches Ok(Some(m)) && m@ == pre@.pd_inbox[0]
        }
    }

    open spec fn read_register_step(
        pre: Self,
        port: PdPort,
        reg: u8,
        post: Self,
        r: Result<u8>,
    ) -> bool {
        post == pre && r == Ok::<_, error::Error>(pre@.pd_registers[reg as int])
    }

    open spec fn write_register_step(
        pre: Self,
        port: PdPort,
        reg: u8,
        value: u8,
        post: Self,
        r: Result<()>,
    ) -> bool {
        post@ == (MockHostView {
            pd_registers: pre@.pd_registers.update(reg as int, value),
            ..pre@
        }) && r is Ok
    }
}

impl PowerDelivery for MockHost {
    fn cc_status(&mut self, _port: PdPort) -> (r: Result<CcStatus>) {
        Ok(
            CcStatus {
                attached: self.vbus,
                orientation: if self.vbus {
                    CcOrientation::Cc1
                } else {
                    CcOrientation::Open
                },
                vconn: self.vconn,
                is_source: true,
            },
        )
    }

    fn set_vconn(&mut self, _port: PdPort, on: bool) -> (r: Result<()>) {
        self.vconn = on;
        Ok(())
    }

    fn pd_send(&mut self, _port: PdPort, message: &PdMessage) -> (r: Result<()>) {
        // Loopback: a sent message becomes receivable, useful for tests.
        let ghost before = self@;
        self.pd_inbox.push(PdMessage { raw: slice_to_vec(message.raw.as_slice()) });
        assert(self@.pd_inbox =~= before.pd_inbox.push(message@));
        Ok(())
    }

    fn pd_recv(&mut self, _port: PdPort, _timeout: Duration) -> (r: Result<Option<PdMessage>>) {
        let ghost before = self@;
        if self.pd_inbox.len() == 0 {
            return Ok(None);
        }
        let m = self.pd_inbox.remove(0);
        assert(self@.pd_inbox =~= before.pd_inbox.skip(1));
        Ok(Some(m))
    }

    fn controller_read(&mut self, _port: PdPort, reg: u8) -> (r: Result<u8>) {
        Ok(self.pd_registers[reg as usize])
    }

    fn controller_write(&mut self, _port: PdPort, reg: u8, value: u8) -> (r: Result<()>) {
        self.pd_registers[reg as usize] = value;
        Ok(())
    }
}

impl PowerModel for MockHost {
    open spec fn read_step(
        pre: Self,
        port: MonitoredPort,
        post: Self,
        r: Result<PortPower>,
    ) -> bool {
        post == pre && r == Ok::<_, error::Error>(pre@.power(port))
    }
}

impl PowerMonitor for MockHost {
    fn read(&mut self, port: MonitoredPort) -> (r: Result<PortPower>) {
        let sourcing = self.vbus && (port == MonitoredPort::TargetA || port
            == MonitoredPort::TargetC);
        Ok(
            PortPower {
                voltage_mv: if self.vbus {
                    5000
                } else {
                    0
                },
                current_ma: if sourcing {
                    100
                } else {
                    0
                },
            },
        )
    }
}

// What holds of the simulated host as a whole.

/// Enumerating against the simulated device always runs to the end. It succeeds
/// exactly when the device's descriptor is marked as a device descriptor, and
/// then reports address 1, the speed seen while VBUS is on, and the descriptor.
/// Either way the device ends up at address 1, and the log gains the reset and
/// the three SETUP packets, in that order.
pub proof fn enumerate_against_mock(
    pre: MockHost,
    post: MockHost,
    r: core::result::Result<EnumeratedDeviceView, ErrorView>,
)
    requires
        model::enumerates(pre, post, r),
    ensures
        ({
            let dd = pre@.device.device_descriptor;
            r == (if dd[1] == descriptor_type::DEVICE {
                Ok::<_, ErrorView>(
                    EnumeratedDeviceView {
                        address: 1,
                        speed: pre@.seen_speed(),
                        device_descriptor: DeviceDescriptor::fields(dd),
                        raw_device_descriptor: dd,
                    },
                )
            } else {
                Err(ErrorView::Protocol(DeviceDescriptor::defect(dd)->0))
            })
        }),
        post@.device == (VirtualDeviceView { address: 1, ..pre@.device }),
        post@.vbus == pre@.vbus,
        post@.events.len() == pre@.events.len() + 4,
        post@.events.take(pre@.events.len() as int) == pre@.events,
        post@.events[pre@.events.len() as int].kind == WireEventKindView::BusReset,
        forall|i: int|
            1 <= i < 4 ==> (#[trigger] post@.events[pre@.events.len() + i]).kind == (
            WireEventKindView::Packet {
                pid: Pid::Setup,
                data: if i == 1 {
                    Setup::descriptor_request(descriptor_type::DEVICE, 0, 0, 8).wire()
                } else if i == 2 {
                    Setup::address_request(1).wire()
                } else {
                    Setup::descriptor_request(descriptor_type::DEVICE, 0, 0, 18).wire()
                },
            }),
{
    let t = choose|t: EnumerateTrace<MockHost>| model::enumerate_run(pre, t, post, r);
    let dd = pre@.device.device_descriptor;
    assert(dd.len() == 18);
    host::setup_round_trip(Setup::descriptor_request(descriptor_type::DEVICE, 0, 0, 8));
    host::setup_round_trip(Setup::address_request(1));
    host::setup_round_trip(Setup::descriptor_request(descriptor_type::DEVICE, 0, 0, 18));
    let head = t.head->Ok_0;
    assert(head@.data =~= dd.take(8));
    let full = t.full->Ok_0;
    assert(full@.data =~= dd);
    assert(post@.events.take(pre@.events.len() as int) =~= pre@.events);
}

/// A control transfer hides no violation: each one asked for is reported, and each
/// one reported was asked for. (A data stage without bytes has none to cut, and a
/// device that has less than was asked for sends a short packet of its own.) One
/// asked of an address where no device is reports the timeout instead.
pub proof fn control_reports_violations(
    m: MockHostView,
    address: u8,
    setup: Seq<u8>,
    opts: ControlForensics,
)
    ensures
        ({
            let errors = m.control_answer(address, setup, opts).errors;
            let s = Setup::of_wire(setup);
            let stage_len: int = match opts.data_len_override {
                Some(n) => n as int,
                None => s.length as int,
            };
            if address != m.device.address {
                errors == seq![BusErrorView::Timeout]
            } else {
                &&& opts.flags.extra_bytes > 0 <==> errors.contains(BusErrorView::Babble)
                &&& opts.flags.corrupt_crc <==> errors.contains(BusErrorView::Crc16)
                &&& opts.flags.bad_pid_check <==> errors.contains(BusErrorView::PidCheck)
                &&& opts.flags.crc5_error <==> errors.contains(BusErrorView::Crc5)
                &&& (m.asks_too_much(s, stage_len) || (opts.flags.truncate && (m.reply(
                    s,
                    stage_len,
                ) matches Some(b) && b.len() > 0))) <==> errors.contains(
                    BusErrorView::ShortPacket,
                )
                &&& opts.skip_status <==> errors.contains(
                    BusErrorView::Other("control transfer had no status stage"@),
                )
                &&& opts.status_wrong_dir <==> errors.contains(
                    BusErrorView::Other("status stage driven in the wrong direction"@),
                )
                &&& !errors.contains(BusErrorView::Timeout)
            }
        }),
{
    reveal_strlit("control transfer had no status stage");
    reveal_strlit("status stage driven in the wrong direction");
    let skipped = BusErrorView::Other("control transfer had no status stage"@);
    let wrong_dir = BusErrorView::Other("status stage driven in the wrong direction"@);
    assert("control transfer had no status stage"@[0]
        != "status stage driven in the wrong direction"@[0]);
    if address == m.device.address {
        lemma_reported(m, setup, opts, BusErrorView::Babble);
        lemma_reported(m, setup, opts, BusErrorView::Crc16);
        lemma_reported(m, setup, opts, BusErrorView::PidCheck);
        lemma_reported(m, setup, opts, BusErrorView::Crc5);
        lemma_reported(m, setup, opts, BusErrorView::ShortPacket);
        lemma_reported(m, setup, opts, skipped);
        lemma_reported(m, setup, opts, wrong_dir);
        lemma_reported(m, setup, opts, BusErrorView::Timeout);
    }
}

/// What a control transfer to the device reports, and for which reason.
proof fn lemma_reported(
    m: MockHostView,
    setup: Seq<u8>,
    opts: ControlForensics,
    x: BusErrorView,
)
    ensures
        ({
            let s = Setup::of_wire(setup);
            let stage_len: int = match opts.data_len_override {
                Some(n) => n as int,
                None => s.length as int,
            };
            m.control_answer(m.device.address, setup, opts).errors.contains(x) <==> {
                ||| x == BusErrorView::ShortPacket && (m.asks_too_much(s, stage_len) || (
                opts.flags.truncate && (m.reply(s, stage_len) matches Some(b) && b.len() > 0)))
                ||| x == BusErrorView::Babble && opts.flags.extra_bytes > 0
                ||| x == BusErrorView::Crc16 && opts.flags.corrupt_crc
                ||| x == BusErrorView::PidCheck && opts.flags.bad_pid_check
                ||| x == BusErrorView::Crc5 && opts.flags.crc5_error
                ||| x == BusErrorView::Other("control transfer had no status stage"@)
                    && opts.skip_status
                ||| x == BusErrorView::Other("status stage driven in the wrong direction"@)
                    && opts.status_wrong_dir
            }
        }),
{
    let s = Setup::of_wire(setup);
    let stage_len: int = match opts.data_len_override {
        Some(n) => n as int,
        None => s.length as int,
    };
    let sent = match m.reply(s, stage_len) {
        Some(b) => b,
        None => Seq::empty(),
    };
    let cut = opts.flags.truncate && sent.len() > 0;
    let skipped = BusErrorView::Other("control transfer had no status stage"@);
    let wrong_dir = BusErrorView::Other("status stage driven in the wrong direction"@);
    let e1 = when(m.asks_too_much(s, stage_len), BusErrorView::ShortPacket);
    let e2 = e1 + when(cut, BusErrorView::ShortPacket);
    let e3 = e2 + when(opts.flags.extra_bytes > 0, BusErrorView::Babble);
    let e4 = e3 + when(opts.flags.corrupt_crc, BusErrorView::Crc16);
    let e5 = e4 + when(opts.flags.bad_pid_check, BusErrorView::PidCheck);
    let e6 = e5 + when(opts.flags.crc5_error, BusErrorView::Crc5);
    let e7 = e6 + when(opts.skip_status, skipped);
    lemma_when(m.asks_too_much(s, stage_len), BusErrorView::ShortPacket);
    lemma_added(e1, cut, BusErrorView::ShortPacket, x);
    lemma_added(e2, opts.flags.extra_bytes > 0, BusErrorView::Babble, x);
    lemma_added(e3, opts.flags.corrupt_crc, BusErrorView::Crc16, x);
    lemma_added(e4, opts.flags.bad_pid_check, BusErrorView::PidCheck, x);
    lemma_added(e5, opts.flags.crc5_error, BusErrorView::Crc5, x);
    lemma_added(e6, opts.skip_status, skipped, x);
    lemma_added(e7, opts.status_wrong_dir, wrong_dir, x);
}

proof fn lemma_added(a: Seq<BusErrorView>, c: bool, e: BusErrorView, x: BusErrorView)
    ensures
        (a + when(c, e)).contains(x) <==> a.contains(x) || (c && x == e),
{
    let all = a + when(c, e);
    if a.contains(x) {
        let k = choose|k: int| 0 <= k < a.len() && a[k] == x;
        assert(all[k] == x);
    }
    if c {
        assert(all[a.len() as int] == e);
    }
    if all.contains(x) {
        let k = choose|k: int| 0 <= k < all.len() && all[k] == x;
        if k < a.len() {
            assert(a[k] == x);
        }
    }
}

proof fn lemma_when(c: bool, e: BusErrorView)
    ensures
        forall|x: BusErrorView| #[trigger] when(c, e).contains(x) <==> c && x == e,
{
    if c {
        assert(when(c, e)[0] == e);
    }
}

/// A raw transaction reports each violation that was asked for, each one that is
/// reported was asked for, and nobody answers at an address that is not assigned.
pub proof fn transaction_reports_violations(m: MockHostView, tx: RawTransactionView)
    ensures
        ({
            let a = m.transaction_answer(tx);
            &&& tx.flags.corrupt_crc <==> a.errors.contains(BusErrorView::Crc16)
            &&& tx.flags.bad_pid_check <==> a.errors.contains(BusErrorView::PidCheck)
            &&& tx.flags.crc5_error <==> a.errors.contains(BusErrorView::Crc5)
            &&& tx.flags.extra_bytes > 0 <==> a.errors.contains(BusErrorView::Babble)
            &&& tx.flags.truncate <==> a.errors.contains(BusErrorView::ShortPacket)
            &&& tx.address != m.device.address <==> a.errors.contains(BusErrorView::Timeout)
            &&& tx.address != m.device.address <==> a.handshake == Handshake::Absent
        }),
{
    broadcast use vstd::seq_lib::group_seq_properties;

    lemma_when(tx.flags.corrupt_crc, BusErrorView::Crc16);
    lemma_when(tx.flags.bad_pid_check, BusErrorView::PidCheck);
    lemma_when(tx.flags.crc5_error, BusErrorView::Crc5);
    lemma_when(tx.flags.extra_bytes > 0, BusErrorView::Babble);
    lemma_when(tx.flags.truncate, BusErrorView::ShortPacket);
    lemma_when(tx.address != m.device.address, BusErrorView::Timeout);
}

/// Asking the device for more of a descriptor than there is gives the whole of
/// it, and a short packet is reported; asking for less gives that much of it.
pub proof fn descriptor_length_is_honored(
    m: MockHostView,
    desc_type: u8,
    index: u8,
    lang: u16,
    len: u16,
)
    requires
        m.device.descriptor(desc_type, index, lang) is Some,
    ensures
        ({
            let full = m.device.descriptor(desc_type, index, lang)->0;
            let a = m.control_answer(
                m.device.address,
                Setup::descriptor_request(desc_type, index, lang, len).wire(),
                ControlForensics::compliant(),
            );
            &&& !a.stalled
            &&& len >= full.len() ==> a.data == full
            &&& len <= full.len() ==> a.data == full.take(len as int)
            &&& a.errors == when(len > full.len(), BusErrorView::ShortPacket)
        }),
{
    let s = Setup::descriptor_request(desc_type, index, lang, len);
    let full = m.device.descriptor(desc_type, index, lang)->0;
    host::setup_round_trip(s);
    assert(s.value / 256 == desc_type && s.value % 256 == index);
    let a = m.control_answer(m.device.address, s.wire(), ControlForensics::compliant());
    assert(a.data =~= if len < full.len() {
        full.take(len as int)
    } else {
        full
    });
    if len == full.len() {
        assert(full.take(len as int) =~= full);
    }
    assert(a.errors =~= when(len > full.len(), BusErrorView::ShortPacket));
}

/// The data stage runs for as many bytes as the override says, whatever the SETUP
/// packet declares.
pub proof fn length_override_is_honored(
    m: MockHostView,
    desc_type: u8,
    index: u8,
    lang: u16,
    len: u16,
    actual: usize,
)
    requires
        m.device.descriptor(desc_type, index, lang) is Some,
    ensures
        ({
            let full = m.device.descriptor(desc_type, index, lang)->0;
            let a = m.control_answer(
                m.device.address,
                Setup::descriptor_request(desc_type, index, lang, len).wire(),
                ControlForensics {
                    data_len_override: Some(actual),
                    ..ControlForensics::compliant()
                },
            );
            a.data == if actual < full.len() {
                full.take(actual as int)
            } else {
                full
            }
        }),
{
    let s = Setup::descriptor_request(desc_type, index, lang, len);
    let full = m.device.descriptor(desc_type, index, lang)->0;
    host::setup_round_trip(s);
    assert(s.value / 256 == desc_type && s.value % 256 == index);
    let a = m.control_answer(
        m.device.address,
        s.wire(),
        ControlForensics { data_len_override: Some(actual), ..ControlForensics::compliant() },
    );
    assert(a.data =~= if actual < full.len() {
        full.take(actual as int)
    } else {
        full
    });
}

/// Draining the log gives all of it, in order, and leaves nothing for a second drain.
pub proof fn draining_empties_the_log(
    pre: MockHost,
    mid: MockHost,
    post: MockHost,
    first: Result<Vec<WireEvent>>,
    second: Result<Vec<WireEvent>>,
)
    requires
        MockHost::poll_step(pre, mid, first),
        MockHost::poll_step(mid, post, second),
    ensures
        first matches Ok(es) && host::event_views(es@) == pre@.events,
        second matches Ok(es) && es@.len() == 0,
        post@ == mid@,
{
    let es = second->Ok_0;
    assert(host::event_views(es@).len() == 0);
    assert(post@ =~= mid@);
}

/// The log is in order of time, and no entry is later than now.
pub open spec fn log_in_order(m: MockHostView) -> bool {
    &&& forall|i: int, j: int|
        0 <= i <= j < m.events.len() ==> (#[trigger] m.events[i]).timestamp_ns <= (
        #[trigger] m.events[j]).timestamp_ns
    &&& forall|i: int|
        0 <= i < m.events.len() ==> (#[trigger] m.events[i]).timestamp_ns <= m.clock_ns
}

/// Every operation keeps the log in order of time, until the clock wraps around.
pub proof fn log_stays_in_order(
    m: MockHostView,
    on: bool,
    address: u8,
    setup: Seq<u8>,
    tx: RawTransactionView,
)
    requires
        log_in_order(m),
        m.clock_ns + 10_000_000 < 0x1_0000_0000_0000_0000,
    ensures
        log_in_order(m.after_vbus(on)),
        log_in_order(m.after_reset()),
        log_in_order(m.after_control(address, setup)),
        log_in_order(m.ticked(20_000)),
        log_in_order(
            m.ticked(10_000).logged(WireEventKindView::Packet { pid: tx.pid, data: tx.data }),
        ),
        log_in_order(MockHostView { events: Seq::empty(), ..m }),
{
}

/// A call of one of the traits that a [`MockHost`] implements.
pub enum HostCall {
    SetVbus(bool),
    PortStatus,
    BusReset,
    Control { address: u8, setup: Seq<u8>, data_out: Seq<u8>, opts: ControlForensics },
    Transfer { address: u8, endpoint: u8, dir: Direction, data: Seq<u8>, max_len: usize },
    Transaction(RawTransactionView),
    PollEvents,
    CcStatus(PdPort),
    SetVconn(PdPort, bool),
    Send(PdPort, Seq<u8>),
    Recv(PdPort, Duration),
    ReadRegister(PdPort, u8),
    WriteRegister(PdPort, u8, u8),
    ReadPower(MonitoredPort),
}

/// A call may lead from `pre` to `post`.
pub open spec fn takes(pre: MockHost, c: HostCall, post: MockHost) -> bool {
    match c {
        HostCall::SetVbus(on) => exists|r: Result<()>| MockHost::set_vbus_step(pre, on, post, r),
        HostCall::PortStatus => exists|r: Result<PortStatus>|
            MockHost::port_status_step(pre, post, r),
        HostCall::BusReset => exists|r: Result<Option<Speed>>|
            MockHost::bus_reset_step(pre, post, r),
        HostCall::Control { address, setup, data_out, opts } => exists|r: Result<ControlResult>|
            MockHost::control_step(pre, address, setup, data_out, opts, post, r),
        HostCall::Transfer { address, endpoint, dir, data, max_len } => exists|
            r: Result<TransactionResult>,
        |
            MockHost::transfer_step(pre, address, endpoint, dir, data, max_len, post, r),
        HostCall::Transaction(tx) => exists|r: Result<TransactionResult>|
            MockHost::transaction_step(pre, tx, post, r),
        HostCall::PollEvents => exists|r: Result<Vec<WireEvent>>|
            MockHost::poll_step(pre, post, r),
        HostCall::CcStatus(port) => exists|r: Result<CcStatus>|
            MockHost::cc_status_step(pre, port, post, r),
        HostCall::SetVconn(port, on) => exists|r: Result<()>|
            MockHost::set_vconn_step(pre, port, on, post, r),
        HostCall::Send(port, message) => exists|r: Result<()>|
            MockHost::send_step(pre, port, message, post, r),
        HostCall::Recv(port, timeout) => exists|r: Result<Option<PdMessage>>|
            MockHost::recv_step(pre, port, timeout, post, r),
        HostCall::ReadRegister(port, reg) => exists|r: Result<u8>|
            MockHost::read_register_step(pre, port, reg, post, r),
        HostCall::WriteRegister(port, reg, value) => exists|r: Result<()>|
            MockHost::write_register_step(pre, port, reg, value, post, r),
        HostCall::ReadPower(port) => exists|r: Result<PortPower>|
            MockHost::read_step(pre, port, post, r),
    }
}

/// How long a call takes on the simulated clock, in nanoseconds.
pub open spec fn duration(c: HostCall) -> int {
    match c {
        HostCall::SetVbus(_) => 1_000,
        HostCall::BusReset => 10_000_000,
        HostCall::Control { .. } => 50_000,
        HostCall::Transfer { .. } => 20_000,
        HostCall::Transaction(_) => 10_000,
        _ => 0,
    }
}

/// What a call puts on the wire log of `m`, in order.
pub open spec fn logged_kinds(m: MockHostView, c: HostCall) -> Seq<WireEventKindView> {
    match c {
        HostCall::SetVbus(on) => seq![
            if on {
                WireEventKindView::Connect(Some(m.device.speed))
            } else {
                WireEventKindView::Disconnect
            },
        ],
        HostCall::BusReset => seq![WireEventKindView::BusReset],
        HostCall::Control { address, setup, .. } => {
            let packet = WireEventKindView::Packet { pid: Pid::Setup, data: setup };
            if address != m.device.address {
                seq![packet, WireEventKindView::Error(BusErrorView::Timeout)]
            } else {
                seq![packet]
            }
        },
        HostCall::Transaction(tx) => seq![
            WireEventKindView::Packet { pid: tx.pid, data: tx.data },
        ],
        _ => Seq::empty(),
    }
}

/// The log entries that a call adds: stamped with the time at its end.
pub open spec fn logged_events(m: MockHostView, c: HostCall) -> Seq<WireEventView> {
    let kinds = logged_kinds(m, c);
    let now = ((m.clock_ns + duration(c)) % 0x1_0000_0000_0000_0000) as u64;
    Seq::new(kinds.len(), |i: int| WireEventView { timestamp_ns: now, kind: kinds[i] })
}

/// A history of a host: each call leads from one host to the next.
pub open spec fn history(hosts: Seq<MockHost>, calls: Seq<HostCall>) -> bool {
    &&& hosts.len() == calls.len() + 1
    &&& forall|i: int|
        #![trigger calls[i]]
        0 <= i < calls.len() ==> takes(hosts[i], calls[i], hosts[i + 1])
}

/// The clock does not wrap around during a history.
pub open spec fn clock_holds(hosts: Seq<MockHost>, calls: Seq<HostCall>) -> bool {
    forall|i: int|
        #![trigger calls[i]]
        0 <= i < calls.len() ==> hosts[i]@.clock_ns + duration(calls[i]) < 0x1_0000_0000_0000_0000
}

/// The events logged by the first `n` calls of a history since the log was last
/// drained.
pub open spec fn logged_since_drained(
    hosts: Seq<MockHost>,
    calls: Seq<HostCall>,
    n: int,
) -> Seq<WireEventView>
    decreases n,
{
    if n <= 0 || calls[n - 1] is PollEvents {
        Seq::empty()
    } else {
        logged_since_drained(hosts, calls, n - 1) + logged_events(hosts[n - 1]@, calls[n - 1])
    }
}

/// One call changes the log and the clock as stated.
proof fn lemma_call(pre: MockHost, c: HostCall, post: MockHost)
    requires
        takes(pre, c, post),
    ensures
        post@.clock_ns == (pre@.clock_ns + duration(c)) % 0x1_0000_0000_0000_0000,
        post@.events == (if c is PollEvents {
            Seq::empty()
        } else {
            pre@.events + logged_events(pre@, c)
        }),
{
    if !(c is PollEvents) {
        assert(post@.events =~= pre@.events + logged_events(pre@, c));
    }
}

proof fn lemma_history(hosts: Seq<MockHost>, calls: Seq<HostCall>, n: int)
    requires
        history(hosts, calls),
        hosts[0]@.events.len() == 0,
        0 <= n <= calls.len(),
    ensures
        hosts[n]@.events == logged_since_drained(hosts, calls, n),
        clock_holds(hosts, calls) ==> log_in_order(hosts[n]@),
    decreases n,
{
    if n > 0 {
        lemma_history(hosts, calls, n - 1);
        assert(takes(hosts[n - 1], calls[n - 1], hosts[n]));
        lemma_call(hosts[n - 1], calls[n - 1], hosts[n]);
        if clock_holds(hosts, calls) {
            let (pre, post) = (hosts[n - 1]@, hosts[n]@);
            assert(pre.clock_ns + duration(calls[n - 1]) < 0x1_0000_0000_0000_0000);
            assert forall|i: int| 0 <= i < post.events.len() implies (
            #[trigger] post.events[i]).timestamp_ns <= post.clock_ns by {
                if i < pre.events.len() {
                    assert(post.events[i] == pre.events[i]);
                }
            }
            assert forall|i: int, j: int| 0 <= i <= j < post.events.len() implies (
            #[trigger] post.events[i]).timestamp_ns <= (#[trigger] post.events[j]).timestamp_ns by {
                if i < pre.events.len() {
                    assert(post.events[i] == pre.events[i]);
                }
                if j < pre.events.len() {
                    assert(post.events[j] == pre.events[j]);
                }
            }
        }
    } else {
        assert(hosts[0]@.events =~= Seq::empty());
    }
}

/// Whatever is done with a new host, draining its log gives every event logged
/// since it was last drained, in the order logged, and (unless the simulated clock
/// has wrapped around) with times that do not decrease. Draining it again gives
/// nothing.
pub proof fn every_log_is_complete_and_in_order(
    device: VirtualDeviceView,
    hosts: Seq<MockHost>,
    calls: Seq<HostCall>,
    drained: MockHost,
    first: Result<Vec<WireEvent>>,
    again: MockHost,
    second: Result<Vec<WireEvent>>,
)
    requires
        hosts[0]@ == MockHostView::fresh(device),
        history(hosts, calls),
        MockHost::poll_step(hosts.last(), drained, first),
        MockHost::poll_step(drained, again, second),
    ensures
        first matches Ok(es) && host::event_views(es@) == logged_since_drained(
            hosts,
            calls,
            calls.len() as int,
        ),
        clock_holds(hosts, calls) ==> (first matches Ok(es) && forall|i: int, j: int|
            0 <= i <= j < es@.len() ==> (#[trigger] es@[i]).timestamp_ns <= (
            #[trigger] es@[j]).timestamp_ns),
        second matches Ok(es) && es@.len() == 0,
{
    lemma_history(hosts, calls, calls.len() as int);
    draining_empties_the_log(hosts.last(), drained, again, first, second);
    let es = first->Ok_0;
    let views = host::event_views(es@);
    assert forall|i: int, j: int|
        clock_holds(hosts, calls) && 0 <= i <= j < es@.len() implies (
    #[trigger] es@[i]).timestamp_ns <= (#[trigger] es@[j]).timestamp_ns by {
        assert(views[i] == es@[i]@ && views[j] == es@[j]@);
    }
}

/// Messages sent on the mock come back unchanged, in the order they were sent.
pub proof fn loopback_keeps_order(
    s0: MockHost,
    s1: MockHost,
    s2: MockHost,
    s3: MockHost,
    s4: MockHost,
    port: PdPort,
    timeout: Duration,
    a: Seq<u8>,
    b: Seq<u8>,
    sent_a: Result<()>,
    sent_b: Result<()>,
    got_a: Result<Option<PdMessage>>,
    got_b: Result<Option<PdMessage>>,
)
    requires
        s0@.pd_inbox.len() == 0,
        MockHost::send_step(s0, port, a, s1, sent_a),
        MockHost::send_step(s1, port, b, s2, sent_b),
        MockHost::recv_step(s2, port, timeout, s3, got_a),
        MockHost::recv_step(s3, port, timeout, s4, got_b),
    ensures
        got_a matches Ok(Some(m)) && m@ == a,
        got_b matches Ok(Some(m)) && m@ == b,
        s4@ == s0@,
{
    assert(s4@ =~= s0@);
}

/// A register reads back what was last written to it, and no other register changes.
pub proof fn register_reads_back(
    s0: MockHost,
    s1: MockHost,
    s2: MockHost,
    port: PdPort,
    reg: u8,
    value: u8,
    other: u8,
    written: Result<()>,
    got: Result<u8>,
)
    requires
        MockHost::write_register_step(s0, port, reg, value, s1, written),
        MockHost::read_register_step(s1, port, other, s2, got),
    ensures
        got == Ok::<_, error::Error>(
            if other == reg {
                value
            } else {
                s0@.pd_registers[other as int]
            },
        ),
{
    assert(s0@.pd_registers.len() == 256);
}

/// The CC status shows VCONN as it was last set.
pub proof fn vconn_is_reported(
    s0: MockHost,
    s1: MockHost,
    s2: MockHost,
    port: PdPort,
    on: bool,
    set: Result<()>,
    got: Result<CcStatus>,
)
    requires
        MockHost::set_vconn_step(s0, port, on, s1, set),
        MockHost::cc_status_step(s1, port, s2, got),
    ensures
        got matches Ok(c) && c.vconn == on && c.attached == s0@.vbus,
{
}

/// Requesting a descriptor of the simulated device gives as much of it as was asked
/// for, or a STALL when there is no such descriptor, and leaves the device alone.
proof fn lemma_mock_requests(
    pre: MockHost,
    desc_type: u8,
    index: u8,
    lang: u16,
    len: u16,
    post: MockHost,
    c: Result<ControlResult>,
)
    requires
        model::requests(
            pre,
            pre@.device.address,
            Setup::descriptor_request(desc_type, index, lang, len),
            post,
            c,
        ),
    ensures
        post@.device == pre@.device,
        post@.vbus == pre@.vbus,
        c is Ok,
        c->Ok_0.stalled == (pre@.device.descriptor(desc_type, index, lang) is None),
        forall|about: Seq<char>| #[trigger]
            model::bus_notes(about, c) == Seq::<Seq<char>>::empty(),
        c->Ok_0.data@ == (match pre@.device.descriptor(desc_type, index, lang) {
            Some(full) => if len < full.len() {
                full.take(len as int)
            } else {
                full
            },
            None => Seq::empty(),
        }),
{
    let s = Setup::descriptor_request(desc_type, index, lang, len);
    host::setup_round_trip(s);
    assert(s.value / 256 == desc_type && s.value % 256 == index);
    assert(post@.device =~= pre@.device);
    assert(c->Ok_0@.data =~= (match pre@.device.descriptor(desc_type, index, lang) {
        Some(full) => if len < full.len() {
            full.take(len as int)
        } else {
            full
        },
        None => Seq::empty(),
    }));
    let errors = c->Ok_0@.errors;
    assert(errors.len() <= 1);
    reveal_with_fuel(model::bus_error_total, 2);
    assert(model::bus_error_total(errors) == 0);
    assert forall|about: Seq<char>| #[trigger] model::bus_notes(about, c) == Seq::<
        Seq<char>,
    >::empty() by {
        assert(model::bus_notes(about, c) =~= Seq::<Seq<char>>::empty());
    }
}

/// A device that is what its descriptors say: the device descriptor has the length
/// and type of one, there is nothing to note of the configuration, and every string
/// and the list of languages fit a string descriptor.
pub open spec fn well_formed(d: VirtualDeviceView) -> bool {
    &&& d.device_descriptor[0] == 18
    &&& d.device_descriptor[1] == descriptor_type::DEVICE
    &&& ConfigurationView::parsed(d.config_descriptor) matches Some(c)
        && model::configuration_notes(0, c, d.config_descriptor).len() == 0
    &&& d.listed_languages().len() <= 126
    &&& forall|k: (u8, u16)|
        d.strings.dom().contains(k) ==> utf16::encode_utf16(#[trigger] d.strings[k]).len() <= 126
}

/// One line for each of the wanted strings that the device does not have.
pub open spec fn missing_lines(d: VirtualDeviceView, want: Seq<u8>, lang: u16) -> Seq<Seq<char>>
    decreases want.len(),
{
    if want.len() == 0 {
        Seq::empty()
    } else {
        missing_lines(d, want.drop_last(), lang) + model::note(
            !d.strings.dom().contains((want.last(), lang)),
            model::about_string(want.last()) + "STALLed"@,
        )
    }
}

/// There is a line exactly if there is such a string.
proof fn lemma_missing_lines(d: VirtualDeviceView, want: Seq<u8>, lang: u16)
    ensures
        missing_lines(d, want, lang).len() == 0 <==> forall|j: int|
            0 <= j < want.len() ==> d.strings.dom().contains((#[trigger] want[j], lang)),
    decreases want.len(),
{
    if want.len() > 0 {
        let before = want.drop_last();
        lemma_missing_lines(d, before, lang);
        assert(forall|j: int| 0 <= j < before.len() ==> #[trigger] want[j] == before[j]);
        if missing_lines(d, want, lang).len() == 0 {
            assert forall|j: int| 0 <= j < want.len() implies d.strings.dom().contains(
                (#[trigger] want[j], lang),
            ) by {
                if j < before.len() {
                    assert(d.strings.dom().contains((before[j], lang)));
                }
            }
        } else if forall|j: int|
            0 <= j < want.len() ==> d.strings.dom().contains((#[trigger] want[j], lang)) {
            assert(d.strings.dom().contains((want[want.len() - 1], lang)));
            assert(forall|j: int|
                0 <= j < before.len() ==> d.strings.dom().contains((#[trigger] before[j], lang)));
        }
    }
}

/// Whether there is anything to note of a configuration does not depend on its number.
proof fn lemma_nothing_to_note(c: ConfigurationView, blob: Seq<u8>, k: nat)
    requires
        model::configuration_notes(0, c, blob).len() == 0,
    ensures
        model::configuration_notes(k, c, blob) == Seq::<Seq<char>>::empty(),
{
    lemma_endpoint_notes(c.interfaces, c.interfaces.len() as int, k);
    lemma_short_notes(descriptors::walked(blob), descriptors::walked(blob).len() as int, k);
    assert(model::configuration_notes(k, c, blob) =~= Seq::<Seq<char>>::empty());
}

proof fn lemma_endpoint_notes(s: Seq<descriptors::InterfaceView>, n: int, k: nat)
    requires
        n <= s.len(),
    ensures
        model::endpoint_notes(k, s, n).len() == model::endpoint_notes(0, s, n).len(),
    decreases n,
{
    if n > 0 {
        lemma_endpoint_notes(s, n - 1, k);
    }
}

proof fn lemma_short_notes(ds: Seq<descriptors::RawDescriptorView>, n: int, k: nat)
    requires
        n <= ds.len(),
    ensures
        model::short_notes(k, ds, n).len() == model::short_notes(0, ds, n).len(),
    decreases n,
{
    if n > 0 {
        lemma_short_notes(ds, n - 1, k);
    }
}

proof fn lemma_mock_configuration(
    pre: MockHost,
    cfg_index: u8,
    post: MockHost,
    a: ConfigurationAnswers,
    k: nat,
)
    requires
        well_formed(pre@.device),
        model::requests_configuration(pre, pre@.device.address, cfg_index, post, a),
    ensures
        post@.device == pre@.device,
        post@.vbus == pre@.vbus,
        model::configuration_of(a) == Ok::<_, ErrorView>(
            ConfigurationView::parsed(pre@.device.config_descriptor)->0,
        ),
        model::answer_notes(k, a) == Seq::<Seq<char>>::empty(),
{
    let c = pre@.device.config_descriptor;
    let after_head = choose|after_head: MockHost|
        model::configuration_run(pre, pre@.device.address, cfg_index, after_head, a, post);
    lemma_mock_requests(
        pre,
        descriptor_type::CONFIGURATION,
        cfg_index,
        0,
        9,
        after_head,
        a.head,
    );
    let head = a.head->Ok_0.data@;
    let view = ConfigurationView::parsed(c)->0;
    descriptors::configuration_keeps_its_descriptor(c);
    assert(head.len() == 9 && head[2] == c[2] && head[3] == c[3]);
    assert(view.descriptor.total_length == c.len());
    lemma_mock_requests(
        after_head,
        descriptor_type::CONFIGURATION,
        cfg_index,
        0,
        model::total_length(head),
        post,
        a.blob->0,
    );
    lemma_nothing_to_note(view, c, k);
    assert(model::answer_notes(k, a) =~= Seq::<Seq<char>>::empty());
}

/// The answer to a request for a string: its text if the device has it, else a STALL.
proof fn lemma_mock_string(
    pre: MockHost,
    index: u8,
    lang: u16,
    post: MockHost,
    c: Result<ControlResult>,
)
    requires
        well_formed(pre@.device),
        index != 0,
        model::requests(
            pre,
            pre@.device.address,
            Setup::descriptor_request(descriptor_type::STRING, index, lang, 255),
            post,
            c,
        ),
    ensures
        post@.device == pre@.device,
        post@.vbus == pre@.vbus,
        c is Ok,
        c->Ok_0.stalled == !pre@.device.strings.dom().contains((index, lang)),
        !c->Ok_0.stalled ==> descriptors::StringDescriptor::text(c->Ok_0.data@)
            == pre@.device.strings[(index, lang)],
        model::string_notes(index, c) == model::note(
            !pre@.device.strings.dom().contains((index, lang)),
            model::about_string(index) + "STALLed"@,
        ),
{
    lemma_mock_requests(pre, descriptor_type::STRING, index, lang, 255, post, c);
    if pre@.device.strings.dom().contains((index, lang)) {
        let s = pre@.device.strings[(index, lang)];
        lemma_descriptor_units(utf16::encode_utf16(s));
        string_descriptor_round_trip(s, Seq::empty());
        assert(string_descriptor_bytes(utf16::encode_utf16(s)).take(255) == c->Ok_0.data@
            || string_descriptor_bytes(utf16::encode_utf16(s)) == c->Ok_0.data@);
    }
}

proof fn lemma_mock_configuration_chain(
    first: MockHost,
    hosts: Seq<MockHost>,
    cfgs: Seq<ConfigurationAnswers>,
    k: int,
)
    requires
        well_formed(first@.device),
        model::configuration_chain(first@.device.address, hosts, cfgs),
        hosts[0]@.device == first@.device,
        0 <= k <= cfgs.len(),
    ensures
        hosts[k]@.device == first@.device,
        model::readable(cfgs.take(k)) == Seq::new(
            k as nat,
            |i: int| ConfigurationView::parsed(first@.device.config_descriptor)->0,
        ),
        model::all_answer_notes(cfgs.take(k)) == Seq::<Seq<char>>::empty(),
    decreases k,
{
    let one = ConfigurationView::parsed(first@.device.config_descriptor)->0;
    if k > 0 {
        lemma_mock_configuration_chain(first, hosts, cfgs, k - 1);
        assert(model::requests_configuration(
            hosts[k - 1],
            first@.device.address,
            (k - 1) as u8,
            hosts[k],
            cfgs[k - 1],
        ));
        lemma_mock_configuration(
            hosts[k - 1],
            (k - 1) as u8,
            hosts[k],
            cfgs[k - 1],
            (k - 1) as nat,
        );
        assert(cfgs.take(k).drop_last() =~= cfgs.take(k - 1));
    }
    assert(model::readable(cfgs.take(k)) =~= Seq::new(k as nat, |i: int| one));
    assert(model::all_answer_notes(cfgs.take(k)) =~= Seq::<Seq<char>>::empty());
}

proof fn lemma_mock_string_chain(
    first: MockHost,
    want: Seq<u8>,
    lang: u16,
    hosts: Seq<MockHost>,
    strs: Seq<Result<ControlResult>>,
    k: int,
)
    requires
        well_formed(first@.device),
        model::string_chain(first@.device.address, want, lang, hosts, strs),
        hosts[0]@.device == first@.device,
        0 <= k <= strs.len() <= want.len(),
        forall|j: int| 0 <= j < want.len() ==> #[trigger] want[j] != 0,
    ensures
        hosts[k]@.device == first@.device,
        model::all_string_notes(want, strs.take(k)) == missing_lines(
            first@.device,
            want.take(k),
            lang,
        ),
        forall|i: u8, l: u16| #[trigger]
            model::string_entries(want, lang, strs.take(k)).dom().contains((i, l)) <==> l == lang
                && want.take(k).contains(i) && first@.device.strings.dom().contains((i, l)),
        forall|i: u8, l: u16| #[trigger]
            model::string_entries(want, lang, strs.take(k)).dom().contains((i, l))
                ==> model::string_entries(want, lang, strs.take(k))[(i, l)]
                == first@.device.strings[(i, l)],
    decreases k,
{
    let d = first@.device;
    if k > 0 {
        lemma_mock_string_chain(first, want, lang, hosts, strs, k - 1);
        assert(model::requests(
            hosts[k - 1],
            d.address,
            Setup::descriptor_request(descriptor_type::STRING, want[k - 1], lang, 255),
            hosts[k],
            strs[k - 1],
        ));
        lemma_mock_string(hosts[k - 1], want[k - 1], lang, hosts[k], strs[k - 1]);
        assert(strs.take(k).drop_last() =~= strs.take(k - 1));
        assert(want.take(k).drop_last() =~= want.take(k - 1));
        assert(want.take(k) =~= want.take(k - 1).push(want[k - 1]));
        let before = model::string_entries(want, lang, strs.take(k - 1));
        let after = model::string_entries(want, lang, strs.take(k));
        assert(after == (if d.strings.dom().contains((want[k - 1], lang)) {
            before.insert((want[k - 1], lang), d.strings[(want[k - 1], lang)])
        } else {
            before
        }));
        assert forall|i: u8, l: u16| #[trigger] after.dom().contains((i, l)) <==> l == lang
            && want.take(k).contains(i) && d.strings.dom().contains((i, l)) by {
            assert(before.dom().contains((i, l)) <==> l == lang && want.take(k - 1).contains(i)
                && d.strings.dom().contains((i, l)));
            let (shorter, longer) = (want.take(k - 1), want.take(k));
            if shorter.contains(i) {
                let j = choose|j: int| 0 <= j < shorter.len() && shorter[j] == i;
                assert(longer[j] == i);
            }
            if longer.contains(i) && i != want[k - 1] {
                let j = choose|j: int| 0 <= j < longer.len() && longer[j] == i;
                assert(shorter[j] == i);
            }
            assert(want.take(k)[k - 1] == want[k - 1]);
        }
        assert forall|i: u8, l: u16| #[trigger] after.dom().contains((i, l)) implies after[(i, l)]
            == d.strings[(i, l)] by {
            assert(before.dom().contains((i, l)) || (i, l) == (want[k - 1], lang));
        }
    } else {
        assert forall|i: u8, l: u16| !(#[trigger] model::string_entries(
            want,
            lang,
            strs.take(k),
        ).dom().contains((i, l))) by {
        }
    }
}

/// What an examination of the simulated device meets.
proof fn lemma_mock_examined(
    pre: MockHost,
    t: model::ExamineTrace<MockHost>,
    post: MockHost,
    r: core::result::Result<UsbDeviceModelView, ErrorView>,
)
    requires
        model::examine_run(pre, pre@.device.address, t, post, r),
        well_formed(pre@.device),
    ensures
        t.device is Ok,
        t.device->Ok_0.data@ == pre@.device.device_descriptor,
        t.after_device@.device == pre@.device,
        t.after_device@.vbus == pre@.vbus,
        t.after_status@.device == pre@.device,
        model::device_notes(t.device->Ok_0) == Seq::<Seq<char>>::empty(),
        t.cfg_hosts[0]@.device == pre@.device,
        model::string_notes(0, t.langids) == Seq::<Seq<char>>::empty(),
        model::first_language(t.langids) == pre@.device.listed_languages()[0],
{
    let d = pre@.device;
    lemma_mock_requests(pre, descriptor_type::DEVICE, 0, 0, 18, t.after_device, t.device);
    assert(d.device_descriptor.len() == 18);
    lemma_mock_requests(
        t.after_status,
        descriptor_type::STRING,
        0,
        0,
        255,
        t.cfg_hosts[0],
        t.langids,
    );
    let listed = d.listed_languages();
    lemma_descriptor_units(listed);
    assert(t.langids->Ok_0.data@ == string_descriptor_bytes(listed));
    assert(model::device_notes(t.device->Ok_0) =~= Seq::<Seq<char>>::empty());
    assert(model::string_notes(0, t.langids) =~= Seq::<Seq<char>>::empty());
}

/// There is nothing to note exactly if the device has every string that a descriptor
/// refers to.
proof fn lemma_all_present(
    d: VirtualDeviceView,
    dd: DeviceDescriptor,
    cs: Seq<ConfigurationView>,
    lang: u16,
)
    ensures
        missing_lines(d, model::wanted(dd, cs, 255), lang).len() == 0 <==> forall|i: u8|
            i != 0 && #[trigger] model::refers_to(dd, cs, i) ==> d.strings.dom().contains(
                (i, lang),
            ),
{
    let want = model::wanted(dd, cs, 255);
    model::wanted_is_exact(dd, cs, 255);
    lemma_missing_lines(d, want, lang);
    if missing_lines(d, want, lang).len() == 0 {
        assert forall|i: u8| i != 0 && #[trigger] model::refers_to(dd, cs, i) implies
            d.strings.dom().contains((i, lang)) by {
            assert(want.contains(i));
            let j = choose|j: int| 0 <= j < want.len() && want[j] == i;
            assert(d.strings.dom().contains((want[j], lang)));
        }
    } else {
        let j = choose|j: int|
            0 <= j < want.len() && !d.strings.dom().contains((#[trigger] want[j], lang));
        assert(model::refers_to(dd, cs, want[j]));
    }
}

/// Examining the simulated device gives back what it was built from: its device
/// descriptor, its configuration once for each it declares, and the text of every
/// string it has that a descriptor refers to. All there is to note is each string
/// that a descriptor refers to and the device does not have.
pub proof fn examine_against_mock(
    pre: MockHost,
    post: MockHost,
    r: core::result::Result<UsbDeviceModelView, ErrorView>,
)
    requires
        model::examines(pre, pre@.device.address, post, r),
        well_formed(pre@.device),
    ensures
        r is Ok,
        ({
            let d = pre@.device;
            let m = r->Ok_0;
            let c = ConfigurationView::parsed(d.config_descriptor);
            let lang = d.listed_languages()[0];
            let want = model::wanted(m.device_descriptor, m.configurations, 255);
            &&& m.address == d.address
            &&& m.speed == pre@.seen_speed()
            &&& m.raw_device_descriptor == d.device_descriptor
            &&& m.device_descriptor == DeviceDescriptor::fields(d.device_descriptor)
            &&& c is Some
            &&& m.configurations == Seq::new(d.device_descriptor[17] as nat, |i: int| c->0)
            &&& m.anomalies == missing_lines(d, want, lang)
            &&& m.anomalies.len() == 0 <==> forall|i: u8|
                i != 0 && #[trigger] model::refers_to(m.device_descriptor, m.configurations, i)
                    ==> d.strings.dom().contains((i, lang))
            &&& forall|i: u8, l: u16| #[trigger]
                m.strings.dom().contains((i, l)) <==> l == lang && i != 0 && model::refers_to(
                    m.device_descriptor,
                    m.configurations,
                    i,
                ) && d.strings.dom().contains((i, l))
            &&& forall|i: u8, l: u16| #[trigger]
                m.strings.dom().contains((i, l)) ==> m.strings[(i, l)] == d.strings[(i, l)]
        }),
        post@.device == pre@.device,
{
    let d = pre@.device;
    let t = choose|t: model::ExamineTrace<MockHost>| model::examine_run(pre, d.address, t, post, r);
    lemma_mock_examined(pre, t, post, r);
    let lang = model::first_language(t.langids);
    lemma_mock_configuration_chain(pre, t.cfg_hosts, t.cfgs, t.cfgs.len() as int);
    assert(t.cfgs.take(t.cfgs.len() as int) =~= t.cfgs);
    let dd = DeviceDescriptor::fields(d.device_descriptor);
    let cs = model::readable(t.cfgs);
    let want = model::wanted(dd, cs, 255);
    model::wanted_is_exact(dd, cs, 255);
    lemma_mock_string_chain(pre, want, lang, t.str_hosts, t.strs, t.strs.len() as int);
    assert(t.strs.take(t.strs.len() as int) =~= t.strs);
    assert(want.take(t.strs.len() as int) =~= want);
    let m = r->Ok_0;
    assert(m.anomalies =~= missing_lines(d, want, lang));
    lemma_all_present(d, dd, cs, lang);
    assert forall|i: u8, l: u16| #[trigger] m.strings.dom().contains((i, l)) <==> l == lang && i
        != 0 && model::refers_to(dd, cs, i) && d.strings.dom().contains((i, l)) by {
        if want.contains(i) {
            let j = choose|j: int| 0 <= j < want.len() && want[j] == i;
            assert(model::refers_to(dd, cs, want[j]));
        }
    }
}

/// Switching VBUS takes a microsecond, is seen at once, and is logged: switching it on as the
/// device's arrival, with its speed, switching it off as its departure. Nothing else changes.
pub proof fn switching_vbus_connects_the_device(
    pre: MockHost,
    on: bool,
    post: MockHost,
    r: Result<()>,
    seen: MockHost,
    status: Result<PortStatus>,
)
    requires
        MockHost::set_vbus_step(pre, on, post, r),
        MockHost::port_status_step(post, seen, status),
    ensures
        r is Ok,
        post@.clock_ns == (pre@.clock_ns + 1_000) % 0x1_0000_0000_0000_0000,
        post@.events.len() == pre@.events.len() + 1,
        post@.events.drop_last() == pre@.events,
        post@.events.last().timestamp_ns == post@.clock_ns,
        on ==> post@.events.last().kind == WireEventKindView::Connect(Some(pre@.device.speed)),
        !on ==> post@.events.last().kind == WireEventKindView::Disconnect,
        post@.vbus == on,
        post@.device == pre@.device,
        post@.pd_registers == pre@.pd_registers,
        post@.pd_inbox == pre@.pd_inbox,
        post@.vconn == pre@.vconn,
        seen == post,
        status matches Ok(p) && p.connected == on && p.vbus_mv == Some(
            if on {
                5000u32
            } else {
                0
            },
        ) && p.speed == (if on {
            Some(pre@.device.speed)
        } else {
            None
        }) && !p.reset_in_progress,
{
    assert(post@.events.drop_last() =~= pre@.events);
}

/// A reset takes ten milliseconds, puts the device back at address 0 and is logged; it tells
/// the device's speed if VBUS is on, and nothing if it is off. Nothing else changes.
pub proof fn reset_puts_the_device_at_the_default_address(
    pre: MockHost,
    post: MockHost,
    r: Result<Option<Speed>>,
)
    requires
        MockHost::bus_reset_step(pre, post, r),
    ensures
        pre@.vbus ==> r == Ok::<_, error::Error>(Some(pre@.device.speed)),
        !pre@.vbus ==> r == Ok::<_, error::Error>(None::<Speed>),
        post@.clock_ns == (pre@.clock_ns + 10_000_000) % 0x1_0000_0000_0000_0000,
        post@.events.len() == pre@.events.len() + 1,
        post@.events.drop_last() == pre@.events,
        post@.events.last().timestamp_ns == post@.clock_ns,
        post@.events.last().kind is BusReset,
        post@.device.address == 0,
        post@.device.device_descriptor == pre@.device.device_descriptor,
        post@.device.config_descriptor == pre@.device.config_descriptor,
        post@.device.strings == pre@.device.strings,
        post@.device.speed == pre@.device.speed,
        post@.vbus == pre@.vbus,
        post@.pd_registers == pre@.pd_registers,
        post@.pd_inbox == pre@.pd_inbox,
        post@.vconn == pre@.vconn,
{
    assert(post@.events.drop_last() =~= pre@.events);
}

/// A control transfer takes 50 microseconds and its SETUP packet is logged as it was sent. At
/// an address where no device is, a timeout is logged and reported, and nothing comes back.
/// SET_ADDRESS (5) moves the device to the address in the third byte; nothing else does, and
/// nothing else of the device changes.
pub proof fn control_transfers_are_logged(
    pre: MockHost,
    address: u8,
    setup: Seq<u8>,
    data_out: Seq<u8>,
    opts: ControlForensics,
    post: MockHost,
    r: Result<ControlResult>,
)
    requires
        MockHost::control_step(pre, address, setup, data_out, opts, post, r),
    ensures
        r is Ok,
        (r->Ok_0)@.duration_ns == 50_000,
        post@.clock_ns == (pre@.clock_ns + 50_000) % 0x1_0000_0000_0000_0000,
        ({
            let n = pre@.events.len() as int;
            &&& post@.events.take(n) == pre@.events
            &&& post@.events[n].timestamp_ns == post@.clock_ns
            &&& post@.events[n].kind == (WireEventKindView::Packet { pid: Pid::Setup, data: setup })
            &&& address == pre@.device.address ==> post@.events.len() == n + 1
            &&& address != pre@.device.address ==> post@.events.len() == n + 2 && post@.events[n
                + 1].kind == WireEventKindView::Error(BusErrorView::Timeout)
                && post@.events[n + 1].timestamp_ns == post@.clock_ns
        }),
        address != pre@.device.address ==> (r->Ok_0)@.data.len() == 0 && !(r->Ok_0)@.stalled,
        address == pre@.device.address && setup[1] == 5 ==> post@.device.address == setup[2],
        address != pre@.device.address || setup[1] != 5 ==> post@.device.address
            == pre@.device.address,
        post@.device.device_descriptor == pre@.device.device_descriptor,
        post@.device.config_descriptor == pre@.device.config_descriptor,
        post@.device.strings == pre@.device.strings,
        post@.device.speed == pre@.device.speed,
        post@.vbus == pre@.vbus,
        post@.pd_registers == pre@.pd_registers,
        post@.pd_inbox == pre@.pd_inbox,
        post@.vconn == pre@.vconn,
{
    assert(post@.events.take(pre@.events.len() as int) =~= pre@.events);
}

/// A device STALLs what it does not know: every request but SET_ADDRESS (5), SET_CONFIGURATION
/// (9), and GET_DESCRIPTOR (6) of a descriptor that it has. The first two bring no data.
pub proof fn unknown_requests_are_stalled(m: MockHostView, setup: Seq<u8>)
    requires
        setup.len() == 8,
    ensures
        ({
            let a = m.control_answer(m.device.address, setup, ControlForensics::compliant());
            let known = m.device.descriptor(
                setup[3],
                setup[2],
                (setup[4] + 256 * setup[5]) as u16,
            ) is Some;
            &&& a.stalled <==> !(setup[1] == 5 || setup[1] == 9 || setup[1] == 6 && known)
            &&& setup[1] != 6 || !known ==> a.data.len() == 0
        }),
{
    let s = Setup::of_wire(setup);
    crate::bytes::byte_orders(0, 0, setup[2], setup[3], 0, 0);
    crate::bytes::byte_orders(0, 0, setup[4], setup[5], 0, 0);
    assert(s.value / 256 == setup[3] && s.value % 256 == setup[2]);
}

/// Cutting a packet short takes off its last byte, if it has one; sending too much adds as many
/// bytes of 0xCD as were asked for, behind what there was.
pub proof fn data_is_cut_and_padded_as_asked(
    m: MockHostView,
    setup: Seq<u8>,
    opts: ControlForensics,
    i: int,
)
    ensures
        ({
            let plain = m.control_answer(
                m.device.address,
                setup,
                ControlForensics {
                    flags: host::TxFlags { extra_bytes: 0, truncate: false, ..opts.flags },
                    ..opts
                },
            ).data;
            let data = m.control_answer(m.device.address, setup, opts).data;
            let kept = if opts.flags.truncate && plain.len() > 0 {
                plain.len() - 1
            } else {
                plain.len() as int
            };
            &&& data.len() == kept + opts.flags.extra_bytes
            &&& data.take(kept) == plain.take(kept)
            &&& kept <= i < data.len() ==> data[i] == 0xCD
        }),
{
    let plain = m.control_answer(
        m.device.address,
        setup,
        ControlForensics {
            flags: host::TxFlags { extra_bytes: 0, truncate: false, ..opts.flags },
            ..opts
        },
    ).data;
    let data = m.control_answer(m.device.address, setup, opts).data;
    let kept = if opts.flags.truncate && plain.len() > 0 {
        plain.len() - 1
    } else {
        plain.len() as int
    };
    assert(data.take(kept) =~= plain.take(kept));
}

/// Transfers take 20 and transactions 10 microseconds from the present time on, bring no data,
/// and are acknowledged exactly at the device's address; elsewhere they time out. A transaction
/// is logged as its packet, a transfer is not; neither changes anything else.
pub proof fn transactions_are_acknowledged_at_the_address(
    pre: MockHost,
    tx: RawTransactionView,
    post: MockHost,
    r: Result<TransactionResult>,
    endpoint: u8,
    dir: Direction,
    max_len: usize,
    after: MockHost,
    t: Result<TransactionResult>,
)
    requires
        MockHost::transaction_step(pre, tx, post, r),
        MockHost::transfer_step(pre, tx.address, endpoint, dir, tx.data, max_len, after, t),
    ensures
        r is Ok && t is Ok,
        (r->Ok_0)@.handshake is Ack <==> tx.address == pre@.device.address,
        (r->Ok_0)@.handshake is Absent <==> tx.address != pre@.device.address,
        (t->Ok_0)@.handshake == (r->Ok_0)@.handshake,
        tx.address == pre@.device.address ==> (t->Ok_0)@.errors.len() == 0,
        tx.address != pre@.device.address ==> (t->Ok_0)@.errors == seq![BusErrorView::Timeout],
        (r->Ok_0)@.start_ns == pre@.clock_ns && (t->Ok_0)@.start_ns == pre@.clock_ns,
        (r->Ok_0)@.duration_ns == 10_000 && (t->Ok_0)@.duration_ns == 20_000,
        (r->Ok_0)@.data.len() == 0 && (t->Ok_0)@.data.len() == 0,
        post@.clock_ns == (pre@.clock_ns + 10_000) % 0x1_0000_0000_0000_0000,
        after@.clock_ns == (pre@.clock_ns + 20_000) % 0x1_0000_0000_0000_0000,
        post@.events.drop_last() == pre@.events,
        post@.events.last().timestamp_ns == post@.clock_ns,
        post@.events.last().kind == (WireEventKindView::Packet { pid: tx.pid, data: tx.data }),
        after@.events == pre@.events,
        post@.device == pre@.device && after@.device == pre@.device,
        post@.vbus == pre@.vbus && after@.vbus == pre@.vbus,
        post@.pd_registers == pre@.pd_registers && after@.pd_registers == pre@.pd_registers,
        post@.pd_inbox == pre@.pd_inbox && after@.pd_inbox == pre@.pd_inbox,
        post@.vconn == pre@.vconn && after@.vconn == pre@.vconn,
{
    assert(post@.events.drop_last() =~= pre@.events);
}

/// With VBUS on, every port has 5 V, and the two target ports source 100 mA; with VBUS off
/// there is neither. Measuring changes nothing.
pub proof fn power_follows_vbus(
    pre: MockHost,
    port: MonitoredPort,
    post: MockHost,
    r: Result<PortPower>,
)
    requires
        MockHost::read_step(pre, port, post, r),
    ensures
        post == pre,
        r matches Ok(p) && p.voltage_mv == (if pre@.vbus {
            5000int
        } else {
            0
        }) && p.current_ma == (if pre@.vbus && (port is TargetA || port is TargetC) {
            100int
        } else {
            0
        }),
{
}

/// The CC lines show a sink on CC1 exactly while VBUS is on, and the board as its source.
/// Looking changes nothing.
pub proof fn cc_follows_vbus(pre: MockHost, port: PdPort, post: MockHost, r: Result<CcStatus>)
    requires
        MockHost::cc_status_step(pre, port, post, r),
    ensures
        post == pre,
        r matches Ok(c) && (c.attached <==> pre@.vbus) && (c.orientation is Cc1 <==> pre@.vbus) && (
        c.orientation is Open <==> !pre@.vbus) && c.is_source,
{
}

/// Receiving takes the oldest message there is, and only that; with none there, nothing comes.
pub proof fn oldest_message_is_received(
    pre: MockHost,
    port: PdPort,
    timeout: Duration,
    post: MockHost,
    r: Result<Option<PdMessage>>,
    oldest: Seq<u8>,
    others: Seq<Seq<u8>>,
)
    requires
        MockHost::recv_step(pre, port, timeout, post, r),
    ensures
        pre@.pd_inbox.len() == 0 ==> r == Ok::<_, error::Error>(None::<PdMessage>) && post@ == pre@,
        pre@.pd_inbox == seq![oldest] + others ==> (r matches Ok(Some(m)) && m@ == oldest
            && post@.pd_inbox == others),
{
    if pre@.pd_inbox == seq![oldest] + others {
        assert(pre@.pd_inbox.skip(1) =~= others);
    }
}

/// A new host is off and has seen nothing: no VBUS, no VCONN, time 0, an empty log, no message,
/// and every register 0.
pub proof fn new_host_has_seen_nothing(device: VirtualDeviceView, reg: int)
    requires
        0 <= reg < 256,
    ensures
        ({
            let m = MockHostView::fresh(device);
            &&& !m.vbus && !m.vconn
            &&& m.clock_ns == 0
            &&& m.events.len() == 0 && m.pd_inbox.len() == 0
            &&& m.pd_registers.len() == 256 && m.pd_registers[reg] == 0
            &&& m.device == device
        }),
{
}

/// A device hands out its descriptors by type: 1 its device descriptor, 2 its configuration,
/// 3 its strings, and of no other type any. String 0 is the list of its languages; another is
/// its text, if it has one of that index in that language.
pub proof fn descriptors_are_handed_out_by_type(
    d: VirtualDeviceView,
    desc_type: u8,
    index: u8,
    lang: u16,
)
    ensures
        d.descriptor(1, index, lang) == Some(d.device_descriptor),
        d.descriptor(2, index, lang) == Some(d.config_descriptor),
        desc_type == 0 || desc_type > 3 ==> d.descriptor(desc_type, index, lang) is None,
        d.descriptor(3, 0, lang) is Some,
        descriptors::StringDescriptor::units(d.descriptor(3, 0, lang)->0) == d.listed_languages(),
        index != 0 ==> (d.descriptor(3, index, lang) is Some <==> d.strings.dom().contains(
            (index, lang),
        )),
        index != 0 && d.strings.dom().contains((index, lang)) ==> {
            let b = d.descriptor(3, index, lang)->0;
            &&& descriptors::StringDescriptor::text(b) == d.strings[(index, lang)]
            &&& b[1] == 3
            &&& b.len() < 256 ==> b[0] == b.len()
        },
{
    let langs = d.listed_languages();
    string_descriptor_round_trip(Seq::empty(), langs);
    if index != 0 && d.strings.dom().contains((index, lang)) {
        let s = d.strings[(index, lang)];
        string_descriptor_round_trip(s, langs);
        utf16::lemma_le_units_round_trip(utf16::encode_utf16(s));
    }
}

/// The languages that a device lists are those of its strings, each once, in ascending order;
/// without any string it lists US English.
pub proof fn languages_of_the_strings_are_listed(d: VirtualDeviceView, lang: u16)
    ensures
        has_language(d.strings, lang) ==> d.listed_languages().contains(lang),
        d.listed_languages().contains(lang) && lang != 0x0409 ==> has_language(d.strings, lang),
        (forall|l: u16| !#[trigger] has_language(d.strings, l)) ==> d.listed_languages() == seq![
            0x0409u16,
        ],
        ascending(d.listed_languages()),
{
    lemma_languages(d.strings, 0x10000);
    let found = languages(d.strings, 0x10000);
    if found.len() > 0 {
        assert(found.contains(found[0]));
    }
}

} // verus!

//! Device metadata types, and [`discover`].

use vstd::prelude::*;

use crate::backend;
use crate::capture::CaptureOptions;
use crate::capture::CaptureSource;
use crate::capture::CaptureStream;
use crate::capture::Speed;
use crate::error::Result;
use crate::host::UsbHost;
use crate::pd::PowerDelivery;
use crate::power::PowerMonitor;
use crate::usb;
use crate::usb::UsbDeviceInfo;
use crate::usb::UsbDeviceInfoView;

verus! {

/// Stable identity of a device, available without opening it.
#[derive(Debug, Clone)]
pub struct DeviceDescription {
    /// Name of the backend that handles this device (e.g. `"cynthion"`).
    pub backend: &'static str,
    /// USB vendor ID.
    pub vendor_id: u16,
    /// USB product ID.
    pub product_id: u16,
    /// Product string, if the OS has it cached.
    pub product: Option<String>,
    /// Serial number, if present.
    pub serial: Option<String>,
    /// Host-controller-relative bus identifier.
    pub bus_id: String,
    /// Device address on the bus.
    pub address: u8,
}

/// What a [`DeviceDescription`] holds.
#[verifier::ext_equal]
pub struct DeviceDescriptionView {
    pub backend: Seq<char>,
    pub vendor_id: u16,
    pub product_id: u16,
    pub product: Option<Seq<char>>,
    pub serial: Option<Seq<char>>,
    pub bus_id: Seq<char>,
    pub address: u8,
}

impl View for DeviceDescription {
    type V = DeviceDescriptionView;

    open spec fn view(&self) -> DeviceDescriptionView {
        DeviceDescriptionView {
            backend: self.backend@,
            vendor_id: self.vendor_id,
            product_id: self.product_id,
            product: usb::optional_text(self.product),
            serial: usb::optional_text(self.serial),
            bus_id: self.bus_id@,
            address: self.address,
        }
    }
}

/// What a list of descriptions holds.
pub open spec fn description_views(s: Seq<DeviceDescription>) -> Seq<DeviceDescriptionView> {
    Seq::new(s.len(), |i: int| s[i]@)
}

/// What a device can do, discovered after opening it.
#[derive(Debug, Clone)]
pub struct Capabilities {
    /// Speeds the device reports it can capture at.
    pub supported_speeds: Vec<Speed>,
    /// Whether the device can capture traffic.
    pub can_capture: bool,
    /// Whether the device can drive VBUS to the target.
    pub can_control_vbus: bool,
    /// Gateware minor protocol version, if the device reports one.
    pub protocol_version: Option<u8>,
}

/// A decoded snapshot of the device's control State register.
#[derive(Debug, Clone, Copy, PartialEq, Eq, Structural)]
pub struct State {
    /// Capture is currently enabled.
    pub enable: bool,
    /// Configured capture speed.
    pub speed: Speed,
    /// VBUS enabled on the TARGET-C port.
    pub target_c_vbus_en: bool,
    /// VBUS enabled on the CONTROL port.
    pub control_vbus_en: bool,
    /// VBUS enabled on the AUX port.
    pub aux_vbus_en: bool,
    /// TARGET-A VBUS discharge active.
    pub target_a_discharge: bool,
    /// Power control enabled.
    pub power_control_enable: bool,
}

/// What the operations of a [`MagicDevice`] may do: anything, unless a device says
/// more.
pub trait DeviceModel: Sized {
    /// The source of the items of its captures.
    type Source: CaptureSource;

    /// Its USB host side, if it has one.
    type Host: UsbHost;

    /// Its USB Power Delivery side, if it has one.
    type Pd: PowerDelivery;

    /// Its power monitor, if it has one.
    type Power: PowerMonitor;

    /// Whether this is its identity.
    open spec fn described_by(self, d: DeviceDescriptionView) -> bool {
        true
    }

    /// Whether this is what it can do.
    open spec fn capable_of(self, c: Capabilities) -> bool {
        true
    }

    /// What reading its state does.
    open spec fn state_step(pre: Self, post: Self, r: Result<State>) -> bool {
        true
    }

    /// What starting a capture does.
    open spec fn capture_step(
        pre: Self,
        options: CaptureOptions,
        post: Self,
        r: Result<CaptureStream<Self::Source>>,
    ) -> bool {
        true
    }
}

/// A magic USB device that can be controlled and captured from.
pub trait MagicDevice: DeviceModel {
    /// Stable identity of this device.
    fn description(&self) -> (d: &DeviceDescription)
        ensures
            self.described_by(d@),
    ;

    /// Capabilities reported by this device.
    fn capabilities(&self) -> (c: &Capabilities)
        ensures
            self.capable_of(*c),
    ;

    /// Read the device's current control state.
    fn read_state(&mut self) -> (r: Result<State>)
        ensures
            Self::state_step(*old(self), *final(self), r),
    ;

    /// Start a capture session with the given options.
    fn start_capture(&mut self, options: CaptureOptions) -> (r: Result<CaptureStream<Self::Source>>)
        ensures
            Self::capture_step(*old(self), options, *final(self), r),
    ;

    /// Access this device as a USB **host** (drive a downstream device), if it
    /// supports host mode. Defaults to `None`; backends that gain host gateware
    /// override it.
    fn as_host(&mut self) -> (r: Option<&mut Self::Host>)
        default_ensures
            r is None,
            *final(self) == *old(self),
    {
        None
    }

    /// Access this device's USB **Power Delivery** capability, if any.
    fn power_delivery(&mut self) -> (r: Option<&mut Self::Pd>)
        default_ensures
            r is None,
            *final(self) == *old(self),
    {
        None
    }

    /// Access this device's per-port **power monitor**, if any.
    fn power_monitor(&mut self) -> (r: Option<&mut Self::Power>)
        default_ensures
            r is None,
            *final(self) == *old(self),
    {
        None
    }
}

/// A device found on the bus that a backend can open.
pub struct Discovered {
    description: DeviceDescription,
    position: usize,
}

/// What a [`Discovered`] holds.
pub struct DiscoveredView {
    pub description: DeviceDescriptionView,
    /// Where in the list of devices this one was found.
    pub position: int,
}

impl View for Discovered {
    type V = DiscoveredView;

    closed spec fn view(&self) -> DiscoveredView {
        DiscoveredView { description: self.description@, position: self.position as int }
    }
}

impl Discovered {
    /// The device's identity.
    pub fn description(&self) -> (d: &DeviceDescription)
        ensures
            d@ == self@.description,
    {
        &self.description
    }

    /// Where the device stands in the list that was searched.
    pub fn position(&self) -> (p: usize)
        ensures
            p == self@.position,
    {
        self.position
    }
}

/// The description of a device handled by the given backend.
pub open spec fn described(backend: Seq<char>, info: UsbDeviceInfoView) -> DeviceDescriptionView {
    DeviceDescriptionView {
        backend,
        vendor_id: info.vendor_id,
        product_id: info.product_id,
        product: info.product,
        serial: info.serial,
        bus_id: info.bus_id,
        address: info.address,
    }
}

/// A description says of a device what the bus lists of it, each under its own name.
pub proof fn description_is_of_the_device(backend: Seq<char>, info: UsbDeviceInfoView)
    ensures
        ({
            let d = described(backend, info);
            &&& d.backend == backend
            &&& d.vendor_id == info.vendor_id
            &&& d.product_id == info.product_id
            &&& d.product == info.product
            &&& d.serial == info.serial
            &&& d.bus_id == info.bus_id
            &&& d.address == info.address
        }),
{
}

/// Build a [`DeviceDescription`] from raw USB info and a backend name.
pub fn describe(backend: &'static str, info: &UsbDeviceInfo) -> (d: DeviceDescription)
    ensures
        d@ == described(backend@, info@),
{
    DeviceDescription {
        backend,
        vendor_id: info.vendor_id,
        product_id: info.product_id,
        product: usb::copy_text(&info.product),
        serial: usb::copy_text(&info.serial),
        bus_id: info.bus_id.clone(),
        address: info.address,
    }
}

/// The devices of the list that some backend handles, in order.
pub open spec fn discovered(infos: Seq<UsbDeviceInfoView>) -> Seq<DiscoveredView>
    decreases infos.len(),
{
    if infos.len() == 0 {
        Seq::empty()
    } else {
        let before = discovered(infos.drop_last());
        match backend::recognized(infos.last()) {
            Some(name) => before.push(
                DiscoveredView {
                    description: described(name, infos.last()),
                    position: infos.len() - 1,
                },
            ),
            None => before,
        }
    }
}

/// What a list of found devices holds.
pub open spec fn discovered_views(s: Seq<Discovered>) -> Seq<DiscoveredView> {
    Seq::new(s.len(), |i: int| s[i]@)
}

/// Pick out all magic USB devices of those on the bus, across all backends.
pub fn discover(infos: &Vec<UsbDeviceInfo>) -> (r: Vec<Discovered>)
    ensures
        discovered_views(r@) == discovered(usb::info_views(infos@)),
{
    let mut out: Vec<Discovered> = Vec::new();
    let ghost all = usb::info_views(infos@);
    let mut i: usize = 0;
    assert(all.take(0) =~= Seq::<UsbDeviceInfoView>::empty());
    assert(discovered_views(out@) =~= discovered(all.take(0)));
    while i < infos.len()
        invariant
            i <= infos@.len(),
            all == usb::info_views(infos@),
            discovered_views(out@) == discovered(all.take(i as int)),
        decreases infos@.len() - i,
    {
        let ghost before = out@;
        assert(all.take(i + 1).drop_last() =~= all.take(i as int));
        assert(all.take(i + 1).last() == infos@[i as int]@);
        if let Some(name) = backend::recognize(&infos[i]) {
            out.push(Discovered { description: describe(name, &infos[i]), position: i });
            assert(discovered_views(out@) =~= discovered_views(before).push(
                out@[out@.len() - 1]@,
            ));
        }
        i = i + 1;
    }
    assert(all.take(i as int) =~= all);
    out
}

/// Discovery misses no device that a backend handles and reports no other: each
/// report is that of the device at its position, and positions ascend.
pub proof fn discovery_is_exact(infos: Seq<UsbDeviceInfoView>)
    ensures
        forall|k: int|
            0 <= k < discovered(infos).len() ==> ({
                let f = #[trigger] discovered(infos)[k];
                &&& 0 <= f.position < infos.len()
                &&& backend::recognized(infos[f.position]) matches Some(name) && f.description
                    == described(name, infos[f.position])
            }),
        forall|i: int|
            0 <= i < infos.len() && backend::recognized(#[trigger] infos[i]) is Some ==> exists|k:
                int|
                0 <= k < discovered(infos).len() && (#[trigger] discovered(infos)[k]).position == i,
        forall|j: int, k: int|
            0 <= j < k < discovered(infos).len() ==> discovered(infos)[j].position < discovered(
                infos,
            )[k].position,
    decreases infos.len(),
{
    if infos.len() > 0 {
        let rest = infos.drop_last();
        discovery_is_exact(rest);
        let d = discovered(infos);
        let e = discovered(rest);
        assert forall|k: int| 0 <= k < d.len() implies ({
            let f = #[trigger] d[k];
            &&& 0 <= f.position < infos.len()
            &&& backend::recognized(infos[f.position]) matches Some(name) && f.description
                == described(name, infos[f.position])
        }) by {
            if k < e.len() {
                assert(d[k] == e[k]);
                assert(rest[e[k].position] == infos[e[k].position]);
            }
        }
        assert forall|i: int|
            0 <= i < infos.len() && backend::recognized(#[trigger] infos[i]) is Some implies exists|
            k: int,
        | 0 <= k < d.len() && (#[trigger] d[k]).position == i by {
            if i < rest.len() {
                assert(rest[i] == infos[i]);
                let k = choose|k: int| 0 <= k < e.len() && (#[trigger] e[k]).position == i;
                assert(d[k] == e[k]);
            } else {
                assert(d[e.len() as int].position == i);
            }
        }
        assert forall|j: int, k: int| 0 <= j < k < d.len() implies d[j].position
            < d[k].position by {
            assert(d[j] == e[j]);
            if k < e.len() {
                assert(d[k] == e[k]);
            }
        }
    }
}

} // verus!

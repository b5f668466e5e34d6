//! Getting at the Cynthion's ECP5 over the **Apollo** USB interface - no
//! dependency on the Python `apollo`/`cynthion` tools.
//!
//! The Cynthion's Apollo stub enumerates as USB `1d50:615c`; while user gateware
//! is running the board instead appears as `1d50:615b` and carries an *Apollo
//! stub interface* (vendor class `0xff`, subclass `0x00`). Sending vendor request
//! `0xF0` to that interface hands the shared USB port to Apollo, which then
//! re-enumerates as `1d50:615c`, ready to be programmed.
//!
//! # Attribution
//!
//! The Apollo control protocol spoken here is defined by Great Scott Gadgets'
//! Apollo (<https://github.com/greatscottgadgets/apollo>), BSD-3-Clause,
//! Copyright (c) 2020-2024 Great Scott Gadgets.

use vstd::prelude::*;
use vstd::slice::slice_subrange;
use vstd::string::*;

use crate::error;
use crate::error::Error;
use crate::error::ErrorView;
use crate::error::Result;
use crate::text;
use crate::usb;
use crate::usb::Recipient;
use crate::usb::UsbDeviceInfo;
use crate::usb::UsbDeviceInfoView;
use crate::usb::VendorRequest;

verus! {

/// USB vendor ID shared by Cynthion/Apollo.
pub const VID: u16 = 0x1d50;

/// Apollo debug stub (board ready to be programmed).
pub const PID_APOLLO: u16 = 0x615c;

/// Running analyzer/host gateware (carries an Apollo stub interface).
pub const PID_GATEWARE: u16 = 0x615b;

// Alternate Apollo VID/PID used by some builds (pid.codes).
const ALT_VID: u16 = 0x1209;

const ALT_PID: u16 = 0x0010;

// Apollo vendor requests (recipient = device unless noted).
pub const REQUEST_GET_ID: u8 = 0xa0;

pub const REQUEST_GET_FIRMWARE_VERSION: u8 = 0xa2;

pub const REQUEST_GET_USB_API_VERSION: u8 = 0xa3;

pub const REQUEST_RECONFIGURE: u8 = 0xc0;

/// Sent to the *stub interface* (recipient = interface) to hand off the USB port.
pub const REQUEST_APOLLO_ADV_STOP: u8 = 0xF0;

/// Apollo stub interface descriptor: vendor class, subclass 0.
pub const STUB_CLASS: u8 = 0xff;

pub const STUB_SUBCLASS: u8 = 0x00;

/// What the board is currently presenting on USB.
#[derive(Debug, Clone, Copy, PartialEq, Eq, Structural)]
pub enum BoardMode {
    /// Apollo debug stub - ready to accept a bitstream.
    Apollo,
    /// User gateware is running - can be switched to Apollo before reprogramming.
    Gateware,
    /// No Cynthion found.
    NotFound,
}

/// Where to program the bitstream.
#[derive(Debug, Clone, Copy, PartialEq, Eq, Structural)]
pub enum FlashTarget {
    /// Volatile FPGA SRAM configuration - lost on power cycle. Fast dev loop.
    Sram,
    /// Persistent SPI configuration flash - survives power cycles.
    Flash,
}

/// The Type-C port whose FUSB302B controller the PD bridge gateware addresses.
#[derive(Debug, Clone, Copy, PartialEq, Eq, Structural)]
pub enum PdLine {
    TargetC,
    Aux,
}

/// A discovered board and the address that identifies it.
#[derive(Debug, Clone)]
pub struct ApolloDevice {
    pub mode: BoardMode,
    pub serial: Option<String>,
    pub bus_id: String,
    pub address: u8,
}

/// What an [`ApolloDevice`] holds.
#[verifier::ext_equal]
pub struct ApolloDeviceView {
    pub mode: BoardMode,
    pub serial: Option<Seq<char>>,
    pub bus_id: Seq<char>,
    pub address: u8,
}

impl View for ApolloDevice {
    type V = ApolloDeviceView;

    open spec fn view(&self) -> ApolloDeviceView {
        ApolloDeviceView {
            mode: self.mode,
            serial: usb::optional_text(self.serial),
            bus_id: self.bus_id@,
            address: self.address,
        }
    }
}

/// Whether a VID/PID pair is Apollo's.
pub open spec fn apollo_ids(vid: u16, pid: u16) -> bool {
    (vid == 0x1d50 && pid == 0x615c) || (vid == 0x1209 && pid == 0x0010)
}

/// Whether a VID/PID pair is Apollo's.
pub fn is_apollo(vid: u16, pid: u16) -> (r: bool)
    ensures
        r == apollo_ids(vid, pid),
{
    (vid == VID && pid == PID_APOLLO) || (vid == ALT_VID && pid == ALT_PID)
}

/// What a device on the bus is to the flasher.
pub open spec fn mode_of(info: UsbDeviceInfoView) -> BoardMode {
    if apollo_ids(info.vendor_id, info.product_id) {
        BoardMode::Apollo
    } else if info.vendor_id == VID && info.product_id == PID_GATEWARE {
        BoardMode::Gateware
    } else {
        BoardMode::NotFound
    }
}

/// Where the first device of a mode stands in a list, if there is one.
pub open spec fn first_in_mode(infos: Seq<UsbDeviceInfoView>, mode: BoardMode) -> Option<int>
    decreases infos.len(),
{
    if infos.len() == 0 {
        None
    } else {
        match first_in_mode(infos.drop_last(), mode) {
            Some(i) => Some(i),
            None => if mode_of(infos.last()) == mode {
                Some(infos.len() - 1)
            } else {
                None
            },
        }
    }
}

/// The board that a device on the bus is.
pub open spec fn board(info: UsbDeviceInfoView) -> ApolloDeviceView {
    ApolloDeviceView {
        mode: mode_of(info),
        serial: info.serial,
        bus_id: info.bus_id,
        address: info.address,
    }
}

/// The first attached Cynthion: the first in Apollo mode, else the first running
/// gateware.
pub open spec fn found(infos: Seq<UsbDeviceInfoView>) -> Option<ApolloDeviceView> {
    match first_in_mode(infos, BoardMode::Apollo) {
        Some(i) => Some(board(infos[i])),
        None => match first_in_mode(infos, BoardMode::Gateware) {
            Some(i) => Some(board(infos[i])),
            None => None,
        },
    }
}

/// Where the first device of a mode stands in a list, if there is one.
fn position(infos: &Vec<UsbDeviceInfo>, mode: BoardMode) -> (r: Option<usize>)
    requires
        mode != BoardMode::NotFound,
    ensures
        match r {
            Some(i) => i < infos@.len() && first_in_mode(usb::info_views(infos@), mode) == Some(
                i as int,
            ),
            None => first_in_mode(usb::info_views(infos@), mode) is None,
        },
{
    let ghost all = usb::info_views(infos@);
    let mut i: usize = 0;
    assert(all.take(0) =~= Seq::<UsbDeviceInfoView>::empty());
    while i < infos.len()
        invariant
            i <= infos@.len(),
            all == usb::info_views(infos@),
            first_in_mode(all.take(i as int), mode) is None,
            mode != BoardMode::NotFound,
        decreases infos@.len() - i,
    {
        let info = &infos[i];
        let here = if is_apollo(info.vendor_id, info.product_id) {
            BoardMode::Apollo
        } else if info.vendor_id == VID && info.product_id == PID_GATEWARE {
            BoardMode::Gateware
        } else {
            BoardMode::NotFound
        };
        proof {
            assert(all.take(i + 1).drop_last() =~= all.take(i as int));
            assert(all.take(i + 1).last() == infos@[i as int]@);
        }
        if here == mode {
            proof {
                lemma_first_is_stable(all, i + 1, mode);
            }
            return Some(i);
        }
        i = i + 1;
    }
    assert(all.take(i as int) =~= all);
    None
}

/// The first device of a mode in a list is the first in any longer list.
proof fn lemma_first_is_stable(infos: Seq<UsbDeviceInfoView>, n: int, mode: BoardMode)
    requires
        0 <= n <= infos.len(),
        first_in_mode(infos.take(n), mode) is Some,
    ensures
        first_in_mode(infos, mode) == first_in_mode(infos.take(n), mode),
    decreases infos.len() - n,
{
    if n < infos.len() {
        assert(infos.take(n + 1).drop_last() =~= infos.take(n));
        lemma_first_is_stable(infos, n + 1, mode);
    } else {
        assert(infos.take(n) =~= infos);
    }
}

/// Find the first Cynthion among the attached devices (Apollo mode preferred over
/// running gateware).
pub fn find(infos: &Vec<UsbDeviceInfo>) -> (r: Option<ApolloDevice>)
    ensures
        match found(usb::info_views(infos@)) {
            Some(d) => r matches Some(b) && b@ == d,
            None => r is None,
        },
{
    let at = match position(infos, BoardMode::Apollo) {
        Some(i) => Some((i, BoardMode::Apollo)),
        None => match position(infos, BoardMode::Gateware) {
            Some(i) => Some((i, BoardMode::Gateware)),
            None => None,
        },
    };
    proof {
        lemma_first_has_mode(usb::info_views(infos@), BoardMode::Apollo);
        lemma_first_has_mode(usb::info_views(infos@), BoardMode::Gateware);
    }
    match at {
        Some((i, mode)) => {
            let info = &infos[i];
            let b = ApolloDevice {
                mode,
                serial: usb::copy_text(&info.serial),
                bus_id: info.bus_id.clone(),
                address: info.address,
            };
            proof {
                let all = usb::info_views(infos@);
                assert(all[i as int] == info@);
                assert(first_in_mode(all, mode) == Some(i as int));
                assert(mode_of(all[i as int]) == mode);
                assert(b@ =~= board(all[i as int]));
            }
            Some(b)
        },
        None => None,
    }
}

/// The first device of a mode is of that mode, and no device before it is.
proof fn lemma_first_has_mode(infos: Seq<UsbDeviceInfoView>, mode: BoardMode)
    ensures
        first_in_mode(infos, mode) matches Some(i) ==> 0 <= i < infos.len() && mode_of(infos[i])
            == mode && forall|k: int| 0 <= k < i ==> mode_of(#[trigger] infos[k]) != mode,
        first_in_mode(infos, mode) is None ==> forall|k: int|
            0 <= k < infos.len() ==> mode_of(#[trigger] infos[k]) != mode,
    decreases infos.len(),
{
    if infos.len() > 0 {
        let rest = infos.drop_last();
        lemma_first_has_mode(rest, mode);
        assert forall|k: int| 0 <= k < rest.len() implies rest[k] == #[trigger] infos[k] by {
        }
        if first_in_mode(rest, mode) is None {
            assert forall|k: int| 0 <= k < infos.len() - 1 implies mode_of(#[trigger] infos[k])
                != mode by {
                assert(rest[k] == infos[k]);
            }
        } else {
            let i = first_in_mode(rest, mode)->0;
            assert(infos[i] == rest[i]);
            assert forall|k: int| 0 <= k < i implies mode_of(#[trigger] infos[k]) != mode by {
                assert(rest[k] == infos[k]);
            }
        }
    }
}

/// A board in Apollo mode is always preferred: one running gateware is found only
/// when none is in Apollo mode, and nothing is found only when there is neither.
pub proof fn apollo_is_preferred(infos: Seq<UsbDeviceInfoView>)
    ensures
        (exists|k: int|
            0 <= k < infos.len() && mode_of(#[trigger] infos[k]) == BoardMode::Apollo) <==> (found(
            infos,
        ) matches Some(d) && d.mode == BoardMode::Apollo),
        found(infos) is None <==> forall|k: int|
            0 <= k < infos.len() ==> mode_of(#[trigger] infos[k]) == BoardMode::NotFound,
{
    lemma_first_has_mode(infos, BoardMode::Apollo);
    lemma_first_has_mode(infos, BoardMode::Gateware);
    if let Some(i) = first_in_mode(infos, BoardMode::Apollo) {
        assert(mode_of(infos[i]) == BoardMode::Apollo);
    } else if let Some(i) = first_in_mode(infos, BoardMode::Gateware) {
        assert(mode_of(infos[i]) == BoardMode::Gateware);
    }
}

/// The mode of the first attached Cynthion.
pub open spec fn detected(infos: Seq<UsbDeviceInfoView>) -> BoardMode {
    match found(infos) {
        Some(d) => d.mode,
        None => BoardMode::NotFound,
    }
}

/// Apollo is detected if any device is one; gateware if none is but some device runs it; and
/// nothing if there is neither.
pub proof fn detection_prefers_apollo(infos: Seq<UsbDeviceInfoView>)
    ensures
        detected(infos) is Apollo <==> exists|k: int|
            0 <= k < infos.len() && shows_apollo(#[trigger] infos[k]),
        detected(infos) is NotFound <==> forall|k: int|
            0 <= k < infos.len() ==> !shows_apollo(#[trigger] infos[k]) && !(infos[k].vendor_id
                == 0x1d50 && infos[k].product_id == 0x615b),
{
    lemma_first_has_mode(infos, BoardMode::Apollo);
    lemma_first_has_mode(infos, BoardMode::Gateware);
    apollo_is_preferred(infos);
    assert forall|k: int| 0 <= k < infos.len() implies (shows_apollo(#[trigger] infos[k]) <==> mode_of(
        infos[k],
    ) == BoardMode::Apollo) by {
    }
    assert forall|k: int| 0 <= k < infos.len() implies ((!shows_apollo(#[trigger] infos[k]) && !(
    infos[k].vendor_id == 0x1d50 && infos[k].product_id == 0x615b)) <==> mode_of(infos[k])
        == BoardMode::NotFound) by {
    }
    if exists|k: int| 0 <= k < infos.len() && shows_apollo(#[trigger] infos[k]) {
        let k = choose|k: int| 0 <= k < infos.len() && shows_apollo(#[trigger] infos[k]);
        assert(mode_of(infos[k]) == BoardMode::Apollo);
    }
    if detected(infos) is NotFound && found(infos) is Some {
        let d = found(infos)->0;
        assert(d.mode != BoardMode::NotFound);
    }
}

/// Detect whether a Cynthion is attached and in which mode.
pub fn detect(infos: &Vec<UsbDeviceInfo>) -> (m: BoardMode)
    ensures
        m == detected(usb::info_views(infos@)),
{
    match find(infos) {
        Some(d) => d.mode,
        None => BoardMode::NotFound,
    }
}

/// Whether a device is running gateware that carries an Apollo stub interface.
pub open spec fn is_stub(info: UsbDeviceInfoView) -> bool {
    &&& info.vendor_id == VID
    &&& info.product_id == PID_GATEWARE
    &&& usb::first_interface(info.interfaces, STUB_CLASS, STUB_SUBCLASS) is Some
}

/// Where the first Apollo stands in the list of attached devices.
pub fn find_apollo_info(infos: &Vec<UsbDeviceInfo>) -> (r: Option<usize>)
    ensures
        match r {
            Some(i) => i < infos@.len() && first_in_mode(
                usb::info_views(infos@),
                BoardMode::Apollo,
            ) == Some(i as int),
            None => first_in_mode(usb::info_views(infos@), BoardMode::Apollo) is None,
        },
{
    position(infos, BoardMode::Apollo)
}

/// Where the first gateware with an Apollo stub stands in the list of attached devices.
pub fn find_stub_info(infos: &Vec<UsbDeviceInfo>) -> (r: Option<usize>)
    ensures
        match r {
            Some(i) => i < infos@.len() && is_stub(infos@[i as int]@) && forall|k: int|
                0 <= k < i ==> !is_stub(#[trigger] infos@[k]@),
            None => forall|k: int| 0 <= k < infos@.len() ==> !is_stub(#[trigger] infos@[k]@),
        },
{
    let mut i: usize = 0;
    while i < infos.len()
        invariant
            i <= infos@.len(),
            forall|k: int| 0 <= k < i ==> !is_stub(#[trigger] infos@[k]@),
        decreases infos@.len() - i,
    {
        let info = &infos[i];
        if info.vendor_id == VID && info.product_id == PID_GATEWARE && usb::find_interface(
            info,
            STUB_CLASS,
            STUB_SUBCLASS,
        ).is_some() {
            return Some(i);
        }
        i = i + 1;
    }
    None
}

/// The requests that Apollo answers: each is a vendor request of its own number, the
/// handoff to the stub's interface and the others to the device; a string is read into 256
/// bytes, the version of the USB interface into two, and the others read nothing.
pub proof fn apollo_requests(n: u8, request: u8)
    ensures
        handoff_asked(n) == (VendorRequest {
            request_type: 0x41,
            request: 0xF0,
            value: 0,
            index: n as u16,
            length: 0,
        }),
        string_asked(request) == (VendorRequest {
            request_type: 0xC0,
            request,
            value: 0,
            index: 0,
            length: 256,
        }),
        usb_api_asked() == (VendorRequest {
            request_type: 0xC0,
            request: 0xA3,
            value: 0,
            index: 0,
            length: 2,
        }),
        reconfigure_asked() == (VendorRequest {
            request_type: 0x40,
            request: 0xC0,
            value: 0,
            index: 0,
            length: 0,
        }),
        REQUEST_GET_ID == 0xA0,
        REQUEST_GET_FIRMWARE_VERSION == 0xA2,
{
}

/// The request that asks the stub on interface `n` for the port.
pub open spec fn handoff_asked(n: u8) -> VendorRequest {
    VendorRequest::tells(Recipient::Interface, REQUEST_APOLLO_ADV_STOP, 0, n as u16)
}

/// The request that reads a string.
pub open spec fn string_asked(request: u8) -> VendorRequest {
    VendorRequest::reads(Recipient::Device, request, 0, 0, 256)
}

/// The request that reads the version of the USB interface.
pub open spec fn usb_api_asked() -> VendorRequest {
    VendorRequest::reads(Recipient::Device, REQUEST_GET_USB_API_VERSION, 0, 0, 2)
}

/// The request that has the FPGA configured from flash.
pub open spec fn reconfigure_asked() -> VendorRequest {
    VendorRequest::tells(Recipient::Device, REQUEST_RECONFIGURE, 0, 0)
}

/// The request that asks running gateware to release the shared USB port, and the
/// interface to claim for it. The device disconnects and re-enumerates as Apollo,
/// so an error from the transfer itself is expected and to be ignored.
pub fn request_handoff(info: &UsbDeviceInfo) -> (r: Result<VendorRequest>)
    ensures
        match usb::first_interface(info@.interfaces, STUB_CLASS, STUB_SUBCLASS) {
            Some(n) => r == Ok::<_, Error>(handoff_asked(n)),
            None => r matches Err(e) && e@ == ErrorView::Unsupported(
                "no Apollo stub interface on device"@,
            ),
        },
{
    match usb::find_interface(info, STUB_CLASS, STUB_SUBCLASS) {
        Some(n) => Ok(
            usb::vendor_out(Recipient::Interface, REQUEST_APOLLO_ADV_STOP, 0, n as u16),
        ),
        None => Err(Error::Unsupported("no Apollo stub interface on device")),
    }
}

/// What to do next while opening Apollo.
#[derive(Debug)]
pub enum OpenStep {
    /// Open the device at this place in the list and claim its interface 0.
    Connect(usize),
    /// Ask the device at this place in the list to hand off the USB port; then
    /// wait 100 ms and list the devices again.
    HandOff(usize),
    /// Wait 100 ms, then list the devices again.
    Wait,
    /// Opening has failed.
    Fail(Error),
}

/// Opening Apollo: connect directly if the board is in Apollo mode; otherwise ask
/// gateware with a stub interface for the USB port and wait for Apollo to
/// re-enumerate, looking up to 50 times (~5 s).
pub struct ApolloOpen {
    /// Looks left after the handoff; `None` before it.
    looks: Option<u32>,
}

/// What opening Apollo does next, with `left` looks left before and `after` after it:
/// connect to the first Apollo there is; without one, ask the first stub for the port, or
/// fail; after that, look again until no look is left.
pub open spec fn open_step(
    left: Option<u32>,
    infos: Seq<UsbDeviceInfo>,
    s: OpenStep,
    after: Option<u32>,
) -> bool {
    match first_in_mode(usb::info_views(infos), BoardMode::Apollo) {
        Some(i) => {
            &&& s matches OpenStep::Connect(k) && k == i && k < infos.len()
            &&& after == left
        },
        None => match left {
            None => match s {
                OpenStep::HandOff(i) => {
                    &&& i < infos.len() && is_stub(infos[i as int]@)
                    &&& forall|k: int| 0 <= k < i ==> !is_stub(#[trigger] infos[k]@)
                    &&& after == Some(50u32)
                },
                OpenStep::Fail(e) => {
                    &&& e@ == ErrorView::NoDevice
                    &&& forall|k: int| 0 <= k < infos.len() ==> !is_stub(#[trigger] infos[k]@)
                    &&& after is None
                },
                _ => false,
            },
            Some(n) => if n <= 1 {
                &&& s matches OpenStep::Fail(e) && e@ == ErrorView::Protocol(
                    "requested Apollo handoff but Apollo did not re-enumerate"@,
                )
                &&& after == Some(0u32)
            } else {
                s is Wait && after == Some((n - 1) as u32)
            },
        },
    }
}

/// An attempt at opening Apollo: the devices listed for each step, the step taken, and
/// the looks left before each step and after the last.
pub struct OpenRun {
    pub lists: Seq<Seq<UsbDeviceInfo>>,
    pub steps: Seq<OpenStep>,
    pub left: Seq<Option<u32>>,
}

impl OpenRun {
    /// Whether the attempt starts afresh and each step is the one that is due.
    pub open spec fn follows(self) -> bool {
        &&& self.steps.len() == self.lists.len()
        &&& self.left.len() == self.lists.len() + 1
        &&& self.left[0] is None
        &&& forall|i: int|
            0 <= i < self.steps.len() ==> open_step(
                self.left[i],
                self.lists[i],
                #[trigger] self.steps[i],
                self.left[i + 1],
            )
    }
}

/// Whether a device is Apollo, by its IDs.
pub open spec fn shows_apollo(info: UsbDeviceInfoView) -> bool {
    info.vendor_id == 0x1d50 && info.product_id == 0x615c || info.vendor_id == 0x1209
        && info.product_id == 0x0010
}

/// Whether a device runs gateware with an Apollo stub: IDs 1d50:615b, and an interface of
/// class 0xFF and subclass 0.
pub open spec fn shows_stub(info: UsbDeviceInfoView) -> bool {
    &&& info.vendor_id == 0x1d50
    &&& info.product_id == 0x615b
    &&& exists|i: int|
        0 <= i < info.interfaces.len() && (#[trigger] info.interfaces[i]).class == 0xFF
            && info.interfaces[i].sub_class == 0
}

/// What a device on the bus is goes by its IDs, and a board keeps the serial number, bus
/// and address that the device has.
pub proof fn boards_are_told_by_their_ids(info: UsbDeviceInfoView)
    ensures
        mode_of(info) is Apollo <==> shows_apollo(info),
        mode_of(info) is Gateware <==> info.vendor_id == 0x1d50 && info.product_id == 0x615b,
        is_stub(info) <==> shows_stub(info),
        board(info).mode == mode_of(info),
        board(info).serial == info.serial,
        board(info).bus_id == info.bus_id,
        board(info).address == info.address,
{
    usb::interface_is_found(info.interfaces, 0xFF, 0);
}

/// The board found is the first device of its mode, wherever else it stands.
pub proof fn first_board_is_found(
    before: Seq<UsbDeviceInfoView>,
    one: UsbDeviceInfoView,
    after: Seq<UsbDeviceInfoView>,
)
    requires
        forall|k: int| 0 <= k < before.len() ==> !shows_apollo(#[trigger] before[k]),
    ensures
        shows_apollo(one) ==> found(before.push(one) + after) == Some(board(one)),
        mode_of(one) is Gateware && (forall|k: int|
            0 <= k < before.len() ==> mode_of(#[trigger] before[k]) is NotFound) && (forall|k: int|
            0 <= k < after.len() ==> !shows_apollo(#[trigger] after[k])) ==> found(
            before.push(one) + after,
        ) == Some(board(one)),
{
    let all = before.push(one) + after;
    let n = before.len() as int;
    assert(all[n] == one);
    assert(forall|k: int| 0 <= k < n ==> all[k] == before[k]);
    lemma_first_has_mode(all, BoardMode::Apollo);
    lemma_first_has_mode(all, BoardMode::Gateware);
    if shows_apollo(one) {
        let i = first_in_mode(all, BoardMode::Apollo)->0;
        assert(mode_of(all[n]) is Apollo);
        assert(i >= n) by {
            if i < n {
                assert(!shows_apollo(before[i]));
            }
        }
    } else if mode_of(one) is Gateware && (forall|k: int|
        0 <= k < before.len() ==> mode_of(#[trigger] before[k]) is NotFound) && (forall|k: int|
        0 <= k < after.len() ==> !shows_apollo(#[trigger] after[k])) {
        if let Some(i) = first_in_mode(all, BoardMode::Apollo) {
            if i < n {
                assert(!shows_apollo(before[i]));
            } else if i > n {
                assert(all[i] == after[i - n - 1]);
            }
        }
        assert(mode_of(all[n]) is Gateware);
        let g = first_in_mode(all, BoardMode::Gateware)->0;
        assert(g >= n) by {
            if g < n {
                assert(mode_of(before[g]) is NotFound);
            }
        }
    }
}

/// The first device of a mode is of that mode, no device before it is, and one is found
/// exactly if there is one.
pub proof fn first_in_mode_is_the_first(infos: Seq<UsbDeviceInfoView>, mode: BoardMode, i: int)
    requires
        0 <= i < infos.len(),
    ensures
        first_in_mode(infos, mode) == Some(i) <==> mode_of(infos[i]) == mode && forall|k: int|
            0 <= k < i ==> mode_of(#[trigger] infos[k]) != mode,
        mode_of(infos[i]) == mode ==> first_in_mode(infos, mode) is Some,
{
    lemma_first_has_mode(infos, mode);
    if mode_of(infos[i]) == mode && forall|k: int|
        0 <= k < i ==> mode_of(#[trigger] infos[k]) != mode {
        let f = first_in_mode(infos, mode);
        assert(f is Some);
        assert(f->0 >= i) by {
            if f->0 < i {
                assert(mode_of(infos[f->0]) != mode);
            }
        }
        assert(f->0 <= i) by {
            if f->0 > i {
                assert(mode_of(infos[i]) != mode);
            }
        }
    }
}

/// Opening connects only to an Apollo, and to the first in the list; it does so as soon as
/// there is one. It asks only a stub for the port, only if there is no Apollo, and only as
/// its first step.
pub proof fn apollo_is_opened_when_it_is_there(run: OpenRun, i: int)
    requires
        run.follows(),
        0 <= i < run.steps.len(),
    ensures
        run.steps[i] matches OpenStep::Connect(k) ==> k < run.lists[i].len() && shows_apollo(
            run.lists[i][k as int]@,
        ) && forall|j: int| 0 <= j < k ==> !shows_apollo(#[trigger] run.lists[i][j]@),
        (exists|j: int| 0 <= j < run.lists[i].len() && shows_apollo(#[trigger] run.lists[i][j]@))
            ==> run.steps[i] is Connect,
        run.steps[i] matches OpenStep::HandOff(k) ==> run.left[i] is None && k < run.lists[i].len()
            && shows_stub(run.lists[i][k as int]@) && forall|j: int|
            0 <= j < run.lists[i].len() ==> !shows_apollo(#[trigger] run.lists[i][j]@),
{
    let infos = run.lists[i];
    let all = usb::info_views(infos);
    lemma_first_has_mode(all, BoardMode::Apollo);
    assert(open_step(run.left[i], infos, run.steps[i], run.left[i + 1]));
    assert forall|j: int| 0 <= j < infos.len() implies all[j] == #[trigger] infos[j]@ by {
    }
    match run.steps[i] {
        OpenStep::Connect(k) => {
            boards_are_told_by_their_ids(infos[k as int]@);
            assert forall|j: int| 0 <= j < k implies !shows_apollo(#[trigger] infos[j]@) by {
                assert(mode_of(all[j]) != BoardMode::Apollo);
            }
        },
        OpenStep::HandOff(k) => {
            boards_are_told_by_their_ids(infos[k as int]@);
            assert forall|j: int| 0 <= j < infos.len() implies !shows_apollo(
                #[trigger] infos[j]@,
            ) by {
                assert(mode_of(all[j]) != BoardMode::Apollo);
            }
        },
        _ => {},
    }
    if exists|j: int| 0 <= j < infos.len() && shows_apollo(#[trigger] infos[j]@) {
        let j = choose|j: int| 0 <= j < infos.len() && shows_apollo(#[trigger] infos[j]@);
        assert(mode_of(all[j]) == BoardMode::Apollo);
    }
}

/// Without an Apollo, opening either fails at once, for want of a stub to ask, or asks for
/// the port first, looks again 49 times, and fails at the fiftieth look after the handoff.
pub proof fn apollo_is_awaited_for_fifty_looks(run: OpenRun, i: int)
    requires
        run.follows(),
        0 <= i < run.steps.len(),
        i <= 50,
        run.steps[0] is HandOff,
        forall|k: int, j: int|
            0 <= k <= i && 0 <= j < run.lists[k].len() ==> !shows_apollo(
                #[trigger] run.lists[k][j]@,
            ),
    ensures
        i == 0 ==> run.steps[i] is HandOff,
        0 < i < 50 ==> run.steps[i] is Wait,
        i == 50 ==> (run.steps[i] matches OpenStep::Fail(e) && e@ == ErrorView::Protocol(
            "requested Apollo handoff but Apollo did not re-enumerate"@,
        )),
        i < 50 ==> run.left[i + 1] == Some((50 - i) as u32),
    decreases i,
{
    let infos = run.lists[i];
    let all = usb::info_views(infos);
    lemma_first_has_mode(all, BoardMode::Apollo);
    assert(open_step(run.left[i], infos, run.steps[i], run.left[i + 1]));
    if let Some(k) = first_in_mode(all, BoardMode::Apollo) {
        assert(all[k] == infos[k]@);
        assert(!shows_apollo(run.lists[i][k]@));
        assert(false);
    }
    if i > 0 {
        apollo_is_awaited_for_fifty_looks(run, i - 1);
    }
}

/// With neither an Apollo nor a stub attached, opening fails for want of a device.
pub proof fn nothing_to_open_is_no_device(infos: Seq<UsbDeviceInfo>, s: OpenStep, after: Option<u32>)
    requires
        open_step(None, infos, s, after),
        forall|j: int|
            0 <= j < infos.len() ==> !shows_apollo(#[trigger] infos[j]@) && !shows_stub(infos[j]@),
    ensures
        s matches OpenStep::Fail(e) && e@ == ErrorView::NoDevice,
{
    let all = usb::info_views(infos);
    lemma_first_has_mode(all, BoardMode::Apollo);
    if let Some(k) = first_in_mode(all, BoardMode::Apollo) {
        assert(all[k] == infos[k]@);
    }
    if let OpenStep::HandOff(k) = s {
        boards_are_told_by_their_ids(infos[k as int]@);
    }
}

impl ApolloOpen {
    /// How many looks are left after the handoff; `None` before it.
    pub closed spec fn looks_left(self) -> Option<u32> {
        self.looks
    }

    /// Start opening.
    pub fn new() -> (o: ApolloOpen)
        ensures
            o.looks_left() is None,
    {
        ApolloOpen { looks: None }
    }

    /// Decide what to do, given the devices attached now.
    pub fn step(&mut self, infos: &Vec<UsbDeviceInfo>) -> (s: OpenStep)
        ensures
            open_step(old(self).looks_left(), infos@, s, final(self).looks_left()),
    {
        if let Some(i) = find_apollo_info(infos) {
            return OpenStep::Connect(i);
        }
        match self.looks {
            None => match find_stub_info(infos) {
                Some(i) => {
                    self.looks = Some(50);
                    OpenStep::HandOff(i)
                },
                None => OpenStep::Fail(Error::NoDevice),
            },
            Some(n) => {
                if n <= 1 {
                    self.looks = Some(0);
                    OpenStep::Fail(
                        Error::Protocol(
                            "requested Apollo handoff but Apollo did not re-enumerate".to_owned(),
                        ),
                    )
                } else {
                    self.looks = Some(n - 1);
                    OpenStep::Wait
                }
            },
        }
    }
}

/// The request that reads an identity or version string from Apollo.
pub fn string_request(request: u8) -> (r: VendorRequest)
    ensures
        r == string_asked(request),
{
    usb::vendor_in(Recipient::Device, request, 0, 0, 256)
}

/// The part of a string response before its first NUL byte, if it has one.
pub open spec fn before_nul(data: Seq<u8>) -> Seq<u8>
    decreases data.len(),
{
    if data.len() == 0 || data[0] == 0 {
        Seq::empty()
    } else {
        seq![data[0]] + before_nul(data.skip(1))
    }
}

/// What is taken of a string response is its longest start without a NUL byte.
pub proof fn string_ends_at_the_first_nul(data: Seq<u8>)
    ensures
        ({
            let s = before_nul(data);
            &&& s.len() <= data.len()
            &&& s == data.take(s.len() as int)
            &&& forall|i: int| 0 <= i < s.len() ==> #[trigger] s[i] != 0
            &&& s.len() < data.len() ==> data[s.len() as int] == 0
        }),
    decreases data.len(),
{
    let s = before_nul(data);
    if data.len() > 0 && data[0] != 0 {
        let rest = data.skip(1);
        string_ends_at_the_first_nul(rest);
        let t = before_nul(rest);
        assert(s =~= data.take(s.len() as int)) by {
            assert forall|i: int| 0 < i < s.len() implies s[i] == data[i] by {
                assert(s[i] == t[i - 1]);
                assert(t[i - 1] == rest.take(t.len() as int)[i - 1]);
            }
        }
        assert forall|i: int| 0 <= i < s.len() implies #[trigger] s[i] != 0 by {
            if i > 0 {
                assert(s[i] == t[i - 1]);
            }
        }
    } else {
        assert(data.take(0) =~= s);
    }
}

/// The length of the part of a string response before its first NUL byte.
pub fn string_length(data: &[u8]) -> (n: usize)
    ensures
        n <= data@.len(),
        data@.take(n as int) == before_nul(data@),
{
    let mut n: usize = 0;
    let ghost all = data@;
    assert(all.skip(0) =~= all);
    assert(all.take(0) + before_nul(all.skip(0)) =~= before_nul(all));
    while n < data.len() && data[n] != 0
        invariant
            n <= all.len(),
            all == data@,
            all.take(n as int) + before_nul(all.skip(n as int)) == before_nul(all),
        decreases all.len() - n,
    {
        proof {
            let rest = all.skip(n as int);
            assert(rest.skip(1) =~= all.skip(n + 1));
            assert(all.take(n + 1) + before_nul(all.skip(n + 1)) =~= all.take(n as int)
                + before_nul(rest));
        }
        n = n + 1;
    }
    assert(before_nul(all.skip(n as int)) =~= Seq::<u8>::empty());
    assert(all.take(n as int) =~= before_nul(all));
    n
}

/// The text of a string response: the bytes before the first NUL, as UTF-8 with
/// invalid sequences replaced.
pub fn string_value(data: &[u8]) -> (s: String)
    ensures
        s@ == text::lossy_utf8(before_nul(data@)),
        vstd::utf8::valid_utf8(before_nul(data@)) ==> s@ == vstd::utf8::decode_utf8(
            before_nul(data@),
        ),
{
    let n: usize = string_length(data);
    let part = slice_subrange(data, 0, n);
    assert(part@ =~= data@.take(n as int));
    text::decode_utf8_lossy(part)
}

/// The request that reads Apollo's USB API version.
pub fn usb_api_request() -> (r: VendorRequest)
    ensures
        r == usb_api_asked(),
{
    usb::vendor_in(Recipient::Device, REQUEST_GET_USB_API_VERSION, 0, 0, 2)
}

/// The version that a response holds.
pub open spec fn api_version_in(data: Seq<u8>) -> Option<(u8, u8)> {
    if data.len() < 2 {
        None
    } else {
        Some((data[0], data[1]))
    }
}

/// The version is the first two bytes of the response, the major one first.
pub proof fn api_version_is_major_then_minor(major: u8, minor: u8, rest: Seq<u8>)
    ensures
        api_version_in(seq![major, minor] + rest) == Some((major, minor)),
        api_version_in(seq![major]) is None,
        api_version_in(Seq::empty()) is None,
{
}

/// The Apollo USB API version as `(major, minor)`, given the response.
pub fn usb_api_version(data: &[u8]) -> (r: Result<(u8, u8)>)
    ensures
        match api_version_in(data@) {
            Some(v) => r == Ok::<_, Error>(v),
            None => error::is_protocol_error(r, "short USB API version response"@),
        },
{
    if data.len() < 2 {
        return Err(Error::Protocol("short USB API version response".to_owned()));
    }
    Ok((data[0], data[1]))
}

/// The request that triggers Apollo to reconfigure the FPGA from its SPI flash
/// (restores the previously-flashed gateware, e.g. the analyzer).
pub fn reconfigure_request() -> (r: VendorRequest)
    ensures
        r == reconfigure_asked(),
{
    usb::vendor_out(Recipient::Device, REQUEST_RECONFIGURE, 0, 0)
}

/// Program `bitstream` to the board's ECP5 at `target`, given a way to open Apollo.
///
/// The JTAG/ECP5 bitstream playback is not yet implemented; this validates inputs
/// and the Apollo link so the surrounding tooling is wired and testable today. An
/// empty bitstream is refused before Apollo is opened.
pub fn flash<F: FnOnce() -> Result<()>>(bitstream: &[u8], target: FlashTarget, open: F) -> (r:
    Result<()>)
    requires
        bitstream@.len() > 0 ==> open.requires(()),
    ensures
        if bitstream@.len() == 0 {
            error::is_protocol_error(r, "empty bitstream"@)
        } else {
            exists|link: Result<()>| #[trigger]
                open.ensures((), link) && flash_outcome(link, r)
        },
{
    if bitstream.len() == 0 {
        return Err(Error::Protocol("empty bitstream".to_owned()));
    }
    let link = open();
    proof {
        assert(open.ensures((), link));
    }
    match link {
        Ok(_) => {
            let r = Err(
                Error::Unsupported(
                    "Apollo link is up, but ECP5 bitstream playback (JTAG) is not yet implemented \u{2014} that is the next step",
                ),
            );
            assert(flash_outcome(link, r));
            r
        },
        Err(e) => Err(e),
    }
}

/// What flashing returns, given how opening Apollo went.
pub open spec fn flash_outcome(link: Result<()>, r: Result<()>) -> bool {
    match link {
        Err(e) => r == Err::<(), _>(e),
        Ok(_) => r matches Err(e) && e@ == ErrorView::Unsupported(
            "Apollo link is up, but ECP5 bitstream playback (JTAG) is not yet implemented \u{2014} that is the next step"@,
        ),
    }
}

/// Flashing tells why Apollo could not be opened, and, once it could, that playing the bitstream
/// back is not there yet; it never claims to have flashed anything.
pub proof fn flashing_claims_nothing(link: Result<()>, r: Result<()>)
    requires
        flash_outcome(link, r),
    ensures
        r is Err,
        link matches Err(e) ==> r->Err_0 == e,
        link is Ok ==> (r->Err_0)@ == ErrorView::Unsupported(
            "Apollo link is up, but ECP5 bitstream playback (JTAG) is not yet implemented \u{2014} that is the next step"@,
        ),
{
}

} // verus!

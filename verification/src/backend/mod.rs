//! Device backends. Each backend knows how to recognize and open one family of
//! magic USB devices.

use vstd::prelude::*;

use crate::usb::UsbDeviceInfo;
use crate::usb::UsbDeviceInfoView;

pub mod cynthion;

verus! {

/// A driver for one family of magic USB devices. Opening a device is up to the
/// program that holds it.
pub trait Backend: Sync {
    /// The backend's name.
    spec fn named(&self) -> Seq<char>;

    /// Whether the backend can handle a device.
    spec fn handles(&self, info: UsbDeviceInfoView) -> bool;

    /// Short, stable backend name (e.g. `"cynthion"`).
    fn name(&self) -> (s: &'static str)
        ensures
            s@ == self.named(),
    ;

    /// Whether this backend can handle the given USB device.
    fn matches(&self, info: &UsbDeviceInfo) -> (r: bool)
        ensures
            r == self.handles(info@),
    ;
}

/// The name of the first backend that handles a device, if any does.
pub open spec fn recognized(info: UsbDeviceInfoView) -> Option<Seq<char>> {
    if cynthion::Cynthion.handles(info) {
        Some(cynthion::Cynthion.named())
    } else {
        None
    }
}

/// A device is recognized, as a Cynthion, exactly if its IDs are 1d50:615b and one of its
/// interfaces is of class 0xFF and subclass 0x10.
pub proof fn analyzers_are_recognized(info: UsbDeviceInfoView)
    ensures
        recognized(info) is Some <==> info.vendor_id == 0x1d50 && info.product_id == 0x615b
            && exists|i: int|
            0 <= i < info.interfaces.len() && (#[trigger] info.interfaces[i]).class == 0xFF
                && info.interfaces[i].sub_class == 0x10,
        recognized(info) is Some ==> recognized(info)->0 == "cynthion"@,
{
    crate::usb::interface_is_found(info.interfaces, 0xFF, 0x10);
}

/// The name of the first backend that handles the given USB device, if any does.
pub fn recognize(info: &UsbDeviceInfo) -> (r: Option<&'static str>)
    ensures
        match r {
            Some(name) => recognized(info@) == Some(name@),
            None => recognized(info@) is None,
        },
{
    let cynthion = cynthion::Cynthion;
    if cynthion.matches(info) {
        Some(cynthion.name())
    } else {
        None
    }
}

} // verus!

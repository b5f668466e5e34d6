use usbmagic::mock::MockHost;
use usbmagic::usb::{find_interface, UsbDeviceInfo, UsbInterfaceInfo};
use usbmagic::{
    discover, Capabilities, CaptureData, CaptureItem, CaptureModel, CaptureOptions, CaptureSource,
    CaptureStream, DeviceDescription, DeviceModel, Error, MagicDevice, Result, Speed, State,
};

fn device(product_id: u16, sub_class: u8, address: u8) -> UsbDeviceInfo {
    UsbDeviceInfo {
        vendor_id: 0x1d50,
        product_id,
        product: Some("USB Analyzer".to_string()),
        serial: None,
        bus_id: "usb3".to_string(),
        address,
        interfaces: vec![
            UsbInterfaceInfo { number: 5, class: 0xff, sub_class },
            UsbInterfaceInfo { number: 6, class: 0xff, sub_class },
        ],
    }
}

#[test]
fn discovery_finds_every_analyzer_in_order() {
    let devices = vec![
        device(0x615b, 0x10, 1),
        device(0x615c, 0x10, 2),
        device(0x615b, 0x11, 3),
        device(0x615b, 0x10, 4),
    ];
    let found = discover(&devices);
    let places: Vec<usize> = found.iter().map(|d| d.position()).collect();
    assert_eq!(places, vec![0, 3]);
    let d = found[1].description();
    assert_eq!((d.backend, d.vendor_id, d.product_id, d.address), ("cynthion", 0x1d50, 0x615b, 4));
    assert_eq!(d.product.as_deref(), Some("USB Analyzer"));
    assert_eq!((d.serial.as_deref(), d.bus_id.as_str()), (None, "usb3"));
    assert!(discover(&vec![]).is_empty());
}

#[test]
fn first_matching_interface_is_found() {
    assert_eq!(find_interface(&device(0x615b, 0x10, 1), 0xff, 0x10), Some(5));
    assert_eq!(find_interface(&device(0x615b, 0x10, 1), 0xff, 0x11), None);
}

#[test]
fn capture_defaults_are_passive() {
    let o = CaptureOptions::default();
    assert_eq!(o.speed, Speed::Auto);
    assert!(!o.vbus_passthrough);
    assert_eq!(Speed::Low.as_str(), "low");
    assert_eq!(Speed::from_encoded(7).encode(), 3);
}

#[test]
fn errors_have_messages() {
    assert_eq!(Error::Usb("gone".to_string()).message(), "USB error: gone");
    assert_eq!(Error::Io("full".to_string()).message(), "I/O error: full");
    assert_eq!(Error::NoDevice.message(), "no matching magic USB device found");
    assert_eq!(
        Error::AmbiguousDevice.message(),
        "multiple devices match; select one (e.g. by serial number)"
    );
    assert_eq!(Error::Unsupported("this").message(), "unsupported: this");
    assert_eq!(Error::Protocol("odd".to_string()).message(), "protocol error: odd");
}

/// A source that counts down.
struct Countdown(u8);

impl CaptureModel for Countdown {
    type StopFn = u8;
}

impl CaptureSource for Countdown {
    fn next(&mut self) -> Option<Result<CaptureItem>> {
        if self.0 == 0 {
            return None;
        }
        self.0 -= 1;
        Some(Ok(CaptureItem { timestamp_ns: 0, data: CaptureData::Event(self.0) }))
    }

    fn stop(&mut self) -> Result<()> {
        if self.0 == 0 {
            return Err(Error::NoDevice);
        }
        self.0 = 0;
        Ok(())
    }

    fn stop_handle(&self) -> u8 {
        self.0
    }
}

#[test]
fn stream_passes_on_what_its_source_does() {
    let mut s = CaptureStream::new(Countdown(2));
    assert_eq!(s.stop_handle(), 2);
    assert_eq!(s.next().unwrap().unwrap().data, CaptureData::Event(1));
    assert_eq!(s.next().unwrap().unwrap().data, CaptureData::Event(0));
    assert!(s.next().is_none());
    assert!(matches!(s.stop(), Err(Error::NoDevice)));
    assert!(CaptureStream::new(Countdown(1)).stop().is_ok());
}

/// A device that only captures.
struct Plain {
    description: DeviceDescription,
    capabilities: Capabilities,
}

impl DeviceModel for Plain {
    type Source = Countdown;
    type Host = MockHost;
    type Pd = MockHost;
    type Power = MockHost;
}

impl MagicDevice for Plain {
    fn description(&self) -> &DeviceDescription {
        &self.description
    }

    fn capabilities(&self) -> &Capabilities {
        &self.capabilities
    }

    fn read_state(&mut self) -> Result<State> {
        Err(Error::Unsupported("state"))
    }

    fn start_capture(&mut self, _options: CaptureOptions) -> Result<CaptureStream<Countdown>> {
        Ok(CaptureStream::new(Countdown(1)))
    }
}

#[test]
fn device_without_extras_offers_none() {
    let found = discover(&vec![device(0x615b, 0x10, 1)]);
    let mut d = Plain {
        description: found[0].description().clone(),
        capabilities: Capabilities {
            supported_speeds: vec![],
            can_capture: true,
            can_control_vbus: false,
            protocol_version: None,
        },
    };
    assert!(d.as_host().is_none());
    assert!(d.power_delivery().is_none());
    assert!(d.power_monitor().is_none());
    assert!(d.start_capture(CaptureOptions::default()).unwrap().next().is_some());
}

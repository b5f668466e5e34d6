use usbmagic::flash::{
    detect, find, find_stub_info, flash, is_apollo, reconfigure_request, request_handoff,
    string_request, string_value, usb_api_request, usb_api_version, ApolloOpen, BoardMode,
    FlashTarget, OpenStep, REQUEST_GET_ID,
};
use usbmagic::usb::{plan_strings, StringPlan, UsbDeviceInfo, UsbInterfaceInfo};
use usbmagic::Error;

#[test]
fn empty_bitstream_rejected() {
    assert!(matches!(flash(&[], FlashTarget::Sram, || Ok(())), Err(Error::Protocol(_))));
}

#[test]
fn detect_runs() {
    let _ = detect(&Vec::new());
}

fn device(vendor_id: u16, product_id: u16, stub: bool) -> UsbDeviceInfo {
    UsbDeviceInfo {
        vendor_id,
        product_id,
        product: None,
        serial: Some("S1".to_string()),
        bus_id: "2".to_string(),
        address: 4,
        interfaces: if stub {
            vec![UsbInterfaceInfo { number: 3, class: 0xff, sub_class: 0x00 }]
        } else {
            vec![]
        },
    }
}

#[test]
fn board_mode_follows_the_devices() {
    assert_eq!(detect(&vec![]), BoardMode::NotFound);
    assert_eq!(detect(&vec![device(0x1d50, 0x615b, true)]), BoardMode::Gateware);
    assert_eq!(detect(&vec![device(0x1209, 0x0010, false)]), BoardMode::Apollo);
    assert!(is_apollo(0x1d50, 0x615c) && is_apollo(0x1209, 0x0010));
    assert!(!is_apollo(0x1d50, 0x615b));
    // Apollo is preferred, wherever it stands.
    let both = vec![device(0x1d50, 0x615b, true), device(0x1d50, 0x615c, false)];
    let found = find(&both).unwrap();
    assert_eq!(found.mode, BoardMode::Apollo);
    assert_eq!((found.bus_id.as_str(), found.address), ("2", 4));
    assert_eq!(found.serial.as_deref(), Some("S1"));
}

#[test]
fn handoff_addresses_the_stub_interface() {
    let gateware = device(0x1d50, 0x615b, true);
    let r = request_handoff(&gateware).unwrap();
    assert_eq!((r.request_type, r.request, r.index), (0x41, 0xF0, 3));
    assert!(matches!(
        request_handoff(&device(0x1d50, 0x615b, false)),
        Err(Error::Unsupported("no Apollo stub interface on device"))
    ));
    assert_eq!(find_stub_info(&vec![device(0x1d50, 0x615b, false), gateware]), Some(1));
}

#[test]
fn opening_connects_hands_off_or_fails() {
    let apollo = vec![device(0x1d50, 0x615c, false)];
    let gateware = vec![device(0x1d50, 0x615b, true)];
    assert!(matches!(ApolloOpen::new().step(&apollo), OpenStep::Connect(0)));
    assert!(matches!(ApolloOpen::new().step(&vec![]), OpenStep::Fail(Error::NoDevice)));

    let mut open = ApolloOpen::new();
    assert!(matches!(open.step(&gateware), OpenStep::HandOff(0)));
    for _ in 0..49 {
        assert!(matches!(open.step(&vec![]), OpenStep::Wait));
    }
    match open.step(&vec![]) {
        OpenStep::Fail(e) => assert_eq!(
            e.message(),
            "protocol error: requested Apollo handoff but Apollo did not re-enumerate"
        ),
        _ => panic!("expected a failure"),
    }

    let mut open = ApolloOpen::new();
    open.step(&gateware);
    assert!(matches!(open.step(&apollo), OpenStep::Connect(0)));
}

#[test]
fn apollo_requests_and_replies() {
    let r = string_request(REQUEST_GET_ID);
    assert_eq!((r.request_type, r.request, r.length), (0xC0, 0xA0, 256));
    assert_eq!(string_value(b"Apollo\0junk"), "Apollo");
    assert_eq!(string_value(b"v1"), "v1");
    assert_eq!(string_value(&[0x41, 0xFF]), "A\u{fffd}");
    assert_eq!(usb_api_request().length, 2);
    assert_eq!(usb_api_version(&[1, 2, 3]).unwrap(), (1, 2));
    assert_eq!(
        usb_api_version(&[1]).unwrap_err().message(),
        "protocol error: short USB API version response"
    );
    let r = reconfigure_request();
    assert_eq!((r.request_type, r.request), (0x40, 0xC0));
}

#[test]
fn flashing_reports_what_the_link_said() {
    assert!(matches!(
        flash(&[1], FlashTarget::Flash, || Err(Error::NoDevice)),
        Err(Error::NoDevice)
    ));
    assert!(matches!(flash(&[1], FlashTarget::Sram, || Ok(())), Err(Error::Unsupported(_))));
}

#[test]
fn strings_are_read_only_where_there_are_some() {
    assert_eq!(plan_strings(&None, 1, 2), None);
    assert_eq!(plan_strings(&Some(vec![]), 1, 2), None);
    assert_eq!(
        plan_strings(&Some(vec![0x0409, 0x0407]), 0, 3),
        Some(StringPlan { lang: 0x0409, product: None, serial: Some(3) })
    );
}

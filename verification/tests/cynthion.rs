use usbmagic::backend::cynthion::{
    clk_to_ns, decode_speeds, decode_state, encode_state, plan_capture, register_request,
    register_value, state_request, CapturePlan, CaptureStep, Cynthion, CynthionCapture,
    RecordParser, REQ_GET_SPEEDS, REQ_SET_STATE,
};
use usbmagic::backend::{recognize, Backend};
use usbmagic::usb::{UsbDeviceInfo, UsbInterfaceInfo};
use usbmagic::{CaptureData, CaptureOptions, Error, Speed};

#[test]
fn clk_to_ns_table() {
    assert_eq!(clk_to_ns(0), 0);
    assert_eq!(clk_to_ns(1), 16);
    assert_eq!(clk_to_ns(2), 33);
    assert_eq!(clk_to_ns(3), 50);
    assert_eq!(clk_to_ns(6), 100);
    assert_eq!(clk_to_ns(60_000_000), 1_000_000_000); // 1 s at 60 MHz
}

#[test]
fn speed_mask_and_encode_roundtrip() {
    for s in Speed::ALL {
        assert_eq!(Speed::from_encoded(s.encode()), s);
    }
    assert_eq!(decode_speeds(0b1111), Speed::ALL.to_vec());
    assert_eq!(decode_speeds(0b1000), vec![Speed::High]);
    assert_eq!(decode_speeds(0b0000), Vec::<Speed>::new());
}

#[test]
fn state_encode_decode() {
    let b = encode_state(Speed::High, true, true);
    let s = decode_state(b);
    assert!(s.enable);
    assert_eq!(s.speed, Speed::High);
    assert!(s.target_c_vbus_en);
    assert!(!decode_state(encode_state(Speed::Full, false, false)).enable);
}

/// A packet record with the given payload and cycle delta, plus alignment pad.
fn packet_record(delta: u16, payload: &[u8]) -> Vec<u8> {
    let mut r = Vec::new();
    r.extend_from_slice(&(payload.len() as u16).to_be_bytes());
    r.extend_from_slice(&delta.to_be_bytes());
    r.extend_from_slice(payload);
    if payload.len() % 2 == 1 {
        r.push(0x00); // 16-bit alignment padding
    }
    r
}

fn event_record(code: u8, delta: u16) -> Vec<u8> {
    let mut r = vec![0xFF, code];
    r.extend_from_slice(&delta.to_be_bytes());
    r
}

#[test]
fn parses_packet_event_and_odd_padding() {
    let mut stream = Vec::new();
    stream.extend(packet_record(3, &[0xC3, 0x01, 0x02])); // odd length -> padded
    stream.extend(event_record(0x05, 3));
    stream.extend(packet_record(6, &[0x69, 0x00])); // even length -> no pad

    let mut p = RecordParser::new();
    p.extend(&stream);

    let a = p.next_item().expect("packet");
    assert_eq!(a.data, CaptureData::Packet(vec![0xC3, 0x01, 0x02]));
    assert_eq!(a.timestamp_ns, clk_to_ns(3));

    let b = p.next_item().expect("event");
    assert_eq!(b.data, CaptureData::Event(0x05));
    assert_eq!(b.timestamp_ns, clk_to_ns(6)); // cumulative: 3 + 3

    let c = p.next_item().expect("packet");
    assert_eq!(c.data, CaptureData::Packet(vec![0x69, 0x00]));
    assert_eq!(c.timestamp_ns, clk_to_ns(12)); // cumulative: 6 + 6

    assert!(p.next_item().is_none());
}

#[test]
fn handles_records_split_across_reads() {
    let record = packet_record(10, &[0xAA, 0xBB, 0xCC, 0xDD]);
    let mut p = RecordParser::new();

    // Feed the record one byte at a time; only the last byte completes it.
    for (i, byte) in record.iter().enumerate() {
        p.extend(&[*byte]);
        if i + 1 < record.len() {
            assert!(p.next_item().is_none(), "incomplete at byte {i}");
        }
    }
    let item = p.next_item().expect("completed packet");
    assert_eq!(item.data, CaptureData::Packet(vec![0xAA, 0xBB, 0xCC, 0xDD]));
    assert!(p.next_item().is_none());
}

fn analyzer() -> UsbDeviceInfo {
    UsbDeviceInfo {
        vendor_id: 0x1d50,
        product_id: 0x615b,
        product: Some("Analyzer".to_string()),
        serial: Some("abc123".to_string()),
        bus_id: "1".to_string(),
        address: 7,
        interfaces: vec![
            UsbInterfaceInfo { number: 0, class: 0xff, sub_class: 0x00 },
            UsbInterfaceInfo { number: 2, class: 0xff, sub_class: 0x10 },
        ],
    }
}

#[test]
fn state_bits_are_where_the_gateware_reads_them() {
    // Enable in bit 0, speed in bits 1-2, TARGET-C VBUS in bit 3.
    assert_eq!(encode_state(Speed::Auto, false, false), 0x00);
    assert_eq!(encode_state(Speed::Low, true, false), 0x03);
    assert_eq!(encode_state(Speed::High, true, false), 0x07);
    assert_eq!(encode_state(Speed::Full, false, true), 0x0C);
}

#[test]
fn speeds_follow_the_mask_in_order() {
    assert_eq!(decode_speeds(0b0101), vec![Speed::Auto, Speed::Full]);
    assert_eq!(decode_speeds(0xF0), Vec::<Speed>::new());
}

#[test]
fn analyzer_is_recognized_by_ids_and_interface() {
    let dev = analyzer();
    assert_eq!(recognize(&dev), Some("cynthion"));
    assert_eq!(Cynthion.capture_interface(&dev).unwrap(), 2);

    let mut other = analyzer();
    other.product_id = 0x615c;
    assert_eq!(recognize(&other), None);

    let mut bare = analyzer();
    bare.interfaces.pop();
    assert_eq!(recognize(&bare), None);
    assert!(matches!(
        Cynthion.capture_interface(&bare),
        Err(Error::Unsupported("no analyzer interface on device"))
    ));
}

#[test]
fn registers_are_read_and_written_by_vendor_requests() {
    let r = register_request(2, REQ_GET_SPEEDS);
    assert_eq!(r.request_type, 0xC1); // IN, vendor, interface
    assert_eq!((r.request, r.value, r.index, r.length), (REQ_GET_SPEEDS, 0, 2, 64));
    let w = state_request(2, 0x0B);
    assert_eq!(w.request_type, 0x41); // OUT, vendor, interface
    assert_eq!((w.request, w.value, w.index), (REQ_SET_STATE, 0x0B, 2));

    assert_eq!(register_value(&[0x0F, 9], REQ_GET_SPEEDS).unwrap(), 0x0F);
    assert_eq!(
        register_value(&[], REQ_GET_SPEEDS).unwrap_err().message(),
        "protocol error: empty response to request 2"
    );
}

#[test]
fn capture_plan_needs_a_supported_speed() {
    let caps = Cynthion.capabilities(0b1000, Some(1));
    assert_eq!(caps.supported_speeds, vec![Speed::High]);
    assert!(caps.can_capture && caps.can_control_vbus);
    assert_eq!(caps.protocol_version, Some(1));

    let plan = plan_capture(&caps, CaptureOptions { speed: Speed::High, vbus_passthrough: true });
    assert_eq!(plan.unwrap(), CapturePlan { stop_state: 0x06, run_state: 0x0F });

    let refused = plan_capture(&caps, CaptureOptions { speed: Speed::Low, vbus_passthrough: false });
    assert!(matches!(refused, Err(Error::Unsupported("speed not supported by this device"))));
}

#[test]
fn clock_is_kept_in_cycles() {
    // Three deltas of one cycle end at 50 ns, not at three times 16 ns.
    let mut p = RecordParser::new();
    for _ in 0..3 {
        p.extend(&event_record(1, 1));
    }
    let mut times = Vec::new();
    while let Some(item) = p.next_item() {
        times.push(item.timestamp_ns);
    }
    assert_eq!(times, vec![16, 33, 50]);
}

#[test]
fn cutting_a_stream_does_not_change_its_items() {
    let mut stream = packet_record(7, &[1, 2, 3]);
    stream.extend(event_record(9, 5));
    stream.extend(packet_record(1, &[]));

    let mut whole = RecordParser::new();
    whole.extend(&stream);
    let mut want = Vec::new();
    while let Some(item) = whole.next_item() {
        want.push((item.timestamp_ns, item.data));
    }
    assert_eq!(want.len(), 3);

    for cut in 0..=stream.len() {
        let mut p = RecordParser::new();
        let mut got = Vec::new();
        for part in [&stream[..cut], &stream[cut..]] {
            p.extend(part);
            while let Some(item) = p.next_item() {
                got.push((item.timestamp_ns, item.data));
            }
        }
        assert_eq!(got, want);
    }
}

#[test]
fn capture_reads_hands_out_and_stops_once() {
    let mut c = CynthionCapture::new(0x04);
    assert!(matches!(c.step(), CaptureStep::Read));
    c.received(&event_record(3, 6));
    assert!(c.next_fits());
    match c.step() {
        CaptureStep::Item(item) => {
            assert_eq!(item.data, CaptureData::Event(3));
            assert_eq!(item.timestamp_ns, 100);
        }
        _ => panic!("expected an item"),
    }
    assert!(matches!(c.step(), CaptureStep::Read));
    c.received(&[]);
    assert!(matches!(c.step(), CaptureStep::Ended));

    assert_eq!(c.stop_state(), 0x04);
    assert_eq!(c.stop(), Some(0x04));
    assert_eq!(c.stop(), None);

    let mut broken = CynthionCapture::new(0);
    broken.failed();
    assert!(matches!(broken.step(), CaptureStep::Ended));
}

#[test]
fn the_backend_names_itself() {
    assert_eq!(Cynthion.name(), "cynthion");
    assert!(Cynthion.matches(&analyzer()));
    let mut other = analyzer();
    other.product_id = 1;
    assert!(!Cynthion.matches(&other));
}

#[test]
fn a_stream_reads_back_however_it_is_cut() {
    let mut stream = Vec::new();
    stream.extend(packet_record(3, &[0xC3, 0x01, 0x02]));
    stream.extend(event_record(0x05, 0xFFFF));
    stream.extend(packet_record(0, &[]));
    stream.extend(event_record(0xFE, 1));
    stream.extend(packet_record(7, &[0x69; 9]));
    let want = vec![
        (CaptureData::Packet(vec![0xC3, 0x01, 0x02]), clk_to_ns(3)),
        (CaptureData::Event(0x05), clk_to_ns(65_538)),
        (CaptureData::Packet(vec![]), clk_to_ns(65_538)),
        (CaptureData::Event(0xFE), clk_to_ns(65_539)),
        (CaptureData::Packet(vec![0x69; 9]), clk_to_ns(65_546)),
    ];
    for size in 1..=stream.len() {
        let mut p = RecordParser::new();
        let mut got = Vec::new();
        for piece in stream.chunks(size) {
            p.extend(piece);
            while let Some(item) = p.next_item() {
                got.push((item.data, item.timestamp_ns));
            }
        }
        assert_eq!(got, want, "pieces of {size}");
    }
}

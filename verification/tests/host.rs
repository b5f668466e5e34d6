use usbmagic::host::descriptors::walk;
use usbmagic::host::{
    descriptor_type, request, Configuration, DeviceDescriptor, Pid, Setup, StringDescriptor,
    TransferType,
};

fn sample_config() -> Vec<u8> {
    // Config (9) + interface 0 (9) + 2 endpoints (7 each) = 32 bytes.
    let mut b = vec![
        9, 2, 0, 0, 1, 1, 4, 0xC0, 50, // config: total_length filled below
        9, 4, 0, 0, 2, 0xFF, 0x00, 0x00, 5, // interface 0, vendor class, iface str 5
        7, 5, 0x81, 0x02, 0x40, 0x00, 0x00, // EP1 IN bulk, 64
        7, 5, 0x01, 0x02, 0x40, 0x00, 0x00, // EP1 OUT bulk, 64
    ];
    let total = b.len() as u16;
    b[2..4].copy_from_slice(&total.to_le_bytes());
    b
}

#[test]
fn walk_basic_and_truncated() {
    let b = sample_config();
    let ds = walk(&b);
    assert_eq!(ds.len(), 4);
    assert_eq!(ds[0].descriptor_type, descriptor_type::CONFIGURATION);
    assert!(ds.iter().all(|d| !d.truncated));
    // Truncate mid-endpoint.
    let ds = walk(&b[..b.len() - 3]);
    assert!(ds.last().unwrap().truncated);
    // A zero bLength must not loop forever.
    assert_eq!(walk(&[0, 2, 9, 9]).len(), 1);
}

#[test]
fn configuration_tree() {
    let cfg = Configuration::parse(&sample_config()).unwrap();
    assert_eq!(cfg.descriptor.num_interfaces, 1);
    assert_eq!(cfg.interfaces.len(), 1);
    let iface = &cfg.interfaces[0];
    assert_eq!(iface.descriptor.class, 0xFF);
    assert_eq!(iface.endpoints.len(), 2);
    assert_eq!(iface.endpoints[0].number(), 1);
    assert!(iface.endpoints[0].is_in());
    assert_eq!(iface.endpoints[0].transfer_type(), TransferType::Bulk);
    assert_eq!(iface.endpoints[0].max_packet_size, 64);
}

#[test]
fn class_specific_preserved() {
    // Config + interface + a HID descriptor (type 0x21) + endpoint.
    let mut b = vec![
        9, 2, 0, 0, 1, 1, 4, 0x80, 50, //
        9, 4, 0, 0, 1, 3, 0, 0, 0, // HID interface
        9, 0x21, 0x11, 1, 0, 1, 0x22, 0x3F, 0, // HID descriptor (class-specific)
        7, 5, 0x81, 0x03, 0x08, 0x00, 0x0A, // EP1 IN interrupt
    ];
    let total = b.len() as u16;
    b[2..4].copy_from_slice(&total.to_le_bytes());
    let cfg = Configuration::parse(&b).unwrap();
    let iface = &cfg.interfaces[0];
    assert_eq!(iface.class_specific.len(), 1);
    assert_eq!(iface.class_specific[0].descriptor_type, 0x21);
    assert_eq!(iface.endpoints.len(), 1);
    assert_eq!(iface.endpoints[0].transfer_type(), TransferType::Interrupt);
}

#[test]
fn string_decode_and_langids() {
    // "Hi" as a string descriptor: len, type, 'H',0, 'i',0.
    let s = [6, descriptor_type::STRING, b'H', 0, b'i', 0];
    assert_eq!(StringDescriptor::decode(&s), "Hi");
    // LANGID list with 0x0409 (en-US).
    let l = [4, descriptor_type::STRING, 0x09, 0x04];
    assert_eq!(StringDescriptor::parse_langids(&l), vec![0x0409]);
    // Not a string descriptor -> empty.
    assert_eq!(StringDescriptor::decode(&[2, 1]), "");
}

#[test]
fn pid_wire_byte_complement() {
    assert_eq!(Pid::Setup.value(), 0xD);
    assert_eq!(Pid::Setup.wire_byte(), 0x2D); // 0xD | (~0xD & 0xF)<<4
    assert_eq!(Pid::In.wire_byte(), 0x69);
    for p in [Pid::Out, Pid::In, Pid::Setup, Pid::Ack, Pid::Data0, Pid::Data1] {
        assert_eq!(Pid::from_value(p.value()), p);
    }
}

#[test]
fn setup_serialization() {
    let s = Setup {
        request_type: 0x80,
        request: request::GET_DESCRIPTOR,
        value: 0x0100,
        index: 0,
        length: 18,
    };
    assert_eq!(s.to_bytes(), [0x80, 0x06, 0x00, 0x01, 0x00, 0x00, 0x12, 0x00]);
    assert!(s.is_in());
}

#[test]
fn device_descriptor_parse() {
    let mut b = [0u8; 18];
    b[0] = 18;
    b[1] = descriptor_type::DEVICE;
    b[7] = 64;
    b[8] = 0x09;
    b[9] = 0x12; // VID 0x1209
    b[10] = 0x01;
    b[11] = 0x00; // PID 0x0001
    b[17] = 1;
    let d = DeviceDescriptor::parse(&b).unwrap();
    assert_eq!(d.vendor_id, 0x1209);
    assert_eq!(d.product_id, 0x0001);
    assert_eq!(d.max_packet_size0, 64);
    assert!(DeviceDescriptor::parse(&b[..4]).is_err());
}

#[test]
fn device_descriptor_defects_are_named() {
    let e = DeviceDescriptor::parse(&[18, 1, 0, 2]).unwrap_err();
    assert_eq!(e.message(), "protocol error: device descriptor too short: 4 bytes");
    let mut b = [0u8; 18];
    b[1] = 0x2a;
    let e = DeviceDescriptor::parse(&b).unwrap_err();
    assert_eq!(
        e.message(),
        "protocol error: not a device descriptor (bDescriptorType = 0x2a)"
    );
    // What is there can be read all the same; what is not reads as 0.
    let d = DeviceDescriptor::from_prefix(&[18, 1, 0x00, 0x02, 0xFF]);
    assert_eq!((d.usb_version, d.class, d.vendor_id), (0x0200, 0xFF, 0));
}

#[test]
fn walk_keeps_every_byte() {
    let mut b = sample_config();
    b.extend([5, 0x24, 1]); // cut short
    let ds = walk(&b);
    let joined: Vec<u8> = ds.iter().flat_map(|d| d.bytes.clone()).collect();
    assert_eq!(joined, b);
    assert!(walk(&[]).is_empty());
}

#[test]
fn descriptors_before_an_interface_belong_to_the_configuration() {
    let mut b = vec![9, 2, 0, 0, 1, 1, 0, 0x80, 50];
    b.extend([8, 11, 0, 2, 1, 2, 3, 0]); // interface association
    b.extend([9, 4, 0, 0, 0, 1, 1, 0, 0]);
    b.extend([3, 0x24, 9]); // class-specific, belongs to the interface
    let cfg = Configuration::parse(&b).unwrap();
    assert_eq!(cfg.other.len(), 1);
    assert_eq!(cfg.other[0].descriptor_type, 11);
    assert_eq!(cfg.interfaces[0].class_specific[0].bytes, vec![3, 0x24, 9]);
    assert!(Configuration::parse(&[]).is_none());
    assert!(Configuration::parse(&[9, 2, 9, 0, 0, 1, 0, 0x80]).is_none());
}

#[test]
fn setup_reads_back() {
    let s = Setup { request_type: 0x21, request: 9, value: 0x0203, index: 0xFFFE, length: 0x0102 };
    assert_eq!(s.to_bytes(), [0x21, 9, 0x03, 0x02, 0xFE, 0xFF, 0x02, 0x01]);
    assert!(!s.is_in());
}

#[test]
fn every_pid_reads_back() {
    for v in 0..16u8 {
        let p = Pid::from_value(v);
        assert_eq!(p.value(), v);
        assert_eq!(p.wire_byte() & 0x0F, v);
        assert_eq!(p.wire_byte() >> 4, !v & 0x0F);
    }
}

#[test]
fn text_beyond_the_basic_plane_decodes() {
    // U+1F600 as a surrogate pair, then a letter.
    let s = [8, descriptor_type::STRING, 0x3D, 0xD8, 0x00, 0xDE, 0x41, 0x00];
    assert_eq!(StringDescriptor::decode(&s), "\u{1F600}A");
    // A surrogate on its own is replaced.
    let s = [6, descriptor_type::STRING, 0x00, 0xD8, 0x41, 0x00];
    assert_eq!(StringDescriptor::decode(&s), "\u{FFFD}A");
}

#[test]
fn a_one_byte_descriptor_has_no_type() {
    let ds = walk(&[1, 5]);
    assert_eq!(ds[0].length, 1);
    assert_eq!(ds[0].bytes, vec![1]);
    assert!(!ds[0].truncated);
    assert_eq!(ds[0].descriptor_type, 0);
    assert_eq!(ds.len(), 2);
    assert_eq!(ds[1].bytes, vec![5]);
    assert!(ds[1].truncated);
    assert_eq!(ds[1].descriptor_type, 0);
}

use usbmagic::pcap::{PcapWriter, LINKTYPE_USB_2_0, PCAP_MAGIC_NANOS};

#[test]
fn global_header_layout() {
    let buf = Vec::new();
    let w = PcapWriter::new(buf, 0);
    let buf = w.out;
    assert_eq!(buf.len(), 24);
    assert_eq!(&buf[0..4], &PCAP_MAGIC_NANOS.to_le_bytes());
    assert_eq!(&buf[4..6], &2u16.to_le_bytes()); // major
    assert_eq!(&buf[6..8], &4u16.to_le_bytes()); // minor
    assert_eq!(&buf[20..24], &LINKTYPE_USB_2_0.to_le_bytes());
}

#[test]
fn packet_record_layout() {
    let mut w = PcapWriter::new(Vec::new(), 1_000_000_000);
    w.write_packet(500, &[0xAA, 0xBB, 0xCC]);
    let rec = &w.out[24..]; // skip global header
    assert_eq!(&rec[0..4], &1u32.to_le_bytes()); // ts_sec = 1
    assert_eq!(&rec[4..8], &500u32.to_le_bytes()); // ts_nsec = 500
    assert_eq!(&rec[8..12], &3u32.to_le_bytes()); // incl_len
    assert_eq!(&rec[12..16], &3u32.to_le_bytes()); // orig_len
    assert_eq!(&rec[16..19], &[0xAA, 0xBB, 0xCC]);
}

#[test]
fn record_time_reads_back() {
    let mut w = PcapWriter::new(Vec::new(), 5_999_999_999);
    w.write_packet(2, &[1]);
    let rec = &w.out[24..];
    let sec = u32::from_le_bytes(rec[0..4].try_into().unwrap()) as u64;
    let nsec = u32::from_le_bytes(rec[4..8].try_into().unwrap()) as u64;
    assert_eq!(sec * 1_000_000_000 + nsec, 6_000_000_001);
    assert_eq!(nsec, 1);
}

#[test]
fn flush_hands_the_bytes_over_once() {
    let mut w = PcapWriter::new(vec![0xEE], 0);
    let first = w.flush();
    assert_eq!(first.len(), 25);
    assert_eq!(first[0], 0xEE);
    assert!(w.flush().is_empty());
}

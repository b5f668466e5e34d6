use usbmagic::pcapng::{
    parse_pcapng, parse_pd_pseudo_header, pd_pseudo_header, sop_name, IfaceDesc, PcapNgWriter,
    PdDirection, PdPseudoHeader, PdSop, BT_EPB, BT_IDB, BT_SHB, BYTE_ORDER_MAGIC, FLAG_CC2,
    FLAG_CRC_PRESENT, FLAG_CRC_VALID, LINKTYPE_USB_TYPE_C_PD,
};

#[test]
fn pseudo_header_layout() {
    // TX on CC2, no CRC captured.
    let h = pd_pseudo_header(PdSop::Sop, PdDirection::ToDut, 2, None);
    assert_eq!(h[0], 1); // version
    assert_eq!(h[1], 0); // SOP
    assert_eq!(h[2], 1); // to DUT
    assert_eq!(h[3], FLAG_CC2); // CC2, no CRC
    assert_eq!(&h[4..8], &0u32.to_le_bytes());

    // RX on CC1 with a captured CRC.
    let h = pd_pseudo_header(PdSop::SopPrime, PdDirection::FromDut, 1, Some(0xDEAD_BEEF));
    assert_eq!(h[1], 1); // SOP'
    assert_eq!(h[2], 0); // from DUT
    assert_eq!(h[3], FLAG_CRC_PRESENT | FLAG_CRC_VALID); // CC1, CRC present+valid
    assert_eq!(&h[4..8], &0xDEAD_BEEFu32.to_le_bytes());
}

#[test]
fn shb_and_idb_layout() {
    let ifaces = [IfaceDesc {
        name: "TARGET-C",
        linktype: LINKTYPE_USB_TYPE_C_PD,
        snaplen: 1024,
    }];
    let w = PcapNgWriter::new(Vec::new(), &ifaces);
    let buf = w.out;
    // SHB: type, total=28, byte-order magic.
    assert_eq!(&buf[0..4], &BT_SHB.to_le_bytes());
    assert_eq!(&buf[4..8], &28u32.to_le_bytes());
    assert_eq!(&buf[8..12], &BYTE_ORDER_MAGIC.to_le_bytes());
    assert_eq!(&buf[24..28], &28u32.to_le_bytes()); // trailing length
    // IDB starts at 28.
    let idb = &buf[28..];
    assert_eq!(&idb[0..4], &BT_IDB.to_le_bytes());
    assert_eq!(&idb[8..10], &(LINKTYPE_USB_TYPE_C_PD as u16).to_le_bytes());
    assert_eq!(&idb[12..16], &1024u32.to_le_bytes()); // snaplen
}

#[test]
fn epb_layout_and_padding() {
    let ifaces = [IfaceDesc {
        name: "T",
        linktype: LINKTYPE_USB_TYPE_C_PD,
        snaplen: 64,
    }];
    let mut w = PcapNgWriter::new(Vec::new(), &ifaces);
    let before = w.out.len();
    // 3-byte payload -> padded to 4 within the block.
    w.write_packet(0, 0x0000_0001_0000_0002, &[0xAA, 0xBB, 0xCC]);
    let epb = &w.out[before..];
    assert_eq!(&epb[0..4], &BT_EPB.to_le_bytes());
    // body = iface(4)+tshi(4)+tslo(4)+cap(4)+orig(4)+data(3)+pad(1) = 24; total = 12+24 = 36
    assert_eq!(&epb[4..8], &36u32.to_le_bytes());
    assert_eq!(&epb[8..12], &0u32.to_le_bytes()); // interface id 0
    assert_eq!(&epb[12..16], &1u32.to_le_bytes()); // ts high
    assert_eq!(&epb[16..20], &2u32.to_le_bytes()); // ts low
    assert_eq!(&epb[20..24], &3u32.to_le_bytes()); // captured len
    assert_eq!(&epb[24..28], &3u32.to_le_bytes()); // original len
    assert_eq!(&epb[28..31], &[0xAA, 0xBB, 0xCC]);
    assert_eq!(epb.len() % 4, 0);
    assert_eq!(&epb[epb.len() - 4..], &36u32.to_le_bytes()); // trailing length
}

#[test]
fn written_trace_reads_back() {
    let ifaces = [
        IfaceDesc { name: "TARGET-C", linktype: LINKTYPE_USB_TYPE_C_PD, snaplen: 4096 },
        IfaceDesc { name: "\u{e9}", linktype: 288, snaplen: 64 },
    ];
    let mut w = PcapNgWriter::new(Vec::new(), &ifaces);
    w.write_packet(0, 1_700_000_000_000_000, &[1, 2, 3, 4, 5]);
    w.write_packet(1, 7, &[]);
    let bytes = w.flush();
    let file = parse_pcapng(&bytes).unwrap();
    assert_eq!(file.interfaces.len(), 2);
    assert_eq!(file.interfaces[0].name_text().as_deref(), Some("TARGET-C"));
    assert_eq!(file.interfaces[1].name_text().as_deref(), Some("\u{e9}"));
    assert_eq!(file.interfaces[1].linktype, 288);
    assert_eq!(file.interfaces[1].tsresol, 6);
    assert_eq!(file.packets.len(), 2);
    assert_eq!(file.packets[0].ts, 1_700_000_000_000_000);
    assert_eq!(file.packets[0].data, vec![1, 2, 3, 4, 5]);
    assert_eq!((file.packets[1].iface_id, file.packets[1].ts), (1, 7));
    assert!(file.packets[1].data.is_empty());
}

#[test]
fn name_that_is_not_utf8_is_replaced() {
    let w = PcapNgWriter::new(
        Vec::new(),
        &[IfaceDesc { name: "AB", linktype: 1, snaplen: 0 }],
    );
    let mut bytes = w.out;
    let at = bytes.windows(2).position(|p| p == b"AB").unwrap();
    bytes[at] = 0xFF;
    let file = parse_pcapng(&bytes).unwrap();
    assert_eq!(file.interfaces[0].name_text().as_deref(), Some("\u{fffd}B"));
}

#[test]
fn bytes_that_are_no_trace_are_refused() {
    assert!(parse_pcapng(&[]).is_err());
    assert!(parse_pcapng(&[0; 28]).is_err());
    let w = PcapNgWriter::new(Vec::new(), &[]);
    let whole = w.out;
    assert_eq!(whole.len(), 28);
    assert!(parse_pcapng(&whole).is_ok());
    assert!(parse_pcapng(&whole[..27]).is_err());
    let mut swapped = whole.clone();
    swapped[8] = 0x1A;
    assert!(parse_pcapng(&swapped).is_err());
}

#[test]
fn pseudo_header_reads_back() {
    let mut data = pd_pseudo_header(PdSop::HardReset, PdDirection::FromDut, 2, Some(7)).to_vec();
    data.extend([0x41, 0x10]);
    assert_eq!(
        parse_pd_pseudo_header(&data),
        Some(PdPseudoHeader {
            sop: PdSop::HardReset,
            direction: PdDirection::FromDut,
            cc: 2,
            crc: Some(7)
        })
    );
    assert_eq!(parse_pd_pseudo_header(&data[..7]), None);
    // A CC line that is not known reads as CC1.
    let h = pd_pseudo_header(PdSop::Sop, PdDirection::ToDut, 0, None);
    let read = parse_pd_pseudo_header(&h).unwrap();
    assert_eq!((read.cc, read.crc), (1, None));
}

#[test]
fn framings_have_names() {
    assert_eq!(sop_name(PdSop::Sop), "SOP");
    assert_eq!(sop_name(PdSop::SopDoublePrime), "SOP''");
    assert_eq!(sop_name(PdSop::CableReset), "Cable Reset");
    assert_eq!(sop_name(PdSop::from_wire(200)), "?");
}

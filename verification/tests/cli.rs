use usbmagic::cli::args::{
    decode_hex, hex_digits, parse_u16, parse_u32, parse_u8, plan_send, port_name, send_error_text,
    HexError, SendArgs, SendError, VdmType,
};
use usbmagic::cli::board::{
    bridge_id_line, default_firmware, flash_target, flashing_line, found_line, fusb302_id_line,
    gpio_line, idcode_line,
};
use usbmagic::cli::capture::{banner, closing, event_line, packet_summary, CaptureLine, CaptureSession};
use usbmagic::cli::devices::{
    choose_speed, device_line, info_lines, join_speeds, select, select_error_text, select_hint,
    speed_error_text, state_line, SelectError, SpeedChoice, SpeedError,
};
use usbmagic::cli::dump::{heading, packet_context, packet_lines};
use usbmagic::cli::pd::{
    activity_lines, charge_step, listen_opening, listen_report, make_trace, rp_name,
    source_opening, source_step, status_line, traced_line, ChargeAction, ChargeEvent, ChargeStage,
    ListenStep, PdListen, Role, SendEvent, SendSession, SendStage, SendStep, SourceStage,
    SourceStep, PDO_5V_1A5,
};
use usbmagic::flash::{ApolloDevice, BoardMode, FlashTarget, PdLine};
use usbmagic::pcap::PcapWriter;
use usbmagic::pcapng::{parse_pcapng, pd_pseudo_header, PdDirection, PdSop};
use usbmagic::pd::link::{LinkEvent, PdLink, VbusSource, VbusSwitches};
use usbmagic::pd::{PdMessage, PdPort};
use usbmagic::{Capabilities, CaptureData, CaptureItem, DeviceDescription, Error, Speed, State};

#[test]
fn hex_numbers_are_read() {
    assert_eq!(hex_digits(" 0xFF00 "), "FF00");
    assert_eq!(hex_digits("0Xab"), "ab");
    assert_eq!(parse_u16("0xFF00"), Ok(0xFF00));
    assert_eq!(parse_u8("1f"), Ok(0x1F));
    assert_eq!(parse_u32("DEADBEEF"), Ok(0xDEAD_BEEF));
    assert_eq!(parse_u8("100"), Err(HexError::Overflow));
    assert_eq!(parse_u8("0x"), Err(HexError::Empty));
    assert_eq!(parse_u8("xy"), Err(HexError::InvalidDigit));
    assert_eq!(HexError::OddLength.message(), "hex must have an even number of digits");
}

#[test]
fn hex_strings_are_read() {
    assert_eq!(decode_hex("61 11_c0 90"), Ok(vec![0x61, 0x11, 0xC0, 0x90]));
    assert_eq!(decode_hex(""), Ok(vec![]));
    assert_eq!(decode_hex("6111c0901"), Err(HexError::OddLength));
    assert_eq!(decode_hex("zz"), Err(HexError::InvalidDigit));
    assert_eq!(decode_hex("\u{e9}"), Err(HexError::InvalidDigit));
    // Every byte reads back.
    let all: Vec<u8> = (0..=255).collect();
    let text: String = all.iter().map(|b| format!("{b:02x}")).collect();
    assert_eq!(decode_hex(&text), Ok(all));
}

fn send_args() -> SendArgs {
    SendArgs {
        raws: vec!["4102".to_string()],
        vdm: true,
        svid: Some(0xFF00),
        command: Some(1),
        vdm_type: VdmType::Ack,
        obj_pos: 3,
        vdos: vec![5, 6],
    }
}

#[test]
fn sending_is_planned_up_front() {
    let plan = plan_send(&send_args()).unwrap();
    assert_eq!(plan.raws, vec![PdMessage { raw: vec![0x41, 0x02] }]);
    let vdm = plan.vdm.unwrap();
    assert_eq!((vdm.svid, vdm.command, vdm.command_type, vdm.object_position), (0xFF00, 1, 1, 3));
    assert_eq!(vdm.objects, vec![5, 6]);

    let mut a = send_args();
    a.raws.push("4".to_string());
    assert!(matches!(plan_send(&a), Err(SendError::BadHex(1, HexError::OddLength))));
    a.raws[1] = "44".to_string();
    assert!(matches!(plan_send(&a), Err(SendError::TooShort(1))));
    let mut a = send_args();
    a.svid = None;
    assert!(matches!(plan_send(&a), Err(SendError::NoSvid)));
    let mut a = send_args();
    a.command = None;
    assert!(matches!(plan_send(&a), Err(SendError::NoCommand)));
    let mut a = send_args();
    a.vdm = false;
    assert!(plan_send(&a).unwrap().vdm.is_none());
    a.raws.clear();
    assert!(matches!(plan_send(&a), Err(SendError::Nothing)));
}

fn description(serial: Option<&str>) -> DeviceDescription {
    DeviceDescription {
        backend: "cynthion",
        vendor_id: 0x1d50,
        product_id: 0x615b,
        product: Some("USB Analyzer".to_string()),
        serial: serial.map(str::to_string),
        bus_id: "1".to_string(),
        address: 12,
    }
}

#[test]
fn one_device_is_selected() {
    let two = vec![description(Some("abc1")), description(Some("abd2"))];
    assert_eq!(select(&vec![], None), Err(SelectError::NoDevices));
    assert_eq!(select(&vec![description(None)], None), Ok(0));
    assert_eq!(select(&two, None), Err(SelectError::Ambiguous));
    assert_eq!(select(&two, Some("bd")), Ok(1));
    assert_eq!(select(&two, Some("ab")), Err(SelectError::TooMany(2)));
    assert_eq!(select(&two, Some("x")), Err(SelectError::NoMatch));
    assert_eq!(select(&vec![description(None)], Some("")), Err(SelectError::NoMatch));
}

#[test]
fn devices_are_described() {
    assert_eq!(
        device_line(&description(Some("S9"))),
        "  cynthion  1d50:615b  bus 1 addr 12  USB Analyzer  [S9]"
    );
    let caps = Capabilities {
        supported_speeds: vec![Speed::High, Speed::Full],
        can_capture: true,
        can_control_vbus: false,
        protocol_version: Some(3),
    };
    assert_eq!(join_speeds(&caps.supported_speeds), "high, full");
    let lines = info_lines(&description(None), &caps);
    assert_eq!(lines[0], "Backend:   cynthion");
    assert_eq!(lines[1], "USB ID:    1d50:615b");
    assert!(lines.iter().any(|l| l == "VBUS ctrl: no"));
    let state = State {
        enable: true,
        speed: Speed::Low,
        target_c_vbus_en: true,
        control_vbus_en: false,
        aux_vbus_en: false,
        target_a_discharge: false,
        power_control_enable: false,
    };
    assert_eq!(state_line(&Ok(state)), "State:     capture ON, speed low, target-C VBUS on");
    assert_eq!(
        state_line(&Err(Error::NoDevice)),
        "State:     <error reading: no matching magic USB device found>"
    );
}

#[test]
fn a_supported_speed_is_chosen() {
    let all = Speed::ALL.to_vec();
    assert_eq!(
        choose_speed(&all, Speed::Auto),
        Ok(SpeedChoice { speed: Speed::Auto, instead_of_auto: false })
    );
    assert_eq!(
        choose_speed(&vec![Speed::Low, Speed::Full], Speed::Auto),
        Ok(SpeedChoice { speed: Speed::Full, instead_of_auto: true })
    );
    assert_eq!(choose_speed(&vec![], Speed::Auto), Err(SpeedError::NoUsableSpeed));
    let low = vec![Speed::Low];
    assert_eq!(choose_speed(&low, Speed::High), Err(SpeedError::Unsupported));
    assert_eq!(
        speed_error_text(SpeedError::Unsupported, &low, Speed::High),
        "device does not support high speed (supported: low)"
    );
    assert_eq!(
        speed_error_text(SpeedError::NoUsableSpeed, &low, Speed::High),
        "device reports no usable capture speeds"
    );
}

#[test]
fn packets_and_events_are_summarized() {
    assert_eq!(
        packet_summary(3, 1500, &[0xA5, 0x01]),
        "#3      [        1500 ns]    2 B  a5 01"
    );
    let long = packet_summary(1, 0, &[0xFF; 17]);
    assert!(long.ends_with("ff ff ..."));
    assert_eq!(event_line(7, 0x05), "[           7 ns] event 0x05");
    assert_eq!(banner(Speed::High, Some("2")), "Capturing at high speed for 2s... (Ctrl-C to stop)");
    assert_eq!(banner(Speed::Auto, None), "Capturing at auto speed... (Ctrl-C to stop)");
    assert_eq!(closing(3, 1, "0.50"), "Captured 3 packets, 1 events in 0.50s.");
}

fn packet(ts: u64) -> CaptureItem {
    CaptureItem { timestamp_ns: ts, data: CaptureData::Packet(vec![0x69]) }
}

#[test]
fn capture_session_counts_and_stops() {
    let mut s = CaptureSession {
        pcap: None,
        packets: 0,
        events: 0,
        max_packets: Some(2),
        verbose: false,
    };
    assert!(s.has_room(5));
    let (line, stop) = s.item(&packet(5));
    assert!(matches!(line, Some(CaptureLine::Packet(_))) && !stop);
    let (line, stop) = s.item(&CaptureItem { timestamp_ns: 6, data: CaptureData::Event(1) });
    assert!(matches!(line, Some(CaptureLine::Event(_))) && !stop);
    let (_, stop) = s.item(&packet(7));
    assert!(stop);
    assert_eq!((s.packets, s.events), (2, 1));
}

#[test]
fn capture_session_writes_packets_quietly() {
    let mut s = CaptureSession {
        pcap: Some(PcapWriter::new(Vec::new(), 0)),
        packets: 0,
        events: 0,
        max_packets: None,
        verbose: false,
    };
    let (line, stop) = s.item(&packet(5));
    assert!(line.is_none() && !stop);
    let (line, _) = s.item(&CaptureItem { timestamp_ns: 6, data: CaptureData::Event(1) });
    assert!(line.is_none());
    assert_eq!(s.pcap.unwrap().out.len(), 24 + 16 + 1);
}

#[test]
fn boards_are_described() {
    let d = ApolloDevice {
        mode: BoardMode::Gateware,
        serial: Some("S1".to_string()),
        bus_id: "1".to_string(),
        address: 9,
    };
    assert_eq!(found_line(&d), "Found Cynthion in Gateware mode (bus 1 addr 9, serial S1).");
    assert_eq!(flash_target(true), FlashTarget::Flash);
    assert_eq!(
        flashing_line("a.bit", 10, flash_target(false)),
        "Flashing a.bit (10 bytes) to FPGA SRAM..."
    );
    assert_eq!(idcode_line(0x2111_1043, 0x2111_1043), "JTAG IDCODE: 0x21111043 (ECP5 LFE5U-12F)");
    assert_eq!(idcode_line(1, 2), "JTAG IDCODE: 0x00000001");
    assert_eq!(bridge_id_line(0x7550_4442), "REG_ID      = 0x75504442 (uPDB \u{2713})");
    assert_eq!(bridge_id_line(0), "REG_ID      = 0x00000000 (unexpected!)");
    assert_eq!(gpio_line(0x12), "REG_GPIO_IN = 0x12  (SDA=0, FUSB302B_INT=1)");
    assert_eq!(
        fusb302_id_line(0x91),
        "FUSB302B DeviceID (reg 0x01) = 0x91  (version 0x9, rev 0x1) \u{2713}"
    );
    assert!(fusb302_id_line(0xFF).ends_with(" (no device?)"));
}

#[test]
fn first_bitstream_is_the_default() {
    let names: Vec<String> = ["z.bit", "b.bit", "a.txt", ".bit", "b", "bb.bit", "ba.bit.bak"]
        .iter()
        .map(|s| s.to_string())
        .collect();
    assert_eq!(default_firmware(&names), Some(1));
    assert_eq!(default_firmware(&vec![".bit".to_string()]), None);
    assert_eq!(default_firmware(&vec![]), None);
}

#[test]
fn listening_stops_with_the_capabilities() {
    let mut l = PdListen::new(3);
    assert_eq!(l.step(LinkEvent::Done), ListenStep::ReadInterrupts);
    assert_eq!(l.step(LinkEvent::Value(0x41)), ListenStep::Poll);
    assert_eq!(l.step(LinkEvent::Empty), ListenStep::Sleep(10));
    assert_eq!(l.step(LinkEvent::Done), ListenStep::ReadInterrupts);
    assert_eq!(l.step(LinkEvent::Value(0x10)), ListenStep::Poll);
    let caps = PdMessage::from_objects(0x1041, &[1]);
    assert_eq!(l.step(LinkEvent::Message(caps)), ListenStep::Poll);
    assert_eq!(l.step(LinkEvent::Empty), ListenStep::Finish);
    assert_eq!(l.irq_seen(), 0x51);

    let mut l = PdListen::new(1);
    l.step(LinkEvent::Done);
    l.step(LinkEvent::Failed);
    assert_eq!(l.step(LinkEvent::Empty), ListenStep::Sleep(10));
    assert_eq!(l.step(LinkEvent::Done), ListenStep::Finish);

    let mut l = PdListen::new(1);
    l.step(LinkEvent::Done);
    l.step(LinkEvent::Value(0));
    assert_eq!(l.step(LinkEvent::Failed), ListenStep::PassError);
}

#[test]
fn listening_is_reported() {
    assert_eq!(port_name(PdPort::TargetC), "TARGET-C");
    assert_eq!(rp_name(2), "1.5 A @ 5 V");
    assert_eq!(
        status_line(0xC3),
        "  STATUS0 = 0xc3  VBUS=present, source Rp = 3.0 A @ 5 V, BMC activity=1"
    );
    assert_eq!(
        listen_opening(PdPort::Aux, 1, "5").unwrap(),
        "FUSB302B set as sink on AUX CC1; listening 5s for PD messages..."
    );
    assert_eq!(
        listen_opening(PdPort::Aux, 0, "5").unwrap_err(),
        "no USB-C source detected on AUX (CC lines idle) \u{2014} plug a charger/source into AUX"
    );
    let lines = listen_report(2, 0x51);
    assert_eq!(
        lines,
        vec![
            "Done \u{2014} 2 PD message(s) captured. (latched INTERRUPT bits: 0x51 \u{2014} \
             CRC_CHK=1, ACTIVITY=1, BC_LVL=1)"
        ]
    );
    assert!(listen_report(0, 0x10)[1].contains("RX-decode bug"));
    assert!(listen_report(0, 0x40)[1].contains("garbled"));
    assert!(listen_report(0, 0x01)[1].starts_with("No BMC activity at all"));
}

#[test]
fn source_advertises_and_listens() {
    let mut link = PdLink::new(PdPort::TargetC);
    let (stage, step) = source_step(SourceStage::Begin, &mut link, LinkEvent::Done);
    assert!(matches!(step, SourceStep::CheckRun));
    let (stage, step) = source_step(stage, &mut link, LinkEvent::Window(true));
    match step {
        SourceStep::Send(m) => assert_eq!(m.objects(), vec![PDO_5V_1A5]),
        _ => panic!("expected a message"),
    }
    let (stage, step) = source_step(stage, &mut link, LinkEvent::Done);
    assert!(matches!(step, SourceStep::OpenWindow(300)));
    let (stage, step) = source_step(stage, &mut link, LinkEvent::Window(true));
    assert!(matches!(step, SourceStep::Poll));
    let (stage, step) = source_step(stage, &mut link, LinkEvent::Empty);
    assert!(matches!(step, SourceStep::Sleep(10)));
    let (stage, step) = source_step(stage, &mut link, LinkEvent::Done);
    assert!(matches!(step, SourceStep::CheckWindow));
    let (stage, _) = source_step(stage, &mut link, LinkEvent::Window(false));
    let (_, step) = source_step(stage, &mut link, LinkEvent::Window(false));
    assert!(matches!(step, SourceStep::Finish));

    assert_eq!(source_opening(PdPort::Aux, 1, 0x80, "3").unwrap().len(), 1);
    assert_eq!(source_opening(PdPort::Aux, 1, 0, "3").unwrap().len(), 2);
    assert!(source_opening(PdPort::Aux, 0, 0, "3").unwrap_err().contains("plugged into AUX?"));
    assert_eq!(traced_line(4), "Done \u{2014} 4 PD message(s) traced.");
}

#[test]
fn charging_routes_aux_once_it_has_vbus() {
    let mut stage = ChargeStage::Begin;
    let mut event = ChargeEvent::Done;
    let mut actions = Vec::new();
    let mut lines = Vec::new();
    let mut looks = 0;
    loop {
        let (next, action, line) = charge_step(stage, event);
        stage = next;
        actions.push(action);
        lines.extend(line);
        event = match action {
            ChargeAction::SetupSink(_) => ChargeEvent::Value(1),
            ChargeAction::SetupSource(_) => ChargeEvent::Value(2),
            ChargeAction::SetSwitches(_) => ChargeEvent::Switches(0x2A, 0x2A),
            ChargeAction::ReadStatus(PdLine::Aux) => {
                looks += 1;
                ChargeEvent::Value(if looks == 3 { 0x80 } else { 0 })
            }
            ChargeAction::ReadStatus(PdLine::TargetC) => ChargeEvent::Value(0x80),
            ChargeAction::Sleep(_) => ChargeEvent::Done,
            _ => break,
        };
    }
    assert_eq!(actions[0], ChargeAction::SetSwitches(VbusSwitches::none_on()));
    assert_eq!(actions.last(), Some(&ChargeAction::Finish));
    for a in &actions {
        if let ChargeAction::SetSwitches(s) = a {
            assert!(!s.control);
        }
    }
    assert_eq!(lines[0], "AUX supply attached; VBUS up at 5 V.");
    assert_eq!(lines[1], "TARGET-C presenting source (Rp) on CC2.");
    assert_eq!(
        lines[2],
        "Routed AUX 5 V -> TARGET-C (VBUS switches 0x2a, read-back verified)."
    );
    assert!(lines[3].contains("should now be charging"));
}

#[test]
fn charging_gives_up_without_a_supply() {
    let (stage, _, _) = charge_step(ChargeStage::Begin, ChargeEvent::Done);
    let (stage, _, _) = charge_step(stage, ChargeEvent::Done);
    let (_, action, line) = charge_step(stage, ChargeEvent::Value(0));
    assert_eq!(action, ChargeAction::Fail);
    assert!(line.unwrap().starts_with("no PD supply detected on AUX"));

    let (_, action, line) = charge_step(ChargeStage::AuxPause(19), ChargeEvent::Done);
    assert_eq!(action, ChargeAction::Fail);
    assert_eq!(line.unwrap(), "AUX supply did not bring up VBUS");
}

#[test]
fn sending_follows_the_plan() {
    let session = SendSession {
        port: PdPort::TargetC,
        role: Role::Source,
        vbus: VbusSource::Auto,
        negotiate: true,
        header: None,
        plan: plan_send(&send_args()).unwrap(),
    };
    let mut link = PdLink::new(PdPort::TargetC);
    let mut stage = SendStage::Begin;
    let mut event = SendEvent::Done;
    let mut sent = Vec::new();
    let mut said = Vec::new();
    loop {
        let (next, step, lines) = session.step(stage, &mut link, event);
        stage = next;
        said.extend(lines);
        event = match step {
            SendStep::BringUpVbus(VbusSource::Auto) => SendEvent::Up("AUX"),
            SendStep::SetupSource => SendEvent::Cc(1),
            SendStep::Negotiate => SendEvent::Requested(false),
            SendStep::Send(m) => {
                sent.push(m);
                SendEvent::Done
            }
            SendStep::Drain(150) | SendStep::Listen => SendEvent::Done,
            SendStep::Finish => break,
            _ => panic!("unexpected step"),
        };
    }
    assert_eq!(sent[0].raw, vec![0x41, 0x02]);
    assert_eq!(sent[1].objects(), vec![0xFF00_8341, 5, 6]);
    assert_eq!(sent.len(), 2);
    assert_eq!(
        said,
        vec![
            "VBUS on TARGET-C via AUX.",
            "Presenting source (Rp) on TARGET-C CC1.",
            "No Request from sink yet; sending the rest without a contract.",
        ]
    );
}

#[test]
fn sending_stops_without_a_partner() {
    let mut session = SendSession {
        port: PdPort::Aux,
        role: Role::Sink,
        vbus: VbusSource::Auto,
        negotiate: true,
        header: None,
        plan: plan_send(&send_args()).unwrap(),
    };
    let mut link = PdLink::new(PdPort::Aux);
    let (stage, step, _) = session.step(SendStage::Begin, &mut link, SendEvent::Done);
    assert!(matches!(step, SendStep::SetupSink));
    let (_, step, lines) = session.step(stage, &mut link, SendEvent::Cc(0));
    assert!(matches!(step, SendStep::Fail));
    assert_eq!(lines, vec!["no source detected on AUX"]);
    // Negotiation is for sources.
    let (_, step, lines) = session.step(stage, &mut link, SendEvent::Cc(2));
    assert!(matches!(step, SendStep::Send(_)));
    assert_eq!(lines[1], "note: --negotiate only applies to --role source; skipping.");
    session.role = Role::Raw;
    session.negotiate = false;
    let (stage, step, _) = session.step(SendStage::Begin, &mut link, SendEvent::Done);
    assert!(matches!(step, SendStep::Send(_)));
    let (_, step, _) = session.step(stage, &mut link, SendEvent::Failed);
    assert!(matches!(step, SendStep::PassError));
}

#[test]
fn partner_activity_is_explained() {
    assert_eq!(
        activity_lines(0x50, 0x80),
        vec![
            "  partner activity: BMC=1 goodCRC=1  (INTERRUPT=0x50, STATUS0=0x80, VBUS=present)"
        ]
    );
    assert!(activity_lines(0x40, 0)[1].contains("IS transmitting"));
    assert!(activity_lines(0, 0)[1].contains("no BMC activity"));
}

#[test]
fn recorded_trace_is_dumped() {
    let mut t = make_trace(true, 1_000);
    let m = PdMessage::from_objects(0x0041, &[]);
    t.record(1, PdDirection::FromDut, PdSop::Sop, 2, None, &m, 500, "0.000");
    t.record(0, PdDirection::ToDut, PdSop::Sop, 1, Some(0x12), &m, 2_500, "0.002");
    let file = parse_pcapng(&t.flush()).unwrap();
    assert_eq!(
        heading(&file),
        vec![
            "2 interface(s):",
            "  [0] TARGET-C (linktype 304 = USB_TYPE_C_PD)",
            "  [1] AUX (linktype 304 = USB_TYPE_C_PD)",
            "2 packet(s):",
        ]
    );
    let c = packet_context(&file, 1);
    assert_eq!((c.port.as_str(), c.linktype, c.elapsed, c.tsresol), ("TARGET-C", 304, 2_000, 6));
    let lines = packet_lines(2, "0.002", &c.port, c.linktype, &file.packets[1].data, true);
    assert_eq!(lines[0], "#2   [  0.002s] TX -> GoodCRC              hdr=0x0041 obj=0 raw=4100");
    assert_eq!(lines[1], "       port=TARGET-C sop=SOP cc1 crc=0x00000012");
    assert_eq!(lines[2], "       bytes=01000103120000004100");
    assert!(make_trace(false, 0).flush().is_empty());
}

#[test]
fn anything_else_is_dumped_raw() {
    assert_eq!(
        packet_lines(1, "0.000", "?", 0, &[0xAB, 0xCD], false),
        vec!["#1   [  0.000s] iface=? linktype=0 2 bytes raw=abcd"]
    );
    // A PD packet without room for its pseudo-header.
    assert_eq!(packet_lines(1, "0.000", "AUX", 304, &[1], true).len(), 1);
    let h = pd_pseudo_header(PdSop::Sop, PdDirection::ToDut, 1, None);
    let lines = packet_lines(1, "0.000", "AUX", 304, &h, false);
    assert_eq!(lines[1], "       port=AUX sop=SOP cc1 crc=n/a (hw AUTO_CRC)");
}

#[test]
fn vendor_defined_message_is_dumped_as_documented() {
    let mut data = pd_pseudo_header(PdSop::Sop, PdDirection::ToDut, 1, None).to_vec();
    data.extend([0x6f, 0x11, 0x01, 0x80, 0xac, 0x05]);
    assert_eq!(
        packet_lines(1, "0.000", "TARGET-C", 304, &data, false),
        vec![
            "#1   [  0.000s] TX -> Vendor_Defined       hdr=0x116f obj=1 raw=6f110180ac05",
            "       port=TARGET-C sop=SOP cc1 crc=n/a (hw AUTO_CRC)",
        ]
    );
}

#[test]
fn charging_tells_switches_that_read_back_otherwise() {
    let (stage, action, line) = charge_step(ChargeStage::Routing, ChargeEvent::Switches(0x2A, 0x0B));
    assert_eq!(stage, ChargeStage::Settling);
    assert_eq!(action, ChargeAction::Sleep(100));
    assert_eq!(
        line.unwrap(),
        "Set VBUS switches to 0x2a (status read-back 0x0b); continuing \u{2014} VBUS presence is checked below."
    );
}

#[test]
fn failed_selections_and_plans_are_told() {
    assert_eq!(select_error_text(SelectError::NoDevices, "\"\""), "no magic USB devices found");
    assert_eq!(
        select_error_text(SelectError::NoMatch, "\"x\""),
        "no device with serial containing \"x\""
    );
    assert_eq!(
        select_error_text(SelectError::TooMany(12), "\"ab\""),
        "12 devices match serial \"ab\"; be more specific"
    );
    assert_eq!(select_error_text(SelectError::Ambiguous, ""), "ambiguous device selection");
    assert_eq!(select_hint(), "Multiple devices found; select one with --device <serial>:");

    assert_eq!(
        send_error_text(&SendError::BadHex(0, HexError::OddLength), "\"4\""),
        "bad --raw hex \"4\""
    );
    assert_eq!(
        send_error_text(&SendError::TooShort(0), "\"44\""),
        "--raw message \"44\" is too short (need at least the 2 header bytes)"
    );
    assert_eq!(send_error_text(&SendError::NoSvid, ""), "--vdm requires --svid");
    assert_eq!(send_error_text(&SendError::NoCommand, ""), "--vdm requires --command");
    assert_eq!(
        send_error_text(&SendError::Nothing, ""),
        "nothing to send \u{2014} pass --raw <hex> and/or --vdm --svid .. --command .."
    );
}

#[test]
fn a_whole_run_sends_the_plan_in_order() {
    let mut args = send_args();
    args.raws = vec!["4102".to_string(), "4202aa".to_string(), "4302".to_string()];
    let session = SendSession {
        port: PdPort::Aux,
        role: Role::Raw,
        vbus: VbusSource::Untouched,
        negotiate: false,
        header: Some(0x1234),
        plan: plan_send(&args).unwrap(),
    };
    let mut link = PdLink::new(PdPort::Aux);
    let mut stage = SendStage::Begin;
    let mut sent = Vec::new();
    // Seven steps and two for each raw message are enough for any run.
    for _ in 0..13 {
        let (next, step, _) = session.step(stage, &mut link, SendEvent::Done);
        stage = next;
        if let SendStep::Send(m) = step {
            sent.push(m.raw);
        }
    }
    assert_eq!(stage, SendStage::Over);
    assert_eq!(sent.len(), 4);
    assert_eq!(sent[0], vec![0x41, 0x02]);
    assert_eq!(sent[1], vec![0x42, 0x02, 0xaa]);
    assert_eq!(sent[2], vec![0x43, 0x02]);
    assert_eq!(sent[3][..2], [0x34, 0x12]);
    // Nothing more comes.
    let (_, step, _) = session.step(stage, &mut link, SendEvent::Done);
    assert!(matches!(step, SendStep::Finish));
}

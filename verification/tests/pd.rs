use usbmagic::flash::PdLine;
use usbmagic::pcapng::{IfaceDesc, PcapNgWriter, PdDirection, PdSop, LINKTYPE_USB_TYPE_C_PD};
use usbmagic::pcapng::{parse_pcapng, parse_pd_pseudo_header};
use usbmagic::pd::link::{
    drain_step, iface_id, recv_step, source_header, DrainStep, LinkAction, LinkEvent, NegotiationStep, PdLink, RecvStep,
    VbusSource, VbusStep, VbusSwitches,
};
use usbmagic::pd::trace::{format_pd_message, pd_message_name, PdTrace};
use usbmagic::pd::{PdMessage, PdMessageClass, PdPort, Pdo, Vdm};

#[test]
fn pd_header_decode() {
    // GoodCRC (control msg type 1), 0 data objects.
    let m = PdMessage::from_objects(0x0001, &[]);
    assert_eq!(m.message_type(), Some(1));
    assert_eq!(m.num_data_objects(), Some(0));
    assert_eq!(m.class(), Some(PdMessageClass::Control));

    // Source_Capabilities (data msg type 1) with 1 data object.
    let header = 0x0001 | (1 << 12);
    let m = PdMessage::from_objects(header, &[0x0001_2c91]);
    assert_eq!(m.num_data_objects(), Some(1));
    assert_eq!(m.class(), Some(PdMessageClass::Data));
    assert_eq!(m.objects(), vec![0x0001_2c91]);
}

#[test]
fn fixed_pdo_decode() {
    // 5V @ 3A fixed PDO: voltage=100 (x50mV), current=300 (x10mA).
    let raw = (100u32 << 10) | 300;
    let pdo = Pdo { raw };
    assert!(pdo.is_fixed());
    assert_eq!(pdo.fixed_voltage_mv(), Some(5000));
    assert_eq!(pdo.fixed_max_current_ma(), Some(3000));
}

#[test]
fn vdm_header_encode() {
    let vdm = Vdm {
        svid: 0xFF00, // PD SID
        command: 1,   // Discover Identity
        command_type: 0,
        object_position: 0,
        objects: vec![],
    };
    let h = vdm.vdm_header();
    assert_eq!(h >> 16, 0xFF00);
    assert_eq!(h & 0x1F, 1);
    assert_eq!((h >> 15) & 1, 1); // structured
}

#[test]
fn names_and_format() {
    // Source_Capabilities with one 5V/3A fixed PDO.
    let header = 0x0001 | (1 << 12);
    let pdo = (100u32 << 10) | 300;
    let msg = PdMessage::from_objects(header, &[pdo]);
    assert_eq!(pd_message_name(&msg), "Source_Capabilities");
    let line = format_pd_message(1, "0.500", PdDirection::FromDut, &msg);
    assert!(line.contains("RX <-"));
    assert!(line.contains("Source_Capabilities"));
    assert!(line.contains("5.00 V @ 3.00 A (fixed)"));

    let good = PdMessage::from_objects(0x0001, &[]);
    assert_eq!(pd_message_name(&good), "GoodCRC");
    assert!(format_pd_message(2, "0.000", PdDirection::ToDut, &good).contains("TX ->"));
}

#[test]
fn console_line_is_laid_out_in_columns() {
    let msg = PdMessage::from_objects(0x1041, &[(100 << 10) | 150]);
    let line = format_pd_message(12, "3.250", PdDirection::FromDut, &msg);
    assert_eq!(
        line,
        "#12  [  3.250s] RX <- Source_Capabilities  hdr=0x1041 obj=1 raw=411096900100\n       \
         PDO1: 5.00 V @ 1.50 A (fixed)"
    );
}

#[test]
fn programmable_supply_is_described() {
    // 3.30-21.00 V @ 5.00 A PPS.
    let raw = (3u32 << 30) | (210 << 17) | (33 << 8) | 100;
    let pdo = Pdo { raw };
    assert!(pdo.is_augmented());
    assert_eq!(pdo.pps(), Some((3300, 21000, 5000)));
    assert_eq!(pdo.fixed_voltage_mv(), None);
    let line = format_pd_message(
        1,
        "0.000",
        PdDirection::FromDut,
        &PdMessage::from_objects(0x1001, &[raw]),
    );
    assert!(line.ends_with("PDO1: 3.30\u{2013}21.00 V @ 5.00 A (PPS)"));
}

#[test]
fn short_and_ragged_messages_decode_as_far_as_they_go() {
    let empty = PdMessage { raw: vec![] };
    assert_eq!(empty.header(), None);
    assert_eq!(empty.class(), None);
    assert!(empty.objects().is_empty());
    let ragged = PdMessage { raw: vec![0x41, 0x20, 1, 0, 0, 0, 2, 0] };
    assert_eq!(ragged.objects(), vec![1]);
    let extended = PdMessage { raw: vec![0x01, 0x80] };
    assert_eq!(extended.class(), Some(PdMessageClass::Extended));
}

#[test]
fn source_headers_count_up() {
    // Rev 3.0, DFP data role, source power role.
    let h = source_header(1, 1, 0);
    assert_eq!(h & 0x1F, 1);
    assert_eq!((h >> 12) & 7, 1);
    let mut link = PdLink::new(PdPort::TargetC);
    let ids: Vec<u16> = (0..9).map(|_| (link.next_source_header(3, 0) >> 9) & 7).collect();
    assert_eq!(ids, vec![0, 1, 2, 3, 4, 5, 6, 7, 0]);
}

#[test]
fn ports_have_their_interface() {
    assert_eq!(iface_id(PdLine::TargetC), 0);
    assert_eq!(iface_id(PdLine::Aux), 1);
    assert_eq!(PdLine::from(PdPort::Aux), PdLine::Aux);
    assert_eq!(PdPort::from(PdLine::TargetC), PdPort::TargetC);
}

fn traced() -> PdTrace {
    let ifaces = [
        IfaceDesc { name: "TARGET-C", linktype: LINKTYPE_USB_TYPE_C_PD, snaplen: 4096 },
        IfaceDesc { name: "AUX", linktype: LINKTYPE_USB_TYPE_C_PD, snaplen: 4096 },
    ];
    PdTrace::new(Some(PcapNgWriter::new(Vec::new(), &ifaces)), 1_000_000)
}

#[test]
fn recorded_messages_read_back() {
    let mut t = traced();
    let first = PdMessage::from_objects(0x1041, &[5]);
    let second = PdMessage { raw: vec![0x41, 0x02] };
    assert!(t.has_room(10));
    let line = t.record(0, PdDirection::ToDut, PdSop::Sop, 2, None, &first, 10, "0.000");
    assert!(line.starts_with("#1   [  0.000s] TX ->"));
    t.record(1, PdDirection::FromDut, PdSop::SopPrime, 1, Some(0xABCD), &second, 25, "0.000");
    assert_eq!(t.count(), 2);

    let file = parse_pcapng(&t.flush()).unwrap();
    assert_eq!(file.packets.len(), 2);
    assert_eq!((file.packets[0].iface_id, file.packets[0].ts), (0, 1_000_010));
    let h = parse_pd_pseudo_header(&file.packets[0].data).unwrap();
    assert_eq!((h.direction, h.sop, h.cc, h.crc), (PdDirection::ToDut, PdSop::Sop, 2, None));
    assert_eq!(&file.packets[0].data[8..], &first.raw[..]);
    let h = parse_pd_pseudo_header(&file.packets[1].data).unwrap();
    assert_eq!(h.crc, Some(0xABCD));
    assert_eq!(&file.packets[1].data[8..], &[0x41, 0x02]);
}

#[test]
fn console_only_trace_keeps_no_bytes() {
    let mut t = PdTrace::new(None, 0);
    let m = PdMessage::from_objects(1, &[]);
    t.record(0, PdDirection::FromDut, PdSop::Sop, 1, None, &m, 0, "0.000");
    assert_eq!(t.count(), 1);
    assert!(t.flush().is_empty());
    assert!(!PdTrace::new(None, u64::MAX).has_room(1));
}

#[test]
fn link_records_on_its_port() {
    let mut link = PdLink::new(PdPort::Aux);
    assert_eq!(link.setup_sink(2), 2);
    assert_eq!(link.cc(), 2);
    link.set_trace(traced());
    let m = PdMessage::from_objects(0x0041, &[]);
    assert!(link.has_room(5));
    assert!(link.record(PdDirection::FromDut, &m, 5, "0.000").is_some());
    let mut t = link.into_parts().unwrap();
    let file = parse_pcapng(&t.flush()).unwrap();
    assert_eq!(file.packets[0].iface_id, 1);
    assert_eq!(parse_pd_pseudo_header(&file.packets[0].data).unwrap().cc, 2);
}

#[test]
fn vdm_message_numbers_itself_unless_told() {
    let mut link = PdLink::new(PdPort::TargetC);
    let vdm = Vdm { svid: 0xFF00, command: 1, command_type: 0, object_position: 0, objects: vec![7] };
    let m = link.send_vdm(&vdm, None);
    assert_eq!(m.header(), Some(source_header(15, 2, 0)));
    assert_eq!(m.objects(), vec![0xFF00_8001, 7]);
    let m = link.send_vdm(&vdm, Some(0x2222));
    assert_eq!(m.header(), Some(0x2222));
    // Only the first one used up a message id.
    assert_eq!(link.next_source_header(1, 0), source_header(1, 0, 1));
}

fn reply_to(action: &LinkAction, aux_cc: u8, aux_vbus: bool, target_vbus: bool) -> LinkEvent {
    match action {
        LinkAction::SetupSink(_) => LinkEvent::Value(aux_cc),
        LinkAction::ReadStatus(PdLine::Aux) => LinkEvent::Value(if aux_vbus { 0x80 } else { 0 }),
        LinkAction::ReadStatus(PdLine::TargetC) => {
            LinkEvent::Value(if target_vbus { 0x80 } else { 0 })
        }
        _ => LinkEvent::Done,
    }
}

/// Runs a bring-up against simulated ports: the switch settings in order, and how it ended.
fn bring_up(
    mode: VbusSource,
    aux_cc: u8,
    aux_vbus: bool,
    target_vbus: bool,
) -> (Vec<VbusSwitches>, VbusStep) {
    let link = PdLink::new(PdPort::TargetC);
    let mut b = link.bring_up_vbus(mode).unwrap();
    let mut switches = Vec::new();
    let mut event = LinkEvent::Done;
    loop {
        match b.step(event) {
            VbusStep::Do(action) => {
                if let LinkAction::SetSwitches(s) = &action {
                    switches.push(*s);
                }
                event = reply_to(&action, aux_cc, aux_vbus, target_vbus);
            }
            end => return (switches, end),
        }
    }
}

#[test]
fn bring_up_prefers_aux_and_never_back_feeds() {
    let (switches, _) = bring_up(VbusSource::Auto, 1, true, true);
    assert_eq!(switches, vec![VbusSwitches::none_on(), VbusSwitches::aux_route()]);

    let (switches, _) = bring_up(VbusSource::Auto, 0, false, true);
    assert_eq!(switches.last(), Some(&VbusSwitches::control_route()));
    for s in switches {
        assert!(!(s.control && s.aux));
    }
}

#[test]
fn bring_up_is_only_for_target_c() {
    let link = PdLink::new(PdPort::Aux);
    let e = match link.bring_up_vbus(VbusSource::Auto) {
        Err(e) => e,
        Ok(_) => panic!("expected a refusal"),
    };
    assert_eq!(e.message(), "unsupported: VBUS bring-up is only for TARGET-C");
}

#[test]
fn untouched_vbus_sets_no_switch() {
    let (switches, end) = bring_up(VbusSource::Untouched, 1, true, true);
    assert!(switches.is_empty());
    match end {
        VbusStep::Fail(e) => assert!(e.message().contains("no VBUS source available")),
        _ => panic!("expected a failure"),
    }
}

#[test]
fn cycling_discharges_and_reapplies_the_route() {
    let mut link = PdLink::new(PdPort::TargetC);
    link.set_vbus_route(VbusSwitches::aux_route());
    let mut c = link.cycle_vbus();
    let mut switches = Vec::new();
    while let Some(action) = c.step() {
        if let LinkAction::SetSwitches(s) = action {
            switches.push(s);
        }
    }
    assert_eq!(switches.first(), Some(&VbusSwitches::discharge()));
    assert_eq!(switches.last(), Some(&VbusSwitches::aux_route()));
}

#[test]
fn negotiation_accepts_a_request() {
    let mut link = PdLink::new(PdPort::TargetC);
    let mut n = link.negotiate_source(&[(100 << 10) | 150]);
    let mut event = LinkEvent::Done;
    let mut sent = Vec::new();
    let mut polled = 0;
    let request = PdMessage::from_objects(0x1042, &[0x1300_0000]);
    let end = loop {
        match n.step(&mut link, event) {
            NegotiationStep::Do(action) => {
                event = match action {
                    LinkAction::Stage(m) | LinkAction::Send(m) => {
                        sent.push(pd_message_name(&m));
                        LinkEvent::Done
                    }
                    LinkAction::OpenWindow(_) | LinkAction::CheckWindow => LinkEvent::Window(true),
                    LinkAction::Poll => {
                        polled += 1;
                        if polled == 1 {
                            LinkEvent::Message(PdMessage::from_objects(0x0001, &[]))
                        } else {
                            LinkEvent::Message(PdMessage { raw: request.raw.clone() })
                        }
                    }
                    _ => LinkEvent::Done,
                };
            }
            end => break end,
        }
    };
    match end {
        NegotiationStep::Agreed(m) => assert_eq!(m, request),
        _ => panic!("expected an agreement"),
    }
    assert_eq!(sent.first(), Some(&"Source_Capabilities"));
    assert!(sent.ends_with(&["Accept", "PS_RDY"]));
}

#[test]
fn receiving_prefers_a_message_over_the_clock() {
    assert_eq!(recv_step(true, true), RecvStep::Deliver);
    assert_eq!(recv_step(false, true), RecvStep::GiveUp);
    assert_eq!(recv_step(false, false), RecvStep::Wait);
}

#[test]
fn draining_pauses_only_when_nothing_came() {
    assert_eq!(drain_step(false, true), DrainStep::Done);
    assert_eq!(drain_step(false, false), DrainStep::Done);
    assert_eq!(drain_step(true, true), DrainStep::Poll);
    assert_eq!(drain_step(true, false), DrainStep::Pause(10));
}

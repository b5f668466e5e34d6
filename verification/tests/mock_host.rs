use std::time::Duration;

use usbmagic::host::{
    descriptor_type, request, BusError, ControlForensics, ControlResult, DeviceDescriptor,
    Direction, EnumeratedDevice, Handshake,
    HostModel, Pid, PortStatus, RawTransaction, Setup, TransactionResult, UsbForensics, UsbHost,
    WireEvent, WireEventKind,
};
use usbmagic::mock::{MockHost, VirtualDevice};
use usbmagic::pd::{PdMessage, PdPort, PowerDelivery, Vdm};
use usbmagic::power::{MonitoredPort, PowerMonitor};
use usbmagic::{Error, Result, Speed};

#[test]
fn enumerate_against_mock_device() {
    let mut host = MockHost::new();
    host.set_vbus(true).unwrap();

    let dev = host.enumerate().unwrap();
    assert_eq!(dev.address, 1);
    assert_eq!(dev.speed, Some(Speed::Full));
    assert_eq!(dev.device_descriptor.vendor_id, 0x1209);
    assert_eq!(dev.device_descriptor.product_id, 0x0001);
    assert_eq!(dev.device_descriptor.max_packet_size0, 64);

    // The wire log recorded the reset that enumerate() issued.
    let events = host.poll_events().unwrap();
    assert!(events
        .iter()
        .any(|e| matches!(e.kind, WireEventKind::BusReset)));
}

#[test]
fn forensic_corrupt_crc_is_reported_not_hidden() {
    let mut host = MockHost::new();
    host.set_vbus(true).unwrap();
    let mut tx = RawTransaction {
        pid: Pid::Setup,
        address: 0,
        endpoint: 0,
        data: vec![0x80, 0x06, 0x00, 0x01, 0x00, 0x00, 0x12, 0x00],
        flags: Default::default(),
    };
    tx.flags.corrupt_crc = true;
    let r = host.raw_transaction(tx).unwrap();
    assert!(r.errors.contains(&BusError::Crc16));
}

#[test]
fn pd_loopback_and_vconn() {
    let mut host = MockHost::new();
    host.set_vconn(PdPort::TargetC, true).unwrap();
    assert!(host.cc_status(PdPort::TargetC).unwrap().vconn);

    let msg = PdMessage::from_objects(0x0001, &[]);
    host.pd_send(PdPort::TargetC, &msg).unwrap();
    let got = host.pd_recv(PdPort::TargetC, Duration::from_millis(1)).unwrap();
    assert_eq!(got, Some(msg));
}

#[test]
fn power_monitor_reads() {
    let mut host = MockHost::new();
    host.set_vbus(true).unwrap();
    let p = host.read(MonitoredPort::TargetC).unwrap();
    assert_eq!(p.voltage_mv, 5000);
    assert_eq!(p.current_ma, 100);
}

#[test]
fn examine_builds_full_model() {
    let mut host = MockHost::new();
    host.set_vbus(true).unwrap();
    let dev = host.enumerate().unwrap();
    let model = host.examine(dev.address).unwrap();
    assert_eq!(model.device_descriptor.vendor_id, 0x1209);
    assert_eq!(model.configurations.len(), 1);
    let iface = &model.configurations[0].interfaces[0];
    assert_eq!(iface.descriptor.class, 0xFF);
    assert_eq!(iface.endpoints.len(), 2);
    assert_eq!(model.strings.get(&(1, 0x0409)).map(String::as_str), Some("usbmagic"));
    assert_eq!(model.strings.get(&(2, 0x0409)).map(String::as_str), Some("Mock Device"));
    assert!(model.anomalies.is_empty());
}

#[test]
fn forensic_oversized_descriptor_reports_short_packet() {
    let mut host = MockHost::new();
    host.set_vbus(true).unwrap();
    host.enumerate().unwrap();
    // Ask for 4096 bytes of an 18-byte descriptor.
    let r = host
        .get_descriptor_oversized(1, descriptor_type::DEVICE, 0, 4096)
        .unwrap();
    assert_eq!(r.data.len(), 18); // device only has 18
    assert!(r.errors.contains(&BusError::ShortPacket));
}

#[test]
fn forensic_babble_and_unassigned_and_bad_pid() {
    let mut host = MockHost::new();
    host.set_vbus(true).unwrap();
    host.enumerate().unwrap();

    let r = host.babble(1, 1, &[0xAA], 16).unwrap();
    assert!(r.errors.contains(&BusError::Babble));

    // Nobody answers at address 9.
    let r = host.talk_to_unassigned(9, 1).unwrap();
    assert!(r.errors.contains(&BusError::Timeout));
    assert_eq!(r.handshake, Handshake::Absent);

    let r = host.bad_pid(1, 0, Pid::Out).unwrap();
    assert!(r.errors.contains(&BusError::PidCheck));
}

#[test]
fn forensic_setup_length_mismatch_and_skip_status() {
    let mut host = MockHost::new();
    host.set_vbus(true).unwrap();
    host.enumerate().unwrap();
    // GET_DESCRIPTOR(device) claiming wLength=18 but only clocking 4 bytes.
    let setup = Setup {
        request_type: 0x80,
        request: request::GET_DESCRIPTOR,
        value: (u16::from(descriptor_type::DEVICE)) << 8,
        index: 0,
        length: 18,
    };
    let r = host.setup_length_mismatch(1, setup.to_bytes(), &[], 4).unwrap();
    assert_eq!(r.data.len(), 4); // honored the override, not wLength

    let r = host.control_without_status(1, setup.to_bytes(), &[]).unwrap();
    assert!(r
        .errors
        .iter()
        .any(|e| matches!(e, BusError::Other(s) if s.contains("status"))));
}

#[test]
fn enumeration_is_logged_in_order() {
    let mut host = MockHost::new();
    host.set_vbus(true).unwrap();
    host.poll_events().unwrap();
    host.enumerate().unwrap();
    let events = host.poll_events().unwrap();
    assert_eq!(events.len(), 4);
    assert!(matches!(events[0].kind, WireEventKind::BusReset));
    for e in &events[1..] {
        assert!(matches!(e.kind, WireEventKind::Packet { pid: Pid::Setup, .. }));
    }
    for pair in events.windows(2) {
        assert!(pair[0].timestamp_ns <= pair[1].timestamp_ns);
    }
    // Draining leaves nothing behind.
    assert!(host.poll_events().unwrap().is_empty());
}

#[test]
fn device_without_power_reports_no_speed() {
    let mut host = MockHost::new();
    assert_eq!(host.enumerate().unwrap().speed, None);
    let status = host.port_status().unwrap();
    assert!(!status.connected);
    assert_eq!(status.speed, None);
}

#[test]
fn mistyped_device_descriptor_fails_to_enumerate() {
    let mut device = VirtualDevice::example();
    device.device_descriptor[1] = 9;
    let mut host = MockHost::with_device(device);
    assert!(host.enumerate().is_err());
}

#[test]
fn examine_notes_a_mistyped_device_descriptor() {
    let mut device = VirtualDevice::example();
    device.device_descriptor[1] = 9;
    let mut host = MockHost::with_device(device);
    let model = host.examine(0).unwrap();
    assert_eq!(model.device_descriptor.vendor_id, 0x1209);
    assert_eq!(model.raw_device_descriptor.len(), 18);
    assert!(model.anomalies.iter().any(|a| a.contains("bDescriptorType = 0x09")));
}

#[test]
fn examine_reads_every_string_referred_to() {
    let mut host = MockHost::new();
    host.set_vbus(true).unwrap();
    let model = host.examine(0).unwrap();
    let texts: Vec<&str> = (1u8..=5)
        .map(|i| model.strings.get(&(i, 0x0409)).map(String::as_str).unwrap())
        .collect();
    assert_eq!(
        texts,
        vec!["usbmagic", "Mock Device", "SN-0001", "Default Interface", "Config 1"]
    );
}

#[test]
fn every_control_violation_is_reported() {
    let mut host = MockHost::new();
    let setup = Setup {
        request_type: 0x80,
        request: request::GET_DESCRIPTOR,
        value: (u16::from(descriptor_type::DEVICE)) << 8,
        index: 0,
        length: 18,
    };
    let mut opts = ControlForensics::default();
    opts.skip_status = true;
    opts.status_wrong_dir = true;
    opts.flags.truncate = true;
    opts.flags.extra_bytes = 2;
    opts.flags.corrupt_crc = true;
    let r = host.control_raw(0, setup.to_bytes(), &[], opts).unwrap();
    assert_eq!(r.data.len(), 19);
    assert_eq!(&r.data[17..], &[0xCD, 0xCD]);
    assert_eq!(
        r.errors,
        vec![
            BusError::ShortPacket,
            BusError::Babble,
            BusError::Crc16,
            BusError::Other("control transfer had no status stage".to_string()),
            BusError::Other("status stage driven in the wrong direction".to_string()),
        ]
    );
    // Nothing was asked for: nothing is reported.
    let r = host.control_transfer(0, setup, &[]).unwrap();
    assert!(r.errors.is_empty() && !r.stalled);
    // Nobody is at address 5.
    let r = host.control_transfer(5, setup, &[]).unwrap();
    assert_eq!(r.errors, vec![BusError::Timeout]);
}

#[test]
fn unknown_requests_stall() {
    let mut host = MockHost::new();
    let r = host.raw_setup(0, [0xC0, 0xEE, 0, 0, 0, 0, 4, 0]).unwrap();
    assert!(r.stalled);
    let r = host.raw_setup(0, [0x80, 6, 9, 3, 9, 4, 255, 0]).unwrap();
    assert!(r.stalled); // no string 9
}

#[test]
fn wrong_direction_and_toggle_recipes() {
    let mut host = MockHost::new();
    let r = host.setup_wrong_direction(0, [0x80, 6, 0, 1, 0, 0, 18, 0], &[]).unwrap();
    assert_eq!(
        r.errors,
        vec![BusError::Other("status stage driven in the wrong direction".to_string())]
    );
    let r = host.toggle_desync(0, 1, &[1, 2], Pid::Data1).unwrap();
    assert_eq!(r.handshake, Handshake::Ack);
}

#[test]
fn messages_come_back_in_order() {
    let mut host = MockHost::new();
    let first = PdMessage::from_objects(0x1041, &[7]);
    let second = PdMessage { raw: vec![1] };
    host.pd_send(PdPort::Aux, &first).unwrap();
    host.pd_send(PdPort::Aux, &second).unwrap();
    let wait = Duration::from_millis(1);
    assert_eq!(host.pd_recv(PdPort::Aux, wait).unwrap(), Some(first));
    assert_eq!(host.pd_recv(PdPort::Aux, wait).unwrap(), Some(second));
    assert_eq!(host.pd_recv(PdPort::Aux, wait).unwrap(), None);
}

#[test]
fn registers_read_back() {
    let mut host = MockHost::new();
    host.controller_write(PdPort::TargetC, 0x0A, 0x55).unwrap();
    host.controller_write(PdPort::TargetC, 0x0B, 0x66).unwrap();
    assert_eq!(host.controller_read(PdPort::TargetC, 0x0A).unwrap(), 0x55);
    assert_eq!(host.controller_read(PdPort::TargetC, 0x0B).unwrap(), 0x66);
    assert_eq!(host.controller_read(PdPort::TargetC, 0x0C).unwrap(), 0);
}

#[test]
fn vdm_is_sent_with_its_header_first() {
    let mut host = MockHost::new();
    let vdm = Vdm { svid: 0xFF01, command: 3, command_type: 1, object_position: 2, objects: vec![9] };
    host.send_vdm(PdPort::TargetC, 0x206F, &vdm).unwrap();
    let got = host.pd_recv(PdPort::TargetC, Duration::from_millis(1)).unwrap().unwrap();
    assert_eq!(got.header(), Some(0x206F));
    assert_eq!(got.objects(), vec![0xFF01_8243, 9]);
}

#[test]
fn strings_survive_the_wire() {
    let mut device = VirtualDevice::example();
    device.strings.insert((1, 0x0409), "caf\u{e9} \u{1F600}".to_string());
    let mut host = MockHost::with_device(device);
    assert_eq!(host.get_string(0, 1, 0x0409).unwrap(), "caf\u{e9} \u{1F600}");
    assert_eq!(host.get_string(0, 9, 0x0409).unwrap(), "");
}

/// A host whose device answers every control transfer with the same bytes.
struct Parrot(Vec<u8>);

impl HostModel for Parrot {}

impl UsbHost for Parrot {
    fn set_vbus(&mut self, _on: bool) -> Result<()> {
        Ok(())
    }

    fn port_status(&mut self) -> Result<PortStatus> {
        Err(Error::Unsupported("status"))
    }

    fn bus_reset(&mut self) -> Result<Option<Speed>> {
        Ok(Some(Speed::High))
    }

    fn control_raw(
        &mut self,
        _address: u8,
        _setup: [u8; 8],
        _data_out: &[u8],
        _opts: ControlForensics,
    ) -> Result<ControlResult> {
        Ok(ControlResult {
            data: self.0.clone(),
            stalled: false,
            errors: vec![],
            duration_ns: 1,
        })
    }

    fn transfer(
        &mut self,
        _address: u8,
        _endpoint: u8,
        _dir: Direction,
        _data: &[u8],
        _max_len: usize,
    ) -> Result<TransactionResult> {
        Err(Error::Unsupported("transfer"))
    }

    fn raw_transaction(&mut self, _tx: RawTransaction) -> Result<TransactionResult> {
        Err(Error::Unsupported("transaction"))
    }

    fn poll_events(&mut self) -> Result<Vec<WireEvent>> {
        Ok(vec![])
    }
}

#[test]
fn examine_records_a_truncated_device_descriptor() {
    // The host stack runs on any host; this one's device sends only five bytes.
    let mut host = Parrot(vec![18, 1, 0, 2, 0xEF]);
    let model = host.examine(3).unwrap();
    assert_eq!(model.device_descriptor.class, 0xEF);
    assert_eq!(model.raw_device_descriptor.len(), 5);
    assert!(model.anomalies.iter().any(|a| a == "device descriptor was 5 bytes (<18)"));
    assert!(host.enumerate().is_err());
}

#[test]
fn examine_notes_a_string_that_stalls() {
    let mut device = VirtualDevice::example();
    device.strings.remove(&(3, 0x0409));
    let mut host = MockHost::with_device(device);
    let model = host.examine(0).unwrap();
    assert_eq!(model.anomalies, vec!["string 3: STALLed".to_string()]);
    assert_eq!(model.strings.get(&(3, 0x0409)), None);
    assert_eq!(model.strings.len(), 4);

    host.set_vbus(true).unwrap();
    let dev = host.enumerate().unwrap();
    let model = host.examine(dev.address).unwrap();
    assert_eq!(model.anomalies, vec!["string 3: STALLed".to_string()]);
}

#[test]
fn examine_notes_errors_on_the_bus() {
    // Nobody answers at this address.
    let mut host = MockHost::new();
    let model = host.examine(9).unwrap();
    assert_eq!(
        model.anomalies,
        vec![
            "device descriptor: bus errors: 1".to_string(),
            "device descriptor was 0 bytes (<18)".to_string(),
            "string 0: bus errors: 1".to_string(),
            "string 0: not a string descriptor (0 bytes)".to_string(),
        ]
    );
}

#[test]
fn examine_notes_odd_descriptors() {
    let mut device = VirtualDevice::example();
    device.config_descriptor[1] = 7;
    device.config_descriptor.extend([3, 4, 1, 4, 5, 2, 2]);
    device.config_descriptor[2] = 39;
    let mut host = MockHost::with_device(device);
    let model = host.examine(0).unwrap();
    assert_eq!(
        model.anomalies,
        vec![
            "configuration 0: not a configuration descriptor (bLength 9, bDescriptorType 0x07)"
                .to_string(),
            "configuration 0: interface descriptor of only 3 bytes".to_string(),
            "configuration 0: endpoint descriptor of only 4 bytes".to_string(),
        ]
    );
    assert_eq!(model.configurations[0].interfaces[0].class_specific.len(), 2);
}

#[test]
fn examine_notes_counts_that_do_not_match() {
    let mut device = VirtualDevice::example();
    device.config_descriptor[4] = 2; // bNumInterfaces
    device.config_descriptor[13] = 3; // bNumEndpoints of the interface
    let mut host = MockHost::with_device(device);
    let model = host.examine(0).unwrap();
    assert_eq!(
        model.anomalies,
        vec![
            "configuration 0: bNumInterfaces 2 but 1 interfaces".to_string(),
            "configuration 0: interface 0 alternate 0 has bNumEndpoints 3 but 2 endpoints"
                .to_string(),
        ]
    );
    assert_eq!(model.configurations.len(), 1);
}

#[test]
fn alternate_settings_count_as_one_interface() {
    let mut device = VirtualDevice::example();
    device.config_descriptor.extend([9, 4, 0, 1, 0, 0xFF, 0, 0, 4]);
    device.config_descriptor[2] = 41;
    let mut host = MockHost::with_device(device);
    let model = host.examine(0).unwrap();
    assert_eq!(model.configurations[0].interfaces.len(), 2);
    assert!(model.anomalies.is_empty());
}

#[test]
fn examine_notes_descriptors_that_are_cut_short() {
    let mut device = VirtualDevice::example();
    device.config_descriptor.truncate(29);
    let mut host = MockHost::with_device(device);
    let model = host.examine(0).unwrap();
    assert_eq!(
        model.anomalies,
        vec![
            "configuration 0: descriptor truncated: 4 of 7 bytes".to_string(),
            "configuration 0: wTotalLength 32 but 29 bytes".to_string(),
            "configuration 0: interface 0 alternate 0 has bNumEndpoints 2 but 1 endpoints"
                .to_string(),
        ]
    );

    let mut device = VirtualDevice::example();
    device.config_descriptor.push(0);
    device.config_descriptor[2] = 33;
    let mut host = MockHost::with_device(device);
    let model = host.examine(0).unwrap();
    assert_eq!(model.anomalies, vec!["configuration 0: descriptor with bLength 0".to_string()]);
}

#[test]
fn examine_notes_a_string_that_does_not_fit() {
    let mut device = VirtualDevice::example();
    device.strings.insert((2, 0x0409), "x".repeat(127));
    device.device_descriptor[0] = 17;
    let mut host = MockHost::with_device(device);
    let model = host.examine(0).unwrap();
    assert_eq!(
        model.anomalies,
        vec![
            "device descriptor: bLength 17 but 18 bytes".to_string(),
            "string 2: bLength 0 but 255 bytes".to_string(),
        ]
    );
    assert_eq!(model.strings[&(2, 0x0409)], "x".repeat(126));
}

/// A host whose device STALLs every control transfer.
struct Mule;

impl HostModel for Mule {}

impl UsbHost for Mule {
    fn set_vbus(&mut self, _on: bool) -> Result<()> {
        Ok(())
    }

    fn port_status(&mut self) -> Result<PortStatus> {
        Err(Error::Unsupported("status"))
    }

    fn bus_reset(&mut self) -> Result<Option<Speed>> {
        Ok(None)
    }

    fn control_raw(
        &mut self,
        _address: u8,
        setup: [u8; 8],
        _data_out: &[u8],
        _opts: ControlForensics,
    ) -> Result<ControlResult> {
        let device = setup[3] == descriptor_type::DEVICE;
        Ok(ControlResult {
            data: if device { VirtualDevice::example().device_descriptor.to_vec() } else { vec![] },
            stalled: true,
            errors: vec![],
            duration_ns: 1,
        })
    }

    fn transfer(
        &mut self,
        _address: u8,
        _endpoint: u8,
        _dir: Direction,
        _data: &[u8],
        _max_len: usize,
    ) -> Result<TransactionResult> {
        Err(Error::Unsupported("transfer"))
    }

    fn raw_transaction(&mut self, _tx: RawTransaction) -> Result<TransactionResult> {
        Err(Error::Unsupported("transaction"))
    }

    fn poll_events(&mut self) -> Result<Vec<WireEvent>> {
        Ok(vec![])
    }
}

#[test]
fn examine_passes_over_no_stall() {
    let model = Mule.examine(1).unwrap();
    let want: Vec<String> = [
        "device descriptor: STALLed",
        "string 0: STALLed",
        "configuration 0: STALLed reading its header",
        "configuration 0: STALLed",
        "configuration 0: protocol error: configuration descriptor too short",
        "string 1: STALLed",
        "string 2: STALLed",
        "string 3: STALLed",
    ]
    .iter()
    .map(|s| s.to_string())
    .collect();
    assert_eq!(model.anomalies, want);
    assert!(model.strings.is_empty());
    assert!(model.configurations.is_empty());
    // The reads that hand out bytes still tell nothing of a STALL.
    assert_eq!(Mule.get_string(1, 1, 0x0409).unwrap(), "");
    assert!(Mule.read_configuration(1, 0).is_err());
    assert!(Mule.request_descriptor(1, descriptor_type::STRING, 1, 0, 255).unwrap().stalled);
    let answers = Mule.request_configuration(1, 0);
    assert!(answers.head.unwrap().stalled);
    assert!(answers.blob.unwrap().unwrap().stalled);
}

#[test]
fn pid_and_token_violations_are_reported() {
    let mut host = MockHost::new();
    let setup = Setup {
        request_type: 0x80,
        request: request::GET_DESCRIPTOR,
        value: (u16::from(descriptor_type::DEVICE)) << 8,
        index: 0,
        length: 18,
    };
    let mut opts = ControlForensics::default();
    opts.flags.bad_pid_check = true;
    let r = host.control_raw(0, setup.to_bytes(), &[], opts).unwrap();
    assert_eq!(r.errors, vec![BusError::PidCheck]);

    let mut opts = ControlForensics::default();
    opts.flags.crc5_error = true;
    opts.flags.corrupt_crc = true;
    opts.flags.bad_pid_check = true;
    opts.skip_status = true;
    let r = host.control_raw(0, setup.to_bytes(), &[], opts).unwrap();
    assert_eq!(
        r.errors,
        vec![
            BusError::Crc16,
            BusError::PidCheck,
            BusError::Crc5,
            BusError::Other("control transfer had no status stage".to_string()),
        ]
    );
    assert_eq!(r.data.len(), 18);
}

#[test]
fn the_log_holds_each_event_once_in_order() {
    let mut host = MockHost::new();
    host.set_vbus(true).unwrap();
    host.bus_reset().unwrap();
    let events = host.poll_events().unwrap();
    assert_eq!(events.len(), 2);
    assert!(matches!(events[0].kind, WireEventKind::Connect(Some(Speed::Full))));
    assert_eq!(events[0].timestamp_ns, 1_000);
    assert!(matches!(events[1].kind, WireEventKind::BusReset));
    assert_eq!(events[1].timestamp_ns, 10_001_000);
    assert!(host.poll_events().unwrap().is_empty());
    host.set_vbus(false).unwrap();
    let events = host.poll_events().unwrap();
    assert_eq!(events.len(), 1);
    assert!(matches!(events[0].kind, WireEventKind::Disconnect));
    assert!(events[0].timestamp_ns > 10_001_000);
}

/// A host whose device answers at an address of its own choice.
struct Maverick(MockHost);

impl HostModel for Maverick {}

impl UsbHost for Maverick {
    fn set_vbus(&mut self, on: bool) -> Result<()> {
        self.0.set_vbus(on)
    }

    fn port_status(&mut self) -> Result<PortStatus> {
        self.0.port_status()
    }

    fn bus_reset(&mut self) -> Result<Option<Speed>> {
        self.0.bus_reset()
    }

    fn control_raw(
        &mut self,
        address: u8,
        setup: [u8; 8],
        data_out: &[u8],
        opts: ControlForensics,
    ) -> Result<ControlResult> {
        self.0.control_raw(address, setup, data_out, opts)
    }

    fn transfer(
        &mut self,
        address: u8,
        endpoint: u8,
        dir: Direction,
        data: &[u8],
        max_len: usize,
    ) -> Result<TransactionResult> {
        self.0.transfer(address, endpoint, dir, data, max_len)
    }

    fn raw_transaction(&mut self, tx: RawTransaction) -> Result<TransactionResult> {
        self.0.raw_transaction(tx)
    }

    fn poll_events(&mut self) -> Result<Vec<WireEvent>> {
        self.0.poll_events()
    }

    fn enumerate(&mut self) -> Result<EnumeratedDevice> {
        let speed = self.bus_reset()?;
        let set_address = Setup {
            request_type: 0,
            request: request::SET_ADDRESS,
            value: 2,
            index: 0,
            length: 0,
        };
        self.control_transfer(0, set_address, &[])?;
        let raw = self.get_descriptor(2, descriptor_type::DEVICE, 0, 0, 18)?;
        Ok(EnumeratedDevice {
            address: 2,
            speed,
            device_descriptor: DeviceDescriptor::parse(&raw)?,
            raw_device_descriptor: raw,
        })
    }
}

#[test]
fn a_host_may_enumerate_its_own_way() {
    let mut host = Maverick(MockHost::new());
    host.set_vbus(true).unwrap();
    let dev = host.enumerate().unwrap();
    assert_eq!(dev.address, 2);
    assert_eq!(dev.device_descriptor.vendor_id, 0x1209);
    let model = host.examine(dev.address).unwrap();
    assert_eq!(model.address, 2);
    assert!(model.anomalies.is_empty());
}

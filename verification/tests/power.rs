use usbmagic::host::UsbHost;
use usbmagic::mock::MockHost;
use usbmagic::power::{MonitoredPort, PortPower, PowerMonitor};

#[test]
fn power_mw_calc() {
    let p = PortPower {
        voltage_mv: 5000,
        current_ma: 500,
    };
    assert_eq!(p.power_mw(), 2500);
    let sink = PortPower {
        voltage_mv: 5000,
        current_ma: -200,
    };
    assert_eq!(sink.power_mw(), 1000);
}

#[test]
fn power_rounds_down_and_ignores_the_sign() {
    for (mv, ma, mw) in [(1u32, 999i32, 0u32), (3, 999, 2), (5000, -1, 5), (0, -7, 0)] {
        assert_eq!(PortPower { voltage_mv: mv, current_ma: ma }.power_mw(), mw);
    }
    assert_eq!(PortPower { voltage_mv: 1000, current_ma: i32::MIN }.power_mw(), 2_147_483_648);
}

#[test]
fn every_port_is_read_in_order() {
    let mut host = MockHost::new();
    host.set_vbus(true).unwrap();
    let all = host.read_all().unwrap();
    let names: Vec<&str> = all.iter().map(|(p, _)| p.as_str()).collect();
    assert_eq!(names, vec!["control", "aux", "target-a", "target-c"]);
    for (port, power) in all {
        if port == MonitoredPort::TargetC {
            assert_eq!(power.voltage_mv, 5000);
        }
    }
}

//! Per-port VBUS power telemetry.
//!
//! On the Cynthion this is the PAC1954 4-channel monitor on the FPGA's I2C bus.
//! Useful forensically to log exactly when and how much power each port
//! draws/sources around reset, attach, and PD events.

use vstd::prelude::*;

use crate::error::Result;

verus! {

/// A Cynthion port the power monitor can measure.
#[derive(Debug, Clone, Copy, PartialEq, Eq, Structural)]
pub enum MonitoredPort {
    Control,
    Aux,
    TargetA,
    TargetC,
}

impl MonitoredPort {
    /// All monitored ports, in channel order.
    pub const ALL: [MonitoredPort; 4] = [
        MonitoredPort::Control,
        MonitoredPort::Aux,
        MonitoredPort::TargetA,
        MonitoredPort::TargetC,
    ];

    /// The name of a port.
    pub open spec fn name(self) -> Seq<char> {
        match self {
            MonitoredPort::Control => "control"@,
            MonitoredPort::Aux => "aux"@,
            MonitoredPort::TargetA => "target-a"@,
            MonitoredPort::TargetC => "target-c"@,
        }
    }

    /// Lowercase human-readable name.
    pub fn as_str(self) -> (s: &'static str)
        ensures
            s@ == self.name(),
    {
        match self {
            MonitoredPort::Control => "control",
            MonitoredPort::Aux => "aux",
            MonitoredPort::TargetA => "target-a",
            MonitoredPort::TargetC => "target-c",
        }
    }
}

/// A single VBUS measurement.
#[derive(Debug, Clone, Copy, PartialEq, Eq, Structural)]
pub struct PortPower {
    /// Bus voltage in millivolts.
    pub voltage_mv: u32,
    /// Current in milliamps; positive = sourced out of the port, negative = sunk.
    pub current_ma: i32,
}

impl PortPower {
    /// Power in milliwatts: the magnitude of voltage times current, rounded down.
    pub open spec fn milliwatts(self) -> int {
        let magnitude: int = if self.current_ma < 0 {
            -self.current_ma
        } else {
            self.current_ma as int
        };
        self.voltage_mv * magnitude / 1000
    }

    /// Instantaneous power in milliwatts (magnitude), in 32 bits: a product past
    /// `u32::MAX` milliwatts wraps around.
    pub fn power_mw(self) -> (p: u32)
        ensures
            p == self.milliwatts() % 0x1_0000_0000,
    {
        let magnitude: u64 = if self.current_ma < 0 {
            (-(self.current_ma as i64)) as u64
        } else {
            self.current_ma as u64
        };
        let mv: u64 = self.voltage_mv as u64;
        assert(mv * magnitude <= 0xFFFF_FFFF * 0x8000_0000) by (nonlinear_arith)
            requires
                mv <= 0xFFFF_FFFF,
                magnitude <= 0x8000_0000,
        ;
        ((mv * magnitude / 1000) % 0x1_0000_0000) as u32
    }
}

/// The ports have the names that are printed on the board.
pub proof fn monitored_ports_have_their_names()
    ensures
        MonitoredPort::Control.name() == "control"@,
        MonitoredPort::Aux.name() == "aux"@,
        MonitoredPort::TargetA.name() == "target-a"@,
        MonitoredPort::TargetC.name() == "target-c"@,
{
}

/// Power is voltage times current: a thousand of its milliwatts are the most whole
/// thousands in the product of millivolts and milliamps, sourced or sunk.
pub proof fn power_is_voltage_times_current(p: PortPower)
    ensures
        ({
            let product = p.voltage_mv * p.current_ma;
            let w = 1000 * p.milliwatts();
            &&& product >= 0 ==> w <= product < w + 1000
            &&& product < 0 ==> w <= -product < w + 1000
        }),
{
    let product = p.voltage_mv * p.current_ma;
    assert(p.voltage_mv * (-p.current_ma) == -product) by (nonlinear_arith)
        requires
            product == p.voltage_mv * p.current_ma,
    ;
    assert(p.current_ma >= 0 ==> product >= 0) by (nonlinear_arith)
        requires
            product == p.voltage_mv * p.current_ma,
            p.voltage_mv >= 0,
    ;
    assert(p.current_ma < 0 ==> product <= 0) by (nonlinear_arith)
        requires
            product == p.voltage_mv * p.current_ma,
            p.voltage_mv >= 0,
    ;
}

/// Power has no sign: sinking a current weighs as much as sourcing it.
pub proof fn power_is_a_magnitude(voltage_mv: u32, current_ma: i32)
    requires
        current_ma != i32::MIN,
    ensures
        (PortPower { voltage_mv, current_ma }).milliwatts() == (PortPower {
            voltage_mv,
            current_ma: (-current_ma) as i32,
        }).milliwatts(),
        (PortPower { voltage_mv, current_ma }).milliwatts() >= 0,
{
    let magnitude: int = if current_ma < 0 {
        -current_ma
    } else {
        current_ma as int
    };
    assert(voltage_mv * magnitude >= 0) by (nonlinear_arith)
        requires
            voltage_mv >= 0,
            magnitude >= 0,
    ;
}

/// What the measuring operation of a [`PowerMonitor`] may do: anything, unless a
/// monitor says more.
pub trait PowerModel: Sized {
    /// `read(port)` may lead from `pre` to `post` and return `r`.
    open spec fn read_step(pre: Self, port: MonitoredPort, post: Self, r: Result<PortPower>) -> bool {
        true
    }
}

/// The answers seen while measuring all ports, and the monitor after each of them.
pub struct ReadAllTrace<M> {
    pub control: Result<PortPower>,
    pub after_control: M,
    pub aux: Result<PortPower>,
    pub after_aux: M,
    pub target_a: Result<PortPower>,
    pub after_target_a: M,
    pub target_c: Result<PortPower>,
}

/// A measurement of all ports that met the answers in `t`: one port after the
/// other, in channel order, ending with the first that fails.
pub open spec fn read_all_run<M: PowerModel>(
    pre: M,
    t: ReadAllTrace<M>,
    post: M,
    r: Result<[(MonitoredPort, PortPower); 4]>,
) -> bool {
    &&& M::read_step(pre, MonitoredPort::Control, t.after_control, t.control)
    &&& match t.control {
        Err(e) => post == t.after_control && r == Err::<[(MonitoredPort, PortPower); 4], _>(e),
        Ok(control) => {
            &&& M::read_step(t.after_control, MonitoredPort::Aux, t.after_aux, t.aux)
            &&& match t.aux {
                Err(e) => post == t.after_aux && r == Err::<[(MonitoredPort, PortPower); 4], _>(e),
                Ok(aux) => {
                    &&& M::read_step(
                        t.after_aux,
                        MonitoredPort::TargetA,
                        t.after_target_a,
                        t.target_a,
                    )
                    &&& match t.target_a {
                        Err(e) => post == t.after_target_a && r == Err::<
                            [(MonitoredPort, PortPower); 4],
                            _,
                        >(e),
                        Ok(target_a) => {
                            &&& M::read_step(
                                t.after_target_a,
                                MonitoredPort::TargetC,
                                post,
                                t.target_c,
                            )
                            &&& match t.target_c {
                                Err(e) => r == Err::<[(MonitoredPort, PortPower); 4], _>(e),
                                Ok(target_c) => r matches Ok(all) && all@ == seq![
                                    (MonitoredPort::Control, control),
                                    (MonitoredPort::Aux, aux),
                                    (MonitoredPort::TargetA, target_a),
                                    (MonitoredPort::TargetC, target_c),
                                ],
                            }
                        },
                    }
                },
            }
        },
    }
}

/// A measurement of all ports that succeeds lists each port once, in channel order,
/// with what was measured at that very port; it fails exactly if measuring one of them
/// does, with the first failure.
pub proof fn all_ports_are_measured<M: PowerModel>(
    pre: M,
    t: ReadAllTrace<M>,
    post: M,
    r: Result<[(MonitoredPort, PortPower); 4]>,
)
    requires
        read_all_run(pre, t, post, r),
    ensures
        r matches Ok(all) ==> {
            &&& all@.len() == 4
            &&& all@[0].0 is Control && t.control == Ok::<_, crate::error::Error>(all@[0].1)
                && M::read_step(pre, all@[0].0, t.after_control, t.control)
            &&& all@[1].0 is Aux && t.aux == Ok::<_, crate::error::Error>(all@[1].1) && M::read_step(
                t.after_control,
                all@[1].0,
                t.after_aux,
                t.aux,
            )
            &&& all@[2].0 is TargetA && t.target_a == Ok::<_, crate::error::Error>(all@[2].1)
                && M::read_step(t.after_aux, all@[2].0, t.after_target_a, t.target_a)
            &&& all@[3].0 is TargetC && t.target_c == Ok::<_, crate::error::Error>(all@[3].1)
                && M::read_step(t.after_target_a, all@[3].0, post, t.target_c)
        },
        r is Err <==> t.control is Err || t.aux is Err && t.control is Ok || t.target_a is Err
            && t.aux is Ok && t.control is Ok || t.target_c is Err && t.target_a is Ok && t.aux is Ok
            && t.control is Ok,
        t.control is Err ==> r->Err_0 == t.control->Err_0,
        t.control is Ok && t.aux is Err ==> r->Err_0 == t.aux->Err_0,
        t.control is Ok && t.aux is Ok && t.target_a is Err ==> r->Err_0 == t.target_a->Err_0,
        t.control is Ok && t.aux is Ok && t.target_a is Ok && t.target_c is Err ==> r->Err_0
            == t.target_c->Err_0,
{
}

/// Reading per-port VBUS voltage and current.
pub trait PowerMonitor: PowerModel {
    /// Measure a single port.
    fn read(&mut self, port: MonitoredPort) -> (r: Result<PortPower>)
        ensures
            Self::read_step(*old(self), port, *final(self), r),
    ;

    /// Measure all ports. Default reads each in turn.
    fn read_all(&mut self) -> (r: Result<[(MonitoredPort, PortPower); 4]>)
        default_ensures
            exists|t: ReadAllTrace<Self>| read_all_run::<Self>(*old(self), t, *final(self), r),
    {
        let ghost s0 = *self;
        let control = self.read(MonitoredPort::Control);
        let ghost mut t = ReadAllTrace::<Self> {
            control,
            after_control: *self,
            aux: arbitrary(),
            after_aux: arbitrary(),
            target_a: arbitrary(),
            after_target_a: arbitrary(),
            target_c: arbitrary(),
        };
        let control = match control {
            Ok(p) => p,
            Err(e) => {
                assert(read_all_run(s0, t, *self, Err(e)));
                return Err(e);
            },
        };
        let aux = self.read(MonitoredPort::Aux);
        proof {
            t = ReadAllTrace { aux, after_aux: *self, ..t };
        }
        let aux = match aux {
            Ok(p) => p,
            Err(e) => {
                assert(read_all_run(s0, t, *self, Err(e)));
                return Err(e);
            },
        };
        let target_a = self.read(MonitoredPort::TargetA);
        proof {
            t = ReadAllTrace { target_a, after_target_a: *self, ..t };
        }
        let target_a = match target_a {
            Ok(p) => p,
            Err(e) => {
                assert(read_all_run(s0, t, *self, Err(e)));
                return Err(e);
            },
        };
        let target_c = self.read(MonitoredPort::TargetC);
        proof {
            t = ReadAllTrace { target_c, ..t };
        }
        let target_c = match target_c {
            Ok(p) => p,
            Err(e) => {
                assert(read_all_run(s0, t, *self, Err(e)));
                return Err(e);
            },
        };
        let all: [(MonitoredPort, PortPower); 4] = [
            (MonitoredPort::Control, control),
            (MonitoredPort::Aux, aux),
            (MonitoredPort::TargetA, target_a),
            (MonitoredPort::TargetC, target_c),
        ];
        assert(all@ =~= seq![
            (MonitoredPort::Control, control),
            (MonitoredPort::Aux, aux),
            (MonitoredPort::TargetA, target_a),
            (MonitoredPort::TargetC, target_c),
        ]);
        assert(read_all_run(s0, t, *self, Ok(all)));
        Ok(all)
    }
}

} // verus!

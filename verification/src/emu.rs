//! A device emulator: the behavioural model of one family of
//! programmable power supplies, used to exercise the gateway without a
//! physical bus.
//!
//! The emulator keeps one device per address and interprets one
//! `\r`-terminated command line at a time: `ADR n` selects the
//! addressed device, `NAME?` reads a parameter back and `NAME v` sets
//! it. A measured voltage reads back clamped between the under-voltage
//! limit and the over-voltage protection while the output is enabled,
//! and zero while it is not. When a device's set voltage leaves the
//! protection window, the emulator raises one SRQ: the attention byte
//! `0x80 | addr`, sent twice. Malformed input is a programming error:
//! the emulator refuses it and the caller aborts.

use vstd::prelude::*;
use crate::num::{dec_lt, DecNum};
use crate::types::Addr;

verus! {

/// One emulated device's parameters.
pub struct EmuDevice {
    /// Whether this device has already raised its SRQ.
    pub alert_sent: bool,
    /// Output enable.
    pub out: bool,
    /// Set voltage.
    pub voltage: DecNum,
    /// Set current.
    pub current: DecNum,
    /// Over-voltage protection limit.
    pub over_voltage: DecNum,
    /// Under-voltage limit.
    pub under_voltage: DecNum,
}

impl EmuDevice {
    /// All parameters are canonical decimals.
    pub open spec fn wf(&self) -> bool {
        &&& self.voltage.wf()
        &&& self.current.wf()
        &&& self.over_voltage.wf()
        &&& self.under_voltage.wf()
    }

    /// A factory-fresh device: output off, zero set-points, a ten-volt
    /// protection limit and a zero under-voltage limit.
    pub fn new() -> (r: EmuDevice)
        ensures
            r.wf(),
            !r.out,
            !r.alert_sent,
            r.voltage.spec_is_zero(),
            r.current.spec_is_zero(),
            r.under_voltage.spec_is_zero(),
            r.over_voltage.int_digits@ == crate::text::dec_u8(10),
            r.over_voltage.frac_digits@.len() == 0,
            !r.over_voltage.neg,
    {
        EmuDevice {
            alert_sent: false,
            out: false,
            voltage: DecNum::zero(),
            current: DecNum::zero(),
            over_voltage: DecNum::from_u8(10),
            under_voltage: DecNum::zero(),
        }
    }

    /// Whether the set voltage is outside the protection window
    /// `[under-voltage, over-voltage)`, which raises the attention
    /// signal.
    pub open spec fn alert_now(&self) -> bool {
        dec_lt(self.voltage, self.under_voltage) || !dec_lt(self.voltage, self.over_voltage)
    }
}

/// Clamp a value into `[lo, hi]`, by the decimal order.
pub fn dec_clamp(v: &DecNum, lo: &DecNum, hi: &DecNum) -> (r: DecNum)
    ensures
        r@ == (if dec_lt(*v, *lo) {
            lo@
        } else if dec_lt(*hi, *v) {
            hi@
        } else {
            v@
        }),
        r.wf() == (if dec_lt(*v, *lo) {
            lo.wf()
        } else if dec_lt(*hi, *v) {
            hi.wf()
        } else {
            v.wf()
        }),
{
    if v.lt(lo) {
        lo.duplicate()
    } else if hi.lt(v) {
        hi.duplicate()
    } else {
        v.duplicate()
    }
}

/// Equal device fields, output enable included; only the alert flag may
/// differ.
pub open spec fn fields_eq(a: EmuDevice, b: EmuDevice) -> bool {
    &&& a.out == b.out
    &&& a.voltage@ == b.voltage@
    &&& a.current@ == b.current@
    &&& a.over_voltage@ == b.over_voltage@
    &&& a.under_voltage@ == b.under_voltage@
}

/// Equal numeric parameters; output enable and the alert flag may
/// differ.
pub open spec fn same_nums(a: EmuDevice, b: EmuDevice) -> bool {
    &&& a.voltage@ == b.voltage@
    &&& a.current@ == b.current@
    &&& a.over_voltage@ == b.over_voltage@
    &&& a.under_voltage@ == b.under_voltage@
}

/// A settable or readable parameter of an emulated device.
#[derive(Debug, Clone, Copy, PartialEq, Eq, Structural)]
pub enum EmuField {
    /// Set voltage (`PV`).
    Voltage,
    /// Set current (`PC`).
    Current,
    /// Over-voltage protection (`OVP`).
    OverVoltage,
    /// Under-voltage limit (`UVL`).
    UnderVoltage,
}

/// The wire name of a settable parameter.
pub open spec fn field_name(f: EmuField) -> Seq<u8> {
    match f {
        EmuField::Voltage => seq![80u8, 86u8],
        EmuField::Current => seq![80u8, 67u8],
        EmuField::OverVoltage => seq![79u8, 86u8, 80u8],
        EmuField::UnderVoltage => seq![85u8, 86u8, 76u8],
    }
}

/// The wire name of a measured readback.
pub open spec fn measure_name(f: EmuField) -> Seq<u8> {
    match f {
        EmuField::Voltage => seq![77u8, 86u8],
        EmuField::Current => seq![77u8, 67u8],
        _ => Seq::<u8>::empty(),
    }
}

/// The text a query of a settable parameter reads back.
pub open spec fn render_field(d: EmuDevice, f: EmuField) -> Seq<u8> {
    match f {
        EmuField::Voltage => d.voltage.render(),
        EmuField::Current => d.current.render(),
        EmuField::OverVoltage => d.over_voltage.render(),
        EmuField::UnderVoltage => d.under_voltage.render(),
    }
}

/// A device after setting one parameter: that parameter carries the
/// new value, everything else is unchanged; the alert flag is governed
/// separately.
pub open spec fn dev_after_set(
    d0: EmuDevice,
    f: EmuField,
    v: (bool, Seq<u8>, Seq<u8>),
    d1: EmuDevice,
) -> bool {
    &&& d1.out == d0.out
    &&& (match f {
        EmuField::Voltage => d1.voltage@ == v && d1.current@ == d0.current@ && d1.over_voltage@
            == d0.over_voltage@ && d1.under_voltage@ == d0.under_voltage@,
        EmuField::Current => d1.current@ == v && d1.voltage@ == d0.voltage@ && d1.over_voltage@
            == d0.over_voltage@ && d1.under_voltage@ == d0.under_voltage@,
        EmuField::OverVoltage => d1.over_voltage@ == v && d1.voltage@ == d0.voltage@ && d1.current@
            == d0.current@ && d1.under_voltage@ == d0.under_voltage@,
        EmuField::UnderVoltage => d1.under_voltage@ == v && d1.voltage@ == d0.voltage@
            && d1.current@ == d0.current@ && d1.over_voltage@ == d0.over_voltage@,
    })
}

/// The view of the measured voltage while the output is enabled: the
/// set voltage clamped into the protection window.
pub open spec fn clamped_voltage(d: EmuDevice) -> (bool, Seq<u8>, Seq<u8>) {
    if dec_lt(d.voltage, d.under_voltage) {
        d.under_voltage@
    } else if dec_lt(d.over_voltage, d.voltage) {
        d.over_voltage@
    } else {
        d.voltage@
    }
}

/// The identification string the emulator answers to `IDN?`.
pub open spec fn idn_text() -> Seq<u8> {
    seq![80u8, 83u8, 85u8, 32u8, 69u8, 109u8, 117u8, 108u8, 97u8, 116u8, 111u8, 114u8]
}

/// The identification line, `PSU Emulator`.
fn idn_line() -> (r: Vec<u8>)
    ensures
        r@ == idn_text(),
{
    let mut v: Vec<u8> = Vec::new();
    v.push(80);
    v.push(83);
    v.push(85);
    v.push(32);
    v.push(69);
    v.push(109);
    v.push(117);
    v.push(108);
    v.push(97);
    v.push(116);
    v.push(111);
    v.push(114);
    proof {
        assert(v@ =~= idn_text());
    }
    v
}

/// One parsed command line.
pub enum EmuCmd {
    /// `ADR n`: select the addressed device.
    Adr(Addr),
    /// `NAME?`: read a settable parameter back.
    Query(EmuField),
    /// `MV?` or `MC?`: read a measured value back.
    Measure(EmuField),
    /// `NAME v`: set a parameter.
    SetNum(EmuField, DecNum),
    /// `OUT 0` / `OUT 1`: enable or disable the output.
    SetOut(bool),
    /// `OUT?`: read the output enable back.
    QueryOut,
    /// `IDN?`: identify the instrument.
    Idn,
    /// `SN?`: read the serial number back.
    Sn,
    /// Anything else: a programming error.
    Bad,
}

/// What the emulator sends back for one command: the reply line, and
/// the attention byte to inject twice after it, if an SRQ was raised.
pub struct EmuOutput {
    pub line: Vec<u8>,
    pub srq: Option<u8>,
}

pub struct Emulator {
    /// The addresses of the emulated devices.
    pub addrs: Vec<Addr>,
    /// The devices, parallel to the addresses.
    pub devs: Vec<EmuDevice>,
    /// The currently addressed device, if any.
    pub addressed: Option<Addr>,
}

impl Emulator {
    /// Whether an address belongs to an emulated device.
    pub open spec fn has_dev(&self, a: Addr) -> bool {
        exists|i: int| 0 <= i < self.addrs@.len() && self.addrs@[i] == a
    }

    /// The index of an emulated device.
    pub open spec fn dev_index(&self, a: Addr) -> int {
        choose|i: int| 0 <= i < self.addrs@.len() && self.addrs@[i] == a
    }

    /// Well-formed: the two columns line up, addresses are distinct and
    /// low enough to fit an attention byte, every device is canonical,
    /// and the addressed slot names a real device.
    pub open spec fn wf(&self) -> bool {
        &&& self.addrs@.len() == self.devs@.len()
        &&& (forall|i: int, j: int|
            0 <= i < j < self.addrs@.len() ==> self.addrs@[i] != self.addrs@[j])
        &&& (forall|i: int| 0 <= i < self.addrs@.len() ==> self.addrs@[i] < 0x80)
        &&& (forall|i: int| 0 <= i < self.devs@.len() ==> (#[trigger] self.devs@[i]).wf())
        &&& (match self.addressed {
            Some(a) => self.has_dev(a),
            None => true,
        })
    }

    /// An emulator with one factory-fresh device per address, nobody
    /// addressed yet.
    pub fn new(addrs: Vec<Addr>) -> (r: Emulator)
        requires
            addrs@.no_duplicates(),
            forall|i: int| 0 <= i < addrs@.len() ==> addrs@[i] < 0x80,
        ensures
            r.wf(),
            r.addrs@ == addrs@,
            r.addressed == None::<Addr>,
            forall|i: int|
                0 <= i < r.devs@.len() ==> !(#[trigger] r.devs@[i]).out && !r.devs@[i].alert_sent
                    && r.devs@[i].voltage.spec_is_zero() && r.devs@[i].current.spec_is_zero()
                    && r.devs@[i].under_voltage.spec_is_zero() && r.devs@[i].over_voltage.int_digits@
                    == crate::text::dec_u8(10) && r.devs@[i].over_voltage.frac_digits@.len() == 0
                    && !r.devs@[i].over_voltage.neg,
    {
        let n = addrs.len();
        let mut devs: Vec<EmuDevice> = Vec::new();
        let mut i: usize = 0;
        while i < n
            invariant
                0 <= i <= n,
                devs@.len() == i,
                forall|j: int| 0 <= j < i ==> (#[trigger] devs@[j]).wf(),
                forall|j: int|
                    0 <= j < i ==> !(#[trigger] devs@[j]).out && !devs@[j].alert_sent
                        && devs@[j].voltage.spec_is_zero() && devs@[j].current.spec_is_zero()
                        && devs@[j].under_voltage.spec_is_zero() && devs@[j].over_voltage.int_digits@
                        == crate::text::dec_u8(10) && devs@[j].over_voltage.frac_digits@.len() == 0
                        && !devs@[j].over_voltage.neg,
            decreases n - i,
        {
            devs.push(EmuDevice::new());
            i = i + 1;
        }
        Emulator { addrs, devs, addressed: None }
    }

    /// Raise the SRQ if this device's set voltage has left the
    /// protection window and the alert was not sent yet. Returns the
    /// attention byte to inject twice, if one is due.
    fn srq_check(&mut self, i: usize, a: Addr) -> (r: Option<u8>)
        requires
            i < old(self).devs@.len(),
            i < old(self).addrs@.len(),
            old(self).addrs@[i as int] == a,
            a < 0x80,
        ensures
            final(self).addrs@ == old(self).addrs@,
            final(self).addressed == old(self).addressed,
            final(self).devs@.len() == old(self).devs@.len(),
            (forall|j: int|
                0 <= j < old(self).devs@.len() && j != i ==> final(self).devs@[j] == old(
                    self,
                ).devs@[j]),
            ({
                let d0 = old(self).devs@[i as int];
                let d1 = final(self).devs@[i as int];
                &&& fields_eq(d0, d1)
                &&& (if d0.alert_now() && !d0.alert_sent {
                    d1.alert_sent && r == Some((0x80 + a) as u8)
                } else {
                    d1.alert_sent == d0.alert_sent && r == None::<u8>
                })
            }),
    {
        let d = &self.devs[i];
        let alert = d.voltage.lt(&d.under_voltage) || !d.voltage.lt(&d.over_voltage);
        if alert && !d.alert_sent {
            let d = &mut self.devs[i];
            d.alert_sent = true;
            Some(0x80 + a)
        } else {
            None
        }
    }

    /// Apply one parsed command. Selecting an unknown address, sending
    /// a device command while nothing is addressed, and malformed input
    /// are programming errors: the emulator refuses them unchanged.
    #[verifier::rlimit(60)]
    #[verifier::spinoff_prover]
    pub fn apply(&mut self, c: EmuCmd) -> (r: Option<EmuOutput>)
        requires
            old(self).wf(),
            (match c {
                EmuCmd::SetNum(_, v) => v.wf(),
                _ => true,
            }),
        ensures
            final(self).wf(),
            final(self).addrs@ == old(self).addrs@,
            (r is None) ==> *final(self) == *old(self),
            (match c {
                EmuCmd::Adr(a) => {
                    if old(self).has_dev(a) {
                        &&& (match r {
                            Some(o) => o.line@ == crate::conn::ok_text() && o.srq == None::<u8>,
                            None => false,
                        })
                        &&& final(self).addressed == Some(a)
                        &&& final(self).devs@ == old(self).devs@
                    } else {
                        r is None
                    }
                },
                EmuCmd::Bad => r is None,
                _ => {
                    match old(self).addressed {
                        None => r is None,
                        Some(a) => {
                            let i = old(self).dev_index(a);
                            let d0 = old(self).devs@[i];
                            let d1 = final(self).devs@[i];
                            &&& final(self).addressed == old(self).addressed
                            &&& final(self).devs@.len() == old(self).devs@.len()
                            &&& (forall|j: int|
                                0 <= j < old(self).devs@.len() && j != i ==> final(self).devs@[j]
                                    == old(self).devs@[j])
                            &&& (match r {
                                None => (c matches EmuCmd::Measure(
                                    EmuField::OverVoltage,
                                )) || (c matches EmuCmd::Measure(EmuField::UnderVoltage)),
                                Some(o) => {
                                    &&& (match c {
                                        EmuCmd::Query(f) => fields_eq(d0, d1) && o.line@
                                            == render_field(d0, f),
                                        EmuCmd::Measure(EmuField::Voltage) => fields_eq(d0, d1)
                                            && o.line@ == (if d0.out {
                                            crate::num::render_spec(
                                                clamped_voltage(d0).0,
                                                clamped_voltage(d0).1,
                                                clamped_voltage(d0).2,
                                            )
                                        } else {
                                            seq![48u8]
                                        }),
                                        EmuCmd::Measure(EmuField::Current) => fields_eq(d0, d1)
                                            && o.line@ == (if d0.out {
                                            d0.current.render()
                                        } else {
                                            seq![48u8]
                                        }),
                                        EmuCmd::SetNum(f, v) => dev_after_set(d0, f, v@, d1)
                                            && o.line@ == crate::conn::ok_text(),
                                        EmuCmd::SetOut(b) => d1.out == b && same_nums(d0, d1)
                                            && o.line@ == crate::conn::ok_text(),
                                        EmuCmd::QueryOut => fields_eq(d0, d1) && o.line@ == (if d0.out {
                                            seq![49u8]
                                        } else {
                                            seq![48u8]
                                        }),
                                        EmuCmd::Idn => fields_eq(d0, d1) && o.line@ == idn_text(),
                                        EmuCmd::Sn => fields_eq(d0, d1) && o.line@ == seq![
                                            69u8,
                                            109u8,
                                            117u8,
                                            45u8,
                                        ] + crate::text::dec_u8(a),
                                        _ => false,
                                    })
                                    &&& (if d1.alert_now() && !d0.alert_sent {
                                        d1.alert_sent && o.srq == Some((0x80 + a) as u8)
                                    } else {
                                        d1.alert_sent == d0.alert_sent && o.srq == None::<u8>
                                    })
                                },
                            })
                        },
                    }
                },
            }),
    {
        match c {
            EmuCmd::Bad => None,
            EmuCmd::Adr(a) => {
                match self.find_dev(a) {
                    None => None,
                    Some(_) => {
                        self.addressed = Some(a);
                        Some(EmuOutput { line: crate::conn::ok_response(), srq: None })
                    },
                }
            },
            _ => {
                let a = match self.addressed {
                    Some(a) => a,
                    None => {
                        return None;
                    },
                };
                let i = match self.find_dev(a) {
                    Some(i) => i,
                    None => {
                        proof {
                            assert(false);
                        }
                        return None;
                    },
                };
                proof {
                    let k = self.dev_index(a);
                    assert(0 <= k < self.addrs@.len() && self.addrs@[k] == a);
                    assert(k == i as int);
                    assert(self.addrs@[i as int] < 0x80);
                }
                match c {
                    EmuCmd::Query(f) => {
                        let d = &self.devs[i];
                        let line = match f {
                            EmuField::Voltage => d.voltage.to_text(),
                            EmuField::Current => d.current.to_text(),
                            EmuField::OverVoltage => d.over_voltage.to_text(),
                            EmuField::UnderVoltage => d.under_voltage.to_text(),
                        };
                        let srq = self.srq_check(i, a);
                        Some(EmuOutput { line, srq })
                    },
                    EmuCmd::Measure(f) => {
                        let d = &self.devs[i];
                        let line = match f {
                            EmuField::Voltage => {
                                if d.out {
                                    dec_clamp(
                                        &d.voltage,
                                        &d.under_voltage,
                                        &d.over_voltage,
                                    ).to_text()
                                } else {
                                    let z = DecNum::zero();
                                    proof {
                                        assert(z.render() =~= seq![48u8]);
                                    }
                                    z.to_text()
                                }
                            },
                            EmuField::Current => {
                                if d.out {
                                    d.current.to_text()
                                } else {
                                    let z = DecNum::zero();
                                    proof {
                                        assert(z.render() =~= seq![48u8]);
                                    }
                                    z.to_text()
                                }
                            },
                            EmuField::OverVoltage => {
                                return None;
                            },
                            EmuField::UnderVoltage => {
                                return None;
                            },
                        };
                        let srq = self.srq_check(i, a);
                        Some(EmuOutput { line, srq })
                    },
                    EmuCmd::SetNum(f, v) => {
                        let d = &mut self.devs[i];
                        match f {
                            EmuField::Voltage => {
                                d.voltage = v;
                            },
                            EmuField::Current => {
                                d.current = v;
                            },
                            EmuField::OverVoltage => {
                                d.over_voltage = v;
                            },
                            EmuField::UnderVoltage => {
                                d.under_voltage = v;
                            },
                        }
                        let srq = self.srq_check(i, a);
                        Some(EmuOutput { line: crate::conn::ok_response(), srq })
                    },
                    EmuCmd::SetOut(b) => {
                        let d = &mut self.devs[i];
                        d.out = b;
                        let srq = self.srq_check(i, a);
                        Some(EmuOutput { line: crate::conn::ok_response(), srq })
                    },
                    EmuCmd::QueryOut => {
                        let d = &self.devs[i];
                        let mut line: Vec<u8> = Vec::new();
                        if d.out {
                            line.push(49);
                        } else {
                            line.push(48);
                        }
                        proof {
                            assert(line@ =~= if self.devs@[i as int].out {
                                seq![49u8]
                            } else {
                                seq![48u8]
                            });
                        }
                        let srq = self.srq_check(i, a);
                        Some(EmuOutput { line, srq })
                    },
                    EmuCmd::Idn => {
                        let line = idn_line();
                        let srq = self.srq_check(i, a);
                        Some(EmuOutput { line, srq })
                    },
                    EmuCmd::Sn => {
                        let mut line: Vec<u8> = Vec::new();
                        line.push(69);
                        line.push(109);
                        line.push(117);
                        line.push(45);
                        let digits = crate::text::render_u8(a);
                        line.extend_from_slice(digits.as_slice());
                        proof {
                            assert(line@ =~= seq![69u8, 109u8, 117u8, 45u8]
                                + crate::text::dec_u8(a));
                        }
                        let srq = self.srq_check(i, a);
                        Some(EmuOutput { line, srq })
                    },
                    EmuCmd::Adr(_) => {
                        return None;
                    },
                    EmuCmd::Bad => {
                        return None;
                    },
                }
            },
        }
    }

    /// Find a device's index by address.
    fn find_dev(&self, a: Addr) -> (r: Option<usize>)
        ensures
            (match r {
                Some(i) => i < self.addrs@.len() && self.addrs@[i as int] == a,
                None => !self.has_dev(a),
            }),
    {
        let n = self.addrs.len();
        let mut i: usize = 0;
        while i < n
            invariant
                0 <= i <= n,
                n == self.addrs@.len(),
                forall|j: int| 0 <= j < i ==> self.addrs@[j] != a,
            decreases n - i,
        {
            if self.addrs[i] == a {
                return Some(i);
            }
            i = i + 1;
        }
        None
    }
}

/// Compare a byte string against a two-byte literal.
fn lit2(s: &[u8], a: u8, b: u8) -> (r: bool)
    ensures
        r == (s@ == seq![a, b]),
        r ==> s@.len() == 2,
{
    if s.len() == 2 && s[0] == a && s[1] == b {
        proof {
            assert(s@ =~= seq![a, b]);
        }
        true
    } else {
        proof {
            if s@ == seq![a, b] {
                assert(s@.len() == 2);
                assert(s@[0] == a && s@[1] == b);
            }
        }
        false
    }
}

/// Compare a byte string against a three-byte literal.
fn lit3(s: &[u8], a: u8, b: u8, c: u8) -> (r: bool)
    ensures
        r == (s@ == seq![a, b, c]),
        r ==> s@.len() == 3,
{
    if s.len() == 3 && s[0] == a && s[1] == b && s[2] == c {
        proof {
            assert(s@ =~= seq![a, b, c]);
        }
        true
    } else {
        proof {
            if s@ == seq![a, b, c] {
                assert(s@.len() == 3);
                assert(s@[0] == a && s@[1] == b && s@[2] == c);
            }
        }
        false
    }
}

/// Compare a byte string against a four-byte literal.
fn lit4(s: &[u8], a: u8, b: u8, c: u8, d: u8) -> (r: bool)
    ensures
        r == (s@ == seq![a, b, c, d]),
        r ==> s@.len() == 4,
{
    if s.len() == 4 && s[0] == a && s[1] == b && s[2] == c && s[3] == d {
        proof {
            assert(s@ =~= seq![a, b, c, d]);
        }
        true
    } else {
        proof {
            if s@ == seq![a, b, c, d] {
                assert(s@.len() == 4);
                assert(s@[0] == a && s@[1] == b && s@[2] == c && s@[3] == d);
            }
        }
        false
    }
}

/// The shape of an addressing command: `ADR `, then decimal digits.
proof fn lemma_adr_form(line: Seq<u8>, a2: Addr)
    requires
        line == seq![65u8, 68u8, 82u8, 32u8] + crate::text::dec_u8(a2),
    ensures
        line.len() >= 5,
        line[0] == 65 && line[1] == 68 && line[2] == 82 && line[3] == 32,
        line.skip(4) == crate::text::dec_u8(a2),
        crate::text::all_dec_digits(line.skip(4)),
        crate::text::dec_val(line.skip(4)) == a2 as int,
        line.skip(4).len() >= 1,
{
    crate::text::lemma_dec_u8_val(a2);
    assert(crate::text::dec_u8(a2).len() >= 1);
    assert(line.skip(4) =~= crate::text::dec_u8(a2));
    assert(line[0] == 65 && line[1] == 68 && line[2] == 82 && line[3] == 32);
}

/// Where the first space of a line sits when its head is three
/// non-space bytes followed by a space.
proof fn lemma_first_space_at_3(line: Seq<u8>, k: int)
    requires
        line.len() > 3,
        line[0] != 32,
        line[1] != 32,
        line[2] != 32,
        line[3] == 32,
        0 <= k < line.len(),
        line[k] == 32,
        forall|j: int| 0 <= j < k ==> line[j] != 32,
    ensures
        k == 3,
{
    if k < 3 {
        assert(k == 0 || k == 1 || k == 2);
    } else if k > 3 {
        assert(line[3] != 32);
    }
}

/// Where the first space of a line sits when everything before
/// position `l` is no space and position `l` is one.
proof fn lemma_first_space_at(line: Seq<u8>, k: int, l: int)
    requires
        0 <= l < line.len(),
        forall|j: int| 0 <= j < l ==> line[j] != 32,
        line[l] == 32,
        0 <= k < line.len(),
        line[k] == 32,
        forall|j: int| 0 <= j < k ==> line[j] != 32,
    ensures
        k == l,
{
    if k < l {
        assert(line[k] != 32);
    } else if k > l {
        assert(line[l] != 32);
    }
}

/// The shape of a set command: the parameter's wire name, a space, and
/// the canonical text of a well-formed value.
proof fn lemma_set_form(line: Seq<u8>, f: EmuField, v: DecNum)
    requires
        v.wf(),
        line == field_name(f) + seq![32u8] + v.render(),
    ensures
        line.len() > field_name(f).len() + 1,
        forall|j: int| 0 <= j < field_name(f).len() ==> #[trigger] line[j] != 32,
        line[field_name(f).len() as int] == 32,
        line.take(field_name(f).len() as int) == field_name(f),
        line.skip(field_name(f).len() as int + 1) == v.render(),
{
    assert(v.render().len() >= 1) by {
        assert(v.int_digits@.len() >= 1);
    }
    let l = field_name(f).len() as int;
    match f {
        EmuField::Voltage => {
            assert(field_name(f) == seq![80u8, 86u8]);
            assert(line[0] == 80 && line[1] == 86);
        },
        EmuField::Current => {
            assert(field_name(f) == seq![80u8, 67u8]);
            assert(line[0] == 80 && line[1] == 67);
        },
        EmuField::OverVoltage => {
            assert(field_name(f) == seq![79u8, 86u8, 80u8]);
            assert(line[0] == 79 && line[1] == 86 && line[2] == 80);
        },
        EmuField::UnderVoltage => {
            assert(field_name(f) == seq![85u8, 86u8, 76u8]);
            assert(line[0] == 85 && line[1] == 86 && line[2] == 76);
        },
    }
    assert(line[l] == 32);
    assert(line.take(l) =~= field_name(f));
    assert(line.skip(l + 1) =~= v.render());
}

/// A name that is none of the four concrete parameter names is no
/// parameter name at all.
proof fn lemma_not_any_field(name: Seq<u8>)
    requires
        name != seq![80u8, 86u8],
        name != seq![80u8, 67u8],
        name != seq![79u8, 86u8, 80u8],
        name != seq![85u8, 86u8, 76u8],
    ensures
        forall|f: EmuField| name != #[trigger] field_name(f),
{
    assert forall|f: EmuField| name != #[trigger] field_name(f) by {
        match f {
            EmuField::Voltage => assert(field_name(f) == seq![80u8, 86u8]),
            EmuField::Current => assert(field_name(f) == seq![80u8, 67u8]),
            EmuField::OverVoltage => assert(field_name(f) == seq![79u8, 86u8, 80u8]),
            EmuField::UnderVoltage => assert(field_name(f) == seq![85u8, 86u8, 76u8]),
        }
    }
}

/// Parse one command line. Every recognised command implies the line
/// had exactly that command's wire form, and every well-formed wire
/// form is recognised; anything else is `Bad`, which `apply` refuses.
#[verifier::rlimit(100)]
#[verifier::spinoff_prover]
pub fn parse_cmd(line: &[u8]) -> (r: EmuCmd)
    ensures
        (match r {
            EmuCmd::Adr(a) => line@.len() >= 5 && line@.take(4) == seq![65u8, 68u8, 82u8, 32u8]
                && crate::text::all_dec_digits(line@.skip(4)) && crate::text::dec_val(
                line@.skip(4),
            ) == a as int,
            EmuCmd::Query(f) => line@ == field_name(f) + seq![63u8],
            EmuCmd::Measure(f) => (f == EmuField::Voltage || f == EmuField::Current) && line@
                == measure_name(f) + seq![63u8],
            EmuCmd::SetNum(f, v) => v.wf() && line@ == field_name(f) + seq![32u8] + v.render(),
            EmuCmd::SetOut(b) => line@ == seq![79u8, 85u8, 84u8, 32u8] + (if b {
                seq![49u8]
            } else {
                seq![48u8]
            }),
            EmuCmd::QueryOut => line@ == seq![79u8, 85u8, 84u8, 63u8],
            EmuCmd::Idn => line@ == seq![73u8, 68u8, 78u8, 63u8],
            EmuCmd::Sn => line@ == seq![83u8, 78u8, 63u8],
            EmuCmd::Bad => true,
        }),
        line@ == seq![80u8, 86u8, 63u8] ==> r == EmuCmd::Query(EmuField::Voltage),
        line@ == seq![80u8, 67u8, 63u8] ==> r == EmuCmd::Query(EmuField::Current),
        line@ == seq![79u8, 86u8, 80u8, 63u8] ==> r == EmuCmd::Query(EmuField::OverVoltage),
        line@ == seq![85u8, 86u8, 76u8, 63u8] ==> r == EmuCmd::Query(EmuField::UnderVoltage),
        line@ == seq![77u8, 86u8, 63u8] ==> r == EmuCmd::Measure(EmuField::Voltage),
        line@ == seq![77u8, 67u8, 63u8] ==> r == EmuCmd::Measure(EmuField::Current),
        line@ == seq![79u8, 85u8, 84u8, 63u8] ==> r == EmuCmd::QueryOut,
        line@ == seq![73u8, 68u8, 78u8, 63u8] ==> r == EmuCmd::Idn,
        line@ == seq![83u8, 78u8, 63u8] ==> r == EmuCmd::Sn,
        line@ == seq![79u8, 85u8, 84u8, 32u8, 48u8] ==> r == EmuCmd::SetOut(false),
        line@ == seq![79u8, 85u8, 84u8, 32u8, 49u8] ==> r == EmuCmd::SetOut(true),
        forall|a2: Addr|
            line@ == seq![65u8, 68u8, 82u8, 32u8] + crate::text::dec_u8(a2) ==> r == EmuCmd::Adr(
                a2,
            ),
        forall|f: EmuField, v: DecNum|
            (v.wf() && line@ == field_name(f) + seq![32u8] + v.render()) ==> (match r {
                EmuCmd::SetNum(f2, w) => f2 == f && w@ == v@,
                _ => false,
            }),
{
    match crate::text::find_first(line, 32) {
        Some(k) => {
            let n = line.len();
            let name = &line[0..k];
            let arg = &line[k + 1..n];
            proof {
                assert(name@ =~= line@.take(k as int));
                assert(arg@ =~= line@.skip(k as int + 1));
                let outf = seq![79u8, 85u8, 84u8, 32u8, 48u8];
                let outt = seq![79u8, 85u8, 84u8, 32u8, 49u8];
                assert(line@ == outf ==> k == 3 && name@ == seq![79u8, 85u8, 84u8] && arg@ == seq![
                    48u8,
                ]) by {
                    if line@ == outf {
                        assert(outf[0] == 79 && outf[1] == 85 && outf[2] == 84 && outf[3] == 32
                            && outf[4] == 48 && outf.len() == 5);
                        lemma_first_space_at_3(line@, k as int);
                        assert(name@ =~= seq![79u8, 85u8, 84u8]);
                        assert(arg@ =~= seq![48u8]);
                    }
                }
                assert(line@ == outt ==> k == 3 && name@ == seq![79u8, 85u8, 84u8] && arg@ == seq![
                    49u8,
                ]) by {
                    if line@ == outt {
                        assert(outt[0] == 79 && outt[1] == 85 && outt[2] == 84 && outt[3] == 32
                            && outt[4] == 49 && outt.len() == 5);
                        lemma_first_space_at_3(line@, k as int);
                        assert(name@ =~= seq![79u8, 85u8, 84u8]);
                        assert(arg@ =~= seq![49u8]);
                    }
                }
                assert forall|a2: Addr|
                    line@ == seq![65u8, 68u8, 82u8, 32u8]
                        + crate::text::dec_u8(a2) implies k == 3 && name@ == seq![65u8, 68u8, 82u8]
                    && arg@ == crate::text::dec_u8(a2) by {
                    lemma_adr_form(line@, a2);
                    lemma_first_space_at_3(line@, k as int);
                    assert(name@ =~= seq![65u8, 68u8, 82u8]);
                    assert(arg@ =~= line@.skip(4));
                }
                assert forall|f: EmuField, v: DecNum|
                    v.wf() && line@ == field_name(f) + seq![32u8]
                        + v.render() implies k == field_name(f).len() && name@ == field_name(f)
                    && arg@ == v.render() by {
                    lemma_set_form(line@, f, v);
                    lemma_first_space_at(line@, k as int, field_name(f).len() as int);
                    assert(name@ =~= field_name(f));
                    assert(arg@ =~= v.render());
                }
            }
            if lit3(name, 65, 68, 82) {
                proof {
                    // The head reads `ADR`, so the line is neither an
                    // output-enable nor a set command.
                    assert((seq![65u8, 68u8, 82u8])[0] == 65);
                    assert((seq![79u8, 85u8, 84u8])[0] == 79);
                    assert(name@ != seq![79u8, 85u8, 84u8]);
                    assert(seq![80u8, 86u8].len() == 2 && seq![80u8, 67u8].len() == 2);
                    assert((seq![79u8, 86u8, 80u8])[0] == 79 && (seq![85u8, 86u8, 76u8])[0] == 85);
                    assert(name@ != seq![80u8, 86u8] && name@ != seq![80u8, 67u8]);
                    assert(name@ != seq![79u8, 86u8, 80u8] && name@ != seq![85u8, 86u8, 76u8]);
                    lemma_not_any_field(name@);
                }
                match crate::text::parse_u8_dec(arg) {
                    Some(a) => {
                        proof {
                            assert(k == 3);
                            assert(line@.take(4) =~= seq![65u8, 68u8, 82u8, 32u8]);
                            assert(line@.skip(4) =~= arg@);
                            assert forall|a2: Addr|
                                line@ == seq![65u8, 68u8, 82u8, 32u8] + crate::text::dec_u8(
                                    a2,
                                ) implies a == a2 by {
                                crate::text::lemma_dec_u8_val(a2);
                            }
                        }
                        EmuCmd::Adr(a)
                    },
                    None => {
                        proof {
                            // A canonical address argument always
                            // parses, so this line is no addressing
                            // command.
                            assert forall|a2: Addr|
                                line@ != seq![65u8, 68u8, 82u8, 32u8] + crate::text::dec_u8(
                                    a2,
                                ) by {
                                if line@ == seq![65u8, 68u8, 82u8, 32u8] + crate::text::dec_u8(
                                    a2,
                                ) {
                                    crate::text::lemma_dec_u8_val(a2);
                                }
                            }
                        }
                        EmuCmd::Bad
                    },
                }
            } else if lit3(name, 79, 85, 84) {
                proof {
                    // The head reads `OUT`, so the line is neither an
                    // addressing nor a set command.
                    assert((seq![65u8, 68u8, 82u8])[0] == 65);
                    assert((seq![79u8, 85u8, 84u8])[0] == 79);
                    assert(name@ != seq![65u8, 68u8, 82u8]);
                    assert(seq![80u8, 86u8].len() == 2 && seq![80u8, 67u8].len() == 2);
                    assert((seq![79u8, 86u8, 80u8])[1] == 86 && (seq![79u8, 85u8, 84u8])[1] == 85);
                    assert((seq![85u8, 86u8, 76u8])[0] == 85);
                    assert(name@ != seq![80u8, 86u8] && name@ != seq![80u8, 67u8]);
                    assert(name@ != seq![79u8, 86u8, 80u8] && name@ != seq![85u8, 86u8, 76u8]);
                    lemma_not_any_field(name@);
                }
                if arg.len() == 1 {
                    let b0 = arg[0];
                    if b0 == 48 {
                        proof {
                            assert(k == 3 && n == 5);
                            assert(line@ =~= seq![79u8, 85u8, 84u8, 32u8] + seq![48u8]);
                            assert((seq![49u8])[0] == 49);
                            assert(line@ != seq![79u8, 85u8, 84u8, 32u8, 49u8]);
                        }
                        EmuCmd::SetOut(false)
                    } else if b0 == 49 {
                        proof {
                            assert(k == 3 && n == 5);
                            assert(line@ =~= seq![79u8, 85u8, 84u8, 32u8] + seq![49u8]);
                            assert((seq![48u8])[0] == 48);
                            assert(line@ != seq![79u8, 85u8, 84u8, 32u8, 48u8]);
                        }
                        EmuCmd::SetOut(true)
                    } else {
                        proof {
                            assert((seq![48u8])[0] == 48);
                            assert((seq![49u8])[0] == 49);
                            assert(line@ != seq![79u8, 85u8, 84u8, 32u8, 48u8]);
                            assert(line@ != seq![79u8, 85u8, 84u8, 32u8, 49u8]);
                        }
                        EmuCmd::Bad
                    }
                } else {
                    proof {
                        assert(seq![48u8].len() == 1);
                        assert(seq![49u8].len() == 1);
                        assert(line@ != seq![79u8, 85u8, 84u8, 32u8, 48u8]);
                        assert(line@ != seq![79u8, 85u8, 84u8, 32u8, 49u8]);
                    }
                    EmuCmd::Bad
                }
            } else if lit2(name, 80, 86) {
                proof {
                    // The head names the set-voltage parameter and no
                    // other.
                    assert forall|f: EmuField, v: DecNum|
                        v.wf() && line@ == field_name(f) + seq![32u8]
                            + v.render() implies f == EmuField::Voltage && arg@ == v.render() by {
                        lemma_set_form(line@, f, v);
                        lemma_first_space_at(line@, k as int, field_name(f).len() as int);
                        assert(name@ =~= field_name(f));
                        match f {
                            EmuField::Voltage => {},
                            EmuField::Current => {
                                assert((seq![80u8, 67u8])[1] == 67 && (seq![80u8, 86u8])[1] == 86);
                            },
                            EmuField::OverVoltage => {
                                assert(seq![79u8, 86u8, 80u8].len() == 3);
                            },
                            EmuField::UnderVoltage => {
                                assert(seq![85u8, 86u8, 76u8].len() == 3);
                            },
                        }
                        assert(arg@ =~= v.render());
                    }
                }
                match DecNum::parse(arg) {
                    Some(v) => {
                        proof {
                            assert(k == 2);
                            assert(line@ =~= seq![80u8, 86u8] + seq![32u8] + v.render());
                            assert forall|f: EmuField, v2: DecNum|
                                v2.wf() && line@ == field_name(f) + seq![32u8]
                                    + v2.render() implies f == EmuField::Voltage && v@ == v2@ by {
                                assert(v.render() == v2.render());
                                crate::num::lemma_render_injective(v, v2);
                            }
                        }
                        EmuCmd::SetNum(EmuField::Voltage, v)
                    },
                    None => {
                        proof {
                            // A canonical value always parses, so the
                            // line is no set command.
                            assert forall|f: EmuField, v: DecNum|
                                !(v.wf() && line@ == field_name(f) + seq![32u8] + v.render()) by {
                                if v.wf() && line@ == field_name(f) + seq![32u8] + v.render() {
                                    crate::num::lemma_render_valid(v);
                                }
                            }
                        }
                        EmuCmd::Bad
                    },
                }
            } else if lit2(name, 80, 67) {
                proof {
                    // The head names the set-current parameter and no
                    // other.
                    assert forall|f: EmuField, v: DecNum|
                        v.wf() && line@ == field_name(f) + seq![32u8]
                            + v.render() implies f == EmuField::Current && arg@ == v.render() by {
                        lemma_set_form(line@, f, v);
                        lemma_first_space_at(line@, k as int, field_name(f).len() as int);
                        assert(name@ =~= field_name(f));
                        match f {
                            EmuField::Current => {},
                            EmuField::Voltage => {
                                assert((seq![80u8, 86u8])[1] == 86 && (seq![80u8, 67u8])[1] == 67);
                            },
                            EmuField::OverVoltage => {
                                assert(seq![79u8, 86u8, 80u8].len() == 3);
                            },
                            EmuField::UnderVoltage => {
                                assert(seq![85u8, 86u8, 76u8].len() == 3);
                            },
                        }
                        assert(arg@ =~= v.render());
                    }
                }
                match DecNum::parse(arg) {
                    Some(v) => {
                        proof {
                            assert(k == 2);
                            assert(line@ =~= seq![80u8, 67u8] + seq![32u8] + v.render());
                            assert forall|f: EmuField, v2: DecNum|
                                v2.wf() && line@ == field_name(f) + seq![32u8]
                                    + v2.render() implies f == EmuField::Current && v@ == v2@ by {
                                assert(v.render() == v2.render());
                                crate::num::lemma_render_injective(v, v2);
                            }
                        }
                        EmuCmd::SetNum(EmuField::Current, v)
                    },
                    None => {
                        proof {
                            assert forall|f: EmuField, v: DecNum|
                                !(v.wf() && line@ == field_name(f) + seq![32u8] + v.render()) by {
                                if v.wf() && line@ == field_name(f) + seq![32u8] + v.render() {
                                    crate::num::lemma_render_valid(v);
                                }
                            }
                        }
                        EmuCmd::Bad
                    },
                }
            } else if lit3(name, 79, 86, 80) {
                proof {
                    // The head names the over-voltage parameter and no
                    // other.
                    assert forall|f: EmuField, v: DecNum|
                        v.wf() && line@ == field_name(f) + seq![32u8]
                            + v.render() implies f == EmuField::OverVoltage && arg@
                        == v.render() by {
                        lemma_set_form(line@, f, v);
                        lemma_first_space_at(line@, k as int, field_name(f).len() as int);
                        assert(name@ =~= field_name(f));
                        match f {
                            EmuField::OverVoltage => {},
                            EmuField::Voltage => {
                                assert(seq![80u8, 86u8].len() == 2);
                            },
                            EmuField::Current => {
                                assert(seq![80u8, 67u8].len() == 2);
                            },
                            EmuField::UnderVoltage => {
                                assert((seq![85u8, 86u8, 76u8])[0] == 85 && (seq![
                                    79u8,
                                    86u8,
                                    80u8,
                                ])[0] == 79);
                            },
                        }
                        assert(arg@ =~= v.render());
                    }
                }
                match DecNum::parse(arg) {
                    Some(v) => {
                        proof {
                            assert(k == 3);
                            assert(line@ =~= seq![79u8, 86u8, 80u8] + seq![32u8] + v.render());
                            assert forall|f: EmuField, v2: DecNum|
                                v2.wf() && line@ == field_name(f) + seq![32u8]
                                    + v2.render() implies f == EmuField::OverVoltage && v@
                                == v2@ by {
                                assert(v.render() == v2.render());
                                crate::num::lemma_render_injective(v, v2);
                            }
                        }
                        EmuCmd::SetNum(EmuField::OverVoltage, v)
                    },
                    None => {
                        proof {
                            assert forall|f: EmuField, v: DecNum|
                                !(v.wf() && line@ == field_name(f) + seq![32u8] + v.render()) by {
                                if v.wf() && line@ == field_name(f) + seq![32u8] + v.render() {
                                    crate::num::lemma_render_valid(v);
                                }
                            }
                        }
                        EmuCmd::Bad
                    },
                }
            } else if lit3(name, 85, 86, 76) {
                proof {
                    // The head names the under-voltage parameter and no
                    // other.
                    assert forall|f: EmuField, v: DecNum|
                        v.wf() && line@ == field_name(f) + seq![32u8]
                            + v.render() implies f == EmuField::UnderVoltage && arg@
                        == v.render() by {
                        lemma_set_form(line@, f, v);
                        lemma_first_space_at(line@, k as int, field_name(f).len() as int);
                        assert(name@ =~= field_name(f));
                        match f {
                            EmuField::UnderVoltage => {},
                            EmuField::Voltage => {
                                assert(seq![80u8, 86u8].len() == 2);
                            },
                            EmuField::Current => {
                                assert(seq![80u8, 67u8].len() == 2);
                            },
                            EmuField::OverVoltage => {
                                assert((seq![79u8, 86u8, 80u8])[0] == 79 && (seq![
                                    85u8,
                                    86u8,
                                    76u8,
                                ])[0] == 85);
                            },
                        }
                        assert(arg@ =~= v.render());
                    }
                }
                match DecNum::parse(arg) {
                    Some(v) => {
                        proof {
                            assert(k == 3);
                            assert(line@ =~= seq![85u8, 86u8, 76u8] + seq![32u8] + v.render());
                            assert forall|f: EmuField, v2: DecNum|
                                v2.wf() && line@ == field_name(f) + seq![32u8]
                                    + v2.render() implies f == EmuField::UnderVoltage && v@
                                == v2@ by {
                                assert(v.render() == v2.render());
                                crate::num::lemma_render_injective(v, v2);
                            }
                        }
                        EmuCmd::SetNum(EmuField::UnderVoltage, v)
                    },
                    None => {
                        proof {
                            assert forall|f: EmuField, v: DecNum|
                                !(v.wf() && line@ == field_name(f) + seq![32u8] + v.render()) by {
                                if v.wf() && line@ == field_name(f) + seq![32u8] + v.render() {
                                    crate::num::lemma_render_valid(v);
                                }
                            }
                        }
                        EmuCmd::Bad
                    },
                }
            } else {
                proof {
                    // No known command name matched.
                    lemma_not_any_field(name@);
                    assert forall|f: EmuField, v: DecNum|
                        !(v.wf() && line@ == field_name(f) + seq![32u8] + v.render()) by {
                        if v.wf() && line@ == field_name(f) + seq![32u8] + v.render() {
                            lemma_set_form(line@, f, v);
                            lemma_first_space_at(line@, k as int, field_name(f).len() as int);
                            assert(name@ =~= field_name(f));
                        }
                    }
                }
                EmuCmd::Bad
            }
        },
        None => {
            proof {
                // A line without a space is neither an addressing, a
                // set, nor an output-enable command.
                let outf = seq![79u8, 85u8, 84u8, 32u8, 48u8];
                let outt = seq![79u8, 85u8, 84u8, 32u8, 49u8];
                assert(line@ != outf) by {
                    if line@ == outf {
                        assert(outf[3] == 32 && outf.len() == 5);
                        assert(line@[3] == 32);
                    }
                }
                assert(line@ != outt) by {
                    if line@ == outt {
                        assert(outt[3] == 32 && outt.len() == 5);
                        assert(line@[3] == 32);
                    }
                }
                assert forall|a2: Addr|
                    line@ != seq![65u8, 68u8, 82u8, 32u8] + crate::text::dec_u8(a2) by {
                    if line@ == seq![65u8, 68u8, 82u8, 32u8] + crate::text::dec_u8(a2) {
                        lemma_adr_form(line@, a2);
                        assert(line@[3] == 32);
                    }
                }
                assert forall|f: EmuField, v: DecNum|
                    !(v.wf() && line@ == field_name(f) + seq![32u8] + v.render()) by {
                    if v.wf() && line@ == field_name(f) + seq![32u8] + v.render() {
                        lemma_set_form(line@, f, v);
                        assert(line@[field_name(f).len() as int] == 32);
                    }
                }
            }
            if lit3(line, 80, 86, 63) {
                proof {
                    assert(line@ =~= field_name(EmuField::Voltage) + seq![63u8]);
                }
                EmuCmd::Query(EmuField::Voltage)
            } else if lit3(line, 80, 67, 63) {
                proof {
                    assert(line@ =~= field_name(EmuField::Current) + seq![63u8]);
                }
                EmuCmd::Query(EmuField::Current)
            } else if lit4(line, 79, 86, 80, 63) {
                proof {
                    assert(line@ =~= field_name(EmuField::OverVoltage) + seq![63u8]);
                }
                EmuCmd::Query(EmuField::OverVoltage)
            } else if lit4(line, 85, 86, 76, 63) {
                proof {
                    assert(line@ =~= field_name(EmuField::UnderVoltage) + seq![63u8]);
                }
                EmuCmd::Query(EmuField::UnderVoltage)
            } else if lit3(line, 77, 86, 63) {
                proof {
                    assert(line@ =~= measure_name(EmuField::Voltage) + seq![63u8]);
                }
                EmuCmd::Measure(EmuField::Voltage)
            } else if lit3(line, 77, 67, 63) {
                proof {
                    assert(line@ =~= measure_name(EmuField::Current) + seq![63u8]);
                }
                EmuCmd::Measure(EmuField::Current)
            } else if lit4(line, 79, 85, 84, 63) {
                EmuCmd::QueryOut
            } else if lit4(line, 73, 68, 78, 63) {
                EmuCmd::Idn
            } else if lit3(line, 83, 78, 63) {
                EmuCmd::Sn
            } else {
                EmuCmd::Bad
            }
        },
    }
}

} // verus!

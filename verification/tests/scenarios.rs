//! End-to-end scenarios: the multiplexer's decision core, the SRQ
//! filter, the bindings and the supervisor driven against the device
//! emulator, with a test harness standing in for the asynchronous I/O
//! loop.

use psgate::binding::{output_write_begin, output_write_finish, publish_offline, publish_read};
use psgate::conn::adr_command;
use psgate::device_var::DeviceVariable;
use psgate::emu::{parse_cmd, Emulator};
use psgate::frame::{decode_line, SrqFilter};
use psgate::iface::IfaceVariable;
use psgate::mux::{Multiplexer, MuxStep, QueReq, ImmReq};
use psgate::num::DecNum;
use psgate::parser::NumParser;
use psgate::supervisor::{Gate, GateAction};
use psgate::types::{Error, Signal};

/// The harness: everything the asynchronous runtime owns in the real
/// system — the byte pipe to the emulator, the SRQ filter, the clock,
/// and a switch that makes the transport drop reads.
struct Bus {
    emu: Emulator,
    filt: SrqFilter,
    now: u64,
    dropping: bool,
    wire_log: Vec<Vec<u8>>,
    intrs: Vec<u8>,
}

impl Bus {
    fn new(addrs: Vec<u8>) -> Bus {
        Bus {
            emu: Emulator::new(addrs),
            filt: SrqFilter::new(),
            now: 0,
            dropping: false,
            wire_log: Vec::new(),
            intrs: Vec::new(),
        }
    }

    /// One framed line exchange: write the command, read the reply
    /// through the SRQ filter. A dropping transport times out after the
    /// retry budget, which the retry machine accounts elsewhere.
    fn xfer(&mut self, cmd: &[u8]) -> Result<Vec<u8>, Error> {
        self.wire_log.push(cmd.to_vec());
        if self.dropping {
            return Err(Error::Timeout);
        }
        match self.emu.apply(parse_cmd(cmd)) {
            None => Err(Error::Timeout),
            Some(out) => {
                let mut bytes = out.line.clone();
                bytes.push(13);
                if let Some(b) = out.srq {
                    bytes.push(b);
                    bytes.push(b);
                }
                let (passed, intrs) = self.filt.feed(&bytes);
                self.intrs.extend(intrs);
                decode_line(passed)
            }
        }
    }

    /// One addressed request, as the multiplexer's serving loop does
    /// it: address the device if the cache says so, then run the
    /// command.
    fn request(&mut self, mux: &mut Multiplexer, addr: u8, cmd: &[u8]) -> Result<Vec<u8>, Error> {
        if mux.conn.adr_needed(addr) {
            let adr = adr_command(addr);
            let res = self.xfer(&adr);
            mux.conn.apply_adr(addr, res)?;
        }
        let res = self.xfer(cmd);
        mux.conn.apply_cmd(res)
    }
}

/// What one serving-loop iteration produced.
#[derive(Debug, PartialEq)]
enum Ev {
    Imm(u8, Option<Vec<u8>>),
    Que(u8, Option<Vec<u8>>),
    Sig(u8, Signal),
    Turn(u8),
    Slept(u64),
    Idle,
}

/// One iteration of the multiplexer's serving loop.
fn serve_one(mux: &mut Multiplexer, bus: &mut Bus) -> Ev {
    match mux.next_step(bus.now) {
        MuxStep::ServeImmediate { addr, cmd } => {
            let res = bus.request(mux, addr, &cmd);
            Ev::Imm(addr, psgate::mux::immediate_response(res))
        }
        MuxStep::ServeQueued { addr, cmd } => {
            let res = bus.request(mux, addr, &cmd);
            let (resp, sig) = mux.finish_queued(addr, res, bus.now);
            match sig {
                Some(s) => Ev::Sig(addr, s),
                None => Ev::Que(addr, resp),
            }
        }
        MuxStep::CheckOnline { addr } => {
            mux.conn.probe_begin();
            let adr = adr_command(addr);
            let res = bus.xfer(&adr);
            let probe = mux.conn.apply_probe(addr, res);
            match mux.finish_probe(addr, probe, bus.now) {
                Some(s) => Ev::Sig(addr, s),
                None => Ev::Turn(addr),
            }
        }
        MuxStep::TurnEnded { addr } => Ev::Turn(addr),
        MuxStep::Sleep { until } => {
            bus.now = until;
            Ev::Slept(until)
        }
        MuxStep::Idle => Ev::Idle,
    }
}

/// Serve until a lifecycle signal appears, with a step bound so a
/// broken loop fails the test instead of hanging.
fn serve_until_signal(mux: &mut Multiplexer, bus: &mut Bus, bound: u32) -> (u8, Signal) {
    for _ in 0..bound {
        if let Ev::Sig(a, s) = serve_one(mux, bus) {
            return (a, s);
        }
    }
    panic!("no signal within {} steps", bound);
}

fn num_var(name: &[u8]) -> DeviceVariable<DecNum, NumParser> {
    DeviceVariable::new(name.to_vec(), NumParser)
}

fn posted_text(v: &IfaceVariable<DecNum>) -> Vec<u8> {
    v.posted.as_ref().expect("a value must be posted").to_text()
}

/// Cold start with one device: registration, the first liveness probe,
/// `On`, and the output binding reading the device's initial zero back
/// into the interface-side variable.
#[test]
fn cold_start_reads_back_initial_values() {
    let mut bus = Bus::new(vec![3]);
    let mut mux = Multiplexer::new(0);
    assert_eq!(mux.add_client(3, 0), Some(3));
    assert_eq!(mux.add_client(3, 0), None);

    let mut gate = Gate::new();
    let (addr, sig) = serve_until_signal(&mut mux, &mut bus, 10);
    assert_eq!(addr, 3);
    assert_eq!(sig, Signal::On);
    assert_eq!(gate.apply(sig), GateAction::Started);
    assert!(gate.on);

    // The output binding for the set-voltage reads it back once the
    // gate rises.
    let volt_set_dev = num_var(b"PV");
    let mut volt_set: IfaceVariable<DecNum> = IfaceVariable::new();
    assert!(volt_set.posted.is_none());
    assert!(mux.push_queued(3, QueReq::Cmd(volt_set_dev.read_cmd())));
    let resp = match serve_one(&mut mux, &mut bus) {
        Ev::Que(3, resp) => resp,
        ev => panic!("expected the queued read to be served, got {:?}", ev),
    };
    assert!(publish_read(&mut volt_set, &volt_set_dev, resp).is_none());
    assert_eq!(posted_text(&volt_set), b"0".to_vec());

    // The input binding publishes the measured voltage the same way.
    let volt_real_dev = num_var(b"MV");
    let mut volt_real: IfaceVariable<DecNum> = IfaceVariable::new();
    assert!(mux.push_queued(3, QueReq::Cmd(volt_real_dev.read_cmd())));
    let resp = match serve_one(&mut mux, &mut bus) {
        Ev::Que(3, resp) => resp,
        ev => panic!("expected the queued read to be served, got {:?}", ev),
    };
    assert!(publish_read(&mut volt_real, &volt_real_dev, resp).is_none());
    assert_eq!(posted_text(&volt_real), b"0".to_vec());
}

/// A set-point written on the interface side goes to the device at
/// immediate priority, is accepted on `OK`, and reads back clamped per
/// the emulator's protection policy.
#[test]
fn set_point_write_round_trip() {
    let mut bus = Bus::new(vec![3]);
    let mut mux = Multiplexer::new(0);
    mux.add_client(3, 0).unwrap();
    let (_, sig) = serve_until_signal(&mut mux, &mut bus, 10);
    assert_eq!(sig, Signal::On);

    let dev = num_var(b"PV");
    let mut volt_set: IfaceVariable<DecNum> = IfaceVariable::new();

    // The interface peer writes 12.5.
    volt_set.peer_write(DecNum::parse(b"12.5").unwrap());
    let (snap, cmd) = output_write_begin(&mut volt_set, &dev).expect("a value is pending");
    assert_eq!(cmd, b"PV 12.5".to_vec());

    mux.push_immediate(ImmReq { addr: 3, cmd });
    let resp = match serve_one(&mut mux, &mut bus) {
        Ev::Imm(3, resp) => resp,
        ev => panic!("expected the immediate write, got {:?}", ev),
    };
    assert_eq!(resp, Some(b"OK".to_vec()));
    assert!(output_write_finish(&mut volt_set, snap, resp).is_none());
    assert_eq!(posted_text(&volt_set), b"12.5".to_vec());

    // With the output enabled, the measured voltage reads back clamped
    // into the protection window.
    bus.xfer(b"OUT 1").unwrap();
    assert!(mux.push_queued(3, QueReq::Cmd(b"MV?".to_vec())));
    match serve_one(&mut mux, &mut bus) {
        Ev::Que(3, resp) => assert_eq!(resp, Some(b"10".to_vec())),
        ev => panic!("expected the measured readback, got {:?}", ev),
    }
}

/// The device stops answering: the multiplexer exhausts the exchange,
/// signals `Off`, the supervisor disarms the device gate, the bindings publish
/// the missing-device error, and a probe one backoff later still fails.
#[test]
fn device_disappears() {
    let mut bus = Bus::new(vec![3]);
    let mut mux = Multiplexer::new(0);
    mux.add_client(3, 0).unwrap();
    let mut gate = Gate::new();
    let (_, sig) = serve_until_signal(&mut mux, &mut bus, 10);
    gate.apply(sig);
    assert!(gate.on);

    bus.dropping = true;
    assert!(mux.push_queued(3, QueReq::Cmd(b"MV?".to_vec())));
    let (addr, sig) = serve_until_signal(&mut mux, &mut bus, 10);
    assert_eq!((addr, sig), (3, Signal::Off));
    assert_eq!(gate.apply(sig), GateAction::Stopped);
    assert!(!gate.on);

    // Every binding publishes the missing-device error.
    let mut volt_set: IfaceVariable<DecNum> = IfaceVariable::new();
    assert!(matches!(
        publish_offline(&mut volt_set),
        Some(psgate::types::DevError::NoResponse)
    ));

    // One backoff later the probe runs and still gets nothing.
    let before = bus.wire_log.len();
    for _ in 0..10 {
        match serve_one(&mut mux, &mut bus) {
            Ev::Turn(3) => break,
            Ev::Slept(_) => continue,
            ev => panic!("expected a failed probe, got {:?}", ev),
        }
    }
    assert!(bus.now >= psgate::sched::OFFLINE_BACKOFF_MS);
    assert_eq!(bus.wire_log[before..].to_vec(), vec![b"ADR 3".to_vec()]);
}

/// The device answers again: the next probe returns `OK`, `On` is
/// signalled, the supervisor re-arms, and the bindings read back
/// current values.
#[test]
fn device_returns() {
    let mut bus = Bus::new(vec![3]);
    let mut mux = Multiplexer::new(0);
    mux.add_client(3, 0).unwrap();
    let mut gate = Gate::new();
    let (_, sig) = serve_until_signal(&mut mux, &mut bus, 10);
    gate.apply(sig);

    bus.dropping = true;
    assert!(mux.push_queued(3, QueReq::Cmd(b"MV?".to_vec())));
    let (_, sig) = serve_until_signal(&mut mux, &mut bus, 10);
    gate.apply(sig);
    assert!(!gate.on);

    bus.dropping = false;
    let (addr, sig) = serve_until_signal(&mut mux, &mut bus, 10);
    assert_eq!((addr, sig), (3, Signal::On));
    assert_eq!(gate.apply(sig), GateAction::Started);

    let dev = num_var(b"PV");
    let mut volt_set: IfaceVariable<DecNum> = IfaceVariable::new();
    assert!(mux.push_queued(3, QueReq::Cmd(dev.read_cmd())));
    let resp = match serve_one(&mut mux, &mut bus) {
        Ev::Que(3, resp) => resp,
        ev => panic!("expected the re-read, got {:?}", ev),
    };
    assert!(publish_read(&mut volt_set, &dev, resp).is_none());
    assert_eq!(posted_text(&volt_set), b"0".to_vec());
}

/// Two clients poll queued while one issues an immediate set-point:
/// the immediate command goes on the wire right after the in-flight
/// transaction, addressing included, then queued service resumes.
#[test]
fn interleaved_immediate_and_queued() {
    let mut bus = Bus::new(vec![1, 2]);
    let mut mux = Multiplexer::new(0);
    mux.add_client(1, 0).unwrap();
    mux.add_client(2, 0).unwrap();
    let (_, s1) = serve_until_signal(&mut mux, &mut bus, 10);
    let (_, s2) = serve_until_signal(&mut mux, &mut bus, 10);
    assert_eq!((s1, s2), (Signal::On, Signal::On));

    // Establish client 1 as the addressed device first, so client 2's
    // poll has to re-address.
    assert!(mux.push_queued(1, QueReq::Cmd(b"PV?".to_vec())));
    loop {
        match serve_one(&mut mux, &mut bus) {
            Ev::Que(1, resp) => {
                assert_eq!(resp, Some(b"0".to_vec()));
                break;
            }
            Ev::Turn(_) => continue,
            ev => panic!("expected client 1's poll, got {:?}", ev),
        }
    }

    // Client 2's queued poll is in flight; client 1 files an immediate
    // set-point before the next loop iteration.
    assert!(mux.push_queued(2, QueReq::Cmd(b"MV?".to_vec())));
    bus.wire_log.clear();
    loop {
        match serve_one(&mut mux, &mut bus) {
            Ev::Que(2, resp) => {
                assert_eq!(resp, Some(b"0".to_vec()));
                break;
            }
            Ev::Turn(_) => continue,
            ev => panic!("expected client 2's poll, got {:?}", ev),
        }
    }
    mux.push_immediate(ImmReq { addr: 1, cmd: b"PV 3.3".to_vec() });
    assert!(mux.push_queued(2, QueReq::Cmd(b"MV?".to_vec())));
    match serve_one(&mut mux, &mut bus) {
        Ev::Imm(1, resp) => assert_eq!(resp, Some(b"OK".to_vec())),
        ev => panic!("the immediate request goes first, got {:?}", ev),
    }
    loop {
        match serve_one(&mut mux, &mut bus) {
            Ev::Que(2, resp) => {
                assert_eq!(resp, Some(b"0".to_vec()));
                break;
            }
            Ev::Turn(_) => continue,
            ev => panic!("queued service resumes, got {:?}", ev),
        }
    }
    // The wire saw: client 2 addressed and polled, then client 1
    // addressed and written, then client 2 re-addressed and polled.
    assert_eq!(
        bus.wire_log,
        vec![
            b"ADR 2".to_vec(),
            b"MV?".to_vec(),
            b"ADR 1".to_vec(),
            b"PV 3.3".to_vec(),
            b"ADR 2".to_vec(),
            b"MV?".to_vec(),
        ]
    );
}

/// An SRQ pair injected between responses reaches the right client's
/// supervisor exactly once as `Intr`, and corrupts no reply.
#[test]
fn srq_delivery() {
    let mut bus = Bus::new(vec![3]);
    let mut mux = Multiplexer::new(0);
    mux.add_client(3, 0).unwrap();
    let mut gate = Gate::new();
    let (_, sig) = serve_until_signal(&mut mux, &mut bus, 10);
    gate.apply(sig);

    // The emulator injects the attention pair between two responses.
    let (passed, intrs) = bus.filt.feed(&[0x83, 0x83]);
    assert_eq!(passed, Vec::<u8>::new());
    bus.intrs.extend(intrs);

    // The next exchange is not corrupted.
    assert!(mux.push_queued(3, QueReq::Cmd(b"PV?".to_vec())));
    match serve_one(&mut mux, &mut bus) {
        Ev::Que(3, resp) => assert_eq!(resp, Some(b"0".to_vec())),
        ev => panic!("expected a clean reply, got {:?}", ev),
    }

    // The harness routes the interrupt to the client's supervisor, as
    // the signal task does in the running system.
    assert_eq!(bus.intrs, vec![3u8]);
    assert_eq!(gate.apply(Signal::Intr), GateAction::Interrupt);
    assert!(gate.on);
}

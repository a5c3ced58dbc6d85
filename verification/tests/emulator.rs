use psgate::emu::{parse_cmd, Emulator, EmuOutput};

fn line(e: &mut Emulator, cmd: &[u8]) -> EmuOutput {
    e.apply(parse_cmd(cmd)).expect("well-formed command")
}

#[test]
fn addressing_and_identity() {
    let mut e = Emulator::new(vec![0, 3]);
    let o = line(&mut e, b"ADR 3");
    assert_eq!(o.line, b"OK".to_vec());
    assert_eq!(o.srq, None);
    let o = line(&mut e, b"SN?");
    assert_eq!(o.line, b"Emu-3".to_vec());
    let o = line(&mut e, b"IDN?");
    assert_eq!(o.line, b"PSU Emulator".to_vec());
}

#[test]
fn unknown_address_and_unaddressed_commands_are_refused() {
    let mut e = Emulator::new(vec![1]);
    assert!(e.apply(parse_cmd(b"ADR 9")).is_none());
    assert!(e.apply(parse_cmd(b"MV?")).is_none());
    assert!(e.apply(parse_cmd(b"BOGUS?")).is_none());
    assert!(e.apply(parse_cmd(b"")).is_none());
}

#[test]
fn set_and_read_back() {
    let mut e = Emulator::new(vec![2]);
    line(&mut e, b"ADR 2");
    assert_eq!(line(&mut e, b"PV?").line, b"0".to_vec());
    assert_eq!(line(&mut e, b"PV 5.5").line, b"OK".to_vec());
    assert_eq!(line(&mut e, b"PV?").line, b"5.5".to_vec());
    assert_eq!(line(&mut e, b"PC 1.25").line, b"OK".to_vec());
    assert_eq!(line(&mut e, b"PC?").line, b"1.25".to_vec());
    assert_eq!(line(&mut e, b"OVP?").line, b"10".to_vec());
    assert_eq!(line(&mut e, b"UVL?").line, b"0".to_vec());
}

#[test]
fn measured_values_follow_output_enable() {
    let mut e = Emulator::new(vec![2]);
    line(&mut e, b"ADR 2");
    line(&mut e, b"PV 5.5");
    line(&mut e, b"PC 1.25");
    // Output off: measurements read zero.
    assert_eq!(line(&mut e, b"MV?").line, b"0".to_vec());
    assert_eq!(line(&mut e, b"MC?").line, b"0".to_vec());
    assert_eq!(line(&mut e, b"OUT?").line, b"0".to_vec());
    // Output on: the set-points read back, voltage clamped.
    assert_eq!(line(&mut e, b"OUT 1").line, b"OK".to_vec());
    assert_eq!(line(&mut e, b"OUT?").line, b"1".to_vec());
    assert_eq!(line(&mut e, b"MV?").line, b"5.5".to_vec());
    assert_eq!(line(&mut e, b"MC?").line, b"1.25".to_vec());
}

#[test]
fn voltage_clamps_to_protection_window() {
    let mut e = Emulator::new(vec![2]);
    line(&mut e, b"ADR 2");
    line(&mut e, b"OUT 1");
    let o = line(&mut e, b"PV 12.5");
    assert_eq!(o.line, b"OK".to_vec());
    // 12.5 is outside [0, 10): clamped on readback, and an SRQ raised.
    assert_eq!(o.srq, Some(0x82));
    assert_eq!(line(&mut e, b"MV?").line, b"10".to_vec());
    // The alert is raised once only.
    assert_eq!(line(&mut e, b"PV?").srq, None);
    // Under-voltage clamps from below.
    line(&mut e, b"UVL 1");
    line(&mut e, b"PV 0.5");
    assert_eq!(line(&mut e, b"MV?").line, b"1".to_vec());
}

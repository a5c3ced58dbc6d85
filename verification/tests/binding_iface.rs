use psgate::binding::{output_write_begin, output_write_finish, publish_offline, publish_read};
use psgate::device_var::{interpret_write_reply, DeviceVariable};
use psgate::iface::{var_name, IfaceVariable};
use psgate::num::DecNum;
use psgate::parser::NumParser;
use psgate::types::DevError;

fn dec(text: &[u8]) -> DecNum {
    DecNum::parse(text).expect("canonical text")
}

fn posted(v: &IfaceVariable<DecNum>) -> Vec<u8> {
    v.posted.as_ref().expect("posted").to_text()
}

#[test]
fn registry_names() {
    assert_eq!(var_name(3, b"volt_set"), b"PS3:volt_set".to_vec());
    assert_eq!(var_name(0, b"ser_numb"), b"PS0:ser_numb".to_vec());
    assert_eq!(var_name(10, b"out_ena"), b"PS10:out_ena".to_vec());
}

#[test]
fn publish_read_posts_and_remembers() {
    let dev: DeviceVariable<DecNum, NumParser> = DeviceVariable::new(b"PV".to_vec(), NumParser);
    let mut v: IfaceVariable<DecNum> = IfaceVariable::new();
    assert!(publish_read(&mut v, &dev, Some(b"2.5".to_vec())).is_none());
    assert_eq!(posted(&v), b"2.5".to_vec());
    assert_eq!(v.last_value.as_ref().unwrap().to_text(), b"2.5".to_vec());
    // A missing reply leaves the contents and reports the error.
    assert!(matches!(
        publish_read(&mut v, &dev, None),
        Some(DevError::NoResponse)
    ));
    assert_eq!(posted(&v), b"2.5".to_vec());
    // An undecodable reply hands the text back.
    match publish_read(&mut v, &dev, Some(b"garbage?".to_vec())) {
        Some(DevError::Parse(t)) => assert_eq!(t, b"garbage?".to_vec()),
        _ => panic!("an unparsable reply is a parse error"),
    }
    assert_eq!(posted(&v), b"2.5".to_vec());
}

#[test]
fn rejected_write_rolls_back_visibly() {
    let dev: DeviceVariable<DecNum, NumParser> = DeviceVariable::new(b"PV".to_vec(), NumParser);
    let mut v: IfaceVariable<DecNum> = IfaceVariable::new();
    // The device establishes 1.5 as the authoritative value.
    publish_read(&mut v, &dev, Some(b"1.5".to_vec()));
    // The peer writes 9.9; the snapshot is taken and the visible value
    // rolls back until the device acknowledges.
    v.peer_write(dec(b"9.9"));
    let (snap, cmd) = output_write_begin(&mut v, &dev).expect("pending value");
    assert_eq!(cmd, b"PV 9.9".to_vec());
    assert_eq!(posted(&v), b"1.5".to_vec());
    // The device refuses: the rollback stays, the reason is the reply.
    match output_write_finish(&mut v, snap, Some(b"E01".to_vec())) {
        Some(DevError::Parse(t)) => assert_eq!(t, b"E01".to_vec()),
        _ => panic!("a non-OK reply rejects the write"),
    }
    assert_eq!(posted(&v), b"1.5".to_vec());
    assert_eq!(v.last_value.as_ref().unwrap().to_text(), b"1.5".to_vec());
    // A second attempt succeeds and becomes authoritative.
    v.peer_write(dec(b"9.9"));
    let (snap, _) = output_write_begin(&mut v, &dev).expect("pending value");
    assert!(output_write_finish(&mut v, snap, Some(b"OK".to_vec())).is_none());
    assert_eq!(posted(&v), b"9.9".to_vec());
    assert_eq!(v.last_value.as_ref().unwrap().to_text(), b"9.9".to_vec());
}

#[test]
fn first_write_needs_no_history() {
    let dev: DeviceVariable<DecNum, NumParser> = DeviceVariable::new(b"PC".to_vec(), NumParser);
    let mut v: IfaceVariable<DecNum> = IfaceVariable::new();
    // Nothing posted yet: there is nothing to write.
    assert!(output_write_begin(&mut v, &dev).is_none());
    // The peer writes before any device read: no last value exists, so
    // the visible value stays the peer's own.
    v.peer_write(dec(b"0.25"));
    let (snap, cmd) = output_write_begin(&mut v, &dev).expect("pending value");
    assert_eq!(cmd, b"PC 0.25".to_vec());
    assert_eq!(posted(&v), b"0.25".to_vec());
    assert!(output_write_finish(&mut v, snap, Some(b"OK".to_vec())).is_none());
    assert_eq!(posted(&v), b"0.25".to_vec());
}

#[test]
fn offline_publishes_no_response_and_keeps_contents() {
    let dev: DeviceVariable<DecNum, NumParser> = DeviceVariable::new(b"MV".to_vec(), NumParser);
    let mut v: IfaceVariable<DecNum> = IfaceVariable::new();
    publish_read(&mut v, &dev, Some(b"3.14".to_vec()));
    assert!(matches!(
        publish_offline(&mut v),
        Some(DevError::NoResponse)
    ));
    assert_eq!(posted(&v), b"3.14".to_vec());
}

#[test]
fn write_reply_interpretation() {
    assert!(interpret_write_reply(Some(b"OK".to_vec())).is_ok());
    assert!(matches!(
        interpret_write_reply(None),
        Err(DevError::NoResponse)
    ));
    match interpret_write_reply(Some(b"NO".to_vec())) {
        Err(DevError::Parse(t)) => assert_eq!(t, b"NO".to_vec()),
        _ => panic!("only OK acknowledges a set command"),
    }
}

#[test]
fn query_command_shapes() {
    let dev: DeviceVariable<DecNum, NumParser> = DeviceVariable::new(b"OVP".to_vec(), NumParser);
    assert_eq!(dev.read_cmd(), b"OVP?".to_vec());
    assert_eq!(dev.write_cmd(&dec(b"7.5")), b"OVP 7.5".to_vec());
}

use psgate::conn::{adr_command, ok_response, AddrConnection, LineRetry, CMD_DELAY_MS, CMD_RETRIES,
    CMD_TIMEOUT_MS};
use psgate::frame::{byte_is_intr, decode_line, frame_command, strip_line_term, SrqFilter};
use psgate::types::Error;

#[test]
fn intr_byte_classification() {
    assert_eq!(byte_is_intr(0x83), Some(3));
    assert_eq!(byte_is_intr(0x80), Some(0));
    assert_eq!(byte_is_intr(0xFF), Some(0x7F));
    assert_eq!(byte_is_intr(0x7F), None);
    assert_eq!(byte_is_intr(b'A'), None);
}

#[test]
fn filter_passes_plain_bytes() {
    let mut f = SrqFilter::new();
    let (passed, intrs) = f.feed(b"OK\r");
    assert_eq!(passed, b"OK\r".to_vec());
    assert_eq!(intrs, Vec::<u8>::new());
}

#[test]
fn filter_extracts_srq_pair() {
    let mut f = SrqFilter::new();
    let (passed, intrs) = f.feed(&[b'A', b'B', 0x83, 0x83, b'C', b'D']);
    assert_eq!(passed, b"ABCD".to_vec());
    assert_eq!(intrs, vec![3u8]);
}

#[test]
fn filter_pair_split_across_reads() {
    let mut f = SrqFilter::new();
    let (p1, i1) = f.feed(&[b'X', 0x85]);
    assert_eq!(p1, b"X".to_vec());
    assert_eq!(i1, Vec::<u8>::new());
    let (p2, i2) = f.feed(&[0x85, b'Y']);
    assert_eq!(p2, b"Y".to_vec());
    assert_eq!(i2, vec![5u8]);
}

#[test]
fn filter_drops_mismatched_pair() {
    let mut f = SrqFilter::new();
    let (passed, intrs) = f.feed(&[0x83, 0x84, b'Z']);
    assert_eq!(passed, b"Z".to_vec());
    assert_eq!(intrs, Vec::<u8>::new());
}

#[test]
fn filter_drops_singleton_before_plain_byte() {
    let mut f = SrqFilter::new();
    let (passed, intrs) = f.feed(&[0x83, b'Q']);
    assert_eq!(passed, b"Q".to_vec());
    assert_eq!(intrs, Vec::<u8>::new());
}

#[test]
fn framing_appends_terminator() {
    assert_eq!(frame_command(b"ADR 3"), b"ADR 3\r".to_vec());
}

#[test]
fn strip_terminator() {
    match strip_line_term(b"OK\r".to_vec()) {
        Ok(line) => assert_eq!(line, b"OK".to_vec()),
        Err(_) => panic!("terminated line must strip"),
    }
    assert!(matches!(strip_line_term(b"OK".to_vec()), Err(Error::Io)));
    assert!(matches!(strip_line_term(Vec::new()), Err(Error::Io)));
}

#[test]
fn decode_accepts_text_lines() {
    match decode_line(b"12.5\r".to_vec()) {
        Ok(line) => assert_eq!(line, b"12.5".to_vec()),
        Err(_) => panic!("a terminated text line must decode"),
    }
}

#[test]
fn decode_rejects_non_text_replies() {
    // A high-bit byte inside a framed line is not text.
    assert!(matches!(
        decode_line(vec![b'O', 0x83, b'K', b'\r']),
        Err(Error::Decode)
    ));
    // A missing terminator is an I/O failure, not a decode failure.
    assert!(matches!(decode_line(vec![b'O', 0x83]), Err(Error::Io)));
    assert!(matches!(decode_line(Vec::new()), Err(Error::Io)));
}

#[test]
fn retry_budget_is_retries_plus_one() {
    let mut m = LineRetry::new();
    let mut granted = 0u64;
    while m.begin_attempt() {
        granted += 1;
        assert!(granted <= CMD_RETRIES + 1);
    }
    assert_eq!(granted, CMD_RETRIES + 1);
    assert!(!m.begin_attempt());
    assert_eq!(
        m.elapsed_bound_ms(),
        (CMD_RETRIES + 1) * (CMD_DELAY_MS + CMD_TIMEOUT_MS)
    );
}

#[test]
fn adr_command_text() {
    assert_eq!(adr_command(3), b"ADR 3".to_vec());
    assert_eq!(adr_command(0), b"ADR 0".to_vec());
    assert_eq!(adr_command(106), b"ADR 106".to_vec());
}

#[test]
fn addressed_connection_caches_target() {
    let mut c = AddrConnection::new();
    assert!(c.adr_needed(3));
    let r = c.apply_adr(3, Ok(ok_response()));
    assert!(r.is_ok());
    assert!(!c.adr_needed(3));
    assert!(c.adr_needed(4));
    // A successful command keeps the cache.
    let r = c.apply_cmd(Ok(b"12.5".to_vec()));
    assert_eq!(r.unwrap(), b"12.5".to_vec());
    assert!(!c.adr_needed(3));
    // A failed command clears it.
    let r = c.apply_cmd(Err(Error::Timeout));
    assert!(matches!(r, Err(Error::Timeout)));
    assert!(c.adr_needed(3));
}

#[test]
fn addressing_rejects_non_ok_reply() {
    let mut c = AddrConnection::new();
    let r = c.apply_adr(2, Ok(b"E01".to_vec()));
    match r {
        Err(Error::Device(t)) => assert_eq!(t, b"E01".to_vec()),
        _ => panic!("a non-OK addressing reply is a device error"),
    }
    assert!(c.adr_needed(2));
}

#[test]
fn probe_outcomes() {
    let mut c = AddrConnection::new();
    c.probe_begin();
    assert_eq!(c.apply_probe(5, Ok(ok_response())).unwrap(), true);
    assert!(!c.adr_needed(5));
    c.probe_begin();
    assert_eq!(c.apply_probe(5, Err(Error::Timeout)).unwrap(), false);
    c.probe_begin();
    match c.apply_probe(5, Ok(b"NO".to_vec())) {
        Err(Error::Device(t)) => assert_eq!(t, b"NO".to_vec()),
        _ => panic!("a non-OK probe reply is a device error"),
    }
    c.probe_begin();
    assert!(matches!(c.apply_probe(5, Err(Error::Io)), Err(Error::Io)));
}

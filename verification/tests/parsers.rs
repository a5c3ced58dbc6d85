use psgate::num::DecNum;
use psgate::parser::{BoolParser, NumParser, Parser, StringParser};
use psgate::text::{bytes_eq, parse_u8_dec, render_u8};
use psgate::utils::ToBytes;

fn num_round_trip(text: &[u8]) {
    let p = NumParser;
    let v = DecNum::parse(text).expect("canonical text must parse");
    let stored = p.store(&v);
    assert_eq!(stored, text.to_vec());
    let loaded = p.load(stored).expect("stored text must load");
    assert_eq!(loaded.neg, v.neg);
    assert_eq!(loaded.int_digits, v.int_digits);
    assert_eq!(loaded.frac_digits, v.frac_digits);
}

#[test]
fn num_parser_round_trips() {
    num_round_trip(b"0");
    num_round_trip(b"12.5");
    num_round_trip(b"-0.5");
    num_round_trip(b"100");
    num_round_trip(b"3.3");
    num_round_trip(b"-271.828");
    num_round_trip(b"0.001");
}

#[test]
fn num_parser_rejects_junk() {
    let p = NumParser;
    for bad in [
        &b""[..],
        b"1..2",
        b"abc",
        b"1 2",
        b"-",
        b"+",
        b".",
        b"1e3",
        b"- 5",
        b"--2",
    ] {
        let r = p.load(bad.to_vec());
        match r {
            Err(t) => assert_eq!(t, bad.to_vec()),
            Ok(_) => panic!("junk text must not load"),
        }
    }
}

#[test]
fn num_parser_normalizes_redundant_forms() {
    let p = NumParser;
    for (raw, canon) in [
        (&b"1.50"[..], &b"1.5"[..]),
        (b"00", b"0"),
        (b"-0", b"0"),
        (b".5", b"0.5"),
        (b"5.", b"5"),
        (b"+3", b"3"),
        (b"01.5", b"1.5"),
        (b"-0.0", b"0"),
        (b"007", b"7"),
        (b"+0.250", b"0.25"),
    ] {
        let v = p.load(raw.to_vec()).expect("plain decimal text must load");
        assert_eq!(v.to_text(), canon.to_vec());
        // Normalizing is idempotent: the canonical form loads back as
        // itself.
        let w = p.load(p.store(&v)).expect("canonical text must load");
        assert_eq!(w.to_text(), canon.to_vec());
    }
}

#[test]
fn num_parser_exact_values() {
    let v = DecNum::parse(b"12.5").unwrap();
    assert!(!v.neg);
    assert_eq!(v.int_digits, b"12".to_vec());
    assert_eq!(v.frac_digits, b"5".to_vec());
    let z = DecNum::zero();
    assert_eq!(z.to_text(), b"0".to_vec());
    let t = DecNum::from_u8(10);
    assert_eq!(t.to_text(), b"10".to_vec());
}

#[test]
fn bool_parser_classic_spellings() {
    let p = BoolParser::off_on();
    assert_eq!(p.load(b"OFF".to_vec()), Ok(0));
    assert_eq!(p.load(b"ON".to_vec()), Ok(1));
    assert_eq!(p.load(b"on".to_vec()), Err(b"on".to_vec()));
    assert_eq!(p.store(&0), b"OFF".to_vec());
    assert_eq!(p.store(&1), b"ON".to_vec());
}

#[test]
fn bool_parser_numeric_spellings() {
    let p = BoolParser::zero_one();
    assert_eq!(p.load(b"0".to_vec()), Ok(0));
    assert_eq!(p.load(b"1".to_vec()), Ok(1));
    assert_eq!(p.load(b"2".to_vec()), Err(b"2".to_vec()));
    assert_eq!(p.store(&0), b"0".to_vec());
    assert_eq!(p.store(&1), b"1".to_vec());
}

#[test]
fn bool_parser_configured_spellings() {
    let p = BoolParser::new(b"DIS".to_vec(), b"ENA".to_vec());
    assert_eq!(p.load(b"DIS".to_vec()), Ok(0));
    assert_eq!(p.load(b"ENA".to_vec()), Ok(1));
    assert_eq!(p.load(b"OTHER".to_vec()), Err(b"OTHER".to_vec()));
    assert_eq!(p.load(p.store(&0)), Ok(0));
    assert_eq!(p.load(p.store(&1)), Ok(1));
}

#[test]
fn bool_parser_default_is_off_on() {
    let p: BoolParser = Default::default();
    assert_eq!(p.false_text, b"OFF".to_vec());
    assert_eq!(p.true_text, b"ON".to_vec());
}

#[test]
fn string_parser_is_identity() {
    let p = StringParser;
    let v = b"Emu-3".to_vec();
    assert_eq!(p.store(&v), v);
    assert_eq!(p.load(v.clone()), Ok(v));
}

#[test]
fn u8_decimal_round_trip() {
    for n in [0u8, 1, 9, 10, 42, 99, 100, 128, 255] {
        let text = render_u8(n);
        assert_eq!(parse_u8_dec(&text), Some(n));
    }
    assert_eq!(render_u8(3), b"3".to_vec());
    assert_eq!(render_u8(10), b"10".to_vec());
    assert_eq!(render_u8(255), b"255".to_vec());
    assert_eq!(parse_u8_dec(b""), None);
    assert_eq!(parse_u8_dec(b"256"), None);
    assert_eq!(parse_u8_dec(b"1x"), None);
    assert_eq!(parse_u8_dec(b"007"), Some(7));
}

#[test]
fn byte_string_equality() {
    assert!(bytes_eq(b"OK", b"OK"));
    assert!(!bytes_eq(b"OK", b"OKX"));
    assert!(!bytes_eq(b"OK", b"NO"));
    assert!(bytes_eq(b"", b""));
}

#[test]
fn to_bytes_renders_canonically() {
    let v = DecNum::parse(b"-3.25").unwrap();
    assert_eq!(v.to_bytes(), b"-3.25".to_vec());
    assert_eq!(7u8.to_bytes(), b"7".to_vec());
}

#[test]
fn decimal_order() {
    let lt = |a: &[u8], b: &[u8]| {
        DecNum::parse(a).unwrap().lt(&DecNum::parse(b).unwrap())
    };
    assert!(lt(b"0", b"1"));
    assert!(lt(b"9", b"10"));
    assert!(lt(b"1.5", b"1.55"));
    assert!(lt(b"0.45", b"0.5"));
    assert!(lt(b"-1", b"0"));
    assert!(lt(b"-2.5", b"-2"));
    assert!(!lt(b"10", b"10"));
    assert!(!lt(b"12.5", b"10"));
}

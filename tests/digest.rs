use smsync::error::Error;
use smsync::hashsum::HashSum;

fn counting_bytes() -> Vec<u8> {
    (0u8..32).collect()
}

#[test]
fn from_bytes_takes_exact_width() {
    let h = HashSum::from_bytes(&counting_bytes()).unwrap();
    assert_eq!(
        h.to_hex(),
        "000102030405060708090a0b0c0d0e0f101112131415161718191a1b1c1d1e1f"
    );
}

#[test]
fn from_bytes_refuses_other_widths() {
    assert!(matches!(HashSum::from_bytes(&[0u8; 31]), Err(Error::BadHashSize)));
    assert!(matches!(HashSum::from_bytes(&[0u8; 33]), Err(Error::BadHashSize)));
    assert!(matches!(HashSum::from_bytes(&[]), Err(Error::BadHashSize)));
}

#[test]
fn hex_round_trip() {
    let h = HashSum::from_bytes(&counting_bytes()).unwrap();
    let back = HashSum::from_str(&h.to_hex()).unwrap();
    assert_eq!(back, h);
    let mut other = counting_bytes();
    other[31] = 0xff;
    let o = HashSum::from_bytes(&other).unwrap();
    assert_ne!(HashSum::from_str(&o.to_hex()).unwrap(), h);
}

#[test]
fn upper_case_hex_is_read() {
    let lower = "ABCDEF0123456789abcdef0123456789ABCDEF0123456789abcdef0123456789";
    let h = HashSum::from_str(lower).unwrap();
    assert_eq!(
        h.to_hex(),
        "abcdef0123456789abcdef0123456789abcdef0123456789abcdef0123456789"
    );
}

#[test]
fn wrong_length_text_fails() {
    assert!(matches!(HashSum::from_str("abcd"), Err(Error::BadHashSize)));
    assert!(matches!(HashSum::from_str(""), Err(Error::BadHashSize)));
    let long = "0".repeat(66);
    assert!(matches!(HashSum::from_str(&long), Err(Error::BadHashSize)));
    let odd = "0".repeat(65);
    assert!(matches!(HashSum::from_str(&odd), Err(Error::BadHashSize)));
}

#[test]
fn bad_hex_group_fails() {
    let mut text = "0".repeat(64);
    text.replace_range(4..6, "zz");
    match HashSum::from_str(&text) {
        Err(Error::InvalidHex(g)) => assert_eq!(g, "zz"),
        other => panic!("unexpected {:?}", other),
    }
    match HashSum::from_str("0g") {
        Err(Error::InvalidHex(g)) => assert_eq!(g, "0g"),
        other => panic!("unexpected {:?}", other),
    }
}

#[test]
fn default_digest_is_zero() {
    assert_eq!(HashSum::default().to_hex(), "0".repeat(64));
    assert_eq!(HashSum::default(), HashSum::from_bytes(&[0u8; 32]).unwrap());
}

#[test]
fn parse_through_from_str_trait() {
    let h = HashSum::from_bytes(&counting_bytes()).unwrap();
    let parsed: HashSum = h.to_hex().parse().unwrap();
    assert_eq!(parsed, h);
}

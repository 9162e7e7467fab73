use domain_voucher::encoder::{AsciiPackEncoder, LabelEncoder};

#[test]
fn packs_a_short_ascii_label_big_endian() {
    let f = AsciiPackEncoder.encode("abcde").expect("encodable");
    let bytes = f.to_bytes();
    assert_eq!(bytes.len(), 32);
    assert!(bytes[..27].iter().all(|b| *b == 0));
    assert_eq!(&bytes[27..], &[97, 98, 99, 100, 101]);
}

#[test]
fn encoding_is_deterministic() {
    let a = AsciiPackEncoder.encode("abcde").unwrap().to_bytes();
    let b = AsciiPackEncoder.encode("abcde").unwrap().to_bytes();
    assert_eq!(a, b);
}

#[test]
fn distinct_labels_encode_differently() {
    let a = AsciiPackEncoder.encode("abcde").unwrap().to_bytes();
    let b = AsciiPackEncoder.encode("abcdf").unwrap().to_bytes();
    assert_ne!(a, b);
}

#[test]
fn empty_label_encodes_to_zero() {
    let f = AsciiPackEncoder.encode("").unwrap();
    assert!(f.to_bytes().iter().all(|b| *b == 0));
}

#[test]
fn refuses_a_non_ascii_label() {
    assert!(AsciiPackEncoder.encode("caf\u{e9}").is_none());
}

#[test]
fn accepts_31_characters_and_refuses_32() {
    let ok = "a".repeat(31);
    let too_long = "a".repeat(32);
    assert!(AsciiPackEncoder.encode(&ok).is_some());
    assert!(AsciiPackEncoder.encode(&too_long).is_none());
}

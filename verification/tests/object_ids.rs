use std::str::FromStr;

use rsgit::object::{Id, ParseIdError};

#[test]
fn new() {
    let b = [
        0x3c, 0xd9, 0x32, 0x9a, 0xc5, 0x36, 0x13, 0xa0, 0xbf, 0xa1, 0x98, 0xae, 0x28, 0xf3,
        0xaf, 0x95, 0x7e, 0x49, 0x57, 0x3c,
    ];

    let oid = Id::new(&b).unwrap();
    assert_eq!(
        oid.to_hex_string(),
        "3cd9329ac53613a0bfa198ae28f3af957e49573c"
    );

    let b: [u8; 0] = [];
    assert_eq!(Id::new(&b).unwrap_err(), ParseIdError::Empty);

    let b: [u8; 19] = [
        0x3c, 0xd9, 0x32, 0x9a, 0xc5, 0x36, 0x13, 0xa0, 0xbf, 0xa1, 0x98, 0xae, 0x28, 0xf3,
        0xaf, 0x95, 0x7e, 0x49, 0x57,
    ];
    assert_eq!(Id::new(&b).unwrap_err(), ParseIdError::Underflow);

    let b: [u8; 21] = [
        0x3c, 0xd9, 0x32, 0x9a, 0xc5, 0x36, 0x13, 0xa0, 0xbf, 0xa1, 0x98, 0xae, 0x28, 0xf3,
        0xaf, 0x95, 0x7e, 0x49, 0x57, 0x3c, 0x3c,
    ];
    assert_eq!(Id::new(&b).unwrap_err(), ParseIdError::Overflow);
}

#[test]
fn from_hex() {
    let oid = Id::from_hex("3cd9329ac53613a0bfa198ae28f3af957e49573c".as_bytes()).unwrap();
    assert_eq!(
        oid.to_hex_string(),
        "3cd9329ac53613a0bfa198ae28f3af957e49573c"
    );
}

#[test]
fn from_str() {
    let oid = Id::from_str("3cd9329ac53613a0bfa198ae28f3af957e49573c").unwrap();
    assert_eq!(
        oid.to_hex_string(),
        "3cd9329ac53613a0bfa198ae28f3af957e49573c"
    );
}

#[test]
fn from_empty_str() {
    let r = Id::from_hex(b"");
    assert!(r.is_err());

    if let Err(err) = r {
        assert_eq!(err, ParseIdError::Empty);
        assert_eq!(err.message(), "cannot parse object ID from empty string");
    }
}

#[test]
fn from_invalid_str() {
    let r = Id::from_hex(b"3cD9329ac53613a0bfa198ae28f3af957e49573c");
    assert!(r.is_err());

    if let Err(err) = r {
        assert_eq!(err, ParseIdError::InvalidDigit('D'));
        assert_eq!(err.message(), "value contains invalid digit");
    }
}

#[test]
fn from_hex_too_long() {
    let r = Id::from_hex(b"3cd9329ac53613a0bfa198ae28f3af957e49573c4");
    assert!(r.is_err());

    if let Err(err) = r {
        assert_eq!(err, ParseIdError::Overflow);
        assert_eq!(err.message(), "value is more than 40 digits long");
    }
}

#[test]
fn from_hex_too_short() {
    let r = Id::from_hex(b"3cd9329ac53613a0bfa198ae28f3af957e49573");
    assert!(r.is_err());

    if let Err(err) = r {
        assert_eq!(err, ParseIdError::Underflow);
        assert_eq!(err.message(), "value is less than 40 digits long");
    }
}

#[test]
fn error_zero() {
    let r = Id::from_hex(b"0000000000000000000000000000000000000000");
    assert!(r.is_err());

    if let Err(err) = r {
        assert_eq!(err, ParseIdError::Zero);
        assert_eq!(err.message(), "ID would be zero");
    }
}

#[test]
fn hex_round_trip_arbitrary_ids() {
    // Rendering as hex and parsing back yields the id, for any non-zero id.
    let samples: [[u8; 20]; 3] = [
        [
            0x3c, 0xd9, 0x32, 0x9a, 0xc5, 0x36, 0x13, 0xa0, 0xbf, 0xa1, 0x98, 0xae, 0x28, 0xf3,
            0xaf, 0x95, 0x7e, 0x49, 0x57, 0x3c,
        ],
        [
            0, 0, 0, 0, 0, 0, 0, 0, 0, 0, 0, 0, 0, 0, 0, 0, 0, 0, 0, 1,
        ],
        [
            0xff, 0xff, 0xff, 0xff, 0xff, 0xff, 0xff, 0xff, 0xff, 0xff, 0xff, 0xff, 0xff, 0xff,
            0xff, 0xff, 0xff, 0xff, 0xff, 0xff,
        ],
    ];
    for b in &samples {
        let oid = Id::new(b).unwrap();
        let back = Id::from_hex(oid.to_hex_string().as_bytes()).unwrap();
        assert_eq!(back, oid);
    }
}

#[test]
fn hex_round_trip_zero_is_rejected() {
    let zero = Id::new(&[0u8; 20]).unwrap();
    assert_eq!(
        Id::from_hex(zero.to_hex_string().as_bytes()).unwrap_err(),
        ParseIdError::Zero
    );
}

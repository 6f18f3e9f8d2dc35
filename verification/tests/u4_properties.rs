use u4::U4;
use u4::hex::{decode_hex, encode_hex, ParseError};

#[test]
fn native_round_trip_all_values() {
    for v in 0..16u8 {
        assert_eq!(U4::from_u8(v).to_u8(), v);
    }
}

#[test]
fn hex_round_trip_all_values() {
    for v in 0..16u8 {
        let u = U4::from_u8(v);
        let s = u.to_hex_str();
        let back = U4::from_hex_str(&s).unwrap();
        assert_eq!(back.to_u8(), v);
    }
}

#[test]
fn add_commutes_all_pairs() {
    for a in 0..16u8 {
        for b in 0..16u8 {
            let x = U4::from_u8(a);
            let y = U4::from_u8(b);
            assert_eq!(x.wrapping_add(y), y.wrapping_add(x));
        }
    }
}

#[test]
fn or_and_xor_commute_all_pairs() {
    for a in 0..16u8 {
        for b in 0..16u8 {
            let x = U4::from_u8(a);
            let y = U4::from_u8(b);
            assert_eq!(x.or(y), y.or(x));
            assert_eq!(x.xor(y), y.xor(x));
        }
    }
}

#[test]
fn rotation_by_four_is_identity() {
    for v in 0..16u8 {
        let u = U4::from_u8(v);
        assert_eq!(u.rotate_left(4), u);
        assert_eq!(u.rotate_right(4), u);
        assert_eq!(u.rotate_left(8), u);
        assert_eq!(u.rotate_right(12), u);
    }
}

#[test]
fn add_wraps_modulo_16() {
    assert_eq!(U4::n(12).wrapping_add(U4::n(12)), U4::n(8));
    assert_eq!(U4::n(15).wrapping_add(U4::n(1)), U4::n(0));
    for a in 0..16u8 {
        for b in 0..16u8 {
            let r = U4::from_u8(a).wrapping_add(U4::from_u8(b));
            assert_eq!(r.to_u8(), (a + b) % 16);
        }
    }
}

#[test]
fn sub_wraps_modulo_16() {
    assert_eq!(U4::n(1).wrapping_sub(U4::n(2)), U4::n(15));
    assert_eq!(U4::n(0).wrapping_sub(U4::n(1)), U4::n(15));
    assert_eq!(U4::n(5).wrapping_sub(U4::n(7)), U4::n(14));
    for a in 0..16u8 {
        for b in 0..16u8 {
            let r = U4::from_u8(a).wrapping_sub(U4::from_u8(b));
            assert_eq!(r.to_u8(), (a + 16 - b) % 16);
        }
    }
}

#[test]
fn from_u8_truncates_high_bits() {
    assert_eq!(U4::from_u8(16).to_u8(), 0);
    assert_eq!(U4::from_u8(255).to_u8(), 15);
    assert_eq!(U4::from_u8(0x2b).to_u8(), 11);
}

#[test]
fn from_bytes_uses_first_byte_only() {
    let u = U4::from_bytes(&[0x2b, 0xff]).unwrap();
    assert_eq!(u.to_u8(), 11);
}

#[test]
fn from_bytes_empty_is_an_error() {
    assert_eq!(U4::from_bytes(&[]), Err(ParseError::EmptyInput));
}

#[test]
fn from_hex_str_error_kinds() {
    assert_eq!(U4::from_hex_str("abc"), Err(ParseError::OddLength));
    assert_eq!(U4::from_hex_str("0"), Err(ParseError::OddLength));
    assert_eq!(U4::from_hex_str("zz"), Err(ParseError::InvalidHexDigit));
    assert_eq!(U4::from_hex_str("0g"), Err(ParseError::InvalidHexDigit));
    assert_eq!(U4::from_hex_str(""), Err(ParseError::EmptyInput));
}

#[test]
fn from_hex_str_reads_first_byte_and_accepts_uppercase() {
    assert_eq!(U4::from_hex_str("2b").unwrap(), U4::n(11));
    assert_eq!(U4::from_hex_str("2B").unwrap(), U4::n(11));
    assert_eq!(U4::from_hex_str("0bff").unwrap(), U4::n(11));
}

#[test]
fn to_hex_str_is_two_lowercase_chars() {
    assert_eq!(U4::n(11).to_hex_str(), "0b");
    assert_eq!(U4::n(0).to_hex_str(), "00");
    assert_eq!(U4::n(15).to_hex_str(), "0f");
    assert_eq!(U4::n(9).to_hex_str(), "09");
}

#[test]
fn to_decimal_string_renders_the_value() {
    assert_eq!(U4::n(0).to_decimal_string(), "0");
    assert_eq!(U4::n(9).to_decimal_string(), "9");
    assert_eq!(U4::n(10).to_decimal_string(), "10");
    assert_eq!(U4::n(15).to_decimal_string(), "15");
}

#[test]
fn codec_encodes_and_decodes_byte_sequences() {
    assert_eq!(encode_hex(&[]), "");
    assert_eq!(encode_hex(&[0x00, 0xff, 0x2b]), "00ff2b");
    assert_eq!(decode_hex("00ff2b").unwrap(), vec![0x00, 0xff, 0x2b]);
    assert_eq!(decode_hex("").unwrap(), Vec::<u8>::new());
    assert_eq!(decode_hex("f"), Err(ParseError::OddLength));
    assert_eq!(decode_hex("fg"), Err(ParseError::InvalidHexDigit));
}

#[test]
fn codec_round_trips_every_byte() {
    for b in 0..=255u8 {
        let s = encode_hex(&[b]);
        assert_eq!(decode_hex(&s).unwrap(), vec![b]);
    }
}

#[test]
fn bounds_and_width() {
    assert_eq!(U4::min_value().to_u8(), 0);
    assert_eq!(U4::max_value().to_u8(), 15);
    assert_eq!(U4::BITS, 4);
    assert_eq!(U4::max_value().wrapping_add(U4::n(1)), U4::min_value());
    assert_eq!(U4::min_value().wrapping_sub(U4::n(1)), U4::max_value());
}

#[test]
fn rotations_invert_each_other() {
    for v in 0..16u8 {
        for n in 0..8u32 {
            let u = U4::from_u8(v);
            assert_eq!(u.rotate_left(n).rotate_right(n), u);
            assert_eq!(u.rotate_right(n).rotate_left(n), u);
        }
    }
}

use u4::U4;

#[test]
fn from_to_u8() {
    let u = U4::from_u8(2);
    assert_eq!(u.to_u8(), 2);
}

#[test]
fn rotate_right() {
    let u = U4::from_u8(2);
    let u = u.rotate_right(1);
    assert_eq!(u.to_u8(), 1);
}

#[test]
fn rotate_left() {
    let u = U4::from_u8(2);
    let u = u.rotate_left(1);
    assert_eq!(u.to_u8(), 4);
}

#[test]
fn rotate_left_wrap() {
    let u = U4::from_u8(2);
    let u = u.rotate_left(3);
    assert_eq!(u.to_u8(), 1);
}

#[test]
fn from_bytes() {
    let a = 11_u8.to_le_bytes();
    let b = 1_u8.to_le_bytes();

    let u = U4::from_bytes(&a).unwrap();
    assert_eq!(u, U4::n(11));
    let u = U4::from_bytes(&b).unwrap();
    assert_eq!(u, U4::n(1));
}

#[test]
fn from_hex() {
    let u = U4::from_hex_str("0b").unwrap();
    assert_eq!(u, U4::n(11));
}

#[test]
fn add() {
    let a = U4::from_u8(3);
    let b = U4::from_u8(3);

    assert_eq!(a.wrapping_add(b), U4::from_u8(6));
}

#[test]
fn sub() {
    let a = U4::from_u8(3);
    let b = U4::from_u8(2);

    assert_eq!(a.wrapping_sub(b), U4::from_u8(1));
}

#[test]
fn wrapping_add() {
    let a = U4::from_u8(12);
    let b = U4::from_u8(12);

    assert_eq!(a.wrapping_add(b), U4::from_u8(8));
}

#[test]
fn wrapping_sub() {
    let a = U4::from_u8(1);
    let b = U4::from_u8(2);

    assert_eq!(a.wrapping_sub(b), U4::from_u8(15));
}

#[test]
fn or() {
    let a = U4::from_u8(3);
    let b = U4::from_u8(4);

    assert_eq!(a.or(b), U4::from_u8(7));
}

#[test]
fn xor() {
    let a = U4::from_u8(3);
    let b = U4::from_u8(5);

    assert_eq!(a.xor(b), U4::from_u8(6));
}

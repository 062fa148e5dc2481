use runes::varint::{decode, Error};

#[test]
fn decodes_small_values() {
    assert_eq!(decode(&[0]), Ok((0, 1)));
    assert_eq!(decode(&[1, 99]), Ok((1, 1)));
    assert_eq!(decode(&[0x7f]), Ok((127, 1)));
    assert_eq!(decode(&[0x80, 0x01]), Ok((128, 2)));
    assert_eq!(decode(&[0xff, 0x7f]), Ok((16383, 2)));
    assert_eq!(decode(&[0xe5, 0x8e, 0x26]), Ok((624485, 3)));
}

#[test]
fn decodes_u128_max() {
    let mut bytes = vec![0xff; 18];
    bytes.push(0x03);
    assert_eq!(decode(&bytes), Ok((u128::MAX, 19)));
}

#[test]
fn rejects_overflow() {
    for last in [0x04u8, 0x08, 0x10, 0x20, 0x40, 0x7c] {
        let mut bytes = vec![0x80; 18];
        bytes.push(last);
        assert_eq!(decode(&bytes), Err(Error::Overflow));
    }
}

#[test]
fn rejects_overlong() {
    let mut bytes = vec![0x80; 19];
    bytes.push(0x00);
    assert_eq!(decode(&bytes), Err(Error::Overlong));
}

#[test]
fn rejects_unterminated() {
    assert_eq!(decode(&[]), Err(Error::Unterminated));
    assert_eq!(decode(&[0x80]), Err(Error::Unterminated));
    assert_eq!(decode(&[0x80; 19]), Err(Error::Unterminated));
}

#[test]
fn trailing_bytes_do_not_change_the_result() {
    assert_eq!(decode(&[0xac, 0x02, 0xff, 0xff]), Ok((300, 2)));
}

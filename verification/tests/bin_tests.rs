use chirpy::bin::{
    first_nibble, fourth_nibble, lower_half, lower_three, second_nibble, third_nibble, to_byte,
    to_usize,
};

const TEST_VALUE: u16 = 0xabcd;

#[test]
fn test_first_nibble() {
    assert_eq!(first_nibble(TEST_VALUE), 0xa);
}

#[test]
fn test_second_nibble() {
    assert_eq!(second_nibble(TEST_VALUE), 0xb);
}

#[test]
fn test_third_nibble() {
    assert_eq!(third_nibble(TEST_VALUE), 0xc);
}

#[test]
fn test_fourth_nibble() {
    assert_eq!(fourth_nibble(TEST_VALUE), 0xd);
}

#[test]
fn test_lower_half() {
    assert_eq!(lower_half(TEST_VALUE), 0xcd);
}

#[test]
fn test_lower_three() {
    assert_eq!(lower_three(TEST_VALUE), 0xbcd);
}

#[test]
fn test_conversions() {
    assert_eq!(to_byte(0x00cd), 0xcd);
    assert_eq!(to_byte(0x0000), 0x00);
    assert_eq!(to_byte(0x00ff), 0xff);
    assert_eq!(to_usize(0xabcd), 0xabcd);
    assert_eq!(to_usize(0x0000), 0);
}

// Decoding the fields out of a word assembled from given fields gives the
// fields back, for several corners of the field ranges.
#[test]
fn test_field_round_trip() {
    let cases: [(u16, u16, u16, u16); 4] =
        [(0xa, 0xb, 0xc, 0xd), (0, 0, 0, 0), (0xf, 0xf, 0xf, 0xf), (0x1, 0x0, 0xf, 0x7)];
    for &(a, b, c, d) in cases.iter() {
        let word = (a << 12) | (b << 8) | (c << 4) | d;
        assert_eq!(first_nibble(word), a);
        assert_eq!(second_nibble(word), b);
        assert_eq!(third_nibble(word), c);
        assert_eq!(fourth_nibble(word), d);
        assert_eq!(lower_half(word), (c << 4) | d);
        assert_eq!(lower_three(word), (b << 8) | (c << 4) | d);
    }
}

use ibst::text::{digit, push_decimal, push_hex, push_number};

fn decimal(n: u64, width: usize, fill: char) -> String {
    let mut s = String::new();
    push_decimal(&mut s, n, width, fill);
    s
}

fn hex(n: u64, width: usize) -> String {
    let mut s = String::new();
    push_hex(&mut s, n, width);
    s
}

#[test]
fn digits_are_lower_case() {
    let all: String = (0..16u8).map(digit).collect();
    assert_eq!(all, "0123456789abcdef");
}

#[test]
fn decimal_matches_the_standard_formatting() {
    for n in [0u64, 1, 9, 10, 99, 100, 255, 256, 1000, 65535, 4294967296, u64::MAX] {
        assert_eq!(decimal(n, 0, ' '), format!("{}", n));
        assert_eq!(decimal(n, 3, ' '), format!("{:3}", n));
        assert_eq!(decimal(n, 5, '0'), format!("{:05}", n));
        assert_eq!(decimal(n, 8, '0'), format!("{:08}", n));
    }
    assert_eq!(decimal(64, 3, ' '), " 64");
    assert_eq!(decimal(8, 3, ' '), "  8");
    assert_eq!(decimal(256, 3, ' '), "256");
    assert_eq!(decimal(0, 5, '0'), "00000");
}

#[test]
fn hex_matches_the_standard_formatting() {
    for n in [0u64, 1, 15, 16, 255, 0xc001_0141, 0xffff_ffff_c0a0_0000, u64::MAX] {
        assert_eq!(hex(n, 0), format!("{:x}", n));
        assert_eq!(hex(n, 8), format!("{:08x}", n));
        assert_eq!(hex(n, 16), format!("{:016x}", n));
    }
    assert_eq!(hex(0xc001_0141, 8), "c0010141");
    assert_eq!(hex(0x1234, 16), "0000000000001234");
}

#[test]
fn push_number_appends() {
    let mut s = String::from("x=");
    push_number(&mut s, 5, 2, 4, '.');
    assert_eq!(s, "x=.101");
    push_number(&mut s, 0, 16, 1, '0');
    assert_eq!(s, "x=.1010");
}

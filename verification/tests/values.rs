use mtr::address::Ipv4Address;
use mtr::double::Double;
use mtr::text::decimal_text;

fn double(value: f64) -> Double {
    Double { bits: value.to_bits() }
}

#[test]
fn numbers_are_written_in_decimal() {
    assert_eq!(decimal_text(0), "0");
    assert_eq!(decimal_text(9), "9");
    assert_eq!(decimal_text(10), "10");
    assert_eq!(decimal_text(907), "907");
    assert_eq!(decimal_text(u32::MAX), "4294967295");
}

#[test]
fn different_numbers_are_written_differently() {
    let texts: Vec<String> = (0..2000).map(decimal_text).collect();
    for i in 0..texts.len() {
        assert_eq!(texts[i], format!("{}", i));
    }
}

#[test]
fn octets_make_an_address() {
    let address = Ipv4Address::new(39, 156, 66, 10);
    assert_eq!(address.bits, 0x279c_420a);
    assert_eq!(address.octets(), [39, 156, 66, 10]);
    assert_eq!(Ipv4Address { bits: u32::MAX }.octets(), [255, 255, 255, 255]);
}

#[test]
fn addresses_are_written_with_dots() {
    assert_eq!(Ipv4Address::new(39, 156, 66, 10).to_text(), "39.156.66.10");
    assert_eq!(Ipv4Address::new(0, 0, 0, 0).to_text(), "0.0.0.0");
    assert_eq!(Ipv4Address::new(255, 255, 255, 255).to_text(), "255.255.255.255");
}

#[test]
fn written_addresses_are_read_back() {
    for bits in [0, 1, 0x0a00_0001, 0x7f00_0001, 0xc0a8_0164, 0xffff_ff00, u32::MAX] {
        let address = Ipv4Address { bits };
        assert_eq!(Ipv4Address::parse(&address.to_text()), Some(address));
    }
}

#[test]
fn other_texts_are_no_addresses() {
    let texts = [
        "", ".", "1", "1.2.3", "1.2.3.", ".1.2.3", "1..2.3", "1.2.3.4.", "1.2.3.4.5", "01.2.3.4",
        "1.2.3.00", "256.1.1.1", "1.2.3.999", "1.2.3.1000", "1.2.3.4 ", " 1.2.3.4", "1.2.3.-4",
        "1.2.3.+4", "a.b.c.d", "1,2,3,4", "baidu.com", "::1", "１.2.3.4",
    ];
    for text in texts {
        assert_eq!(Ipv4Address::parse(text), None, "{}", text);
    }
}

#[test]
fn minimum_and_maximum_follow_the_values() {
    let values = [-1.0e300, -2.5, -0.5, 0.0, 0.25, 1.0, 17.75, 1.0e300, f64::INFINITY];
    for a in values {
        for b in values {
            assert_eq!(double(a).min(double(b)), double(a.min(b)));
            assert_eq!(double(a).max(double(b)), double(a.max(b)));
        }
    }
}

#[test]
fn equal_zeros_keep_the_first() {
    assert_eq!(double(0.0).min(double(-0.0)), double(0.0));
    assert_eq!(double(-0.0).max(double(0.0)), double(-0.0));
}

#[test]
fn a_value_that_is_no_number_gives_way() {
    let nan = double(f64::NAN);
    assert!(nan.is_nan());
    assert!(double(-f64::NAN).is_nan());
    assert!(!double(f64::NEG_INFINITY).is_nan());
    assert!(!Double::zero().is_nan());
    assert_eq!(nan.min(double(3.0)), double(3.0));
    assert_eq!(double(3.0).min(nan), double(3.0));
    assert_eq!(nan.max(double(-3.0)), double(-3.0));
    assert_eq!(double(-3.0).max(nan), double(-3.0));
    assert!(nan.min(nan).is_nan());
    assert_eq!(Double::zero(), double(0.0));
}

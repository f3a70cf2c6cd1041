use cfmt::ArgValue;
use cfmt::ArgumentCursor;
use cfmt::Base;

fn ok(fmt: &str, args: Vec<ArgValue>) -> String {
    let mut cursor = ArgumentCursor::new(args);
    String::from_utf8(cfmt::render_to_vec(fmt.as_bytes(), &mut cursor).unwrap()).unwrap()
}

#[test]
fn base_radix() {
    assert_eq!(Base::Octal.as_number(), 8);
    assert_eq!(Base::Decimal.as_number(), 10);
    assert_eq!(Base::Hex.as_number(), 16);
}

#[test]
fn base_prefix_spellings() {
    assert_eq!(Base::Octal.prefix(false), "0");
    assert_eq!(Base::Octal.prefix(true), "0");
    assert_eq!(Base::Decimal.prefix(false), "0d");
    assert_eq!(Base::Decimal.prefix(true), "0D");
    assert_eq!(Base::Hex.prefix(false), "0x");
    assert_eq!(Base::Hex.prefix(true), "0X");
}

#[test]
fn extreme_integer_values() {
    assert_eq!(
        ok("%d", vec![ArgValue::Signed(isize::MIN)]),
        "-9223372036854775808"
    );
    assert_eq!(
        ok("%d", vec![ArgValue::Signed(isize::MAX)]),
        "9223372036854775807"
    );
    assert_eq!(
        ok("%u", vec![ArgValue::Unsigned(usize::MAX)]),
        "18446744073709551615"
    );
    assert_eq!(
        ok("%x", vec![ArgValue::Unsigned(usize::MAX)]),
        "ffffffffffffffff"
    );
}

#[test]
fn width_larger_than_content() {
    assert_eq!(ok("%20.10x", vec![ArgValue::Unsigned(255)]), "          00000000ff");
}

#[test]
fn empty_string_argument() {
    assert_eq!(ok("[%s]", vec![ArgValue::Text(Vec::new())]), "[]");
    assert_eq!(ok("[%3s]", vec![ArgValue::Text(Vec::new())]), "[   ]");
}

use cfmt::ArgValue;
use cfmt::ArgumentCursor;
use cfmt::FmtError;

fn run(fmt: &str, args: Vec<ArgValue>) -> Result<String, FmtError> {
    let mut cursor = ArgumentCursor::new(args);
    cfmt::render_to_vec(fmt.as_bytes(), &mut cursor).map(|v| String::from_utf8(v).unwrap())
}

fn ok(fmt: &str, args: Vec<ArgValue>) -> String {
    run(fmt, args).unwrap()
}

#[test]
fn literal_text_passes_through() {
    assert_eq!(ok("hello world", vec![]), "hello world");
    assert_eq!(ok("", vec![]), "");
    assert_eq!(ok("héllo – ünïcode", vec![]), "héllo – ünïcode");
}

#[test]
fn double_percent_is_one_literal_percent() {
    assert_eq!(ok("%%", vec![]), "%");
    assert_eq!(ok("a%%b", vec![]), "a%b");
    assert_eq!(ok("100%%", vec![]), "100%");
}

#[test]
fn double_percent_consumes_no_argument() {
    assert_eq!(ok("%%%d", vec![ArgValue::Signed(7)]), "%7");
    assert_eq!(ok("%d%%", vec![ArgValue::Signed(7)]), "7%");
}

#[test]
fn signed_basic() {
    assert_eq!(ok("%d", vec![ArgValue::Signed(5)]), "5");
    assert_eq!(ok("%i", vec![ArgValue::Signed(5)]), "5");
    assert_eq!(ok("%d", vec![ArgValue::Signed(-17)]), "-17");
    assert_eq!(ok("%d", vec![ArgValue::Signed(0)]), "0");
}

#[test]
fn signed_width_and_justification() {
    assert_eq!(ok("%5d", vec![ArgValue::Signed(5)]), "    5");
    assert_eq!(ok("%-5d", vec![ArgValue::Signed(5)]), "5    ");
    assert_eq!(ok("%05d", vec![ArgValue::Signed(5)]), "00005");
}

#[test]
fn signed_precision() {
    assert_eq!(ok("%.3d", vec![ArgValue::Signed(5)]), "005");
    assert_eq!(ok("%8.3d", vec![ArgValue::Signed(5)]), "     005");
}

#[test]
fn signed_zero_pad_with_precision() {
    assert_eq!(ok("%08.3d", vec![ArgValue::Signed(5)]), "00000005");
}

#[test]
fn signed_sign_flags() {
    assert_eq!(ok("%+d", vec![ArgValue::Signed(5)]), "+5");
    assert_eq!(ok("% d", vec![ArgValue::Signed(5)]), " 5");
    assert_eq!(ok("%+d", vec![ArgValue::Signed(-5)]), "-5");
    assert_eq!(ok("% d", vec![ArgValue::Signed(-5)]), "-5");
}

#[test]
fn signed_negative_with_width() {
    assert_eq!(ok("%5d", vec![ArgValue::Signed(-5)]), "   -5");
    assert_eq!(ok("%05d", vec![ArgValue::Signed(-5)]), "000-5");
}

#[test]
fn dynamic_width_negative_forces_left_justification() {
    assert_eq!(
        ok("%*d", vec![ArgValue::Signed(-5), ArgValue::Signed(3)]),
        "3    "
    );
}

#[test]
fn dynamic_width_positive() {
    assert_eq!(
        ok("%*d", vec![ArgValue::Signed(5), ArgValue::Signed(3)]),
        "    3"
    );
}

#[test]
fn dynamic_precision() {
    assert_eq!(
        ok("%.*d", vec![ArgValue::Signed(3), ArgValue::Signed(5)]),
        "005"
    );
}

#[test]
fn unsigned_bases() {
    assert_eq!(ok("%u", vec![ArgValue::Unsigned(42)]), "42");
    assert_eq!(ok("%o", vec![ArgValue::Unsigned(8)]), "10");
    assert_eq!(ok("%x", vec![ArgValue::Unsigned(255)]), "ff");
    assert_eq!(ok("%X", vec![ArgValue::Unsigned(255)]), "FF");
    assert_eq!(ok("%x", vec![ArgValue::Unsigned(0)]), "0");
}

#[test]
fn unsigned_alternate_form() {
    assert_eq!(ok("%#o", vec![ArgValue::Unsigned(8)]), "010");
    assert_eq!(ok("%#x", vec![ArgValue::Unsigned(255)]), "0xff");
    assert_eq!(ok("%#X", vec![ArgValue::Unsigned(255)]), "0XFF");
    assert_eq!(ok("%#u", vec![ArgValue::Unsigned(5)]), "0d5");
    // The alternate-form flag has no effect on the signed conversion.
    assert_eq!(ok("%#d", vec![ArgValue::Signed(5)]), "5");
}

#[test]
fn octal_alternate_form_of_zero() {
    assert_eq!(ok("%#o", vec![ArgValue::Unsigned(0)]), "0");
}

#[test]
fn octal_zero_with_precision_zero_is_empty() {
    assert_eq!(ok("%.0o", vec![ArgValue::Unsigned(0)]), "");
    assert_eq!(ok("[%.0o]", vec![ArgValue::Unsigned(0)]), "[]");
}

#[test]
fn unsigned_width_and_precision() {
    assert_eq!(ok("%8x", vec![ArgValue::Unsigned(255)]), "      ff");
    assert_eq!(ok("%-8x", vec![ArgValue::Unsigned(255)]), "ff      ");
    assert_eq!(ok("%.4x", vec![ArgValue::Unsigned(255)]), "00ff");
    assert_eq!(ok("%08x", vec![ArgValue::Unsigned(255)]), "000000ff");
}

#[test]
fn string_precision_truncates() {
    assert_eq!(
        ok("%.3s", vec![ArgValue::Text(b"hello".to_vec())]),
        "hel"
    );
}

#[test]
fn string_from_unterminated_buffer() {
    // A three-byte buffer with no terminating zero: precision three must
    // read exactly those bytes and nothing further.
    assert_eq!(ok("%.3s", vec![ArgValue::Text(b"abc".to_vec())]), "abc");
}

#[test]
fn string_stops_at_zero_byte() {
    assert_eq!(
        ok("%s", vec![ArgValue::Text(b"hi\0junk".to_vec())]),
        "hi"
    );
    assert_eq!(
        ok("%.5s", vec![ArgValue::Text(b"ab\0cdef".to_vec())]),
        "ab"
    );
}

#[test]
fn string_width_pads_with_spaces() {
    assert_eq!(ok("%5s", vec![ArgValue::Text(b"ab".to_vec())]), "   ab");
    assert_eq!(ok("%-5s", vec![ArgValue::Text(b"ab".to_vec())]), "ab   ");
    // The zero-pad flag does not affect strings: the pad stays a space.
    assert_eq!(ok("%05s", vec![ArgValue::Text(b"ab".to_vec())]), "   ab");
}

#[test]
fn string_multibyte_text() {
    assert_eq!(
        ok("%s", vec![ArgValue::Text("héllo".as_bytes().to_vec())]),
        "héllo"
    );
}

#[test]
fn char_conversion() {
    assert_eq!(ok("%c", vec![ArgValue::Byte(65)]), "A");
    assert_eq!(ok("(%c)", vec![ArgValue::Byte(33)]), "(!)");
}

#[test]
fn char_conversion_high_byte() {
    assert_eq!(ok("%c", vec![ArgValue::Byte(0xFF)]), "\u{FF}");
}

#[test]
fn char_conversion_ignores_width_and_precision() {
    assert_eq!(ok("%5.3c", vec![ArgValue::Byte(65)]), "A");
}

#[test]
fn pointer_conversion() {
    assert_eq!(ok("%p", vec![ArgValue::Address(0x1234)]), "0x1234");
    assert_eq!(ok("%p", vec![ArgValue::Address(0)]), "0x0");
    assert_eq!(ok("%p", vec![ArgValue::Address(0xDEADBEEF)]), "0xdeadbeef");
}

#[test]
fn several_directives_consume_in_order() {
    assert_eq!(
        ok(
            "%s=%d (%#x)",
            vec![
                ArgValue::Text(b"count".to_vec()),
                ArgValue::Signed(-3),
                ArgValue::Unsigned(48879),
            ]
        ),
        "count=-3 (0xbeef)"
    );
}

#[test]
fn flags_in_any_order_and_repeated() {
    assert_eq!(ok("%0-5d", vec![ArgValue::Signed(5)]), "50000");
    assert_eq!(ok("%--5d", vec![ArgValue::Signed(5)]), "5    ");
    assert_eq!(ok("%+ d", vec![ArgValue::Signed(5)]), "+5");
}

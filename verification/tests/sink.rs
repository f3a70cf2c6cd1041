use cfmt::ArgValue;
use cfmt::ArgumentCursor;
use cfmt::FmtError;
use cfmt::VecSink;

#[test]
fn render_writes_whole_output_to_sink() {
    let mut cursor = ArgumentCursor::new(vec![
        ArgValue::Text(b"x".to_vec()),
        ArgValue::Signed(42),
    ]);
    let mut sink = VecSink::new();
    let r = cfmt::render(b"%s = %d\n", &mut cursor, &mut sink);
    assert_eq!(r, Ok(()));
    assert_eq!(sink.data, b"x = 42\n".to_vec());
}

#[test]
fn render_failure_writes_nothing() {
    let mut cursor = ArgumentCursor::new(vec![]);
    let mut sink = VecSink::new();
    let r = cfmt::render(b"before %q after", &mut cursor, &mut sink);
    assert_eq!(r, Err(FmtError::MalformedFormatString));
    assert_eq!(sink.data, Vec::<u8>::new());
}

#[test]
fn render_appends_to_existing_contents() {
    let mut sink = VecSink::new();
    let mut cursor = ArgumentCursor::new(vec![ArgValue::Unsigned(1)]);
    assert_eq!(cfmt::render(b"a%u", &mut cursor, &mut sink), Ok(()));
    let mut cursor2 = ArgumentCursor::new(vec![ArgValue::Unsigned(2)]);
    assert_eq!(cfmt::render(b"b%u", &mut cursor2, &mut sink), Ok(()));
    assert_eq!(sink.data, b"a1b2".to_vec());
}

#[test]
fn cursor_reads_in_declared_order() {
    let mut cursor = ArgumentCursor::new(vec![
        ArgValue::Signed(1),
        ArgValue::Unsigned(2),
        ArgValue::Byte(51),
        ArgValue::Address(4),
    ]);
    let out = cfmt::render_to_vec(b"%d%u%c%p", &mut cursor).unwrap();
    assert_eq!(out, b"1230x4".to_vec());
}

#[test]
fn bounded_sink_accepts_what_fits() {
    let mut cursor = ArgumentCursor::new(vec![ArgValue::Signed(123)]);
    let mut sink = cfmt::BoundedSink::new(4);
    assert_eq!(cfmt::render(b"%d", &mut cursor, &mut sink), Ok(()));
    assert_eq!(sink.data, b"123".to_vec());
}

#[test]
fn bounded_sink_overflow_is_sink_failure() {
    let mut sink = cfmt::BoundedSink::new(4);
    let mut cursor = ArgumentCursor::new(vec![ArgValue::Signed(123)]);
    assert_eq!(cfmt::render(b"%d", &mut cursor, &mut sink), Ok(()));
    let mut cursor2 = ArgumentCursor::new(vec![ArgValue::Signed(45)]);
    assert_eq!(
        cfmt::render(b"%d", &mut cursor2, &mut sink),
        Err(FmtError::SinkFailure)
    );
    // The failed write left the contents untouched.
    assert_eq!(sink.data, b"123".to_vec());
}

#[test]
fn cursor_typed_reads() {
    let mut cursor = ArgumentCursor::new(vec![ArgValue::Signed(-9), ArgValue::Byte(7)]);
    assert_eq!(cursor.next_signed_int(), Ok(-9));
    assert_eq!(cursor.next_byte(), Ok(7));
    assert_eq!(cursor.next_byte(), Err(FmtError::ArgumentExhausted));
}

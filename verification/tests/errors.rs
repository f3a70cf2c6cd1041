use cfmt::ArgValue;
use cfmt::ArgumentCursor;
use cfmt::FmtError;

fn run(fmt: &str, args: Vec<ArgValue>) -> Result<String, FmtError> {
    let mut cursor = ArgumentCursor::new(args);
    cfmt::render_to_vec(fmt.as_bytes(), &mut cursor).map(|v| String::from_utf8(v).unwrap())
}

#[test]
fn unknown_conversion_letter_is_malformed() {
    assert_eq!(
        run("%y", vec![ArgValue::Signed(1)]),
        Err(FmtError::MalformedFormatString)
    );
    assert_eq!(run("a%qb", vec![]), Err(FmtError::MalformedFormatString));
}

#[test]
fn percent_at_end_is_malformed() {
    assert_eq!(run("%", vec![]), Err(FmtError::MalformedFormatString));
    assert_eq!(run("abc%", vec![]), Err(FmtError::MalformedFormatString));
    assert_eq!(run("%5", vec![]), Err(FmtError::MalformedFormatString));
    assert_eq!(run("%-0", vec![]), Err(FmtError::MalformedFormatString));
}

#[test]
fn unsupported_conversions_are_rejected() {
    assert_eq!(run("%n", vec![]), Err(FmtError::UnsupportedConversion));
    assert_eq!(run("%f", vec![]), Err(FmtError::UnsupportedConversion));
    assert_eq!(run("%g", vec![]), Err(FmtError::UnsupportedConversion));
    assert_eq!(run("%E", vec![]), Err(FmtError::UnsupportedConversion));
    assert_eq!(
        run("%ld", vec![ArgValue::Signed(5)]),
        Err(FmtError::UnsupportedConversion)
    );
    assert_eq!(
        run("%zu", vec![ArgValue::Unsigned(5)]),
        Err(FmtError::UnsupportedConversion)
    );
}

#[test]
fn negative_dynamic_precision_is_invalid() {
    assert_eq!(
        run("%.*d", vec![ArgValue::Signed(-1), ArgValue::Signed(5)]),
        Err(FmtError::InvalidPrecision)
    );
}

#[test]
fn missing_argument_is_exhausted() {
    assert_eq!(run("%d", vec![]), Err(FmtError::ArgumentExhausted));
    assert_eq!(run("%s", vec![]), Err(FmtError::ArgumentExhausted));
    assert_eq!(run("%*d", vec![]), Err(FmtError::ArgumentExhausted));
    assert_eq!(
        run("%d %d", vec![ArgValue::Signed(1)]),
        Err(FmtError::ArgumentExhausted)
    );
}

#[test]
fn wrong_argument_kind_is_exhausted() {
    assert_eq!(
        run("%d", vec![ArgValue::Unsigned(5)]),
        Err(FmtError::ArgumentExhausted)
    );
    assert_eq!(
        run("%s", vec![ArgValue::Signed(5)]),
        Err(FmtError::ArgumentExhausted)
    );
}

#[test]
fn invalid_utf8_string_argument_is_rejected() {
    assert_eq!(
        run("%s", vec![ArgValue::Text(vec![0xFF, 0xFE])]),
        Err(FmtError::InvalidEncoding)
    );
}

#[test]
fn truncation_that_splits_a_multibyte_character_is_rejected() {
    // "é" is two bytes; a precision of one cuts it in half.
    assert_eq!(
        run("%.1s", vec![ArgValue::Text("é".as_bytes().to_vec())]),
        Err(FmtError::InvalidEncoding)
    );
}

#[test]
fn error_aborts_whole_render() {
    // Text before the failing directive is not returned.
    assert_eq!(run("ok so far %y", vec![]), Err(FmtError::MalformedFormatString));
}

use bolt_payment_gateway::codec::{
    convert_money_from_string, format_money_amount, format_unsigned, parse_unsigned,
};

#[test]
fn test_money_round_trip() {
    for n in [
        0u128,
        4,
        99,
        100,
        2345,
        4990,
        1_000_000,
        999_999_999_999,
        u64::MAX as u128,
        u128::MAX - 1,
        u128::MAX,
    ] {
        let rendered = format_money_amount(n);
        assert_eq!(convert_money_from_string(rendered), Ok(n));
    }
}

#[test]
fn test_truncation() {
    // Fractional digits beyond two are dropped, not rounded.
    assert_eq!(convert_money_from_string("1.005".to_string()), Ok(100));
    assert_eq!(convert_money_from_string("1.009".to_string()), Ok(100));
    assert_eq!(convert_money_from_string("121.45454".to_string()), Ok(12145));
}

#[test]
fn test_format_money_amount() {
    assert_eq!(format_money_amount(2345), "23.45");
    assert_eq!(format_money_amount(4), "0.04");
    assert_eq!(format_money_amount(100), "1.00");
    assert_eq!(format_money_amount(0), "0.00");
    assert_eq!(format_money_amount(6_000_000), "60000.00");
}

#[test]
fn test_parse_money_variants() {
    assert_eq!(convert_money_from_string("23".to_string()), Ok(2300));
    assert_eq!(convert_money_from_string("23.4".to_string()), Ok(2340));
    assert_eq!(convert_money_from_string("23.".to_string()), Ok(2300));
    assert_eq!(convert_money_from_string("23.45".to_string()), Ok(2345));
    assert_eq!(convert_money_from_string("0.04".to_string()), Ok(4));
    assert_eq!(convert_money_from_string("0".to_string()), Ok(0));
}

#[test]
fn test_parse_money_rejects() {
    assert_eq!(convert_money_from_string("".to_string()), Err(()));
    assert_eq!(convert_money_from_string(".".to_string()), Err(()));
    assert_eq!(convert_money_from_string(".5".to_string()), Err(()));
    assert_eq!(convert_money_from_string("1.2.3".to_string()), Err(()));
    assert_eq!(convert_money_from_string("12a".to_string()), Err(()));
    assert_eq!(convert_money_from_string("1.0x".to_string()), Err(()));
    assert_eq!(convert_money_from_string("-5".to_string()), Err(()));
    assert_eq!(convert_money_from_string("+5".to_string()), Err(()));
    assert_eq!(convert_money_from_string("1e3".to_string()), Err(()));
    // Too large for the numeric width: u128::MAX dollars cannot be cents.
    assert_eq!(
        convert_money_from_string(u128::MAX.to_string()),
        Err(())
    );
}

#[test]
fn test_parse_unsigned_values() {
    assert_eq!(parse_unsigned("0"), Ok(0));
    assert_eq!(parse_unsigned("87324"), Ok(87324));
    assert_eq!(parse_unsigned(&u128::MAX.to_string()), Ok(u128::MAX));
    assert_eq!(parse_unsigned(""), Err(()));
    assert_eq!(parse_unsigned("12.3"), Err(()));
    assert_eq!(parse_unsigned("+1"), Err(()));
    // One past u128::MAX.
    assert_eq!(parse_unsigned("340282366920938463463374607431768211456"), Err(()));
}

#[test]
fn test_format_unsigned_values() {
    assert_eq!(format_unsigned(0), "0");
    assert_eq!(format_unsigned(7), "7");
    assert_eq!(format_unsigned(87324), "87324");
    assert_eq!(format_unsigned(u128::MAX), u128::MAX.to_string());
}

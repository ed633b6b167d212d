use bolt_payment_gateway::dto::convert_string_to_object_id;
use bolt_payment_gateway::ids::RecordId;

#[test]
fn test_parse_str_lowercase() {
    let id = RecordId::parse_str("507f1f77bcf86cd799439011").unwrap();
    assert_eq!(id.value, 0x507f1f77bcf86cd799439011);
}

#[test]
fn test_parse_str_accepts_uppercase() {
    let lower = RecordId::parse_str("507f1f77bcf86cd799439011").unwrap();
    let upper = RecordId::parse_str("507F1F77BCF86CD799439011").unwrap();
    assert_eq!(lower, upper);
}

#[test]
fn test_parse_str_rejects() {
    assert!(RecordId::parse_str("").is_err());
    assert!(RecordId::parse_str("507f1f77bcf86cd79943901").is_err()); // 23 chars
    assert!(RecordId::parse_str("507f1f77bcf86cd7994390111").is_err()); // 25 chars
    assert!(RecordId::parse_str("507f1f77bcf86cd79943901g").is_err()); // non-hex
}

#[test]
fn test_hex_round_trip() {
    let id = RecordId { value: 0x507f1f77bcf86cd799439011 };
    let hex = id.to_hex();
    assert_eq!(hex, "507f1f77bcf86cd799439011");
    assert_eq!(RecordId::parse_str(&hex), Ok(id));
}

#[test]
fn test_to_hex_pads_to_24_characters() {
    let id = RecordId { value: 0xabc };
    assert_eq!(id.to_hex(), "000000000000000000000abc");
}

#[test]
fn test_convert_string_to_object_id() {
    let id = convert_string_to_object_id("507f1f77bcf86cd799439011").unwrap();
    assert_eq!(id.value, 0x507f1f77bcf86cd799439011);

    let err = convert_string_to_object_id("not-an-id").unwrap_err();
    assert_eq!(err.error, "invalid_object_id");
    assert_eq!(err.message, "Invalid ObjectId format");
}

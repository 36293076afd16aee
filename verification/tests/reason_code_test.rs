use mqtt_packet::ByteReader;
use mqtt_packet::DataType;
use mqtt_packet::Error;
use mqtt_packet::ReasonCode;

#[test]
fn no_matching_subscribers() {
    let bytes: Vec<u8> = vec![0x10];
    let mut reader = ByteReader::new(bytes);
    let byte = DataType::parse_byte(&mut reader).unwrap();
    let reason_code = ReasonCode::new(byte).unwrap();
    assert_eq!(reason_code, ReasonCode::NO_MATCHING_SUBSCRIBERS);
    assert_eq!(reason_code.to_u8().unwrap(), 0x10);
}

#[test]
fn wildcard_subscriptions_not_supported() {
    let bytes: Vec<u8> = vec![0xA2];
    let mut reader = ByteReader::new(bytes);
    let byte = DataType::parse_byte(&mut reader).unwrap();
    let reason_code = ReasonCode::new(byte).unwrap();
    assert_eq!(reason_code, ReasonCode::WILDCARD_SUBSCRIPTIONS_NOT_SUPPORTED);
    assert_eq!(reason_code.to_u8().unwrap(), 0xA2);
}

#[test]
fn reason_code_err_value() {
    let err_bytes: Vec<u8> = vec![0x03];
    let mut err_reader = ByteReader::new(err_bytes);

    let byte = DataType::parse_byte(&mut err_reader).unwrap();
    let err = ReasonCode::new(byte).unwrap_err();
    assert_eq!(err, Error::GenerateError)
}

#[test]
fn reason_code_err_read() {
    let err_bytes: Vec<u8> = vec![0x02, 0x01];
    let mut err_reader = ByteReader::new(err_bytes);
    let byte = DataType::parse_two_byte_int(&mut err_reader).unwrap();

    let err = ReasonCode::new(byte).unwrap_err();
    assert_eq!(err, Error::ParseError)
}

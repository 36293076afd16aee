use mqtt_packet::ByteReader;
use mqtt_packet::Config;
use mqtt_packet::DataType;
use mqtt_packet::Error;
use mqtt_packet::Property;
use mqtt_packet::VariableByte;

fn round_trip_with(value: DataType, parse: fn(&mut ByteReader) -> Result<DataType, Error>) {
    let bytes = value.into_bytes().unwrap();
    let mut reader = ByteReader::new(bytes);
    assert_eq!(parse(&mut reader).unwrap(), value);
}

#[test]
fn round_trip_every_variant() {
    round_trip_with(DataType::Byte(0x7A), DataType::parse_byte);
    round_trip_with(DataType::TwoByteInteger(40000), DataType::parse_two_byte_int);
    round_trip_with(DataType::FourByteInteger(3_000_000_000), DataType::parse_four_byte_int);
    round_trip_with(
        DataType::VariableByteInteger(VariableByte::Two(300)),
        DataType::parse_variable_byte_int,
    );
    round_trip_with(
        DataType::Utf8EncodedString("grüße \u{1F980} héllo".to_string()),
        DataType::parse_utf8_string,
    );
    round_trip_with(DataType::BinaryData(vec![0xDE, 0xAD, 0xBE, 0xEF]), DataType::parse_binary_data);
    round_trip_with(
        DataType::Utf8StringPair("clé".to_string(), "väl".to_string()),
        DataType::parse_utf8_string_pair,
    );
}

#[test]
fn empty_string_round_trip() {
    let value = DataType::Utf8EncodedString(String::new());
    let bytes = value.into_bytes().unwrap();
    assert_eq!(bytes, vec![0x00, 0x00]);
    let mut reader = ByteReader::new(bytes);
    assert_eq!(DataType::parse_utf8_string(&mut reader).unwrap(), value);
}

#[test]
fn payload_exactly_at_limit_round_trips() {
    let binary = DataType::BinaryData(vec![0xAB; 65535]);
    let bytes = binary.into_bytes().unwrap();
    assert_eq!(bytes.len(), 65537);
    let mut reader = ByteReader::new(bytes);
    assert_eq!(DataType::parse_binary_data(&mut reader).unwrap(), binary);

    let string = DataType::Utf8EncodedString("a".repeat(65535));
    let bytes = string.into_bytes().unwrap();
    assert_eq!(bytes.len(), 65537);
    let mut reader = ByteReader::new(bytes);
    assert_eq!(DataType::parse_utf8_string(&mut reader).unwrap(), string);
}

#[test]
fn string_over_limit_fails_encode() {
    let string = DataType::Utf8EncodedString("a".repeat(65536));
    assert_eq!(string.into_bytes().unwrap_err(), Error::GenerateError);
}

#[test]
fn parse_invalid_utf8_is_parse_error() {
    let data: Vec<u8> = vec![0x00, 0x02, 0xFF, 0xFE];
    let mut reader = ByteReader::new(data);
    assert_eq!(
        DataType::parse_utf8_string(&mut reader).unwrap_err(),
        Error::ParseError
    );
}

#[test]
fn short_source_is_parse_error() {
    let mut reader = ByteReader::new(vec![0x01]);
    assert_eq!(
        DataType::parse_two_byte_int(&mut reader).unwrap_err(),
        Error::ParseError
    );

    let mut reader = ByteReader::new(vec![0x00, 0x05, 0x01]);
    assert_eq!(
        DataType::parse_binary_data(&mut reader).unwrap_err(),
        Error::ParseError
    );
}

#[test]
fn property_entry_longer_than_declared_is_malformed() {
    // declared list length 2: the identifier byte leaves one byte, but a
    // four byte integer entry needs four
    let data: Vec<u8> = vec![0x00, 0x02, 0x02, 0x01, 0x02, 0x03, 0x04];
    let mut reader = ByteReader::new(data);
    assert_eq!(
        Property::new(&mut reader).unwrap_err(),
        Error::MalformdedPacket
    );
}

#[test]
fn property_unknown_identifier_is_generate_error() {
    let data: Vec<u8> = vec![0x00, 0x02, 0x7F, 0x01];
    let mut reader = ByteReader::new(data);
    assert_eq!(
        Property::new(&mut reader).unwrap_err(),
        Error::GenerateError
    );
}

#[test]
fn property_short_source_is_parse_error() {
    let data: Vec<u8> = vec![0x00, 0x03, 0x01];
    let mut reader = ByteReader::new(data);
    assert_eq!(Property::new(&mut reader).unwrap_err(), Error::ParseError);
}

#[test]
fn property_empty_list_round_trips() {
    let mut reader = ByteReader::new(vec![0x00, 0x00]);
    let property = Property::new(&mut reader).unwrap();
    assert_eq!(property.entries().len(), 0);
    assert_eq!(property.generate().unwrap(), vec![0x00, 0x00]);
}

#[test]
fn property_generate_over_limit_is_generate_error() {
    let mut property = Property::empty();
    property.insert(
        mqtt_packet::PropertyIdentifier::CorrelationData,
        DataType::BinaryData(vec![0x55; 65535]),
    );
    assert_eq!(property.generate().unwrap_err(), Error::GenerateError);
}

#[test]
fn property_repeated_identifier_keeps_last() {
    let mut property = Property::empty();
    property.insert(mqtt_packet::PropertyIdentifier::MaximumQos, DataType::Byte(1));
    property.insert(mqtt_packet::PropertyIdentifier::MaximumQos, DataType::Byte(2));
    assert_eq!(
        property.get(mqtt_packet::PropertyIdentifier::MaximumQos),
        Some(&DataType::Byte(2))
    );
    assert_eq!(property.entries().len(), 1);
}

#[test]
fn config_defaults_when_unset() {
    let config = Config::new(None).unwrap();
    assert_eq!(config.buffer_length, 65535);
}

#[test]
fn config_parses_decimal() {
    let config = Config::new(Some(b"8192".to_vec())).unwrap();
    assert_eq!(config.buffer_length, 8192);

    let config = Config::new(Some(b"+42".to_vec())).unwrap();
    assert_eq!(config.buffer_length, 42);
}

#[test]
fn config_rejects_bad_values() {
    assert_eq!(Config::new(Some(b"".to_vec())).unwrap_err(), Error::ParseError);
    assert_eq!(Config::new(Some(b"+".to_vec())).unwrap_err(), Error::ParseError);
    assert_eq!(Config::new(Some(b"12x".to_vec())).unwrap_err(), Error::ParseError);
    assert_eq!(Config::new(Some(b"-5".to_vec())).unwrap_err(), Error::ParseError);
    assert_eq!(
        Config::new(Some(b"99999999999999999999999999".to_vec())).unwrap_err(),
        Error::ParseError
    );
}

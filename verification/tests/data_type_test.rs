use mqtt_packet::ByteReader;
use mqtt_packet::DataType;
use mqtt_packet::Error;
use mqtt_packet::VariableByte;

#[test]
fn type_into() {
    let data: Vec<u8> = vec![0x01, 0x02, 0x03];
    let mut reader = ByteReader::new(data);
    let two = DataType::parse_two_byte_int(&mut reader).unwrap();
    let mut check: u16 = two.into();
    assert_eq!(258, check);

    // any other type should return 0 for now
    let zero = vec![0x01, 0x02, 0x03, 0x04, 0x05];
    reader = ByteReader::new(zero);
    let four = DataType::parse_four_byte_int(&mut reader).unwrap();
    check = four.into();
    assert_eq!(0, check);
}

#[test]
fn variable_byte_one() {
    let min: Vec<u8> = vec![0x00];
    let mut reader = ByteReader::new(min);
    let mut vari_type = DataType::parse_variable_byte_int(&mut reader).unwrap();
    assert_eq!(vari_type, DataType::VariableByteInteger(VariableByte::One(0)));

    let max = vec![0x7F];
    reader = ByteReader::new(max);
    vari_type = DataType::parse_variable_byte_int(&mut reader).unwrap();
    assert_eq!(vari_type, DataType::VariableByteInteger(VariableByte::One(127)));
}

#[test]
fn variable_byte_two() {
    let min: Vec<u8> = vec![0x80, 0x01];
    let mut reader = ByteReader::new(min);
    let mut vari_type = DataType::parse_variable_byte_int(&mut reader).unwrap();
    assert_eq!(vari_type, DataType::VariableByteInteger(VariableByte::Two(128)));

    let max: Vec<u8> = vec![0xFF, 0x7F];
    reader = ByteReader::new(max);
    vari_type = DataType::parse_variable_byte_int(&mut reader).unwrap();
    assert_eq!(vari_type, DataType::VariableByteInteger(VariableByte::Two(16383)));
}

#[test]
fn variable_byte_three() {
    let min: Vec<u8> = vec![0x80, 0x80, 0x01];
    let mut reader = ByteReader::new(min);
    let mut vari_type = DataType::parse_variable_byte_int(&mut reader).unwrap();
    assert_eq!(vari_type, DataType::VariableByteInteger(VariableByte::Three(16384)));

    let max: Vec<u8> = vec![0xFF, 0xFF, 0x7F];
    reader = ByteReader::new(max);
    vari_type = DataType::parse_variable_byte_int(&mut reader).unwrap();
    assert_eq!(vari_type, DataType::VariableByteInteger(VariableByte::Three(2097151)));
}

#[test]
fn variable_byte_four() {
    let min: Vec<u8> = vec![0x80, 0x80, 0x80, 0x01];
    let mut reader = ByteReader::new(min);
    let mut vari_type = DataType::parse_variable_byte_int(&mut reader).unwrap();
    assert_eq!(vari_type, DataType::VariableByteInteger(VariableByte::Four(2097152)));

    let max: Vec<u8> = vec![0xFF, 0xFF, 0xFF, 0x7F];
    reader = ByteReader::new(max);
    vari_type = DataType::parse_variable_byte_int(&mut reader).unwrap();
    assert_eq!(vari_type, DataType::VariableByteInteger(VariableByte::Four(268435455)));
}

#[test]
fn variable_byte_error() {
    let vari: Vec<u8> = vec![0xFF, 0xFF, 0xFF, 0xFF];
    let mut reader = ByteReader::new(vari);
    let vari_err = DataType::parse_variable_byte_int(&mut reader).unwrap_err();
    assert_eq!(vari_err, Error::ParseError);
}

#[test]
fn string_pair() {
    let data: Vec<u8> = vec![
        0, 11, 104, 101, 108, 108, 111, 32, 119, 111, 114, 108, 100, 0, 7, 102, 111, 111, 32, 98,
        97, 114, 1, 1, 1, 1,
    ];

    let mut reader = ByteReader::new(data);
    let result = DataType::parse_utf8_string_pair(&mut reader).unwrap();

    assert_eq!(
        result,
        DataType::Utf8StringPair(String::from("hello world"), String::from("foo bar"))
    );
}

#[test]
fn byte_into_bytes() {
    let value = DataType::Byte(255);
    let expected: Vec<u8> = vec![0xFF];
    assert_eq!(value.into_bytes().unwrap(), expected);
}

#[test]
fn two_byte_int_into_bytes() {
    let value = DataType::TwoByteInteger(258);
    let expected: Vec<u8> = vec![0x01, 0x02];
    assert_eq!(value.into_bytes().unwrap(), expected);
}

#[test]
fn four_byte_into_bytes() {
    let value = DataType::FourByteInteger(16909060);
    let expected: Vec<u8> = vec![0x01, 0x02, 0x03, 0x04];
    assert_eq!(value.into_bytes().unwrap(), expected);
}

#[test]
fn variable_byte_one_into_bytes() {
    let mut vari = DataType::VariableByteInteger(VariableByte::One(0));
    let mut expected: Vec<u8> = vec![0x00];
    assert_eq!(vari.into_bytes().unwrap(), expected);

    vari = DataType::VariableByteInteger(VariableByte::One(127));
    expected = vec![0x7F];
    assert_eq!(vari.into_bytes().unwrap(), expected);
}

#[test]
fn variable_byte_two_into_bytes() {
    let mut vari = DataType::VariableByteInteger(VariableByte::Two(128));
    let mut expected: Vec<u8> = vec![0x80, 0x01];
    assert_eq!(vari.into_bytes().unwrap(), expected);

    vari = DataType::VariableByteInteger(VariableByte::Two(16383));
    expected = vec![0xFF, 0x7F];
    assert_eq!(vari.into_bytes().unwrap(), expected);
}

#[test]
fn variable_byte_three_into_bytes() {
    let mut vari = DataType::VariableByteInteger(VariableByte::Three(16384));
    let mut expected: Vec<u8> = vec![0x80, 0x80, 0x01];
    assert_eq!(vari.into_bytes().unwrap(), expected);

    vari = DataType::VariableByteInteger(VariableByte::Three(2097151));
    expected = vec![0xFF, 0xFF, 0x7F];
    assert_eq!(vari.into_bytes().unwrap(), expected);
}

#[test]
fn variable_byte_four_into_bytes() {
    let mut vari = DataType::VariableByteInteger(VariableByte::Four(2097152));
    let mut expected: Vec<u8> = vec![0x80, 0x80, 0x80, 0x01];
    assert_eq!(vari.into_bytes().unwrap(), expected);

    vari = DataType::VariableByteInteger(VariableByte::Four(268435455));
    expected = vec![0xFF, 0xFF, 0xFF, 0x7F];
    assert_eq!(vari.into_bytes().unwrap(), expected);
}

#[test]
fn variable_byte_into_bytes_error() {
    let vari = DataType::VariableByteInteger(VariableByte::Four(268435456));
    let err = vari.into_bytes().unwrap_err();
    assert_eq!(err, Error::GenerateError);
}

#[test]
fn utf8_string_into_bytes() {
    let value = DataType::Utf8EncodedString("hello world".to_string());
    let expected: Vec<u8> = vec![0, 11, 104, 101, 108, 108, 111, 32, 119, 111, 114, 108, 100];
    assert_eq!(value.into_bytes().unwrap(), expected);
}

#[test]
fn utf8_string_pair_into_bytes() {
    let value = DataType::Utf8StringPair("hello world".to_string(), "foo bar".to_string());
    let expected: Vec<u8> = vec![
        0, 11, 104, 101, 108, 108, 111, 32, 119, 111, 114, 108, 100, 0, 7, 102, 111, 111, 32, 98,
        97, 114,
    ];
    assert_eq!(value.into_bytes().unwrap(), expected);
}

#[test]
fn binary_data_into_bytes() {
    let data: Vec<u8> = vec![0x00, 0x01, 0x02, 0x03, 0x04, 0x05, 0x06, 0x07, 0x08, 0x09];
    let value = DataType::BinaryData(data);

    let expected: Vec<u8> = vec![
        0, 10, 0x00, 0x01, 0x02, 0x03, 0x04, 0x05, 0x06, 0x07, 0x08, 0x09,
    ];
    assert_eq!(value.into_bytes().unwrap(), expected);
}

#[test]
fn into_bytes_max_length() {
    let data = [0u8; 65536];
    let value = DataType::BinaryData(data.to_vec());
    let err = value.into_bytes().unwrap_err();
    assert_eq!(err, Error::GenerateError);
}

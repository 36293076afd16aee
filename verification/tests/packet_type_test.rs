use mqtt_packet::ByteReader;
use mqtt_packet::DataType;
use mqtt_packet::Error;
use mqtt_packet::PacketType;

#[test]
fn connect() {
    let bytes: Vec<u8> = vec![0x10];
    let mut reader = ByteReader::new(bytes);
    let byte = DataType::parse_byte(&mut reader).unwrap();
    let packet_type = PacketType::new(byte).unwrap();
    assert_eq!(packet_type, PacketType::CONNECT);
    assert_eq!(packet_type.to_u8().unwrap(), 1);
}

#[test]
fn auth() {
    let bytes: Vec<u8> = vec![0xF0];
    let mut reader = ByteReader::new(bytes);
    let byte = DataType::parse_byte(&mut reader).unwrap();
    let packet_type = PacketType::new(byte).unwrap();
    assert_eq!(packet_type, PacketType::AUTH);
    assert_eq!(packet_type.to_u8().unwrap(), 15);
}

#[test]
fn packet_type_err_value() {
    let err_bytes: Vec<u8> = vec![0x00];
    let mut err_reader = ByteReader::new(err_bytes);

    let byte = DataType::parse_byte(&mut err_reader).unwrap();
    let err = PacketType::new(byte).unwrap_err();
    assert_eq!(err, Error::GenerateError)
}

#[test]
fn packet_type_err_read() {
    let err_bytes: Vec<u8> = vec![0x00, 0x01];
    let mut err_reader = ByteReader::new(err_bytes);
    let byte = DataType::parse_two_byte_int(&mut err_reader).unwrap();

    let err = PacketType::new(byte).unwrap_err();
    assert_eq!(err, Error::ParseError)
}

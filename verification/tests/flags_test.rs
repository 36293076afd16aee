use mqtt_packet::Error;
use mqtt_packet::Flags;
use mqtt_packet::GenericFlags;
use mqtt_packet::PublishFlags;

#[test]
fn publish() {
    let fixed_header: u8 = 0x3D;
    let flag_type = Flags::new(fixed_header);
    assert_eq!(
        flag_type.unwrap(),
        Flags::Publish(PublishFlags {
            retain: true,
            qos: 2,
            dup: true
        })
    );
}

#[test]
fn publish_qos_error() {
    let fixed_header: u8 = 0x3F;
    let flag_type = Flags::new(fixed_header);
    assert_eq!(flag_type.unwrap_err(), Error::MalformdedPacket);
}

#[test]
fn generic_connect() {
    let fixed_header: u8 = 0x1F;
    let flag_type = Flags::new(fixed_header);
    assert_eq!(
        flag_type.unwrap(),
        Flags::Generic(GenericFlags(true, true, true, true))
    );
}

#[test]
fn generic_connack() {
    let fixed_header: u8 = 0x21;
    let flag_type = Flags::new(fixed_header);
    assert_eq!(
        flag_type.unwrap(),
        Flags::Generic(GenericFlags(true, false, false, false))
    );
}

#[test]
fn generic_pubrel() {
    let fixed_header: u8 = 0x62;
    let flag_type = Flags::new(fixed_header);
    assert_eq!(
        flag_type.unwrap(),
        Flags::Generic(GenericFlags(false, true, false, false))
    );
}

#[test]
fn generic_subscribe() {
    let fixed_header: u8 = 0x82;
    let flag_type = Flags::new(fixed_header);
    assert_eq!(
        flag_type.unwrap(),
        Flags::Generic(GenericFlags(false, true, false, false))
    );
}

#[test]
fn generic_unsubscribe() {
    let fixed_header: u8 = 0xA2;
    let flag_type = Flags::new(fixed_header);
    assert_eq!(
        flag_type.unwrap(),
        Flags::Generic(GenericFlags(false, true, false, false))
    );
}

#[test]
fn reserved_error() {
    let fixed_header: u8 = 0xAF;
    let flag_type = Flags::new(fixed_header);
    assert_eq!(flag_type.unwrap_err(), Error::MalformdedPacket);
}

#[test]
fn publish_truthy_to_u8() {
    let flag_type = Flags::Publish(PublishFlags {
        retain: true,
        qos: 2,
        dup: true,
    });
    assert_eq!(flag_type.to_u8().unwrap(), 0x0D);
}

#[test]
fn publish_falsy_to_u8() {
    let flag_type = Flags::Publish(PublishFlags {
        retain: false,
        qos: 1,
        dup: false,
    });
    assert_eq!(flag_type.to_u8().unwrap(), 0x02);
}

#[test]
fn generic_one_to_u8() {
    let flag_type = Flags::Generic(GenericFlags(true, false, false, false));
    assert_eq!(flag_type.to_u8().unwrap(), 0x01);
}

#[test]
fn generic_two_to_u8() {
    let flag_type = Flags::Generic(GenericFlags(true, true, false, false));
    assert_eq!(flag_type.to_u8().unwrap(), 0x03);
}

#[test]
fn generic_three_to_u8() {
    let flag_type = Flags::Generic(GenericFlags(true, true, true, false));
    assert_eq!(flag_type.to_u8().unwrap(), 0x07);
}

#[test]
fn generic_four_to_u8() {
    let flag_type = Flags::Generic(GenericFlags(true, true, true, true));
    assert_eq!(flag_type.to_u8().unwrap(), 0x0F);
}

use crate::data_type::DataType;
use crate::error::Error;
use vstd::prelude::*;

verus! {

/// The fifteen MQTT control packet types, carried as the high nibble of the
/// fixed header's first byte. The wire codes run from 1 (`CONNECT`) to 15
/// (`AUTH`); nibble 0 is reserved and outside the domain.
#[allow(non_camel_case_types)]
#[derive(Debug, PartialEq, Eq, Structural, Hash, PartialOrd, Ord, Clone, Copy)]
pub enum PacketType {
    CONNECT,
    CONNACK,
    PUBLISH,
    PUBACK,
    PUBREC,
    PUBREL,
    PUBCOMP,
    SUBSCRIBE,
    SUBACK,
    UNSUBSCRIBE,
    UNSUBACK,
    PINGREQ,
    PINGRESP,
    DISCONNECT,
    AUTH,
}

/// Canonical wire code of each packet type: total and infallible.
pub open spec fn packet_type_code(t: PacketType) -> u8 {
    match t {
        PacketType::CONNECT => 1,
        PacketType::CONNACK => 2,
        PacketType::PUBLISH => 3,
        PacketType::PUBACK => 4,
        PacketType::PUBREC => 5,
        PacketType::PUBREL => 6,
        PacketType::PUBCOMP => 7,
        PacketType::SUBSCRIBE => 8,
        PacketType::SUBACK => 9,
        PacketType::UNSUBSCRIBE => 10,
        PacketType::UNSUBACK => 11,
        PacketType::PINGREQ => 12,
        PacketType::PINGRESP => 13,
        PacketType::DISCONNECT => 14,
        PacketType::AUTH => 15,
    }
}

/// Code-to-variant conversion: partial, failing with `GenerateError` on any
/// code outside the enumeration's domain.
pub open spec fn spec_packet_type_from(v: u8) -> Result<PacketType, Error> {
    match v {
        1u8 => Ok(PacketType::CONNECT),
        2u8 => Ok(PacketType::CONNACK),
        3u8 => Ok(PacketType::PUBLISH),
        4u8 => Ok(PacketType::PUBACK),
        5u8 => Ok(PacketType::PUBREC),
        6u8 => Ok(PacketType::PUBREL),
        7u8 => Ok(PacketType::PUBCOMP),
        8u8 => Ok(PacketType::SUBSCRIBE),
        9u8 => Ok(PacketType::SUBACK),
        10u8 => Ok(PacketType::UNSUBSCRIBE),
        11u8 => Ok(PacketType::UNSUBACK),
        12u8 => Ok(PacketType::PINGREQ),
        13u8 => Ok(PacketType::PINGRESP),
        14u8 => Ok(PacketType::DISCONNECT),
        15u8 => Ok(PacketType::AUTH),
        _ => Err(Error::GenerateError),
    }
}

/// What `PacketType::new` returns for a given input value.
pub open spec fn spec_packet_type_new(byte: DataType) -> Result<PacketType, Error> {
    match byte {
        DataType::Byte(value) => spec_packet_type_from((value & 0xF0) >> 4),
        _ => Err(Error::ParseError),
    }
}

/// The two conversions invert each other over the whole enumeration.
pub proof fn lemma_packet_type_code_round_trip(t: PacketType)
    ensures
        spec_packet_type_from(packet_type_code(t)) == Ok::<PacketType, Error>(t),
{
}

impl PacketType {
    /// Maps a wire code to its packet type; a code outside the domain fails
    /// with `GenerateError`.
    pub fn from_u8(value: u8) -> (r: Result<Self, Error>)
        ensures
            r == spec_packet_type_from(value),
    {
        match value {
            1u8 => Ok(PacketType::CONNECT),
            2u8 => Ok(PacketType::CONNACK),
            3u8 => Ok(PacketType::PUBLISH),
            4u8 => Ok(PacketType::PUBACK),
            5u8 => Ok(PacketType::PUBREC),
            6u8 => Ok(PacketType::PUBREL),
            7u8 => Ok(PacketType::PUBCOMP),
            8u8 => Ok(PacketType::SUBSCRIBE),
            9u8 => Ok(PacketType::SUBACK),
            10u8 => Ok(PacketType::UNSUBSCRIBE),
            11u8 => Ok(PacketType::UNSUBACK),
            12u8 => Ok(PacketType::PINGREQ),
            13u8 => Ok(PacketType::PINGRESP),
            14u8 => Ok(PacketType::DISCONNECT),
            15u8 => Ok(PacketType::AUTH),
            _ => Err(Error::GenerateError),
        }
    }

    /// Extracts the packet type from the fixed header's first byte, read as
    /// a `Byte` primitive: the high nibble names the type. Any other
    /// primitive is the wrong wire shape and fails with `ParseError`; a
    /// nibble outside the domain fails with `GenerateError`.
    pub fn new(byte: DataType) -> (r: Result<Self, Error>)
        ensures
            r == spec_packet_type_new(byte),
    {
        if let DataType::Byte(value) = byte {
            Self::from_u8((value & 0xF0) >> 4)
        } else {
            Err(Error::ParseError)
        }
    }

    /// The packet type's wire code; total, never an error.
    pub fn to_u8(self) -> (r: Result<u8, Error>)
        ensures
            r == Ok::<u8, Error>(packet_type_code(self)),
    {
        match self {
            PacketType::CONNECT => Ok(1),
            PacketType::CONNACK => Ok(2),
            PacketType::PUBLISH => Ok(3),
            PacketType::PUBACK => Ok(4),
            PacketType::PUBREC => Ok(5),
            PacketType::PUBREL => Ok(6),
            PacketType::PUBCOMP => Ok(7),
            PacketType::SUBSCRIBE => Ok(8),
            PacketType::SUBACK => Ok(9),
            PacketType::UNSUBSCRIBE => Ok(10),
            PacketType::UNSUBACK => Ok(11),
            PacketType::PINGREQ => Ok(12),
            PacketType::PINGRESP => Ok(13),
            PacketType::DISCONNECT => Ok(14),
            PacketType::AUTH => Ok(15),
        }
    }
}

} // verus!

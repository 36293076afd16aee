//! Codec for the MQTT v5 wire format: the primitive data types, the
//! identifier-driven property lists, the fixed-header packet types and flag
//! nibbles, and the one-byte reason codes.

mod config;
mod control_packet;
mod data_type;
mod error;
mod flags;
mod packet_type;
mod property;
mod reader;
mod reason_code;

pub use config::Config;
pub use control_packet::ControlPacket;
pub use data_type::{DataType, DataTypeModel, Shape, VariableByte};
pub use error::Error;
pub use flags::{Flags, GenericFlags, PublishFlags};
pub use packet_type::PacketType;
pub use property::PropertyIdentifier as Identifier;
pub use property::{Property, PropertyIdentifier};
pub use reason_code::ReasonCode;
pub use reader::ByteReader;

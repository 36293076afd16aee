use crate::data_type::DataType;
use crate::packet_type::PacketType;
use crate::property::Property;
use vstd::prelude::*;

verus! {

/// The pieces of a control packet as the codec sees them: the fixed
/// header's type and flags byte, the property list, and the identifier and
/// payload fields. Assembling and interpreting whole packets is the
/// caller's business.
pub struct ControlPacket {
    pub packet_type: PacketType,
    pub flags: DataType,
    pub properties: Property,
    pub identifier: DataType,
    pub payload: DataType,
}

} // verus!

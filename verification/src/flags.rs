use crate::error::Error;
use crate::packet_type::{spec_packet_type_from, PacketType};
use vstd::prelude::*;

verus! {

/// The four flag bits of the fixed header's low nibble, taken as independent
/// booleans, least significant first.
#[derive(Debug, PartialEq, Eq, Structural, Clone, Copy)]
pub struct GenericFlags(pub bool, pub bool, pub bool, pub bool);

/// The PUBLISH flag nibble: bit 0 is `retain`, bits 2-1 the quality of
/// service (0, 1 or 2), bit 3 is `dup`.
#[derive(Debug, PartialEq, Eq, Structural, Clone, Copy)]
pub struct PublishFlags {
    pub retain: bool,
    pub qos: u8,
    pub dup: bool,
}

/// The decoded flag nibble: interpreted for PUBLISH, four plain booleans for
/// every other packet type.
#[derive(Debug, PartialEq, Eq, Structural, Clone, Copy)]
pub enum Flags {
    Generic(GenericFlags),
    Publish(PublishFlags),
}

/// The low nibble of a header byte as four independent booleans.
pub open spec fn spec_generic_flags(header: u8) -> Flags {
    Flags::Generic(
        GenericFlags(
            header & 0x01 == 0x01,
            header & 0x02 == 0x02,
            header & 0x04 == 0x04,
            header & 0x08 == 0x08,
        ),
    )
}

/// What decoding a fixed-header byte yields. The packet type comes from the
/// high nibble; the low nibble is validated per type: both PUBLISH QoS bits
/// set, or a nibble other than 0b0010 on PUBREL, SUBSCRIBE and UNSUBSCRIBE,
/// is a malformed packet.
pub open spec fn spec_flags_new(header: u8) -> Result<Flags, Error> {
    match spec_packet_type_from((header & 0xF0) >> 4) {
        Err(e) => Err(e),
        Ok(packet_type) => if packet_type == PacketType::PUBLISH {
            if (header & 0x06) >> 1 > 2 {
                Err(Error::MalformdedPacket)
            } else {
                Ok(
                    Flags::Publish(
                        PublishFlags {
                            retain: header & 0x01 == 0x01,
                            qos: (header & 0x06) >> 1,
                            dup: header & 0x08 == 0x08,
                        },
                    ),
                )
            }
        } else if packet_type == PacketType::PUBREL || packet_type == PacketType::SUBSCRIBE
            || packet_type == PacketType::UNSUBSCRIBE {
            if header & 0x0F == 0x02 {
                Ok(spec_generic_flags(header))
            } else {
                Err(Error::MalformdedPacket)
            }
        } else {
            Ok(spec_generic_flags(header))
        },
    }
}

/// The byte a flag value re-encodes to: the canonical low nibble.
pub open spec fn spec_flags_byte(f: Flags) -> u8 {
    match f {
        Flags::Publish(value) => {
            let with_qos = value.qos << 1;
            let with_retain = if value.retain {
                with_qos | 0x01
            } else {
                with_qos
            };
            if value.dup {
                with_retain | 0x08
            } else {
                with_retain
            }
        },
        Flags::Generic(value) => {
            let f0 = if value.0 {
                0x01u8
            } else {
                0u8
            };
            let f1 = if value.1 {
                f0 | 0x02
            } else {
                f0
            };
            let f2 = if value.2 {
                f1 | 0x04
            } else {
                f1
            };
            if value.3 {
                f2 | 0x08
            } else {
                f2
            }
        },
    }
}

impl Flags {
    /// Decodes and validates the flag nibble of a fixed-header byte, guided
    /// by the packet type in its high nibble.
    pub fn new(header: u8) -> (r: Result<Self, Error>)
        ensures
            r == spec_flags_new(header),
    {
        let packet_type = match PacketType::from_u8((header & 0xF0) >> 4) {
            Ok(t) => t,
            Err(e) => {
                return Err(e);
            },
        };
        let generic_flags = Flags::Generic(
            GenericFlags(
                (header & 0x01) == 0x01,
                (header & 0x02) == 0x02,
                (header & 0x04) == 0x04,
                (header & 0x08) == 0x08,
            ),
        );
        match packet_type {
            PacketType::PUBLISH => {
                let qos = (header & 0x06) >> 1;
                if qos > 2 {
                    return Err(Error::MalformdedPacket);
                }
                Ok(Flags::Publish(PublishFlags { retain: (header & 0x01) == 0x01, qos, dup: (
                header & 0x08) == 0x08 }))
            },
            PacketType::PUBREL | PacketType::SUBSCRIBE | PacketType::UNSUBSCRIBE => {
                if (header & 0x0F) == 0x02 {
                    Ok(generic_flags)
                } else {
                    Err(Error::MalformdedPacket)
                }
            },
            _ => Ok(generic_flags),
        }
    }

    /// Reassembles the canonical flag byte; total, never an error.
    pub fn to_u8(&self) -> (r: Result<u8, Error>)
        ensures
            r == Ok::<u8, Error>(spec_flags_byte(*self)),
    {
        match self {
            Flags::Publish(value) => {
                let mut flag: u8 = value.qos << 1;
                if value.retain {
                    flag = flag | 0x01;
                }
                if value.dup {
                    flag = flag | 0x08;
                }
                Ok(flag)
            },
            Flags::Generic(value) => {
                let mut flag: u8 = if value.0 {
                    0x01
                } else {
                    0x00
                };
                if value.1 {
                    flag = flag | 0x02;
                }
                if value.2 {
                    flag = flag | 0x04;
                }
                if value.3 {
                    flag = flag | 0x08;
                }
                Ok(flag)
            },
        }
    }
}

/// Re-encoding any successfully decoded flag nibble reproduces the header
/// byte's low nibble exactly: `to_u8` inverts decoding wherever decoding
/// succeeds.
pub proof fn lemma_flags_round_trip(header: u8)
    ensures
        spec_flags_new(header) matches Ok(f) ==> spec_flags_byte(f) == header & 0x0F,
{
    if spec_flags_new(header) is Ok {
        let f = spec_flags_new(header)->Ok_0;
        match f {
            Flags::Publish(_) => {
                assert({
                    let with_qos = ((header & 0x06) >> 1) << 1;
                    let with_retain = if header & 0x01 == 0x01 {
                        with_qos | 0x01
                    } else {
                        with_qos
                    };
                    let full = if header & 0x08 == 0x08 {
                        with_retain | 0x08
                    } else {
                        with_retain
                    };
                    full == header & 0x0F
                }) by (bit_vector);
            },
            Flags::Generic(_) => {
                assert({
                    let f0 = if header & 0x01 == 0x01 {
                        0x01u8
                    } else {
                        0u8
                    };
                    let f1 = if header & 0x02 == 0x02 {
                        f0 | 0x02
                    } else {
                        f0
                    };
                    let f2 = if header & 0x04 == 0x04 {
                        f1 | 0x04
                    } else {
                        f1
                    };
                    let f3 = if header & 0x08 == 0x08 {
                        f2 | 0x08
                    } else {
                        f2
                    };
                    f3 == header & 0x0F
                }) by (bit_vector);
            },
        }
    }
}

} // verus!

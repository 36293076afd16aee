use crate::data_type::DataType;
use crate::error::Error;
use vstd::prelude::*;

verus! {

/// The one-byte result codes of acknowledgement-style control packets.
/// Values below 0x80 report success, 0x80 and above report failure; the
/// enumeration is sparse, and a byte outside it is no reason code at all.
#[allow(non_camel_case_types)]
#[derive(Debug, PartialEq, Eq, Structural, Hash, PartialOrd, Ord, Clone, Copy)]
pub enum ReasonCode {
    SUCCESS,
    GRANTED_QOS_1,
    GRANTED_QOS_2,
    DISCONNECT_WITH_WILL_MESSAGE,
    NO_MATCHING_SUBSCRIBERS,
    NO_SUBSCRIPTION_EXISTED,
    CONTINUE_AUTHENTICATION,
    RE_AUTHENTICATE,
    UNSPECIFIED_ERROR,
    MALFORMED_PACKET,
    PROTOCOL_ERROR,
    IMPLEMENTATION_SPECIFIC_ERROR,
    UNSUPPORTED_PROTOCOL_VERSION,
    CLIENT_IDENTIFIER_NOT_VALID,
    BAD_USER_NAME_OR_PASSWORD,
    NOT_AUTHORIZED,
    SERVER_UNAVAILABLE,
    SERVER_BUSY,
    BANNED,
    SERVER_SHUTTING_DOWN,
    BAD_AUTHENTICATION_METHOD,
    KEEP_ALIVE_TIMEOUT,
    SESSION_TAKEN_OVER,
    TOPIC_FILTER_INVALID,
    TOPIC_NAME_INVALID,
    PACKET_IDENTIFIER_IN_USE,
    PACKET_IDENTIFIER_NOT_FOUND,
    RECEIVE_MAXIMUM_EXCEEDED,
    TOPIC_ALIAS_INVALID,
    PACKET_TOO_LARGE,
    MESSAGE_RATE_TOO_HIGH,
    QUOTA_EXCEEDED,
    ADMINISTRATIVE_ACTION,
    PAYLOAD_FORMAT_INVALID,
    RETAIN_NOT_SUPPORTED,
    QOS_NOT_SUPPORTED,
    USE_ANOTHER_SERVER,
    SERVER_MOVED,
    SHARED_SUBSCRIPTIONS_NOT_SUPPORTED,
    CONNECTION_RATE_EXCEEDED,
    MAXIMUM_CONNECT_TIME,
    SUBSCRIPTION_IDENTIFIERS_NOT_SUPPORTED,
    WILDCARD_SUBSCRIPTIONS_NOT_SUPPORTED,
}

/// Canonical wire code of each reason code: total and infallible.
pub open spec fn reason_code_value(t: ReasonCode) -> u8 {
    match t {
        ReasonCode::SUCCESS => 0x00,
        ReasonCode::GRANTED_QOS_1 => 0x01,
        ReasonCode::GRANTED_QOS_2 => 0x02,
        ReasonCode::DISCONNECT_WITH_WILL_MESSAGE => 0x04,
        ReasonCode::NO_MATCHING_SUBSCRIBERS => 0x10,
        ReasonCode::NO_SUBSCRIPTION_EXISTED => 0x11,
        ReasonCode::CONTINUE_AUTHENTICATION => 0x18,
        ReasonCode::RE_AUTHENTICATE => 0x19,
        ReasonCode::UNSPECIFIED_ERROR => 0x80,
        ReasonCode::MALFORMED_PACKET => 0x81,
        ReasonCode::PROTOCOL_ERROR => 0x82,
        ReasonCode::IMPLEMENTATION_SPECIFIC_ERROR => 0x83,
        ReasonCode::UNSUPPORTED_PROTOCOL_VERSION => 0x84,
        ReasonCode::CLIENT_IDENTIFIER_NOT_VALID => 0x85,
        ReasonCode::BAD_USER_NAME_OR_PASSWORD => 0x86,
        ReasonCode::NOT_AUTHORIZED => 0x87,
        ReasonCode::SERVER_UNAVAILABLE => 0x88,
        ReasonCode::SERVER_BUSY => 0x89,
        ReasonCode::BANNED => 0x8A,
        ReasonCode::SERVER_SHUTTING_DOWN => 0x8B,
        ReasonCode::BAD_AUTHENTICATION_METHOD => 0x8C,
        ReasonCode::KEEP_ALIVE_TIMEOUT => 0x8D,
        ReasonCode::SESSION_TAKEN_OVER => 0x8E,
        ReasonCode::TOPIC_FILTER_INVALID => 0x8F,
        ReasonCode::TOPIC_NAME_INVALID => 0x90,
        ReasonCode::PACKET_IDENTIFIER_IN_USE => 0x91,
        ReasonCode::PACKET_IDENTIFIER_NOT_FOUND => 0x92,
        ReasonCode::RECEIVE_MAXIMUM_EXCEEDED => 0x93,
        ReasonCode::TOPIC_ALIAS_INVALID => 0x94,
        ReasonCode::PACKET_TOO_LARGE => 0x95,
        ReasonCode::MESSAGE_RATE_TOO_HIGH => 0x96,
        ReasonCode::QUOTA_EXCEEDED => 0x97,
        ReasonCode::ADMINISTRATIVE_ACTION => 0x98,
        ReasonCode::PAYLOAD_FORMAT_INVALID => 0x99,
        ReasonCode::RETAIN_NOT_SUPPORTED => 0x9A,
        ReasonCode::QOS_NOT_SUPPORTED => 0x9B,
        ReasonCode::USE_ANOTHER_SERVER => 0x9C,
        ReasonCode::SERVER_MOVED => 0x9D,
        ReasonCode::SHARED_SUBSCRIPTIONS_NOT_SUPPORTED => 0x9E,
        ReasonCode::CONNECTION_RATE_EXCEEDED => 0x9F,
        ReasonCode::MAXIMUM_CONNECT_TIME => 0xA0,
        ReasonCode::SUBSCRIPTION_IDENTIFIERS_NOT_SUPPORTED => 0xA1,
        ReasonCode::WILDCARD_SUBSCRIPTIONS_NOT_SUPPORTED => 0xA2,
    }
}

/// Code-to-variant conversion: partial, failing with `GenerateError` on
/// any byte outside the enumeration's domain.
pub open spec fn spec_reason_code_from(v: u8) -> Result<ReasonCode, Error> {
    match v {
        0x00u8 => Ok(ReasonCode::SUCCESS),
        0x01u8 => Ok(ReasonCode::GRANTED_QOS_1),
        0x02u8 => Ok(ReasonCode::GRANTED_QOS_2),
        0x04u8 => Ok(ReasonCode::DISCONNECT_WITH_WILL_MESSAGE),
        0x10u8 => Ok(ReasonCode::NO_MATCHING_SUBSCRIBERS),
        0x11u8 => Ok(ReasonCode::NO_SUBSCRIPTION_EXISTED),
        0x18u8 => Ok(ReasonCode::CONTINUE_AUTHENTICATION),
        0x19u8 => Ok(ReasonCode::RE_AUTHENTICATE),
        0x80u8 => Ok(ReasonCode::UNSPECIFIED_ERROR),
        0x81u8 => Ok(ReasonCode::MALFORMED_PACKET),
        0x82u8 => Ok(ReasonCode::PROTOCOL_ERROR),
        0x83u8 => Ok(ReasonCode::IMPLEMENTATION_SPECIFIC_ERROR),
        0x84u8 => Ok(ReasonCode::UNSUPPORTED_PROTOCOL_VERSION),
        0x85u8 => Ok(ReasonCode::CLIENT_IDENTIFIER_NOT_VALID),
        0x86u8 => Ok(ReasonCode::BAD_USER_NAME_OR_PASSWORD),
        0x87u8 => Ok(ReasonCode::NOT_AUTHORIZED),
        0x88u8 => Ok(ReasonCode::SERVER_UNAVAILABLE),
        0x89u8 => Ok(ReasonCode::SERVER_BUSY),
        0x8Au8 => Ok(ReasonCode::BANNED),
        0x8Bu8 => Ok(ReasonCode::SERVER_SHUTTING_DOWN),
        0x8Cu8 => Ok(ReasonCode::BAD_AUTHENTICATION_METHOD),
        0x8Du8 => Ok(ReasonCode::KEEP_ALIVE_TIMEOUT),
        0x8Eu8 => Ok(ReasonCode::SESSION_TAKEN_OVER),
        0x8Fu8 => Ok(ReasonCode::TOPIC_FILTER_INVALID),
        0x90u8 => Ok(ReasonCode::TOPIC_NAME_INVALID),
        0x91u8 => Ok(ReasonCode::PACKET_IDENTIFIER_IN_USE),
        0x92u8 => Ok(ReasonCode::PACKET_IDENTIFIER_NOT_FOUND),
        0x93u8 => Ok(ReasonCode::RECEIVE_MAXIMUM_EXCEEDED),
        0x94u8 => Ok(ReasonCode::TOPIC_ALIAS_INVALID),
        0x95u8 => Ok(ReasonCode::PACKET_TOO_LARGE),
        0x96u8 => Ok(ReasonCode::MESSAGE_RATE_TOO_HIGH),
        0x97u8 => Ok(ReasonCode::QUOTA_EXCEEDED),
        0x98u8 => Ok(ReasonCode::ADMINISTRATIVE_ACTION),
        0x99u8 => Ok(ReasonCode::PAYLOAD_FORMAT_INVALID),
        0x9Au8 => Ok(ReasonCode::RETAIN_NOT_SUPPORTED),
        0x9Bu8 => Ok(ReasonCode::QOS_NOT_SUPPORTED),
        0x9Cu8 => Ok(ReasonCode::USE_ANOTHER_SERVER),
        0x9Du8 => Ok(ReasonCode::SERVER_MOVED),
        0x9Eu8 => Ok(ReasonCode::SHARED_SUBSCRIPTIONS_NOT_SUPPORTED),
        0x9Fu8 => Ok(ReasonCode::CONNECTION_RATE_EXCEEDED),
        0xA0u8 => Ok(ReasonCode::MAXIMUM_CONNECT_TIME),
        0xA1u8 => Ok(ReasonCode::SUBSCRIPTION_IDENTIFIERS_NOT_SUPPORTED),
        0xA2u8 => Ok(ReasonCode::WILDCARD_SUBSCRIPTIONS_NOT_SUPPORTED),
        _ => Err(Error::GenerateError),
    }
}

/// What `ReasonCode::new` returns for a given input value.
pub open spec fn spec_reason_code_new(byte: DataType) -> Result<ReasonCode, Error> {
    match byte {
        DataType::Byte(value) => spec_reason_code_from(value),
        _ => Err(Error::ParseError),
    }
}

/// The two conversions invert each other over the whole enumeration.
pub proof fn lemma_reason_code_round_trip(t: ReasonCode)
    ensures
        spec_reason_code_from(reason_code_value(t)) == Ok::<ReasonCode, Error>(t),
{
}

impl ReasonCode {
    /// Maps a wire byte to its reason code; a byte outside the domain fails
    /// with `GenerateError`.
    pub fn from_u8(value: u8) -> (r: Result<Self, Error>)
        ensures
            r == spec_reason_code_from(value),
    {
        match value {
            0x00u8 => Ok(ReasonCode::SUCCESS),
            0x01u8 => Ok(ReasonCode::GRANTED_QOS_1),
            0x02u8 => Ok(ReasonCode::GRANTED_QOS_2),
            0x04u8 => Ok(ReasonCode::DISCONNECT_WITH_WILL_MESSAGE),
            0x10u8 => Ok(ReasonCode::NO_MATCHING_SUBSCRIBERS),
            0x11u8 => Ok(ReasonCode::NO_SUBSCRIPTION_EXISTED),
            0x18u8 => Ok(ReasonCode::CONTINUE_AUTHENTICATION),
            0x19u8 => Ok(ReasonCode::RE_AUTHENTICATE),
            0x80u8 => Ok(ReasonCode::UNSPECIFIED_ERROR),
            0x81u8 => Ok(ReasonCode::MALFORMED_PACKET),
            0x82u8 => Ok(ReasonCode::PROTOCOL_ERROR),
            0x83u8 => Ok(ReasonCode::IMPLEMENTATION_SPECIFIC_ERROR),
            0x84u8 => Ok(ReasonCode::UNSUPPORTED_PROTOCOL_VERSION),
            0x85u8 => Ok(ReasonCode::CLIENT_IDENTIFIER_NOT_VALID),
            0x86u8 => Ok(ReasonCode::BAD_USER_NAME_OR_PASSWORD),
            0x87u8 => Ok(ReasonCode::NOT_AUTHORIZED),
            0x88u8 => Ok(ReasonCode::SERVER_UNAVAILABLE),
            0x89u8 => Ok(ReasonCode::SERVER_BUSY),
            0x8Au8 => Ok(ReasonCode::BANNED),
            0x8Bu8 => Ok(ReasonCode::SERVER_SHUTTING_DOWN),
            0x8Cu8 => Ok(ReasonCode::BAD_AUTHENTICATION_METHOD),
            0x8Du8 => Ok(ReasonCode::KEEP_ALIVE_TIMEOUT),
            0x8Eu8 => Ok(ReasonCode::SESSION_TAKEN_OVER),
            0x8Fu8 => Ok(ReasonCode::TOPIC_FILTER_INVALID),
            0x90u8 => Ok(ReasonCode::TOPIC_NAME_INVALID),
            0x91u8 => Ok(ReasonCode::PACKET_IDENTIFIER_IN_USE),
            0x92u8 => Ok(ReasonCode::PACKET_IDENTIFIER_NOT_FOUND),
            0x93u8 => Ok(ReasonCode::RECEIVE_MAXIMUM_EXCEEDED),
            0x94u8 => Ok(ReasonCode::TOPIC_ALIAS_INVALID),
            0x95u8 => Ok(ReasonCode::PACKET_TOO_LARGE),
            0x96u8 => Ok(ReasonCode::MESSAGE_RATE_TOO_HIGH),
            0x97u8 => Ok(ReasonCode::QUOTA_EXCEEDED),
            0x98u8 => Ok(ReasonCode::ADMINISTRATIVE_ACTION),
            0x99u8 => Ok(ReasonCode::PAYLOAD_FORMAT_INVALID),
            0x9Au8 => Ok(ReasonCode::RETAIN_NOT_SUPPORTED),
            0x9Bu8 => Ok(ReasonCode::QOS_NOT_SUPPORTED),
            0x9Cu8 => Ok(ReasonCode::USE_ANOTHER_SERVER),
            0x9Du8 => Ok(ReasonCode::SERVER_MOVED),
            0x9Eu8 => Ok(ReasonCode::SHARED_SUBSCRIPTIONS_NOT_SUPPORTED),
            0x9Fu8 => Ok(ReasonCode::CONNECTION_RATE_EXCEEDED),
            0xA0u8 => Ok(ReasonCode::MAXIMUM_CONNECT_TIME),
            0xA1u8 => Ok(ReasonCode::SUBSCRIPTION_IDENTIFIERS_NOT_SUPPORTED),
            0xA2u8 => Ok(ReasonCode::WILDCARD_SUBSCRIPTIONS_NOT_SUPPORTED),
            _ => Err(Error::GenerateError),
        }
    }

    /// Reads a reason code out of a decoded `Byte` primitive. Any other
    /// primitive is the wrong wire shape and fails with `ParseError`; an
    /// unmapped byte fails with `GenerateError`.
    pub fn new(byte: DataType) -> (r: Result<Self, Error>)
        ensures
            r == spec_reason_code_new(byte),
    {
        if let DataType::Byte(value) = byte {
            Self::from_u8(value)
        } else {
            Err(Error::ParseError)
        }
    }

    /// The reason code's wire byte; total, never an error.
    pub fn to_u8(self) -> (r: Result<u8, Error>)
        ensures
            r == Ok::<u8, Error>(reason_code_value(self)),
    {
        match self {
            ReasonCode::SUCCESS => Ok(0x00),
            ReasonCode::GRANTED_QOS_1 => Ok(0x01),
            ReasonCode::GRANTED_QOS_2 => Ok(0x02),
            ReasonCode::DISCONNECT_WITH_WILL_MESSAGE => Ok(0x04),
            ReasonCode::NO_MATCHING_SUBSCRIBERS => Ok(0x10),
            ReasonCode::NO_SUBSCRIPTION_EXISTED => Ok(0x11),
            ReasonCode::CONTINUE_AUTHENTICATION => Ok(0x18),
            ReasonCode::RE_AUTHENTICATE => Ok(0x19),
            ReasonCode::UNSPECIFIED_ERROR => Ok(0x80),
            ReasonCode::MALFORMED_PACKET => Ok(0x81),
            ReasonCode::PROTOCOL_ERROR => Ok(0x82),
            ReasonCode::IMPLEMENTATION_SPECIFIC_ERROR => Ok(0x83),
            ReasonCode::UNSUPPORTED_PROTOCOL_VERSION => Ok(0x84),
            ReasonCode::CLIENT_IDENTIFIER_NOT_VALID => Ok(0x85),
            ReasonCode::BAD_USER_NAME_OR_PASSWORD => Ok(0x86),
            ReasonCode::NOT_AUTHORIZED => Ok(0x87),
            ReasonCode::SERVER_UNAVAILABLE => Ok(0x88),
            ReasonCode::SERVER_BUSY => Ok(0x89),
            ReasonCode::BANNED => Ok(0x8A),
            ReasonCode::SERVER_SHUTTING_DOWN => Ok(0x8B),
            ReasonCode::BAD_AUTHENTICATION_METHOD => Ok(0x8C),
            ReasonCode::KEEP_ALIVE_TIMEOUT => Ok(0x8D),
            ReasonCode::SESSION_TAKEN_OVER => Ok(0x8E),
            ReasonCode::TOPIC_FILTER_INVALID => Ok(0x8F),
            ReasonCode::TOPIC_NAME_INVALID => Ok(0x90),
            ReasonCode::PACKET_IDENTIFIER_IN_USE => Ok(0x91),
            ReasonCode::PACKET_IDENTIFIER_NOT_FOUND => Ok(0x92),
            ReasonCode::RECEIVE_MAXIMUM_EXCEEDED => Ok(0x93),
            ReasonCode::TOPIC_ALIAS_INVALID => Ok(0x94),
            ReasonCode::PACKET_TOO_LARGE => Ok(0x95),
            ReasonCode::MESSAGE_RATE_TOO_HIGH => Ok(0x96),
            ReasonCode::QUOTA_EXCEEDED => Ok(0x97),
            ReasonCode::ADMINISTRATIVE_ACTION => Ok(0x98),
            ReasonCode::PAYLOAD_FORMAT_INVALID => Ok(0x99),
            ReasonCode::RETAIN_NOT_SUPPORTED => Ok(0x9A),
            ReasonCode::QOS_NOT_SUPPORTED => Ok(0x9B),
            ReasonCode::USE_ANOTHER_SERVER => Ok(0x9C),
            ReasonCode::SERVER_MOVED => Ok(0x9D),
            ReasonCode::SHARED_SUBSCRIPTIONS_NOT_SUPPORTED => Ok(0x9E),
            ReasonCode::CONNECTION_RATE_EXCEEDED => Ok(0x9F),
            ReasonCode::MAXIMUM_CONNECT_TIME => Ok(0xA0),
            ReasonCode::SUBSCRIPTION_IDENTIFIERS_NOT_SUPPORTED => Ok(0xA1),
            ReasonCode::WILDCARD_SUBSCRIPTIONS_NOT_SUPPORTED => Ok(0xA2),
        }
    }
}

} // verus!

use crate::error::Error;
use crate::reader::ByteReader;
use vstd::prelude::*;
use vstd::string::StrSliceExecFns;
use vstd::utf8::{decode_utf8, encode_utf8, valid_utf8};

verus! {

/// Largest value a variable byte integer can carry (four 7-bit groups).
pub const VARIABLE_BYTE_MAX: u32 = 268435455;

/// Largest payload of a length-prefixed string or binary field.
pub const PAYLOAD_MAX: usize = 65535;

/// A decoded variable byte integer, tagged by the number of bytes its value
/// occupies on the wire. The tag follows from the numeric range alone: a
/// decoder never chooses it, which keeps the wire form minimal.
#[derive(Debug, PartialEq, Eq, Structural, Clone, Copy)]
pub enum VariableByte {
    One(u8),
    Two(u16),
    Three(u32),
    Four(u32),
}

/// The seven primitive data types of the MQTT v5 wire format.
#[derive(Debug)]
pub enum DataType {
    Byte(u8),
    TwoByteInteger(u16),
    FourByteInteger(u32),
    VariableByteInteger(VariableByte),
    Utf8EncodedString(String),
    BinaryData(Vec<u8>),
    Utf8StringPair(String, String),
}

/// Mathematical value of a `DataType`: strings become their character
/// sequences, binary data its byte sequence. Contracts and laws are stated
/// over this type.
pub enum DataTypeModel {
    Byte(u8),
    TwoByteInteger(u16),
    FourByteInteger(u32),
    VariableByteInteger(VariableByte),
    Utf8EncodedString(Seq<char>),
    BinaryData(Seq<u8>),
    Utf8StringPair(Seq<char>, Seq<char>),
}

impl View for DataType {
    type V = DataTypeModel;

    open spec fn view(&self) -> DataTypeModel {
        match self {
            DataType::Byte(v) => DataTypeModel::Byte(*v),
            DataType::TwoByteInteger(v) => DataTypeModel::TwoByteInteger(*v),
            DataType::FourByteInteger(v) => DataTypeModel::FourByteInteger(*v),
            DataType::VariableByteInteger(v) => DataTypeModel::VariableByteInteger(*v),
            DataType::Utf8EncodedString(s) => DataTypeModel::Utf8EncodedString(s@),
            DataType::BinaryData(b) => DataTypeModel::BinaryData(b@),
            DataType::Utf8StringPair(a, b) => DataTypeModel::Utf8StringPair(a@, b@),
        }
    }
}

/// The wire shape of a primitive value: which of the seven parsers applies.
#[derive(Debug, PartialEq, Eq, Structural, Clone, Copy)]
pub enum Shape {
    Byte,
    TwoByteInteger,
    FourByteInteger,
    VariableByteInteger,
    Utf8EncodedString,
    BinaryData,
    Utf8StringPair,
}

pub open spec fn shape_of(v: DataTypeModel) -> Shape {
    match v {
        DataTypeModel::Byte(_) => Shape::Byte,
        DataTypeModel::TwoByteInteger(_) => Shape::TwoByteInteger,
        DataTypeModel::FourByteInteger(_) => Shape::FourByteInteger,
        DataTypeModel::VariableByteInteger(_) => Shape::VariableByteInteger,
        DataTypeModel::Utf8EncodedString(_) => Shape::Utf8EncodedString,
        DataTypeModel::BinaryData(_) => Shape::BinaryData,
        DataTypeModel::Utf8StringPair(_, _) => Shape::Utf8StringPair,
    }
}

/// Numeric value carried by a variable byte integer, whatever its tag.
pub open spec fn vb_value(v: VariableByte) -> u32 {
    match v {
        VariableByte::One(n) => n as u32,
        VariableByte::Two(n) => n as u32,
        VariableByte::Three(n) => n,
        VariableByte::Four(n) => n,
    }
}

/// The tag matches the value's range: the form a decoder produces.
pub open spec fn vb_canonical(v: VariableByte) -> bool {
    match v {
        VariableByte::One(n) => n <= 127,
        VariableByte::Two(n) => 128 <= n <= 16383,
        VariableByte::Three(n) => 16384 <= n <= 2097151,
        VariableByte::Four(n) => 2097152 <= n <= VARIABLE_BYTE_MAX,
    }
}

/// Smallest tag for a numeric value: how a decoder classifies it.
pub open spec fn vb_classify(n: u32) -> VariableByte {
    if n <= 127 {
        VariableByte::One(n as u8)
    } else if n <= 16383 {
        VariableByte::Two(n as u16)
    } else if n <= 2097151 {
        VariableByte::Three(n)
    } else {
        VariableByte::Four(n)
    }
}

/// Byte-sequence equality, element by element.
fn vec_u8_eq(a: &Vec<u8>, b: &Vec<u8>) -> (r: bool)
    ensures
        r == (a@ == b@),
{
    if a.len() != b.len() {
        return false;
    }
    let mut i: usize = 0;
    while i < a.len()
        invariant
            i <= a.len(),
            a@.len() == b@.len(),
            forall|j: int| 0 <= j < i ==> a@[j] == b@[j],
        decreases a.len() - i,
    {
        if a[i] != b[i] {
            return false;
        }
        i = i + 1;
    }
    proof {
        assert(a@ =~= b@);
    }
    true
}

impl PartialEq for DataType {
    /// Two values are equal when they carry the same variant with the same
    /// contents; strings compare by their characters.
    fn eq(&self, other: &Self) -> (r: bool) {
        match (self, other) {
            (DataType::Byte(a), DataType::Byte(b)) => a == b,
            (DataType::TwoByteInteger(a), DataType::TwoByteInteger(b)) => a == b,
            (DataType::FourByteInteger(a), DataType::FourByteInteger(b)) => a == b,
            (DataType::VariableByteInteger(a), DataType::VariableByteInteger(b)) => a == b,
            (DataType::Utf8EncodedString(a), DataType::Utf8EncodedString(b)) => a.eq(b),
            (DataType::BinaryData(a), DataType::BinaryData(b)) => vec_u8_eq(a, b),
            (DataType::Utf8StringPair(a1, a2), DataType::Utf8StringPair(b1, b2)) => a1.eq(b1)
                && a2.eq(b2),
            _ => false,
        }
    }
}

impl vstd::std_specs::cmp::PartialEqSpecImpl for DataType {
    open spec fn obeys_eq_spec() -> bool {
        true
    }

    open spec fn eq_spec(&self, other: &Self) -> bool {
        self@ == other@
    }
}

impl From<DataType> for u16 {
    /// The numeric value of a `TwoByteInteger`; any other variant gives 0.
    fn from(t: DataType) -> (r: u16) {
        if let DataType::TwoByteInteger(value) = t {
            value
        } else {
            0
        }
    }
}

impl vstd::std_specs::convert::FromSpecImpl<DataType> for u16 {
    open spec fn obeys_from_spec() -> bool {
        true
    }

    open spec fn from_spec(t: DataType) -> Self {
        match t {
            DataType::TwoByteInteger(value) => value,
            _ => 0,
        }
    }
}

// ---------------------------------------------------------------------------
// Wire form, specified
// ---------------------------------------------------------------------------

/// Two bytes, big-endian.
pub open spec fn be16_bytes(n: u16) -> Seq<u8> {
    seq![(n >> 8) as u8, (n & 0xFF) as u8]
}

/// Four bytes, big-endian.
pub open spec fn be32_bytes(n: u32) -> Seq<u8> {
    seq![(n >> 24) as u8, ((n >> 16) & 0xFF) as u8, ((n >> 8) & 0xFF) as u8, (n & 0xFF) as u8]
}

/// Radix-128 groups, least significant first, continuation bit on all but
/// the last: the minimal variable byte integer encoding of `n`.
pub open spec fn vbi_bytes(n: u32) -> Seq<u8>
    decreases n,
{
    if n < 128 {
        seq![n as u8]
    } else {
        seq![((n % 128) | 128) as u8] + vbi_bytes(n / 128)
    }
}

/// A two-byte big-endian length followed by the payload itself.
pub open spec fn len_prefixed(payload: Seq<u8>) -> Seq<u8> {
    be16_bytes(payload.len() as u16) + payload
}

/// Whether a value fits the wire format's hard limits: variable byte
/// integers up to `VARIABLE_BYTE_MAX`, payloads up to `PAYLOAD_MAX` bytes.
pub open spec fn spec_encodable(v: DataTypeModel) -> bool {
    match v {
        DataTypeModel::Byte(_) => true,
        DataTypeModel::TwoByteInteger(_) => true,
        DataTypeModel::FourByteInteger(_) => true,
        DataTypeModel::VariableByteInteger(vb) => vb_value(vb) <= VARIABLE_BYTE_MAX,
        DataTypeModel::Utf8EncodedString(s) => encode_utf8(s).len() <= PAYLOAD_MAX,
        DataTypeModel::BinaryData(b) => b.len() <= PAYLOAD_MAX,
        DataTypeModel::Utf8StringPair(a, b) => encode_utf8(a).len() <= PAYLOAD_MAX
            && encode_utf8(b).len() <= PAYLOAD_MAX,
    }
}

/// The exact byte sequence a value takes on the wire (meaningful when
/// `spec_encodable` holds).
pub open spec fn spec_encode(v: DataTypeModel) -> Seq<u8> {
    match v {
        DataTypeModel::Byte(n) => seq![n],
        DataTypeModel::TwoByteInteger(n) => be16_bytes(n),
        DataTypeModel::FourByteInteger(n) => be32_bytes(n),
        DataTypeModel::VariableByteInteger(vb) => vbi_bytes(vb_value(vb)),
        DataTypeModel::Utf8EncodedString(s) => len_prefixed(encode_utf8(s)),
        DataTypeModel::BinaryData(b) => len_prefixed(b),
        DataTypeModel::Utf8StringPair(a, b) => len_prefixed(encode_utf8(a)) + len_prefixed(
            encode_utf8(b),
        ),
    }
}

// ---------------------------------------------------------------------------
// Parsing, specified: each function reads at position `i` of `s` and yields
// the value together with the number of bytes consumed, or nothing when the
// bytes there do not form the type.
// ---------------------------------------------------------------------------

pub open spec fn spec_parse_u16(s: Seq<u8>, i: nat) -> Option<(u16, nat)> {
    if i + 2 <= s.len() {
        Some((((s[i as int] as u16) << 8 | (s[i as int + 1] as u16)), 2))
    } else {
        None
    }
}

pub open spec fn spec_parse_u32(s: Seq<u8>, i: nat) -> Option<(u32, nat)> {
    if i + 4 <= s.len() {
        Some(
            (
                ((s[i as int] as u32) << 24 | (s[i as int + 1] as u32) << 16 | (s[i as int + 2]
                    as u32) << 8 | (s[i as int + 3] as u32)),
                4,
            ),
        )
    } else {
        None
    }
}

/// One step per wire byte: `acc` and `mult` accumulate the radix-128 groups,
/// `k` counts the bytes taken; a fifth byte is never read.
pub open spec fn spec_parse_vbi_rec(s: Seq<u8>, i: nat, k: nat, mult: nat, acc: nat) -> Option<
    (nat, nat),
>
    decreases 4 - k,
{
    if k >= 4 {
        None
    } else if i >= s.len() {
        None
    } else {
        let b = s[i as int];
        let acc2 = (acc + (b & 127) as nat * mult) as nat;
        if b & 128 == 0 {
            Some((acc2, (k + 1) as nat))
        } else {
            spec_parse_vbi_rec(s, i + 1, (k + 1) as nat, mult * 128, acc2)
        }
    }
}

pub open spec fn spec_parse_vbi(s: Seq<u8>, i: nat) -> Option<(VariableByte, nat)> {
    match spec_parse_vbi_rec(s, i, 0, 1, 0) {
        Some((n, count)) => Some((vb_classify(n as u32), count)),
        None => None,
    }
}

/// A two-byte length followed by exactly that many payload bytes.
pub open spec fn spec_parse_len_prefixed(s: Seq<u8>, i: nat) -> Option<(Seq<u8>, nat)> {
    match spec_parse_u16(s, i) {
        Some((len, _)) => if i + 2 + len <= s.len() {
            Some((s.subrange(i as int + 2, i as int + 2 + len), (2 + len) as nat))
        } else {
            None
        },
        None => None,
    }
}

/// A length-prefixed payload that is valid UTF-8, decoded to characters.
pub open spec fn spec_parse_string(s: Seq<u8>, i: nat) -> Option<(Seq<char>, nat)> {
    match spec_parse_len_prefixed(s, i) {
        Some((payload, count)) => if valid_utf8(payload) {
            Some((decode_utf8(payload), count))
        } else {
            None
        },
        None => None,
    }
}

/// Dispatch on the wire shape; the entry point the property codec uses.
pub open spec fn spec_parse_data(shape: Shape, s: Seq<u8>, i: nat) -> Option<(DataTypeModel, nat)> {
    match shape {
        Shape::Byte => if i + 1 <= s.len() {
            Some((DataTypeModel::Byte(s[i as int]), 1))
        } else {
            None
        },
        Shape::TwoByteInteger => match spec_parse_u16(s, i) {
            Some((n, c)) => Some((DataTypeModel::TwoByteInteger(n), c)),
            None => None,
        },
        Shape::FourByteInteger => match spec_parse_u32(s, i) {
            Some((n, c)) => Some((DataTypeModel::FourByteInteger(n), c)),
            None => None,
        },
        Shape::VariableByteInteger => match spec_parse_vbi(s, i) {
            Some((vb, c)) => Some((DataTypeModel::VariableByteInteger(vb), c)),
            None => None,
        },
        Shape::Utf8EncodedString => match spec_parse_string(s, i) {
            Some((chars, c)) => Some((DataTypeModel::Utf8EncodedString(chars), c)),
            None => None,
        },
        Shape::BinaryData => match spec_parse_len_prefixed(s, i) {
            Some((payload, c)) => Some((DataTypeModel::BinaryData(payload), c)),
            None => None,
        },
        Shape::Utf8StringPair => match spec_parse_string(s, i) {
            Some((first, c1)) => match spec_parse_string(s, i + c1) {
                Some((second, c2)) => Some(
                    (DataTypeModel::Utf8StringPair(first, second), (c1 + c2) as nat),
                ),
                None => None,
            },
            None => None,
        },
    }
}

impl DataType {
    /// Reads one byte and wraps it as `Byte`.
    pub fn parse_byte(reader: &mut ByteReader) -> (r: Result<Self, Error>)
        requires
            old(reader).wf(),
        ensures
            final(reader).wf(),
            final(reader).bytes() == old(reader).bytes(),
            final(reader).pos() >= old(reader).pos(),
            match r {
                Ok(dt) => spec_parse_data(Shape::Byte, old(reader).bytes(), old(reader).pos())
                    matches Some((v, n)) && dt@ == v && final(reader).pos() == old(reader).pos()
                    + n,
                Err(e) => e == Error::ParseError && spec_parse_data(
                    Shape::Byte,
                    old(reader).bytes(),
                    old(reader).pos(),
                ) is None,
            },
    {
        match reader.read_u8() {
            Ok(b) => Ok(DataType::Byte(b)),
            Err(e) => Err(e),
        }
    }

    /// Reads two bytes, big-endian, and wraps them as `TwoByteInteger`.
    pub fn parse_two_byte_int(reader: &mut ByteReader) -> (r: Result<Self, Error>)
        requires
            old(reader).wf(),
        ensures
            final(reader).wf(),
            final(reader).bytes() == old(reader).bytes(),
            final(reader).pos() >= old(reader).pos(),
            match r {
                Ok(dt) => spec_parse_data(
                    Shape::TwoByteInteger,
                    old(reader).bytes(),
                    old(reader).pos(),
                ) matches Some((v, n)) && dt@ == v && final(reader).pos() == old(reader).pos()
                    + n,
                Err(e) => e == Error::ParseError && spec_parse_data(
                    Shape::TwoByteInteger,
                    old(reader).bytes(),
                    old(reader).pos(),
                ) is None,
            },
    {
        let buf = match reader.read_bytes(2) {
            Ok(b) => b,
            Err(e) => {
                return Err(e);
            },
        };
        let value: u16 = ((buf[0] as u16) << 8) | (buf[1] as u16);
        Ok(DataType::TwoByteInteger(value))
    }

    /// Reads four bytes, big-endian, and wraps them as `FourByteInteger`.
    pub fn parse_four_byte_int(reader: &mut ByteReader) -> (r: Result<Self, Error>)
        requires
            old(reader).wf(),
        ensures
            final(reader).wf(),
            final(reader).bytes() == old(reader).bytes(),
            final(reader).pos() >= old(reader).pos(),
            match r {
                Ok(dt) => spec_parse_data(
                    Shape::FourByteInteger,
                    old(reader).bytes(),
                    old(reader).pos(),
                ) matches Some((v, n)) && dt@ == v && final(reader).pos() == old(reader).pos()
                    + n,
                Err(e) => e == Error::ParseError && spec_parse_data(
                    Shape::FourByteInteger,
                    old(reader).bytes(),
                    old(reader).pos(),
                ) is None,
            },
    {
        let buf = match reader.read_bytes(4) {
            Ok(b) => b,
            Err(e) => {
                return Err(e);
            },
        };
        let value: u32 = ((buf[0] as u32) << 24) | ((buf[1] as u32) << 16) | ((buf[2] as u32) << 8)
            | (buf[3] as u32);
        Ok(DataType::FourByteInteger(value))
    }

    /// Reads a variable byte integer: 7-bit groups, least significant first,
    /// until a byte without the continuation bit; a fifth byte is a
    /// `ParseError`. The result is tagged by the value's range.
    pub fn parse_variable_byte_int(reader: &mut ByteReader) -> (r: Result<Self, Error>)
        requires
            old(reader).wf(),
        ensures
            final(reader).wf(),
            final(reader).bytes() == old(reader).bytes(),
            final(reader).pos() >= old(reader).pos(),
            match r {
                Ok(dt) => spec_parse_data(
                    Shape::VariableByteInteger,
                    old(reader).bytes(),
                    old(reader).pos(),
                ) matches Some((v, n)) && dt@ == v && final(reader).pos() == old(reader).pos()
                    + n,
                Err(e) => e == Error::ParseError && spec_parse_data(
                    Shape::VariableByteInteger,
                    old(reader).bytes(),
                    old(reader).pos(),
                ) is None,
            },
    {
        let mut multiplier: u32 = 1;
        let mut value: u32 = 0;
        let mut count: usize = 0;
        loop
            invariant_except_break
                count == 0 ==> multiplier == 1,
                count == 1 ==> multiplier == 128,
                count == 2 ==> multiplier == 16384,
                count == 3 ==> multiplier == 2097152,
                count == 4 ==> multiplier == 268435456,
                value < multiplier,
                spec_parse_vbi_rec(old(reader).bytes(), old(reader).pos(), 0, 1, 0)
                    == spec_parse_vbi_rec(
                    old(reader).bytes(),
                    (old(reader).pos() + count) as nat,
                    count as nat,
                    multiplier as nat,
                    value as nat,
                ),
            invariant
                reader.wf(),
                reader.bytes() == old(reader).bytes(),
                reader.pos() == old(reader).pos() + count,
                count <= 4,
            ensures
                spec_parse_vbi_rec(old(reader).bytes(), old(reader).pos(), 0, 1, 0) == Some(
                    (value as nat, count as nat),
                ),
                value <= VARIABLE_BYTE_MAX,
            decreases 5 - count,
        {
            if count == 4 {
                return Err(Error::ParseError);
            }
            let b = match reader.read_u8() {
                Ok(b) => b,
                Err(_) => {
                    return Err(Error::ParseError);
                },
            };
            proof {
                assert(b & 0x7F <= 127) by (bit_vector);
            }
            value = value + ((b & 0x7F) as u32) * multiplier;
            count = count + 1;
            if b & 0x80 == 0 {
                break ;
            }
            if count < 4 {
                multiplier = multiplier * 128;
            } else {
                multiplier = 268435456;
            }
        }
        let vb = if value <= 127 {
            VariableByte::One(value as u8)
        } else if value <= 16383 {
            VariableByte::Two(value as u16)
        } else if value <= 2097151 {
            VariableByte::Three(value)
        } else {
            VariableByte::Four(value)
        };
        Ok(DataType::VariableByteInteger(vb))
    }
}

impl DataType {
    /// Reads a two-byte length and then exactly that many bytes, which must
    /// be valid UTF-8.
    fn parse_string(reader: &mut ByteReader) -> (r: Result<String, Error>)
        requires
            old(reader).wf(),
        ensures
            final(reader).wf(),
            final(reader).bytes() == old(reader).bytes(),
            final(reader).pos() >= old(reader).pos(),
            match r {
                Ok(s) => spec_parse_string(old(reader).bytes(), old(reader).pos())
                    matches Some((chars, n)) && s@ == chars && final(reader).pos() == old(
                    reader,
                ).pos() + n,
                Err(e) => e == Error::ParseError && spec_parse_string(
                    old(reader).bytes(),
                    old(reader).pos(),
                ) is None,
            },
    {
        let payload = match Self::parse_len_prefixed(reader) {
            Ok(p) => p,
            Err(e) => {
                return Err(e);
            },
        };
        string_from_utf8(payload)
    }

    /// Reads a two-byte length and then exactly that many payload bytes.
    fn parse_len_prefixed(reader: &mut ByteReader) -> (r: Result<Vec<u8>, Error>)
        requires
            old(reader).wf(),
        ensures
            final(reader).wf(),
            final(reader).bytes() == old(reader).bytes(),
            final(reader).pos() >= old(reader).pos(),
            match r {
                Ok(payload) => spec_parse_len_prefixed(old(reader).bytes(), old(reader).pos())
                    matches Some((p, n)) && payload@ == p && final(reader).pos() == old(
                    reader,
                ).pos() + n,
                Err(e) => e == Error::ParseError && spec_parse_len_prefixed(
                    old(reader).bytes(),
                    old(reader).pos(),
                ) is None,
            },
    {
        let buf = match reader.read_bytes(2) {
            Ok(b) => b,
            Err(e) => {
                return Err(e);
            },
        };
        let length: u16 = ((buf[0] as u16) << 8) | (buf[1] as u16);
        reader.read_bytes(length as usize)
    }

    /// Reads a length-prefixed UTF-8 string and wraps it as
    /// `Utf8EncodedString`.
    pub fn parse_utf8_string(reader: &mut ByteReader) -> (r: Result<Self, Error>)
        requires
            old(reader).wf(),
        ensures
            final(reader).wf(),
            final(reader).bytes() == old(reader).bytes(),
            final(reader).pos() >= old(reader).pos(),
            match r {
                Ok(dt) => spec_parse_data(
                    Shape::Utf8EncodedString,
                    old(reader).bytes(),
                    old(reader).pos(),
                ) matches Some((v, n)) && dt@ == v && final(reader).pos() == old(reader).pos()
                    + n,
                Err(e) => e == Error::ParseError && spec_parse_data(
                    Shape::Utf8EncodedString,
                    old(reader).bytes(),
                    old(reader).pos(),
                ) is None,
            },
    {
        match Self::parse_string(reader) {
            Ok(s) => Ok(DataType::Utf8EncodedString(s)),
            Err(e) => Err(e),
        }
    }

    /// Reads a length-prefixed payload and wraps it as `BinaryData`.
    pub fn parse_binary_data(reader: &mut ByteReader) -> (r: Result<Self, Error>)
        requires
            old(reader).wf(),
        ensures
            final(reader).wf(),
            final(reader).bytes() == old(reader).bytes(),
            final(reader).pos() >= old(reader).pos(),
            match r {
                Ok(dt) => spec_parse_data(
                    Shape::BinaryData,
                    old(reader).bytes(),
                    old(reader).pos(),
                ) matches Some((v, n)) && dt@ == v && final(reader).pos() == old(reader).pos()
                    + n,
                Err(e) => e == Error::ParseError && spec_parse_data(
                    Shape::BinaryData,
                    old(reader).bytes(),
                    old(reader).pos(),
                ) is None,
            },
    {
        match Self::parse_len_prefixed(reader) {
            Ok(payload) => Ok(DataType::BinaryData(payload)),
            Err(e) => Err(e),
        }
    }

    /// Reads two length-prefixed UTF-8 strings and wraps them as
    /// `Utf8StringPair`: the name first, the value second.
    pub fn parse_utf8_string_pair(reader: &mut ByteReader) -> (r: Result<Self, Error>)
        requires
            old(reader).wf(),
        ensures
            final(reader).wf(),
            final(reader).bytes() == old(reader).bytes(),
            final(reader).pos() >= old(reader).pos(),
            match r {
                Ok(dt) => spec_parse_data(
                    Shape::Utf8StringPair,
                    old(reader).bytes(),
                    old(reader).pos(),
                ) matches Some((v, n)) && dt@ == v && final(reader).pos() == old(reader).pos()
                    + n,
                Err(e) => e == Error::ParseError && spec_parse_data(
                    Shape::Utf8StringPair,
                    old(reader).bytes(),
                    old(reader).pos(),
                ) is None,
            },
    {
        let str_one = match Self::parse_string(reader) {
            Ok(s) => s,
            Err(e) => {
                return Err(e);
            },
        };
        let str_two = match Self::parse_string(reader) {
            Ok(s) => s,
            Err(e) => {
                return Err(e);
            },
        };
        Ok(DataType::Utf8StringPair(str_one, str_two))
    }
}

impl DataType {
    /// Prefixes a payload with its two-byte big-endian length; payloads over
    /// `PAYLOAD_MAX` bytes cannot be represented and fail with
    /// `GenerateError`, never truncated.
    pub(crate) fn calculate_length(data: &Vec<u8>) -> (r: Result<Vec<u8>, Error>)
        ensures
            match r {
                Ok(out) => data@.len() <= PAYLOAD_MAX && out@ == len_prefixed(data@),
                Err(e) => e == Error::GenerateError && data@.len() > PAYLOAD_MAX,
            },
    {
        if data.len() > PAYLOAD_MAX {
            return Err(Error::GenerateError);
        }
        let length = data.len() as u16;
        let mut out: Vec<u8> = Vec::new();
        out.push((length >> 8) as u8);
        out.push((length & 0xFF) as u8);
        let mut i: usize = 0;
        while i < data.len()
            invariant
                i <= data.len(),
                data@.len() <= PAYLOAD_MAX,
                length == data@.len() as u16,
                out@ == be16_bytes(length) + data@.subrange(0, i as int),
            decreases data.len() - i,
        {
            out.push(data[i]);
            i = i + 1;
            proof {
                assert(out@ =~= be16_bytes(length) + data@.subrange(0, i as int));
            }
        }
        proof {
            assert(out@ =~= len_prefixed(data@));
        }
        Ok(out)
    }

    /// Expands a value into radix-128 groups, least significant first, the
    /// continuation bit set on all but the last; values over
    /// `VARIABLE_BYTE_MAX` fail with `GenerateError`.
    fn encode_variable_byte(data: &VariableByte) -> (r: Result<Vec<u8>, Error>)
        ensures
            match r {
                Ok(out) => vb_value(*data) <= VARIABLE_BYTE_MAX && out@ == vbi_bytes(
                    vb_value(*data),
                ),
                Err(e) => e == Error::GenerateError && vb_value(*data) > VARIABLE_BYTE_MAX,
            },
    {
        let mut number: u32 = match data {
            VariableByte::One(value) => *value as u32,
            VariableByte::Two(value) => *value as u32,
            VariableByte::Three(value) => *value,
            VariableByte::Four(value) => *value,
        };
        if number > VARIABLE_BYTE_MAX {
            return Err(Error::GenerateError);
        }
        let mut bytes: Vec<u8> = Vec::new();
        loop
            invariant_except_break
                bytes@ + vbi_bytes(number) == vbi_bytes(vb_value(*data)),
            ensures
                bytes@ == vbi_bytes(vb_value(*data)),
            decreases number,
        {
            let encoded_byte: u8 = (number % 128) as u8;
            number = number / 128;
            if number > 0 {
                bytes.push(encoded_byte | 128);
                proof {
                    assert(bytes@ + vbi_bytes(number) =~= vbi_bytes(vb_value(*data)));
                }
            } else {
                bytes.push(encoded_byte);
                proof {
                    assert(bytes@ =~= vbi_bytes(vb_value(*data)));
                }
                break ;
            }
        }
        Ok(bytes)
    }

    /// Encodes the value into its exact wire form, or fails with
    /// `GenerateError` when the value breaks a hard limit of the format.
    pub fn into_bytes(&self) -> (r: Result<Vec<u8>, Error>)
        ensures
            match r {
                Ok(out) => spec_encodable(self@) && out@ == spec_encode(self@),
                Err(e) => e == Error::GenerateError && !spec_encodable(self@),
            },
    {
        match self {
            DataType::Byte(value) => {
                let mut out: Vec<u8> = Vec::new();
                out.push(*value);
                proof {
                    assert(out@ =~= spec_encode(self@));
                }
                Ok(out)
            },
            DataType::TwoByteInteger(value) => {
                let mut out: Vec<u8> = Vec::new();
                out.push((*value >> 8) as u8);
                out.push((*value & 0xFF) as u8);
                proof {
                    assert(out@ =~= spec_encode(self@));
                }
                Ok(out)
            },
            DataType::FourByteInteger(value) => {
                let mut out: Vec<u8> = Vec::new();
                out.push((*value >> 24) as u8);
                out.push(((*value >> 16) & 0xFF) as u8);
                out.push(((*value >> 8) & 0xFF) as u8);
                out.push((*value & 0xFF) as u8);
                proof {
                    assert(out@ =~= spec_encode(self@));
                }
                Ok(out)
            },
            DataType::VariableByteInteger(value) => Self::encode_variable_byte(value),
            DataType::Utf8EncodedString(value) => Self::calculate_length(
                &value.as_str().as_bytes_vec(),
            ),
            DataType::BinaryData(value) => Self::calculate_length(value),
            DataType::Utf8StringPair(one, two) => {
                let mut out = match Self::calculate_length(&one.as_str().as_bytes_vec()) {
                    Ok(v) => v,
                    Err(e) => {
                        return Err(e);
                    },
                };
                let second = match Self::calculate_length(&two.as_str().as_bytes_vec()) {
                    Ok(v) => v,
                    Err(e) => {
                        return Err(e);
                    },
                };
                let mut i: usize = 0;
                while i < second.len()
                    invariant
                        i <= second.len(),
                        out@ == len_prefixed(encode_utf8(one@)) + second@.subrange(0, i as int),
                        second@ == len_prefixed(encode_utf8(two@)),
                    decreases second.len() - i,
                {
                    out.push(second[i]);
                    i = i + 1;
                    proof {
                        assert(out@ =~= len_prefixed(encode_utf8(one@)) + second@.subrange(
                            0,
                            i as int,
                        ));
                    }
                }
                proof {
                    assert(out@ =~= spec_encode(self@));
                }
                Ok(out)
            },
        }
    }

    /// The number of bytes the value takes on the wire; fails with
    /// `GenerateError` exactly where `into_bytes` does.
    pub fn byte_len(&self) -> (r: Result<usize, Error>)
        ensures
            match r {
                Ok(n) => spec_encodable(self@) && n == spec_encode(self@).len(),
                Err(e) => e == Error::GenerateError && !spec_encodable(self@),
            },
    {
        match self.into_bytes() {
            Ok(bytes) => Ok(bytes.len()),
            Err(e) => Err(e),
        }
    }
}

// ---------------------------------------------------------------------------
// Round trip: decoding the encoding of an in-range value gives it back
// ---------------------------------------------------------------------------

/// Classification picks the tag the value's range dictates and never
/// changes the value: a decoder's tag is determined by the number alone.
pub proof fn lemma_classify_canonical(n: u32)
    requires
        n <= VARIABLE_BYTE_MAX,
    ensures
        vb_canonical(vb_classify(n)),
        vb_value(vb_classify(n)) == n,
{
}

/// A value the wire format represents exactly: it fits the hard limits, and
/// a variable byte integer carries the tag its value's range dictates.
pub open spec fn spec_in_range(v: DataTypeModel) -> bool {
    &&& spec_encodable(v)
    &&& match v {
        DataTypeModel::VariableByteInteger(vb) => vb_canonical(vb),
        _ => true,
    }
}

pub(crate) proof fn lemma_parse_u16_of_be16(n: u16, buf: Seq<u8>, i: nat)
    requires
        i + 2 <= buf.len(),
        buf.subrange(i as int, i as int + 2) == be16_bytes(n),
    ensures
        spec_parse_u16(buf, i) == Some((n, 2nat)),
{
    assert(buf[i as int] == be16_bytes(n)[0]);
    assert(buf[i as int + 1] == be16_bytes(n)[1]);
    let b0 = (n >> 8) as u8;
    let b1 = (n & 0xFF) as u8;
    assert((b0 as u16) << 8 | (b1 as u16) == n) by (bit_vector)
        requires
            b0 == (n >> 8) as u8,
            b1 == (n & 0xFF) as u8,
    ;
}

proof fn lemma_parse_u32_of_be32(n: u32, buf: Seq<u8>, i: nat)
    requires
        i + 4 <= buf.len(),
        buf.subrange(i as int, i as int + 4) == be32_bytes(n),
    ensures
        spec_parse_u32(buf, i) == Some((n, 4nat)),
{
    assert(buf[i as int] == be32_bytes(n)[0]);
    assert(buf[i as int + 1] == be32_bytes(n)[1]);
    assert(buf[i as int + 2] == be32_bytes(n)[2]);
    assert(buf[i as int + 3] == be32_bytes(n)[3]);
    let b0 = (n >> 24) as u8;
    let b1 = ((n >> 16) & 0xFF) as u8;
    let b2 = ((n >> 8) & 0xFF) as u8;
    let b3 = (n & 0xFF) as u8;
    assert((b0 as u32) << 24 | (b1 as u32) << 16 | (b2 as u32) << 8 | (b3 as u32) == n)
        by (bit_vector)
        requires
            b0 == (n >> 24) as u8,
            b1 == ((n >> 16) & 0xFF) as u8,
            b2 == ((n >> 8) & 0xFF) as u8,
            b3 == (n & 0xFF) as u8,
    ;
}

/// The minimal encoding takes one byte per 7-bit group: exactly the byte
/// count the value's range dictates.
pub proof fn lemma_vbi_bytes_len(n: u32)
    requires
        n <= VARIABLE_BYTE_MAX,
    ensures
        vbi_bytes(n).len() == if n <= 127 {
            1int
        } else if n <= 16383 {
            2int
        } else if n <= 2097151 {
            3int
        } else {
            4int
        },
    decreases n,
{
    if n < 128 {
    } else {
        lemma_vbi_bytes_len(n / 128);
    }
}

proof fn lemma_parse_vbi_rec_of_bytes(n: u32, buf: Seq<u8>, i: nat, k: nat, mult: nat, acc: nat)
    requires
        k + vbi_bytes(n).len() <= 4,
        i + vbi_bytes(n).len() <= buf.len(),
        buf.subrange(i as int, i + vbi_bytes(n).len() as int) == vbi_bytes(n),
    ensures
        spec_parse_vbi_rec(buf, i, k, mult, acc) == Some(
            ((acc + n * mult) as nat, (k + vbi_bytes(n).len()) as nat),
        ),
    decreases n,
{
    if n < 128 {
        let b = n as u8;
        assert(buf[i as int] == vbi_bytes(n)[0]);
        assert(b & 128 == 0 && b & 127 == b) by (bit_vector)
            requires
                b < 128,
        ;
    } else {
        let x = (n % 128) as u8;
        let b = x | 128;
        assert(buf[i as int] == vbi_bytes(n)[0]);
        assert(b & 128 != 0 && b & 127 == x) by (bit_vector)
            requires
                x < 128,
                b == x | 128,
        ;
        let tail = vbi_bytes(n / 128);
        assert(vbi_bytes(n).len() == 1 + tail.len());
        assert forall|j: int| 0 <= j < tail.len() implies buf[i as int + 1 + j] == tail[j] by {
            assert(vbi_bytes(n)[1 + j] == tail[j]);
            assert(buf.subrange(i as int, i + vbi_bytes(n).len() as int)[1 + j] == buf[i as int
                + 1 + j]);
        }
        assert(buf.subrange(i as int + 1, i + 1 + tail.len() as int) =~= tail);
        lemma_parse_vbi_rec_of_bytes(
            n / 128,
            buf,
            (i + 1) as nat,
            (k + 1) as nat,
            mult * 128,
            (acc + (n % 128) * mult) as nat,
        );
        assert(n == 128 * (n / 128) + n % 128) by {
            vstd::arithmetic::div_mod::lemma_fundamental_div_mod(n as int, 128);
        }
        assert(acc + (n % 128) * mult + (n / 128) * (mult * 128) == acc + n * mult)
            by (nonlinear_arith)
            requires
                n == 128 * (n / 128) + n % 128,
        ;
    }
}

proof fn lemma_parse_len_prefixed_at(payload: Seq<u8>, buf: Seq<u8>, i: nat)
    requires
        payload.len() <= PAYLOAD_MAX,
        i + 2 + payload.len() <= buf.len(),
        buf.subrange(i as int, i as int + 2 + payload.len()) == len_prefixed(payload),
    ensures
        spec_parse_len_prefixed(buf, i) == Some((payload, (2 + payload.len()) as nat)),
{
    let n = payload.len() as u16;
    assert forall|j: int| 0 <= j < 2 implies buf[i as int + j] == be16_bytes(n)[j] by {
        assert(buf.subrange(i as int, i as int + 2 + payload.len())[j] == buf[i as int + j]);
        assert(len_prefixed(payload)[j] == be16_bytes(n)[j]);
    }
    assert(buf.subrange(i as int, i as int + 2) =~= be16_bytes(n));
    lemma_parse_u16_of_be16(n, buf, i);
    assert forall|j: int| 0 <= j < payload.len() implies buf[i as int + 2 + j] == payload[j] by {
        assert(buf.subrange(i as int, i as int + 2 + payload.len())[2 + j] == buf[i as int + 2
            + j]);
        assert(len_prefixed(payload)[2 + j] == payload[j]);
    }
    assert(buf.subrange(i as int + 2, i as int + 2 + payload.len()) =~= payload);
}

proof fn lemma_parse_string_at(s: Seq<char>, buf: Seq<u8>, i: nat)
    requires
        encode_utf8(s).len() <= PAYLOAD_MAX,
        i + 2 + encode_utf8(s).len() <= buf.len(),
        buf.subrange(i as int, i as int + 2 + encode_utf8(s).len()) == len_prefixed(
            encode_utf8(s),
        ),
    ensures
        spec_parse_string(buf, i) == Some((s, (2 + encode_utf8(s).len()) as nat)),
{
    lemma_parse_len_prefixed_at(encode_utf8(s), buf, i);
    vstd::utf8::encode_utf8_valid_utf8(s);
    vstd::utf8::encode_utf8_decode_utf8(s);
}

/// Wherever a buffer holds the encoding of an in-range value, parsing there
/// yields the value back and consumes exactly the encoding's bytes.
pub(crate) proof fn lemma_parse_data_at(v: DataTypeModel, buf: Seq<u8>, i: nat)
    requires
        spec_in_range(v),
        i + spec_encode(v).len() <= buf.len(),
        buf.subrange(i as int, i + spec_encode(v).len() as int) == spec_encode(v),
    ensures
        spec_parse_data(shape_of(v), buf, i) == Some((v, spec_encode(v).len() as nat)),
{
    let enc = spec_encode(v);
    assert forall|j: int| 0 <= j < enc.len() implies buf[i + j] == enc[j] by {
        assert(buf.subrange(i as int, i + enc.len() as int)[j] == buf[i + j]);
    }
    match v {
        DataTypeModel::Byte(_) => {
            assert(buf.subrange(i as int, i + enc.len() as int)[0] == buf[i as int]);
        },
        DataTypeModel::TwoByteInteger(n) => {
            assert(buf.subrange(i as int, i as int + 2) =~= be16_bytes(n));
            lemma_parse_u16_of_be16(n, buf, i);
        },
        DataTypeModel::FourByteInteger(n) => {
            assert(buf.subrange(i as int, i as int + 4) =~= be32_bytes(n));
            lemma_parse_u32_of_be32(n, buf, i);
        },
        DataTypeModel::VariableByteInteger(vb) => {
            let n = vb_value(vb);
            lemma_vbi_bytes_len(n);
            lemma_parse_vbi_rec_of_bytes(n, buf, i, 0, 1, 0);
        },
        DataTypeModel::Utf8EncodedString(s) => {
            lemma_parse_string_at(s, buf, i);
        },
        DataTypeModel::BinaryData(b) => {
            lemma_parse_len_prefixed_at(b, buf, i);
        },
        DataTypeModel::Utf8StringPair(a, b) => {
            let ea = encode_utf8(a);
            let eb = encode_utf8(b);
            assert(buf.subrange(i as int, i + 2 + ea.len() as int) =~= len_prefixed(ea));
            lemma_parse_string_at(a, buf, i);
            let mid = i + 2 + ea.len();
            assert forall|j: int| 0 <= j < 2 + eb.len() implies buf[mid + j] == len_prefixed(
                eb,
            )[j] by {
                assert(buf[i + (2 + ea.len() + j)] == enc[2 + ea.len() + j]);
                assert(enc[2 + ea.len() + j] == len_prefixed(eb)[j]);
            }
            assert(buf.subrange(mid as int, mid + 2 + eb.len() as int) =~= len_prefixed(eb));
            lemma_parse_string_at(b, buf, (i + 2 + ea.len()) as nat);
        },
    }
}

/// Decoding the encoding of any in-range value yields the value back and
/// consumes exactly the encoding's bytes: the codec round-trips.
pub proof fn lemma_data_round_trip(v: DataTypeModel)
    requires
        spec_in_range(v),
    ensures
        spec_parse_data(shape_of(v), spec_encode(v), 0) == Some(
            (v, spec_encode(v).len() as nat),
        ),
{
    let buf = spec_encode(v);
    assert(buf.subrange(0, buf.len() as int) =~= buf);
    lemma_parse_data_at(v, buf, 0);
}

/// Every value a parse yields respects the wire format's hard limits and
/// carries the shape it was parsed as.
pub proof fn lemma_parse_data_encodable(shape: Shape, s: Seq<u8>, i: nat)
    ensures
        spec_parse_data(shape, s, i) matches Some((v, n)) ==> spec_encodable(v) && shape_of(v)
            == shape,
{
    match shape {
        Shape::VariableByteInteger => {
            lemma_vbi_rec_bound(s, i, 0, 1, 0);
        },
        Shape::Utf8EncodedString => {
            if spec_parse_string(s, i) is Some {
                let payload = spec_parse_len_prefixed(s, i)->Some_0.0;
                vstd::utf8::decode_utf8_encode_utf8(payload);
            }
        },
        Shape::Utf8StringPair => {
            if spec_parse_string(s, i) is Some {
                let payload = spec_parse_len_prefixed(s, i)->Some_0.0;
                vstd::utf8::decode_utf8_encode_utf8(payload);
                let c1 = spec_parse_string(s, i)->Some_0.1;
                if spec_parse_string(s, (i + c1) as nat) is Some {
                    let payload2 = spec_parse_len_prefixed(s, (i + c1) as nat)->Some_0.0;
                    vstd::utf8::decode_utf8_encode_utf8(payload2);
                }
            }
        },
        _ => {},
    }
}

/// A variable byte integer parse never yields a value over the four-byte
/// limit: each of the at most four 7-bit groups is bounded.
proof fn lemma_vbi_rec_bound(s: Seq<u8>, i: nat, k: nat, mult: nat, acc: nat)
    requires
        acc < mult,
        (k == 0 && mult == 1) || (k == 1 && mult == 128) || (k == 2 && mult == 16384) || (k == 3
            && mult == 2097152) || (k == 4 && mult == 268435456),
    ensures
        spec_parse_vbi_rec(s, i, k, mult, acc) matches Some((v, n)) ==> v <= VARIABLE_BYTE_MAX,
    decreases 4 - k,
{
    if k >= 4 {
    } else if i >= s.len() {
    } else {
        let b = s[i as int];
        assert(b & 127 <= 127) by (bit_vector);
        let acc2 = (acc + (b & 127) as nat * mult) as nat;
        assert(acc2 < mult * 128);
        if b & 128 == 0 {
        } else {
            lemma_vbi_rec_bound(s, (i + 1) as nat, (k + 1) as nat, mult * 128, acc2);
        }
    }
}

/// Relies on `String::from_utf8`: it yields the string whose UTF-8 encoding
/// the given bytes are, and fails exactly when they are not valid UTF-8.
#[verifier::external_body]
fn string_from_utf8(bytes: Vec<u8>) -> (r: Result<String, Error>)
    ensures
        match r {
            Ok(s) => valid_utf8(bytes@) && s@ == decode_utf8(bytes@),
            Err(e) => e == Error::ParseError && !valid_utf8(bytes@),
        },
{
    match String::from_utf8(bytes) {
        Ok(s) => Ok(s),
        Err(_) => Err(Error::ParseError),
    }
}

} // verus!

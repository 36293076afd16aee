use crate::data_type::{
    spec_encodable, spec_encode, spec_parse_data, spec_parse_u16, DataType, DataTypeModel, Shape,
};
use crate::error::Error;
use crate::reader::ByteReader;
use vstd::prelude::*;

verus! {

/// The 26 property identifiers of MQTT v5, each a one-byte wire code bound
/// to exactly one primitive wire shape.
#[derive(Debug, PartialEq, Eq, Structural, Hash, PartialOrd, Ord, Clone, Copy)]
pub enum PropertyIdentifier {
    PayloadFormatIndicator,
    MessageExpiryInterval,
    ContentType,
    ResponseTopic,
    CorrelationData,
    SubscriptionIdentifier,
    SessionExpiryInterval,
    AssignedClientIdentifier,
    ServerKeepAlive,
    AuthenticationMethod,
    AuthenticationData,
    RequestProblemInformation,
    WillDelayInterval,
    RequestResponseInformation,
    ResponseInformation,
    ServerReference,
    ReasonString,
    ReceiveMaximum,
    TopicAliasMaximum,
    TopicAlias,
    MaximumQos,
    RetainAvailable,
    UserProperty,
    MaximumPacketSize,
    WildcardSubscriptionAvailable,
    SubscriptionIdentifierAvailable,
    SharedSubscriptionAvailable,
}

/// Canonical wire code of each identifier: total and infallible.
pub open spec fn id_code(id: PropertyIdentifier) -> u8 {
    match id {
        PropertyIdentifier::PayloadFormatIndicator => 0x01,
        PropertyIdentifier::MessageExpiryInterval => 0x02,
        PropertyIdentifier::ContentType => 0x03,
        PropertyIdentifier::ResponseTopic => 0x08,
        PropertyIdentifier::CorrelationData => 0x09,
        PropertyIdentifier::SubscriptionIdentifier => 0x0b,
        PropertyIdentifier::SessionExpiryInterval => 0x11,
        PropertyIdentifier::AssignedClientIdentifier => 0x12,
        PropertyIdentifier::ServerKeepAlive => 0x13,
        PropertyIdentifier::AuthenticationMethod => 0x15,
        PropertyIdentifier::AuthenticationData => 0x16,
        PropertyIdentifier::RequestProblemInformation => 0x17,
        PropertyIdentifier::WillDelayInterval => 0x18,
        PropertyIdentifier::RequestResponseInformation => 0x19,
        PropertyIdentifier::ResponseInformation => 0x1a,
        PropertyIdentifier::ServerReference => 0x1c,
        PropertyIdentifier::ReasonString => 0x1f,
        PropertyIdentifier::ReceiveMaximum => 0x21,
        PropertyIdentifier::TopicAliasMaximum => 0x22,
        PropertyIdentifier::TopicAlias => 0x23,
        PropertyIdentifier::MaximumQos => 0x24,
        PropertyIdentifier::RetainAvailable => 0x25,
        PropertyIdentifier::UserProperty => 0x26,
        PropertyIdentifier::MaximumPacketSize => 0x27,
        PropertyIdentifier::WildcardSubscriptionAvailable => 0x28,
        PropertyIdentifier::SubscriptionIdentifierAvailable => 0x29,
        PropertyIdentifier::SharedSubscriptionAvailable => 0x2a,
    }
}

/// Code-to-identifier conversion: partial, failing with `GenerateError` on
/// any byte outside the table.
pub open spec fn spec_identifier_from(v: u8) -> Result<PropertyIdentifier, Error> {
    match v {
        0x01u8 => Ok(PropertyIdentifier::PayloadFormatIndicator),
        0x02u8 => Ok(PropertyIdentifier::MessageExpiryInterval),
        0x03u8 => Ok(PropertyIdentifier::ContentType),
        0x08u8 => Ok(PropertyIdentifier::ResponseTopic),
        0x09u8 => Ok(PropertyIdentifier::CorrelationData),
        0x0bu8 => Ok(PropertyIdentifier::SubscriptionIdentifier),
        0x11u8 => Ok(PropertyIdentifier::SessionExpiryInterval),
        0x12u8 => Ok(PropertyIdentifier::AssignedClientIdentifier),
        0x13u8 => Ok(PropertyIdentifier::ServerKeepAlive),
        0x15u8 => Ok(PropertyIdentifier::AuthenticationMethod),
        0x16u8 => Ok(PropertyIdentifier::AuthenticationData),
        0x17u8 => Ok(PropertyIdentifier::RequestProblemInformation),
        0x18u8 => Ok(PropertyIdentifier::WillDelayInterval),
        0x19u8 => Ok(PropertyIdentifier::RequestResponseInformation),
        0x1au8 => Ok(PropertyIdentifier::ResponseInformation),
        0x1cu8 => Ok(PropertyIdentifier::ServerReference),
        0x1fu8 => Ok(PropertyIdentifier::ReasonString),
        0x21u8 => Ok(PropertyIdentifier::ReceiveMaximum),
        0x22u8 => Ok(PropertyIdentifier::TopicAliasMaximum),
        0x23u8 => Ok(PropertyIdentifier::TopicAlias),
        0x24u8 => Ok(PropertyIdentifier::MaximumQos),
        0x25u8 => Ok(PropertyIdentifier::RetainAvailable),
        0x26u8 => Ok(PropertyIdentifier::UserProperty),
        0x27u8 => Ok(PropertyIdentifier::MaximumPacketSize),
        0x28u8 => Ok(PropertyIdentifier::WildcardSubscriptionAvailable),
        0x29u8 => Ok(PropertyIdentifier::SubscriptionIdentifierAvailable),
        0x2au8 => Ok(PropertyIdentifier::SharedSubscriptionAvailable),
        _ => Err(Error::GenerateError),
    }
}

/// The one wire shape each identifier's value takes; fixed by the
/// protocol and never negotiable.
pub open spec fn id_shape(id: PropertyIdentifier) -> Shape {
    match id {
        PropertyIdentifier::PayloadFormatIndicator => Shape::Byte,
        PropertyIdentifier::MessageExpiryInterval => Shape::FourByteInteger,
        PropertyIdentifier::ContentType => Shape::Utf8EncodedString,
        PropertyIdentifier::ResponseTopic => Shape::Utf8EncodedString,
        PropertyIdentifier::CorrelationData => Shape::BinaryData,
        PropertyIdentifier::SubscriptionIdentifier => Shape::VariableByteInteger,
        PropertyIdentifier::SessionExpiryInterval => Shape::FourByteInteger,
        PropertyIdentifier::AssignedClientIdentifier => Shape::Utf8EncodedString,
        PropertyIdentifier::ServerKeepAlive => Shape::TwoByteInteger,
        PropertyIdentifier::AuthenticationMethod => Shape::Utf8EncodedString,
        PropertyIdentifier::AuthenticationData => Shape::BinaryData,
        PropertyIdentifier::RequestProblemInformation => Shape::Byte,
        PropertyIdentifier::WillDelayInterval => Shape::FourByteInteger,
        PropertyIdentifier::RequestResponseInformation => Shape::Byte,
        PropertyIdentifier::ResponseInformation => Shape::Utf8EncodedString,
        PropertyIdentifier::ServerReference => Shape::Utf8EncodedString,
        PropertyIdentifier::ReasonString => Shape::Utf8EncodedString,
        PropertyIdentifier::ReceiveMaximum => Shape::TwoByteInteger,
        PropertyIdentifier::TopicAliasMaximum => Shape::TwoByteInteger,
        PropertyIdentifier::TopicAlias => Shape::TwoByteInteger,
        PropertyIdentifier::MaximumQos => Shape::Byte,
        PropertyIdentifier::RetainAvailable => Shape::Byte,
        PropertyIdentifier::UserProperty => Shape::Utf8StringPair,
        PropertyIdentifier::MaximumPacketSize => Shape::FourByteInteger,
        PropertyIdentifier::WildcardSubscriptionAvailable => Shape::Byte,
        PropertyIdentifier::SubscriptionIdentifierAvailable => Shape::Byte,
        PropertyIdentifier::SharedSubscriptionAvailable => Shape::Byte,
    }
}

/// Distinct identifiers never share a wire code.
pub proof fn lemma_id_code_injective(a: PropertyIdentifier, b: PropertyIdentifier)
    ensures
        id_code(a) == id_code(b) ==> a == b,
{
}

impl PropertyIdentifier {
    /// Maps a wire byte to its identifier; a byte outside the table fails
    /// with `GenerateError`.
    pub fn from_u8(value: u8) -> (r: Result<Self, Error>)
        ensures
            r == spec_identifier_from(value),
    {
        match value {
            0x01u8 => Ok(PropertyIdentifier::PayloadFormatIndicator),
            0x02u8 => Ok(PropertyIdentifier::MessageExpiryInterval),
            0x03u8 => Ok(PropertyIdentifier::ContentType),
            0x08u8 => Ok(PropertyIdentifier::ResponseTopic),
            0x09u8 => Ok(PropertyIdentifier::CorrelationData),
            0x0bu8 => Ok(PropertyIdentifier::SubscriptionIdentifier),
            0x11u8 => Ok(PropertyIdentifier::SessionExpiryInterval),
            0x12u8 => Ok(PropertyIdentifier::AssignedClientIdentifier),
            0x13u8 => Ok(PropertyIdentifier::ServerKeepAlive),
            0x15u8 => Ok(PropertyIdentifier::AuthenticationMethod),
            0x16u8 => Ok(PropertyIdentifier::AuthenticationData),
            0x17u8 => Ok(PropertyIdentifier::RequestProblemInformation),
            0x18u8 => Ok(PropertyIdentifier::WillDelayInterval),
            0x19u8 => Ok(PropertyIdentifier::RequestResponseInformation),
            0x1au8 => Ok(PropertyIdentifier::ResponseInformation),
            0x1cu8 => Ok(PropertyIdentifier::ServerReference),
            0x1fu8 => Ok(PropertyIdentifier::ReasonString),
            0x21u8 => Ok(PropertyIdentifier::ReceiveMaximum),
            0x22u8 => Ok(PropertyIdentifier::TopicAliasMaximum),
            0x23u8 => Ok(PropertyIdentifier::TopicAlias),
            0x24u8 => Ok(PropertyIdentifier::MaximumQos),
            0x25u8 => Ok(PropertyIdentifier::RetainAvailable),
            0x26u8 => Ok(PropertyIdentifier::UserProperty),
            0x27u8 => Ok(PropertyIdentifier::MaximumPacketSize),
            0x28u8 => Ok(PropertyIdentifier::WildcardSubscriptionAvailable),
            0x29u8 => Ok(PropertyIdentifier::SubscriptionIdentifierAvailable),
            0x2au8 => Ok(PropertyIdentifier::SharedSubscriptionAvailable),
            _ => Err(Error::GenerateError),
        }
    }
}

impl From<PropertyIdentifier> for u8 {
    /// The identifier's wire code; total, never an error.
    fn from(t: PropertyIdentifier) -> (r: u8) {
        match t {
            PropertyIdentifier::PayloadFormatIndicator => 0x01,
            PropertyIdentifier::MessageExpiryInterval => 0x02,
            PropertyIdentifier::ContentType => 0x03,
            PropertyIdentifier::ResponseTopic => 0x08,
            PropertyIdentifier::CorrelationData => 0x09,
            PropertyIdentifier::SubscriptionIdentifier => 0x0b,
            PropertyIdentifier::SessionExpiryInterval => 0x11,
            PropertyIdentifier::AssignedClientIdentifier => 0x12,
            PropertyIdentifier::ServerKeepAlive => 0x13,
            PropertyIdentifier::AuthenticationMethod => 0x15,
            PropertyIdentifier::AuthenticationData => 0x16,
            PropertyIdentifier::RequestProblemInformation => 0x17,
            PropertyIdentifier::WillDelayInterval => 0x18,
            PropertyIdentifier::RequestResponseInformation => 0x19,
            PropertyIdentifier::ResponseInformation => 0x1a,
            PropertyIdentifier::ServerReference => 0x1c,
            PropertyIdentifier::ReasonString => 0x1f,
            PropertyIdentifier::ReceiveMaximum => 0x21,
            PropertyIdentifier::TopicAliasMaximum => 0x22,
            PropertyIdentifier::TopicAlias => 0x23,
            PropertyIdentifier::MaximumQos => 0x24,
            PropertyIdentifier::RetainAvailable => 0x25,
            PropertyIdentifier::UserProperty => 0x26,
            PropertyIdentifier::MaximumPacketSize => 0x27,
            PropertyIdentifier::WildcardSubscriptionAvailable => 0x28,
            PropertyIdentifier::SubscriptionIdentifierAvailable => 0x29,
            PropertyIdentifier::SharedSubscriptionAvailable => 0x2a,
        }
    }
}

impl vstd::std_specs::convert::FromSpecImpl<PropertyIdentifier> for u8 {
    open spec fn obeys_from_spec() -> bool {
        true
    }

    open spec fn from_spec(t: PropertyIdentifier) -> Self {
        id_code(t)
    }
}

// ---------------------------------------------------------------------------
// The property set: an ordered mapping from identifier to value, keyed by
// the identifier's wire code, ascending
// ---------------------------------------------------------------------------

/// The mathematical content of a property set: its entries in wire order.
pub open spec fn entries_view(s: Seq<(PropertyIdentifier, DataType)>) -> Seq<
    (PropertyIdentifier, DataTypeModel),
> {
    s.map_values(|p: (PropertyIdentifier, DataType)| (p.0, p.1@))
}

/// Entries stand in strictly ascending wire-code order, one per identifier.
pub open spec fn entries_sorted(s: Seq<(PropertyIdentifier, DataTypeModel)>) -> bool {
    forall|i: int, j: int|
        0 <= i < j < s.len() ==> id_code(#[trigger] s[i].0) < id_code(#[trigger] s[j].0)
}

/// Inserts a value under its identifier, keeping the code order and
/// replacing any entry the identifier already has.
pub open spec fn spec_entries_insert(
    s: Seq<(PropertyIdentifier, DataTypeModel)>,
    id: PropertyIdentifier,
    v: DataTypeModel,
) -> Seq<(PropertyIdentifier, DataTypeModel)>
    decreases s.len(),
{
    if s.len() == 0 {
        seq![(id, v)]
    } else if id_code(id) < id_code(s[0].0) {
        seq![(id, v)] + s
    } else if id_code(id) == id_code(s[0].0) {
        seq![(id, v)] + s.drop_first()
    } else {
        seq![s[0]] + spec_entries_insert(s.drop_first(), id, v)
    }
}

/// The value stored under an identifier: the first entry that carries it.
pub open spec fn spec_entries_get(
    s: Seq<(PropertyIdentifier, DataTypeModel)>,
    id: PropertyIdentifier,
) -> Option<DataTypeModel>
    decreases s.len(),
{
    if s.len() == 0 {
        None
    } else if s[0].0 == id {
        Some(s[0].1)
    } else {
        spec_entries_get(s.drop_first(), id)
    }
}

/// Wire form of the entries: each identifier byte followed by its value's
/// encoding, in sequence order.
pub open spec fn spec_entries_bytes(s: Seq<(PropertyIdentifier, DataTypeModel)>) -> Seq<u8>
    decreases s.len(),
{
    if s.len() == 0 {
        Seq::empty()
    } else {
        seq![id_code(s[0].0)] + spec_encode(s[0].1) + spec_entries_bytes(s.drop_first())
    }
}

/// Whether a property set fits on the wire: every value within its limits
/// and the whole list within the two-byte length prefix.
pub open spec fn props_encodable(s: Seq<(PropertyIdentifier, DataTypeModel)>) -> bool {
    &&& forall|j: int| 0 <= j < s.len() ==> spec_encodable(#[trigger] s[j].1)
    &&& spec_entries_bytes(s).len() <= 65535
}

/// The full wire form of a property set: two-byte total length, then the
/// entries.
pub open spec fn spec_generate(s: Seq<(PropertyIdentifier, DataTypeModel)>) -> Seq<u8> {
    crate::data_type::len_prefixed(spec_entries_bytes(s))
}

/// What parsing a property list body yields, one entry per step: `remaining`
/// is the declared byte count still owed, `acc` the entries gathered so far.
/// An exhausted source or an undecodable value is a `ParseError`, an unknown
/// identifier byte a `GenerateError`, and an entry longer than what the
/// declared length still allows a `MalformdedPacket`.
pub open spec fn spec_parse_properties(
    s: Seq<u8>,
    i: nat,
    remaining: u16,
    acc: Seq<(PropertyIdentifier, DataTypeModel)>,
) -> Result<(Seq<(PropertyIdentifier, DataTypeModel)>, nat), Error>
    decreases remaining,
{
    if remaining == 0 {
        Ok((acc, i))
    } else if i >= s.len() {
        Err(Error::ParseError)
    } else {
        match spec_identifier_from(s[i as int]) {
            Err(e) => Err(e),
            Ok(id) => match spec_parse_data(id_shape(id), s, (i + 1) as nat) {
                None => Err(Error::ParseError),
                Some((v, consumed)) => {
                    let enc_len = spec_encode(v).len();
                    if enc_len > remaining - 1 {
                        Err(Error::MalformdedPacket)
                    } else {
                        spec_parse_properties(
                            s,
                            (i + 1 + consumed) as nat,
                            (remaining - 1 - enc_len) as u16,
                            spec_entries_insert(acc, id, v),
                        )
                    }
                },
            },
        }
    }
}

/// Where an insert lands: before the first entry whose code is not smaller,
/// replacing it when the codes are equal.
proof fn lemma_entries_insert_at(
    s: Seq<(PropertyIdentifier, DataTypeModel)>,
    id: PropertyIdentifier,
    v: DataTypeModel,
    i: int,
)
    requires
        0 <= i <= s.len(),
        forall|j: int| 0 <= j < i ==> id_code(#[trigger] s[j].0) < id_code(id),
        i < s.len() ==> id_code(s[i].0) >= id_code(id),
    ensures
        i < s.len() && id_code(s[i].0) == id_code(id) ==> spec_entries_insert(s, id, v)
            =~= s.subrange(0, i) + seq![(id, v)] + s.subrange(i + 1, s.len() as int),
        !(i < s.len() && id_code(s[i].0) == id_code(id)) ==> spec_entries_insert(s, id, v)
            =~= s.subrange(0, i) + seq![(id, v)] + s.subrange(i, s.len() as int),
    decreases s.len(),
{
    if s.len() == 0 {
    } else if i == 0 {
        if id_code(s[0].0) == id_code(id) {
            assert(s.drop_first() =~= s.subrange(1, s.len() as int));
        } else {
            assert(s =~= s.subrange(0, s.len() as int));
        }
    } else {
        let tail = s.drop_first();
        assert(forall|j: int|
            0 <= j < i - 1 ==> id_code(#[trigger] tail[j].0) < id_code(id));
        lemma_entries_insert_at(tail, id, v, i - 1);
        assert(tail.subrange(0, i - 1) =~= s.subrange(1, i));
        if i < s.len() && id_code(s[i].0) == id_code(id) {
            assert(tail.subrange(i, tail.len() as int) =~= s.subrange(i + 1, s.len() as int));
            assert(spec_entries_insert(s, id, v) =~= s.subrange(0, i) + seq![(id, v)]
                + s.subrange(i + 1, s.len() as int));
        } else {
            assert(tail.subrange(i - 1, tail.len() as int) =~= s.subrange(i, s.len() as int));
            assert(spec_entries_insert(s, id, v) =~= s.subrange(0, i) + seq![(id, v)]
                + s.subrange(i, s.len() as int));
        }
    }
}

/// Inserting preserves the strict code order.
proof fn lemma_entries_insert_sorted(
    s: Seq<(PropertyIdentifier, DataTypeModel)>,
    id: PropertyIdentifier,
    v: DataTypeModel,
)
    requires
        entries_sorted(s),
    ensures
        entries_sorted(spec_entries_insert(s, id, v)),
    decreases s.len(),
{
    if s.len() == 0 {
    } else if id_code(id) < id_code(s[0].0) {
    } else if id_code(id) == id_code(s[0].0) {
        assert(entries_sorted(s.drop_first()));
    } else {
        assert(entries_sorted(s.drop_first()));
        lemma_entries_insert_sorted(s.drop_first(), id, v);
        let t = spec_entries_insert(s.drop_first(), id, v);
        let r = spec_entries_insert(s, id, v);
        assert forall|a: int, b: int| 0 <= a < b < r.len() implies id_code(
            #[trigger] r[a].0,
        ) < id_code(#[trigger] r[b].0) by {
            if a == 0 {
                if b - 1 < t.len() {
                    lemma_entries_insert_head_bound(s.drop_first(), id, v, b - 1);
                }
            }
        }
    }
}

/// Every entry of an insert result carries either the inserted identifier's
/// code or a code already present.
proof fn lemma_entries_insert_head_bound(
    s: Seq<(PropertyIdentifier, DataTypeModel)>,
    id: PropertyIdentifier,
    v: DataTypeModel,
    j: int,
)
    requires
        0 <= j < spec_entries_insert(s, id, v).len(),
    ensures
        id_code(spec_entries_insert(s, id, v)[j].0) == id_code(id) || exists|k: int|
            0 <= k < s.len() && id_code(#[trigger] s[k].0) == id_code(
                spec_entries_insert(s, id, v)[j].0,
            ),
    decreases s.len(),
{
    if s.len() == 0 {
    } else if id_code(id) < id_code(s[0].0) {
        if j >= 1 {
            assert(spec_entries_insert(s, id, v)[j] == s[j - 1]);
        }
    } else if id_code(id) == id_code(s[0].0) {
        if j >= 1 {
            assert(spec_entries_insert(s, id, v)[j] == s.drop_first()[j - 1]);
            assert(s.drop_first()[j - 1] == s[j]);
        }
    } else {
        if j >= 1 {
            lemma_entries_insert_head_bound(s.drop_first(), id, v, j - 1);
            if id_code(spec_entries_insert(s.drop_first(), id, v)[j - 1].0) != id_code(id) {
                let k = choose|k: int|
                    0 <= k < s.drop_first().len() && id_code(
                        #[trigger] s.drop_first()[k].0,
                    ) == id_code(spec_entries_insert(s.drop_first(), id, v)[j - 1].0);
                assert(s.drop_first()[k] == s[k + 1]);
            }
        }
    }
}

/// An ordered mapping from property identifier to primitive value, keyed by
/// the identifier's wire code, ascending. Decoded from and encoded to the
/// property list that many control packets carry. A repeated identifier
/// keeps only the value inserted last.
#[derive(Debug)]
pub struct Property {
    values: Vec<(PropertyIdentifier, DataType)>,
}

impl View for Property {
    type V = Seq<(PropertyIdentifier, DataTypeModel)>;

    closed spec fn view(&self) -> Seq<(PropertyIdentifier, DataTypeModel)> {
        entries_view(self.values@)
    }
}

impl Property {
    /// A property set with no entries.
    pub fn empty() -> (r: Self)
        ensures
            r@ == Seq::<(PropertyIdentifier, DataTypeModel)>::empty(),
            entries_sorted(r@),
    {
        let r = Property { values: Vec::new() };
        proof {
            assert(r@ =~= Seq::<(PropertyIdentifier, DataTypeModel)>::empty());
        }
        r
    }

    /// Stores a value under an identifier, keeping ascending code order and
    /// replacing any value the identifier already had.
    pub fn insert(&mut self, identifier: PropertyIdentifier, value: DataType)
        ensures
            final(self)@ == spec_entries_insert(old(self)@, identifier, value@),
            entries_sorted(old(self)@) ==> entries_sorted(final(self)@),
    {
        let code = u8::from(identifier);
        let ghost old_view = entries_view(self.values@);
        let mut i: usize = 0;
        while i < self.values.len() && u8::from(self.values[i].0) < code
            invariant
                i <= self.values.len(),
                code == id_code(identifier),
                self.values@ == old(self).values@,
                forall|j: int|
                    0 <= j < i ==> id_code(#[trigger] self.values@[j].0) < id_code(identifier),
            decreases self.values.len() - i,
        {
            i = i + 1;
        }
        let replacing = i < self.values.len() && u8::from(self.values[i].0) == code;
        if replacing {
            self.values.remove(i);
        }
        self.values.insert(i, (identifier, value));
        proof {
            lemma_entries_insert_at(old_view, identifier, value@, i as int);
            if replacing {
                assert(entries_view(self.values@) =~= old_view.subrange(0, i as int) + seq![
                    (identifier, value@),
                ] + old_view.subrange(i as int + 1, old_view.len() as int));
            } else {
                assert(entries_view(self.values@) =~= old_view.subrange(0, i as int) + seq![
                    (identifier, value@),
                ] + old_view.subrange(i as int, old_view.len() as int));
            }
            if entries_sorted(old_view) {
                lemma_entries_insert_sorted(old_view, identifier, value@);
            }
        }
    }

    /// Looks up the value stored under an identifier.
    pub fn get(&self, identifier: PropertyIdentifier) -> (r: Option<&DataType>)
        ensures
            match r {
                Some(v) => spec_entries_get(self@, identifier) == Some(v@),
                None => spec_entries_get(self@, identifier) is None,
            },
    {
        proof {
            assert(self@.subrange(0, self@.len() as int) =~= self@);
        }
        let mut i: usize = 0;
        while i < self.values.len()
            invariant
                i <= self.values.len(),
                spec_entries_get(self@, identifier) == spec_entries_get(
                    self@.subrange(i as int, self@.len() as int),
                    identifier,
                ),
            decreases self.values.len() - i,
        {
            let pair = &self.values[i];
            proof {
                assert(self@.subrange(i as int, self@.len() as int)[0] == self@[i as int]);
            }
            if pair.0 == identifier {
                return Some(&pair.1);
            }
            proof {
                assert(self@.subrange(i as int, self@.len() as int).drop_first()
                    =~= self@.subrange(i as int + 1, self@.len() as int));
            }
            i = i + 1;
        }
        None
    }

    /// The entries in wire order, for iteration.
    pub fn entries(&self) -> (r: &Vec<(PropertyIdentifier, DataType)>)
        ensures
            entries_view(r@) == self@,
    {
        &self.values
    }
}

impl Property {
    /// Reads the one value a property identifier's fixed shape dictates.
    fn parse_type(identifier: PropertyIdentifier, reader: &mut ByteReader) -> (r: Result<
        DataType,
        Error,
    >)
        requires
            old(reader).wf(),
        ensures
            final(reader).wf(),
            final(reader).bytes() == old(reader).bytes(),
            final(reader).pos() >= old(reader).pos(),
            match r {
                Ok(dt) => spec_parse_data(
                    id_shape(identifier),
                    old(reader).bytes(),
                    old(reader).pos(),
                ) matches Some((v, n)) && dt@ == v && final(reader).pos() == old(reader).pos()
                    + n,
                Err(e) => e == Error::ParseError && spec_parse_data(
                    id_shape(identifier),
                    old(reader).bytes(),
                    old(reader).pos(),
                ) is None,
            },
    {
        match identifier {
            PropertyIdentifier::PayloadFormatIndicator
            | PropertyIdentifier::RequestProblemInformation
            | PropertyIdentifier::RequestResponseInformation
            | PropertyIdentifier::MaximumQos
            | PropertyIdentifier::RetainAvailable
            | PropertyIdentifier::WildcardSubscriptionAvailable
            | PropertyIdentifier::SubscriptionIdentifierAvailable
            | PropertyIdentifier::SharedSubscriptionAvailable => DataType::parse_byte(reader),
            PropertyIdentifier::ServerKeepAlive
            | PropertyIdentifier::ReceiveMaximum
            | PropertyIdentifier::TopicAliasMaximum
            | PropertyIdentifier::TopicAlias => DataType::parse_two_byte_int(reader),
            PropertyIdentifier::MessageExpiryInterval
            | PropertyIdentifier::SessionExpiryInterval
            | PropertyIdentifier::WillDelayInterval
            | PropertyIdentifier::MaximumPacketSize => DataType::parse_four_byte_int(reader),
            PropertyIdentifier::SubscriptionIdentifier => DataType::parse_variable_byte_int(
                reader,
            ),
            PropertyIdentifier::UserProperty => DataType::parse_utf8_string_pair(reader),
            PropertyIdentifier::CorrelationData
            | PropertyIdentifier::AuthenticationData => DataType::parse_binary_data(reader),
            PropertyIdentifier::ContentType
            | PropertyIdentifier::ResponseTopic
            | PropertyIdentifier::AssignedClientIdentifier
            | PropertyIdentifier::AuthenticationMethod
            | PropertyIdentifier::ResponseInformation
            | PropertyIdentifier::ServerReference
            | PropertyIdentifier::ReasonString => DataType::parse_utf8_string(reader),
        }
    }

    /// Parses a property list: a two-byte total length in bytes, then
    /// identifier and value pairs until the declared length is used up
    /// exactly. An entry whose encoded length exceeds what the declared
    /// length still allows is a `MalformdedPacket`; an unknown identifier
    /// byte is a `GenerateError`; a short source is a `ParseError`.
    pub fn new(reader: &mut ByteReader) -> (r: Result<Self, Error>)
        requires
            old(reader).wf(),
        ensures
            final(reader).wf(),
            final(reader).bytes() == old(reader).bytes(),
            final(reader).pos() >= old(reader).pos(),
            match r {
                Ok(p) => {
                    &&& spec_parse_u16(old(reader).bytes(), old(reader).pos()) matches Some(
                        (declared, _),
                    ) && spec_parse_properties(
                        old(reader).bytes(),
                        (old(reader).pos() + 2) as nat,
                        declared,
                        Seq::empty(),
                    ) matches Ok((entries, end)) && p@ == entries && final(reader).pos() == end
                    &&& entries_sorted(p@)
                },
                Err(e) => {
                    ||| (spec_parse_u16(old(reader).bytes(), old(reader).pos()) is None && e
                        == Error::ParseError)
                    ||| (spec_parse_u16(old(reader).bytes(), old(reader).pos()) matches Some(
                        (declared, _),
                    ) && spec_parse_properties(
                        old(reader).bytes(),
                        (old(reader).pos() + 2) as nat,
                        declared,
                        Seq::empty(),
                    ) == Err::<(Seq<(PropertyIdentifier, DataTypeModel)>, nat), Error>(e))
                },
            },
    {
        let length_value = match DataType::parse_two_byte_int(reader) {
            Ok(dt) => dt,
            Err(e) => {
                return Err(e);
            },
        };
        let ghost declared = spec_parse_u16(old(reader).bytes(), old(reader).pos())->Some_0.0;
        let mut length: u16 = u16::from(length_value);
        let mut properties = Property::empty();
        proof {
            assert(spec_parse_properties(
                old(reader).bytes(),
                (old(reader).pos() + 2) as nat,
                declared,
                Seq::empty(),
            ) == spec_parse_properties(
                old(reader).bytes(),
                reader.pos(),
                length,
                properties@,
            ));
        }
        while length > 0
            invariant
                reader.wf(),
                reader.bytes() == old(reader).bytes(),
                reader.pos() >= old(reader).pos(),
                entries_sorted(properties@),
                spec_parse_u16(old(reader).bytes(), old(reader).pos()) == Some::<(u16, nat)>(
                    (declared, 2nat),
                ),
                spec_parse_properties(
                    old(reader).bytes(),
                    (old(reader).pos() + 2) as nat,
                    declared,
                    Seq::empty(),
                ) == spec_parse_properties(
                    old(reader).bytes(),
                    reader.pos(),
                    length,
                    properties@,
                ),
            decreases length,
        {
            let ghost pos_at = reader.pos();
            let ghost len_at = length;
            let ghost acc_at = properties@;
            let identifier = match Self::parse_identifier(reader) {
                Ok(id) => id,
                Err(e) => {
                    proof {
                        assert(spec_parse_properties(
                            old(reader).bytes(),
                            pos_at,
                            len_at,
                            acc_at,
                        ) == Err::<(Seq<(PropertyIdentifier, DataTypeModel)>, nat), Error>(e));
                    }
                    return Err(e);
                },
            };
            length = length - 1;
            let data_type = match Self::parse_type(identifier, reader) {
                Ok(dt) => dt,
                Err(e) => {
                    proof {
                        assert(spec_parse_properties(
                            old(reader).bytes(),
                            pos_at,
                            len_at,
                            acc_at,
                        ) == Err::<(Seq<(PropertyIdentifier, DataTypeModel)>, nat), Error>(e));
                    }
                    return Err(e);
                },
            };
            let data_length = match data_type.byte_len() {
                Ok(n) => n,
                Err(e) => {
                    proof {
                        crate::data_type::lemma_parse_data_encodable(
                            id_shape(identifier),
                            old(reader).bytes(),
                            (pos_at + 1) as nat,
                        );
                        assert(false);
                    }
                    return Err(e);
                },
            };
            if data_length > length as usize {
                return Err(Error::MalformdedPacket);
            }
            length = length - data_length as u16;
            properties.insert(identifier, data_type);
        }
        Ok(properties)
    }

    /// Reads one identifier byte; a byte outside the table fails with
    /// `GenerateError`, a short source with `ParseError`.
    fn parse_identifier(reader: &mut ByteReader) -> (r: Result<PropertyIdentifier, Error>)
        requires
            old(reader).wf(),
        ensures
            final(reader).wf(),
            final(reader).bytes() == old(reader).bytes(),
            match r {
                Ok(id) => {
                    &&& old(reader).remaining() >= 1
                    &&& spec_identifier_from(
                        old(reader).bytes()[old(reader).pos() as int],
                    ) == Ok::<PropertyIdentifier, Error>(id)
                    &&& final(reader).pos() == old(reader).pos() + 1
                },
                Err(e) => {
                    ||| (old(reader).remaining() == 0 && e == Error::ParseError
                        && final(reader).pos() == old(reader).pos())
                    ||| (old(reader).remaining() >= 1 && spec_identifier_from(
                        old(reader).bytes()[old(reader).pos() as int],
                    ) == Err::<PropertyIdentifier, Error>(e)
                        && final(reader).pos() == old(reader).pos() + 1)
                },
            },
    {
        let byte = match reader.read_u8() {
            Ok(b) => b,
            Err(e) => {
                return Err(e);
            },
        };
        PropertyIdentifier::from_u8(byte)
    }
}

/// Appending an entry appends its identifier byte and encoding.
proof fn lemma_entries_bytes_snoc(
    s: Seq<(PropertyIdentifier, DataTypeModel)>,
    p: (PropertyIdentifier, DataTypeModel),
)
    ensures
        spec_entries_bytes(s.push(p)) == spec_entries_bytes(s) + seq![id_code(p.0)] + spec_encode(
            p.1,
        ),
    decreases s.len(),
{
    if s.len() == 0 {
        assert(s.push(p)[0] == p);
        assert(s.push(p).drop_first() =~= s);
        assert(spec_entries_bytes(s.push(p)) =~= spec_entries_bytes(s) + seq![id_code(p.0)]
            + spec_encode(p.1));
    } else {
        assert(s.push(p)[0] == s[0]);
        assert(s.push(p).drop_first() =~= s.drop_first().push(p));
        lemma_entries_bytes_snoc(s.drop_first(), p);
        assert(spec_entries_bytes(s.push(p)) =~= spec_entries_bytes(s) + seq![id_code(p.0)]
            + spec_encode(p.1));
    }
}

impl Property {
    /// Encodes the property set: each identifier byte followed by its
    /// value's wire form, in ascending code order, behind a two-byte total
    /// length. Fails with `GenerateError` when a value breaks a hard limit
    /// of the format or the total exceeds the length prefix's range.
    pub fn generate(&self) -> (r: Result<Vec<u8>, Error>)
        ensures
            match r {
                Ok(out) => props_encodable(self@) && out@ == spec_generate(self@),
                Err(e) => e == Error::GenerateError && !props_encodable(self@),
            },
    {
        let mut props: Vec<u8> = Vec::new();
        let mut i: usize = 0;
        proof {
            assert(self@.subrange(0, 0) =~= Seq::<(PropertyIdentifier, DataTypeModel)>::empty());
        }
        while i < self.values.len()
            invariant
                i <= self.values.len(),
                self@.len() == self.values@.len(),
                forall|j: int| 0 <= j < i ==> spec_encodable(#[trigger] self@[j].1),
                props@ == spec_entries_bytes(self@.subrange(0, i as int)),
            decreases self.values.len() - i,
        {
            let pair = &self.values[i];
            let mut value_bytes = match pair.1.into_bytes() {
                Ok(b) => b,
                Err(e) => {
                    proof {
                        assert(!spec_encodable(self@[i as int].1));
                    }
                    return Err(e);
                },
            };
            props.push(u8::from(pair.0));
            props.append(&mut value_bytes);
            proof {
                lemma_entries_bytes_snoc(self@.subrange(0, i as int), self@[i as int]);
                assert(self@.subrange(0, i as int + 1) =~= self@.subrange(0, i as int).push(
                    self@[i as int],
                ));
                assert(props@ =~= spec_entries_bytes(self@.subrange(0, i as int + 1)));
            }
            i = i + 1;
        }
        proof {
            assert(self@.subrange(0, self@.len() as int) =~= self@);
        }
        DataType::calculate_length(&props)
    }
}

/// The two conversions invert each other over the whole table.
pub proof fn lemma_identifier_code_round_trip(id: PropertyIdentifier)
    ensures
        spec_identifier_from(id_code(id)) == Ok::<PropertyIdentifier, Error>(id),
{
}

/// Values an identifier can carry on the wire: within the format's hard
/// limits, tagged canonically, and of the identifier's own shape.
pub open spec fn props_in_range(s: Seq<(PropertyIdentifier, DataTypeModel)>) -> bool {
    forall|j: int|
        0 <= j < s.len() ==> crate::data_type::spec_in_range(#[trigger] s[j].1)
            && crate::data_type::shape_of(s[j].1) == id_shape(s[j].0)
}

/// Wherever a buffer holds the wire form of some entries, parsing there
/// gathers exactly those entries after the ones already gathered, and
/// consumes all their bytes.
proof fn lemma_parse_entries_at(
    s: Seq<(PropertyIdentifier, DataTypeModel)>,
    buf: Seq<u8>,
    i: nat,
    acc: Seq<(PropertyIdentifier, DataTypeModel)>,
)
    requires
        entries_sorted(acc + s),
        props_in_range(s),
        spec_entries_bytes(s).len() <= 65535,
        i + spec_entries_bytes(s).len() <= buf.len(),
        buf.subrange(i as int, i + spec_entries_bytes(s).len() as int) == spec_entries_bytes(s),
    ensures
        spec_parse_properties(buf, i, spec_entries_bytes(s).len() as u16, acc) == Ok::<
            (Seq<(PropertyIdentifier, DataTypeModel)>, nat),
            Error,
        >((acc + s, (i + spec_entries_bytes(s).len()) as nat)),
    decreases s.len(),
{
    let eb = spec_entries_bytes(s);
    assert forall|j: int| 0 <= j < eb.len() implies buf[i + j] == eb[j] by {
        assert(buf.subrange(i as int, i + eb.len() as int)[j] == buf[i + j]);
    }
    if s.len() == 0 {
        assert(acc + s =~= acc);
    } else {
        let id = s[0].0;
        let v = s[0].1;
        let enc = spec_encode(v);
        let tail = s.drop_first();
        let tail_bytes = spec_entries_bytes(tail);
        assert(eb == seq![id_code(id)] + enc + tail_bytes);
        assert(buf[i as int] == eb[0]);
        assert(eb[0] == id_code(id));
        lemma_identifier_code_round_trip(id);
        assert(crate::data_type::spec_in_range(v) && crate::data_type::shape_of(v) == id_shape(
            id,
        ));
        assert forall|j: int| 0 <= j < enc.len() implies buf[i + 1 + j] == enc[j] by {
            assert(buf[i + (1 + j)] == eb[1 + j]);
            assert(eb[1 + j] == (seq![id_code(id)] + enc + tail_bytes)[1 + j]);
        }
        assert(buf.subrange(i + 1 as int, i + 1 + enc.len() as int) =~= enc);
        crate::data_type::lemma_parse_data_at(v, buf, (i + 1) as nat);
        // the inserted entry lands at the end of the gathered ones
        assert forall|j: int| 0 <= j < acc.len() implies id_code(#[trigger] acc[j].0) < id_code(
            id,
        ) by {
            assert((acc + s)[j] == acc[j]);
            assert((acc + s)[acc.len() as int] == s[0]);
        }
        lemma_entries_insert_at(acc, id, v, acc.len() as int);
        assert(spec_entries_insert(acc, id, v) =~= acc.push((id, v)));
        // the rest of the buffer holds the remaining entries
        assert forall|j: int| 0 <= j < tail_bytes.len() implies buf[i + 1 + enc.len() + j]
            == tail_bytes[j] by {
            assert(buf[i + (1 + enc.len() + j)] == eb[1 + enc.len() + j]);
            assert(eb[1 + enc.len() + j] == (seq![id_code(id)] + enc + tail_bytes)[1 + enc.len()
                + j]);
        }
        assert(buf.subrange(
            i + 1 + enc.len() as int,
            i + 1 + enc.len() + tail_bytes.len() as int,
        ) =~= tail_bytes);
        assert(acc.push((id, v)) + tail =~= acc + s);
        assert(props_in_range(tail)) by {
            assert(forall|j: int| 0 <= j < tail.len() ==> #[trigger] tail[j] == s[j + 1]);
        }
        lemma_parse_entries_at(tail, buf, (i + 1 + enc.len()) as nat, acc.push((id, v)));
    }
}

/// Parsing the generated wire form of a well-formed property set yields
/// exactly its entries and consumes the whole list: the property codec
/// round-trips, and `generate`'s ascending-code order makes its output the
/// one canonical form.
pub proof fn lemma_property_round_trip(s: Seq<(PropertyIdentifier, DataTypeModel)>)
    requires
        entries_sorted(s),
        props_in_range(s),
        spec_entries_bytes(s).len() <= 65535,
    ensures
        spec_parse_u16(spec_generate(s), 0) == Some::<(u16, nat)>(
            (spec_entries_bytes(s).len() as u16, 2),
        ),
        spec_parse_properties(
            spec_generate(s),
            2,
            spec_entries_bytes(s).len() as u16,
            Seq::empty(),
        ) == Ok::<(Seq<(PropertyIdentifier, DataTypeModel)>, nat), Error>(
            (s, spec_generate(s).len() as nat),
        ),
{
    let eb = spec_entries_bytes(s);
    let buf = spec_generate(s);
    let len = eb.len() as u16;
    assert(buf == crate::data_type::be16_bytes(len) + eb);
    assert(buf.subrange(0, 2) =~= crate::data_type::be16_bytes(len));
    crate::data_type::lemma_parse_u16_of_be16(len, buf, 0);
    assert(buf.subrange(2, 2 + eb.len() as int) =~= eb);
    assert(Seq::<(PropertyIdentifier, DataTypeModel)>::empty() + s =~= s);
    lemma_parse_entries_at(s, buf, 2, Seq::empty());
}

} // verus!

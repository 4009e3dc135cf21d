//! STUN binding requests and responses (RFC 3489): encoding, decoding and the
//! addresses they carry.
use vstd::prelude::*;
use crate::data_conversion::{
    as_u16_be, as_u64_be, be16, be64, lemma_u16_roundtrip, lemma_u64_roundtrip, put_u16, put_u64,
    u16_bytes, u64_bytes,
};
use crate::networking::{IpAddr, SocketAddr};

verus! {

/// The type of a STUN message.
#[derive(Debug, Clone, Copy, PartialEq, Eq, Structural)]
pub enum StunMessageType {
    BindingRequest,
    BindingResponse,
    BindingErrorResponse,
    Unexpected,
}

/// The two bytes of each message type.
pub open spec fn message_type_bytes(t: StunMessageType) -> Seq<u8> {
    match t {
        StunMessageType::BindingRequest => seq![0u8, 1u8],
        StunMessageType::BindingResponse => seq![1u8, 1u8],
        StunMessageType::BindingErrorResponse => seq![1u8, 0x11u8],
        StunMessageType::Unexpected => seq![0xffu8, 0xffu8],
    }
}

/// The message type a 16-bit value stands for.
pub open spec fn message_type_from(v: int) -> StunMessageType {
    if v == 0x0001 {
        StunMessageType::BindingRequest
    } else if v == 0x0101 {
        StunMessageType::BindingResponse
    } else if v == 0x0111 {
        StunMessageType::BindingErrorResponse
    } else {
        StunMessageType::Unexpected
    }
}

impl StunMessageType {
    /// The two bytes of this message type.
    pub fn bytes(&self) -> (r: [u8; 2])
        ensures
            r@ == message_type_bytes(*self),
    {
        let r = match self {
            StunMessageType::BindingRequest => [0, 1],
            StunMessageType::BindingResponse => [1, 1],
            StunMessageType::BindingErrorResponse => [1, 0x11],
            StunMessageType::Unexpected => [0xff, 0xff],
        };
        assert(r@ =~= message_type_bytes(*self));
        r
    }
}

/// The type of a STUN attribute.
#[derive(Debug, Clone, Copy, PartialEq, Eq, Structural)]
pub enum StunAttributeType {
    MappedAddress,
    ResponseAddress,
    ChangeRequest,
    SourceAddress,
    ChangedAddress,
    Username,
    Password,
    MessageIntegrity,
    ErrorCode,
    UnknownAttributes,
    ReflectedFrom,
    Unexpected,
}

/// The attribute type a 16-bit value stands for.
pub open spec fn attribute_type_from(v: int) -> StunAttributeType {
    if v == 1 {
        StunAttributeType::MappedAddress
    } else if v == 2 {
        StunAttributeType::ResponseAddress
    } else if v == 3 {
        StunAttributeType::ChangeRequest
    } else if v == 4 {
        StunAttributeType::SourceAddress
    } else if v == 5 {
        StunAttributeType::ChangedAddress
    } else if v == 6 {
        StunAttributeType::Username
    } else if v == 7 {
        StunAttributeType::Password
    } else if v == 8 {
        StunAttributeType::MessageIntegrity
    } else if v == 9 {
        StunAttributeType::ErrorCode
    } else if v == 10 {
        StunAttributeType::UnknownAttributes
    } else if v == 11 {
        StunAttributeType::ReflectedFrom
    } else {
        StunAttributeType::Unexpected
    }
}

/// The two bytes of each attribute type.
pub open spec fn attribute_type_bytes(t: StunAttributeType) -> Seq<u8> {
    match t {
        StunAttributeType::MappedAddress => seq![0u8, 1u8],
        StunAttributeType::ResponseAddress => seq![0u8, 2u8],
        StunAttributeType::ChangeRequest => seq![0u8, 3u8],
        StunAttributeType::SourceAddress => seq![0u8, 4u8],
        StunAttributeType::ChangedAddress => seq![0u8, 5u8],
        StunAttributeType::Username => seq![0u8, 6u8],
        StunAttributeType::Password => seq![0u8, 7u8],
        StunAttributeType::MessageIntegrity => seq![0u8, 8u8],
        StunAttributeType::ErrorCode => seq![0u8, 9u8],
        StunAttributeType::UnknownAttributes => seq![0u8, 0x0au8],
        StunAttributeType::ReflectedFrom => seq![0u8, 0x0bu8],
        StunAttributeType::Unexpected => seq![255u8, 255u8],
    }
}

/// The attribute type a 16-bit value stands for.
pub fn parse_attribute_type(typ_raw: u16) -> (r: StunAttributeType)
    ensures
        r == attribute_type_from(typ_raw as int),
{
    match typ_raw {
        0x0001 => StunAttributeType::MappedAddress,
        0x0002 => StunAttributeType::ResponseAddress,
        0x0003 => StunAttributeType::ChangeRequest,
        0x0004 => StunAttributeType::SourceAddress,
        0x0005 => StunAttributeType::ChangedAddress,
        0x0006 => StunAttributeType::Username,
        0x0007 => StunAttributeType::Password,
        0x0008 => StunAttributeType::MessageIntegrity,
        0x0009 => StunAttributeType::ErrorCode,
        0x000a => StunAttributeType::UnknownAttributes,
        0x000b => StunAttributeType::ReflectedFrom,
        _ => StunAttributeType::Unexpected,
    }
}

impl StunAttributeType {
    /// The two bytes of this attribute type.
    pub fn bytes(&self) -> (r: Vec<u8>)
        ensures
            r@ == attribute_type_bytes(*self),
    {
        let r = match self {
            StunAttributeType::MappedAddress => vec![0, 1],
            StunAttributeType::ResponseAddress => vec![0, 2],
            StunAttributeType::ChangeRequest => vec![0, 3],
            StunAttributeType::SourceAddress => vec![0, 4],
            StunAttributeType::ChangedAddress => vec![0, 5],
            StunAttributeType::Username => vec![0, 6],
            StunAttributeType::Password => vec![0, 7],
            StunAttributeType::MessageIntegrity => vec![0, 8],
            StunAttributeType::ErrorCode => vec![0, 0x09],
            StunAttributeType::UnknownAttributes => vec![0, 0x0a],
            StunAttributeType::ReflectedFrom => vec![0, 0x0b],
            StunAttributeType::Unexpected => vec![255, 255],
        };
        assert(r@ =~= attribute_type_bytes(*self));
        r
    }
}

/// An IPv4 address with a port, as an address attribute carries it.
#[derive(Debug, Clone, Copy, PartialEq, Eq)]
pub struct StunAddress {
    pub port: u16,
    pub address: [u8; 4],
}

/// What a `StunAddress` holds, with the address as its octets.
pub struct StunAddressView {
    pub port: u16,
    pub address: Seq<u8>,
}

impl View for StunAddress {
    type V = StunAddressView;

    open spec fn view(&self) -> StunAddressView {
        StunAddressView { port: self.port, address: self.address@ }
    }
}

/// The eight bytes of an address attribute: a zero byte, family 1, port, address.
pub open spec fn address_bytes(a: StunAddressView) -> Seq<u8> {
    seq![0u8, 1u8] + u16_bytes(a.port) + a.address
}

/// The address read from the bytes of an address attribute: the port from the
/// third and fourth byte, the octets from the next four.
pub open spec fn address_from(b: Seq<u8>) -> StunAddressView
    recommends
        b.len() >= 8,
{
    StunAddressView { port: be16(b[2], b[3]) as u16, address: b.subrange(4, 8) }
}

impl StunAddress {
    /// The eight bytes of this address.
    pub fn bytes(&self) -> (r: Vec<u8>)
        ensures
            r@ == address_bytes(self@),
    {
        let mut vector: Vec<u8> = Vec::with_capacity(8);
        vector.push(0);
        vector.push(1);
        put_u16(&mut vector, self.port);
        vector.push(self.address[0]);
        vector.push(self.address[1]);
        vector.push(self.address[2]);
        vector.push(self.address[3]);
        assert(vector@ =~= address_bytes(self@));
        vector
    }

    /// Reads an address from the bytes of an address attribute.
    pub fn parse(bytes: &[u8]) -> (r: Self)
        requires
            bytes@.len() >= 8,
        ensures
            r@ == address_from(bytes@),
    {
        let port = as_u16_be(&[bytes[2], bytes[3]]);
        let address = [bytes[4], bytes[5], bytes[6], bytes[7]];
        assert(address@ =~= bytes@.subrange(4, 8));
        StunAddress { port, address }
    }
}

/// Reading the bytes of an address gives the address back.
pub proof fn lemma_address_roundtrip(a: StunAddressView)
    requires
        a.address.len() == 4,
    ensures
        address_from(address_bytes(a)) == a,
{
    lemma_u16_roundtrip(a.port);
    assert(address_bytes(a).subrange(4, 8) =~= a.address);
}

/// What a CHANGE-REQUEST attribute asks the server to change.
#[derive(Debug, Clone, Copy, PartialEq, Eq, Structural)]
pub enum StunChangeRequest {
    ChangePort,
    ChangeIp,
    ChangeIpPort,
    Unexpected,
}

/// The four bytes of each change request.
pub open spec fn change_request_bytes(c: StunChangeRequest) -> Seq<u8> {
    match c {
        StunChangeRequest::ChangePort => seq![0u8, 0u8, 0u8, 2u8],
        StunChangeRequest::ChangeIp => seq![0u8, 0u8, 0u8, 4u8],
        StunChangeRequest::ChangeIpPort => seq![0u8, 0u8, 0u8, 6u8],
        StunChangeRequest::Unexpected => seq![255u8, 255u8, 255u8, 255u8],
    }
}

/// The change request that the flags byte stands for.
pub open spec fn change_request_from(b: u8) -> StunChangeRequest {
    if b == 2 {
        StunChangeRequest::ChangePort
    } else if b == 4 {
        StunChangeRequest::ChangeIp
    } else if b == 6 {
        StunChangeRequest::ChangeIpPort
    } else {
        StunChangeRequest::Unexpected
    }
}

impl StunChangeRequest {
    /// The four bytes of this change request.
    pub fn bytes(&self) -> (r: Vec<u8>)
        ensures
            r@ == change_request_bytes(*self),
    {
        let r = match self {
            StunChangeRequest::ChangePort => vec![0, 0, 0, 2],
            StunChangeRequest::ChangeIp => vec![0, 0, 0, 4],
            StunChangeRequest::ChangeIpPort => vec![0, 0, 0, 6],
            StunChangeRequest::Unexpected => vec![255, 255, 255, 255],
        };
        assert(r@ =~= change_request_bytes(*self));
        r
    }
}

/// The class of a STUN error code.
#[derive(Copy, Clone, Debug, PartialEq, Eq, Structural)]
pub enum StunErrorClass {
    Four,
    Five,
    Six,
    Unexpected,
}

/// The number of a STUN error code within its class.
#[derive(Copy, Clone, Debug, PartialEq, Eq, Structural)]
pub enum StunErrorNumber {
    Zero,
    One,
    Twenty,
    Thirty,
    ThirtyOne,
    ThirtyTwo,
    ThirtyThree,
    Unexpected,
}

/// The byte of each error class.
pub open spec fn error_class_byte(c: StunErrorClass) -> u8 {
    match c {
        StunErrorClass::Four => 4,
        StunErrorClass::Five => 5,
        StunErrorClass::Six => 6,
        StunErrorClass::Unexpected => 255,
    }
}

/// The error class a byte stands for.
pub open spec fn error_class_from(b: u8) -> StunErrorClass {
    if b == 4 {
        StunErrorClass::Four
    } else if b == 5 {
        StunErrorClass::Five
    } else if b == 6 {
        StunErrorClass::Six
    } else {
        StunErrorClass::Unexpected
    }
}

/// The byte of each error number.
pub open spec fn error_number_byte(n: StunErrorNumber) -> u8 {
    match n {
        StunErrorNumber::Zero => 0,
        StunErrorNumber::One => 1,
        StunErrorNumber::Twenty => 20,
        StunErrorNumber::Thirty => 30,
        StunErrorNumber::ThirtyOne => 31,
        StunErrorNumber::ThirtyTwo => 32,
        StunErrorNumber::ThirtyThree => 33,
        StunErrorNumber::Unexpected => 255,
    }
}

/// The error number a byte stands for.
pub open spec fn error_number_from(b: u8) -> StunErrorNumber {
    if b == 0 {
        StunErrorNumber::Zero
    } else if b == 1 {
        StunErrorNumber::One
    } else if b == 20 {
        StunErrorNumber::Twenty
    } else if b == 30 {
        StunErrorNumber::Thirty
    } else if b == 31 {
        StunErrorNumber::ThirtyOne
    } else if b == 32 {
        StunErrorNumber::ThirtyTwo
    } else if b == 33 {
        StunErrorNumber::ThirtyThree
    } else {
        StunErrorNumber::Unexpected
    }
}

impl StunErrorClass {
    /// The byte of this class.
    pub fn byte(&self) -> (r: u8)
        ensures
            r == error_class_byte(*self),
    {
        match self {
            StunErrorClass::Four => 4,
            StunErrorClass::Five => 5,
            StunErrorClass::Six => 6,
            StunErrorClass::Unexpected => 255,
        }
    }
}

impl StunErrorNumber {
    /// The byte of this number.
    pub fn byte(&self) -> (r: u8)
        ensures
            r == error_number_byte(*self),
    {
        match self {
            StunErrorNumber::Zero => 0,
            StunErrorNumber::One => 1,
            StunErrorNumber::Twenty => 20,
            StunErrorNumber::Thirty => 30,
            StunErrorNumber::ThirtyOne => 31,
            StunErrorNumber::ThirtyTwo => 32,
            StunErrorNumber::ThirtyThree => 33,
            StunErrorNumber::Unexpected => 255,
        }
    }
}

/// What a `StunErrorCode` holds.
pub struct StunErrorCodeView {
    pub class: StunErrorClass,
    pub number: StunErrorNumber,
    pub reason_phrase: Seq<u8>,
}

/// An ERROR-CODE attribute: class, number and reason phrase.
#[derive(Debug)]
pub struct StunErrorCode {
    pub class: StunErrorClass,
    pub number: StunErrorNumber,
    pub reason_phrase: Vec<u8>,
}

impl View for StunErrorCode {
    type V = StunErrorCodeView;

    open spec fn view(&self) -> StunErrorCodeView {
        StunErrorCodeView {
            class: self.class,
            number: self.number,
            reason_phrase: self.reason_phrase@,
        }
    }
}

/// The bytes of an error code: two zero bytes, class, number, reason phrase.
pub open spec fn error_code_bytes(e: StunErrorCodeView) -> Seq<u8> {
    seq![0u8, 0u8, error_class_byte(e.class), error_number_byte(e.number)] + e.reason_phrase
}

/// The error code read from the bytes of an ERROR-CODE attribute: class and number from
/// the third and fourth byte, and as reason phrase every byte after the first four.
pub open spec fn error_code_from(b: Seq<u8>) -> StunErrorCodeView
    recommends
        b.len() >= 4,
{
    StunErrorCodeView {
        class: error_class_from(b[2]),
        number: error_number_from(b[3]),
        reason_phrase: b.skip(4),
    }
}

impl StunErrorCode {
    /// The bytes of this error code.
    pub fn bytes(&self) -> (r: Vec<u8>)
        ensures
            r@ == error_code_bytes(self@),
    {
        let mut vector: Vec<u8> = Vec::with_capacity(4);
        vector.push(0);
        vector.push(0);
        vector.push(self.class.byte());
        vector.push(self.number.byte());
        let mut i: usize = 0;
        while i < self.reason_phrase.len()
            invariant
                i <= self.reason_phrase@.len(),
                vector@ == seq![0u8, 0u8, error_class_byte(self.class), error_number_byte(
                    self.number,
                )] + self.reason_phrase@.take(i as int),
            decreases self.reason_phrase.len() - i,
        {
            vector.push(self.reason_phrase[i]);
            i = i + 1;
            assert(vector@ =~= seq![0u8, 0u8, error_class_byte(self.class), error_number_byte(
                self.number,
            )] + self.reason_phrase@.take(i as int));
        }
        assert(self.reason_phrase@.take(i as int) =~= self.reason_phrase@);
        vector
    }

    /// Reads an error code from the bytes of an ERROR-CODE attribute.
    pub fn parse(bytes: Vec<u8>) -> (r: Self)
        requires
            bytes@.len() >= 4,
        ensures
            r@ == error_code_from(bytes@),
    {
        let class = match bytes[2] {
            4 => StunErrorClass::Four,
            5 => StunErrorClass::Five,
            6 => StunErrorClass::Six,
            _ => StunErrorClass::Unexpected,
        };
        let number = match bytes[3] {
            0 => StunErrorNumber::Zero,
            1 => StunErrorNumber::One,
            20 => StunErrorNumber::Twenty,
            30 => StunErrorNumber::Thirty,
            31 => StunErrorNumber::ThirtyOne,
            32 => StunErrorNumber::ThirtyTwo,
            33 => StunErrorNumber::ThirtyThree,
            _ => StunErrorNumber::Unexpected,
        };
        let mut phrase: Vec<u8> = Vec::new();
        let mut i: usize = 4;
        while i < bytes.len()
            invariant
                4 <= i <= bytes@.len(),
                phrase@ == bytes@.subrange(4, i as int),
            decreases bytes@.len() - i,
        {
            phrase.push(bytes[i]);
            i = i + 1;
            assert(phrase@ =~= bytes@.subrange(4, i as int));
        }
        assert(phrase@ =~= bytes@.skip(4));
        StunErrorCode { class, number, reason_phrase: phrase }
    }
}


/// What a `StunAttributeValue` holds.
pub enum StunAttributeValueView {
    Address(StunAddressView),
    ChangeRequest(StunChangeRequest),
    Error(StunErrorCodeView),
    Unknown((StunAttributeType, StunAttributeType)),
    Unexpected(Seq<u8>),
}

/// The value of a STUN attribute.
#[derive(Debug)]
pub enum StunAttributeValue {
    Address(StunAddress),
    ChangeRequest(StunChangeRequest),
    Error(StunErrorCode),
    Unknown((StunAttributeType, StunAttributeType)),
    Unexpected(Vec<u8>),
}

impl View for StunAttributeValue {
    type V = StunAttributeValueView;

    open spec fn view(&self) -> StunAttributeValueView {
        match self {
            StunAttributeValue::Address(a) => StunAttributeValueView::Address(a@),
            StunAttributeValue::ChangeRequest(c) => StunAttributeValueView::ChangeRequest(*c),
            StunAttributeValue::Error(e) => StunAttributeValueView::Error(e@),
            StunAttributeValue::Unknown(u) => StunAttributeValueView::Unknown(*u),
            StunAttributeValue::Unexpected(v) => StunAttributeValueView::Unexpected(v@),
        }
    }
}

/// The bytes of an attribute value.
pub open spec fn value_bytes(v: StunAttributeValueView) -> Seq<u8> {
    match v {
        StunAttributeValueView::Address(a) => address_bytes(a),
        StunAttributeValueView::ChangeRequest(c) => change_request_bytes(c),
        StunAttributeValueView::Error(e) => error_code_bytes(e),
        StunAttributeValueView::Unknown(u) => attribute_type_bytes(u.0) + attribute_type_bytes(
            u.1,
        ),
        StunAttributeValueView::Unexpected(b) => b,
    }
}

impl StunAttributeValue {
    /// The bytes of this value.
    pub fn bytes(&self) -> (r: Vec<u8>)
        ensures
            r@ == value_bytes(self@),
    {
        match self {
            StunAttributeValue::Address(addr) => addr.bytes(),
            StunAttributeValue::ChangeRequest(chr) => chr.bytes(),
            StunAttributeValue::Error(err) => err.bytes(),
            StunAttributeValue::Unknown(unknown) => {
                let mut vector = unknown.0.bytes();
                let mut second = unknown.1.bytes();
                vector.append(&mut second);
                vector
            },
            StunAttributeValue::Unexpected(unex) => unex.clone(),
        }
    }
}

/// Whether an attribute of type `t` carries an address.
pub open spec fn carries_address(t: StunAttributeType) -> bool {
    ||| t == StunAttributeType::MappedAddress
    ||| t == StunAttributeType::ResponseAddress
    ||| t == StunAttributeType::SourceAddress
    ||| t == StunAttributeType::ChangedAddress
}

/// Whether `raw` is long enough to be read as the value of an attribute of type `t`.
pub open spec fn value_readable(t: StunAttributeType, raw: Seq<u8>) -> bool {
    if carries_address(t) {
        raw.len() >= 8
    } else if t == StunAttributeType::ErrorCode || t == StunAttributeType::ChangeRequest || t
        == StunAttributeType::UnknownAttributes {
        raw.len() >= 4
    } else {
        true
    }
}

/// The value that `raw` stands for in an attribute of type `t`.
pub open spec fn value_from(t: StunAttributeType, raw: Seq<u8>) -> StunAttributeValueView {
    if carries_address(t) {
        StunAttributeValueView::Address(address_from(raw))
    } else if t == StunAttributeType::ErrorCode {
        StunAttributeValueView::Error(error_code_from(raw))
    } else if t == StunAttributeType::ChangeRequest {
        StunAttributeValueView::ChangeRequest(change_request_from(raw[3]))
    } else if t == StunAttributeType::UnknownAttributes {
        StunAttributeValueView::Unknown(
            (attribute_type_from(be16(raw[0], raw[1])), attribute_type_from(be16(raw[2], raw[3]))),
        )
    } else {
        StunAttributeValueView::Unexpected(raw)
    }
}

/// What a `StunAttribute` holds.
pub struct StunAttributeView {
    pub typ: StunAttributeType,
    pub length: u16,
    pub value: StunAttributeValueView,
}

/// A STUN attribute: type, length of its value, and the value.
#[derive(Debug)]
pub struct StunAttribute {
    typ: StunAttributeType,
    length: u16,
    value: StunAttributeValue,
}

impl View for StunAttribute {
    type V = StunAttributeView;

    closed spec fn view(&self) -> StunAttributeView {
        StunAttributeView { typ: self.typ, length: self.length, value: self.value@ }
    }
}

/// The bytes that an attribute is written as: its type, its length, then its
/// value.
pub open spec fn attribute_bytes(a: StunAttributeView) -> Seq<u8> {
    attribute_type_bytes(a.typ) + u16_bytes(a.length) + value_bytes(a.value)
}

/// The address an attribute carries, if it carries one.
pub open spec fn attribute_address(a: StunAttributeView) -> Option<StunAddressView> {
    match a.value {
        StunAttributeValueView::Address(addr) => Some(addr),
        _ => None,
    }
}

/// Whether `r` is the IPv4 socket address that `a` describes, or nothing where `a` is.
pub open spec fn socket_address_of(r: Option<SocketAddr>, a: Option<StunAddressView>) -> bool {
    match a {
        None => r is None,
        Some(addr) => r matches Some(sa) && sa.ip is V4 && sa.ip@ == addr.address && sa.port
            == addr.port,
    }
}

impl StunAttribute {
    /// The bytes of this attribute: type, length and value.
    pub fn bytes(&self) -> (r: Vec<u8>)
        ensures
            r@ == attribute_bytes(self@),
    {
        let mut vector: Vec<u8> = Vec::with_capacity(8);
        let mut typ = self.typ.bytes();
        vector.append(&mut typ);
        put_u16(&mut vector, self.length);
        let mut value = self.value.bytes();
        vector.append(&mut value);
        vector
    }

    /// Whether this is a MAPPED-ADDRESS attribute.
    pub fn is_mapped_address(&self) -> (r: bool)
        ensures
            r == (self@.typ == StunAttributeType::MappedAddress),
    {
        matches!(self.typ, StunAttributeType::MappedAddress)
    }

    /// Whether this is a CHANGED-ADDRESS attribute.
    pub fn is_changed_address(&self) -> (r: bool)
        ensures
            r == (self@.typ == StunAttributeType::ChangedAddress),
    {
        matches!(self.typ, StunAttributeType::ChangedAddress)
    }

    /// The IPv4 socket address this attribute carries, if it carries one.
    pub fn get_address(&self) -> (r: Option<SocketAddr>)
        ensures
            socket_address_of(r, attribute_address(self@)),
    {
        if let StunAttributeValue::Address(stun_addr) = &self.value {
            Some(SocketAddr::new(IpAddr::V4(stun_addr.address), stun_addr.port))
        } else {
            None
        }
    }
}

/// What a `StunMessage` holds.
pub struct StunMessageView {
    pub typ: StunMessageType,
    pub length: u16,
    pub id: (u64, u64),
    pub attributes: Seq<StunAttributeView>,
}

/// A STUN message: type, length of its attributes, transaction id and attributes.
#[derive(Debug)]
pub struct StunMessage {
    typ: StunMessageType,
    length: u16,
    id: (u64, u64),
    attributes: Vec<StunAttribute>,
}

impl View for StunMessage {
    type V = StunMessageView;

    closed spec fn view(&self) -> StunMessageView {
        StunMessageView {
            typ: self.typ,
            length: self.length,
            id: self.id,
            attributes: self.attributes@.map_values(|a: StunAttribute| a@),
        }
    }
}

/// The bytes that a sequence of attributes is written as.
pub open spec fn attributes_bytes(attrs: Seq<StunAttributeView>) -> Seq<u8>
    decreases attrs.len(),
{
    if attrs.len() == 0 {
        seq![]
    } else {
        attributes_bytes(attrs.drop_last()) + attribute_bytes(attrs.last())
    }
}

/// The bytes of a message: the 20-byte header, then its attributes.
pub open spec fn message_bytes(m: StunMessageView) -> Seq<u8> {
    message_type_bytes(m.typ) + u16_bytes(m.length) + u64_bytes(m.id.0) + u64_bytes(m.id.1)
        + attributes_bytes(m.attributes)
}

/// The offset just past the attribute that starts at `idx`.
pub open spec fn attribute_end(b: Seq<u8>, idx: int) -> int {
    idx + 4 + be16(b[idx + 2], b[idx + 3])
}

/// The raw value of the attribute that starts at `idx`.
pub open spec fn attribute_raw(b: Seq<u8>, idx: int) -> Seq<u8> {
    b.subrange(idx + 4, attribute_end(b, idx))
}

/// Whether an attribute can be read at `idx`: its header and value lie within `b`
/// and below the largest 16-bit offset, and its value is long enough for its type.
pub open spec fn attribute_readable(b: Seq<u8>, idx: int) -> bool {
    &&& 0 <= idx
    &&& idx + 4 <= b.len()
    &&& attribute_end(b, idx) <= b.len()
    &&& attribute_end(b, idx) <= 0xffff
    &&& value_readable(attribute_type_from(be16(b[idx], b[idx + 1])), attribute_raw(b, idx))
}

/// The attribute that starts at `idx`.
pub open spec fn attribute_at(b: Seq<u8>, idx: int) -> StunAttributeView {
    let t = attribute_type_from(be16(b[idx], b[idx + 1]));
    StunAttributeView {
        typ: t,
        length: be16(b[idx + 2], b[idx + 3]) as u16,
        value: value_from(t, attribute_raw(b, idx)),
    }
}

/// The attributes read from `b`, from offset `idx` on, for as long as the offset is
/// below `end`; `None` where one of them cannot be read.
pub open spec fn decode_attributes(b: Seq<u8>, idx: int, end: int) -> Option<
    Seq<StunAttributeView>,
>
    decreases b.len() - idx,
{
    if idx >= end {
        Some(seq![])
    } else if !attribute_readable(b, idx) {
        None
    } else {
        match decode_attributes(b, attribute_end(b, idx), end) {
            None => None,
            Some(rest) => Some(seq![attribute_at(b, idx)] + rest),
        }
    }
}

/// The message that `b` stands for; `None` where the header is cut short, the
/// attributes' end lies past the largest 16-bit offset, or an attribute cannot be read.
pub open spec fn decode_message(b: Seq<u8>) -> Option<StunMessageView> {
    if b.len() < 20 {
        None
    } else {
        let length = be16(b[2], b[3]);
        if 20 + length > 0xffff {
            None
        } else {
            match decode_attributes(b, 20, 20 + length) {
                None => None,
                Some(attributes) => Some(
                    StunMessageView {
                        typ: message_type_from(be16(b[0], b[1])),
                        length: length as u16,
                        id: (be64(b.subrange(4, 12)) as u64, be64(b.subrange(12, 20)) as u64),
                        attributes,
                    },
                ),
            }
        }
    }
}

/// Reads the attribute that starts at `idx`; gives it and the offset just past it.
fn decode_attribute(bytes: &[u8], idx: u16) -> (r: (StunAttribute, u16))
    requires
        attribute_readable(bytes@, idx as int),
    ensures
        r.0@ == attribute_at(bytes@, idx as int),
        r.1 == attribute_end(bytes@, idx as int),
{
    let i = idx as usize;
    let typ_raw = as_u16_be(&[bytes[i], bytes[i + 1]]);
    let typ = parse_attribute_type(typ_raw);
    let len = as_u16_be(&[bytes[i + 2], bytes[i + 3]]);
    let start = i + 4;
    let stop = start + len as usize;
    let mut value_raw: Vec<u8> = Vec::new();
    let mut k = start;
    while k < stop
        invariant
            start <= k <= stop,
            stop <= bytes@.len(),
            value_raw@ == bytes@.subrange(start as int, k as int),
        decreases stop - k,
    {
        value_raw.push(bytes[k]);
        k = k + 1;
        assert(value_raw@ =~= bytes@.subrange(start as int, k as int));
    }
    assert(value_raw@ == attribute_raw(bytes@, idx as int));
    let value = match typ {
        StunAttributeType::ErrorCode => StunAttributeValue::Error(StunErrorCode::parse(value_raw)),
        StunAttributeType::ChangeRequest => {
            let cr = match value_raw[3] {
                2 => StunChangeRequest::ChangePort,
                4 => StunChangeRequest::ChangeIp,
                6 => StunChangeRequest::ChangeIpPort,
                _ => StunChangeRequest::Unexpected,
            };
            StunAttributeValue::ChangeRequest(cr)
        },
        StunAttributeType::UnknownAttributes => {
            let typ1 = parse_attribute_type(as_u16_be(&[value_raw[0], value_raw[1]]));
            let typ2 = parse_attribute_type(as_u16_be(&[value_raw[2], value_raw[3]]));
            StunAttributeValue::Unknown((typ1, typ2))
        },
        StunAttributeType::MappedAddress
        | StunAttributeType::ResponseAddress
        | StunAttributeType::SourceAddress
        | StunAttributeType::ChangedAddress => StunAttributeValue::Address(
            StunAddress::parse(value_raw.as_slice()),
        ),
        _ => StunAttributeValue::Unexpected(value_raw),
    };
    (StunAttribute { typ, length: len, value }, stop as u16)
}

/// Reads a STUN message from the bytes it was received as.
pub fn stun_decode(bytes: &[u8]) -> (r: StunMessage)
    requires
        decode_message(bytes@) is Some,
    ensures
        decode_message(bytes@) == Some(r@),
{
    let typ_raw = as_u16_be(&[bytes[0], bytes[1]]);
    let typ = match typ_raw {
        0x0001 => StunMessageType::BindingRequest,
        0x0101 => StunMessageType::BindingResponse,
        0x0111 => StunMessageType::BindingErrorResponse,
        _ => StunMessageType::Unexpected,
    };
    let length = as_u16_be(&[bytes[2], bytes[3]]);
    let id0_bytes = [
        bytes[4],
        bytes[5],
        bytes[6],
        bytes[7],
        bytes[8],
        bytes[9],
        bytes[10],
        bytes[11],
    ];
    let id1_bytes = [
        bytes[12],
        bytes[13],
        bytes[14],
        bytes[15],
        bytes[16],
        bytes[17],
        bytes[18],
        bytes[19],
    ];
    assert(id0_bytes@ =~= bytes@.subrange(4, 12));
    assert(id1_bytes@ =~= bytes@.subrange(12, 20));
    let id0 = as_u64_be(&id0_bytes);
    let id1 = as_u64_be(&id1_bytes);
    let ghost b = bytes@;
    let ghost end = 20 + length;
    let mut idx: u16 = 20;
    let mut attributes: Vec<StunAttribute> = Vec::new();
    while idx < 20 + length
        invariant
            b == bytes@,
            end == 20 + length,
            end <= 0xffff,
            20 <= idx,
            decode_attributes(b, idx as int, end) is Some,
            decode_attributes(b, 20, end) == Some(
                attributes@.map_values(|a: StunAttribute| a@) + decode_attributes(
                    b,
                    idx as int,
                    end,
                )->0,
            ),
        decreases b.len() - idx,
    {
        let (attr, next) = decode_attribute(bytes, idx);
        let ghost before = attributes@.map_values(|a: StunAttribute| a@);
        let ghost rest = decode_attributes(b, next as int, end)->0;
        attributes.push(attr);
        assert(attributes@.map_values(|a: StunAttribute| a@) =~= before.push(attr@));
        assert(before + (seq![attr@] + rest) =~= before.push(attr@) + rest);
        idx = next;
    }
    assert(attributes@.map_values(|a: StunAttribute| a@) + seq![] =~= attributes@.map_values(
        |a: StunAttribute| a@,
    ));
    StunMessage { typ, length, id: (id0, id1), attributes }
}

/// Whether `bytes` can be read as a STUN message: the condition under which
/// `stun_decode` may be called on them.
pub fn stun_readable(bytes: &[u8]) -> (r: bool)
    ensures
        r == (decode_message(bytes@) is Some),
{
    if bytes.len() < 20 {
        return false;
    }
    let length = as_u16_be(&[bytes[2], bytes[3]]);
    if length > 0xffff - 20 {
        return false;
    }
    let ghost b = bytes@;
    let end: usize = 20 + length as usize;
    let mut idx: usize = 20;
    while idx < end
        invariant
            b == bytes@,
            end == 20 + be16(b[2], b[3]),
            end <= 0xffff,
            20 <= idx,
            b.len() >= 20,
            decode_attributes(b, 20, end as int) is Some <==> decode_attributes(
                b,
                idx as int,
                end as int,
            ) is Some,
        decreases b.len() + 0x10000 - idx,
    {
        if idx + 4 > bytes.len() {
            return false;
        }
        let typ = parse_attribute_type(as_u16_be(&[bytes[idx], bytes[idx + 1]]));
        let len = as_u16_be(&[bytes[idx + 2], bytes[idx + 3]]) as usize;
        let stop = idx + 4 + len;
        if stop > bytes.len() || stop > 0xffff {
            return false;
        }
        let needed: usize = match typ {
            StunAttributeType::MappedAddress
            | StunAttributeType::ResponseAddress
            | StunAttributeType::SourceAddress
            | StunAttributeType::ChangedAddress => 8,
            StunAttributeType::ErrorCode
            | StunAttributeType::ChangeRequest
            | StunAttributeType::UnknownAttributes => 4,
            _ => 0,
        };
        assert(attribute_raw(b, idx as int).len() == len);
        if len < needed {
            return false;
        }
        assert(attribute_readable(b, idx as int));
        idx = stop;
    }
    true
}

/// The first attribute of type `t` in `attrs`, if there is one.
pub open spec fn first_of_type(attrs: Seq<StunAttributeView>, t: StunAttributeType) -> Option<
    StunAttributeView,
>
    decreases attrs.len(),
{
    if attrs.len() == 0 {
        None
    } else if attrs[0].typ == t {
        Some(attrs[0])
    } else {
        first_of_type(attrs.drop_first(), t)
    }
}

/// The address carried by the first attribute of type `t`; `None` where there is no
/// such attribute or it carries no address.
pub open spec fn found_address(attrs: Seq<StunAttributeView>, t: StunAttributeType) -> Option<
    StunAddressView,
> {
    match first_of_type(attrs, t) {
        None => None,
        Some(a) => attribute_address(a),
    }
}

/// The binding request sent with transaction id `id`, carrying a CHANGE-REQUEST
/// attribute where `change_request` holds one.
pub open spec fn request_view(change_request: Option<StunChangeRequest>, id: (u64, u64)) -> StunMessageView {
    match change_request {
        None => StunMessageView {
            typ: StunMessageType::BindingRequest,
            length: 0,
            id,
            attributes: seq![],
        },
        Some(c) => StunMessageView {
            typ: StunMessageType::BindingRequest,
            length: 8,
            id,
            attributes: seq![
                StunAttributeView {
                    typ: StunAttributeType::ChangeRequest,
                    length: 4,
                    value: StunAttributeValueView::ChangeRequest(c),
                },
            ],
        },
    }
}

impl StunMessage {
    /// The transaction id.
    pub fn id(&self) -> (r: (u64, u64))
        ensures
            r == self@.id,
    {
        self.id
    }

    /// The bytes this message is sent as.
    pub fn bytes(&self) -> (r: Vec<u8>)
        ensures
            r@ == message_bytes(self@),
    {
        let mut bts: Vec<u8> = Vec::with_capacity(28);
        let typ = self.typ.bytes();
        bts.push(typ[0]);
        bts.push(typ[1]);
        put_u16(&mut bts, self.length);
        put_u64(&mut bts, self.id.0);
        put_u64(&mut bts, self.id.1);
        let ghost header = bts@;
        assert(header =~= message_type_bytes(self.typ) + u16_bytes(self.length) + u64_bytes(
            self.id.0,
        ) + u64_bytes(self.id.1));
        let ghost attrs = self@.attributes;
        let mut i: usize = 0;
        while i < self.attributes.len()
            invariant
                i <= self.attributes@.len(),
                attrs == self.attributes@.map_values(|a: StunAttribute| a@),
                bts@ == header + attributes_bytes(attrs.take(i as int)),
            decreases self.attributes.len() - i,
        {
            let mut ab = self.attributes[i].bytes();
            bts.append(&mut ab);
            assert(attrs.take(i as int + 1).drop_last() =~= attrs.take(i as int));
            i = i + 1;
            assert(bts@ =~= header + attributes_bytes(attrs.take(i as int)));
        }
        assert(attrs.take(i as int) =~= attrs);
        bts
    }

    /// The address of the first attribute of type `t`, if it carries one.
    fn first_address(&self, t: StunAttributeType) -> (r: Option<SocketAddr>)
        ensures
            socket_address_of(r, found_address(self@.attributes, t)),
    {
        let ghost attrs = self@.attributes;
        assert(attrs.skip(0) =~= attrs);
        let mut i: usize = 0;
        while i < self.attributes.len()
            invariant
                i <= self.attributes@.len(),
                attrs == self.attributes@.map_values(|a: StunAttribute| a@),
                first_of_type(attrs, t) == first_of_type(attrs.skip(i as int), t),
            decreases self.attributes.len() - i,
        {
            assert(attrs.skip(i as int)[0] == attrs[i as int]);
            if self.attributes[i].typ == t {
                return self.attributes[i].get_address();
            }
            assert(attrs.skip(i as int).drop_first() =~= attrs.skip(i as int + 1));
            i = i + 1;
        }
        assert(attrs.skip(i as int).len() == 0);
        None
    }

    /// The address of the MAPPED-ADDRESS attribute, if the message has one.
    pub fn mapped_address(&self) -> (r: Option<SocketAddr>)
        ensures
            socket_address_of(r, found_address(self@.attributes, StunAttributeType::MappedAddress)),
    {
        self.first_address(StunAttributeType::MappedAddress)
    }

    /// The address of the CHANGED-ADDRESS attribute, if the message has one.
    pub fn changed_address(&self) -> (r: Option<SocketAddr>)
        ensures
            socket_address_of(
                r,
                found_address(self@.attributes, StunAttributeType::ChangedAddress),
            ),
    {
        self.first_address(StunAttributeType::ChangedAddress)
    }
}

/// The binding request with transaction id `id`.
pub fn build_request_with_id(change_request: Option<StunChangeRequest>, id: (u64, u64)) -> (r: StunMessage)
    ensures
        r@ == request_view(change_request, id),
{
    let mut msg_len: u16 = 0;
    let attributes = if let Some(value) = change_request {
        msg_len = 8;
        let attribute = StunAttribute {
            typ: StunAttributeType::ChangeRequest,
            length: 4,
            value: StunAttributeValue::ChangeRequest(value),
        };
        vec![attribute]
    } else {
        Vec::new()
    };
    let r = StunMessage { typ: StunMessageType::BindingRequest, length: msg_len, id, attributes };
    assert(r@.attributes =~= request_view(change_request, id).attributes);
    r
}

/// A random 64-bit number.
#[verifier::external_body]
fn random_u64() -> u64 {
    rand::random::<u64>()
}

/// A binding request with a fresh random transaction id.
pub fn build_request(change_request: Option<StunChangeRequest>) -> (r: StunMessage)
    ensures
        r@ == request_view(change_request, r@.id),
{
    let id = (random_u64(), random_u64());
    build_request_with_id(change_request, id)
}

/// Reading the two bytes of a message type gives the type back.
pub proof fn lemma_message_type_roundtrip(t: StunMessageType)
    ensures
        message_type_from(be16(message_type_bytes(t)[0], message_type_bytes(t)[1])) == t,
{
}

/// Reading the two bytes of an attribute type gives the type back.
pub proof fn lemma_attribute_type_roundtrip(t: StunAttributeType)
    ensures
        attribute_type_from(be16(attribute_type_bytes(t)[0], attribute_type_bytes(t)[1])) == t,
{
}

/// Reading the flags byte of a change request gives the request back.
pub proof fn lemma_change_request_roundtrip(c: StunChangeRequest)
    ensures
        change_request_from(change_request_bytes(c)[3]) == c,
{
}

/// Reading the bytes of an error code gives it back, reason phrase and all.
pub proof fn lemma_error_code_roundtrip(e: StunErrorCodeView)
    ensures
        error_code_from(error_code_bytes(e)) == e,
{
    assert(error_code_bytes(e).skip(4) =~= e.reason_phrase);
}

/// A message without attributes, whose length says so, is read back from its bytes
/// as it was.
#[verifier::spinoff_prover]
#[verifier::rlimit(40)]
pub proof fn lemma_message_roundtrip(m: StunMessageView)
    requires
        m.attributes.len() == 0,
        m.length == 0,
    ensures
        decode_message(message_bytes(m)) == Some(m),
{
    let b = message_bytes(m);
    assert(attributes_bytes(m.attributes) =~= seq![]);
    lemma_u16_roundtrip(m.length);
    lemma_u64_roundtrip(m.id.0);
    lemma_u64_roundtrip(m.id.1);
    assert(b.subrange(4, 12) =~= u64_bytes(m.id.0));
    assert(b.subrange(12, 20) =~= u64_bytes(m.id.1));
    assert(b[2] == u16_bytes(m.length)[0] && b[3] == u16_bytes(m.length)[1]);
    assert(b[0] == message_type_bytes(m.typ)[0] && b[1] == message_type_bytes(m.typ)[1]);
    assert(decode_attributes(b, 20, 20) == Some(Seq::<StunAttributeView>::empty()));
    let d = decode_message(b)->0;
    assert(d.attributes =~= m.attributes);
}

/// A binding request, with or without a change request, is read back from the
/// bytes it is written as.
#[verifier::spinoff_prover]
#[verifier::rlimit(60)]
pub proof fn lemma_request_roundtrip(change_request: Option<StunChangeRequest>, id: (u64, u64))
    ensures
        decode_message(message_bytes(request_view(change_request, id))) == Some(request_view(change_request, id)),
{
    let m = request_view(change_request, id);
    match change_request {
        None => lemma_message_roundtrip(m),
        Some(c) => {
            let a = m.attributes[0];
            let b = message_bytes(m);
            assert(m.attributes.drop_last() =~= Seq::<StunAttributeView>::empty());
            assert(attributes_bytes(Seq::<StunAttributeView>::empty()) =~= seq![]);
            assert(attributes_bytes(m.attributes) =~= attribute_bytes(a));
            lemma_u16_roundtrip(m.length);
            lemma_u16_roundtrip(4);
            lemma_u64_roundtrip(id.0);
            lemma_u64_roundtrip(id.1);
            lemma_attribute_type_roundtrip(StunAttributeType::ChangeRequest);
            lemma_change_request_roundtrip(c);
            assert(b.len() == 28);
            assert(b.subrange(4, 12) =~= u64_bytes(id.0));
            assert(b.subrange(12, 20) =~= u64_bytes(id.1));
            assert(b[2] == u16_bytes(m.length)[0] && b[3] == u16_bytes(m.length)[1]);
            assert(b[0] == message_type_bytes(m.typ)[0] && b[1] == message_type_bytes(m.typ)[1]);
            assert(b[20] == attribute_type_bytes(StunAttributeType::ChangeRequest)[0]);
            assert(b[21] == attribute_type_bytes(StunAttributeType::ChangeRequest)[1]);
            assert(b[22] == u16_bytes(4)[0] && b[23] == u16_bytes(4)[1]);
            assert(attribute_raw(b, 20) =~= change_request_bytes(c));
            assert(attribute_readable(b, 20));
            assert(attribute_at(b, 20) == a);
            assert(decode_attributes(b, 28, 28) == Some(Seq::<StunAttributeView>::empty()));
            assert(decode_attributes(b, 20, 28) == Some(seq![a]));
            let d = decode_message(b)->0;
            assert(d.attributes =~= m.attributes);
        },
    }
}

} // verus!

//! The message model of the protocol and the encoding of a message into a frame.
use vstd::prelude::*;
use vstd::utf8::encode_utf8;
use crate::wire::{be_u16, be_u64, bool_bytes, text_bytes};

verus! {

/// Size in bytes of every frame, the protocol's hard cap.
pub const ATLAS_PACKET_SIZE: usize = 4096;

/// Every message of the protocol, with its fields in wire order.
#[derive(Debug, Clone, PartialEq, Eq)]
pub enum AtlasPacket {
    ConnectionRequest,
    /// welcome_message
    ConnectionResponse(String),
    /// username, password, game_version
    LoginRequest(String, String, String),
    /// code, temp_token
    LoginResponse(u16, String),
    /// username, password
    RegisterRequest(String, String),
    /// code
    RegisterResponse(u16),
    /// room, token
    JoinChatroomRequest(String, String),
    /// code
    JoinChatroomResponse(u16),
    /// message, token
    SendMessageRequest(String, String),
    /// code
    SendMessageResponse(u16),
    /// username, message
    RecvMessage(String, String),
}

/// A message as a mathematical value: text fields are character sequences.
pub ghost enum AtlasPacketView {
    ConnectionRequest,
    ConnectionResponse(Seq<char>),
    LoginRequest(Seq<char>, Seq<char>, Seq<char>),
    LoginResponse(u16, Seq<char>),
    RegisterRequest(Seq<char>, Seq<char>),
    RegisterResponse(u16),
    JoinChatroomRequest(Seq<char>, Seq<char>),
    JoinChatroomResponse(u16),
    SendMessageRequest(Seq<char>, Seq<char>),
    SendMessageResponse(u16),
    RecvMessage(Seq<char>, Seq<char>),
}

impl View for AtlasPacket {
    type V = AtlasPacketView;

    open spec fn view(&self) -> AtlasPacketView {
        match self {
            AtlasPacket::ConnectionRequest => AtlasPacketView::ConnectionRequest,
            AtlasPacket::ConnectionResponse(w) => AtlasPacketView::ConnectionResponse(w@),
            AtlasPacket::LoginRequest(u, p, g) => AtlasPacketView::LoginRequest(u@, p@, g@),
            AtlasPacket::LoginResponse(c, t) => AtlasPacketView::LoginResponse(*c, t@),
            AtlasPacket::RegisterRequest(u, p) => AtlasPacketView::RegisterRequest(u@, p@),
            AtlasPacket::RegisterResponse(c) => AtlasPacketView::RegisterResponse(*c),
            AtlasPacket::JoinChatroomRequest(r, t) => AtlasPacketView::JoinChatroomRequest(r@, t@),
            AtlasPacket::JoinChatroomResponse(c) => AtlasPacketView::JoinChatroomResponse(*c),
            AtlasPacket::SendMessageRequest(m, t) => AtlasPacketView::SendMessageRequest(m@, t@),
            AtlasPacket::SendMessageResponse(c) => AtlasPacketView::SendMessageResponse(*c),
            AtlasPacket::RecvMessage(u, m) => AtlasPacketView::RecvMessage(u@, m@),
        }
    }
}

/// Outcome codes carried in the `code` fields of responses.
#[derive(Debug, Clone, Copy, PartialEq, Eq, Structural)]
pub enum AtlasResponseCodes {
    Success,
    UsernameExists,
    UserDoesntExist,
    IncorrectPassword,
    IncorrectToken,
    ChatroomDoesntExist,
}

impl AtlasResponseCodes {
    /// The code as it is sent on the wire.
    pub open spec fn spec_code(self) -> u16 {
        match self {
            AtlasResponseCodes::Success => 0,
            AtlasResponseCodes::UsernameExists => 1,
            AtlasResponseCodes::UserDoesntExist => 2,
            AtlasResponseCodes::IncorrectPassword => 3,
            AtlasResponseCodes::IncorrectToken => 4,
            AtlasResponseCodes::ChatroomDoesntExist => 5,
        }
    }

    /// The code as it is sent on the wire.
    pub fn code(&self) -> (r: u16)
        ensures
            r == self.spec_code(),
    {
        match self {
            AtlasResponseCodes::Success => 0,
            AtlasResponseCodes::UsernameExists => 1,
            AtlasResponseCodes::UserDoesntExist => 2,
            AtlasResponseCodes::IncorrectPassword => 3,
            AtlasResponseCodes::IncorrectToken => 4,
            AtlasResponseCodes::ChatroomDoesntExist => 5,
        }
    }
}

/// The variant kinds of a message; each owns one tag byte.
#[derive(Debug, Clone, Copy, PartialEq, Eq, Structural)]
pub enum AtlasPacketTypes {
    ConnectionRequest,
    ConnectionResponse,
    LoginRequest,
    LoginResponse,
    RegisterRequest,
    RegisterResponse,
    JoinChatroomRequest,
    JoinChatroomResponse,
    SendMessageRequest,
    SendMessageResponse,
    RecvMessage,
}

/// The kind that a tag byte names, if any: the one table of tags, read both ways.
pub open spec fn packet_type_of(b: u8) -> Option<AtlasPacketTypes> {
    if b == 0 {
        Some(AtlasPacketTypes::ConnectionRequest)
    } else if b == 1 {
        Some(AtlasPacketTypes::ConnectionResponse)
    } else if b == 2 {
        Some(AtlasPacketTypes::LoginRequest)
    } else if b == 3 {
        Some(AtlasPacketTypes::LoginResponse)
    } else if b == 4 {
        Some(AtlasPacketTypes::RegisterRequest)
    } else if b == 5 {
        Some(AtlasPacketTypes::RegisterResponse)
    } else if b == 6 {
        Some(AtlasPacketTypes::JoinChatroomRequest)
    } else if b == 7 {
        Some(AtlasPacketTypes::JoinChatroomResponse)
    } else if b == 8 {
        Some(AtlasPacketTypes::SendMessageRequest)
    } else if b == 9 {
        Some(AtlasPacketTypes::SendMessageResponse)
    } else if b == 10 {
        Some(AtlasPacketTypes::RecvMessage)
    } else {
        None
    }
}

impl AtlasPacketTypes {
    /// The tag byte of this kind.
    pub open spec fn spec_tag(self) -> u8 {
        match self {
            AtlasPacketTypes::ConnectionRequest => 0,
            AtlasPacketTypes::ConnectionResponse => 1,
            AtlasPacketTypes::LoginRequest => 2,
            AtlasPacketTypes::LoginResponse => 3,
            AtlasPacketTypes::RegisterRequest => 4,
            AtlasPacketTypes::RegisterResponse => 5,
            AtlasPacketTypes::JoinChatroomRequest => 6,
            AtlasPacketTypes::JoinChatroomResponse => 7,
            AtlasPacketTypes::SendMessageRequest => 8,
            AtlasPacketTypes::SendMessageResponse => 9,
            AtlasPacketTypes::RecvMessage => 10,
        }
    }

    /// The tag byte of this kind.
    pub fn tag(&self) -> (r: u8)
        ensures
            r == self.spec_tag(),
            packet_type_of(r) == Some(*self),
    {
        match self {
            AtlasPacketTypes::ConnectionRequest => 0,
            AtlasPacketTypes::ConnectionResponse => 1,
            AtlasPacketTypes::LoginRequest => 2,
            AtlasPacketTypes::LoginResponse => 3,
            AtlasPacketTypes::RegisterRequest => 4,
            AtlasPacketTypes::RegisterResponse => 5,
            AtlasPacketTypes::JoinChatroomRequest => 6,
            AtlasPacketTypes::JoinChatroomResponse => 7,
            AtlasPacketTypes::SendMessageRequest => 8,
            AtlasPacketTypes::SendMessageResponse => 9,
            AtlasPacketTypes::RecvMessage => 10,
        }
    }

    /// The kind that a tag byte names; `None` for a byte past the last kind.
    pub fn from_tag(b: u8) -> (r: Option<AtlasPacketTypes>)
        ensures
            r == packet_type_of(b),
            r matches Some(t) ==> t.spec_tag() == b,
    {
        match b {
            0 => Some(AtlasPacketTypes::ConnectionRequest),
            1 => Some(AtlasPacketTypes::ConnectionResponse),
            2 => Some(AtlasPacketTypes::LoginRequest),
            3 => Some(AtlasPacketTypes::LoginResponse),
            4 => Some(AtlasPacketTypes::RegisterRequest),
            5 => Some(AtlasPacketTypes::RegisterResponse),
            6 => Some(AtlasPacketTypes::JoinChatroomRequest),
            7 => Some(AtlasPacketTypes::JoinChatroomResponse),
            8 => Some(AtlasPacketTypes::SendMessageRequest),
            9 => Some(AtlasPacketTypes::SendMessageResponse),
            10 => Some(AtlasPacketTypes::RecvMessage),
            _ => None,
        }
    }
}

/// Why a message could not be encoded.
#[derive(Debug, Clone, Copy, PartialEq, Eq, Structural)]
pub enum EncodingError {
    /// The tag and fields take the whole frame or more.
    FrameTooLarge,
}

/// The kind of a message.
pub open spec fn kind_of(m: AtlasPacketView) -> AtlasPacketTypes {
    match m {
        AtlasPacketView::ConnectionRequest => AtlasPacketTypes::ConnectionRequest,
        AtlasPacketView::ConnectionResponse(..) => AtlasPacketTypes::ConnectionResponse,
        AtlasPacketView::LoginRequest(..) => AtlasPacketTypes::LoginRequest,
        AtlasPacketView::LoginResponse(..) => AtlasPacketTypes::LoginResponse,
        AtlasPacketView::RegisterRequest(..) => AtlasPacketTypes::RegisterRequest,
        AtlasPacketView::RegisterResponse(..) => AtlasPacketTypes::RegisterResponse,
        AtlasPacketView::JoinChatroomRequest(..) => AtlasPacketTypes::JoinChatroomRequest,
        AtlasPacketView::JoinChatroomResponse(..) => AtlasPacketTypes::JoinChatroomResponse,
        AtlasPacketView::SendMessageRequest(..) => AtlasPacketTypes::SendMessageRequest,
        AtlasPacketView::SendMessageResponse(..) => AtlasPacketTypes::SendMessageResponse,
        AtlasPacketView::RecvMessage(..) => AtlasPacketTypes::RecvMessage,
    }
}

/// The encoded fields of a message, in declared order.
pub open spec fn fields_bytes(m: AtlasPacketView) -> Seq<u8> {
    match m {
        AtlasPacketView::ConnectionRequest => Seq::empty(),
        AtlasPacketView::ConnectionResponse(w) => text_bytes(w),
        AtlasPacketView::LoginRequest(u, p, g) => text_bytes(u) + text_bytes(p) + text_bytes(g),
        AtlasPacketView::LoginResponse(c, t) => be_u16(c) + text_bytes(t),
        AtlasPacketView::RegisterRequest(u, p) => text_bytes(u) + text_bytes(p),
        AtlasPacketView::RegisterResponse(c) => be_u16(c),
        AtlasPacketView::JoinChatroomRequest(r, t) => text_bytes(r) + text_bytes(t),
        AtlasPacketView::JoinChatroomResponse(c) => be_u16(c),
        AtlasPacketView::SendMessageRequest(m, t) => text_bytes(m) + text_bytes(t),
        AtlasPacketView::SendMessageResponse(c) => be_u16(c),
        AtlasPacketView::RecvMessage(u, m) => text_bytes(u) + text_bytes(m),
    }
}

/// The payload of a message: its tag byte, then its fields.
pub open spec fn payload_bytes(m: AtlasPacketView) -> Seq<u8> {
    seq![kind_of(m).spec_tag()] + fields_bytes(m)
}

/// A payload followed by zeros up to the frame size.
pub open spec fn padded(p: Seq<u8>) -> Seq<u8> {
    p + Seq::new((ATLAS_PACKET_SIZE - p.len()) as nat, |i: int| 0u8)
}

/// The frame of a message, or `FrameTooLarge` when its payload does not fit
/// strictly inside a frame.
pub open spec fn encode_frame(m: AtlasPacketView) -> Result<Seq<u8>, EncodingError> {
    if payload_bytes(m).len() < ATLAS_PACKET_SIZE {
        Ok(padded(payload_bytes(m)))
    } else {
        Err(EncodingError::FrameTooLarge)
    }
}

impl AtlasPacket {
    /// Encodes the message into one frame: tag, fields, zero padding.
    pub fn serialize(&self) -> (r: Result<[u8; ATLAS_PACKET_SIZE], EncodingError>)
        ensures
            r is Ok <==> payload_bytes(self@).len() < ATLAS_PACKET_SIZE,
            r matches Ok(f) ==> encode_frame(self@) == Ok::<Seq<u8>, EncodingError>(f@),
            r matches Err(e) ==> encode_frame(self@) == Err::<Seq<u8>, EncodingError>(e),
    {
        let (kind, fields) = match self {
            AtlasPacket::ConnectionRequest => (AtlasPacketTypes::ConnectionRequest, Vec::new()),
            AtlasPacket::ConnectionResponse(w) => (
                AtlasPacketTypes::ConnectionResponse,
                Self::make_string(w.as_str()),
            ),
            AtlasPacket::LoginRequest(u, p, g) => {
                let mut v = Self::make_string(u.as_str());
                let mut b = Self::make_string(p.as_str());
                v.append(&mut b);
                let mut c = Self::make_string(g.as_str());
                v.append(&mut c);
                (AtlasPacketTypes::LoginRequest, v)
            },
            AtlasPacket::LoginResponse(c, t) => {
                let mut v = Self::make_u16(c);
                let mut b = Self::make_string(t.as_str());
                v.append(&mut b);
                (AtlasPacketTypes::LoginResponse, v)
            },
            AtlasPacket::RegisterRequest(u, p) => (
                AtlasPacketTypes::RegisterRequest,
                Self::make_two_strings(u.as_str(), p.as_str()),
            ),
            AtlasPacket::RegisterResponse(c) => (
                AtlasPacketTypes::RegisterResponse,
                Self::make_u16(c),
            ),
            AtlasPacket::JoinChatroomRequest(r, t) => (
                AtlasPacketTypes::JoinChatroomRequest,
                Self::make_two_strings(r.as_str(), t.as_str()),
            ),
            AtlasPacket::JoinChatroomResponse(c) => (
                AtlasPacketTypes::JoinChatroomResponse,
                Self::make_u16(c),
            ),
            AtlasPacket::SendMessageRequest(m, t) => (
                AtlasPacketTypes::SendMessageRequest,
                Self::make_two_strings(m.as_str(), t.as_str()),
            ),
            AtlasPacket::SendMessageResponse(c) => (
                AtlasPacketTypes::SendMessageResponse,
                Self::make_u16(c),
            ),
            AtlasPacket::RecvMessage(u, m) => (
                AtlasPacketTypes::RecvMessage,
                Self::make_two_strings(u.as_str(), m.as_str()),
            ),
        };
        assert(kind == kind_of(self@) && fields@ == fields_bytes(self@));
        let mut payload = vec![kind.tag()];
        let mut fields = fields;
        payload.append(&mut fields);
        assert(payload@ =~= payload_bytes(self@));
        AtlasPacketWriter::vec_to_raw_packet(payload)
    }

    /// Two text fields, one after the other.
    fn make_two_strings(a: &str, b: &str) -> (r: Vec<u8>)
        ensures
            r@ == text_bytes(a@) + text_bytes(b@),
    {
        let mut v = Self::make_string(a);
        let mut w = Self::make_string(b);
        v.append(&mut w);
        v
    }

    /// A text field: eight-byte big-endian byte length, then the UTF-8 bytes.
    fn make_string(s: &str) -> (r: Vec<u8>)
        ensures
            r@ == text_bytes(s@),
    {
        let bytes = s.as_bytes();
        let n = bytes.len() as u64;
        let mut r = vec![
            (n >> 56u64) as u8,
            (n >> 48u64) as u8,
            (n >> 40u64) as u8,
            (n >> 32u64) as u8,
            (n >> 24u64) as u8,
            (n >> 16u64) as u8,
            (n >> 8u64) as u8,
            n as u8,
        ];
        assert(r@ =~= be_u64(encode_utf8(s@).len() as u64));
        let mut i: usize = 0;
        while i < bytes.len()
            invariant
                i <= bytes@.len(),
                bytes@ == encode_utf8(s@),
                r@ == be_u64(encode_utf8(s@).len() as u64) + bytes@.subrange(0, i as int),
            decreases bytes@.len() - i,
        {
            r.push(bytes[i]);
            i = i + 1;
            assert(r@ =~= be_u64(encode_utf8(s@).len() as u64) + bytes@.subrange(0, i as int));
        }
        assert(bytes@.subrange(0, bytes@.len() as int) =~= bytes@);
        r
    }

    /// A bool field: one byte, 0 for false and 1 for true.
    #[allow(dead_code)]
    fn make_bool(b: &bool) -> (r: Vec<u8>)
        ensures
            r@ == bool_bytes(*b),
    {
        let r = if *b {
            vec![1u8]
        } else {
            vec![0u8]
        };
        assert(r@ =~= bool_bytes(*b));
        r
    }

    /// A u16 field: two bytes, big-endian.
    fn make_u16(n: &u16) -> (r: Vec<u8>)
        ensures
            r@ == be_u16(*n),
    {
        let r = vec![(*n >> 8u16) as u8, *n as u8];
        assert(r@ =~= be_u16(*n));
        r
    }
}

/// Places a payload into a frame.
pub struct AtlasPacketWriter;

impl AtlasPacketWriter {
    /// Copies `vec` into the front of a zeroed frame; `FrameTooLarge` when it
    /// does not fit strictly inside one.
    pub fn vec_to_raw_packet(vec: Vec<u8>) -> (r: Result<[u8; ATLAS_PACKET_SIZE], EncodingError>)
        ensures
            r is Ok <==> vec@.len() < ATLAS_PACKET_SIZE,
            r matches Ok(f) ==> f@ == padded(vec@),
            r matches Err(e) ==> e == EncodingError::FrameTooLarge,
    {
        if vec.len() >= ATLAS_PACKET_SIZE {
            return Err(EncodingError::FrameTooLarge);
        }
        let mut data: [u8; ATLAS_PACKET_SIZE] = [0u8; ATLAS_PACKET_SIZE];
        let mut i: usize = 0;
        while i < vec.len()
            invariant
                i <= vec@.len() < ATLAS_PACKET_SIZE,
                data@.len() == ATLAS_PACKET_SIZE,
                forall|j: int| 0 <= j < i ==> data@[j] == vec@[j],
                forall|j: int| i <= j < ATLAS_PACKET_SIZE ==> data@[j] == 0u8,
            decreases vec@.len() - i,
        {
            data[i] = vec[i];
            i = i + 1;
        }
        assert(data@ =~= padded(vec@));
        Ok(data)
    }
}

} // verus!

//! Decoding of a frame back into a message.
use vstd::prelude::*;
use vstd::utf8::{decode_utf8, valid_utf8};
use crate::packet::{packet_type_of, AtlasPacket, AtlasPacketTypes, AtlasPacketView, ATLAS_PACKET_SIZE};
use crate::wire::{read_bool, read_text, read_u16, u16_of_be, u64_of_be, DecodingError};

verus! {

/// Reads two text fields from offset `i` on.
pub open spec fn read_two_texts(f: Seq<u8>, i: int) -> Result<(Seq<char>, Seq<char>, int), DecodingError> {
    match read_text(f, i) {
        Err(e) => Err(e),
        Ok((a, j)) => match read_text(f, j) {
            Err(e) => Err(e),
            Ok((b, k)) => Ok((a, b, k)),
        },
    }
}

/// Reads the fields of a message of kind `t` from offset 1 of `f`.
pub open spec fn decode_fields(t: AtlasPacketTypes, f: Seq<u8>) -> Result<AtlasPacketView, DecodingError> {
    match t {
        AtlasPacketTypes::ConnectionRequest => Ok(AtlasPacketView::ConnectionRequest),
        AtlasPacketTypes::ConnectionResponse => match read_text(f, 1) {
            Err(e) => Err(e),
            Ok((w, _)) => Ok(AtlasPacketView::ConnectionResponse(w)),
        },
        AtlasPacketTypes::LoginRequest => match read_two_texts(f, 1) {
            Err(e) => Err(e),
            Ok((u, p, j)) => match read_text(f, j) {
                Err(e) => Err(e),
                Ok((g, _)) => Ok(AtlasPacketView::LoginRequest(u, p, g)),
            },
        },
        AtlasPacketTypes::LoginResponse => match read_u16(f, 1) {
            Err(e) => Err(e),
            Ok((c, j)) => match read_text(f, j) {
                Err(e) => Err(e),
                Ok((t, _)) => Ok(AtlasPacketView::LoginResponse(c, t)),
            },
        },
        AtlasPacketTypes::RegisterRequest => match read_two_texts(f, 1) {
            Err(e) => Err(e),
            Ok((u, p, _)) => Ok(AtlasPacketView::RegisterRequest(u, p)),
        },
        AtlasPacketTypes::RegisterResponse => match read_u16(f, 1) {
            Err(e) => Err(e),
            Ok((c, _)) => Ok(AtlasPacketView::RegisterResponse(c)),
        },
        AtlasPacketTypes::JoinChatroomRequest => match read_two_texts(f, 1) {
            Err(e) => Err(e),
            Ok((r, t, _)) => Ok(AtlasPacketView::JoinChatroomRequest(r, t)),
        },
        AtlasPacketTypes::JoinChatroomResponse => match read_u16(f, 1) {
            Err(e) => Err(e),
            Ok((c, _)) => Ok(AtlasPacketView::JoinChatroomResponse(c)),
        },
        AtlasPacketTypes::SendMessageRequest => match read_two_texts(f, 1) {
            Err(e) => Err(e),
            Ok((m, t, _)) => Ok(AtlasPacketView::SendMessageRequest(m, t)),
        },
        AtlasPacketTypes::SendMessageResponse => match read_u16(f, 1) {
            Err(e) => Err(e),
            Ok((c, _)) => Ok(AtlasPacketView::SendMessageResponse(c)),
        },
        AtlasPacketTypes::RecvMessage => match read_two_texts(f, 1) {
            Err(e) => Err(e),
            Ok((u, m, _)) => Ok(AtlasPacketView::RecvMessage(u, m)),
        },
    }
}

/// The message that a frame holds: the tag byte picks the kind, which fixes
/// the fields to read; the bytes after the last field are never looked at.
pub open spec fn decode_frame(f: Seq<u8>) -> Result<AtlasPacketView, DecodingError> {
    if f.len() == 0 {
        Err(DecodingError::Truncated)
    } else {
        match packet_type_of(f[0]) {
            None => Err(DecodingError::UnknownTag),
            Some(t) => decode_fields(t, f),
        }
    }
}

/// Relies on String::from_utf8: it accepts exactly the valid UTF-8 byte
/// sequences, and the string it returns holds the characters they encode.
#[verifier::external_body]
fn string_from_utf8(bytes: Vec<u8>) -> (r: Option<String>)
    ensures
        r is Some <==> valid_utf8(bytes@),
        r matches Some(s) ==> s@ == decode_utf8(bytes@),
{
    String::from_utf8(bytes).ok()
}

/// Reads messages and their fields out of a frame.
pub trait AtlasPacketReader {
    /// The message that the frame holds.
    fn get_packet(&self) -> Result<AtlasPacket, DecodingError>;

    /// Reads a text field at `*index` and moves `*index` past it.
    fn get_string(&self, index: &mut usize) -> Result<String, DecodingError>;

    /// Reads a bool field at `*index` and moves `*index` past it.
    fn get_bool(&self, index: &mut usize) -> Result<bool, DecodingError>;

    /// Reads a u16 field at `*index` and moves `*index` past it.
    fn get_u16(&self, index: &mut usize) -> Result<u16, DecodingError>;
}

impl AtlasPacketReader for [u8; ATLAS_PACKET_SIZE] {
    fn get_packet(&self) -> (r: Result<AtlasPacket, DecodingError>)
        ensures
            r is Ok <==> decode_frame(self@) is Ok,
            r matches Ok(p) ==> decode_frame(self@) == Ok::<AtlasPacketView, DecodingError>(p@),
            r matches Err(e) ==> decode_frame(self@) == Err::<AtlasPacketView, DecodingError>(e),
    {
        let mut index: usize = 1;
        let t = match AtlasPacketTypes::from_tag(self[0]) {
            None => return Err(DecodingError::UnknownTag),
            Some(t) => t,
        };
        match t {
            AtlasPacketTypes::ConnectionRequest => Ok(AtlasPacket::ConnectionRequest),
            AtlasPacketTypes::ConnectionResponse => {
                let w = match self.get_string(&mut index) {
                    Ok(w) => w,
                    Err(e) => return Err(e),
                };
                Ok(AtlasPacket::ConnectionResponse(w))
            },
            AtlasPacketTypes::LoginRequest => {
                let u = match self.get_string(&mut index) {
                    Ok(u) => u,
                    Err(e) => return Err(e),
                };
                let p = match self.get_string(&mut index) {
                    Ok(p) => p,
                    Err(e) => return Err(e),
                };
                let g = match self.get_string(&mut index) {
                    Ok(g) => g,
                    Err(e) => return Err(e),
                };
                Ok(AtlasPacket::LoginRequest(u, p, g))
            },
            AtlasPacketTypes::LoginResponse => {
                let c = match self.get_u16(&mut index) {
                    Ok(c) => c,
                    Err(e) => return Err(e),
                };
                let tok = match self.get_string(&mut index) {
                    Ok(tok) => tok,
                    Err(e) => return Err(e),
                };
                Ok(AtlasPacket::LoginResponse(c, tok))
            },
            AtlasPacketTypes::RegisterResponse => {
                let c = match self.get_u16(&mut index) {
                    Ok(c) => c,
                    Err(e) => return Err(e),
                };
                Ok(AtlasPacket::RegisterResponse(c))
            },
            AtlasPacketTypes::JoinChatroomResponse => {
                let c = match self.get_u16(&mut index) {
                    Ok(c) => c,
                    Err(e) => return Err(e),
                };
                Ok(AtlasPacket::JoinChatroomResponse(c))
            },
            AtlasPacketTypes::SendMessageResponse => {
                let c = match self.get_u16(&mut index) {
                    Ok(c) => c,
                    Err(e) => return Err(e),
                };
                Ok(AtlasPacket::SendMessageResponse(c))
            },
            _ => {
                let a = match self.get_string(&mut index) {
                    Ok(a) => a,
                    Err(e) => return Err(e),
                };
                let b = match self.get_string(&mut index) {
                    Ok(b) => b,
                    Err(e) => return Err(e),
                };
                match t {
                    AtlasPacketTypes::RegisterRequest => Ok(AtlasPacket::RegisterRequest(a, b)),
                    AtlasPacketTypes::JoinChatroomRequest => Ok(AtlasPacket::JoinChatroomRequest(a, b)),
                    AtlasPacketTypes::SendMessageRequest => Ok(AtlasPacket::SendMessageRequest(a, b)),
                    _ => Ok(AtlasPacket::RecvMessage(a, b)),
                }
            },
        }
    }

    fn get_string(&self, index: &mut usize) -> (r: Result<String, DecodingError>)
        ensures
            match read_text(self@, *old(index) as int) {
                Ok((s, j)) => r matches Ok(v) && v@ == s && *final(index) == j,
                Err(e) => r == Err::<String, DecodingError>(e) && *final(index) == *old(index),
            },
    {
        let i = *index;
        if i > ATLAS_PACKET_SIZE - 8 {
            return Err(DecodingError::Truncated);
        }
        let n: u64 = ((self[i] as u64) << 56u64) | ((self[i + 1] as u64) << 48u64) | ((self[i
            + 2] as u64) << 40u64) | ((self[i + 3] as u64) << 32u64) | ((self[i + 4] as u64)
            << 24u64) | ((self[i + 5] as u64) << 16u64) | ((self[i + 6] as u64) << 8u64) | (self[i
            + 7] as u64);
        assert(n == u64_of_be(self@.subrange(i as int, i + 8)));
        let start = i + 8;
        if n > (ATLAS_PACKET_SIZE - start) as u64 {
            return Err(DecodingError::Truncated);
        }
        let end = start + n as usize;
        let mut bytes: Vec<u8> = Vec::new();
        let mut k: usize = start;
        while k < end
            invariant
                start <= k <= end <= ATLAS_PACKET_SIZE,
                self@.len() == ATLAS_PACKET_SIZE,
                bytes@ == self@.subrange(start as int, k as int),
            decreases end - k,
        {
            bytes.push(self[k]);
            k = k + 1;
            assert(bytes@ =~= self@.subrange(start as int, k as int));
        }
        match string_from_utf8(bytes) {
            None => Err(DecodingError::InvalidUtf8),
            Some(s) => {
                *index = end;
                Ok(s)
            },
        }
    }

    fn get_bool(&self, index: &mut usize) -> (r: Result<bool, DecodingError>)
        ensures
            match read_bool(self@, *old(index) as int) {
                Ok((b, j)) => r == Ok::<bool, DecodingError>(b) && *final(index) == j,
                Err(e) => r == Err::<bool, DecodingError>(e) && *final(index) == *old(index),
            },
    {
        let i = *index;
        if i >= ATLAS_PACKET_SIZE {
            return Err(DecodingError::Truncated);
        }
        *index = i + 1;
        Ok(self[i] != 0)
    }

    fn get_u16(&self, index: &mut usize) -> (r: Result<u16, DecodingError>)
        ensures
            match read_u16(self@, *old(index) as int) {
                Ok((v, j)) => r == Ok::<u16, DecodingError>(v) && *final(index) == j,
                Err(e) => r == Err::<u16, DecodingError>(e) && *final(index) == *old(index),
            },
    {
        let i = *index;
        if i > ATLAS_PACKET_SIZE - 2 {
            return Err(DecodingError::Truncated);
        }
        *index = i + 2;
        let v: u16 = ((self[i] as u16) << 8u16) | (self[i + 1] as u16);
        assert(v == u16_of_be(self@[i as int], self@[i + 1]));
        Ok(v)
    }
}

} // verus!

//! Properties of the codec as a whole, proved over the spec functions that
//! the encoder and the decoder are held to.
use vstd::prelude::*;
use vstd::utf8::encode_utf8;
use crate::packet::{
    encode_frame, fields_bytes, kind_of, padded, payload_bytes, AtlasPacket, AtlasPacketView,
    ATLAS_PACKET_SIZE,
};
use crate::reader::{decode_fields, decode_frame, read_two_texts};
use crate::wire::{be_u16, lemma_read_text_at, lemma_read_u16_at, read_text, read_u16, text_bytes, u64_of_be, DecodingError};

verus! {

/// Two text fields stored from offset 1 on are read back.
proof fn lemma_read_two_texts_at(f: Seq<u8>, t: u8, a: Seq<char>, b: Seq<char>, post: Seq<u8>)
    requires
        f == seq![t] + (text_bytes(a) + text_bytes(b)) + post,
        encode_utf8(a).len() <= u64::MAX,
        encode_utf8(b).len() <= u64::MAX,
    ensures
        read_two_texts(f, 1) == Ok::<(Seq<char>, Seq<char>, int), DecodingError>(
            (a, b, 1 + text_bytes(a).len() as int + text_bytes(b).len()),
        ),
{
    let pre = seq![t];
    assert(f =~= pre + text_bytes(a) + (text_bytes(b) + post));
    lemma_read_text_at(f, pre, a, text_bytes(b) + post);
    assert(f =~= (pre + text_bytes(a)) + text_bytes(b) + post);
    lemma_read_text_at(f, pre + text_bytes(a), b, post);
}

/// A login request stored after its tag byte is read back.
proof fn lemma_login_request_round_trip(f: Seq<u8>, t: u8, u: Seq<char>, pw: Seq<char>, g: Seq<char>, z: Seq<u8>)
    requires
        f == seq![t] + (text_bytes(u) + text_bytes(pw) + text_bytes(g)) + z,
        f.len() <= u64::MAX,
    ensures
        read_two_texts(f, 1) == Ok::<(Seq<char>, Seq<char>, int), DecodingError>(
            (u, pw, 1 + text_bytes(u).len() as int + text_bytes(pw).len()),
        ),
        read_text(f, 1 + text_bytes(u).len() as int + text_bytes(pw).len()) == Ok::<
            (Seq<char>, int),
            DecodingError,
        >((g, f.len() - z.len())),
{
    let pre = seq![t];
    assert(f =~= pre + (text_bytes(u) + text_bytes(pw)) + (text_bytes(g) + z));
    lemma_read_two_texts_at(f, t, u, pw, text_bytes(g) + z);
    assert(f =~= (pre + text_bytes(u) + text_bytes(pw)) + text_bytes(g) + z);
    lemma_read_text_at(f, pre + text_bytes(u) + text_bytes(pw), g, z);
}

/// A login response stored after its tag byte is read back.
proof fn lemma_login_response_round_trip(f: Seq<u8>, t: u8, c: u16, tok: Seq<char>, z: Seq<u8>)
    requires
        f == seq![t] + (be_u16(c) + text_bytes(tok)) + z,
        f.len() <= u64::MAX,
    ensures
        read_u16(f, 1) == Ok::<(u16, int), DecodingError>((c, 3)),
        read_text(f, 3) == Ok::<(Seq<char>, int), DecodingError>((tok, f.len() - z.len())),
{
    let pre = seq![t];
    assert(f =~= pre + be_u16(c) + (text_bytes(tok) + z));
    lemma_read_u16_at(f, pre, c, text_bytes(tok) + z);
    assert(f =~= (pre + be_u16(c)) + text_bytes(tok) + z);
    lemma_read_text_at(f, pre + be_u16(c), tok, z);
}

/// The fields of a message stored after its tag byte are read back.
proof fn lemma_fields_round_trip(m: AtlasPacketView, f: Seq<u8>, z: Seq<u8>)
    requires
        f == seq![kind_of(m).spec_tag()] + fields_bytes(m) + z,
        f.len() <= u64::MAX,
    ensures
        decode_fields(kind_of(m), f) == Ok::<AtlasPacketView, DecodingError>(m),
{
    let t = kind_of(m).spec_tag();
    let pre = seq![t];
    match m {
        AtlasPacketView::ConnectionRequest => {},
        AtlasPacketView::ConnectionResponse(w) => {
            lemma_read_text_at(f, pre, w, z);
        },
        AtlasPacketView::LoginRequest(u, pw, g) => {
            lemma_login_request_round_trip(f, t, u, pw, g, z);
        },
        AtlasPacketView::LoginResponse(c, tok) => {
            lemma_login_response_round_trip(f, t, c, tok, z);
        },
        AtlasPacketView::RegisterResponse(c) => {
            lemma_read_u16_at(f, pre, c, z);
        },
        AtlasPacketView::JoinChatroomResponse(c) => {
            lemma_read_u16_at(f, pre, c, z);
        },
        AtlasPacketView::SendMessageResponse(c) => {
            lemma_read_u16_at(f, pre, c, z);
        },
        AtlasPacketView::RegisterRequest(a, b) => {
            lemma_read_two_texts_at(f, t, a, b, z);
        },
        AtlasPacketView::JoinChatroomRequest(a, b) => {
            lemma_read_two_texts_at(f, t, a, b, z);
        },
        AtlasPacketView::SendMessageRequest(a, b) => {
            lemma_read_two_texts_at(f, t, a, b, z);
        },
        AtlasPacketView::RecvMessage(a, b) => {
            lemma_read_two_texts_at(f, t, a, b, z);
        },
    }
}

/// Decoding the frame of a message gives the message back, for every
/// message whose payload fits in a frame.
pub proof fn lemma_round_trip(m: AtlasPacketView)
    ensures
        encode_frame(m) matches Ok(f) ==> decode_frame(f) == Ok::<AtlasPacketView, DecodingError>(m),
{
    let p = payload_bytes(m);
    if p.len() < ATLAS_PACKET_SIZE {
        let f = padded(p);
        let z = Seq::new((ATLAS_PACKET_SIZE - p.len()) as nat, |i: int| 0u8);
        assert(f[0] == kind_of(m).spec_tag());
        lemma_fields_round_trip(m, f, z);
    }
}

/// The tag byte alone picks the kind: tag 0 is a connection request with no
/// field read, and any message decoded from a frame has the kind that its
/// tag byte names, so tag 10 gives a received message and nothing else.
pub proof fn lemma_tag_mapping(f: Seq<u8>)
    requires
        f.len() == ATLAS_PACKET_SIZE,
    ensures
        f[0] == 0 ==> decode_frame(f) == Ok::<AtlasPacketView, DecodingError>(
            AtlasPacketView::ConnectionRequest,
        ),
        decode_frame(f) matches Ok(m) ==> kind_of(m).spec_tag() == f[0],
{
}

/// A tag byte past the last kind is refused as unknown, never read as
/// another kind.
pub proof fn lemma_unknown_tag(f: Seq<u8>)
    requires
        f.len() == ATLAS_PACKET_SIZE,
        f[0] > 10,
    ensures
        decode_frame(f) == Err::<AtlasPacketView, DecodingError>(DecodingError::UnknownTag),
{
}

/// A text field whose length prefix claims more bytes than remain in the
/// frame is refused as truncated.
pub proof fn lemma_text_overrun(f: Seq<u8>, i: int)
    requires
        0 <= i,
        i + 8 <= f.len(),
        u64_of_be(f.subrange(i, i + 8)) > f.len() - (i + 8),
    ensures
        read_text(f, i) == Err::<(Seq<char>, int), DecodingError>(DecodingError::Truncated),
{
}

/// Encoding depends on the message alone: equal messages give the same frame.
pub proof fn lemma_encode_deterministic(a: AtlasPacket, b: AtlasPacket)
    requires
        a@ == b@,
    ensures
        encode_frame(a@) == encode_frame(b@),
{
}

} // verus!

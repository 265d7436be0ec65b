use atlas_packet::packet::{
    AtlasPacket, AtlasPacketTypes, AtlasPacketWriter, AtlasResponseCodes, EncodingError,
    ATLAS_PACKET_SIZE,
};
use atlas_packet::reader::AtlasPacketReader;
use atlas_packet::wire::DecodingError;

fn s(text: &str) -> String {
    text.to_string()
}

fn round_trip(p: AtlasPacket) {
    let frame = p.serialize().expect("message fits in a frame");
    assert_eq!(frame.len(), ATLAS_PACKET_SIZE);
    assert_eq!(frame.get_packet(), Ok(p));
}

fn all_variants() -> Vec<AtlasPacket> {
    vec![
        AtlasPacket::ConnectionRequest,
        AtlasPacket::ConnectionResponse(s("Welcome to Atlas!")),
        AtlasPacket::LoginRequest(s("alice"), s("pw123"), s("1.0")),
        AtlasPacket::LoginResponse(AtlasResponseCodes::Success.code(), s("tok-42")),
        AtlasPacket::RegisterRequest(s("bob"), s("hunter2")),
        AtlasPacket::RegisterResponse(AtlasResponseCodes::UsernameExists.code()),
        AtlasPacket::JoinChatroomRequest(s("general"), s("tok-42")),
        AtlasPacket::JoinChatroomResponse(AtlasResponseCodes::ChatroomDoesntExist.code()),
        AtlasPacket::SendMessageRequest(s("hello, world"), s("tok-42")),
        AtlasPacket::SendMessageResponse(AtlasResponseCodes::IncorrectToken.code()),
        AtlasPacket::RecvMessage(s("carol"), s("hi all")),
    ]
}

#[test]
fn round_trip_every_variant() {
    for p in all_variants() {
        round_trip(p);
    }
}

#[test]
fn round_trip_empty_and_long_texts() {
    round_trip(AtlasPacket::ConnectionResponse(String::new()));
    round_trip(AtlasPacket::LoginRequest(String::new(), String::new(), String::new()));
    round_trip(AtlasPacket::RecvMessage("x".repeat(300), "y".repeat(300)));
    round_trip(AtlasPacket::LoginResponse(65535, "z".repeat(250)));
}

#[test]
fn round_trip_multibyte_text() {
    round_trip(AtlasPacket::SendMessageRequest(s("héllo ✓ 𝄞"), s("tök")));
}

#[test]
fn round_trip_every_response_code() {
    for code in 0u16..=5 {
        round_trip(AtlasPacket::RegisterResponse(code));
        round_trip(AtlasPacket::JoinChatroomResponse(code));
        round_trip(AtlasPacket::SendMessageResponse(code));
        round_trip(AtlasPacket::LoginResponse(code, s("t")));
    }
}

#[test]
fn unknown_code_passes_through() {
    round_trip(AtlasPacket::RegisterResponse(999));
}

#[test]
fn payload_of_4095_bytes_fits() {
    // tag (1) + length prefix (8) + text (4086) = 4095
    let p = AtlasPacket::ConnectionResponse("a".repeat(4086));
    let frame = p.serialize().expect("4095-byte payload fits");
    assert_eq!(frame[0], 1);
    assert_eq!(&frame[1..9], &4086u64.to_be_bytes());
    assert_eq!(frame[4094], b'a');
    assert_eq!(frame[4095], 0);
    assert_eq!(frame.get_packet(), Ok(p));
}

#[test]
fn payload_of_4096_bytes_is_too_large() {
    let p = AtlasPacket::ConnectionResponse("a".repeat(4087));
    assert_eq!(p.serialize(), Err(EncodingError::FrameTooLarge));
    let q = AtlasPacket::RecvMessage("a".repeat(3000), "b".repeat(3000));
    assert_eq!(q.serialize(), Err(EncodingError::FrameTooLarge));
}

#[test]
fn vec_to_raw_packet_bounds() {
    let ok = AtlasPacketWriter::vec_to_raw_packet(vec![7u8; 4095]).unwrap();
    assert!(ok[..4095].iter().all(|b| *b == 7));
    assert_eq!(ok[4095], 0);
    assert_eq!(
        AtlasPacketWriter::vec_to_raw_packet(vec![7u8; 4096]),
        Err(EncodingError::FrameTooLarge)
    );
    let empty = AtlasPacketWriter::vec_to_raw_packet(Vec::new()).unwrap();
    assert!(empty.iter().all(|b| *b == 0));
}

#[test]
fn tag_zero_is_connection_request() {
    let mut frame = [0u8; ATLAS_PACKET_SIZE];
    assert_eq!(frame.get_packet(), Ok(AtlasPacket::ConnectionRequest));
    for (i, b) in frame.iter_mut().enumerate().skip(1) {
        *b = (i % 251) as u8 | 1;
    }
    assert_eq!(frame.get_packet(), Ok(AtlasPacket::ConnectionRequest));
}

#[test]
fn tag_ten_is_recv_message() {
    let frame = AtlasPacket::RecvMessage(s("dave"), s("yo")).serialize().unwrap();
    assert_eq!(frame[0], 10);
    assert_eq!(frame.get_packet(), Ok(AtlasPacket::RecvMessage(s("dave"), s("yo"))));
}

#[test]
fn tags_follow_declaration_order() {
    for (i, p) in all_variants().iter().enumerate() {
        assert_eq!(p.serialize().unwrap()[0] as usize, i);
    }
    for b in 0u8..=10 {
        let t = AtlasPacketTypes::from_tag(b).unwrap();
        assert_eq!(t.tag(), b);
    }
    assert_eq!(AtlasPacketTypes::from_tag(11), None);
    assert_eq!(AtlasPacketTypes::RecvMessage.tag(), 10);
}

#[test]
fn text_claiming_more_than_remains_is_truncated() {
    // RegisterRequest: a first text of 4069 bytes ends at offset 4078; the
    // second text's prefix claims 50 bytes but only 10 remain after it.
    let mut frame = [0u8; ATLAS_PACKET_SIZE];
    frame[0] = 4;
    frame[1..9].copy_from_slice(&4069u64.to_be_bytes());
    for b in frame[9..4078].iter_mut() {
        *b = b'a';
    }
    frame[4078..4086].copy_from_slice(&50u64.to_be_bytes());
    for b in frame[4086..].iter_mut() {
        *b = b'b';
    }
    assert_eq!(frame.get_packet(), Err(DecodingError::Truncated));
}

#[test]
fn huge_length_prefix_is_truncated() {
    let mut frame = [0u8; ATLAS_PACKET_SIZE];
    frame[0] = 1;
    frame[1..9].copy_from_slice(&u64::MAX.to_be_bytes());
    assert_eq!(frame.get_packet(), Err(DecodingError::Truncated));
}

#[test]
fn unknown_tag_255() {
    let mut frame = [0u8; ATLAS_PACKET_SIZE];
    frame[0] = 255;
    assert_eq!(frame.get_packet(), Err(DecodingError::UnknownTag));
    frame[0] = 11;
    assert_eq!(frame.get_packet(), Err(DecodingError::UnknownTag));
}

#[test]
fn invalid_utf8_text() {
    let mut frame = [0u8; ATLAS_PACKET_SIZE];
    frame[0] = 1;
    frame[1..9].copy_from_slice(&2u64.to_be_bytes());
    frame[9] = 0xff;
    frame[10] = 0xfe;
    assert_eq!(frame.get_packet(), Err(DecodingError::InvalidUtf8));
}

#[test]
fn login_request_is_deterministic() {
    let a = AtlasPacket::LoginRequest(s("alice"), s("pw123"), s("1.0"));
    let b = AtlasPacket::LoginRequest(s("alice"), s("pw123"), s("1.0"));
    let fa = a.serialize().unwrap();
    let fb = b.serialize().unwrap();
    assert_eq!(fa, fb);
    assert_eq!(fa, a.serialize().unwrap());
    let mut expected: Vec<u8> = vec![2];
    for text in ["alice", "pw123", "1.0"] {
        expected.extend_from_slice(&(text.len() as u64).to_be_bytes());
        expected.extend_from_slice(text.as_bytes());
    }
    assert_eq!(&fa[..expected.len()], &expected[..]);
    assert!(fa[expected.len()..].iter().all(|b| *b == 0));
}

#[test]
fn register_response_zero_example() {
    let frame = AtlasPacket::RegisterResponse(0).serialize().unwrap();
    let mut expected = [0u8; ATLAS_PACKET_SIZE];
    expected[0] = 5;
    assert_eq!(frame, expected);
    assert_eq!(expected.get_packet(), Ok(AtlasPacket::RegisterResponse(0)));
}

#[test]
fn u16_is_big_endian() {
    let frame = AtlasPacket::LoginResponse(0x0102, s("t")).serialize().unwrap();
    assert_eq!(&frame[..13], &[3, 1, 2, 0, 0, 0, 0, 0, 0, 0, 1, b't', 0]);
}

#[test]
fn text_length_counts_bytes_not_chars() {
    let frame = AtlasPacket::ConnectionResponse(s("é")).serialize().unwrap();
    assert_eq!(&frame[1..9], &2u64.to_be_bytes());
    assert_eq!(&frame[9..11], "é".as_bytes());
}

#[test]
fn get_string_moves_the_cursor() {
    let frame = AtlasPacket::RegisterRequest(s("ab"), s("ünï")).serialize().unwrap();
    let mut index: usize = 1;
    assert_eq!(frame.get_string(&mut index), Ok(s("ab")));
    assert_eq!(index, 11);
    assert_eq!(frame.get_string(&mut index), Ok(s("ünï")));
    assert_eq!(index, 11 + 8 + 5);
    let mut end: usize = ATLAS_PACKET_SIZE - 7;
    assert_eq!(frame.get_string(&mut end), Err(DecodingError::Truncated));
    assert_eq!(end, ATLAS_PACKET_SIZE - 7);
}

#[test]
fn get_u16_and_get_bool() {
    let mut frame = [0u8; ATLAS_PACKET_SIZE];
    frame[1] = 0xab;
    frame[2] = 0xcd;
    frame[3] = 2;
    let mut index: usize = 1;
    assert_eq!(frame.get_u16(&mut index), Ok(0xabcd));
    assert_eq!(index, 3);
    assert_eq!(frame.get_bool(&mut index), Ok(true));
    assert_eq!(frame.get_bool(&mut index), Ok(false));
    assert_eq!(index, 5);
    let mut last: usize = ATLAS_PACKET_SIZE - 1;
    assert_eq!(frame.get_u16(&mut last), Err(DecodingError::Truncated));
    assert_eq!(last, ATLAS_PACKET_SIZE - 1);
    let mut past: usize = ATLAS_PACKET_SIZE;
    assert_eq!(frame.get_bool(&mut past), Err(DecodingError::Truncated));
}

#[test]
fn response_code_values() {
    assert_eq!(AtlasResponseCodes::Success.code(), 0);
    assert_eq!(AtlasResponseCodes::UsernameExists.code(), 1);
    assert_eq!(AtlasResponseCodes::UserDoesntExist.code(), 2);
    assert_eq!(AtlasResponseCodes::IncorrectPassword.code(), 3);
    assert_eq!(AtlasResponseCodes::IncorrectToken.code(), 4);
    assert_eq!(AtlasResponseCodes::ChatroomDoesntExist.code(), 5);
}

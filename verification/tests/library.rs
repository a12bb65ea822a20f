use bytes::BytesMut;
use ongrok::codec::{
    control_frame_length, decode_frame_payload, decode_frames, encode_frame, CodecError,
    MAX_FRAME_SIZE, PROTOCOL_VERSION,
};
use ongrok::frame::{error_frame, Frame};
use ongrok::ids::{id_text, parse_id, EventId, NodeId, PortLeaseId, ServiceId, TunnelId};
use ongrok::metadata::{comes_before, validate_service_name, Metadata, StringMap, ValidationError};
use ongrok::model::{HeartbeatSnapshot, TokenKind};
use ongrok::text::{
    contains_text, decimal, hex_encode, padded, strip_prefix, strip_suffix, to_lower,
};
use ongrok::token::{
    generate_token, hash_token, load_or_initialize_tokens, token_from_bytes, TokenState,
};

#[test]
fn metadata_and_names_validate() {
    let mut m = Metadata::default();
    m.0.insert("env".into(), "prod".into());
    assert!(m.validate().is_ok());
    m.0.insert("Bad".into(), "x".into());
    assert!(matches!(
        m.validate(),
        Err(ValidationError::InvalidMetadataKey(_))
    ));
    assert!(validate_service_name("ssh-1").is_ok());
    assert!(validate_service_name("SSH").is_err());
}

#[test]
fn metadata_limits_are_exact() {
    let mut m = Metadata::default();
    for i in 0..32 {
        m.0.insert(format!("k{i}"), String::new());
    }
    assert!(m.validate().is_ok());
    m.0.insert("one-more".into(), String::new());
    assert_eq!(m.validate(), Err(ValidationError::TooManyMetadataEntries));

    let mut m = Metadata::default();
    m.0.insert("a".repeat(64), String::new());
    assert!(m.validate().is_ok());
    m.0.insert("a".repeat(65), String::new());
    assert_eq!(
        m.validate(),
        Err(ValidationError::InvalidMetadataKey("a".repeat(65)))
    );

    let mut m = Metadata::default();
    m.0.insert("note".into(), "é".repeat(128));
    assert!(m.validate().is_ok());
    m.0.insert("note".into(), "é".repeat(128) + "x");
    assert_eq!(
        m.validate(),
        Err(ValidationError::MetadataValueTooLong("note".into()))
    );

    let mut m = Metadata::default();
    for i in 0..16 {
        m.0.insert(format!("k{i:02}"), "v".repeat(253));
    }
    assert!(m.validate().is_ok());
    m.0.insert("z".into(), String::new());
    assert_eq!(m.validate(), Err(ValidationError::MetadataTooLarge));
}

#[test]
fn first_faulty_entry_in_key_order_is_reported() {
    let mut m = Metadata::default();
    m.0.insert("zz!".into(), String::new());
    m.0.insert("B".into(), String::new());
    m.0.insert("a".into(), "v".repeat(257));
    assert_eq!(
        m.validate(),
        Err(ValidationError::InvalidMetadataKey("B".into()))
    );
    let mut empty = Metadata::default();
    empty.0.insert(String::new(), String::new());
    assert_eq!(
        empty.validate(),
        Err(ValidationError::InvalidMetadataKey(String::new()))
    );
}

#[test]
fn validation_errors_have_texts() {
    assert_eq!(
        ValidationError::TooManyMetadataEntries.message(),
        "too many metadata entries"
    );
    assert_eq!(
        ValidationError::InvalidMetadataKey("K".into()).message(),
        "invalid metadata key: K"
    );
    assert_eq!(
        ValidationError::MetadataValueTooLong("k".into()).message(),
        "metadata value too long for key: k"
    );
    assert_eq!(
        ValidationError::MetadataTooLarge.message(),
        "metadata exceeds total size limit"
    );
    assert_eq!(
        ValidationError::InvalidServiceName.message(),
        "service name is invalid"
    );
}

#[test]
fn service_names_are_domain_labels() {
    let longest = "a".repeat(63);
    for name in ["a", "0", "a-b", "a--b", longest.as_str()] {
        assert!(validate_service_name(name).is_ok(), "{name}");
    }
    let too_long = "a".repeat(64);
    for name in ["", "-a", "a-", "-", "a.b", "a_b", "é", too_long.as_str()] {
        assert_eq!(
            validate_service_name(name),
            Err(ValidationError::InvalidServiceName),
            "{name}"
        );
    }
}

#[test]
fn string_maps_keep_keys_in_order() {
    let mut map = StringMap::new();
    assert_eq!(map.insert("b".into(), "1".into()), None);
    assert_eq!(map.insert("a".into(), "2".into()), None);
    assert_eq!(map.insert("b".into(), "3".into()), Some("1".into()));
    assert_eq!(map.len(), 2);
    assert_eq!(map.entry(0), ("a", "2"));
    assert_eq!(map.entry(1), ("b", "3"));
    assert!(comes_before("a", "ab"));
    assert!(!comes_before("ab", "a"));
    assert!(comes_before("Z", "a"));
}

#[test]
fn texts_are_searched_and_formatted() {
    assert_eq!(strip_prefix("Bearer x", "Bearer "), Some("x".into()));
    assert_eq!(strip_prefix("bearer x", "Bearer "), None);
    assert_eq!(strip_suffix("id/metrics", "/metrics"), Some("id".into()));
    assert_eq!(strip_suffix("metrics", "/metrics"), None);
    assert!(contains_text("server rejected token", "rejected token"));
    assert!(contains_text("x", ""));
    assert!(!contains_text("", "x"));
    assert_eq!(decimal(0), "0");
    assert_eq!(decimal(u64::MAX), "18446744073709551615");
    assert_eq!(padded(42, 5), "00042");
    assert_eq!(hex_encode(&[0, 255, 16]), "00ff10");
    assert_eq!(to_lower('Z'), 'z');
    assert_eq!(to_lower('é'), 'é');
}

#[test]
fn identifiers_are_version_7_and_read_back() {
    let ids = [
        NodeId::new().0,
        ServiceId::new().0,
        TunnelId::new().0,
        PortLeaseId::new().0,
        EventId::new().0,
        NodeId::default().0,
    ];
    for (i, id) in ids.iter().enumerate() {
        assert_eq!((id >> 76) & 15, 7);
        assert_eq!((id >> 62) & 3, 2);
        assert_eq!(parse_id(&id_text(*id)), Some(*id));
        for other in &ids[i + 1..] {
            assert_ne!(id, other);
            assert_ne!(id_text(*id), id_text(*other));
        }
    }
    assert_eq!(
        id_text(0x0123_4567_89ab_cdef_0123_4567_89ab_cdef),
        "01234567-89ab-cdef-0123-456789abcdef"
    );
    assert_eq!(parse_id("not an identifier"), None);
}

#[test]
fn identifiers_have_four_spellings() {
    let id = 0x0123_4567_89ab_cdef_0123_4567_89ab_cdef;
    for text in [
        "0123456789abcdef0123456789abcdef",
        "0123456789ABCDEF0123456789abcdef",
        "01234567-89ab-cdef-0123-456789abcdef",
        "01234567-89AB-cdef-0123-456789ABCDEF",
        "{01234567-89ab-cdef-0123-456789abcdef}",
        "urn:uuid:01234567-89ab-cdef-0123-456789abcdef",
        "URN:Uuid:01234567-89ab-CDEF-0123-456789abcdef",
    ] {
        assert_eq!(parse_id(text), Some(id), "{text}");
    }
    for text in [
        "",
        "0123456789abcdef0123456789abcdeg",
        "0123456789abcdef0123456789abcde",
        "{0123456789abcdef0123456789abcdef}",
        "0123456-789ab-cdef-0123-456789abcdef",
        "{01234567-89ab-cdef-0123-456789abcdef",
        "urn:uuid:0123456789abcdef0123456789abcdef",
        "01234567-89ab-cdef-0123-456789abcd\u{e9}",
    ] {
        assert_eq!(parse_id(text), None, "{text}");
    }
}

fn payload(frame: &Frame) -> Result<Vec<u8>, String> {
    let encoded = match frame {
        Frame::Hello { version } => postcard::to_allocvec(&(0u32, *version)),
        Frame::Goodbye => postcard::to_allocvec(&16u32),
        _ => return Err("not used".into()),
    };
    encoded.map_err(|error| error.to_string())
}

fn read(bytes: &[u8]) -> Result<Frame, String> {
    let (tag, rest) =
        postcard::take_from_bytes::<u32>(bytes).map_err(|error| error.to_string())?;
    match tag {
        0 => postcard::from_bytes(rest)
            .map(|version| Frame::Hello { version })
            .map_err(|error| error.to_string()),
        16 => Ok(Frame::Goodbye),
        _ => Err("unknown message".into()),
    }
}

#[test]
fn codec_handles_partial_and_multiple_frames() {
    let a = encode_frame(payload(&Frame::Hello {
        version: PROTOCOL_VERSION,
    }))
    .unwrap();
    let b = encode_frame(payload(&Frame::Goodbye)).unwrap();
    let mut buf = BytesMut::new();
    buf.extend_from_slice(&a[..2]);
    assert!(decode_frames(&mut buf, read).unwrap().is_empty());
    buf.extend_from_slice(&a[2..]);
    buf.extend_from_slice(&b);
    let frames = decode_frames(&mut buf, read).unwrap();
    assert_eq!(frames.len(), 2);
    assert!(buf.is_empty());
    assert!(matches!(frames[0], Frame::Hello { version: 1 }));
    assert!(matches!(frames[1], Frame::Goodbye));
}

#[test]
fn frames_carry_their_length_in_front() {
    let frame = encode_frame(Ok(vec![7; 258])).unwrap();
    assert_eq!(&frame[..4], &[0, 0, 1, 2]);
    assert_eq!(&frame[4..], &[7; 258]);
    assert!(encode_frame(Ok(vec![0; MAX_FRAME_SIZE])).is_ok());
    assert_eq!(
        encode_frame(Ok(vec![0; MAX_FRAME_SIZE + 1])),
        Err(CodecError::FrameTooLarge)
    );
    assert_eq!(
        encode_frame(Err("reason".into())),
        Err(CodecError::Malformed("reason".into()))
    );
}

#[test]
fn codec_rejects_bad_headers_and_payloads() {
    let mut too_large = BytesMut::from(&[0, 16, 0, 1, 9][..]);
    assert_eq!(
        decode_frames(&mut too_large, read).err(),
        Some(CodecError::FrameTooLarge)
    );
    assert_eq!(too_large.len(), 5);
    let mut empty = BytesMut::from(&[0, 0, 0, 0][..]);
    assert_eq!(
        decode_frames(&mut empty, read).err(),
        Some(CodecError::InvalidLength)
    );
    let mut unknown = BytesMut::from(&[0, 0, 0, 1, 99, 5][..]);
    assert_eq!(
        decode_frames(&mut unknown, read).err(),
        Some(CodecError::Malformed("unknown message".into()))
    );
    assert_eq!(&unknown[..], &[5]);
    assert_eq!(
        decode_frame_payload::<u8>(Err("x".into())),
        Err(CodecError::Malformed("x".into()))
    );
    assert_eq!(decode_frame_payload(Ok(3u8)), Ok(3));
    assert_eq!(
        CodecError::Malformed("x".into()).message(),
        "malformed frame: x"
    );
    assert_eq!(
        CodecError::FrameTooLarge.message(),
        "frame exceeds maximum size"
    );
    assert_eq!(CodecError::InvalidLength.message(), "invalid frame length");
}

#[test]
fn pieces_of_a_stream_give_the_same_frames() {
    let mut stream = Vec::new();
    for version in 1..5u16 {
        stream.extend_from_slice(&encode_frame(payload(&Frame::Hello { version })).unwrap());
    }
    let mut whole = BytesMut::from(&stream[..]);
    let expected = decode_frames(&mut whole, read).unwrap().len();
    for cut in 0..stream.len() {
        let mut buf = BytesMut::from(&stream[..cut]);
        let first = decode_frames(&mut buf, read).unwrap().len();
        buf.extend_from_slice(&stream[cut..]);
        let second = decode_frames(&mut buf, read).unwrap().len();
        assert_eq!(first + second, expected);
        assert!(buf.is_empty());
    }
}

#[test]
fn control_frame_headers_are_bounded() {
    assert_eq!(control_frame_length([0, 0, 0, 1]), Ok(1));
    assert_eq!(control_frame_length([0, 16, 0, 0]), Ok(MAX_FRAME_SIZE));
    assert_eq!(
        control_frame_length([0, 0, 0, 0]),
        Err("invalid control frame length 0".into())
    );
    assert_eq!(
        control_frame_length([255, 255, 255, 255]),
        Err("invalid control frame length 4294967295".into())
    );
}

#[test]
fn error_frames_and_snapshots_have_their_fields() {
    assert!(matches!(error_frame("no"), Frame::Error { message } if message == "no"));
    let snapshot = HeartbeatSnapshot::default();
    assert_eq!(snapshot.sequence, 0);
    assert!(snapshot.cpu_percent.is_none());
}

#[test]
fn tokens_hash_consistently() {
    let (token, hash) = generate_token(TokenKind::User);
    assert!(token.starts_with("ongrok_user_"));
    assert_eq!(hash, hash_token(&token));
}

#[test]
fn tokens_are_prefixed_hexadecimal() {
    let (token, hash) = token_from_bytes(TokenKind::Admin, &[0xab; 32]);
    assert_eq!(token, format!("ongrok_admin_{}", "ab".repeat(32)));
    assert_eq!(hash, hash_token(&token));
    let (one, _) = generate_token(TokenKind::Admin);
    let (two, _) = generate_token(TokenKind::Admin);
    assert_eq!(one.len(), "ongrok_admin_".len() + 64);
    assert_ne!(one, two);
    assert_eq!(
        hex_encode(&hash_token("")),
        "af1349b9f5f9a1a6a0404dea36dcc9499bcb25c9adc112b7cc9a93cae41f3262"
    );
}

#[test]
fn token_state_persists_rotation_and_revocation() {
    let (initial, write) =
        load_or_initialize_tokens(None, hash_token("admin"), hash_token("user"));
    assert!(write);
    assert_eq!(
        initial.authenticate(hash_token("admin")),
        Some(TokenKind::Admin)
    );
    let rotated = TokenState {
        admin_hash: Some(hash_token("admin-2")),
        user_hash: None,
    };
    let (reloaded, write) =
        load_or_initialize_tokens(Some(rotated), hash_token("ignored"), hash_token("ignored"));
    assert!(!write);
    assert_eq!(
        reloaded.authenticate(hash_token("admin-2")),
        Some(TokenKind::Admin)
    );
    assert_eq!(reloaded.authenticate(hash_token("user")), None);
}

#[test]
fn replacing_a_token_ends_the_old_one_at_once() {
    let mut tokens = TokenState {
        admin_hash: Some(hash_token("admin")),
        user_hash: Some(hash_token("user")),
    };
    tokens.set(TokenKind::User, Some(hash_token("next")));
    assert_eq!(tokens.authenticate(hash_token("user")), None);
    assert_eq!(
        tokens.authenticate(hash_token("next")),
        Some(TokenKind::User)
    );
    assert_eq!(
        tokens.authenticate(hash_token("admin")),
        Some(TokenKind::Admin)
    );
    tokens.set(TokenKind::Admin, None);
    assert_eq!(tokens.authenticate(hash_token("admin")), None);
}

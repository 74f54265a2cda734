use mc_receptionist::codec::{read_prefixed_bytes, read_string, read_var_int, write_var_int};
use mc_receptionist::error::{ErrorKind, ProtocolError};
use mc_receptionist::protocol::{
    ClientboundKeepAlive, EncryptionResponse, Handshake, HandshakeIntent, LoginAcknowledged,
    LoginStart, LoginSuccess, Message, MessageType, Packet, Phase, PingRequest, PingResponse,
    StatusRequest, StatusResponse, Transfer,
};

fn frame(message: Message) -> Vec<u8> {
    let mut out = Vec::new();
    Packet::new(message).write_to(&mut out).unwrap();
    out
}

fn read_frame(bytes: &[u8], phase: Phase) -> Result<(Packet, usize), ProtocolError> {
    let (payload, end) = read_prefixed_bytes(bytes, 0)?;
    Ok((Packet::read_from(&payload, phase)?, end))
}

#[test]
fn handshake_frame_round_trip() {
    let h = Handshake {
        protocol_version: 773,
        server_address: "localhost".to_string(),
        server_port: 25565,
        intent: HandshakeIntent::Status,
    };
    let bytes = frame(Message::Handshake(h));
    // length, id 0, varint 773, "localhost", port, intent 1
    let mut expected = vec![0x10, 0x00, 0x85, 0x06, 0x09];
    expected.extend_from_slice(b"localhost");
    expected.extend_from_slice(&[0x63, 0xdd, 0x01]);
    assert_eq!(bytes, expected);
    let (packet, end) = read_frame(&bytes, Phase::Handshaking).unwrap();
    assert_eq!(end, bytes.len());
    match packet.message {
        Message::Handshake(h) => {
            assert_eq!(h.protocol_version, 773);
            assert_eq!(h.server_address, "localhost");
            assert_eq!(h.server_port, 25565);
            assert_eq!(h.intent, HandshakeIntent::Status);
        }
        other => panic!("unexpected {:?}", other),
    }
}

#[test]
fn inbound_frames_round_trip() {
    let ping = frame(Message::PingRequest(PingRequest { timestamp: 0xDEADBEEF }));
    match read_frame(&ping, Phase::Status).unwrap().0.message {
        Message::PingRequest(p) => assert_eq!(p.timestamp, 0xDEADBEEF),
        other => panic!("unexpected {:?}", other),
    }
    let start = frame(Message::LoginStart(LoginStart { username: "Steve".to_string(), uuid: 42 }));
    match read_frame(&start, Phase::Login).unwrap().0.message {
        Message::LoginStart(l) => {
            assert_eq!(l.username, "Steve");
            assert_eq!(l.uuid, 42);
        }
        other => panic!("unexpected {:?}", other),
    }
    let response = frame(Message::EncryptionResponse(EncryptionResponse {
        shared_secret: vec![1, 2, 3],
        verify_token: vec![4, 5],
    }));
    match read_frame(&response, Phase::Login).unwrap().0.message {
        Message::EncryptionResponse(r) => {
            assert_eq!(r.shared_secret, vec![1, 2, 3]);
            assert_eq!(r.verify_token, vec![4, 5]);
        }
        other => panic!("unexpected {:?}", other),
    }
    let ack = frame(Message::LoginAcknowledged(LoginAcknowledged {}));
    assert_eq!(ack, vec![0x01, 0x03]);
    assert!(matches!(read_frame(&ack, Phase::Login).unwrap().0.message, Message::LoginAcknowledged(_)));
    let request = frame(Message::StatusRequest(StatusRequest {}));
    assert_eq!(request, vec![0x01, 0x00]);
    assert!(matches!(read_frame(&request, Phase::Status).unwrap().0.message, Message::StatusRequest(_)));
}

#[test]
fn outbound_frames_exact_bytes() {
    let pong = frame(Message::PingResponse(PingResponse { timestamp: 0xDEADBEEF }));
    assert_eq!(pong, vec![0x09, 0x01, 0, 0, 0, 0, 0xde, 0xad, 0xbe, 0xef]);
    let success = frame(Message::LoginSuccess(LoginSuccess { uuid: 1, username: "Al".to_string() }));
    let mut expected = vec![0x15, 0x02];
    expected.extend_from_slice(&[0; 15]);
    expected.extend_from_slice(&[1, 2, b'A', b'l', 0]);
    assert_eq!(success, expected);
    let transfer = frame(Message::Transfer(Transfer { hostname: "203.0.113.5".to_string(), port: 25565 }));
    let mut expected = vec![0x10, 0x0b, 0x0b];
    expected.extend_from_slice(b"203.0.113.5");
    expected.extend_from_slice(&[0xdd, 0xc7, 0x01]);
    assert_eq!(transfer, expected);
    let keep_alive = frame(Message::ClientboundKeepAlive(ClientboundKeepAlive { keep_alive_id: -1 }));
    assert_eq!(keep_alive, vec![0x09, 0x04, 0xff, 0xff, 0xff, 0xff, 0xff, 0xff, 0xff, 0xff]);
}

#[test]
fn status_response_json() {
    let response = StatusResponse {
        version_name: "1.21.10".to_string(),
        version_protocol: 773,
        max_players: 20,
        online_players: 0,
        description: "A \"fake\" server".to_string(),
        favicon: "".to_string(),
    };
    let bytes = frame(Message::StatusResponse(response));
    let (payload, _) = read_prefixed_bytes(&bytes, 0).unwrap();
    assert_eq!(read_var_int(&payload, 0), Ok((0, 1)));
    let (json, end) = read_string(&payload, 1).unwrap();
    assert_eq!(end, payload.len());
    assert_eq!(
        json,
        "{\"version\":{\"name\":\"1.21.10\",\"protocol\":773},\"players\":{\"max\":20,\"online\":0},\"description\":{\"text\":\"A \\\"fake\\\" server\"},\"favicon\":\"\",\"enforcesSecureChat\":false}"
    );
    let value: serde_json::Value = serde_json::from_str(&json).unwrap();
    assert_eq!(value["description"]["text"], "A \"fake\" server");
    assert_eq!(value["version"]["protocol"], 773);
    assert_eq!(value["enforcesSecureChat"], false);
}

#[test]
fn unknown_packet_id_is_recoverable() {
    let bytes = vec![0x01, 0x7f];
    let err = read_frame(&bytes, Phase::Login).unwrap_err();
    assert_eq!(err, ProtocolError::UnknownPacket { id: 0x7f });
    assert_eq!(err.kind(), ErrorKind::Unsupported);
    assert!(err.is_recoverable());
    assert_eq!(read_frame(&bytes, Phase::Configuration).unwrap_err(), ProtocolError::UnknownPacket { id: 0x7f });
}

#[test]
fn unknown_intent_and_truncated_body() {
    let mut payload = vec![0x00];
    write_var_int(773, &mut payload);
    payload.extend_from_slice(&[0x00, 0x63, 0xdd, 0x04]);
    assert_eq!(Packet::read_from(&payload, Phase::Handshaking).unwrap_err(), ProtocolError::UnknownIntent);
    // A ping whose timestamp is cut short inside a complete frame.
    assert_eq!(Packet::read_from(&[0x01, 0x00, 0x01], Phase::Status).unwrap_err(), ProtocolError::TruncatedBody);
    // An empty payload has no packet id.
    assert_eq!(Packet::read_from(&[], Phase::Status).unwrap_err(), ProtocolError::TruncatedBody);
}

#[test]
fn incomplete_frame_is_eof() {
    assert_eq!(read_prefixed_bytes(&[0x05, 0x00, 0x01], 0), Err(ProtocolError::UnexpectedEof));
}

#[test]
fn message_types_and_ids() {
    assert_eq!(MessageType::inbound(Phase::Status, 1), Some(MessageType::PingRequest));
    assert_eq!(MessageType::inbound(Phase::Login, 2), None);
    assert_eq!(MessageType::LoginSuccess.id(), 2);
    assert_eq!(MessageType::Transfer.id(), 0x0b);
    assert_eq!(HandshakeIntent::Transfer.phase(), Phase::Login);
    assert_eq!(HandshakeIntent::Login.id(), 2);
}

#[test]
fn ping_response_reads_as_ping_request() {
    let bytes = frame(Message::PingResponse(PingResponse { timestamp: 77 }));
    match read_frame(&bytes, Phase::Status).unwrap() {
        (Packet { message: Message::PingRequest(p) }, end) => {
            assert_eq!(p.timestamp, 77);
            assert_eq!(end, bytes.len());
        }
        other => panic!("unexpected {:?}", other.0),
    }
}

#[test]
fn status_json_escapes_control_characters() {
    let response = StatusResponse {
        version_name: "v\\1".to_string(),
        version_protocol: 0,
        max_players: 4294967295,
        online_players: 7,
        description: "a\nb\u{1}\t".to_string(),
        favicon: "é".to_string(),
    };
    let bytes = frame(Message::StatusResponse(response));
    let (payload, _) = read_prefixed_bytes(&bytes, 0).unwrap();
    let (json, _) = read_string(&payload, 1).unwrap();
    assert_eq!(
        json,
        "{\"version\":{\"name\":\"v\\\\1\",\"protocol\":0},\"players\":{\"max\":4294967295,\"online\":7},\"description\":{\"text\":\"a\\nb\\u0001\\t\"},\"favicon\":\"é\",\"enforcesSecureChat\":false}"
    );
}

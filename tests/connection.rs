use mc_receptionist::codec::{read_prefixed_bytes, read_string, read_var_int, write_var_int};
use mc_receptionist::connection::{Action, Connection, LoginStage};
use mc_receptionist::crypto::{Cfb8Decryptor, Cfb8Encryptor, Crypto};
use mc_receptionist::error::ProtocolError;
use mc_receptionist::protocol::{
    EncryptionResponse, Handshake, HandshakeIntent, LoginAcknowledged, LoginStart, Message,
    Packet, Phase, PingRequest, StatusRequest, StatusResponse, Transfer,
};
use cfb8::cipher::{AsyncStreamCipher, NewCipher};
use rsa::pkcs8::DecodePublicKey;

fn status(motd: &str) -> StatusResponse {
    StatusResponse {
        version_name: "1.21.10".to_string(),
        version_protocol: 773,
        max_players: 20,
        online_players: 0,
        description: motd.to_string(),
        favicon: "".to_string(),
    }
}

fn frame(message: Message) -> Vec<u8> {
    let mut out = Vec::new();
    Packet::new(message).write_to(&mut out).unwrap();
    out
}

fn handshake(intent: HandshakeIntent) -> Vec<u8> {
    frame(Message::Handshake(Handshake {
        protocol_version: 773,
        server_address: "localhost".to_string(),
        server_port: 25565,
        intent,
    }))
}

fn drain(c: &mut Connection) -> Vec<Vec<u8>> {
    let mut out = Vec::new();
    while let Some(f) = c.pop_outbound() {
        out.push(f);
    }
    out
}

/// The packet id and the rest of a plain frame's payload.
fn payload_of(frame: &[u8]) -> (i32, Vec<u8>) {
    let (payload, end) = read_prefixed_bytes(frame, 0).unwrap();
    assert_eq!(end, frame.len());
    let (id, k) = read_var_int(&payload, 0).unwrap();
    (id, payload[k..].to_vec())
}

fn new_connection(motd: &str) -> Connection {
    Connection::new(Crypto::new().unwrap(), status(motd))
}

#[test]
fn status_ping() {
    let mut c = new_connection("Hello there");
    let mut input = handshake(HandshakeIntent::Status);
    input.extend(frame(Message::StatusRequest(StatusRequest {})));
    input.extend(frame(Message::PingRequest(PingRequest { timestamp: 0xDEADBEEF })));
    c.receive(input);
    assert!(matches!(c.poll(), Ok(Action::Handled)));
    assert_eq!(c.phase(), Phase::Status);
    assert!(matches!(c.poll(), Ok(Action::Handled)));
    assert!(matches!(c.poll(), Ok(Action::Handled)));
    assert!(matches!(c.poll(), Ok(Action::NeedInput)));
    let out = drain(&mut c);
    assert_eq!(out.len(), 2);
    let (id, body) = payload_of(&out[0]);
    assert_eq!(id, 0);
    let (json, _) = read_string(&body, 0).unwrap();
    let value: serde_json::Value = serde_json::from_str(&json).unwrap();
    assert_eq!(value["description"]["text"], "Hello there");
    assert_eq!(value["version"]["name"], "1.21.10");
    assert_eq!(value["players"]["max"], 20);
    assert_eq!(out[1], vec![0x09, 0x01, 0, 0, 0, 0, 0xde, 0xad, 0xbe, 0xef]);
    assert_eq!(c.on_peer_closed(), Ok(()));
}

/// Drives a login up to the encryption request and returns the public key
/// and the verify token that the server sent.
fn start_login(c: &mut Connection, intent: HandshakeIntent) -> (rsa::RsaPublicKey, Vec<u8>) {
    let mut input = handshake(intent);
    input.extend(frame(Message::LoginStart(LoginStart { username: "Steve".to_string(), uuid: 7 })));
    c.receive(input);
    assert!(matches!(c.poll(), Ok(Action::Handled)));
    assert!(matches!(c.poll(), Ok(Action::Handled)));
    assert_eq!(c.stage(), LoginStage::AwaitingEncryptionResponse);
    let out = drain(c);
    assert_eq!(out.len(), 1);
    let (id, body) = payload_of(&out[0]);
    assert_eq!(id, 1);
    let (server_id, p) = read_string(&body, 0).unwrap();
    assert_eq!(server_id, "");
    let (public_key, p) = read_prefixed_bytes(&body, p).unwrap();
    let (verify_token, p) = read_prefixed_bytes(&body, p).unwrap();
    assert_eq!(body[p..].to_vec(), vec![1u8]);
    assert_eq!(verify_token.len(), 16);
    (rsa::RsaPublicKey::from_public_key_der(&public_key).unwrap(), verify_token)
}

fn encryption_response(key: &rsa::RsaPublicKey, secret: &[u8], token: &[u8]) -> Vec<u8> {
    let mut rng = rand::thread_rng();
    frame(Message::EncryptionResponse(EncryptionResponse {
        shared_secret: key.encrypt(&mut rng, rsa::Pkcs1v15Encrypt, secret).unwrap(),
        verify_token: key.encrypt(&mut rng, rsa::Pkcs1v15Encrypt, token).unwrap(),
    }))
}

#[test]
fn login_and_transfer() {
    let mut c = new_connection("m");
    let (key, token) = start_login(&mut c, HandshakeIntent::Login);
    let secret: Vec<u8> = (100..116).collect();
    c.receive(encryption_response(&key, &secret, &token));
    match c.poll() {
        Ok(Action::CallOnJoin(login)) => {
            assert_eq!(login.username, "Steve");
            assert_eq!(login.uuid, 7);
        }
        other => panic!("unexpected {:?}", other),
    }
    assert!(c.encryption_enabled());
    assert!(drain(&mut c).is_empty());
    let target = Transfer { hostname: "203.0.113.5".to_string(), port: 25565 };
    c.on_join_result(Some(target)).unwrap();

    let mut client_in = Cfb8Decryptor::new(&secret).unwrap();
    let mut client_out = Cfb8Encryptor::new(&secret).unwrap();
    let mut out = drain(&mut c);
    assert_eq!(out.len(), 1);
    let plain_success = frame(Message::LoginSuccess(mc_receptionist::protocol::LoginSuccess {
        uuid: 7,
        username: "Steve".to_string(),
    }));
    assert_ne!(out[0], plain_success);
    client_in.decrypt(&mut out[0]);
    assert_eq!(out[0], plain_success);

    let mut ack = frame(Message::LoginAcknowledged(LoginAcknowledged {}));
    client_out.encrypt(&mut ack);
    c.receive(ack);
    assert!(matches!(c.poll(), Ok(Action::Handled)));
    let mut out = drain(&mut c);
    assert_eq!(out.len(), 1);
    client_in.decrypt(&mut out[0]);
    let (id, body) = payload_of(&out[0]);
    assert_eq!(id, 0x0b);
    let (host, p) = read_string(&body, 0).unwrap();
    assert_eq!(host, "203.0.113.5");
    assert_eq!(read_var_int(&body, p).unwrap().0, 25565);
    assert!(c.is_finished());
}

#[test]
fn transfer_deferred() {
    let mut c = new_connection("m");
    let (key, token) = start_login(&mut c, HandshakeIntent::Transfer);
    let secret = vec![9u8; 16];
    c.receive(encryption_response(&key, &secret, &token));
    assert!(matches!(c.poll(), Ok(Action::CallOnJoin(_))));
    c.on_join_result(None).unwrap();
    assert_eq!(drain(&mut c).len(), 1);
    let mut client_out = Cfb8Encryptor::new(&secret).unwrap();
    let mut ack = frame(Message::LoginAcknowledged(LoginAcknowledged {}));
    client_out.encrypt(&mut ack);
    c.receive(ack);
    assert!(matches!(c.poll(), Ok(Action::CallOnTransferReady)));
    // Asked again until answered.
    assert!(matches!(c.poll(), Ok(Action::CallOnTransferReady)));
    c.on_transfer_ready_result(None).unwrap();
    assert_eq!(c.stage(), LoginStage::Configuring);
    assert_eq!(c.phase(), Phase::Configuration);
    assert!(drain(&mut c).is_empty());
    assert!(!c.is_finished());
    assert!(matches!(c.poll(), Ok(Action::NeedInput)));
    assert_eq!(c.on_peer_closed(), Ok(()));
}

#[test]
fn transfer_after_transfer_ready() {
    let mut c = new_connection("m");
    let (key, token) = start_login(&mut c, HandshakeIntent::Login);
    let secret = vec![3u8; 16];
    c.receive(encryption_response(&key, &secret, &token));
    assert!(matches!(c.poll(), Ok(Action::CallOnJoin(_))));
    c.on_join_result(None).unwrap();
    drain(&mut c);
    let mut client_out = Cfb8Encryptor::new(&secret).unwrap();
    let mut ack = frame(Message::LoginAcknowledged(LoginAcknowledged {}));
    client_out.encrypt(&mut ack);
    c.receive(ack);
    assert!(matches!(c.poll(), Ok(Action::CallOnTransferReady)));
    c.on_transfer_ready_result(Some(Transfer { hostname: "h".to_string(), port: 1 })).unwrap();
    assert_eq!(drain(&mut c).len(), 1);
    assert!(c.is_finished());
}

#[test]
fn unknown_packet_id_then_login_start() {
    let mut c = new_connection("m");
    let mut input = handshake(HandshakeIntent::Login);
    input.extend_from_slice(&[0x01, 0x7f]);
    input.extend(frame(Message::LoginStart(LoginStart { username: "Alex".to_string(), uuid: 1 })));
    c.receive(input);
    assert!(matches!(c.poll(), Ok(Action::Handled)));
    let err = c.poll().unwrap_err();
    assert_eq!(err, ProtocolError::UnknownPacket { id: 0x7f });
    assert!(err.is_recoverable());
    assert!(matches!(c.poll(), Ok(Action::Handled)));
    assert_eq!(c.stage(), LoginStage::AwaitingEncryptionResponse);
    assert_eq!(drain(&mut c).len(), 1);
}

#[test]
fn verify_token_mismatch() {
    let mut c = new_connection("m");
    let (key, token) = start_login(&mut c, HandshakeIntent::Login);
    let mut wrong = token.clone();
    wrong[0] ^= 0xff;
    let secret = vec![5u8; 16];
    c.receive(encryption_response(&key, &secret, &wrong));
    assert_eq!(c.poll().unwrap_err(), ProtocolError::InvalidVerifyToken);
    assert!(drain(&mut c).is_empty());
    assert!(!c.encryption_enabled());
}

#[test]
fn accept_encryption_outcomes() {
    let mut c = new_connection("m");
    let (_key, token) = start_login(&mut c, HandshakeIntent::Login);
    assert_eq!(c.accept_encryption(None, Some(token.clone())).unwrap_err(), ProtocolError::DecryptFailed);
    assert_eq!(c.accept_encryption(Some(vec![1; 16]), None).unwrap_err(), ProtocolError::DecryptFailed);
    assert_eq!(c.accept_encryption(Some(vec![1; 16]), Some(vec![0; 16])).unwrap_err(), ProtocolError::InvalidVerifyToken);
    assert_eq!(c.accept_encryption(Some(vec![1; 15]), Some(token.clone())).unwrap_err(), ProtocolError::CipherInit);
    assert!(!c.encryption_enabled());
    assert!(drain(&mut c).is_empty());
    assert!(matches!(c.accept_encryption(Some(vec![1; 16]), Some(token)), Ok(Action::CallOnJoin(_))));
    assert!(c.encryption_enabled());
    assert_eq!(c.stage(), LoginStage::AwaitingJoin);
}

#[test]
fn undecryptable_response() {
    let mut c = new_connection("m");
    let _ = start_login(&mut c, HandshakeIntent::Login);
    c.receive(frame(Message::EncryptionResponse(EncryptionResponse {
        shared_secret: vec![1, 2, 3],
        verify_token: vec![4],
    })));
    assert_eq!(c.poll().unwrap_err(), ProtocolError::DecryptFailed);
}

#[test]
fn out_of_place_messages() {
    let mut c = new_connection("m");
    assert_eq!(c.on_join_result(None), Err(ProtocolError::UnexpectedMessage));
    assert_eq!(c.on_transfer_ready_result(None), Err(ProtocolError::UnexpectedMessage));
    assert_eq!(
        c.handle(Message::LoginAcknowledged(LoginAcknowledged {})).unwrap_err(),
        ProtocolError::UnexpectedMessage
    );
    c.receive(handshake(HandshakeIntent::Login));
    assert!(matches!(c.poll(), Ok(Action::Handled)));
    let again = Handshake {
        protocol_version: 773,
        server_address: "x".to_string(),
        server_port: 1,
        intent: HandshakeIntent::Status,
    };
    assert_eq!(c.recv_handshake(again).unwrap_err(), ProtocolError::UnexpectedMessage);
    assert_eq!(c.path(), Some(HandshakeIntent::Login));
}

#[test]
fn peer_closed_mid_frame() {
    let mut c = new_connection("m");
    c.receive(vec![0x10, 0x00, 0x85]);
    assert!(matches!(c.poll(), Ok(Action::NeedInput)));
    assert_eq!(c.on_peer_closed(), Err(ProtocolError::UnexpectedEof));
}

#[test]
fn bad_varint_frame_is_fatal() {
    let mut c = new_connection("m");
    c.receive(vec![0x80, 0x80, 0x80, 0x80, 0x80, 0x01]);
    assert_eq!(c.poll().unwrap_err(), ProtocolError::VarIntTooBig);
    let mut c = new_connection("m");
    let mut neg = Vec::new();
    write_var_int(-5, &mut neg);
    c.receive(neg);
    assert_eq!(c.poll().unwrap_err(), ProtocolError::NegativeLength);
}

#[test]
fn stream_cipher_is_cfb8() {
    let key: Vec<u8> = (0..16).collect();
    let mut reference = cfb8::Cfb8::<aes::Aes128>::new_from_slices(&key, &key).unwrap();
    let mut expected = b"hello, encrypted world".to_vec();
    reference.encrypt(&mut expected);
    let mut ours = Cfb8Encryptor::new(&key).unwrap();
    let mut data = b"hello, ".to_vec();
    ours.encrypt(&mut data);
    let mut more = b"encrypted world".to_vec();
    ours.encrypt(&mut more);
    data.extend(more);
    assert_eq!(data, expected);
    assert!(Cfb8Encryptor::new(&key[..15]).is_none());
    let mut back = Cfb8Decryptor::new(&key).unwrap();
    let mut first = data[..5].to_vec();
    back.decrypt(&mut first);
    let mut rest = data[5..].to_vec();
    back.decrypt(&mut rest);
    first.extend(rest);
    assert_eq!(first, b"hello, encrypted world".to_vec());
}

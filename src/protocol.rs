//! The messages of the handshake, status, login and configuration phases,
//! their wire forms, and the frames that carry them.
use crate::codec::{
    be_parse, lemma_fixed_round_trip, lemma_prefixed_round_trip, lemma_text_round_trip,
    lemma_var_int_round_trip, prefixed_bytes, prefixed_parse, read_prefixed_bytes, read_string, read_u128, read_u16,
    read_u64, read_var_int, string_bytes, string_parse, u128_bytes, u16_bytes, u64_bytes,
    var_int_bytes, var_int_parse, write_prefixed_bytes, write_string, write_u128, write_u16,
    write_u64, write_var_int,
};
use crate::error::ProtocolError;
use crate::status::{build_status_json, status_json};
use vstd::prelude::*;
use vstd::utf8::*;

verus! {

/// Which set of packet ids the stream currently uses.
#[derive(PartialEq, Eq, Structural, Clone, Copy, Debug)]
pub enum Phase {
    Handshaking,
    Status,
    Login,
    Configuration,
}

/// What the client asked for in its handshake.
#[derive(PartialEq, Eq, Structural, Clone, Copy, Debug)]
pub enum HandshakeIntent {
    Status,
    Login,
    Transfer,
}

impl HandshakeIntent {
    /// The intent a number stands for on the wire.
    pub open spec fn spec_from_id(v: i32) -> Option<HandshakeIntent> {
        if v == 1 {
            Some(HandshakeIntent::Status)
        } else if v == 2 {
            Some(HandshakeIntent::Login)
        } else if v == 3 {
            Some(HandshakeIntent::Transfer)
        } else {
            None
        }
    }

    pub open spec fn spec_id(self) -> i32 {
        match self {
            HandshakeIntent::Status => 1,
            HandshakeIntent::Login => 2,
            HandshakeIntent::Transfer => 3,
        }
    }

    pub fn id(&self) -> (r: i32)
        ensures
            r == self.spec_id(),
    {
        match self {
            HandshakeIntent::Status => 1,
            HandshakeIntent::Login => 2,
            HandshakeIntent::Transfer => 3,
        }
    }

    /// The phase that the stream enters after a handshake with this intent;
    /// a transfer is credentialed as a login.
    pub open spec fn spec_phase(self) -> Phase {
        match self {
            HandshakeIntent::Status => Phase::Status,
            _ => Phase::Login,
        }
    }

    pub fn phase(&self) -> (r: Phase)
        ensures
            r == self.spec_phase(),
    {
        match self {
            HandshakeIntent::Status => Phase::Status,
            _ => Phase::Login,
        }
    }

    /// Reads an intent, a varint, at `pos`.
    pub fn read_from(buf: &[u8], pos: usize) -> (r: Result<(HandshakeIntent, usize), ProtocolError>)
        requires
            pos <= buf@.len(),
        ensures
            match (r, intent_parse(buf@.skip(pos as int))) {
                (Ok((v, p)), Ok((w, k))) => v == w && p == pos + k,
                (Err(e), Err(f)) => e == f,
                _ => false,
            },
    {
        let (v, p) = read_var_int(buf, pos)?;
        if v == 1 {
            Ok((HandshakeIntent::Status, p))
        } else if v == 2 {
            Ok((HandshakeIntent::Login, p))
        } else if v == 3 {
            Ok((HandshakeIntent::Transfer, p))
        } else {
            Err(ProtocolError::UnknownIntent)
        }
    }
}

/// What reading an intent from the front of `b` gives.
pub open spec fn intent_parse(b: Seq<u8>) -> Result<(HandshakeIntent, int), ProtocolError> {
    match var_int_parse(b) {
        Err(e) => Err(e),
        Ok((v, n)) => match HandshakeIntent::spec_from_id(v) {
            Some(i) => Ok((i, n)),
            None => Err(ProtocolError::UnknownIntent),
        },
    }
}

/// The kind of a message, without its fields.
#[derive(PartialEq, Eq, Structural, Clone, Copy, Debug)]
pub enum MessageType {
    Handshake,
    StatusRequest,
    StatusResponse,
    PingRequest,
    PingResponse,
    LoginStart,
    EncryptionRequest,
    EncryptionResponse,
    LoginSuccess,
    LoginAcknowledged,
    Transfer,
    ClientboundKeepAlive,
}

/// The Transfer packet's id in the configuration phase.
pub const TRANSFER_PACKET_ID: i32 = 0x0b;

/// The keep-alive packet's id in the configuration phase.
pub const KEEP_ALIVE_PACKET_ID: i32 = 0x04;

impl MessageType {
    /// The phase in which a message of this kind is sent, and its id there.
    pub open spec fn spec_route(self) -> (Phase, i32) {
        match self {
            MessageType::Handshake => (Phase::Handshaking, 0),
            MessageType::StatusRequest => (Phase::Status, 0),
            MessageType::StatusResponse => (Phase::Status, 0),
            MessageType::PingRequest => (Phase::Status, 1),
            MessageType::PingResponse => (Phase::Status, 1),
            MessageType::LoginStart => (Phase::Login, 0),
            MessageType::EncryptionRequest => (Phase::Login, 1),
            MessageType::EncryptionResponse => (Phase::Login, 1),
            MessageType::LoginSuccess => (Phase::Login, 2),
            MessageType::LoginAcknowledged => (Phase::Login, 3),
            MessageType::Transfer => (Phase::Configuration, TRANSFER_PACKET_ID),
            MessageType::ClientboundKeepAlive => (Phase::Configuration, KEEP_ALIVE_PACKET_ID),
        }
    }

    pub fn id(&self) -> (r: i32)
        ensures
            r == self.spec_route().1,
    {
        match self {
            MessageType::Handshake => 0,
            MessageType::StatusRequest => 0,
            MessageType::StatusResponse => 0,
            MessageType::PingRequest => 1,
            MessageType::PingResponse => 1,
            MessageType::LoginStart => 0,
            MessageType::EncryptionRequest => 1,
            MessageType::EncryptionResponse => 1,
            MessageType::LoginSuccess => 2,
            MessageType::LoginAcknowledged => 3,
            MessageType::Transfer => TRANSFER_PACKET_ID,
            MessageType::ClientboundKeepAlive => KEEP_ALIVE_PACKET_ID,
        }
    }

    /// The message kind that the server accepts with `id` in `phase`.
    pub open spec fn spec_inbound(phase: Phase, id: i32) -> Option<MessageType> {
        match phase {
            Phase::Handshaking => if id == 0 {
                Some(MessageType::Handshake)
            } else {
                None
            },
            Phase::Status => if id == 0 {
                Some(MessageType::StatusRequest)
            } else if id == 1 {
                Some(MessageType::PingRequest)
            } else {
                None
            },
            Phase::Login => if id == 0 {
                Some(MessageType::LoginStart)
            } else if id == 1 {
                Some(MessageType::EncryptionResponse)
            } else if id == 3 {
                Some(MessageType::LoginAcknowledged)
            } else {
                None
            },
            Phase::Configuration => None,
        }
    }

    pub fn inbound(phase: Phase, id: i32) -> (r: Option<MessageType>)
        ensures
            r == Self::spec_inbound(phase, id),
    {
        match phase {
            Phase::Handshaking => if id == 0 {
                Some(MessageType::Handshake)
            } else {
                None
            },
            Phase::Status => if id == 0 {
                Some(MessageType::StatusRequest)
            } else if id == 1 {
                Some(MessageType::PingRequest)
            } else {
                None
            },
            Phase::Login => if id == 0 {
                Some(MessageType::LoginStart)
            } else if id == 1 {
                Some(MessageType::EncryptionResponse)
            } else if id == 3 {
                Some(MessageType::LoginAcknowledged)
            } else {
                None
            },
            Phase::Configuration => None,
        }
    }
}

/// The content of any message, as values.
pub enum MessageView {
    Handshake {
        protocol_version: i32,
        server_address: Seq<char>,
        server_port: u16,
        intent: HandshakeIntent,
    },
    StatusRequest,
    StatusResponse {
        version_name: Seq<char>,
        version_protocol: u32,
        max_players: u32,
        online_players: u32,
        description: Seq<char>,
        favicon: Seq<char>,
    },
    PingRequest { timestamp: u64 },
    PingResponse { timestamp: u64 },
    LoginStart { username: Seq<char>, uuid: u128 },
    EncryptionRequest {
        server_id: Seq<char>,
        public_key: Seq<u8>,
        verify_token: Seq<u8>,
        should_authenticate: bool,
    },
    EncryptionResponse { shared_secret: Seq<u8>, verify_token: Seq<u8> },
    LoginSuccess { uuid: u128, username: Seq<char> },
    LoginAcknowledged,
    Transfer { hostname: Seq<char>, port: u16 },
    ClientboundKeepAlive { keep_alive_id: i64 },
}

impl MessageView {
    pub open spec fn message_type(self) -> MessageType {
        match self {
            MessageView::Handshake { .. } => MessageType::Handshake,
            MessageView::StatusRequest => MessageType::StatusRequest,
            MessageView::StatusResponse { .. } => MessageType::StatusResponse,
            MessageView::PingRequest { .. } => MessageType::PingRequest,
            MessageView::PingResponse { .. } => MessageType::PingResponse,
            MessageView::LoginStart { .. } => MessageType::LoginStart,
            MessageView::EncryptionRequest { .. } => MessageType::EncryptionRequest,
            MessageView::EncryptionResponse { .. } => MessageType::EncryptionResponse,
            MessageView::LoginSuccess { .. } => MessageType::LoginSuccess,
            MessageView::LoginAcknowledged => MessageType::LoginAcknowledged,
            MessageView::Transfer { .. } => MessageType::Transfer,
            MessageView::ClientboundKeepAlive { .. } => MessageType::ClientboundKeepAlive,
        }
    }
}

#[derive(Debug, Clone)]
pub struct Handshake {
    pub protocol_version: i32,
    pub server_address: String,
    pub server_port: u16,
    pub intent: HandshakeIntent,
}

#[derive(Debug, Clone)]
pub struct StatusRequest {}

#[derive(Debug, Clone)]
pub struct StatusResponse {
    pub version_name: String,
    pub version_protocol: u32,
    pub max_players: u32,
    pub online_players: u32,
    pub description: String,
    pub favicon: String,
}

#[derive(Debug, Clone)]
pub struct PingRequest {
    pub timestamp: u64,
}

#[derive(Debug, Clone)]
pub struct PingResponse {
    pub timestamp: u64,
}

#[derive(Debug, Clone)]
pub struct LoginStart {
    pub username: String,
    pub uuid: u128,
}

#[derive(Debug, Clone)]
pub struct EncryptionRequest {
    pub server_id: String,
    pub public_key: Vec<u8>,
    pub verify_token: Vec<u8>,
    pub should_authenticate: bool,
}

#[derive(Debug, Clone)]
pub struct EncryptionResponse {
    pub shared_secret: Vec<u8>,
    pub verify_token: Vec<u8>,
}

#[derive(Debug, Clone)]
pub struct LoginSuccess {
    pub uuid: u128,
    pub username: String,
}

#[derive(Debug, Clone)]
pub struct LoginAcknowledged {}

#[derive(Debug, Clone)]
pub struct Transfer {
    pub hostname: String,
    pub port: u16,
}

#[derive(Debug, Clone)]
pub struct ClientboundKeepAlive {
    pub keep_alive_id: i64,
}

#[derive(Debug, Clone)]
pub enum Message {
    Handshake(Handshake),
    StatusRequest(StatusRequest),
    StatusResponse(StatusResponse),
    PingRequest(PingRequest),
    PingResponse(PingResponse),
    LoginStart(LoginStart),
    EncryptionRequest(EncryptionRequest),
    EncryptionResponse(EncryptionResponse),
    LoginSuccess(LoginSuccess),
    LoginAcknowledged(LoginAcknowledged),
    Transfer(Transfer),
    ClientboundKeepAlive(ClientboundKeepAlive),
}

impl View for Handshake {
    type V = MessageView;

    open spec fn view(&self) -> MessageView {
        MessageView::Handshake {
            protocol_version: self.protocol_version,
            server_address: self.server_address@,
            server_port: self.server_port,
            intent: self.intent,
        }
    }
}

impl View for StatusRequest {
    type V = MessageView;

    open spec fn view(&self) -> MessageView {
        MessageView::StatusRequest
    }
}

impl View for StatusResponse {
    type V = MessageView;

    open spec fn view(&self) -> MessageView {
        MessageView::StatusResponse {
            version_name: self.version_name@,
            version_protocol: self.version_protocol,
            max_players: self.max_players,
            online_players: self.online_players,
            description: self.description@,
            favicon: self.favicon@,
        }
    }
}

impl View for PingRequest {
    type V = MessageView;

    open spec fn view(&self) -> MessageView {
        MessageView::PingRequest { timestamp: self.timestamp }
    }
}

impl View for PingResponse {
    type V = MessageView;

    open spec fn view(&self) -> MessageView {
        MessageView::PingResponse { timestamp: self.timestamp }
    }
}

impl View for LoginStart {
    type V = MessageView;

    open spec fn view(&self) -> MessageView {
        MessageView::LoginStart { username: self.username@, uuid: self.uuid }
    }
}

impl View for EncryptionRequest {
    type V = MessageView;

    open spec fn view(&self) -> MessageView {
        MessageView::EncryptionRequest {
            server_id: self.server_id@,
            public_key: self.public_key@,
            verify_token: self.verify_token@,
            should_authenticate: self.should_authenticate,
        }
    }
}

impl View for EncryptionResponse {
    type V = MessageView;

    open spec fn view(&self) -> MessageView {
        MessageView::EncryptionResponse {
            shared_secret: self.shared_secret@,
            verify_token: self.verify_token@,
        }
    }
}

impl View for LoginSuccess {
    type V = MessageView;

    open spec fn view(&self) -> MessageView {
        MessageView::LoginSuccess { uuid: self.uuid, username: self.username@ }
    }
}

impl View for LoginAcknowledged {
    type V = MessageView;

    open spec fn view(&self) -> MessageView {
        MessageView::LoginAcknowledged
    }
}

impl View for Transfer {
    type V = MessageView;

    open spec fn view(&self) -> MessageView {
        MessageView::Transfer { hostname: self.hostname@, port: self.port }
    }
}

impl View for ClientboundKeepAlive {
    type V = MessageView;

    open spec fn view(&self) -> MessageView {
        MessageView::ClientboundKeepAlive { keep_alive_id: self.keep_alive_id }
    }
}

impl View for Message {
    type V = MessageView;

    open spec fn view(&self) -> MessageView {
        match self {
            Message::Handshake(m) => m@,
            Message::StatusRequest(m) => m@,
            Message::StatusResponse(m) => m@,
            Message::PingRequest(m) => m@,
            Message::PingResponse(m) => m@,
            Message::LoginStart(m) => m@,
            Message::EncryptionRequest(m) => m@,
            Message::EncryptionResponse(m) => m@,
            Message::LoginSuccess(m) => m@,
            Message::LoginAcknowledged(m) => m@,
            Message::Transfer(m) => m@,
            Message::ClientboundKeepAlive(m) => m@,
        }
    }
}

/// Whether a byte array fits a varint length prefix.
pub open spec fn fits(b: Seq<u8>) -> bool {
    b.len() <= i32::MAX
}

/// Whether every length-prefixed field of a message fits its prefix.
pub open spec fn body_fits(m: MessageView) -> bool {
    match m {
        MessageView::Handshake { server_address, .. } => fits(encode_utf8(server_address)),
        MessageView::StatusResponse {
            version_name,
            version_protocol,
            max_players,
            online_players,
            description,
            favicon,
        } => fits(
            status_json(
                version_name,
                version_protocol,
                max_players,
                online_players,
                description,
                favicon,
            ),
        ),
        MessageView::LoginStart { username, .. } => fits(encode_utf8(username)),
        MessageView::EncryptionRequest { server_id, public_key, verify_token, .. } => fits(
            encode_utf8(server_id),
        ) && fits(public_key) && fits(verify_token),
        MessageView::EncryptionResponse { shared_secret, verify_token } => fits(shared_secret)
            && fits(verify_token),
        MessageView::LoginSuccess { username, .. } => fits(encode_utf8(username)),
        MessageView::Transfer { hostname, .. } => fits(encode_utf8(hostname)),
        _ => true,
    }
}

/// The wire form of a message's fields, in order.
pub open spec fn body_bytes(m: MessageView) -> Seq<u8> {
    match m {
        MessageView::Handshake { protocol_version, server_address, server_port, intent } =>
            var_int_bytes(protocol_version) + string_bytes(server_address) + u16_bytes(
            server_port,
        ) + var_int_bytes(intent.spec_id()),
        MessageView::StatusRequest => Seq::empty(),
        MessageView::StatusResponse {
            version_name,
            version_protocol,
            max_players,
            online_players,
            description,
            favicon,
        } => prefixed_bytes(
            status_json(
                version_name,
                version_protocol,
                max_players,
                online_players,
                description,
                favicon,
            ),
        ),
        MessageView::PingRequest { timestamp } => u64_bytes(timestamp),
        MessageView::PingResponse { timestamp } => u64_bytes(timestamp),
        MessageView::LoginStart { username, uuid } => string_bytes(username) + u128_bytes(uuid),
        MessageView::EncryptionRequest {
            server_id,
            public_key,
            verify_token,
            should_authenticate,
        } => string_bytes(server_id) + prefixed_bytes(public_key) + prefixed_bytes(verify_token)
            + seq![if should_authenticate { 1u8 } else { 0u8 }],
        MessageView::EncryptionResponse { shared_secret, verify_token } => prefixed_bytes(
            shared_secret,
        ) + prefixed_bytes(verify_token),
        MessageView::LoginSuccess { uuid, username } => u128_bytes(uuid) + string_bytes(username)
            + var_int_bytes(0),
        MessageView::LoginAcknowledged => Seq::empty(),
        MessageView::Transfer { hostname, port } => string_bytes(hostname) + var_int_bytes(
            port as i32,
        ),
        MessageView::ClientboundKeepAlive { keep_alive_id } => u64_bytes(keep_alive_id as u64),
    }
}

/// A frame's payload: the packet id, then the body.
pub open spec fn payload_bytes(m: MessageView) -> Seq<u8> {
    var_int_bytes(m.message_type().spec_route().1) + body_bytes(m)
}

/// Whether a message can be framed: its fields and its payload fit their prefixes.
pub open spec fn frame_fits(m: MessageView) -> bool {
    body_fits(m) && fits(payload_bytes(m))
}

/// A whole frame: the payload's length as a varint, then the payload.
pub open spec fn frame_bytes(m: MessageView) -> Seq<u8> {
    prefixed_bytes(payload_bytes(m))
}

fn check_fits(b: &[u8]) -> (r: Result<(), ProtocolError>)
    ensures
        r is Ok <==> fits(b@),
        r is Err ==> r == Err::<(), ProtocolError>(ProtocolError::FrameTooLarge),
{
    if b.len() > i32::MAX as usize {
        Err(ProtocolError::FrameTooLarge)
    } else {
        Ok(())
    }
}

impl Handshake {
    pub fn write_to(&self, out: &mut Vec<u8>) -> (r: Result<(), ProtocolError>)
        ensures
            r is Ok <==> body_fits(self@),
            r is Ok ==> final(out)@ == old(out)@ + body_bytes(self@),
    {
        check_fits(self.server_address.as_str().as_bytes())?;
        write_var_int(self.protocol_version, out);
        write_string(self.server_address.as_str(), out);
        write_u16(self.server_port, out);
        write_var_int(self.intent.id(), out);
        assert(out@ =~= old(out)@ + body_bytes(self@));
        Ok(())
    }
}

impl StatusRequest {
    pub fn write_to(&self, out: &mut Vec<u8>)
        ensures
            final(out)@ == old(out)@ + body_bytes(self@),
    {
        assert(out@ =~= old(out)@ + body_bytes(self@));
    }
}

impl StatusResponse {
    /// A copy with the same fields.
    pub fn copied(&self) -> (r: StatusResponse)
        ensures
            r@ == self@,
    {
        StatusResponse {
            version_name: self.version_name.clone(),
            version_protocol: self.version_protocol,
            max_players: self.max_players,
            online_players: self.online_players,
            description: self.description.clone(),
            favicon: self.favicon.clone(),
        }
    }

    pub fn write_to(&self, out: &mut Vec<u8>) -> (r: Result<(), ProtocolError>)
        ensures
            r is Ok <==> body_fits(self@),
            r is Ok ==> final(out)@ == old(out)@ + body_bytes(self@),
    {
        let json = build_status_json(
            self.version_name.as_str(),
            self.version_protocol,
            self.max_players,
            self.online_players,
            self.description.as_str(),
            self.favicon.as_str(),
        );
        check_fits(json.as_slice())?;
        write_prefixed_bytes(json.as_slice(), out);
        Ok(())
    }
}

impl PingRequest {
    pub fn write_to(&self, out: &mut Vec<u8>)
        ensures
            final(out)@ == old(out)@ + body_bytes(self@),
    {
        write_u64(self.timestamp, out);
    }
}

impl PingResponse {
    pub fn write_to(&self, out: &mut Vec<u8>)
        ensures
            final(out)@ == old(out)@ + body_bytes(self@),
    {
        write_u64(self.timestamp, out);
    }
}

impl LoginStart {
    pub fn write_to(&self, out: &mut Vec<u8>) -> (r: Result<(), ProtocolError>)
        ensures
            r is Ok <==> body_fits(self@),
            r is Ok ==> final(out)@ == old(out)@ + body_bytes(self@),
    {
        check_fits(self.username.as_str().as_bytes())?;
        write_string(self.username.as_str(), out);
        write_u128(self.uuid, out);
        assert(out@ =~= old(out)@ + body_bytes(self@));
        Ok(())
    }
}

impl EncryptionRequest {
    pub fn write_to(&self, out: &mut Vec<u8>) -> (r: Result<(), ProtocolError>)
        ensures
            r is Ok <==> body_fits(self@),
            r is Ok ==> final(out)@ == old(out)@ + body_bytes(self@),
    {
        check_fits(self.server_id.as_str().as_bytes())?;
        check_fits(self.public_key.as_slice())?;
        check_fits(self.verify_token.as_slice())?;
        write_string(self.server_id.as_str(), out);
        write_prefixed_bytes(self.public_key.as_slice(), out);
        write_prefixed_bytes(self.verify_token.as_slice(), out);
        out.push(if self.should_authenticate { 1u8 } else { 0u8 });
        assert(out@ =~= old(out)@ + body_bytes(self@));
        Ok(())
    }
}

impl EncryptionResponse {
    pub fn write_to(&self, out: &mut Vec<u8>) -> (r: Result<(), ProtocolError>)
        ensures
            r is Ok <==> body_fits(self@),
            r is Ok ==> final(out)@ == old(out)@ + body_bytes(self@),
    {
        check_fits(self.shared_secret.as_slice())?;
        check_fits(self.verify_token.as_slice())?;
        write_prefixed_bytes(self.shared_secret.as_slice(), out);
        write_prefixed_bytes(self.verify_token.as_slice(), out);
        assert(out@ =~= old(out)@ + body_bytes(self@));
        Ok(())
    }
}

impl LoginSuccess {
    pub fn write_to(&self, out: &mut Vec<u8>) -> (r: Result<(), ProtocolError>)
        ensures
            r is Ok <==> body_fits(self@),
            r is Ok ==> final(out)@ == old(out)@ + body_bytes(self@),
    {
        check_fits(self.username.as_str().as_bytes())?;
        write_u128(self.uuid, out);
        write_string(self.username.as_str(), out);
        // an empty list of properties
        write_var_int(0, out);
        assert(out@ =~= old(out)@ + body_bytes(self@));
        Ok(())
    }
}

impl LoginAcknowledged {
    pub fn write_to(&self, out: &mut Vec<u8>)
        ensures
            final(out)@ == old(out)@ + body_bytes(self@),
    {
        assert(out@ =~= old(out)@ + body_bytes(self@));
    }
}

impl Transfer {
    pub fn write_to(&self, out: &mut Vec<u8>) -> (r: Result<(), ProtocolError>)
        ensures
            r is Ok <==> body_fits(self@),
            r is Ok ==> final(out)@ == old(out)@ + body_bytes(self@),
    {
        check_fits(self.hostname.as_str().as_bytes())?;
        write_string(self.hostname.as_str(), out);
        write_var_int(self.port as i32, out);
        assert(out@ =~= old(out)@ + body_bytes(self@));
        Ok(())
    }
}

impl ClientboundKeepAlive {
    pub fn write_to(&self, out: &mut Vec<u8>)
        ensures
            final(out)@ == old(out)@ + body_bytes(self@),
    {
        write_u64(#[verifier::truncate] (self.keep_alive_id as u64), out);
    }
}

impl Message {
    pub fn message_type(&self) -> (r: MessageType)
        ensures
            r == self@.message_type(),
    {
        match self {
            Message::Handshake(_) => MessageType::Handshake,
            Message::StatusRequest(_) => MessageType::StatusRequest,
            Message::StatusResponse(_) => MessageType::StatusResponse,
            Message::PingRequest(_) => MessageType::PingRequest,
            Message::PingResponse(_) => MessageType::PingResponse,
            Message::LoginStart(_) => MessageType::LoginStart,
            Message::EncryptionRequest(_) => MessageType::EncryptionRequest,
            Message::EncryptionResponse(_) => MessageType::EncryptionResponse,
            Message::LoginSuccess(_) => MessageType::LoginSuccess,
            Message::LoginAcknowledged(_) => MessageType::LoginAcknowledged,
            Message::Transfer(_) => MessageType::Transfer,
            Message::ClientboundKeepAlive(_) => MessageType::ClientboundKeepAlive,
        }
    }

    /// Appends the message's fields.
    pub fn write_body(&self, out: &mut Vec<u8>) -> (r: Result<(), ProtocolError>)
        ensures
            r is Ok <==> body_fits(self@),
            r is Ok ==> final(out)@ == old(out)@ + body_bytes(self@),
    {
        match self {
            Message::Handshake(m) => m.write_to(out),
            Message::StatusRequest(m) => {
                m.write_to(out);
                Ok(())
            },
            Message::StatusResponse(m) => m.write_to(out),
            Message::PingRequest(m) => {
                m.write_to(out);
                Ok(())
            },
            Message::PingResponse(m) => {
                m.write_to(out);
                Ok(())
            },
            Message::LoginStart(m) => m.write_to(out),
            Message::EncryptionRequest(m) => m.write_to(out),
            Message::EncryptionResponse(m) => m.write_to(out),
            Message::LoginSuccess(m) => m.write_to(out),
            Message::LoginAcknowledged(m) => {
                m.write_to(out);
                Ok(())
            },
            Message::Transfer(m) => m.write_to(out),
            Message::ClientboundKeepAlive(m) => {
                m.write_to(out);
                Ok(())
            },
        }
    }
}

/// A message on its way into or out of a frame.
#[derive(Debug, Clone)]
pub struct Packet {
    pub message: Message,
}

impl Packet {
    pub fn new(message: Message) -> (r: Packet)
        ensures
            r.message == message,
    {
        Packet { message }
    }

    /// Appends the message's frame: the length of id and body, the id, the body.
    /// Fails, leaving `out` as it was, exactly when the frame cannot be formed.
    pub fn write_to(&self, out: &mut Vec<u8>) -> (r: Result<(), ProtocolError>)
        ensures
            r is Ok <==> frame_fits(self.message@),
            r is Ok ==> final(out)@ == old(out)@ + frame_bytes(self.message@),
            r is Err ==> final(out)@ == old(out)@ && r == Err::<(), ProtocolError>(
                ProtocolError::FrameTooLarge,
            ),
    {
        let mut scratch: Vec<u8> = Vec::new();
        write_var_int(self.message.message_type().id(), &mut scratch);
        match self.message.write_body(&mut scratch) {
            Ok(()) => {},
            Err(_) => {
                return Err(ProtocolError::FrameTooLarge);
            },
        }
        assert(scratch@ =~= payload_bytes(self.message@));
        check_fits(scratch.as_slice())?;
        write_prefixed_bytes(scratch.as_slice(), out);
        Ok(())
    }
}

/// What reading a handshake body from the front of `b` gives.
pub open spec fn handshake_parse(b: Seq<u8>) -> Result<MessageView, ProtocolError> {
    match var_int_parse(b) {
        Err(e) => Err(e),
        Ok((protocol_version, n1)) => match string_parse(b.skip(n1)) {
            Err(e) => Err(e),
            Ok((server_address, n2)) => match be_parse(b.skip(n1 + n2), 2) {
                Err(e) => Err(e),
                Ok((port, n3)) => match intent_parse(b.skip(n1 + n2 + n3)) {
                    Err(e) => Err(e),
                    Ok((intent, _)) => Ok(
                        MessageView::Handshake {
                            protocol_version,
                            server_address,
                            server_port: port as u16,
                            intent,
                        },
                    ),
                },
            },
        },
    }
}

/// What reading a ping body from the front of `b` gives.
pub open spec fn ping_request_parse(b: Seq<u8>) -> Result<MessageView, ProtocolError> {
    match be_parse(b, 8) {
        Err(e) => Err(e),
        Ok((t, _)) => Ok(MessageView::PingRequest { timestamp: t as u64 }),
    }
}

/// What reading a login-start body from the front of `b` gives.
pub open spec fn login_start_parse(b: Seq<u8>) -> Result<MessageView, ProtocolError> {
    match string_parse(b) {
        Err(e) => Err(e),
        Ok((username, n1)) => match be_parse(b.skip(n1), 16) {
            Err(e) => Err(e),
            Ok((uuid, _)) => Ok(MessageView::LoginStart { username, uuid: uuid as u128 }),
        },
    }
}

/// What reading an encryption-response body from the front of `b` gives.
pub open spec fn encryption_response_parse(b: Seq<u8>) -> Result<MessageView, ProtocolError> {
    match prefixed_parse(b) {
        Err(e) => Err(e),
        Ok((shared_secret, n1)) => match prefixed_parse(b.skip(n1)) {
            Err(e) => Err(e),
            Ok((verify_token, _)) => Ok(
                MessageView::EncryptionResponse { shared_secret, verify_token },
            ),
        },
    }
}

/// What reading the body of a message of kind `t` from `b` gives; bytes
/// after the fields are ignored.
pub open spec fn body_parse(t: MessageType, b: Seq<u8>) -> Result<MessageView, ProtocolError> {
    match t {
        MessageType::Handshake => handshake_parse(b),
        MessageType::StatusRequest => Ok(MessageView::StatusRequest),
        MessageType::PingRequest => ping_request_parse(b),
        MessageType::LoginStart => login_start_parse(b),
        MessageType::EncryptionResponse => encryption_response_parse(b),
        MessageType::LoginAcknowledged => Ok(MessageView::LoginAcknowledged),
        _ => Err(ProtocolError::UnknownPacket { id: t.spec_route().1 }),
    }
}

/// Running out of bytes inside a complete frame is a truncated body.
pub open spec fn within_frame<T>(r: Result<T, ProtocolError>) -> Result<T, ProtocolError> {
    match r {
        Err(ProtocolError::UnexpectedEof) => Err(ProtocolError::TruncatedBody),
        _ => r,
    }
}

/// What decoding a frame's payload (packet id, then body) in `phase` gives.
pub open spec fn payload_parse(p: Seq<u8>, phase: Phase) -> Result<MessageView, ProtocolError> {
    match within_frame(var_int_parse(p)) {
        Err(e) => Err(e),
        Ok((id, k)) => match MessageType::spec_inbound(phase, id) {
            None => Err(ProtocolError::UnknownPacket { id }),
            Some(t) => within_frame(body_parse(t, p.skip(k))),
        },
    }
}

/// What reading a whole frame from the front of `b` in `phase` gives: the
/// message and the frame's length in bytes.
pub open spec fn frame_parse(b: Seq<u8>, phase: Phase) -> Result<(MessageView, int), ProtocolError> {
    match prefixed_parse(b) {
        Err(e) => Err(e),
        Ok((payload, n)) => match payload_parse(payload, phase) {
            Err(e) => Err(e),
            Ok(m) => Ok((m, n)),
        },
    }
}

impl Handshake {
    pub fn read_from(buf: &[u8], pos: usize) -> (r: Result<Handshake, ProtocolError>)
        requires
            pos <= buf@.len(),
        ensures
            match (r, handshake_parse(buf@.skip(pos as int))) {
                (Ok(m), Ok(v)) => m@ == v,
                (Err(e), Err(f)) => e == f,
                _ => false,
            },
    {
        let ghost b = buf@.skip(pos as int);
        let (protocol_version, after_first) = read_var_int(buf, pos)?;
        assert(buf@.skip(after_first as int) =~= b.skip(after_first - pos));
        let (server_address, after_second) = read_string(buf, after_first)?;
        assert(buf@.skip(after_second as int) =~= b.skip(after_second - pos));
        let (server_port, after_third) = read_u16(buf, after_second)?;
        assert(buf@.skip(after_third as int) =~= b.skip(after_third - pos));
        let (intent, _) = HandshakeIntent::read_from(buf, after_third)?;
        Ok(Handshake { protocol_version, server_address, server_port, intent })
    }
}

impl PingRequest {
    pub fn read_from(buf: &[u8], pos: usize) -> (r: Result<PingRequest, ProtocolError>)
        requires
            pos <= buf@.len(),
        ensures
            match (r, ping_request_parse(buf@.skip(pos as int))) {
                (Ok(m), Ok(v)) => m@ == v,
                (Err(e), Err(f)) => e == f,
                _ => false,
            },
    {
        let (timestamp, _) = read_u64(buf, pos)?;
        Ok(PingRequest { timestamp })
    }
}

impl LoginStart {
    pub fn read_from(buf: &[u8], pos: usize) -> (r: Result<LoginStart, ProtocolError>)
        requires
            pos <= buf@.len(),
        ensures
            match (r, login_start_parse(buf@.skip(pos as int))) {
                (Ok(m), Ok(v)) => m@ == v,
                (Err(e), Err(f)) => e == f,
                _ => false,
            },
    {
        let ghost b = buf@.skip(pos as int);
        let (username, after_first) = read_string(buf, pos)?;
        assert(buf@.skip(after_first as int) =~= b.skip(after_first - pos));
        let (uuid, _) = read_u128(buf, after_first)?;
        Ok(LoginStart { username, uuid })
    }
}

impl EncryptionResponse {
    pub fn read_from(buf: &[u8], pos: usize) -> (r: Result<EncryptionResponse, ProtocolError>)
        requires
            pos <= buf@.len(),
        ensures
            match (r, encryption_response_parse(buf@.skip(pos as int))) {
                (Ok(m), Ok(v)) => m@ == v,
                (Err(e), Err(f)) => e == f,
                _ => false,
            },
    {
        let ghost b = buf@.skip(pos as int);
        let (shared_secret, after_first) = read_prefixed_bytes(buf, pos)?;
        assert(buf@.skip(after_first as int) =~= b.skip(after_first - pos));
        let (verify_token, _) = read_prefixed_bytes(buf, after_first)?;
        Ok(EncryptionResponse { shared_secret, verify_token })
    }
}

fn eof_in_frame<T>(e: ProtocolError) -> (r: ProtocolError)
    ensures
        within_frame(Err::<T, ProtocolError>(e)) == Err::<T, ProtocolError>(r),
{
    match e {
        ProtocolError::UnexpectedEof => ProtocolError::TruncatedBody,
        _ => e,
    }
}

/// Decodes the body of a message of inbound kind `t` that starts at `pos`.
fn read_body(t: MessageType, payload: &[u8], pos: usize) -> (r: Result<Message, ProtocolError>)
    requires
        pos <= payload@.len(),
        MessageType::spec_inbound(t.spec_route().0, t.spec_route().1) == Some(t),
    ensures
        match (r, within_frame(body_parse(t, payload@.skip(pos as int)))) {
            (Ok(m), Ok(v)) => m@ == v,
            (Err(e), Err(f)) => e == f,
            _ => false,
        },
{
    let r = match t {
        MessageType::Handshake => match Handshake::read_from(payload, pos) {
            Ok(m) => Ok(Message::Handshake(m)),
            Err(e) => Err(e),
        },
        MessageType::PingRequest => match PingRequest::read_from(payload, pos) {
            Ok(m) => Ok(Message::PingRequest(m)),
            Err(e) => Err(e),
        },
        MessageType::LoginStart => match LoginStart::read_from(payload, pos) {
            Ok(m) => Ok(Message::LoginStart(m)),
            Err(e) => Err(e),
        },
        MessageType::EncryptionResponse => match EncryptionResponse::read_from(payload, pos) {
            Ok(m) => Ok(Message::EncryptionResponse(m)),
            Err(e) => Err(e),
        },
        MessageType::StatusRequest => Ok(Message::StatusRequest(StatusRequest {})),
        _ => Ok(Message::LoginAcknowledged(LoginAcknowledged {})),
    };
    match r {
        Ok(m) => Ok(m),
        Err(e) => Err(eof_in_frame::<MessageView>(e)),
    }
}

impl Packet {
    /// Decodes a frame's payload, its packet id and then its body, by the
    /// table of `phase`.
    pub fn read_from(payload: &[u8], phase: Phase) -> (r: Result<Packet, ProtocolError>)
        ensures
            match (r, payload_parse(payload@, phase)) {
                (Ok(m), Ok(v)) => m.message@ == v,
                (Err(e), Err(f)) => e == f,
                _ => false,
            },
    {
        assert(payload@.skip(0) =~= payload@);
        let (id, k) = match read_var_int(payload, 0) {
            Ok(x) => x,
            Err(e) => {
                return Err(eof_in_frame::<(i32, int)>(e));
            },
        };
        match MessageType::inbound(phase, id) {
            None => Err(ProtocolError::UnknownPacket { id }),
            Some(t) => {
                let message = read_body(t, payload, k)?;
                Ok(Packet { message })
            },
        }
    }
}

/// Whether the server accepts messages of this kind in the phase they belong to.
pub open spec fn is_inbound(t: MessageType) -> bool {
    MessageType::spec_inbound(t.spec_route().0, t.spec_route().1) == Some(t)
}

proof fn lemma_handshake_round_trip(
    protocol_version: i32,
    server_address: Seq<char>,
    server_port: u16,
    intent: HandshakeIntent,
)
    requires
        fits(encode_utf8(server_address)),
    ensures
        ({
            let m = MessageView::Handshake {
                protocol_version,
                server_address,
                server_port,
                intent,
            };
            handshake_parse(body_bytes(m)) == Ok::<MessageView, ProtocolError>(m)
        }),
{
    let m = MessageView::Handshake { protocol_version, server_address, server_port, intent };
    let b = body_bytes(m);
    let e = Seq::<u8>::empty();
    let s1 = var_int_bytes(protocol_version);
    let s2 = string_bytes(server_address);
    let s3 = u16_bytes(server_port);
    let s4 = var_int_bytes(intent.spec_id());
    let n1 = s1.len() as int;
    let n2 = s2.len() as int;
    lemma_var_int_round_trip(protocol_version, s2 + s3 + s4);
    assert(b =~= s1 + (s2 + s3 + s4));
    assert(var_int_parse(b) == Ok::<(i32, int), ProtocolError>((protocol_version, n1)));
    lemma_text_round_trip(server_address, s3 + s4);
    assert(b.skip(n1) =~= s2 + (s3 + s4));
    assert(string_parse(b.skip(n1)) == Ok::<(Seq<char>, int), ProtocolError>(
        (server_address, n2),
    ));
    lemma_fixed_round_trip(server_port, 0, 0, s4);
    assert(b.skip(n1 + n2) =~= s3 + s4);
    assert(be_parse(b.skip(n1 + n2), 2) == Ok::<(nat, int), ProtocolError>(
        (server_port as nat, 2),
    ));
    assert(b.skip(n1 + n2 + 2) =~= s4 + e);
    lemma_var_int_round_trip(intent.spec_id(), e);
    assert(intent_parse(b.skip(n1 + n2 + 2)) == Ok::<(HandshakeIntent, int), ProtocolError>(
        (intent, s4.len() as int),
    ));
}

proof fn lemma_body_round_trip(m: MessageView)
    requires
        body_fits(m),
        is_inbound(m.message_type()),
    ensures
        body_parse(m.message_type(), body_bytes(m)) == Ok::<MessageView, ProtocolError>(m),
{
    let b = body_bytes(m);
    let e = Seq::<u8>::empty();
    match m {
        MessageView::Handshake { protocol_version, server_address, server_port, intent } => {
            lemma_handshake_round_trip(protocol_version, server_address, server_port, intent);
        },
        MessageView::PingRequest { timestamp } => {
            lemma_fixed_round_trip(0, timestamp, 0, e);
            assert(b =~= b + e);
        },
        MessageView::LoginStart { username, uuid } => {
            let s1 = string_bytes(username);
            let s2 = u128_bytes(uuid);
            lemma_text_round_trip(username, s2);
            assert(b.skip(s1.len() as int) =~= s2 + e);
            lemma_fixed_round_trip(0, 0, uuid, e);
        },
        MessageView::EncryptionResponse { shared_secret, verify_token } => {
            let s1 = prefixed_bytes(shared_secret);
            let s2 = prefixed_bytes(verify_token);
            lemma_prefixed_round_trip(shared_secret, s2);
            assert(b.skip(s1.len() as int) =~= s2 + e);
            lemma_prefixed_round_trip(verify_token, e);
        },
        _ => {},
    }
}

/// Every message that the server accepts reads back equal from its own
/// frame in the phase it belongs to, consuming exactly that frame, whatever
/// bytes follow it.
pub proof fn lemma_frame_round_trip(m: MessageView, rest: Seq<u8>)
    requires
        frame_fits(m),
        is_inbound(m.message_type()),
    ensures
        frame_parse(frame_bytes(m) + rest, m.message_type().spec_route().0) == Ok::<
            (MessageView, int),
            ProtocolError,
        >((m, frame_bytes(m).len() as int)),
{
    let p = payload_bytes(m);
    let t = m.message_type();
    let id = t.spec_route().1;
    let k = var_int_bytes(id).len() as int;
    lemma_prefixed_round_trip(p, rest);
    assert(prefixed_parse(frame_bytes(m) + rest) == Ok::<(Seq<u8>, int), ProtocolError>(
        (p, frame_bytes(m).len() as int),
    ));
    lemma_var_int_round_trip(id, body_bytes(m));
    assert(var_int_parse(p) == Ok::<(i32, int), ProtocolError>((id, k)));
    assert(p.skip(k) =~= body_bytes(m));
    lemma_body_round_trip(m);
    assert(payload_parse(p, t.spec_route().0) == Ok::<MessageView, ProtocolError>(m));
}

/// A ping response's frame, read where the server reads pings, is the ping
/// request with the same timestamp: the one message the server sends whose
/// id and layout are also those of a message it reads.
pub proof fn lemma_ping_twin_round_trip(timestamp: u64, rest: Seq<u8>)
    ensures
        frame_parse(frame_bytes(MessageView::PingResponse { timestamp }) + rest, Phase::Status)
            == Ok::<(MessageView, int), ProtocolError>(
            (
                MessageView::PingRequest { timestamp },
                frame_bytes(MessageView::PingResponse { timestamp }).len() as int,
            ),
        ),
{
    let request = MessageView::PingRequest { timestamp };
    let response = MessageView::PingResponse { timestamp };
    assert(frame_bytes(response) == frame_bytes(request));
    lemma_fixed_round_trip(0, timestamp, 0, Seq::empty());
    assert(fits(payload_bytes(request))) by {
        lemma_var_int_round_trip(1, body_bytes(request));
    }
    lemma_frame_round_trip(request, rest);
}

} // verus!

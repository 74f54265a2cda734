//! The per-connection state machine: it takes the bytes a client sends,
//! decides what to answer, queues the answers as frames ready for the wire,
//! switches on encryption, and says when the transfer handler must be asked.
//! The caller owns the socket and the handler, and reports back to it.
use crate::codec::{copy_range, prefixed_parse, read_prefixed_bytes};
use crate::crypto::{
    cfb8_decrypt_stream, cfb8_encrypt_stream, cipher_pair, Cfb8Decryptor, Cfb8Encryptor, Crypto,
    TOKEN_LEN,
};
use crate::error::ProtocolError;
use crate::protocol::{
    frame_bytes, frame_fits, payload_parse, EncryptionRequest, EncryptionResponse, Handshake,
    HandshakeIntent, LoginAcknowledged, LoginStart, LoginSuccess, Message, MessageType,
    MessageView, Packet, Phase, PingRequest, PingResponse, StatusRequest, StatusResponse,
    Transfer,
};
use vstd::prelude::*;

verus! {

/// How far a login has come.
#[derive(PartialEq, Eq, Structural, Clone, Copy, Debug)]
pub enum LoginStage {
    AwaitingLoginStart,
    AwaitingEncryptionResponse,
    /// Encryption is on; the transfer handler's on-join answer is awaited.
    AwaitingJoin,
    AwaitingLoginAcknowledged,
    /// In configuration; the transfer handler's transfer-ready answer is awaited.
    AwaitingTransferReady,
    Configuring,
}

impl LoginStage {
    /// Whether encryption is on in this stage.
    pub open spec fn encrypted(self) -> bool {
        match self {
            LoginStage::AwaitingLoginStart | LoginStage::AwaitingEncryptionResponse => false,
            _ => true,
        }
    }

    /// Whether the login-success reply has been queued by this stage.
    pub open spec fn after_login_success(self) -> bool {
        match self {
            LoginStage::AwaitingLoginAcknowledged
            | LoginStage::AwaitingTransferReady
            | LoginStage::Configuring => true,
            _ => false,
        }
    }

    /// Whether the client has moved on to the configuration phase.
    pub open spec fn in_configuration(self) -> bool {
        match self {
            LoginStage::AwaitingTransferReady | LoginStage::Configuring => true,
            _ => false,
        }
    }
}

/// What the caller should do next.
#[derive(Debug)]
pub enum Action {
    /// No whole frame is buffered: read more bytes.
    NeedInput,
    /// A frame was handled: send what is queued, then poll again.
    Handled,
    /// Ask the transfer handler's on-join about this player, then report
    /// its answer with `on_join_result`.
    CallOnJoin(LoginStart),
    /// Ask the transfer handler's transfer-ready, then report its answer with
    /// `on_transfer_ready_result`.
    CallOnTransferReady,
}

/// What the caller is told to do, as values.
pub enum ActionView {
    NeedInput,
    Handled,
    CallOnJoin(MessageView),
    CallOnTransferReady,
}

impl View for Action {
    type V = ActionView;

    open spec fn view(&self) -> ActionView {
        match self {
            Action::NeedInput => ActionView::NeedInput,
            Action::Handled => ActionView::Handled,
            Action::CallOnJoin(l) => ActionView::CallOnJoin(l@),
            Action::CallOnTransferReady => ActionView::CallOnTransferReady,
        }
    }
}

/// The outcome of a step, as values.
pub open spec fn outcome(r: Result<Action, ProtocolError>) -> Result<ActionView, ProtocolError> {
    match r {
        Ok(a) => Ok(a@),
        Err(e) => Err(e),
    }
}

/// A frame as it was queued: the message, and whether it went through the cipher.
pub struct SentFrame {
    pub message: MessageView,
    pub encrypted: bool,
}

/// The state of a connection, as values.
pub struct ConnectionView {
    pub path: Option<HandshakeIntent>,
    pub stage: LoginStage,
    /// Received plaintext not yet taken as frames.
    pub inbound: Seq<u8>,
    /// Frames ready for the wire, oldest first.
    pub queue: Seq<Seq<u8>>,
    /// Every frame ever queued, oldest first; the queue holds the last of them.
    pub sent: Seq<SentFrame>,
    pub username: Option<Seq<char>>,
    pub uuid: Option<u128>,
    pub pending_transfer: Option<MessageView>,
    pub transfer_sent: bool,
    pub verify_token: Seq<u8>,
    pub public_key: Seq<u8>,
    pub status: MessageView,
    pub encrypting: bool,
    /// The shared secret that keys both ciphers once encryption is on.
    pub secret: Seq<u8>,
    /// The ciphertext received and deciphered since encryption went on.
    pub cipher_in: Seq<u8>,
}

/// The plain frames that went through the cipher, in order, run together:
/// what the encrypting cipher has been fed.
pub open spec fn sealed_plain(sent: Seq<SentFrame>) -> Seq<u8>
    decreases sent.len(),
{
    if sent.len() == 0 {
        Seq::empty()
    } else {
        sealed_plain(sent.drop_last()) + if sent.last().encrypted {
            frame_bytes(sent.last().message)
        } else {
            Seq::empty()
        }
    }
}

/// The wire bytes `w` carry the frame `f`: the plain frame, or, where it
/// went through the cipher keyed by `key` after the plaintext `before`, the
/// part of the AES-128/CFB8 stream of `before` and the frame that belongs to
/// the frame.
pub open spec fn carries(w: Seq<u8>, f: SentFrame, key: Seq<u8>, before: Seq<u8>) -> bool {
    &&& w.len() == frame_bytes(f.message).len()
    &&& !f.encrypted ==> w == frame_bytes(f.message)
    &&& f.encrypted ==> w == cfb8_encrypt_stream(key, before + frame_bytes(f.message)).skip(
        before.len() as int,
    )
}

impl ConnectionView {
    /// The phase whose packet ids the next frame is read with.
    pub open spec fn phase(self) -> Phase {
        match self.path {
            None => Phase::Handshaking,
            Some(HandshakeIntent::Status) => Phase::Status,
            Some(_) => if self.stage.in_configuration() {
                Phase::Configuration
            } else {
                Phase::Login
            },
        }
    }

    /// Encryption is switched on once and stays on; every login-success
    /// frame is encrypted; the first encrypted frame is a login success.
    pub open spec fn encryption_ordered(self) -> bool {
        &&& forall|i: int, j: int|
            0 <= i < j < self.sent.len() && (#[trigger] self.sent[i]).encrypted ==> (
            #[trigger] self.sent[j]).encrypted
        &&& forall|i: int|
            0 <= i < self.sent.len() && (#[trigger] self.sent[i]).message.message_type()
                == MessageType::LoginSuccess ==> self.sent[i].encrypted
        &&& forall|i: int|
            0 <= i < self.sent.len() && (#[trigger] self.sent[i]).encrypted && (i == 0 || !self.sent[i
                - 1].encrypted) ==> self.sent[i].message.message_type() == MessageType::LoginSuccess
    }

    pub open spec fn wf(self) -> bool {
        &&& self.encrypting == self.stage.encrypted()
        &&& (self.path is None || self.path == Some(HandshakeIntent::Status))
            ==> self.stage == LoginStage::AwaitingLoginStart
        &&& self.stage != LoginStage::AwaitingLoginStart ==> self.username is Some
            && self.uuid is Some
        &&& self.verify_token.len() == TOKEN_LEN
        &&& self.status.message_type() == MessageType::StatusResponse
        &&& self.pending_transfer matches Some(t) ==> t.message_type() == MessageType::Transfer
        &&& self.queue.len() <= self.sent.len()
        &&& forall|j: int|
            0 <= j < self.queue.len() ==> carries(
                #[trigger] self.queue[j],
                self.sent[self.sent.len() - self.queue.len() + j],
                self.secret,
                sealed_plain(self.sent.take(self.sent.len() - self.queue.len() + j)),
            )
        &&& self.encrypting ==> self.secret.len() == TOKEN_LEN
        &&& self.encryption_ordered()
        &&& self.stage.after_login_success() ==> self.sent.len() > 0 && self.sent.last().encrypted
        &&& !self.stage.after_login_success() ==> forall|i: int|
            0 <= i < self.sent.len() ==> !(#[trigger] self.sent[i]).encrypted
    }

    /// `new` is `self` with message `m` queued, through the cipher if encryption is on.
    pub open spec fn queued(self, new: ConnectionView, m: MessageView) -> bool {
        &&& new.sent == self.sent.push(SentFrame { message: m, encrypted: self.encrypting })
        &&& new.queue.len() == self.queue.len() + 1
        &&& new.queue.drop_last() == self.queue
        &&& carries(new.queue.last(), new.sent.last(), self.secret, sealed_plain(self.sent))
    }

    /// The fields that queueing a frame leaves alone are those of `self`.
    pub open spec fn same_but_queue(self, new: ConnectionView) -> bool {
        &&& new.path == self.path
        &&& new.stage == self.stage
        &&& new.inbound == self.inbound
        &&& new.username == self.username
        &&& new.uuid == self.uuid
        &&& new.pending_transfer == self.pending_transfer
        &&& new.transfer_sent == self.transfer_sent
        &&& new.verify_token == self.verify_token
        &&& new.public_key == self.public_key
        &&& new.status == self.status
        &&& new.encrypting == self.encrypting
        &&& new.secret == self.secret
        &&& new.cipher_in == self.cipher_in
    }

    /// The reply to a status request.
    pub open spec fn status_reply(self) -> MessageView {
        self.status
    }

    /// The encryption request sent in answer to a login start.
    pub open spec fn encryption_request(self) -> MessageView {
        MessageView::EncryptionRequest {
            server_id: Seq::empty(),
            public_key: self.public_key,
            verify_token: self.verify_token,
            should_authenticate: true,
        }
    }

    /// The player as the transfer handler's on-join sees them.
    pub open spec fn login(self) -> MessageView {
        MessageView::LoginStart { username: self.username.unwrap(), uuid: self.uuid.unwrap() }
    }

    pub open spec fn is_login_path(self) -> bool {
        self.path == Some(HandshakeIntent::Login) || self.path == Some(HandshakeIntent::Transfer)
    }

    /// Queueing `m` and moving to `next` (whose queue fields do not count):
    /// done where `m` can be framed, refused with nothing changed where not.
    pub open spec fn queue_step(
        self,
        new: ConnectionView,
        m: MessageView,
        r: Result<ActionView, ProtocolError>,
        next: ConnectionView,
    ) -> bool {
        if frame_fits(m) {
            &&& r == Ok::<ActionView, ProtocolError>(ActionView::Handled)
            &&& self.queued(new, m)
            &&& next.same_but_queue(new)
        } else {
            r == Err::<ActionView, ProtocolError>(ProtocolError::FrameTooLarge) && new == self
        }
    }

    /// Refused as out of place, with nothing changed.
    pub open spec fn refused(self, new: ConnectionView, r: Result<ActionView, ProtocolError>) -> bool {
        r == Err::<ActionView, ProtocolError>(ProtocolError::UnexpectedMessage) && new == self
    }

    /// Where an encryption response can lead, whatever the private key made
    /// of it: a crypto error with nothing changed, or encryption switched on
    /// and the on-join call asked for.
    pub open spec fn encryption_outcome(
        self,
        new: ConnectionView,
        r: Result<ActionView, ProtocolError>,
    ) -> bool {
        ||| {
            &&& (r == Err::<ActionView, ProtocolError>(ProtocolError::DecryptFailed) || r == Err::<
                ActionView,
                ProtocolError,
            >(ProtocolError::InvalidVerifyToken) || r == Err::<ActionView, ProtocolError>(
                ProtocolError::CipherInit,
            ))
            &&& new == self
        }
        ||| self.encryption_enabled(new, r)
    }

    /// Encryption switched on with a sixteen-byte secret: the buffered input,
    /// sent after the response, is deciphered with it, and the on-join call
    /// is asked for.
    pub open spec fn encryption_enabled(
        self,
        new: ConnectionView,
        r: Result<ActionView, ProtocolError>,
    ) -> bool {
        &&& r == Ok::<ActionView, ProtocolError>(ActionView::CallOnJoin(self.login()))
        &&& new == ConnectionView {
            stage: LoginStage::AwaitingJoin,
            encrypting: true,
            inbound: new.inbound,
            secret: new.secret,
            cipher_in: self.inbound,
            ..self
        }
        &&& new.secret.len() == TOKEN_LEN
        &&& new.inbound == cfb8_decrypt_stream(new.secret, self.inbound)
    }

    /// What handling message `m` does.
    pub open spec fn step(
        self,
        new: ConnectionView,
        m: MessageView,
        r: Result<ActionView, ProtocolError>,
    ) -> bool {
        match m {
            MessageView::Handshake { intent, .. } => if self.path is Some {
                self.refused(new, r)
            } else {
                r == Ok::<ActionView, ProtocolError>(ActionView::Handled) && new == ConnectionView {
                    path: Some(intent),
                    ..self
                }
            },
            MessageView::StatusRequest => if self.path != Some(HandshakeIntent::Status) {
                self.refused(new, r)
            } else {
                self.queue_step(new, self.status_reply(), r, self)
            },
            MessageView::PingRequest { timestamp } => if self.path != Some(
                HandshakeIntent::Status,
            ) {
                self.refused(new, r)
            } else {
                self.queue_step(new, MessageView::PingResponse { timestamp }, r, self)
            },
            MessageView::LoginStart { username, uuid } => if !self.is_login_path() || self.stage
                != LoginStage::AwaitingLoginStart {
                self.refused(new, r)
            } else {
                self.queue_step(
                    new,
                    self.encryption_request(),
                    r,
                    ConnectionView {
                        stage: LoginStage::AwaitingEncryptionResponse,
                        username: Some(username),
                        uuid: Some(uuid),
                        ..self
                    },
                )
            },
            MessageView::EncryptionResponse { .. } => if self.stage
                != LoginStage::AwaitingEncryptionResponse {
                self.refused(new, r)
            } else {
                self.encryption_outcome(new, r)
            },
            MessageView::LoginAcknowledged => if self.stage
                != LoginStage::AwaitingLoginAcknowledged {
                self.refused(new, r)
            } else {
                match self.pending_transfer {
                    Some(t) => self.queue_step(
                        new,
                        t,
                        r,
                        ConnectionView {
                            stage: LoginStage::Configuring,
                            transfer_sent: true,
                            pending_transfer: None,
                            ..self
                        },
                    ),
                    None => r == Ok::<ActionView, ProtocolError>(ActionView::CallOnTransferReady)
                        && new == ConnectionView {
                        stage: LoginStage::AwaitingTransferReady,
                        ..self
                    },
                }
            },
            _ => self.refused(new, r),
        }
    }

    /// The login success sent once encryption is on.
    pub open spec fn login_success(self) -> MessageView {
        MessageView::LoginSuccess { uuid: self.uuid.unwrap(), username: self.username.unwrap() }
    }
}

/// One client connection: its phase and login stage, the input not yet
/// taken as frames, the frames waiting to be sent, its key material and
/// ciphers, and the player it serves.
pub struct Connection {
    path: Option<HandshakeIntent>,
    stage: LoginStage,
    inbound: Vec<u8>,
    send_queue: Vec<Vec<u8>>,
    crypto: Crypto,
    encrypt_cipher: Option<Cfb8Encryptor>,
    decrypt_cipher: Option<Cfb8Decryptor>,
    player_uuid: Option<u128>,
    player_username: Option<String>,
    pending_transfer: Option<Transfer>,
    transfer_sent: bool,
    status: StatusResponse,
    sent: Ghost<Seq<SentFrame>>,
}

impl View for Connection {
    type V = ConnectionView;

    closed spec fn view(&self) -> ConnectionView {
        ConnectionView {
            path: self.path,
            stage: self.stage,
            inbound: self.inbound@,
            queue: self.send_queue@.map_values(|f: Vec<u8>| f@),
            sent: self.sent@,
            username: match self.player_username {
                Some(s) => Some(s@),
                None => None,
            },
            uuid: self.player_uuid,
            pending_transfer: match self.pending_transfer {
                Some(t) => Some(t@),
                None => None,
            },
            transfer_sent: self.transfer_sent,
            verify_token: self.crypto.spec_verify_token(),
            public_key: self.crypto.spec_public_key_der(),
            status: self.status@,
            encrypting: self.encrypt_cipher is Some,
            secret: match self.encrypt_cipher {
                Some(e) => e.key(),
                None => Seq::empty(),
            },
            cipher_in: match self.decrypt_cipher {
                Some(d) => d.fed(),
                None => Seq::empty(),
            },
        }
    }
}

impl Connection {
    /// The state is consistent, and the ciphers agree with it.
    pub open spec fn wf(&self) -> bool {
        &&& self@.wf()
        &&& self.ciphers_agree()
    }

    /// Both ciphers exist exactly while encryption is on, share one key, and
    /// the encrypting one has been fed exactly the frames logged as encrypted.
    pub closed spec fn ciphers_agree(&self) -> bool {
        &&& self.decrypt_cipher is Some == self.encrypt_cipher is Some
        &&& self.encrypt_cipher matches Some(e) ==> e.fed() == sealed_plain(self.sent@)
        &&& self.decrypt_cipher matches Some(d) ==> d.key() == self@.secret
    }

    /// A connection that has seen nothing yet. `crypto` holds its key pair and
    /// verify token; `status` is the reply to status requests.
    pub fn new(crypto: Crypto, status: StatusResponse) -> (r: Connection)
        requires
            crypto.spec_verify_token().len() == TOKEN_LEN,
        ensures
            r.wf(),
            r@.path is None,
            r@.stage == LoginStage::AwaitingLoginStart,
            r@.inbound.len() == 0,
            r@.queue.len() == 0,
            r@.sent.len() == 0,
            r@.status == status@,
            r@.verify_token == crypto.spec_verify_token(),
            r@.public_key == crypto.spec_public_key_der(),
            !r@.encrypting,
            !r@.transfer_sent,
            r@.pending_transfer is None,
    {
        let r = Connection {
            path: None,
            stage: LoginStage::AwaitingLoginStart,
            inbound: Vec::new(),
            send_queue: Vec::new(),
            crypto,
            encrypt_cipher: None,
            decrypt_cipher: None,
            player_uuid: None,
            player_username: None,
            pending_transfer: None,
            transfer_sent: false,
            status,
            sent: Ghost(Seq::empty()),
        };
        assert(r@.queue =~= Seq::<Seq<u8>>::empty());
        r
    }
}

/// Whether two byte strings are equal.
fn bytes_equal(a: &[u8], b: &[u8]) -> (r: bool)
    ensures
        r == (a@ == b@),
{
    if a.len() != b.len() {
        return false;
    }
    let mut i: usize = 0;
    while i < a.len()
        invariant
            i <= a@.len(),
            a@.len() == b@.len(),
            a@.take(i as int) == b@.take(i as int),
        decreases a@.len() - i,
    {
        if a[i] != b[i] {
            assert(a@.take(i + 1)[i as int] != b@.take(i + 1)[i as int]);
            return false;
        }
        i = i + 1;
        assert(a@.take(i as int) =~= b@.take(i as int));
    }
    assert(a@ =~= a@.take(i as int));
    assert(b@ =~= b@.take(i as int));
    true
}

impl Connection {
    /// The player as the login start named them.
    fn player(&self) -> (r: LoginStart)
        requires
            self@.username is Some && self@.uuid is Some,
        ensures
            r@ == self@.login(),
    {
        let username = match &self.player_username {
            Some(u) => u.clone(),
            None => String::new(),
        };
        let uuid = match self.player_uuid {
            Some(u) => u,
            None => 0,
        };
        LoginStart { username, uuid }
    }

    /// Frames `message`, runs it through the cipher if encryption is on, and
    /// queues it; refused with nothing changed where it cannot be framed.
    fn enqueue(&mut self, packet: &Packet) -> (r: Result<(), ProtocolError>)
        requires
            old(self).ciphers_agree(),
        ensures
            r is Ok <==> frame_fits(packet.message@),
            r is Ok ==> old(self)@.queued(final(self)@, packet.message@) && old(self)@.same_but_queue(
                final(self)@,
            ),
            r is Err ==> final(self)@ == old(self)@ && r == Err::<(), ProtocolError>(
                ProtocolError::FrameTooLarge,
            ),
            final(self).ciphers_agree(),
    {
        let ghost m = packet.message@;
        let mut frame: Vec<u8> = Vec::new();
        packet.write_to(&mut frame)?;
        let ghost plain = frame@;
        match &mut self.encrypt_cipher {
            Some(c) => c.encrypt(&mut frame),
            None => {},
        }
        let ghost entry = SentFrame { message: m, encrypted: self.encrypt_cipher is Some };
        let ghost old_queue = self.send_queue@;
        let ghost old_sent = self.sent@;
        self.send_queue.push(frame);
        self.sent = Ghost(self.sent@.push(entry));
        assert(self.sent@.drop_last() =~= old_sent);
        assert(sealed_plain(self.sent@) == sealed_plain(old_sent) + if entry.encrypted {
            plain
        } else {
            Seq::empty()
        });
        assert(sealed_plain(old_sent) + Seq::<u8>::empty() =~= sealed_plain(old_sent));
        assert(self.send_queue@.map_values(|f: Vec<u8>| f@).drop_last() =~= old_queue.map_values(
            |f: Vec<u8>| f@,
        ));
        Ok(())
    }
}

/// Queueing a frame keeps every queued frame carrying its entry of the log.
proof fn lemma_queue_carries(old: ConnectionView, new: ConnectionView, m: MessageView)
    requires
        old.queue.len() <= old.sent.len(),
        forall|j: int|
            0 <= j < old.queue.len() ==> carries(
                #[trigger] old.queue[j],
                old.sent[old.sent.len() - old.queue.len() + j],
                old.secret,
                sealed_plain(old.sent.take(old.sent.len() - old.queue.len() + j)),
            ),
        old.queued(new, m),
        new.secret == old.secret,
    ensures
        new.queue.len() <= new.sent.len(),
        forall|j: int|
            0 <= j < new.queue.len() ==> carries(
                #[trigger] new.queue[j],
                new.sent[new.sent.len() - new.queue.len() + j],
                new.secret,
                sealed_plain(new.sent.take(new.sent.len() - new.queue.len() + j)),
            ),
{
    assert forall|j: int| 0 <= j < new.queue.len() implies carries(
        #[trigger] new.queue[j],
        new.sent[new.sent.len() - new.queue.len() + j],
        new.secret,
        sealed_plain(new.sent.take(new.sent.len() - new.queue.len() + j)),
    ) by {
        let i = new.sent.len() - new.queue.len() + j;
        if j < old.queue.len() {
            assert(new.queue[j] == new.queue.drop_last()[j]);
            assert(new.sent[i] == old.sent[i]);
            assert(new.sent.take(i) =~= old.sent.take(i));
        } else {
            assert(new.sent.take(i) =~= old.sent);
        }
    }
}

/// Queueing a plain frame before login success keeps the log ordered.
proof fn lemma_plain_queued(old: ConnectionView, new: ConnectionView, m: MessageView)
    requires
        old.wf(),
        !old.encrypting,
        !old.stage.after_login_success(),
        m.message_type() != MessageType::LoginSuccess,
        old.queued(new, m),
    ensures
        new.encryption_ordered(),
        forall|i: int| 0 <= i < new.sent.len() ==> !(#[trigger] new.sent[i]).encrypted,
{
    assert forall|i: int| 0 <= i < new.sent.len() implies !(#[trigger] new.sent[i]).encrypted by {
        if i < old.sent.len() {
            assert(new.sent[i] == old.sent[i]);
        }
    }
}

/// Queueing a frame after login success, through the cipher, keeps the log ordered.
proof fn lemma_cipher_queued(old: ConnectionView, new: ConnectionView, m: MessageView)
    requires
        old.wf(),
        old.stage.after_login_success(),
        old.queued(new, m),
    ensures
        new.encryption_ordered(),
        new.sent.len() > 0 && new.sent.last().encrypted,
{
    let n = old.sent.len() as int;
    assert forall|i: int, j: int|
        0 <= i < j < new.sent.len() && (#[trigger] new.sent[i]).encrypted implies (
        #[trigger] new.sent[j]).encrypted by {
        if j < n {
            assert(old.sent[i] == new.sent[i] && old.sent[j] == new.sent[j]);
        }
    }
    assert forall|i: int|
        0 <= i < new.sent.len() && (#[trigger] new.sent[i]).message.message_type()
            == MessageType::LoginSuccess implies new.sent[i].encrypted by {
        if i < n {
            assert(old.sent[i] == new.sent[i]);
        }
    }
    assert forall|i: int|
        0 <= i < new.sent.len() && (#[trigger] new.sent[i]).encrypted && (i == 0
            || !new.sent[i - 1].encrypted) implies new.sent[i].message.message_type()
        == MessageType::LoginSuccess by {
        if i < n {
            assert(old.sent[i] == new.sent[i]);
            if i > 0 {
                assert(old.sent[i - 1] == new.sent[i - 1]);
            }
        } else {
            assert(new.sent[i - 1] == old.sent.last());
        }
    }
}

impl Connection {
    /// The phase whose packet ids the next frame is read with.
    pub fn phase(&self) -> (r: Phase)
        ensures
            r == self@.phase(),
    {
        match self.path {
            None => Phase::Handshaking,
            Some(HandshakeIntent::Status) => Phase::Status,
            Some(_) => match self.stage {
                LoginStage::AwaitingTransferReady | LoginStage::Configuring => Phase::Configuration,
                _ => Phase::Login,
            },
        }
    }

    /// Records the client's intent; a second handshake is refused.
    pub fn recv_handshake(&mut self, handshake: Handshake) -> (r: Result<Action, ProtocolError>)
        requires
            old(self).wf(),
        ensures
            final(self).wf(),
            old(self)@.step(final(self)@, handshake@, outcome(r)),
    {
        if self.path.is_some() {
            return Err(ProtocolError::UnexpectedMessage);
        }
        self.path = Some(handshake.intent);
        Ok(Action::Handled)
    }

    /// Queues the configured status reply.
    pub fn recv_status_request(&mut self, request: StatusRequest) -> (r: Result<
        Action,
        ProtocolError,
    >)
        requires
            old(self).wf(),
        ensures
            final(self).wf(),
            old(self)@.step(final(self)@, request@, outcome(r)),
    {
        if self.path != Some(HandshakeIntent::Status) {
            return Err(ProtocolError::UnexpectedMessage);
        }
        let reply = self.status.copied();
        let ghost pre = self@;
        self.enqueue(&Packet::new(Message::StatusResponse(reply)))?;
        proof {
            lemma_queue_carries(pre, self@, pre.status);
            lemma_plain_queued(pre, self@, pre.status);
        }
        Ok(Action::Handled)
    }
}

impl Connection {
    /// Queues a ping response with the same timestamp.
    pub fn recv_ping_request(&mut self, request: PingRequest) -> (r: Result<Action, ProtocolError>)
        requires
            old(self).wf(),
        ensures
            final(self).wf(),
            old(self)@.step(final(self)@, request@, outcome(r)),
    {
        if self.path != Some(HandshakeIntent::Status) {
            return Err(ProtocolError::UnexpectedMessage);
        }
        let ghost pre = self@;
        let reply = PingResponse { timestamp: request.timestamp };
        self.enqueue(&Packet::new(Message::PingResponse(reply)))?;
        proof {
            lemma_queue_carries(pre, self@, reply@);
            lemma_plain_queued(pre, self@, reply@);
        }
        Ok(Action::Handled)
    }

    /// Remembers the player and queues the encryption request: this
    /// connection's public key, its verify token, an empty server id.
    pub fn recv_login_start(&mut self, login_start: LoginStart) -> (r: Result<Action, ProtocolError>)
        requires
            old(self).wf(),
        ensures
            final(self).wf(),
            old(self)@.step(final(self)@, login_start@, outcome(r)),
    {
        let login_path = match self.path {
            Some(HandshakeIntent::Login) | Some(HandshakeIntent::Transfer) => true,
            _ => false,
        };
        if !login_path || self.stage != LoginStage::AwaitingLoginStart {
            return Err(ProtocolError::UnexpectedMessage);
        }
        let ghost pre = self@;
        let public_key = self.crypto.public_key_der();
        let verify_token = self.crypto.verify_token();
        let request = EncryptionRequest {
            server_id: String::new(),
            public_key: copy_range(public_key.as_slice(), 0, public_key.len()),
            verify_token: copy_range(verify_token.as_slice(), 0, verify_token.len()),
            should_authenticate: true,
        };
        assert(request.public_key@ =~= pre.public_key);
        assert(request.verify_token@ =~= pre.verify_token);
        assert(request.server_id@ =~= Seq::<char>::empty());
        assert(request@ == pre.encryption_request());
        self.enqueue(&Packet::new(Message::EncryptionRequest(request)))?;
        proof {
            lemma_queue_carries(pre, self@, pre.encryption_request());
            lemma_plain_queued(pre, self@, pre.encryption_request());
        }
        self.player_uuid = Some(login_start.uuid);
        self.player_username = Some(login_start.username);
        self.stage = LoginStage::AwaitingEncryptionResponse;
        Ok(Action::Handled)
    }

    /// Decrypts the client's shared secret and verify token with the private
    /// key, then lets `accept_encryption` decide.
    pub fn recv_encryption_response(&mut self, response: EncryptionResponse) -> (r: Result<
        Action,
        ProtocolError,
    >)
        requires
            old(self).wf(),
        ensures
            final(self).wf(),
            old(self)@.step(final(self)@, response@, outcome(r)),
    {
        if self.stage != LoginStage::AwaitingEncryptionResponse {
            return Err(ProtocolError::UnexpectedMessage);
        }
        let shared_secret = self.crypto.decrypt(response.shared_secret.as_slice());
        let verify_token = self.crypto.decrypt(response.verify_token.as_slice());
        self.accept_encryption(shared_secret, verify_token)
    }

    /// Decides on the decrypted shared secret and verify token. Either
    /// missing is `DecryptFailed`; a token other than the one issued is
    /// `InvalidVerifyToken`; a secret that cannot key the cipher is
    /// `CipherInit`; each leaves the connection as it was, with nothing
    /// queued. Otherwise both directions switch to the cipher at once, the
    /// input already buffered is deciphered, and the on-join call is asked for.
    pub fn accept_encryption(
        &mut self,
        shared_secret: Option<Vec<u8>>,
        verify_token: Option<Vec<u8>>,
    ) -> (r: Result<Action, ProtocolError>)
        requires
            old(self).wf(),
        ensures
            final(self).wf(),
            old(self)@.stage != LoginStage::AwaitingEncryptionResponse ==> old(self)@.refused(
                final(self)@,
                outcome(r),
            ),
            old(self)@.stage == LoginStage::AwaitingEncryptionResponse ==> {
                if shared_secret is None || verify_token is None {
                    r == Err::<Action, ProtocolError>(ProtocolError::DecryptFailed)
                        && final(self)@ == old(self)@
                } else if verify_token.unwrap()@ != old(self)@.verify_token {
                    r == Err::<Action, ProtocolError>(ProtocolError::InvalidVerifyToken)
                        && final(self)@ == old(self)@
                } else if shared_secret.unwrap()@.len() != TOKEN_LEN {
                    r == Err::<Action, ProtocolError>(ProtocolError::CipherInit)
                        && final(self)@ == old(self)@
                } else {
                    old(self)@.encryption_enabled(final(self)@, outcome(r)) && final(self)@.secret
                        == shared_secret.unwrap()@
                }
            },
    {
        if self.stage != LoginStage::AwaitingEncryptionResponse {
            return Err(ProtocolError::UnexpectedMessage);
        }
        let (secret, token) = match (shared_secret, verify_token) {
            (Some(s), Some(t)) => (s, t),
            _ => {
                return Err(ProtocolError::DecryptFailed);
            },
        };
        if !bytes_equal(token.as_slice(), self.crypto.verify_token().as_slice()) {
            return Err(ProtocolError::InvalidVerifyToken);
        }
        if secret.len() != TOKEN_LEN {
            return Err(ProtocolError::CipherInit);
        }
        Ok(self.enable_encryption(&secret))
    }

    /// Switches both directions to the cipher keyed by `secret`, deciphers
    /// the input already buffered, and asks for the on-join call.
    fn enable_encryption(&mut self, secret: &Vec<u8>) -> (r: Action)
        requires
            old(self).wf(),
            old(self)@.stage == LoginStage::AwaitingEncryptionResponse,
            secret@.len() == TOKEN_LEN,
        ensures
            final(self).wf(),
            final(self)@.secret == secret@,
            old(self)@.encryption_enabled(final(self)@, Ok::<ActionView, ProtocolError>(r@)),
    {
        let (encrypt_cipher, mut decrypt_cipher) = fresh_ciphers(secret);
        let ghost pre = self@;
        proof {
            lemma_plain_log(self.sent@);
        }
        // Bytes already buffered past the response were sent encrypted.
        let ghost buffered = self.inbound@;
        let mut input = self.inbound.split_off(0);
        assert(input@ =~= buffered);
        decrypt_cipher.decrypt(&mut input);
        assert(Seq::<u8>::empty() + buffered =~= buffered);
        assert(cfb8_decrypt_stream(secret@, buffered).skip(0) =~= cfb8_decrypt_stream(
            secret@,
            buffered,
        ));
        assert(input@ == cfb8_decrypt_stream(secret@, buffered));
        self.inbound = input;
        self.encrypt_cipher = Some(encrypt_cipher);
        self.decrypt_cipher = Some(decrypt_cipher);
        self.stage = LoginStage::AwaitingJoin;
        assert(self@ == (ConnectionView {
            stage: LoginStage::AwaitingJoin,
            encrypting: true,
            inbound: self@.inbound,
            secret: secret@,
            cipher_in: pre.inbound,
            ..pre
        }));
        proof {
            lemma_enabled_wf(pre, self@);
        }
        let login = self.player();
        Action::CallOnJoin(login)
    }

    /// Takes the on-join answer: keeps the transfer, if any, for after the
    /// login is acknowledged, and queues the login success, the first
    /// encrypted frame.
    pub fn on_join_result(&mut self, transfer: Option<Transfer>) -> (r: Result<(), ProtocolError>)
        requires
            old(self).wf(),
        ensures
            final(self).wf(),
            old(self)@.stage != LoginStage::AwaitingJoin ==> r == Err::<(), ProtocolError>(
                ProtocolError::UnexpectedMessage,
            ) && final(self)@ == old(self)@,
            old(self)@.stage == LoginStage::AwaitingJoin ==> {
                let next = ConnectionView {
                    stage: LoginStage::AwaitingLoginAcknowledged,
                    pending_transfer: match transfer {
                        Some(t) => Some(t@),
                        None => None,
                    },
                    ..old(self)@
                };
                if frame_fits(old(self)@.login_success()) {
                    &&& r is Ok
                    &&& old(self)@.queued(final(self)@, old(self)@.login_success())
                    &&& next.same_but_queue(final(self)@)
                } else {
                    r == Err::<(), ProtocolError>(ProtocolError::FrameTooLarge) && final(self)@
                        == old(self)@
                }
            },
    {
        if self.stage != LoginStage::AwaitingJoin {
            return Err(ProtocolError::UnexpectedMessage);
        }
        let ghost pre = self@;
        let player = self.player();
        let success = LoginSuccess { uuid: player.uuid, username: player.username };
        self.enqueue(&Packet::new(Message::LoginSuccess(success)))?;
        proof {
            lemma_queue_carries(pre, self@, pre.login_success());
            let new = self@;
            let n = pre.sent.len() as int;
            assert forall|i: int| 0 <= i < n implies !(#[trigger] new.sent[i]).encrypted by {
                assert(new.sent[i] == pre.sent[i]);
            }
            assert forall|i: int|
                0 <= i < new.sent.len() && (#[trigger] new.sent[i]).message.message_type()
                    == MessageType::LoginSuccess implies new.sent[i].encrypted by {
                if i < n {
                    assert(new.sent[i] == pre.sent[i]);
                }
            }
        }
        self.pending_transfer = transfer;
        self.stage = LoginStage::AwaitingLoginAcknowledged;
        Ok(())
    }

    /// Sends the transfer kept from on-join, or asks for the transfer-ready call.
    pub fn recv_login_ack(&mut self, ack: LoginAcknowledged) -> (r: Result<Action, ProtocolError>)
        requires
            old(self).wf(),
        ensures
            final(self).wf(),
            old(self)@.step(final(self)@, ack@, outcome(r)),
    {
        if self.stage != LoginStage::AwaitingLoginAcknowledged {
            return Err(ProtocolError::UnexpectedMessage);
        }
        let ghost pre = self@;
        match self.pending_transfer.take() {
            Some(t) => {
                let ghost tv = t@;
                let packet = Packet::new(Message::Transfer(t));
                match self.enqueue(&packet) {
                    Ok(()) => {},
                    Err(e) => {
                        if let Message::Transfer(t) = packet.message {
                            self.pending_transfer = Some(t);
                        }
                        return Err(e);
                    },
                }
                proof {
                    lemma_queue_carries(pre, self@, tv);
                    lemma_cipher_queued(pre, self@, tv);
                }
                self.transfer_sent = true;
                self.stage = LoginStage::Configuring;
                Ok(Action::Handled)
            },
            None => {
                self.stage = LoginStage::AwaitingTransferReady;
                Ok(Action::CallOnTransferReady)
            },
        }
    }
}

impl Connection {
    /// Takes the transfer-ready answer: a transfer is queued and the
    /// connection will close once it is sent; without one the client stays
    /// in configuration.
    pub fn on_transfer_ready_result(&mut self, transfer: Option<Transfer>) -> (r: Result<
        (),
        ProtocolError,
    >)
        requires
            old(self).wf(),
        ensures
            final(self).wf(),
            old(self)@.stage != LoginStage::AwaitingTransferReady ==> r == Err::<(), ProtocolError>(
                ProtocolError::UnexpectedMessage,
            ) && final(self)@ == old(self)@,
            old(self)@.stage == LoginStage::AwaitingTransferReady ==> match transfer {
                None => r is Ok && final(self)@ == (ConnectionView {
                    stage: LoginStage::Configuring,
                    ..old(self)@
                }),
                Some(t) => if frame_fits(t@) {
                    &&& r is Ok
                    &&& old(self)@.queued(final(self)@, t@)
                    &&& (ConnectionView {
                        stage: LoginStage::Configuring,
                        transfer_sent: true,
                        ..old(self)@
                    }).same_but_queue(final(self)@)
                } else {
                    r == Err::<(), ProtocolError>(ProtocolError::FrameTooLarge) && final(self)@
                        == old(self)@
                },
            },
    {
        if self.stage != LoginStage::AwaitingTransferReady {
            return Err(ProtocolError::UnexpectedMessage);
        }
        let ghost pre = self@;
        match transfer {
            Some(t) => {
                let ghost tv = t@;
                self.enqueue(&Packet::new(Message::Transfer(t)))?;
                proof {
                    lemma_queue_carries(pre, self@, tv);
                    lemma_cipher_queued(pre, self@, tv);
                }
                self.transfer_sent = true;
            },
            None => {},
        }
        self.stage = LoginStage::Configuring;
        Ok(())
    }

    /// Hands a received message to its handler; messages that only the
    /// server sends are refused.
    pub fn handle(&mut self, message: Message) -> (r: Result<Action, ProtocolError>)
        requires
            old(self).wf(),
        ensures
            final(self).wf(),
            old(self)@.step(final(self)@, message@, outcome(r)),
    {
        match message {
            Message::Handshake(m) => self.recv_handshake(m),
            Message::StatusRequest(m) => self.recv_status_request(m),
            Message::PingRequest(m) => self.recv_ping_request(m),
            Message::LoginStart(m) => self.recv_login_start(m),
            Message::EncryptionResponse(m) => self.recv_encryption_response(m),
            Message::LoginAcknowledged(m) => self.recv_login_ack(m),
            _ => Err(ProtocolError::UnexpectedMessage),
        }
    }

    /// Takes bytes read from the client, deciphering them first once
    /// encryption is on.
    pub fn receive(&mut self, data: Vec<u8>)
        requires
            old(self).wf(),
        ensures
            final(self).wf(),
            final(self)@ == (ConnectionView {
                inbound: final(self)@.inbound,
                cipher_in: final(self)@.cipher_in,
                ..old(self)@
            }),
            final(self)@.inbound.len() == old(self)@.inbound.len() + data@.len(),
            !old(self)@.encrypting ==> final(self)@.inbound == old(self)@.inbound + data@
                && final(self)@.cipher_in == old(self)@.cipher_in,
            old(self)@.encrypting ==> final(self)@.inbound == old(self)@.inbound
                + cfb8_decrypt_stream(old(self)@.secret, old(self)@.cipher_in + data@).skip(
                old(self)@.cipher_in.len() as int,
            ) && final(self)@.cipher_in == old(self)@.cipher_in + data@,
    {
        let mut data = data;
        match &mut self.decrypt_cipher {
            Some(c) => c.decrypt(&mut data),
            None => {},
        }
        let ghost before = self.inbound@;
        self.inbound.append(&mut data);
        assert(self.inbound@.take(before.len() as int) =~= before);
    }

    /// Takes the next whole frame from the buffered input, if there is one,
    /// and handles it. An incomplete frame asks for more input and consumes
    /// nothing. A complete frame is consumed whether or not it decodes: an
    /// unknown packet id is the recoverable `UnknownPacket`, any other error
    /// is fatal. While a transfer-handler answer is awaited, the call is
    /// asked for again and nothing is read.
    #[verifier::spinoff_prover]
    #[verifier::rlimit(40)]
    pub fn poll(&mut self) -> (r: Result<Action, ProtocolError>)
        requires
            old(self).wf(),
        ensures
            final(self).wf(),
            old(self)@.stage == LoginStage::AwaitingJoin ==> outcome(r) == Ok::<
                ActionView,
                ProtocolError,
            >(ActionView::CallOnJoin(old(self)@.login())) && final(self)@ == old(self)@,
            old(self)@.stage == LoginStage::AwaitingTransferReady ==> outcome(r) == Ok::<
                ActionView,
                ProtocolError,
            >(ActionView::CallOnTransferReady) && final(self)@ == old(self)@,
            old(self)@.stage != LoginStage::AwaitingJoin && old(self)@.stage
                != LoginStage::AwaitingTransferReady ==> match prefixed_parse(
                old(self)@.inbound,
            ) {
                Err(ProtocolError::UnexpectedEof) => outcome(r) == Ok::<
                    ActionView,
                    ProtocolError,
                >(ActionView::NeedInput) && final(self)@ == old(self)@,
                Err(e) => r == Err::<Action, ProtocolError>(e) && final(self)@ == old(self)@,
                Ok((payload, n)) => {
                    let rest = ConnectionView { inbound: old(self)@.inbound.skip(n), ..old(self)@ };
                    match payload_parse(payload, old(self)@.phase()) {
                        Err(e) => r == Err::<Action, ProtocolError>(e) && final(self)@ == rest,
                        Ok(m) => rest.step(final(self)@, m, outcome(r)),
                    }
                },
            },
    {
        if self.stage == LoginStage::AwaitingJoin {
            return Ok(Action::CallOnJoin(self.player()));
        }
        if self.stage == LoginStage::AwaitingTransferReady {
            return Ok(Action::CallOnTransferReady);
        }
        assert(self.inbound@.skip(0) =~= self.inbound@);
        let (payload, end) = match read_prefixed_bytes(self.inbound.as_slice(), 0) {
            Ok(x) => x,
            Err(ProtocolError::UnexpectedEof) => {
                return Ok(Action::NeedInput);
            },
            Err(e) => {
                return Err(e);
            },
        };
        let phase = self.phase();
        let rest = self.inbound.split_off(end);
        self.inbound = rest;
        let packet = Packet::read_from(payload.as_slice(), phase)?;
        self.handle(packet.message)
    }

    /// The oldest frame ready for the wire, taken off the queue.
    pub fn pop_outbound(&mut self) -> (r: Option<Vec<u8>>)
        requires
            old(self).wf(),
        ensures
            final(self).wf(),
            old(self)@.queue.len() == 0 ==> r is None && final(self)@ == old(self)@,
            old(self)@.queue.len() > 0 ==> (r matches Some(f) && f@ == old(self)@.queue[0])
                && final(self)@ == (ConnectionView {
                queue: old(self)@.queue.drop_first(),
                ..old(self)@
            }),
    {
        if self.send_queue.len() == 0 {
            return None;
        }
        let ghost pre = self@;
        let f = self.send_queue.remove(0);
        assert(self@.queue =~= pre.queue.drop_first());
        assert forall|j: int| 0 <= j < self@.queue.len() implies carries(
            #[trigger] self@.queue[j],
            self@.sent[self@.sent.len() - self@.queue.len() + j],
            self@.secret,
            sealed_plain(self@.sent.take(self@.sent.len() - self@.queue.len() + j)),
        ) by {
            assert(self@.queue[j] == pre.queue[j + 1]);
        }
        Some(f)
    }

    /// The client closed its side: a clean end where no partial frame is
    /// buffered, `UnexpectedEof` where one is.
    pub fn on_peer_closed(&self) -> (r: Result<(), ProtocolError>)
        ensures
            r is Ok <==> self@.inbound.len() == 0,
            r is Err ==> r == Err::<(), ProtocolError>(ProtocolError::UnexpectedEof),
    {
        if self.inbound.len() == 0 {
            Ok(())
        } else {
            Err(ProtocolError::UnexpectedEof)
        }
    }

    /// A transfer has gone out and nothing is left to send: the connection may close.
    pub fn is_finished(&self) -> (r: bool)
        ensures
            r == (self@.transfer_sent && self@.queue.len() == 0),
    {
        self.transfer_sent && self.send_queue.len() == 0
    }

    pub fn stage(&self) -> (r: LoginStage)
        ensures
            r == self@.stage,
    {
        self.stage
    }

    pub fn path(&self) -> (r: Option<HandshakeIntent>)
        ensures
            r == self@.path,
    {
        self.path
    }

    /// Whether both directions go through the cipher.
    pub fn encryption_enabled(&self) -> (r: bool)
        ensures
            r == self@.encrypting,
    {
        self.encrypt_cipher.is_some()
    }
}

/// Encryption is switched on atomically: in the frames a connection queues,
/// no login success ever goes out in the clear, every frame from a login
/// success on goes through the cipher, and the first frame that goes through
/// the cipher is a login success. Frames before it are sent as plain frames;
/// each frame from it on is the next stretch of one AES-128/CFB8 stream,
/// keyed and initialised by the shared secret, over those plain frames.
#[verifier::spinoff_prover]
#[verifier::rlimit(50)]
pub proof fn lemma_encryption_atomic(c: ConnectionView)
    requires
        c.wf(),
    ensures
        forall|i: int, j: int|
            0 <= i <= j < c.sent.len() && (#[trigger] c.sent[i]).message.message_type()
                == MessageType::LoginSuccess ==> (#[trigger] c.sent[j]).encrypted,
        forall|i: int|
            0 <= i < c.sent.len() && (#[trigger] c.sent[i]).encrypted ==> exists|k: int|
                0 <= k <= i && (#[trigger] c.sent[k]).message.message_type()
                    == MessageType::LoginSuccess,
        forall|j: int|
            0 <= j < c.queue.len() && !c.sent[c.sent.len() - c.queue.len() + j].encrypted
                ==> #[trigger] c.queue[j] == frame_bytes(
                c.sent[c.sent.len() - c.queue.len() + j].message,
            ),
        forall|j: int|
            0 <= j < c.queue.len() && c.sent[c.sent.len() - c.queue.len() + j].encrypted ==> {
                let i = c.sent.len() - c.queue.len() + j;
                let before = sealed_plain(c.sent.take(i));
                #[trigger] c.queue[j] == cfb8_encrypt_stream(
                    c.secret,
                    before + frame_bytes(c.sent[i].message),
                ).skip(before.len() as int)
            },
{
    lemma_ordered_log(c);
    lemma_plain_queue(c);
}

proof fn lemma_plain_queue(c: ConnectionView)
    requires
        c.queue.len() <= c.sent.len(),
        forall|j: int|
            0 <= j < c.queue.len() ==> carries(
                #[trigger] c.queue[j],
                c.sent[c.sent.len() - c.queue.len() + j],
                c.secret,
                sealed_plain(c.sent.take(c.sent.len() - c.queue.len() + j)),
            ),
    ensures
        forall|j: int|
            0 <= j < c.queue.len() && !c.sent[c.sent.len() - c.queue.len() + j].encrypted
                ==> #[trigger] c.queue[j] == frame_bytes(
                c.sent[c.sent.len() - c.queue.len() + j].message,
            ),
        forall|j: int|
            0 <= j < c.queue.len() && c.sent[c.sent.len() - c.queue.len() + j].encrypted ==> {
                let i = c.sent.len() - c.queue.len() + j;
                let before = sealed_plain(c.sent.take(i));
                #[trigger] c.queue[j] == cfb8_encrypt_stream(
                    c.secret,
                    before + frame_bytes(c.sent[i].message),
                ).skip(before.len() as int)
            },
{
}

proof fn lemma_ordered_log(c: ConnectionView)
    requires
        c.encryption_ordered(),
    ensures
        forall|i: int, j: int|
            0 <= i <= j < c.sent.len() && (#[trigger] c.sent[i]).message.message_type()
                == MessageType::LoginSuccess ==> (#[trigger] c.sent[j]).encrypted,
        forall|i: int|
            0 <= i < c.sent.len() && (#[trigger] c.sent[i]).encrypted ==> exists|k: int|
                0 <= k <= i && (#[trigger] c.sent[k]).message.message_type()
                    == MessageType::LoginSuccess,
{
    assert forall|i: int, j: int|
        0 <= i <= j < c.sent.len() && (#[trigger] c.sent[i]).message.message_type()
            == MessageType::LoginSuccess implies (#[trigger] c.sent[j]).encrypted by {
        assert(c.sent[i].encrypted);
        if i < j {
            assert(c.sent[j].encrypted);
        }
    }
    assert forall|i: int| 0 <= i < c.sent.len() && (#[trigger] c.sent[i]).encrypted implies exists|k: int|
        0 <= k <= i && (#[trigger] c.sent[k]).message.message_type()
            == MessageType::LoginSuccess by {
        lemma_first_encrypted(c, i);
    }
}

/// Walking back from an encrypted frame reaches the first one, a login success.
proof fn lemma_first_encrypted(c: ConnectionView, i: int)
    requires
        c.encryption_ordered(),
        0 <= i < c.sent.len(),
        c.sent[i].encrypted,
    ensures
        exists|k: int|
            0 <= k <= i && (#[trigger] c.sent[k]).message.message_type()
                == MessageType::LoginSuccess,
    decreases i,
{
    if i == 0 || !c.sent[i - 1].encrypted {
        assert(c.sent[i].message.message_type() == MessageType::LoginSuccess);
    } else {
        lemma_first_encrypted(c, i - 1);
    }
}

/// A log with nothing encrypted has fed the cipher nothing.
proof fn lemma_plain_log(sent: Seq<SentFrame>)
    requires
        forall|i: int| 0 <= i < sent.len() ==> !(#[trigger] sent[i]).encrypted,
    ensures
        sealed_plain(sent) == Seq::<u8>::empty(),
    decreases sent.len(),
{
    if sent.len() > 0 {
        let rest = sent.drop_last();
        assert forall|i: int| 0 <= i < rest.len() implies !(#[trigger] rest[i]).encrypted by {
            assert(rest[i] == sent[i]);
        }
        lemma_plain_log(rest);
        assert(!sent[sent.len() - 1].encrypted);
        assert(Seq::<u8>::empty() + Seq::<u8>::empty() =~= Seq::<u8>::empty());
    }
}

/// Switching encryption on before any frame went through the cipher keeps
/// the state consistent.
proof fn lemma_enabled_wf(pre: ConnectionView, v: ConnectionView)
    requires
        pre.wf(),
        pre.stage == LoginStage::AwaitingEncryptionResponse,
        v == (ConnectionView {
            stage: LoginStage::AwaitingJoin,
            encrypting: true,
            inbound: v.inbound,
            secret: v.secret,
            cipher_in: pre.inbound,
            ..pre
        }),
        v.secret.len() == TOKEN_LEN,
    ensures
        v.wf(),
{
    assert forall|j: int| 0 <= j < v.queue.len() implies carries(
        #[trigger] v.queue[j],
        v.sent[v.sent.len() - v.queue.len() + j],
        v.secret,
        sealed_plain(v.sent.take(v.sent.len() - v.queue.len() + j)),
    ) by {
        let i = v.sent.len() - v.queue.len() + j;
        assert(!v.sent[i].encrypted);
        assert(carries(pre.queue[j], pre.sent[i], pre.secret, sealed_plain(pre.sent.take(i))));
    }
}

/// Both directions' ciphers, fresh, keyed by a sixteen-byte secret.
fn fresh_ciphers(secret: &Vec<u8>) -> (r: (Cfb8Encryptor, Cfb8Decryptor))
    requires
        secret@.len() == TOKEN_LEN,
    ensures
        r.0.key() == secret@ && r.0.fed() == Seq::<u8>::empty(),
        r.1.key() == secret@ && r.1.fed() == Seq::<u8>::empty(),
{
    cipher_pair(secret.as_slice()).unwrap()
}

} // verus!

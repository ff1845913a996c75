//! The Noise-secured frame channel: a two-message authenticated handshake
//! followed by encrypted, length-framed transport.
//!
//! The cryptography and the wire framing are done by the stratum protocol
//! crates behind a small trusted boundary; the logic around them — which
//! role takes which step, how a frame is assembled from partial reads
//! without losing progress, and when a connection is dead — is verified.
//! The drivers below are free of I/O: the caller reads and writes the
//! socket and hands byte chunks in and out.

use crate::transport::FrameBuffer;
use stratum_core::codec_sv2;
use stratum_core::framing_sv2;
use stratum_core::noise_sv2;
use vstd::prelude::*;

verus! {

/// Length of the initiator's first handshake message.
pub const HANDSHAKE_FIRST_LEN: usize = 64;

/// Length of the responder's handshake reply.
pub const HANDSHAKE_REPLY_LEN: usize = 234;

#[verifier::external_type_specification]
#[verifier::external_body]
pub struct ExInitiator(noise_sv2::Initiator);

#[verifier::external_type_specification]
#[verifier::external_body]
pub struct ExResponder(noise_sv2::Responder);

#[verifier::external_type_specification]
#[verifier::external_body]
pub struct ExNoiseError(noise_sv2::Error);

#[verifier::external_type_specification]
#[verifier::external_body]
pub struct ExCodecError(codec_sv2::Error);

#[verifier::external_type_specification]
#[verifier::external_body]
#[verifier::reject_recursive_types(R)]
pub struct ExHandshake<R>(codec_sv2::Handshake<R>);

#[verifier::external_type_specification]
#[verifier::external_body]
pub struct ExInitiatorSent(codec_sv2::InitiatorSent);

#[verifier::external_type_specification]
#[verifier::external_body]
pub struct ExTransport(codec_sv2::Transport);

#[verifier::external_type_specification]
#[verifier::external_body]
pub struct ExTransportEncryptState(codec_sv2::TransportEncryptState);

#[verifier::external_type_specification]
#[verifier::external_body]
pub struct ExTransportDecryptState(codec_sv2::TransportDecryptState);

#[verifier::external_type_specification]
#[verifier::external_body]
pub struct ExHandshakeMessage(framing_sv2::framing::HandshakeMessage);

/// Holds the outside Noise decoder; its buffers and parsing state are
/// opaque here, reached only through the trusted calls below.
#[verifier::external_body]
pub struct NoiseDecoderBox {
    inner: codec_sv2::NoiseDecoder,
}

/// Holds the outside Noise encoder.
#[verifier::external_body]
pub struct NoiseEncoderBox {
    inner: codec_sv2::NoiseEncoder,
}

#[verifier::external_type_specification]
#[verifier::external_body]
#[verifier::reject_recursive_types(B)]
pub struct ExSerializedFrame<B>(framing_sv2::framing::SerializedFrame<B>);

#[verifier::external_type_specification]
#[verifier::external_body]
pub struct ExSizeHint(framing_sv2::framing::SizeHint);

/// What the decoder will accept on its next read: the number of bytes its
/// current read window is wide.
pub uninterp spec fn decoder_window(d: NoiseDecoderBox) -> nat;

/// How many bytes the decoder holds buffered, received but not yet
/// consumed by a decode round.
pub uninterp spec fn decoder_pending(d: NoiseDecoderBox) -> nat;

/// Whether 32 private-key bytes are a valid secret key whose x-only
/// public key is exactly the 32 public-key bytes: the condition under
/// which the responder role can be built from them.
pub uninterp spec fn is_authority_keypair(public: Seq<u8>, private: Seq<u8>) -> bool;

/// The little-endian payload length a frame header declares.
pub open spec fn frame_payload_len(b: Seq<u8>) -> nat {
    (b[3] as nat) + 256 * (b[4] as nat) + 65536 * (b[5] as nat)
}

/// Whether bytes hold exactly one frame: a six-byte header followed by
/// exactly the payload length the header declares.
pub open spec fn frame_wf(b: Seq<u8>) -> bool {
    b.len() >= 6 && b.len() == 6 + frame_payload_len(b)
}

/// An error of the secured channel.
#[derive(Debug)]
pub enum ChannelError {
    /// The peer's handshake payload failed structural validation. Part of
    /// the connection's error taxonomy; with this codec the decoder
    /// enforces the handshake message sizes itself, so a malformed peer
    /// payload surfaces as a failed handshake step instead.
    HandshakeRemoteInvalidMessage,
    /// A malformed frame, a failed decryption, or a failed handshake
    /// step; terminal.
    CodecError(codec_sv2::Error),
    /// The peer closed the connection.
    SocketClosed,
    /// Bytes handed to the write side do not hold one well-formed frame.
    MalformedFrame,
    /// This endpoint's own key material was refused; nothing was read
    /// from or sent to the peer.
    LocalKeyInvalid,
}

/// One round of handshake decoding.
enum HsRound {
    Frame(Vec<u8>),
    Incomplete(usize),
}

/// One round of transport decoding; both variants hand the decrypting
/// state back.
enum TransportRound {
    Frame(Vec<u8>, codec_sv2::TransportDecryptState),
    Incomplete(usize, codec_sv2::TransportDecryptState),
}

/// Relies on `noise_sv2::Initiator::from_raw_k`: builds an initiator that
/// will authenticate the responder against this 32-byte public key. It
/// succeeds exactly when the bytes are a valid x-only public key.
#[verifier::external_body]
fn initiator_from_key(key: &[u8; 32]) -> (r: Result<Box<noise_sv2::Initiator>, noise_sv2::Error>)
    ensures
        r is Ok <==> crate::keys::is_xonly_key(key@),
{
    noise_sv2::Initiator::from_raw_k(*key)
}

/// Relies on `noise_sv2::Responder::from_authority_kp`: builds a responder
/// from its authority keypair and a certificate validity in seconds. It
/// succeeds exactly when the private bytes are a valid secret key and the
/// public bytes are its x-only public key.
#[verifier::external_body]
fn responder_from_kp(public: &[u8; 32], private: &[u8; 32], cert_validity_secs: u64) -> (r: Result<
    Box<noise_sv2::Responder>,
    noise_sv2::Error,
>)
    ensures
        r is Ok <==> is_authority_keypair(public@, private@),
{
    noise_sv2::Responder::from_authority_kp(
        public,
        private,
        core::time::Duration::from_secs(cert_validity_secs),
    )
}

/// Relies on `codec_sv2::Handshake::initiator`: wraps the role into the
/// handshake state machine.
#[verifier::external_body]
fn hs_initiator(role: Box<noise_sv2::Initiator>) -> codec_sv2::Handshake<noise_sv2::Initiator> {
    codec_sv2::Handshake::initiator(role)
}

/// Relies on `codec_sv2::Handshake::responder`: wraps the role into the
/// handshake state machine.
#[verifier::external_body]
fn hs_responder(role: Box<noise_sv2::Responder>) -> codec_sv2::Handshake<noise_sv2::Responder> {
    codec_sv2::Handshake::responder(role)
}

/// Relies on `codec_sv2::Handshake::step_0`: produces the initiator's
/// 64-byte first message and the state that awaits the reply.
#[verifier::external_body]
fn hs_step_0(h: codec_sv2::Handshake<noise_sv2::Initiator>) -> (r: Result<
    (Vec<u8>, codec_sv2::Handshake<codec_sv2::InitiatorSent>),
    codec_sv2::Error,
>)
    ensures
        r is Ok ==> r->Ok_0.0@.len() == HANDSHAKE_FIRST_LEN,
{
    match h.step_0() {
        Ok((m, h2)) => Ok((m.payload().to_vec(), h2)),
        Err(e) => Err(e),
    }
}

/// Relies on `codec_sv2::Handshake::step_1`: consumes the initiator's
/// 64-byte message and produces the responder's 234-byte reply together
/// with the completed transport.
#[verifier::external_body]
fn hs_step_1(h: codec_sv2::Handshake<noise_sv2::Responder>, msg: &Vec<u8>) -> (r: Result<
    (Vec<u8>, codec_sv2::Transport),
    codec_sv2::Error,
>)
    requires
        msg@.len() == HANDSHAKE_FIRST_LEN,
    ensures
        r is Ok ==> r->Ok_0.0@.len() == HANDSHAKE_REPLY_LEN,
{
    let mut arr = [0u8; 64];
    arr.copy_from_slice(msg.as_slice());
    match h.step_1(arr) {
        Ok((m, t)) => Ok((m.payload().to_vec(), t)),
        Err(e) => Err(e),
    }
}

/// Relies on `codec_sv2::Handshake::step_2`: consumes the responder's
/// 234-byte reply and completes the transport on the initiator's side.
#[verifier::external_body]
fn hs_step_2(h: codec_sv2::Handshake<codec_sv2::InitiatorSent>, msg: &Vec<u8>) -> (r: Result<
    codec_sv2::Transport,
    codec_sv2::Error,
>)
    requires
        msg@.len() == HANDSHAKE_REPLY_LEN,
{
    let mut arr = [0u8; 234];
    arr.copy_from_slice(msg.as_slice());
    h.step_2(arr)
}

/// Relies on `codec_sv2::Transport::split`: the encrypting and decrypting
/// halves of a completed handshake.
#[verifier::external_body]
fn transport_split(t: codec_sv2::Transport) -> (codec_sv2::TransportEncryptState, codec_sv2::TransportDecryptState) {
    t.split()
}

/// Relies on `codec_sv2::NoiseEncoder::new`.
#[verifier::external_body]
fn encoder_new() -> NoiseEncoderBox {
    NoiseEncoderBox { inner: codec_sv2::NoiseEncoder::new() }
}

/// Relies on `codec_sv2::NoiseEncoder::encode_handshake`: a handshake
/// message is written out exactly as it is, since encryption is not set
/// up yet.
#[verifier::external_body]
fn encode_handshake(enc: &mut NoiseEncoderBox, msg: &Vec<u8>) -> (r: Vec<u8>)
    ensures
        r@ == msg@,
{
    enc.inner.encode_handshake(
        framing_sv2::framing::HandshakeMessage::from_message(msg.as_slice()),
    )
}

/// Relies on `framing_sv2::framing::SerializedFrame::from_bytes`: accepts
/// bytes exactly when they hold one whole frame, a six-byte header
/// followed by exactly the payload length the header declares.
#[verifier::external_body]
fn frame_from_bytes(bytes: Vec<u8>) -> (r: Result<codec_sv2::SerializedFrame, framing_sv2::framing::SizeHint>)
    ensures
        r is Ok <==> frame_wf(bytes@),
{
    framing_sv2::framing::SerializedFrame::from_bytes(bytes)
}

/// Relies on `codec_sv2::NoiseEncoder::encode_transport`: serializes and
/// encrypts one frame with the encrypting half, advancing its nonce.
#[verifier::external_body]
fn encode_transport(
    enc: &mut NoiseEncoderBox,
    frame: codec_sv2::SerializedFrame,
    st: &mut codec_sv2::TransportEncryptState,
) -> (r: Result<Vec<u8>, codec_sv2::Error>) {
    enc.inner.encode_transport(frame, st)
}

/// Relies on `codec_sv2::NoiseDecoder::new`: a fresh decoder holds no
/// buffered bytes.
#[verifier::external_body]
fn decoder_new() -> (r: NoiseDecoderBox)
    ensures
        decoder_pending(r) == 0,
{
    NoiseDecoderBox { inner: codec_sv2::NoiseDecoder::new() }
}

/// Relies on `codec_sv2::NoiseDecoder::writable_len`: how many bytes the
/// decoder accepts on the next read.
#[verifier::external_body]
fn decoder_writable_len(d: &NoiseDecoderBox) -> (r: usize)
    ensures
        r == decoder_window(*d),
{
    d.inner.writable_len()
}

/// Relies on `codec_sv2::NoiseDecoder::writable`: hands the decoder
/// exactly the bytes its read window asked for, adding them to its
/// buffer; the read window itself does not move until the next decode
/// round.
#[verifier::external_body]
fn decoder_fill(d: &mut NoiseDecoderBox, bytes: &Vec<u8>)
    requires
        bytes@.len() == decoder_window(*old(d)),
    ensures
        decoder_pending(*final(d)) == decoder_pending(*old(d)) + bytes@.len(),
        decoder_window(*final(d)) == decoder_window(*old(d)),
{
    d.inner.writable().copy_from_slice(bytes.as_slice());
}

/// Relies on `codec_sv2::NoiseDecoder::next_handshake_frame` for the
/// responder role: it never fails, and either consumes the initiator's
/// whole 64-byte message once that many bytes are buffered, or reports a
/// read window of exactly the bytes still missing from it.
#[verifier::external_body]
fn decoder_next_handshake_responder(d: &mut NoiseDecoderBox) -> (r: Result<
    HsRound,
    codec_sv2::Error,
>)
    ensures
        r is Ok,
        match r {
            Ok(HsRound::Frame(m)) => m@.len() == HANDSHAKE_FIRST_LEN && decoder_pending(*old(d))
                >= HANDSHAKE_FIRST_LEN && decoder_pending(*final(d)) == decoder_pending(*old(d))
                - HANDSHAKE_FIRST_LEN,
            Ok(HsRound::Incomplete(n)) => decoder_pending(*old(d)) < HANDSHAKE_FIRST_LEN
                && decoder_pending(*final(d)) == decoder_pending(*old(d)) && n
                == HANDSHAKE_FIRST_LEN - decoder_pending(*final(d)) && n == decoder_window(
                *final(d),
            ),
            Err(_) => false,
        },
{
    match d.inner.next_handshake_frame::<noise_sv2::Responder>() {
        Ok(codec_sv2::Decoded::Frame(m)) => Ok(HsRound::Frame(m.payload().to_vec())),
        Ok(codec_sv2::Decoded::Incomplete(n)) => Ok(HsRound::Incomplete(n)),
        Err(e) => Err(e),
    }
}

/// Relies on `codec_sv2::NoiseDecoder::next_handshake_frame` for the
/// initiator role: it never fails, and either consumes the responder's
/// whole 234-byte reply once that many bytes are buffered, or reports a
/// read window of exactly the bytes still missing from it.
#[verifier::external_body]
fn decoder_next_handshake_initiator(d: &mut NoiseDecoderBox) -> (r: Result<
    HsRound,
    codec_sv2::Error,
>)
    ensures
        r is Ok,
        match r {
            Ok(HsRound::Frame(m)) => m@.len() == HANDSHAKE_REPLY_LEN && decoder_pending(*old(d))
                >= HANDSHAKE_REPLY_LEN && decoder_pending(*final(d)) == decoder_pending(*old(d))
                - HANDSHAKE_REPLY_LEN,
            Ok(HsRound::Incomplete(n)) => decoder_pending(*old(d)) < HANDSHAKE_REPLY_LEN
                && decoder_pending(*final(d)) == decoder_pending(*old(d)) && n
                == HANDSHAKE_REPLY_LEN - decoder_pending(*final(d)) && n == decoder_window(
                *final(d),
            ),
            Err(_) => false,
        },
{
    match d.inner.next_handshake_frame::<codec_sv2::InitiatorSent>() {
        Ok(codec_sv2::Decoded::Frame(m)) => Ok(HsRound::Frame(m.payload().to_vec())),
        Ok(codec_sv2::Decoded::Incomplete(n)) => Ok(HsRound::Incomplete(n)),
        Err(e) => Err(e),
    }
}

/// Relies on `codec_sv2::NoiseDecoder::next_transport_frame`: one decode
/// round of an encrypted frame. A round that did not fail hands the
/// decrypting state back; an error consumes it, and the connection is
/// over.
#[verifier::external_body]
fn decoder_next_transport(
    d: &mut NoiseDecoderBox,
    st: codec_sv2::TransportDecryptState,
) -> (r: Result<TransportRound, codec_sv2::Error>)
    ensures
        match r {
            Ok(TransportRound::Incomplete(n, _)) => n == decoder_window(*final(d)),
            _ => true,
        },
{
    match d.inner.next_transport_frame(st) {
        Ok(codec_sv2::Decrypted::Frame(mut f, st2)) => Ok(
            TransportRound::Frame(f.as_bytes().to_vec(), st2),
        ),
        Ok(codec_sv2::Decrypted::Incomplete(n, st2)) => Ok(TransportRound::Incomplete(n, st2)),
        Err(e) => Err(e),
    }
}

/// The reading half of a secured channel, after the handshake: assembles
/// the decoder's read windows from partial reads and decrypts whole
/// frames.
pub struct NoiseReadHalf {
    decoder: NoiseDecoderBox,
    state: Option<codec_sv2::TransportDecryptState>,
    stage: FrameBuffer,
}

/// The writing half of a secured channel, after the handshake.
pub struct NoiseWriteHalf {
    encoder: NoiseEncoderBox,
    state: codec_sv2::TransportEncryptState,
}

impl NoiseReadHalf {
    /// Well-formedness: the staging buffer expects exactly the decoder's
    /// read window, and the decrypting state is present.
    pub closed spec fn wf(self) -> bool {
        &&& self.stage.wf()
        &&& self.stage.expected() == decoder_window(self.decoder)
        &&& self.state is Some
    }

    /// How many bytes the current decode round still expects in total.
    pub closed spec fn window(self) -> nat {
        self.stage.expected()
    }

    /// The bytes of the current round received so far, in arrival order.
    pub closed spec fn pending(self) -> Seq<u8> {
        self.stage.data()
    }

    /// How many bytes the next read should deliver at most. Zero means
    /// enough bytes are already buffered: call [`Self::on_bytes`] with an
    /// empty chunk.
    pub fn needed(&self) -> (r: usize)
        requires
            self.wf(),
        ensures
            r == self.window() - self.pending().len(),
    {
        self.stage.missing()
    }

    /// Accepts the bytes of one read: exactly as much of the chunk as the
    /// round still misses is consumed and appended to the bytes already
    /// staged; an incomplete round is never an error and loses nothing. A
    /// completed round is fed to the decoder and may yield one whole
    /// decrypted frame, after which the staging starts over at the
    /// decoder's next read window. An error is terminal for the channel.
    pub fn on_bytes(&mut self, chunk: &[u8]) -> (r: (usize, Result<Option<Vec<u8>>, ChannelError>))
        requires
            old(self).wf(),
        ensures
            r.0 == vstd::math::min(
                old(self).window() - old(self).pending().len(),
                chunk@.len() as int,
            ),
            old(self).pending().len() + r.0 < old(self).window() ==> ({
                &&& r.1 is Ok
                &&& r.1->Ok_0 is None
                &&& final(self).wf()
                &&& final(self).window() == old(self).window()
                &&& final(self).pending() =~= old(self).pending() + chunk@.subrange(0, r.0 as int)
            }),
            old(self).pending().len() + r.0 == old(self).window() && r.1 is Ok ==> final(self).wf()
                && final(self).pending() =~= Seq::<u8>::empty(),
    {
        let consumed = self.stage.fill(chunk);
        if !self.stage.is_complete() {
            return (consumed, Ok(None));
        }
        let bytes = self.stage.take();
        decoder_fill(&mut self.decoder, &bytes);
        let st = match self.state.take() {
            Some(st) => st,
            None => {
                proof {
                    assert(false);
                }
                return (consumed, Err(ChannelError::SocketClosed));
            },
        };
        match decoder_next_transport(&mut self.decoder, st) {
            Err(e) => (consumed, Err(ChannelError::CodecError(e))),
            Ok(TransportRound::Incomplete(n, st2)) => {
                self.state = Some(st2);
                self.stage.set_expected(n);
                (consumed, Ok(None))
            },
            Ok(TransportRound::Frame(frame, st2)) => {
                self.state = Some(st2);
                let w = decoder_writable_len(&self.decoder);
                self.stage.set_expected(w);
                (consumed, Ok(Some(frame)))
            },
        }
    }
}

impl NoiseWriteHalf {
    /// Encrypts one frame (header and payload bytes) into the bytes to
    /// write to the socket, advancing the cipher state. The bytes are
    /// refused as malformed exactly when they do not hold one whole
    /// frame: a six-byte header followed by exactly the payload length
    /// the header declares.
    pub fn write_frame(&mut self, frame_bytes: Vec<u8>) -> (r: Result<Vec<u8>, ChannelError>)
        ensures
            match r {
                Ok(_) => frame_wf(frame_bytes@),
                Err(ChannelError::MalformedFrame) => !frame_wf(frame_bytes@),
                Err(ChannelError::CodecError(_)) => frame_wf(frame_bytes@),
                Err(_) => false,
            },
    {
        let frame = match frame_from_bytes(frame_bytes) {
            Ok(f) => f,
            Err(_) => {
                return Err(ChannelError::MalformedFrame);
            },
        };
        match encode_transport(&mut self.encoder, frame, &mut self.state) {
            Ok(wire) => Ok(wire),
            Err(e) => Err(ChannelError::CodecError(e)),
        }
    }
}

/// One step of a handshake driver that is still reading.
pub enum ResponderProgress {
    /// More bytes are needed; how many of the chunk were consumed.
    Reading(ResponderHandshake, usize),
    /// The handshake is complete: the reply to send to the initiator, and
    /// the two transport halves.
    Done { consumed: usize, reply: Vec<u8>, read: NoiseReadHalf, write: NoiseWriteHalf },
}

/// The responder's side of the handshake: it waits for the initiator's
/// first message, answers it, and derives the transport.
pub struct ResponderHandshake {
    handshake: Option<codec_sv2::Handshake<noise_sv2::Responder>>,
    decoder: NoiseDecoderBox,
    encoder: NoiseEncoderBox,
    stage: FrameBuffer,
}

impl ResponderHandshake {
    /// Well-formedness: the staging buffer tracks the decoder's window,
    /// the staged and the decoder-buffered bytes together never exceed
    /// the initiator's fixed-size message, and the role state is present.
    pub closed spec fn wf(self) -> bool {
        &&& self.stage.wf()
        &&& self.stage.expected() == decoder_window(self.decoder)
        &&& decoder_pending(self.decoder) + self.stage.expected() == HANDSHAKE_FIRST_LEN
        &&& self.handshake is Some
    }

    /// How many bytes the current round still expects in total.
    pub closed spec fn window(self) -> nat {
        self.stage.expected()
    }

    /// The bytes received so far this round, in arrival order.
    pub closed spec fn pending(self) -> Seq<u8> {
        self.stage.data()
    }

    /// Starts a responder handshake from the proxy's authority keypair,
    /// which succeeds exactly when the private bytes are a valid secret
    /// key and the public bytes are its x-only public key. The responder
    /// sends nothing until the initiator's whole 64-byte message arrives.
    pub fn new(public: &[u8; 32], private: &[u8; 32], cert_validity_secs: u64) -> (r: Result<
        ResponderHandshake,
        ChannelError,
    >)
        ensures
            r is Ok <==> is_authority_keypair(public@, private@),
            match r {
                Ok(s) => s.wf() && s.pending().len() == 0 && s.window() == HANDSHAKE_FIRST_LEN,
                Err(e) => e is LocalKeyInvalid,
            },
    {
        let role = match responder_from_kp(public, private, cert_validity_secs) {
            Ok(role) => role,
            Err(_) => {
                return Err(ChannelError::LocalKeyInvalid);
            },
        };
        let mut decoder = decoder_new();
        let mut stage = FrameBuffer::new();
        match decoder_next_handshake_responder(&mut decoder) {
            Ok(HsRound::Incomplete(n)) => {
                stage.set_expected(n);
            },
            Ok(HsRound::Frame(_)) => {
                proof {
                    assert(false);
                }
                return Err(ChannelError::LocalKeyInvalid);
            },
            Err(_) => {
                proof {
                    assert(false);
                }
                return Err(ChannelError::LocalKeyInvalid);
            },
        }
        Ok(
            ResponderHandshake {
                handshake: Some(hs_responder(role)),
                decoder,
                encoder: encoder_new(),
                stage,
            },
        )
    }

    /// How many bytes the next read should deliver at most.
    pub fn needed(&self) -> (r: usize)
        requires
            self.wf(),
        ensures
            r == self.window() - self.pending().len(),
    {
        self.stage.missing()
    }

    /// Accepts the bytes of one read: exactly as much of the chunk as the
    /// message still misses is consumed. Until the initiator's whole
    /// message is here the driver keeps reading, losing none of the bytes
    /// already received; the chunk that completes it yields the reply and
    /// the transport halves, or an error from the handshake step itself,
    /// never another read. An error is fatal for the connection.
    pub fn on_bytes(self, chunk: &[u8]) -> (r: Result<ResponderProgress, ChannelError>)
        requires
            self.wf(),
        ensures
            ({
                let take = vstd::math::min(
                    self.window() - self.pending().len(),
                    chunk@.len() as int,
                );
                match r {
                    Ok(ResponderProgress::Reading(s2, consumed)) => {
                        &&& consumed == take
                        &&& self.pending().len() + take < self.window()
                        &&& s2.wf()
                        &&& s2.window() == self.window()
                        &&& s2.pending() =~= self.pending() + chunk@.subrange(0, take)
                    },
                    Ok(ResponderProgress::Done { consumed, reply, read, .. }) => {
                        &&& consumed == take
                        &&& self.pending().len() + take == self.window()
                        &&& read.wf()
                        &&& reply@.len() == HANDSHAKE_REPLY_LEN
                    },
                    Err(_) => self.pending().len() + take == self.window(),
                }
            }),
    {
        let mut s = self;
        let consumed = s.stage.fill(chunk);
        if !s.stage.is_complete() {
            return Ok(ResponderProgress::Reading(s, consumed));
        }
        let bytes = s.stage.take();
        decoder_fill(&mut s.decoder, &bytes);
        match decoder_next_handshake_responder(&mut s.decoder) {
            Err(e) => {
                proof {
                    assert(false);
                }
                Err(ChannelError::CodecError(e))
            },
            Ok(HsRound::Incomplete(n)) => {
                proof {
                    assert(false);
                }
                s.stage.set_expected(n);
                Ok(ResponderProgress::Reading(s, consumed))
            },
            Ok(HsRound::Frame(m)) => {
                let h = match s.handshake.take() {
                    Some(h) => h,
                    None => {
                        proof {
                            assert(false);
                        }
                        return Err(ChannelError::SocketClosed);
                    },
                };
                let (reply, transport) = match hs_step_1(h, &m) {
                    Ok(p) => p,
                    Err(e) => {
                        return Err(ChannelError::CodecError(e));
                    },
                };
                let (enc_state, dec_state) = transport_split(transport);
                let mut encoder = s.encoder;
                let wire = encode_handshake(&mut encoder, &reply);
                let w = decoder_writable_len(&s.decoder);
                let mut stage = s.stage;
                stage.set_expected(w);
                let read = NoiseReadHalf { decoder: s.decoder, state: Some(dec_state), stage };
                let write = NoiseWriteHalf { encoder, state: enc_state };
                Ok(ResponderProgress::Done { consumed, reply: wire, read, write })
            },
        }
    }
}

/// One step of the initiator's handshake driver.
pub enum InitiatorProgress {
    /// More bytes are needed; how many of the chunk were consumed.
    Reading(InitiatorHandshake, usize),
    /// The handshake is complete: the two transport halves.
    Done { consumed: usize, read: NoiseReadHalf, write: NoiseWriteHalf },
}

/// The initiator's side of the handshake: it sends the first message at
/// once, then waits for the responder's reply to derive the transport.
pub struct InitiatorHandshake {
    handshake: Option<codec_sv2::Handshake<codec_sv2::InitiatorSent>>,
    decoder: NoiseDecoderBox,
    encoder: NoiseEncoderBox,
    stage: FrameBuffer,
}

impl InitiatorHandshake {
    /// Well-formedness: the staging buffer tracks the decoder's window,
    /// the staged and the decoder-buffered bytes together never exceed
    /// the responder's fixed-size reply, and the sent-state is present.
    pub closed spec fn wf(self) -> bool {
        &&& self.stage.wf()
        &&& self.stage.expected() == decoder_window(self.decoder)
        &&& decoder_pending(self.decoder) + self.stage.expected() == HANDSHAKE_REPLY_LEN
        &&& self.handshake is Some
    }

    /// How many bytes the current round still expects in total.
    pub closed spec fn window(self) -> nat {
        self.stage.expected()
    }

    /// The bytes received so far this round, in arrival order.
    pub closed spec fn pending(self) -> Seq<u8> {
        self.stage.data()
    }

    /// Starts an initiator handshake against the upstream's known public
    /// key: the returned bytes are the 64-byte first message, to send at
    /// once. A key that is not a valid x-only public key is refused
    /// without touching the peer; with a valid key, only the first
    /// handshake step itself can still fail.
    pub fn start(upstream_key: &[u8; 32]) -> (r: Result<(Vec<u8>, InitiatorHandshake), ChannelError>)
        ensures
            match r {
                Ok(p) => crate::keys::is_xonly_key(upstream_key@) && p.1.wf() && p.0@.len()
                    == HANDSHAKE_FIRST_LEN && p.1.pending().len() == 0 && p.1.window()
                    == HANDSHAKE_REPLY_LEN,
                Err(e) => {
                    &&& e is LocalKeyInvalid || e is CodecError
                    &&& e is LocalKeyInvalid ==> !crate::keys::is_xonly_key(upstream_key@)
                    &&& e is CodecError ==> crate::keys::is_xonly_key(upstream_key@)
                },
            },
    {
        let role = match initiator_from_key(upstream_key) {
            Ok(role) => role,
            Err(_) => {
                return Err(ChannelError::LocalKeyInvalid);
            },
        };
        let (first, sent) = match hs_step_0(hs_initiator(role)) {
            Ok(p) => p,
            Err(e) => {
                return Err(ChannelError::CodecError(e));
            },
        };
        let mut encoder = encoder_new();
        let wire = encode_handshake(&mut encoder, &first);
        let mut decoder = decoder_new();
        let mut stage = FrameBuffer::new();
        match decoder_next_handshake_initiator(&mut decoder) {
            Ok(HsRound::Incomplete(n)) => {
                stage.set_expected(n);
            },
            Ok(HsRound::Frame(_)) => {
                proof {
                    assert(false);
                }
                return Err(ChannelError::LocalKeyInvalid);
            },
            Err(_) => {
                proof {
                    assert(false);
                }
                return Err(ChannelError::LocalKeyInvalid);
            },
        }
        Ok((wire, InitiatorHandshake { handshake: Some(sent), decoder, encoder, stage }))
    }

    /// How many bytes the next read should deliver at most.
    pub fn needed(&self) -> (r: usize)
        requires
            self.wf(),
        ensures
            r == self.window() - self.pending().len(),
    {
        self.stage.missing()
    }

    /// Accepts the bytes of one read: exactly as much of the chunk as the
    /// reply still misses is consumed. Until the responder's whole reply
    /// is here the driver keeps reading, losing none of the bytes already
    /// received; the chunk that completes it yields the transport halves,
    /// or an error from the final handshake step (a tampered or
    /// unauthentic reply), never another read. An error is fatal for the
    /// connection.
    pub fn on_bytes(self, chunk: &[u8]) -> (r: Result<InitiatorProgress, ChannelError>)
        requires
            self.wf(),
        ensures
            ({
                let take = vstd::math::min(
                    self.window() - self.pending().len(),
                    chunk@.len() as int,
                );
                match r {
                    Ok(InitiatorProgress::Reading(s2, consumed)) => {
                        &&& consumed == take
                        &&& self.pending().len() + take < self.window()
                        &&& s2.wf()
                        &&& s2.window() == self.window()
                        &&& s2.pending() =~= self.pending() + chunk@.subrange(0, take)
                    },
                    Ok(InitiatorProgress::Done { consumed, read, .. }) => {
                        &&& consumed == take
                        &&& self.pending().len() + take == self.window()
                        &&& read.wf()
                    },
                    Err(_) => self.pending().len() + take == self.window(),
                }
            }),
    {
        let mut s = self;
        let consumed = s.stage.fill(chunk);
        if !s.stage.is_complete() {
            return Ok(InitiatorProgress::Reading(s, consumed));
        }
        let bytes = s.stage.take();
        decoder_fill(&mut s.decoder, &bytes);
        match decoder_next_handshake_initiator(&mut s.decoder) {
            Err(e) => {
                proof {
                    assert(false);
                }
                Err(ChannelError::CodecError(e))
            },
            Ok(HsRound::Incomplete(n)) => {
                proof {
                    assert(false);
                }
                s.stage.set_expected(n);
                Ok(InitiatorProgress::Reading(s, consumed))
            },
            Ok(HsRound::Frame(m)) => {
                let h = match s.handshake.take() {
                    Some(h) => h,
                    None => {
                        proof {
                            assert(false);
                        }
                        return Err(ChannelError::SocketClosed);
                    },
                };
                let transport = match hs_step_2(h, &m) {
                    Ok(t) => t,
                    Err(e) => {
                        return Err(ChannelError::CodecError(e));
                    },
                };
                let (enc_state, dec_state) = transport_split(transport);
                let w = decoder_writable_len(&s.decoder);
                let mut stage = s.stage;
                stage.set_expected(w);
                let read = NoiseReadHalf { decoder: s.decoder, state: Some(dec_state), stage };
                let write = NoiseWriteHalf { encoder: s.encoder, state: enc_state };
                Ok(InitiatorProgress::Done { consumed, read, write })
            },
        }
    }
}

} // verus!

use defpool_proxy::keys::{KeyError, Secp256k1PublicKey};
use defpool_proxy::noise::{
    InitiatorHandshake, InitiatorProgress, NoiseReadHalf, NoiseWriteHalf, ResponderHandshake,
    ResponderProgress, HANDSHAKE_FIRST_LEN, HANDSHAKE_REPLY_LEN,
};
use defpool_proxy::template::{BlockTemplate, MiningJob, ShareSubmit};
use defpool_proxy::transport::{
    advance_phase, detect_protocol, FrameBuffer, HandshakeRole, Protocol, TransportEvent,
    TransportPhase,
};

fn keypair() -> ([u8; 32], [u8; 32]) {
    let secp = secp256k1::Secp256k1::new();
    let (sk, pk) = secp.generate_keypair(&mut secp256k1::rand::thread_rng());
    let (x_only, _) = pk.x_only_public_key();
    (x_only.serialize(), sk.secret_bytes())
}

fn drive_responder(
    mut r: ResponderHandshake,
    bytes: &[u8],
) -> (Vec<u8>, NoiseReadHalf, NoiseWriteHalf) {
    let mut off = 0;
    loop {
        match r.on_bytes(&bytes[off..]).expect("responder handshake failed") {
            ResponderProgress::Reading(next, consumed) => {
                r = next;
                off += consumed;
            },
            ResponderProgress::Done { reply, read, write, .. } => {
                return (reply, read, write);
            },
        }
    }
}

fn drive_initiator(mut i: InitiatorHandshake, bytes: &[u8]) -> (NoiseReadHalf, NoiseWriteHalf) {
    let mut off = 0;
    loop {
        match i.on_bytes(&bytes[off..]).expect("initiator handshake failed") {
            InitiatorProgress::Reading(next, consumed) => {
                i = next;
                off += consumed;
            },
            InitiatorProgress::Done { read, write, .. } => {
                return (read, write);
            },
        }
    }
}

fn read_one_frame(read: &mut NoiseReadHalf, wire: &[u8]) -> Vec<u8> {
    let mut off = 0;
    loop {
        let (consumed, round) = read.on_bytes(&wire[off..]);
        off += consumed;
        match round.expect("frame decoding failed") {
            Some(frame) => return frame,
            None => {
                assert!(off <= wire.len(), "the reader consumed past the wire bytes");
            },
        }
    }
}

fn test_frame(payload: &[u8]) -> Vec<u8> {
    let mut frame = vec![0u8, 0, 1];
    let len = payload.len() as u32;
    frame.extend_from_slice(&len.to_le_bytes()[..3]);
    frame.extend_from_slice(payload);
    frame
}

#[test]
fn test_handshake_and_frame_round_trip() {
    let (public, secret) = keypair();

    let responder = ResponderHandshake::new(&public, &secret, 3600).unwrap();
    let (first, initiator) = InitiatorHandshake::start(&public).unwrap();
    assert_eq!(first.len(), HANDSHAKE_FIRST_LEN);

    let (reply, mut resp_read, mut resp_write) = drive_responder(responder, &first);
    assert_eq!(reply.len(), HANDSHAKE_REPLY_LEN);
    let (mut init_read, mut init_write) = drive_initiator(initiator, &reply);

    // One application frame in each direction, byte-exact after the trip.
    let frame = test_frame(&[1, 2, 3]);
    let wire = init_write.write_frame(frame.clone()).unwrap();
    assert_ne!(wire, frame, "transport frames must be encrypted on the wire");
    assert_eq!(read_one_frame(&mut resp_read, &wire), frame);

    let frame_back = test_frame(&[9, 8, 7, 6]);
    let wire_back = resp_write.write_frame(frame_back.clone()).unwrap();
    assert_eq!(read_one_frame(&mut init_read, &wire_back), frame_back);
}

#[test]
fn test_handshake_survives_partial_reads() {
    let (public, secret) = keypair();
    let responder = ResponderHandshake::new(&public, &secret, 3600).unwrap();
    let (first, initiator) = InitiatorHandshake::start(&public).unwrap();

    // Feed the responder one byte at a time.
    let mut state = Some(responder);
    let mut done = None;
    for b in &first {
        if done.is_some() {
            break;
        }
        match state.take().unwrap().on_bytes(std::slice::from_ref(b)).unwrap() {
            ResponderProgress::Reading(next, consumed) => {
                assert_eq!(consumed, 1);
                state = Some(next);
            },
            ResponderProgress::Done { reply, read, write, .. } => {
                done = Some((reply, read, write));
            },
        }
    }
    let (reply, mut resp_read, _resp_write) = done.expect("the responder never finished");
    let (_init_read, mut init_write) = drive_initiator(initiator, &reply);

    let frame = test_frame(&[5; 40]);
    let wire = init_write.write_frame(frame.clone()).unwrap();
    // Deliver the encrypted bytes in small chunks as well.
    let mut off = 0;
    let frame_out = loop {
        let end = (off + 7).min(wire.len());
        let (consumed, round) = resp_read.on_bytes(&wire[off..end]);
        off += consumed;
        if let Some(f) = round.unwrap() {
            break f;
        }
    };
    assert_eq!(frame_out, frame);
}

#[test]
fn test_frame_buffer_keeps_partial_progress() {
    let mut fb = FrameBuffer::new();
    fb.set_expected(5);
    assert_eq!(fb.missing(), 5);
    assert_eq!(fb.fill(&[1, 2]), 2);
    assert_eq!(fb.missing(), 3);
    // Same expected length: progress is kept.
    fb.set_expected(5);
    assert_eq!(fb.missing(), 3);
    assert_eq!(fb.fill(&[3, 4, 5, 6]), 3);
    assert!(fb.is_complete());
    assert_eq!(fb.take(), vec![1, 2, 3, 4, 5]);
    // A changed expected length starts the round over.
    fb.set_expected(2);
    fb.fill(&[9]);
    fb.set_expected(4);
    assert_eq!(fb.missing(), 4);
}

#[test]
fn test_protocol_detection() {
    assert_eq!(detect_protocol(b'{'), Protocol::V1);
    for b in [0u8, 1, 2, 0x16, b'[', b'a', 0x7C, 0xFF] {
        assert_eq!(detect_protocol(b), Protocol::V2);
    }
}

#[test]
fn test_key_parsing() {
    let (public, _) = keypair();
    let mut data = vec![1u8, 0];
    data.extend_from_slice(&public);
    let encoded = bs58::encode(&data).with_check().into_string();
    let parsed = Secp256k1PublicKey::from_str(&encoded).unwrap();
    assert_eq!(parsed.0.serialize(), public);

    assert_eq!(
        Secp256k1PublicKey::from_str("not base58 at all!").unwrap_err(),
        KeyError::BadEncoding
    );

    let mut wrong_version = vec![2u8, 0];
    wrong_version.extend_from_slice(&public);
    let encoded = bs58::encode(&wrong_version).with_check().into_string();
    assert_eq!(
        Secp256k1PublicKey::from_str(&encoded).unwrap_err(),
        KeyError::BadVersion
    );

    let short = bs58::encode(&[1u8, 0, 9]).with_check().into_string();
    assert_eq!(
        Secp256k1PublicKey::from_str(&short).unwrap_err(),
        KeyError::TooShort
    );
}

#[test]
fn test_difficulty_to_target() {
    assert_eq!(MiningJob::difficulty_to_target(0), "ffffffff");
    assert_eq!(MiningJob::difficulty_to_target(1), "ffffffff");
    assert_eq!(MiningJob::difficulty_to_target(0xFFFFFFFF), "00000001");
    assert_eq!(MiningJob::difficulty_to_target(0x10000), "0000ffff");
}

#[test]
fn test_job_from_template() {
    let template = BlockTemplate {
        blocktemplate_blob: "full".to_string(),
        blockhashing_blob: "hashing".to_string(),
        difficulty: 0x10000,
        height: 1234,
        prev_hash: "prev".to_string(),
        reserved_offset: 0,
        expected_reward: 5,
    };
    let job = MiningJob::from_template(&template, "job1".to_string());
    assert_eq!(job.job_id, "job1");
    assert_eq!(job.blob, "hashing");
    assert_eq!(job.target, "0000ffff");
    assert_eq!(job.height, 1234);
    assert!(job.seed_hash.is_none());
}

#[test]
fn test_write_frame_refuses_malformed_bytes() {
    let (public, secret) = keypair();
    let responder = ResponderHandshake::new(&public, &secret, 3600).unwrap();
    let (first, initiator) = InitiatorHandshake::start(&public).unwrap();
    let (reply, _resp_read, mut resp_write) = drive_responder(responder, &first);
    let (_init_read, _init_write) = drive_initiator(initiator, &reply);

    // Too short for a header.
    assert!(matches!(
        resp_write.write_frame(vec![0, 0, 1]),
        Err(defpool_proxy::noise::ChannelError::MalformedFrame)
    ));
    // Header declares 3 payload bytes but 4 follow.
    assert!(matches!(
        resp_write.write_frame(vec![0, 0, 1, 3, 0, 0, 9, 9, 9, 9]),
        Err(defpool_proxy::noise::ChannelError::MalformedFrame)
    ));
    // A whole frame still encrypts after the refused ones.
    assert!(resp_write.write_frame(test_frame(&[1, 2])).is_ok());
}

#[test]
fn test_bad_local_keys_are_refused() {
    let (public, _) = keypair();
    let (other_public, secret) = keypair();

    // A keypair whose halves do not belong together is refused before
    // anything touches the peer.
    assert!(matches!(
        ResponderHandshake::new(&public, &secret, 3600),
        Err(defpool_proxy::noise::ChannelError::LocalKeyInvalid)
    ));
    assert!(ResponderHandshake::new(&other_public, &secret, 3600).is_ok());

    // All-zero bytes are not a valid x-only public key.
    assert!(matches!(
        InitiatorHandshake::start(&[0u8; 32]),
        Err(defpool_proxy::noise::ChannelError::LocalKeyInvalid)
    ));
}

#[test]
fn test_share_validation() {
    let share = ShareSubmit {
        job_id: "a".to_string(),
        nonce: "b".to_string(),
        result: "c".to_string(),
    };
    assert!(share.validate(100));
    assert!(!share.validate(0));
}

#[test]
fn test_transport_phase_machine() {
    let p = advance_phase(
        TransportPhase::Uninitialized,
        TransportEvent::Started { role: HandshakeRole::Responder },
    );
    assert_eq!(p, TransportPhase::Handshaking { role: HandshakeRole::Responder, step: 0 });
    let p = advance_phase(p, TransportEvent::MessageExchanged);
    assert_eq!(p, TransportPhase::Handshaking { role: HandshakeRole::Responder, step: 1 });
    let p = advance_phase(p, TransportEvent::HandshakeCompleted);
    assert_eq!(p, TransportPhase::Transport);

    // Transport and Failed are terminal.
    for e in [
        TransportEvent::Started { role: HandshakeRole::Initiator },
        TransportEvent::MessageExchanged,
        TransportEvent::HandshakeCompleted,
        TransportEvent::Failure,
    ] {
        assert_eq!(advance_phase(TransportPhase::Transport, e), TransportPhase::Transport);
        assert_eq!(advance_phase(TransportPhase::Failed, e), TransportPhase::Failed);
    }

    let p = advance_phase(
        TransportPhase::Handshaking { role: HandshakeRole::Initiator, step: 1 },
        TransportEvent::Failure,
    );
    assert_eq!(p, TransportPhase::Failed);
}

use synly::channel::{
    check_certificate, check_proof, check_session, host_reply, make_proof, proof_from,
    read_preamble, verify_proof, write_preamble, ChannelError, HostIdentity, InputChannelOffer,
    InputChannelRole, MAX_CERTIFICATE_LEN,
};
use synly::framing::{content_length, frame, FrameError};
use synly::protocol::{
    frame_message, message_length, message_name, InputMessage, MAX_INPUT_FRAME_LEN,
};

const SESSION: [u8; 16] = [5; 16];

#[test]
fn proof_binds_secret_session_role_and_exporter() {
    let secret = [1u8; 32];
    let session = *uuid::Uuid::new_v4().as_bytes();
    let exporter = [2u8; 32];
    let proof = make_proof(&secret, &session, InputChannelRole::Client, &exporter);
    verify_proof(&secret, &session, InputChannelRole::Client, &exporter, &proof).unwrap();
    assert!(verify_proof(
        &[3u8; 32],
        &session,
        InputChannelRole::Client,
        &exporter,
        &proof
    )
    .is_err());
    assert!(verify_proof(&secret, &session, InputChannelRole::Host, &exporter, &proof).is_err());
    assert!(verify_proof(
        &secret,
        &[0u8; 16],
        InputChannelRole::Client,
        &exporter,
        &proof
    )
    .is_err());
    assert!(verify_proof(
        &secret,
        &session,
        InputChannelRole::Client,
        &[9u8; 32],
        &proof
    )
    .is_err());
}

#[test]
fn proofs_are_no_copies_of_their_input() {
    let secret = [1u8; 32];
    let exporter = [2u8; 32];
    let client = make_proof(&secret, &SESSION, InputChannelRole::Client, &exporter);
    let host = make_proof(&secret, &SESSION, InputChannelRole::Host, &exporter);
    assert_ne!(client, secret);
    assert_ne!(client, exporter);
    assert_ne!(client, host);
    assert_eq!(client, make_proof(&secret, &SESSION, InputChannelRole::Client, &exporter));
    let mut broken = client;
    broken[31] ^= 1;
    assert_eq!(
        verify_proof(&secret, &SESSION, InputChannelRole::Client, &exporter, &broken),
        Err(ChannelError::Proof)
    );
}

#[test]
fn preamble_roundtrip_preserves_session_id() {
    let bytes = write_preamble(&SESSION);
    let bytes: [u8; 30] = bytes.try_into().unwrap();
    assert_eq!(read_preamble(&bytes), Ok(SESSION));
}

#[test]
fn broken_preambles_are_refused() {
    let good: [u8; 30] = write_preamble(&SESSION).try_into().unwrap();
    let mut magic = good;
    magic[0] ^= 1;
    assert_eq!(read_preamble(&magic), Err(ChannelError::Magic));
    let mut found = None;
    for at in 0..30 {
        let mut other = good;
        other[at] ^= 1;
        if let Err(ChannelError::Version(version)) = read_preamble(&other) {
            found = Some(version);
        }
    }
    assert!(found.is_some());
}

#[test]
fn both_ends_accept_each_other() {
    let secret = [7u8; 32];
    let exporter = [8u8; 32];
    let hello = proof_from(InputChannelRole::Client, &secret, &SESSION, &exporter);
    let reply = host_reply(&hello, &secret, &SESSION, &exporter).unwrap();
    assert_eq!(
        check_proof(&reply, InputChannelRole::Host, &secret, &SESSION, &exporter),
        Ok(())
    );
}

#[test]
fn reflected_proofs_are_refused() {
    let secret = [7u8; 32];
    let exporter = [8u8; 32];
    let hello = proof_from(InputChannelRole::Client, &secret, &SESSION, &exporter);
    assert_eq!(
        check_proof(&hello, InputChannelRole::Host, &secret, &SESSION, &exporter),
        Err(ChannelError::Role)
    );
    assert_eq!(
        check_proof(
            &InputMessage::Heartbeat { generation: 1 },
            InputChannelRole::Host,
            &secret,
            &SESSION,
            &exporter
        ),
        Err(ChannelError::MissingProof)
    );
    assert_eq!(
        host_reply(&hello, &[1u8; 32], &SESSION, &exporter).unwrap_err(),
        ChannelError::Proof
    );
}

#[test]
fn sessions_and_certificates_are_checked() {
    assert_eq!(check_session(&SESSION, &SESSION), Ok(()));
    assert_eq!(check_session(&SESSION, &[6; 16]), Err(ChannelError::Session));
    let offer = |length: usize| InputChannelOffer {
        session_id: SESSION,
        certificate_der: vec![1; length],
    };
    assert_eq!(offer(3).clone(), offer(3));
    assert_ne!(offer(3), offer(4));
    assert_eq!(check_certificate(&offer(0)), Err(ChannelError::Certificate));
    assert_eq!(check_certificate(&offer(MAX_CERTIFICATE_LEN)), Ok(()));
    assert_eq!(
        check_certificate(&offer(MAX_CERTIFICATE_LEN + 1)),
        Err(ChannelError::Certificate)
    );
}

#[test]
fn input_messages_roundtrip() {
    let content = vec![1u8, 2, 3];
    let framed = frame_message(&content).unwrap();
    assert_eq!(framed, vec![0, 0, 0, 3, 1, 2, 3]);
    let prefix: [u8; 4] = framed[..4].try_into().unwrap();
    assert_eq!(message_length(&prefix), Ok(3));
    assert_eq!(framed[4..].to_vec(), content);
}

#[test]
fn oversized_frame_is_rejected_before_allocation() {
    let prefix = ((MAX_INPUT_FRAME_LEN + 1) as u32).to_be_bytes();
    assert_eq!(message_length(&prefix), Err(FrameError::TooLong(MAX_INPUT_FRAME_LEN + 1)));
    assert_eq!(message_length(&[0; 4]), Err(FrameError::Empty));
    assert_eq!(
        frame_message(&vec![0; MAX_INPUT_FRAME_LEN + 1]),
        Err(FrameError::TooLong(MAX_INPUT_FRAME_LEN + 1))
    );
}

#[test]
fn frames_round_trip() {
    assert_eq!(frame(&vec![], 10, false), Err(FrameError::Empty));
    assert_eq!(frame(&vec![], 10, true), Ok(vec![0, 0, 0, 0]));
    assert_eq!(content_length(&[0, 1, 0, 2], 100_000), Ok(65538));
}

#[test]
fn messages_have_names() {
    assert_eq!(
        message_name(&InputMessage::Heartbeat { generation: 1 }),
        "Heartbeat"
    );
    assert_eq!(
        message_name(&InputMessage::Motion { generation: 1, dx: 0, dy: 0 }),
        "Motion"
    );
}

#[test]
fn proof_has_the_known_code() {
    assert_eq!(
        make_proof(&[1; 32], &SESSION, InputChannelRole::Client, &[2; 32]),
        [
            0x34, 0x9a, 0xd1, 0xae, 0xf2, 0x21, 0xf1, 0xb7, 0x6e, 0xcb, 0x49, 0xf1, 0x95, 0xbb,
            0xcf, 0x8a, 0xcb, 0xfb, 0x6b, 0x2d, 0xcc, 0xc2, 0xfc, 0x9d, 0x52, 0x92, 0x85, 0xbb,
            0xfc, 0x88, 0x31, 0x00,
        ]
    );
}

#[test]
fn new_hosts_can_be_connected_to() {
    let first = HostIdentity::create().unwrap();
    let second = HostIdentity::create().unwrap();
    assert_eq!(check_certificate(&first.offer), Ok(()));
    assert_ne!(first.offer.session_id, second.offer.session_id);
    assert_ne!(first.offer.certificate_der, second.offer.certificate_der);
    assert_eq!(first.offer.session_id[6] / 16, 4);
    assert_eq!(first.offer.session_id[8] / 64, 2);
    assert!(!first.private_key_der.is_empty());
    assert_ne!(first.private_key_der, first.offer.certificate_der);
}

#[test]
fn hosts_keep_what_was_made_for_them() {
    let identity = HostIdentity::from_certificate(SESSION, Ok((vec![1, 2], vec![3]))).unwrap();
    assert_eq!(identity.offer.session_id, SESSION);
    assert_eq!(identity.offer.certificate_der, vec![1, 2]);
    assert_eq!(identity.private_key_der, vec![3]);
    let failed = HostIdentity::from_certificate(SESSION, Err(rcgen::Error::RemoteKeyError));
    assert_eq!(failed.unwrap_err(), ChannelError::NotSigned);
}

use teamech::codec::encrypt;
use teamech::session::{
    AuthOutcome, Flag, Outcome, Session, State, stamp_message, AUTH_RETRY_MILLIS,
};

const NOW: i64 = 1_537_000_000_000;

fn make_pad() -> Vec<u8> {
    let mut pad: Vec<u8> = Vec::new();
    for i in 0..4096 {
        pad.push((i % 256) as u8);
    }
    pad
}

fn make_session() -> Session {
    Session::new(make_pad(), b"human".to_vec(), b"supervisor".to_vec())
}

/// A datagram as the server would send it: body, stamped at `t`, encrypted
/// under the shared pad.
fn server_datagram(body: &[u8], t: i64) -> Vec<u8> {
    let message = stamp_message(&body.to_vec(), t);
    encrypt(&message, &make_pad())
}

fn operating_session() -> Session {
    let mut s = make_session();
    let reply = server_datagram(&[0x02], NOW);
    assert_eq!(s.handle_auth_datagram(true, &reply), AuthOutcome::Accepted);
    s
}

/// Decrypt a client payload with the shared pad and return its body
/// (plaintext minus the trailing timestamp).
fn open_payload(payload: &Vec<u8>) -> Vec<u8> {
    let (valid, plain) = teamech::codec::decrypt(payload, &make_pad());
    assert!(valid);
    plain[..plain.len() - 8].to_vec()
}

#[test]
fn auth_success_subscribes_and_identifies() {
    let mut s = make_session();
    assert_eq!(s.state, State::Authenticating);
    let probe = s.auth_probe();
    assert_eq!(probe.len(), 24);
    assert_eq!(open_payload(&probe), Vec::<u8>::new());
    let reply = server_datagram(&[0x02], NOW);
    assert_eq!(reply.len(), 25);
    assert_eq!(s.handle_auth_datagram(true, &reply), AuthOutcome::Accepted);
    assert_eq!(s.state, State::Operating);
    let name = open_payload(&s.name_payload());
    assert_eq!(name[0], 0x01);
    assert_eq!(&name[1..], b"human");
    let class = open_payload(&s.class_payload());
    assert_eq!(class[0], 0x11);
    assert_eq!(&class[1..], b"supervisor");
}

#[test]
fn auth_full_waits_and_retries() {
    let mut s = make_session();
    let reply = server_datagram(&[0x19], NOW);
    assert_eq!(s.handle_auth_datagram(true, &reply), AuthOutcome::Full);
    assert_eq!(s.state, State::Authenticating);
    assert_eq!(AUTH_RETRY_MILLIS, 5000);
}

#[test]
fn auth_unknown_status_is_reported() {
    let mut s = make_session();
    let reply = server_datagram(&[0x42], NOW);
    assert_eq!(
        s.handle_auth_datagram(true, &reply),
        AuthOutcome::UnknownStatus(0x42)
    );
    assert_eq!(s.state, State::Authenticating);
}

#[test]
fn auth_rejects_wrong_source_and_size() {
    let mut s = make_session();
    let reply = server_datagram(&[0x02], NOW);
    assert_eq!(s.handle_auth_datagram(false, &reply), AuthOutcome::BadReply);
    let long = server_datagram(&[0x02, 0x00], NOW);
    assert_eq!(long.len(), 26);
    assert_eq!(s.handle_auth_datagram(true, &long), AuthOutcome::BadReply);
    assert_eq!(s.state, State::Authenticating);
}

#[test]
fn auth_detects_pad_mismatch() {
    let mut s = make_session();
    let other_pad = vec![0xaa; 512];
    let message = stamp_message(&vec![0x02], NOW);
    let reply = encrypt(&message, &other_pad);
    assert_eq!(
        s.handle_auth_datagram(true, &reply),
        AuthOutcome::PadMismatch
    );
    assert_eq!(s.state, State::Authenticating);
}

#[test]
fn message_ack_pops_queue_and_reports_fanout() {
    let mut s = operating_session();
    let line = b"ping".to_vec();
    let payload = s.message_payload(&line);
    assert_eq!(open_payload(&payload), line);
    s.note_sent(line);
    assert_eq!(s.acks.len(), 1);
    let reply = server_datagram(&[0x06, 0x00, 0x03], NOW);
    match s.handle_datagram(true, &reply, NOW) {
        Outcome::AckFanout { count, acked } => {
            assert_eq!(count, 3);
            assert_eq!(acked, Some(b"ping".to_vec()));
        }
        other => panic!("expected a fanout acknowledgement, got {:?}", other),
    }
    assert_eq!(s.acks.len(), 0);
}

#[test]
fn fanout_count_is_big_endian() {
    let mut s = operating_session();
    let reply = server_datagram(&[0x06, 0x01, 0x02], NOW);
    match s.handle_datagram(true, &reply, NOW) {
        Outcome::AckFanout { count, acked } => {
            assert_eq!(count, 258);
            assert_eq!(acked, None);
        }
        other => panic!("expected a fanout acknowledgement, got {:?}", other),
    }
}

#[test]
fn fanout_acks_pop_in_fifo_order() {
    let mut s = operating_session();
    s.note_sent(b"first".to_vec());
    s.note_sent(b"second".to_vec());
    let reply_a = server_datagram(&[0x06, 0x00, 0x01], NOW);
    match s.handle_datagram(true, &reply_a, NOW) {
        Outcome::AckFanout { acked, .. } => assert_eq!(acked, Some(b"first".to_vec())),
        other => panic!("expected a fanout acknowledgement, got {:?}", other),
    }
    let reply_b = server_datagram(&[0x06, 0x00, 0x01], NOW);
    match s.handle_datagram(true, &reply_b, NOW) {
        Outcome::AckFanout { acked, .. } => assert_eq!(acked, Some(b"second".to_vec())),
        other => panic!("expected a fanout acknowledgement, got {:?}", other),
    }
    assert_eq!(s.acks.len(), 0);
}

#[test]
fn single_recipient_ack_pops_nothing() {
    let mut s = operating_session();
    s.note_sent(b"ping".to_vec());
    let reply = server_datagram(&[0x06], NOW);
    assert!(matches!(
        s.handle_datagram(true, &reply, NOW),
        Outcome::AckSingle
    ));
    assert_eq!(s.acks.len(), 1);
}

#[test]
fn expiry_notice_recovers() {
    let mut s = operating_session();
    s.note_sent(b"pending".to_vec());
    let reply = server_datagram(&[0x19], NOW);
    assert!(matches!(
        s.handle_datagram(true, &reply, NOW),
        Outcome::Expired
    ));
    assert_eq!(s.state, State::Authenticating);
    assert_eq!(s.acks.len(), 0);
    // The client re-authenticates from here exactly as at startup.
    let accept = server_datagram(&[0x02], NOW);
    assert_eq!(s.handle_auth_datagram(true, &accept), AuthOutcome::Accepted);
    assert_eq!(s.state, State::Operating);
}

#[test]
fn flagged_expiry_notice_is_not_obeyed() {
    // Control interpretations apply only to unflagged messages: a stale
    // expiry byte is displayed as a user message and does not deauth.
    let mut s = operating_session();
    let reply = server_datagram(&[0x19], NOW - 30_000);
    match s.handle_datagram(true, &reply, NOW) {
        Outcome::UserMessage { body, flag, .. } => {
            assert_eq!(body, vec![0x19]);
            assert_eq!(flag, Flag::Outdated);
        }
        other => panic!("expected a flagged user message, got {:?}", other),
    }
    assert_eq!(s.state, State::Operating);
}

#[test]
fn reidentify_request_resends_head() {
    let mut s = operating_session();
    s.note_sent(b"waiting".to_vec());
    let reply = server_datagram(&[0x02], NOW);
    match s.handle_datagram(true, &reply, NOW) {
        Outcome::Reidentify { resend } => assert_eq!(resend, Some(b"waiting".to_vec())),
        other => panic!("expected a re-identify request, got {:?}", other),
    }
    assert_eq!(s.state, State::Operating);
    assert_eq!(s.acks.len(), 1);
    let again = server_datagram(&[0x02], NOW);
    s.acks.clear();
    match s.handle_datagram(true, &again, NOW) {
        Outcome::Reidentify { resend } => assert_eq!(resend, None),
        other => panic!("expected a re-identify request, got {:?}", other),
    }
}

#[test]
fn replayed_ciphertext_is_dropped() {
    let mut s = operating_session();
    // 40 bytes of body + 8-byte timestamp + 8-byte signature + 8-byte nonce
    // makes the 64-byte ciphertext of the scenario.
    let body = [0x77u8; 40];
    let reply = server_datagram(&body, NOW);
    assert_eq!(reply.len(), 64);
    assert!(matches!(
        s.handle_datagram(true, &reply, NOW),
        Outcome::UserMessage { .. }
    ));
    assert!(matches!(
        s.handle_datagram(true, &reply, NOW),
        Outcome::Duplicate
    ));
}

#[test]
fn future_timestamp_is_flagged_but_acknowledged() {
    let mut s = operating_session();
    let reply = server_datagram(b"gateway hello", NOW + 30_000);
    match s.handle_datagram(true, &reply, NOW) {
        Outcome::UserMessage { body, flag, reply } => {
            assert_eq!(body, b"gateway hello".to_vec());
            assert_eq!(flag, Flag::Future);
            assert_eq!(reply, 0x06);
        }
        other => panic!("expected a user message, got {:?}", other),
    }
    assert_eq!(s.state, State::Operating);
}

#[test]
fn outdated_timestamp_is_flagged_but_acknowledged() {
    let mut s = operating_session();
    let reply = server_datagram(b"gateway hello", NOW - 30_000);
    match s.handle_datagram(true, &reply, NOW) {
        Outcome::UserMessage { flag, reply, .. } => {
            assert_eq!(flag, Flag::Outdated);
            assert_eq!(reply, 0x06);
        }
        other => panic!("expected a user message, got {:?}", other),
    }
}

#[test]
fn boundary_timestamps_are_clean() {
    let mut s = operating_session();
    let reply = server_datagram(b"gateway edge", NOW - 10_000);
    match s.handle_datagram(true, &reply, NOW) {
        Outcome::UserMessage { flag, .. } => assert_eq!(flag, Flag::Clean),
        other => panic!("expected a user message, got {:?}", other),
    }
    let reply = server_datagram(b"gateway edge2", NOW + 10_000);
    match s.handle_datagram(true, &reply, NOW) {
        Outcome::UserMessage { flag, .. } => assert_eq!(flag, Flag::Clean),
        other => panic!("expected a user message, got {:?}", other),
    }
}

#[test]
fn invalid_signature_naks_and_recovers() {
    let mut s = operating_session();
    let mut reply = server_datagram(b"tampered payload body", NOW);
    reply[2] ^= 0x40;
    match s.handle_datagram(true, &reply, NOW) {
        Outcome::UserMessage { flag, reply, .. } => {
            assert_eq!(flag, Flag::BadSig);
            assert_eq!(reply, 0x15);
        }
        other => panic!("expected a flagged user message, got {:?}", other),
    }
    assert_eq!(s.state, State::Authenticating);
}

#[test]
fn short_datagrams_are_ignored() {
    let mut s = operating_session();
    let short = vec![0xab; 24];
    assert!(matches!(
        s.handle_datagram(true, &short, NOW),
        Outcome::TooShort
    ));
    let tiny = vec![0x01; 3];
    assert!(matches!(
        s.handle_datagram(true, &tiny, NOW),
        Outcome::TooShort
    ));
    assert_eq!(s.state, State::Operating);
}

#[test]
fn foreign_datagrams_are_ignored() {
    let mut s = operating_session();
    let reply = server_datagram(b"gateway hello", NOW);
    assert!(matches!(
        s.handle_datagram(false, &reply, NOW),
        Outcome::NotServer
    ));
}

#[test]
fn notice_strips_control_byte() {
    let mut s = operating_session();
    let mut body: Vec<u8> = vec![0x05];
    body.extend_from_slice(b"server says hi");
    let reply = server_datagram(&body, NOW);
    match s.handle_datagram(true, &reply, NOW) {
        Outcome::ServerNotice { text } => assert_eq!(text, b"server says hi".to_vec()),
        other => panic!("expected a notice, got {:?}", other),
    }
}

#[test]
fn user_message_is_acknowledged() {
    let mut s = operating_session();
    let reply = server_datagram(b"sensor1 temp 21", NOW);
    match s.handle_datagram(true, &reply, NOW) {
        Outcome::UserMessage { body, flag, reply } => {
            assert_eq!(body, b"sensor1 temp 21".to_vec());
            assert_eq!(flag, Flag::Clean);
            assert_eq!(reply, 0x06);
        }
        other => panic!("expected a user message, got {:?}", other),
    }
}

#[test]
fn sender_splits_on_first_space() {
    let (sender, contents) = teamech::session::split_sender(&b"sensor1 temp 21".to_vec());
    assert_eq!(sender, Some(b"sensor1".to_vec()));
    assert_eq!(contents, b"temp 21".to_vec());
    let (sender, contents) = teamech::session::split_sender(&b"nospace".to_vec());
    assert_eq!(sender, None);
    assert_eq!(contents, b"nospace".to_vec());
    let (sender, contents) = teamech::session::split_sender(&b" leading".to_vec());
    assert_eq!(sender, Some(Vec::new()));
    assert_eq!(contents, b"leading".to_vec());
    let (sender, contents) = teamech::session::split_sender(&Vec::new());
    assert_eq!(sender, None);
    assert_eq!(contents, Vec::<u8>::new());
}

#[test]
fn control_payload_carries_its_code() {
    let s = make_session();
    let quit = s.control_payload(0x18);
    assert_eq!(quit.len(), 25);
    assert_eq!(open_payload(&quit), vec![0x18]);
    let nak = s.control_payload(0x15);
    assert_eq!(open_payload(&nak), vec![0x15]);
}

use notarize_pool::artifact::{
    decode_attestation, decode_secrets, encode_attestation, encode_secrets, Attestation, Secrets,
    ATTESTATION_TAG, SECRETS_TAG,
};
use notarize_pool::commit::{
    validate_config, CommitSpan, CommitStrategy, CommitmentConfig, DefaultCommitter, Direction,
};

#[test]
fn attestation_round_trip() {
    let a = Attestation {
        session_id: vec![9, 8, 7],
        max_sent: 1024,
        max_recv: 4096,
        body: vec![0, 255, 1, 2, 3],
    };
    let bytes = encode_attestation(&a);
    assert_eq!(bytes[0], ATTESTATION_TAG);
    let back = decode_attestation(&bytes).unwrap();
    assert_eq!(back.session_id, a.session_id);
    assert_eq!(back.max_sent, 1024);
    assert_eq!(back.max_recv, 4096);
    assert_eq!(back.body, a.body);
}

#[test]
fn attestation_exact_bytes() {
    let a = Attestation { session_id: vec![0xAB], max_sent: 1, max_recv: 2, body: vec![] };
    let bytes = encode_attestation(&a);
    let mut expected = vec![ATTESTATION_TAG];
    expected.extend_from_slice(&1u64.to_le_bytes());
    expected.push(0xAB);
    expected.extend_from_slice(&1u64.to_le_bytes());
    expected.extend_from_slice(&2u64.to_le_bytes());
    expected.extend_from_slice(&0u64.to_le_bytes());
    assert_eq!(bytes, expected);
}

#[test]
fn secrets_round_trip() {
    let s = Secrets {
        session_id: vec![9, 8, 7],
        sent: b"GET / HTTP/1.0\r\n\r\n".to_vec(),
        recv: b"HTTP/1.0 200 OK\r\n\r\n".to_vec(),
        body: vec![42; 100],
    };
    let bytes = encode_secrets(&s);
    assert_eq!(bytes[0], SECRETS_TAG);
    let back = decode_secrets(&bytes).unwrap();
    assert_eq!(back.session_id, s.session_id);
    assert_eq!(back.sent, s.sent);
    assert_eq!(back.recv, s.recv);
    assert_eq!(back.body, s.body);
}

#[test]
fn decode_rejects_corrupt() {
    let a = Attestation { session_id: vec![1, 2], max_sent: 5, max_recv: 6, body: vec![7] };
    let mut bytes = encode_attestation(&a);
    // wrong tag
    let mut wrong_tag = bytes.clone();
    wrong_tag[0] = SECRETS_TAG;
    assert!(decode_attestation(&wrong_tag).is_none());
    // truncated
    assert!(decode_attestation(&bytes[..bytes.len() - 1]).is_none());
    // trailing garbage
    bytes.push(0);
    assert!(decode_attestation(&bytes).is_none());
    // empty
    assert!(decode_attestation(&[]).is_none());
    assert!(decode_secrets(&[]).is_none());
}

#[test]
fn decode_rejects_crossed_artifacts() {
    let s = Secrets { session_id: vec![1], sent: vec![2], recv: vec![3], body: vec![4] };
    let bytes = encode_secrets(&s);
    assert!(decode_attestation(&bytes).is_none());
}

#[test]
fn default_committer_commits_whole_exchange() {
    let sent = b"request bytes".to_vec();
    let recv = b"response bytes!".to_vec();
    let spans = DefaultCommitter.plan(&sent, &recv);
    assert_eq!(
        spans,
        vec![
            CommitSpan { direction: Direction::Sent, start: 0, end: sent.len() },
            CommitSpan { direction: Direction::Received, start: 0, end: recv.len() },
        ]
    );
}

#[test]
fn committer_deterministic() {
    let sent = b"abc".to_vec();
    let recv = b"defg".to_vec();
    let first = DefaultCommitter.plan(&sent, &recv);
    let second = DefaultCommitter.plan(&sent.clone(), &recv.clone());
    assert_eq!(first, second);
}

#[test]
fn config_validation() {
    let ok = CommitmentConfig {
        spans: vec![
            CommitSpan { direction: Direction::Sent, start: 0, end: 3 },
            CommitSpan { direction: Direction::Received, start: 1, end: 4 },
        ],
    };
    assert!(validate_config(&ok, 3, 4));
    let past_end = CommitmentConfig {
        spans: vec![CommitSpan { direction: Direction::Received, start: 0, end: 5 }],
    };
    assert!(!validate_config(&past_end, 3, 4));
    let inverted = CommitmentConfig {
        spans: vec![CommitSpan { direction: Direction::Sent, start: 2, end: 1 }],
    };
    assert!(!validate_config(&inverted, 3, 4));
    let empty = CommitmentConfig { spans: vec![] };
    assert!(validate_config(&empty, 0, 0));
}

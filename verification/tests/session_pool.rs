use notarize_pool::artifact::{decode_attestation, decode_secrets};
use notarize_pool::commit::{CommitSpan, DefaultCommitter, Direction};
use notarize_pool::config::config_from_env;
use notarize_pool::httpmsg::{parse_response, response_body};
use notarize_pool::pool::{
    simulate_worker, IterationOutcome, PoolPolicy, WorkerState,
};
use notarize_pool::session::{Action, Event, IterationError, Orchestrator, Stage};

const RESPONSE: &[u8] =
    b"HTTP/1.1 200 OK\r\nContent-Type: application/json\r\nConnection: close\r\n\r\n{\"status\":\"ok\"}";
const REQUEST: &[u8] = b"GET /formats/json HTTP/1.0\r\nHost: test-server.io\r\n\r\n";

/// Runs one whole successful iteration with bounds (1024, 4096) and a
/// JSON body of {"status":"ok"}, checking every issued action.
#[test]
fn successful_iteration_end_to_end() {
    let cfg = config_from_env(None, None).unwrap();
    assert_eq!(cfg.request_bounds.max_sent, 1024);
    assert_eq!(cfg.request_bounds.max_recv, 4096);
    let orch = Orchestrator::new(cfg, DefaultCommitter).unwrap();

    let first = orch.begin();
    assert!(matches!(first, Action::RequestNotarization { max_sent: 1024, max_recv: 4096 }));

    let session_id = vec![0xDE, 0xAD, 0xBE, 0xEF];
    let (orch, a) = orch.step(Event::NotaryAccepted { session_id: session_id.clone() });
    assert!(matches!(a, Action::SetUpProver { max_sent: 1024, max_recv: 4096 }));

    let (orch, a) = orch.step(Event::SetupOk);
    assert!(matches!(a, Action::ConnectServer));

    let (orch, a) = orch.step(Event::ConnectOk);
    assert!(matches!(a, Action::SendRequest));

    let (orch, a) = orch.step(Event::ResponseReceived { status: 200 });
    assert!(matches!(a, Action::AwaitDriver));

    let (orch, a) = orch.step(Event::DriverDone {
        sent: REQUEST.to_vec(),
        recv: RESPONSE.to_vec(),
    });
    match a {
        Action::Commit { config } => {
            assert_eq!(
                config.spans,
                vec![
                    CommitSpan { direction: Direction::Sent, start: 0, end: REQUEST.len() },
                    CommitSpan { direction: Direction::Received, start: 0, end: RESPONSE.len() },
                ]
            );
        }
        other => panic!("expected a commit action, got {other:?}"),
    }

    let (orch, a) = orch.step(Event::CommitOk);
    assert!(matches!(a, Action::Finalize));

    let (orch, a) = orch.step(Event::FinalizeOk {
        attestation_body: vec![1, 2, 3],
        secrets_body: vec![4, 5, 6],
    });
    let (attestation_file, secrets_file) = match a {
        Action::Persist { attestation, secrets } => (attestation, secrets),
        other => panic!("expected a persist action, got {other:?}"),
    };

    // The two files decode to artifacts of the same session, and the
    // attestation references the negotiated bounds.
    let attestation = decode_attestation(&attestation_file).unwrap();
    let secrets = decode_secrets(&secrets_file).unwrap();
    assert_eq!(attestation.session_id, session_id);
    assert_eq!(secrets.session_id, session_id);
    assert_eq!(attestation.max_sent, 1024);
    assert_eq!(attestation.max_recv, 4096);
    assert_eq!(attestation.body, vec![1, 2, 3]);
    assert_eq!(secrets.sent, REQUEST.to_vec());
    assert_eq!(secrets.recv, RESPONSE.to_vec());
    assert_eq!(secrets.body, vec![4, 5, 6]);

    // The transcript's response body parses as exactly {"status":"ok"}.
    let sum = parse_response(&secrets.recv).unwrap();
    assert!(sum.body_is_json);
    let body = response_body(&secrets.recv, sum.body_start);
    let parsed: serde_json::Value = serde_json::from_slice(&body).unwrap();
    let expected: serde_json::Value = serde_json::from_str("{\"status\":\"ok\"}").unwrap();
    assert_eq!(parsed, expected);

    let (orch, a) = orch.step(Event::PersistOk);
    assert!(matches!(a, Action::Done));
    assert!(matches!(orch.stage, Stage::Finalized { persisted: true }));
}

#[test]
fn bounds_mismatch_rejected_before_any_action() {
    let mut cfg = config_from_env(None, None).unwrap();
    cfg.protocol_bounds.max_recv = 8192;
    assert!(Orchestrator::new(cfg, DefaultCommitter).is_err());
}

#[test]
fn unexpected_status_fails_iteration() {
    let cfg = config_from_env(None, None).unwrap();
    let orch = Orchestrator::new(cfg, DefaultCommitter).unwrap();
    let (orch, _) = orch.step(Event::NotaryAccepted { session_id: vec![1] });
    let (orch, _) = orch.step(Event::SetupOk);
    let (orch, _) = orch.step(Event::ConnectOk);
    let (orch, a) = orch.step(Event::ResponseReceived { status: 500 });
    assert!(matches!(
        a,
        Action::Report { error: IterationError::UnexpectedStatus { status: 500 } }
    ));
    assert!(matches!(
        orch.stage,
        Stage::Failed { error: IterationError::UnexpectedStatus { status: 500 } }
    ));
    // Nothing later revives the iteration or reaches commitment.
    let (orch, a) = orch.step(Event::DriverDone {
        sent: REQUEST.to_vec(),
        recv: RESPONSE.to_vec(),
    });
    assert!(matches!(a, Action::Ignore));
    let (orch, a) = orch.step(Event::FinalizeOk {
        attestation_body: vec![],
        secrets_body: vec![],
    });
    assert!(matches!(a, Action::Ignore));
    assert!(matches!(
        orch.stage,
        Stage::Failed { error: IterationError::UnexpectedStatus { status: 500 } }
    ));
}

fn advance_to_driver_done(recv: Vec<u8>) -> (Orchestrator<DefaultCommitter>, Action) {
    let cfg = config_from_env(None, None).unwrap();
    let orch = Orchestrator::new(cfg, DefaultCommitter).unwrap();
    let (orch, _) = orch.step(Event::NotaryAccepted { session_id: vec![1] });
    let (orch, _) = orch.step(Event::SetupOk);
    let (orch, _) = orch.step(Event::ConnectOk);
    let (orch, _) = orch.step(Event::ResponseReceived { status: 200 });
    orch.step(Event::DriverDone { sent: REQUEST.to_vec(), recv })
}

#[test]
fn declared_json_body_must_parse() {
    let bad = b"HTTP/1.1 200 OK\r\nContent-Type: application/json\r\n\r\n{\"status\":".to_vec();
    let (orch, a) = advance_to_driver_done(bad);
    assert!(matches!(a, Action::Report { error: IterationError::InvalidBody }));
    assert!(matches!(orch.stage, Stage::Failed { error: IterationError::InvalidBody }));
}

#[test]
fn non_json_body_is_not_checked() {
    let plain = b"HTTP/1.1 200 OK\r\nContent-Type: text/plain\r\n\r\n{\"status\":".to_vec();
    let (_, a) = advance_to_driver_done(plain);
    assert!(matches!(a, Action::Commit { .. }));
}

#[test]
fn malformed_transcript_fails_iteration() {
    let (orch, a) = advance_to_driver_done(b"garbage".to_vec());
    assert!(matches!(a, Action::Report { error: IterationError::MalformedTranscript }));
    assert!(matches!(
        orch.stage,
        Stage::Failed { error: IterationError::MalformedTranscript }
    ));
}

#[test]
fn background_task_failure_fails_iteration() {
    let cfg = config_from_env(None, None).unwrap();
    let orch = Orchestrator::new(cfg, DefaultCommitter).unwrap();
    let (orch, _) = orch.step(Event::NotaryAccepted { session_id: vec![1] });
    let (orch, _) = orch.step(Event::SetupOk);
    let (orch, _) = orch.step(Event::ConnectOk);
    let (orch, a) = orch.step(Event::DriverFailed);
    assert!(matches!(a, Action::Report { error: IterationError::BackgroundTask }));
    assert!(matches!(orch.stage, Stage::Failed { error: IterationError::BackgroundTask }));
}

#[test]
fn notary_errors_fail_iteration() {
    let cfg = config_from_env(None, None).unwrap();
    let orch = Orchestrator::new(cfg, DefaultCommitter).unwrap();
    let (_, a) = orch.step(Event::NotaryUnreachable);
    assert!(matches!(a, Action::Report { error: IterationError::Connection }));

    let cfg = config_from_env(None, None).unwrap();
    let orch = Orchestrator::new(cfg, DefaultCommitter).unwrap();
    let (_, a) = orch.step(Event::NotaryRejected);
    assert!(matches!(a, Action::Report { error: IterationError::Rejection }));
}

#[test]
fn setup_and_connect_failures_fail_iteration() {
    let cfg = config_from_env(None, None).unwrap();
    let orch = Orchestrator::new(cfg, DefaultCommitter).unwrap();
    let (orch, _) = orch.step(Event::NotaryAccepted { session_id: vec![1] });
    let (orch, a) = orch.step(Event::SetupFailed);
    assert!(matches!(a, Action::Report { error: IterationError::Setup }));
    assert!(matches!(orch.stage, Stage::Failed { error: IterationError::Setup }));

    let cfg = config_from_env(None, None).unwrap();
    let orch = Orchestrator::new(cfg, DefaultCommitter).unwrap();
    let (orch, _) = orch.step(Event::NotaryAccepted { session_id: vec![1] });
    let (orch, _) = orch.step(Event::SetupOk);
    let (_, a) = orch.step(Event::ConnectFailed);
    assert!(matches!(a, Action::Report { error: IterationError::Connect }));
}

#[test]
fn exchange_failure_fails_iteration() {
    let cfg = config_from_env(None, None).unwrap();
    let orch = Orchestrator::new(cfg, DefaultCommitter).unwrap();
    let (orch, _) = orch.step(Event::NotaryAccepted { session_id: vec![1] });
    let (orch, _) = orch.step(Event::SetupOk);
    let (orch, _) = orch.step(Event::ConnectOk);
    let (_, a) = orch.step(Event::ExchangeFailed);
    assert!(matches!(a, Action::Report { error: IterationError::BackgroundTask }));
}

#[test]
fn commit_and_finalize_failures_fail_iteration() {
    let (orch, _) = advance_to_driver_done(RESPONSE.to_vec());
    let (orch, a) = orch.step(Event::CommitFailed);
    assert!(matches!(a, Action::Report { error: IterationError::Commit }));
    assert!(matches!(orch.stage, Stage::Failed { error: IterationError::Commit }));

    let (orch, _) = advance_to_driver_done(RESPONSE.to_vec());
    let (orch, _) = orch.step(Event::CommitOk);
    let (orch, a) = orch.step(Event::FinalizeFailed);
    assert!(matches!(a, Action::Report { error: IterationError::Finalize }));
    assert!(matches!(orch.stage, Stage::Failed { error: IterationError::Finalize }));
}

#[test]
fn persist_failure_reported_after_finalize() {
    let (orch, _) = advance_to_driver_done(RESPONSE.to_vec());
    let (orch, _) = orch.step(Event::CommitOk);
    let (orch, a) = orch.step(Event::FinalizeOk {
        attestation_body: vec![],
        secrets_body: vec![],
    });
    assert!(matches!(a, Action::Persist { .. }));
    let (orch, a) = orch.step(Event::PersistFailed);
    assert!(matches!(a, Action::Report { error: IterationError::Persist }));
    assert!(matches!(orch.stage, Stage::Failed { error: IterationError::Persist }));
}

#[test]
fn worker_attempts_all_iterations_despite_failures() {
    let policy = PoolPolicy { continue_on_error: true };
    let outcomes = vec![
        IterationOutcome::Completed,
        IterationOutcome::Failed { error: IterationError::Connection },
        IterationOutcome::Failed { error: IterationError::UnexpectedStatus { status: 500 } },
        IterationOutcome::Completed,
        IterationOutcome::Failed { error: IterationError::Persist },
    ];
    assert_eq!(simulate_worker(5, policy, &outcomes), 5);
}

#[test]
fn fail_fast_policy_stops_worker() {
    let policy = PoolPolicy { continue_on_error: false };
    let outcomes = vec![
        IterationOutcome::Completed,
        IterationOutcome::Failed { error: IterationError::Setup },
        IterationOutcome::Completed,
    ];
    assert_eq!(simulate_worker(3, policy, &outcomes), 2);
}

#[test]
fn pool_attempts_workers_times_iterations() {
    let policy = PoolPolicy { continue_on_error: true };
    let mut attempted: u64 = 0;
    for worker in 0..16u64 {
        // every third iteration of every other worker fails
        let outcomes: Vec<IterationOutcome> = (0..500u64)
            .map(|i| {
                if worker % 2 == 0 && i % 3 == 0 {
                    IterationOutcome::Failed { error: IterationError::Connection }
                } else {
                    IterationOutcome::Completed
                }
            })
            .collect();
        attempted += simulate_worker(500, policy, &outcomes);
    }
    assert_eq!(attempted, 16 * 500);
}

#[test]
fn worker_state_counts_every_attempt() {
    let policy = PoolPolicy { continue_on_error: true };
    let mut w = WorkerState::new(3);
    assert!(w.has_next());
    w.record(IterationOutcome::Failed { error: IterationError::Finalize }, policy);
    assert!(w.has_next());
    w.record(IterationOutcome::Completed, policy);
    assert!(w.has_next());
    w.record(IterationOutcome::Failed { error: IterationError::Commit }, policy);
    assert!(!w.has_next());
    assert_eq!(w.completed, 3);
    assert!(!w.stopped);

    let fail_fast = PoolPolicy { continue_on_error: false };
    let mut w = WorkerState::new(3);
    w.record(IterationOutcome::Failed { error: IterationError::Connect }, fail_fast);
    assert!(w.stopped);
    assert!(!w.has_next());
}

//! The per-iteration session state machine.
//!
//! One iteration takes a session from "not yet connected" to "attested
//! and persisted".  The outside world — notary negotiation, the MPC-TLS
//! engine, the HTTP layer, the file system — performs the issued
//! [`Action`]s and reports what happened as [`Event`]s; the machine
//! decides every transition.  A stage-tagged state carries only the
//! data valid for that stage, so that committing before connecting and
//! the like are unrepresentable, and any failure is terminal for the
//! iteration that owns the machine.

use vstd::prelude::*;
use crate::artifact::{
    spec_decode_attestation, spec_decode_secrets, spec_encode_attestation, spec_encode_secrets,
    encode_attestation, encode_secrets, lemma_attestation_round_trip, lemma_secrets_round_trip,
    Attestation, Secrets,
};
use crate::commit::{config_valid, validate_config, CommitSpan, CommitStrategy, CommitmentConfig};
use crate::config::{check_bounds, Bounds, ConfigError, SessionConfig};
use crate::httpmsg::{
    is_success_status, lemma_parse_response_bounds, parse_response, response_body,
    spec_is_success, spec_parse_response,
};

verus! {

/// Why an iteration failed.  Every failure is terminal for its
/// iteration and never for the worker that ran it.
#[derive(Clone, Copy, PartialEq, Eq, Structural, Debug)]
pub enum IterationError {
    /// The notary was unreachable.
    Connection,
    /// The notary declined the declared bounds.
    Rejection,
    /// The protocol handshake with the notary failed.
    Setup,
    /// Binding the server connection into the protocol failed.
    Connect,
    /// The protocol driver or the HTTP connection task failed.
    BackgroundTask,
    /// The response status was not a success.
    UnexpectedStatus { status: u16 },
    /// The received bytes are not a well-formed response.
    MalformedTranscript,
    /// The response declared a JSON body that does not parse.
    InvalidBody,
    /// A commitment referenced a transcript region that does not exist,
    /// or the engine's commit step failed.
    Commit,
    /// The notary did not issue the attestation.
    Finalize,
    /// Writing an artifact file failed.
    Persist,
}

/// What the outside world reports back to the state machine.
#[derive(Debug)]
pub enum Event {
    NotaryAccepted { session_id: Vec<u8> },
    NotaryUnreachable,
    NotaryRejected,
    SetupOk,
    SetupFailed,
    ConnectOk,
    ConnectFailed,
    ResponseReceived { status: u16 },
    ExchangeFailed,
    DriverDone { sent: Vec<u8>, recv: Vec<u8> },
    DriverFailed,
    CommitOk,
    CommitFailed,
    FinalizeOk { attestation_body: Vec<u8>, secrets_body: Vec<u8> },
    FinalizeFailed,
    PersistOk,
    PersistFailed,
}

/// Mathematical view of an [`Event`].
pub enum EventV {
    NotaryAccepted { session_id: Seq<u8> },
    NotaryUnreachable,
    NotaryRejected,
    SetupOk,
    SetupFailed,
    ConnectOk,
    ConnectFailed,
    ResponseReceived { status: u16 },
    ExchangeFailed,
    DriverDone { sent: Seq<u8>, recv: Seq<u8> },
    DriverFailed,
    CommitOk,
    CommitFailed,
    FinalizeOk { attestation_body: Seq<u8>, secrets_body: Seq<u8> },
    FinalizeFailed,
    PersistOk,
    PersistFailed,
}

impl View for Event {
    type V = EventV;

    open spec fn view(&self) -> EventV {
        match self {
            Event::NotaryAccepted { session_id } => EventV::NotaryAccepted {
                session_id: session_id@,
            },
            Event::NotaryUnreachable => EventV::NotaryUnreachable,
            Event::NotaryRejected => EventV::NotaryRejected,
            Event::SetupOk => EventV::SetupOk,
            Event::SetupFailed => EventV::SetupFailed,
            Event::ConnectOk => EventV::ConnectOk,
            Event::ConnectFailed => EventV::ConnectFailed,
            Event::ResponseReceived { status } => EventV::ResponseReceived { status: *status },
            Event::ExchangeFailed => EventV::ExchangeFailed,
            Event::DriverDone { sent, recv } => EventV::DriverDone { sent: sent@, recv: recv@ },
            Event::DriverFailed => EventV::DriverFailed,
            Event::CommitOk => EventV::CommitOk,
            Event::CommitFailed => EventV::CommitFailed,
            Event::FinalizeOk { attestation_body, secrets_body } => EventV::FinalizeOk {
                attestation_body: attestation_body@,
                secrets_body: secrets_body@,
            },
            Event::FinalizeFailed => EventV::FinalizeFailed,
            Event::PersistOk => EventV::PersistOk,
            Event::PersistFailed => EventV::PersistFailed,
        }
    }
}

/// The stage of one iteration, carrying only the data valid there.
#[allow(inconsistent_fields)]
pub enum Stage {
    /// Before the protocol handshake; the session identifier appears
    /// once the notary has accepted.
    Created { session_id: Option<Vec<u8>> },
    /// The prover side of the protocol is set up.
    SetUp { session_id: Vec<u8> },
    /// The server connection is bound; the driver runs in the
    /// background while the exchange proceeds.
    Connected { session_id: Vec<u8>, response_status: Option<u16> },
    /// The transcript is complete and checked; its commitment has been
    /// handed out.
    Notarizing { session_id: Vec<u8>, sent: Vec<u8>, recv: Vec<u8> },
    /// The commitment is recorded against the transcript.
    Committed { session_id: Vec<u8>, sent: Vec<u8>, recv: Vec<u8> },
    /// The artifacts exist; `persisted` says whether both files were
    /// written.
    Finalized { persisted: bool },
    /// Terminal: the iteration is abandoned, nothing more is persisted.
    Failed { error: IterationError },
}

/// Mathematical view of a [`Stage`].
#[allow(inconsistent_fields)]
pub enum StageV {
    Created { session_id: Option<Seq<u8>> },
    SetUp { session_id: Seq<u8> },
    Connected { session_id: Seq<u8>, response_status: Option<u16> },
    Notarizing { session_id: Seq<u8>, sent: Seq<u8>, recv: Seq<u8> },
    Committed { session_id: Seq<u8>, sent: Seq<u8>, recv: Seq<u8> },
    Finalized { persisted: bool },
    Failed { error: IterationError },
}

impl View for Stage {
    type V = StageV;

    open spec fn view(&self) -> StageV {
        match self {
            Stage::Created { session_id } => StageV::Created {
                session_id: match session_id {
                    Some(v) => Some(v@),
                    None => None,
                },
            },
            Stage::SetUp { session_id } => StageV::SetUp { session_id: session_id@ },
            Stage::Connected { session_id, response_status } => StageV::Connected {
                session_id: session_id@,
                response_status: *response_status,
            },
            Stage::Notarizing { session_id, sent, recv } => StageV::Notarizing {
                session_id: session_id@,
                sent: sent@,
                recv: recv@,
            },
            Stage::Committed { session_id, sent, recv } => StageV::Committed {
                session_id: session_id@,
                sent: sent@,
                recv: recv@,
            },
            Stage::Finalized { persisted } => StageV::Finalized { persisted: *persisted },
            Stage::Failed { error } => StageV::Failed { error: *error },
        }
    }
}

/// What the state machine asks the outside world to do next.
#[derive(Debug)]
pub enum Action {
    /// Open a connection to the notary and request a slot declaring
    /// exactly these bounds.
    RequestNotarization { max_sent: usize, max_recv: usize },
    /// Perform the protocol handshake configured with exactly these
    /// bounds.
    SetUpProver { max_sent: usize, max_recv: usize },
    /// Open the transport connection to the server and bind it.
    ConnectServer,
    /// Send the fixed-shape request and await the response.
    SendRequest,
    /// Join the background driver to completion.
    AwaitDriver,
    /// Record this commitment configuration against the transcript.
    Commit { config: CommitmentConfig },
    /// Request the attestation from the notary.
    Finalize,
    /// Write the encoded attestation and secrets to their two files.
    Persist { attestation: Vec<u8>, secrets: Vec<u8> },
    /// Report the terminal error of this iteration.
    Report { error: IterationError },
    /// The iteration is complete.
    Done,
    /// Nothing to do; the event does not concern the current stage.
    Ignore,
}

/// Mathematical view of an [`Action`].
pub enum ActionV {
    RequestNotarization { max_sent: usize, max_recv: usize },
    SetUpProver { max_sent: usize, max_recv: usize },
    ConnectServer,
    SendRequest,
    AwaitDriver,
    Commit { spans: Seq<CommitSpan> },
    Finalize,
    Persist { attestation: Seq<u8>, secrets: Seq<u8> },
    Report { error: IterationError },
    Done,
    Ignore,
}

impl View for Action {
    type V = ActionV;

    open spec fn view(&self) -> ActionV {
        match self {
            Action::RequestNotarization { max_sent, max_recv } => ActionV::RequestNotarization {
                max_sent: *max_sent,
                max_recv: *max_recv,
            },
            Action::SetUpProver { max_sent, max_recv } => ActionV::SetUpProver {
                max_sent: *max_sent,
                max_recv: *max_recv,
            },
            Action::ConnectServer => ActionV::ConnectServer,
            Action::SendRequest => ActionV::SendRequest,
            Action::AwaitDriver => ActionV::AwaitDriver,
            Action::Commit { config } => ActionV::Commit { spans: config.spans@ },
            Action::Finalize => ActionV::Finalize,
            Action::Persist { attestation, secrets } => ActionV::Persist {
                attestation: attestation@,
                secrets: secrets@,
            },
            Action::Report { error } => ActionV::Report { error: *error },
            Action::Done => ActionV::Done,
            Action::Ignore => ActionV::Ignore,
        }
    }
}

/// Whether a byte string parses as one JSON document, as the JSON
/// parser decides it; the same bytes always parse the same way.
pub uninterp spec fn json_parses(s: Seq<u8>) -> bool;

/// Relies on `serde_json::from_slice::<serde_json::Value>`: whether the
/// bytes parse as one JSON document is a function of the bytes alone.
#[verifier::external_body]
fn json_is_valid(b: &[u8]) -> (r: bool)
    ensures
        r == json_parses(b@),
{
    serde_json::from_slice::<serde_json::Value>(b).is_ok()
}

/// A terminal transition: the iteration fails with `e` and the failure
/// is reported.
pub open spec fn spec_fail(e: IterationError) -> (StageV, ActionV) {
    (StageV::Failed { error: e }, ActionV::Report { error: e })
}

/// The checks run once the driver has completed and handed over the
/// transcript: the received bytes must parse, a declared JSON body must
/// be valid JSON, and the strategy's regions must exist.
pub open spec fn spec_accept_transcript<S: CommitStrategy>(
    strategy: S,
    session_id: Seq<u8>,
    sent: Seq<u8>,
    recv: Seq<u8>,
) -> (StageV, ActionV) {
    match spec_parse_response(recv) {
        None => spec_fail(IterationError::MalformedTranscript),
        Some(sum) => {
            if sum.body_is_json && !json_parses(
                recv.subrange(sum.body_start as int, recv.len() as int),
            ) {
                spec_fail(IterationError::InvalidBody)
            } else {
                let spans = strategy.spec_plan(sent, recv);
                if config_valid(spans, sent.len(), recv.len()) {
                    (
                        StageV::Notarizing { session_id, sent, recv },
                        ActionV::Commit { spans },
                    )
                } else {
                    spec_fail(IterationError::Commit)
                }
            }
        },
    }
}

/// The transition function of one iteration: what the next stage is and
/// what the outside world is asked to do, for every stage and event.
/// Events that do not concern the current stage change nothing, and a
/// failed iteration stays failed.
pub open spec fn spec_step<S: CommitStrategy>(
    req: Bounds,
    proto: Bounds,
    strategy: S,
    stage: StageV,
    ev: EventV,
) -> (StageV, ActionV) {
    match (stage, ev) {
        (StageV::Created { session_id: None }, EventV::NotaryAccepted { session_id }) => (
            StageV::Created { session_id: Some(session_id) },
            ActionV::SetUpProver { max_sent: proto.max_sent, max_recv: proto.max_recv },
        ),
        (StageV::Created { session_id: None }, EventV::NotaryUnreachable) => spec_fail(
            IterationError::Connection,
        ),
        (StageV::Created { session_id: None }, EventV::NotaryRejected) => spec_fail(
            IterationError::Rejection,
        ),
        (StageV::Created { session_id: Some(sid) }, EventV::SetupOk) => (
            StageV::SetUp { session_id: sid },
            ActionV::ConnectServer,
        ),
        (StageV::Created { session_id: Some(_) }, EventV::SetupFailed) => spec_fail(
            IterationError::Setup,
        ),
        (StageV::SetUp { session_id }, EventV::ConnectOk) => (
            StageV::Connected { session_id, response_status: None },
            ActionV::SendRequest,
        ),
        (StageV::SetUp { session_id: _ }, EventV::ConnectFailed) => spec_fail(
            IterationError::Connect,
        ),
        (
            StageV::Connected { session_id, response_status: None },
            EventV::ResponseReceived { status },
        ) => {
            if spec_is_success(status) {
                (
                    StageV::Connected { session_id, response_status: Some(status) },
                    ActionV::AwaitDriver,
                )
            } else {
                spec_fail(IterationError::UnexpectedStatus { status })
            }
        },
        (StageV::Connected { session_id: _, response_status: _ }, EventV::ExchangeFailed) => {
            spec_fail(IterationError::BackgroundTask)
        },
        (
            StageV::Connected { session_id, response_status: Some(_) },
            EventV::DriverDone { sent, recv },
        ) => spec_accept_transcript(strategy, session_id, sent, recv),
        (StageV::Connected { session_id: _, response_status: _ }, EventV::DriverFailed) => {
            spec_fail(IterationError::BackgroundTask)
        },
        (StageV::Notarizing { session_id, sent, recv }, EventV::CommitOk) => (
            StageV::Committed { session_id, sent, recv },
            ActionV::Finalize,
        ),
        (StageV::Notarizing { session_id: _, sent: _, recv: _ }, EventV::CommitFailed) => {
            spec_fail(IterationError::Commit)
        },
        (
            StageV::Committed { session_id, sent, recv },
            EventV::FinalizeOk { attestation_body, secrets_body },
        ) => (
            StageV::Finalized { persisted: false },
            ActionV::Persist {
                attestation: spec_encode_attestation(
                    session_id,
                    req.max_sent as u64,
                    req.max_recv as u64,
                    attestation_body,
                ),
                secrets: spec_encode_secrets(session_id, sent, recv, secrets_body),
            },
        ),
        (StageV::Committed { session_id: _, sent: _, recv: _ }, EventV::FinalizeFailed) => {
            spec_fail(IterationError::Finalize)
        },
        (StageV::Finalized { persisted: false }, EventV::PersistOk) => (
            StageV::Finalized { persisted: true },
            ActionV::Done,
        ),
        (StageV::Finalized { persisted: false }, EventV::PersistFailed) => spec_fail(
            IterationError::Persist,
        ),
        (s, _) => (s, ActionV::Ignore),
    }
}

/// Copies a byte vector.
fn clone_bytes(v: &Vec<u8>) -> (r: Vec<u8>)
    ensures
        r@ == v@,
{
    let mut out: Vec<u8> = Vec::new();
    let mut i: usize = 0;
    while i < v.len()
        invariant
            i <= v@.len(),
            out@ == v@.take(i as int),
        decreases v@.len() - i,
    {
        out.push(v[i]);
        i = i + 1;
        assert(out@ =~= v@.take(i as int));
    }
    assert(v@.take(v@.len() as int) =~= v@);
    out
}

/// One iteration's state machine, owning its stage, its configuration
/// and its commitment strategy.
pub struct Orchestrator<S: CommitStrategy> {
    pub cfg: SessionConfig,
    pub strategy: S,
    pub stage: Stage,
}

impl<S: CommitStrategy> Orchestrator<S> {
    /// Builds the machine for one iteration.  The bound invariant is
    /// checked here, before any action is issued: a configuration whose
    /// notary-request bounds differ from its protocol bounds is
    /// rejected, so no socket is ever opened for it.
    pub fn new(cfg: SessionConfig, strategy: S) -> (r: Result<Orchestrator<S>, ConfigError>)
        ensures
            r is Ok <==> cfg.bounds_consistent(),
            r matches Ok(o) ==> o.cfg == cfg && o.strategy == strategy && o.stage@
                == (StageV::Created { session_id: None }),
            r is Err ==> r->Err_0 == ConfigError::BoundsMismatch,
    {
        match check_bounds(&cfg) {
            Ok(_) => Ok(
                Orchestrator { cfg, strategy, stage: Stage::Created { session_id: None } },
            ),
            Err(e) => Err(e),
        }
    }

    /// The first action of an iteration: request a notarization slot
    /// declaring exactly the configured request bounds.
    pub fn begin(&self) -> (a: Action)
        requires
            self.stage@ == (StageV::Created { session_id: None }),
        ensures
            a@ == (ActionV::RequestNotarization {
                max_sent: self.cfg.request_bounds.max_sent,
                max_recv: self.cfg.request_bounds.max_recv,
            }),
    {
        Action::RequestNotarization {
            max_sent: self.cfg.request_bounds.max_sent,
            max_recv: self.cfg.request_bounds.max_recv,
        }
    }

    /// Advances the machine by one event, returning the machine and the
    /// next action, exactly as [`spec_step`] says.
    pub fn step(self, event: Event) -> (r: (Orchestrator<S>, Action))
        ensures
            r.0.cfg == self.cfg,
            r.0.strategy == self.strategy,
            (r.0.stage@, r.1@) == spec_step(
                self.cfg.request_bounds,
                self.cfg.protocol_bounds,
                self.strategy,
                self.stage@,
                event@,
            ),
    {
        let Orchestrator { cfg, strategy, stage } = self;
        let (stage, action) = match (stage, event) {
            (Stage::Created { session_id: None }, Event::NotaryAccepted { session_id }) => (
                Stage::Created { session_id: Some(session_id) },
                Action::SetUpProver {
                    max_sent: cfg.protocol_bounds.max_sent,
                    max_recv: cfg.protocol_bounds.max_recv,
                },
            ),
            (Stage::Created { session_id: None }, Event::NotaryUnreachable) => fail_pair(
                IterationError::Connection,
            ),
            (Stage::Created { session_id: None }, Event::NotaryRejected) => fail_pair(
                IterationError::Rejection,
            ),
            (Stage::Created { session_id: Some(sid) }, Event::SetupOk) => (
                Stage::SetUp { session_id: sid },
                Action::ConnectServer,
            ),
            (Stage::Created { session_id: Some(_) }, Event::SetupFailed) => fail_pair(
                IterationError::Setup,
            ),
            (Stage::SetUp { session_id }, Event::ConnectOk) => (
                Stage::Connected { session_id, response_status: None },
                Action::SendRequest,
            ),
            (Stage::SetUp { session_id: _ }, Event::ConnectFailed) => fail_pair(
                IterationError::Connect,
            ),
            (
                Stage::Connected { session_id, response_status: None },
                Event::ResponseReceived { status },
            ) => {
                if is_success_status(status) {
                    (
                        Stage::Connected { session_id, response_status: Some(status) },
                        Action::AwaitDriver,
                    )
                } else {
                    fail_pair(IterationError::UnexpectedStatus { status })
                }
            },
            (Stage::Connected { session_id: _, response_status: _ }, Event::ExchangeFailed) => {
                fail_pair(IterationError::BackgroundTask)
            },
            (
                Stage::Connected { session_id, response_status: Some(_) },
                Event::DriverDone { sent, recv },
            ) => accept_transcript(&strategy, session_id, sent, recv),
            (Stage::Connected { session_id: _, response_status: _ }, Event::DriverFailed) => {
                fail_pair(IterationError::BackgroundTask)
            },
            (Stage::Notarizing { session_id, sent, recv }, Event::CommitOk) => (
                Stage::Committed { session_id, sent, recv },
                Action::Finalize,
            ),
            (Stage::Notarizing { session_id: _, sent: _, recv: _ }, Event::CommitFailed) => {
                fail_pair(IterationError::Commit)
            },
            (
                Stage::Committed { session_id, sent, recv },
                Event::FinalizeOk { attestation_body, secrets_body },
            ) => {
                let attestation = Attestation {
                    session_id: clone_bytes(&session_id),
                    max_sent: cfg.request_bounds.max_sent as u64,
                    max_recv: cfg.request_bounds.max_recv as u64,
                    body: attestation_body,
                };
                let secrets = Secrets {
                    session_id,
                    sent,
                    recv,
                    body: secrets_body,
                };
                (
                    Stage::Finalized { persisted: false },
                    Action::Persist {
                        attestation: encode_attestation(&attestation),
                        secrets: encode_secrets(&secrets),
                    },
                )
            },
            (Stage::Committed { session_id: _, sent: _, recv: _ }, Event::FinalizeFailed) => {
                fail_pair(IterationError::Finalize)
            },
            (Stage::Finalized { persisted: false }, Event::PersistOk) => (
                Stage::Finalized { persisted: true },
                Action::Done,
            ),
            (Stage::Finalized { persisted: false }, Event::PersistFailed) => fail_pair(
                IterationError::Persist,
            ),
            (s, _) => (s, Action::Ignore),
        };
        (Orchestrator { cfg, strategy, stage }, action)
    }
}

/// The stage an iteration is in after a sequence of events.
pub open spec fn run_steps<S: CommitStrategy>(
    req: Bounds,
    proto: Bounds,
    strategy: S,
    stage: StageV,
    events: Seq<EventV>,
) -> StageV
    decreases events.len(),
{
    if events.len() == 0 {
        stage
    } else {
        run_steps(
            req,
            proto,
            strategy,
            spec_step(req, proto, strategy, stage, events[0]).0,
            events.subrange(1, events.len() as int),
        )
    }
}

/// How many persist actions a sequence of events makes the machine
/// issue.  Each persist action carries both artifact files at once.
pub open spec fn count_persist_actions<S: CommitStrategy>(
    req: Bounds,
    proto: Bounds,
    strategy: S,
    stage: StageV,
    events: Seq<EventV>,
) -> nat
    decreases events.len(),
{
    if events.len() == 0 {
        0
    } else {
        (if spec_step(req, proto, strategy, stage, events[0]).1 is Persist {
            1nat
        } else {
            0nat
        }) + count_persist_actions(
            req,
            proto,
            strategy,
            spec_step(req, proto, strategy, stage, events[0]).0,
            events.subrange(1, events.len() as int),
        )
    }
}

/// Law: failure is terminal.  Whatever happens after an iteration has
/// failed, it stays failed with the same error and nothing more is
/// persisted.
pub proof fn lemma_failed_is_terminal<S: CommitStrategy>(
    req: Bounds,
    proto: Bounds,
    strategy: S,
    e: IterationError,
    events: Seq<EventV>,
)
    ensures
        run_steps(req, proto, strategy, StageV::Failed { error: e }, events) == (StageV::Failed {
            error: e,
        }),
        count_persist_actions(req, proto, strategy, StageV::Failed { error: e }, events) == 0,
    decreases events.len(),
{
    if events.len() > 0 {
        lemma_failed_is_terminal(
            req,
            proto,
            strategy,
            e,
            events.subrange(1, events.len() as int),
        );
    }
}

/// Law: a non-success response status fails the iteration with the
/// unexpected-status error and the run never proceeds: after the bad
/// status, every later point of the iteration is that same failure, so
/// no commitment and no persistence ever happen.
pub proof fn lemma_unexpected_status_aborts<S: CommitStrategy>(
    req: Bounds,
    proto: Bounds,
    strategy: S,
    session_id: Seq<u8>,
    status: u16,
    later: Seq<EventV>,
)
    requires
        !spec_is_success(status),
    ensures
        ({
            let before = StageV::Connected { session_id, response_status: None };
            let (next, action) = spec_step(
                req,
                proto,
                strategy,
                before,
                EventV::ResponseReceived { status },
            );
            &&& next == (StageV::Failed { error: IterationError::UnexpectedStatus { status } })
            &&& action == (ActionV::Report {
                error: IterationError::UnexpectedStatus { status },
            })
            &&& forall|k: int|
                0 <= k <= later.len() ==> run_steps(
                    req,
                    proto,
                    strategy,
                    next,
                    #[trigger] later.take(k),
                ) == next
            &&& count_persist_actions(req, proto, strategy, next, later) == 0
        }),
{
    let e = IterationError::UnexpectedStatus { status };
    let next = StageV::Failed { error: e };
    lemma_failed_is_terminal(req, proto, strategy, e, later);
    assert forall|k: int| 0 <= k <= later.len() implies run_steps(
        req,
        proto,
        strategy,
        next,
        #[trigger] later.take(k),
    ) == next by {
        lemma_failed_is_terminal(req, proto, strategy, e, later.take(k));
    }
}

/// Law: every commitment the machine hands out refers only to regions
/// that exist.  Whenever a step issues a commit action, the machine is
/// in the notarizing stage for a transcript, and every span of the
/// issued configuration lies within that transcript — a commitment to
/// a region that does not exist is rejected as a commit failure
/// instead.
pub proof fn lemma_commit_action_valid<S: CommitStrategy>(
    req: Bounds,
    proto: Bounds,
    strategy: S,
    stage: StageV,
    ev: EventV,
)
    ensures
        ({
            let (next, action) = spec_step(req, proto, strategy, stage, ev);
            action matches ActionV::Commit { spans } ==> next matches StageV::Notarizing {
                session_id: _,
                sent,
                recv,
            } && config_valid(spans, sent.len(), recv.len())
        }),
{
}

/// Whether an iteration has reached its persistence step: the
/// artifacts exist, or writing them is what failed.
pub open spec fn reached_persistence(stage: StageV) -> bool {
    stage is Finalized || stage == (StageV::Failed { error: IterationError::Persist })
}

/// One step out of a stage that has not reached persistence issues a
/// persist action exactly when it reaches persistence.
proof fn lemma_step_persist_char<S: CommitStrategy>(
    req: Bounds,
    proto: Bounds,
    strategy: S,
    stage: StageV,
    ev: EventV,
)
    requires
        !reached_persistence(stage),
    ensures
        reached_persistence(spec_step(req, proto, strategy, stage, ev).0) <==> spec_step(
            req,
            proto,
            strategy,
            stage,
            ev,
        ).1 is Persist,
{
}

/// Once persistence is reached, no further persist action is issued
/// and the stage keeps counting as having reached persistence.
proof fn lemma_no_persist_after<S: CommitStrategy>(
    req: Bounds,
    proto: Bounds,
    strategy: S,
    stage: StageV,
    events: Seq<EventV>,
)
    requires
        reached_persistence(stage),
    ensures
        count_persist_actions(req, proto, strategy, stage, events) == 0,
        reached_persistence(run_steps(req, proto, strategy, stage, events)),
    decreases events.len(),
{
    if events.len() > 0 {
        let next = spec_step(req, proto, strategy, stage, events[0]).0;
        lemma_no_persist_after(req, proto, strategy, next, events.subrange(1, events.len() as int));
    }
}

/// Law: one pair of files or none.  From a stage before persistence,
/// a run issues exactly one persist action when it reaches the
/// persistence step and none otherwise.  A failed iteration whose
/// failure came before persistence therefore writes no file at all,
/// and a successful one hands out exactly one pair.
pub proof fn lemma_persist_exactly_once<S: CommitStrategy>(
    req: Bounds,
    proto: Bounds,
    strategy: S,
    stage: StageV,
    events: Seq<EventV>,
)
    requires
        !reached_persistence(stage),
    ensures
        count_persist_actions(req, proto, strategy, stage, events) == (
        if reached_persistence(run_steps(req, proto, strategy, stage, events)) {
            1nat
        } else {
            0nat
        }),
    decreases events.len(),
{
    if events.len() > 0 {
        let next = spec_step(req, proto, strategy, stage, events[0]).0;
        let rest = events.subrange(1, events.len() as int);
        lemma_step_persist_char(req, proto, strategy, stage, events[0]);
        if reached_persistence(next) {
            lemma_no_persist_after(req, proto, strategy, next, rest);
        } else {
            lemma_persist_exactly_once(req, proto, strategy, next, rest);
        }
    }
}

/// Law: an iteration, started from its initial stage, issues exactly
/// one persist action if it reaches persistence and none if it fails
/// before that point.
pub proof fn lemma_iteration_persistence<S: CommitStrategy>(
    req: Bounds,
    proto: Bounds,
    strategy: S,
    events: Seq<EventV>,
)
    ensures
        ({
            let start = StageV::Created { session_id: None };
            count_persist_actions(req, proto, strategy, start, events) == (
            if reached_persistence(run_steps(req, proto, strategy, start, events)) {
                1nat
            } else {
                0nat
            })
        }),
{
    lemma_persist_exactly_once(
        req,
        proto,
        strategy,
        StageV::Created { session_id: None },
        events,
    );
}

/// Law: success is owed on good inputs.  When every outside step
/// succeeds — the notary accepts, the handshake and connection bind,
/// the response status is a success, the driver hands over a
/// transcript that parses (with a valid JSON body where one is
/// declared), the strategy's regions exist, and the engine commits,
/// finalizes and persists — the iteration ends finalized and
/// persisted.
pub proof fn lemma_successful_iteration<S: CommitStrategy>(
    req: Bounds,
    proto: Bounds,
    strategy: S,
    session_id: Seq<u8>,
    sent: Seq<u8>,
    recv: Seq<u8>,
    status: u16,
    attestation_body: Seq<u8>,
    secrets_body: Seq<u8>,
)
    requires
        spec_is_success(status),
        spec_parse_response(recv) is Some,
        ({
            let sum = spec_parse_response(recv)->Some_0;
            sum.body_is_json ==> json_parses(
                recv.subrange(sum.body_start as int, recv.len() as int),
            )
        }),
        config_valid(strategy.spec_plan(sent, recv), sent.len(), recv.len()),
    ensures
        ({
            let events = seq![
                EventV::NotaryAccepted { session_id },
                EventV::SetupOk,
                EventV::ConnectOk,
                EventV::ResponseReceived { status },
                EventV::DriverDone { sent, recv },
                EventV::CommitOk,
                EventV::FinalizeOk { attestation_body, secrets_body },
                EventV::PersistOk,
            ];
            run_steps(req, proto, strategy, StageV::Created { session_id: None }, events)
                == (StageV::Finalized { persisted: true })
        }),
{
    let events = seq![
        EventV::NotaryAccepted { session_id },
        EventV::SetupOk,
        EventV::ConnectOk,
        EventV::ResponseReceived { status },
        EventV::DriverDone { sent, recv },
        EventV::CommitOk,
        EventV::FinalizeOk { attestation_body, secrets_body },
        EventV::PersistOk,
    ];
    let s0 = StageV::Created { session_id: None };
    let s1 = spec_step(req, proto, strategy, s0, events[0]).0;
    let s2 = spec_step(req, proto, strategy, s1, events[1]).0;
    let s3 = spec_step(req, proto, strategy, s2, events[2]).0;
    let s4 = spec_step(req, proto, strategy, s3, events[3]).0;
    let s5 = spec_step(req, proto, strategy, s4, events[4]).0;
    let s6 = spec_step(req, proto, strategy, s5, events[5]).0;
    let s7 = spec_step(req, proto, strategy, s6, events[6]).0;
    let s8 = spec_step(req, proto, strategy, s7, events[7]).0;
    assert(s1 == (StageV::Created { session_id: Some(session_id) }));
    assert(s2 == (StageV::SetUp { session_id }));
    assert(s3 == (StageV::Connected { session_id, response_status: None }));
    assert(s4 == (StageV::Connected { session_id, response_status: Some(status) }));
    assert(s5 == (StageV::Notarizing { session_id, sent, recv }));
    assert(s6 == (StageV::Committed { session_id, sent, recv }));
    assert(s7 == (StageV::Finalized { persisted: false }));
    assert(s8 == (StageV::Finalized { persisted: true }));
    let r1 = events.subrange(1, 8);
    let r2 = events.subrange(2, 8);
    let r3 = events.subrange(3, 8);
    let r4 = events.subrange(4, 8);
    let r5 = events.subrange(5, 8);
    let r6 = events.subrange(6, 8);
    let r7 = events.subrange(7, 8);
    let r8 = events.subrange(8, 8);
    assert(r1.subrange(1, 7) =~= r2);
    assert(r2.subrange(1, 6) =~= r3);
    assert(r3.subrange(1, 5) =~= r4);
    assert(r4.subrange(1, 4) =~= r5);
    assert(r5.subrange(1, 3) =~= r6);
    assert(r6.subrange(1, 2) =~= r7);
    assert(r7.subrange(1, 1) =~= r8);
    assert(run_steps(req, proto, strategy, s0, events) == run_steps(req, proto, strategy, s1, r1));
    assert(run_steps(req, proto, strategy, s1, r1) == run_steps(req, proto, strategy, s2, r2));
    assert(run_steps(req, proto, strategy, s2, r2) == run_steps(req, proto, strategy, s3, r3));
    assert(run_steps(req, proto, strategy, s3, r3) == run_steps(req, proto, strategy, s4, r4));
    assert(run_steps(req, proto, strategy, s4, r4) == run_steps(req, proto, strategy, s5, r5));
    assert(run_steps(req, proto, strategy, s5, r5) == run_steps(req, proto, strategy, s6, r6));
    assert(run_steps(req, proto, strategy, s6, r6) == run_steps(req, proto, strategy, s7, r7));
    assert(run_steps(req, proto, strategy, s7, r7) == run_steps(req, proto, strategy, s8, r8));
    assert(run_steps(req, proto, strategy, s8, r8) == s8);
}

/// Law: matching provenance.  The persist action of one iteration
/// carries both artifacts, and they decode to the same session
/// identifier, with the attestation referencing exactly the bounds the
/// notary request declared and the secrets carrying the transcript the
/// commitment was built from.
pub proof fn lemma_persist_provenance<S: CommitStrategy>(
    req: Bounds,
    proto: Bounds,
    strategy: S,
    session_id: Seq<u8>,
    sent: Seq<u8>,
    recv: Seq<u8>,
    attestation_body: Seq<u8>,
    secrets_body: Seq<u8>,
)
    requires
        session_id.len() <= u64::MAX,
        sent.len() <= u64::MAX,
        recv.len() <= u64::MAX,
        attestation_body.len() <= u64::MAX,
        secrets_body.len() <= u64::MAX,
    ensures
        ({
            let (next, action) = spec_step(
                req,
                proto,
                strategy,
                StageV::Committed { session_id, sent, recv },
                EventV::FinalizeOk { attestation_body, secrets_body },
            );
            &&& next == (StageV::Finalized { persisted: false })
            &&& action matches ActionV::Persist { attestation, secrets }
                && spec_decode_attestation(attestation) == Some(
                (session_id, req.max_sent as u64, req.max_recv as u64, attestation_body),
            ) && spec_decode_secrets(secrets) == Some((session_id, sent, recv, secrets_body))
        }),
{
    lemma_attestation_round_trip(
        session_id,
        req.max_sent as u64,
        req.max_recv as u64,
        attestation_body,
    );
    lemma_secrets_round_trip(session_id, sent, recv, secrets_body);
}

/// Builds the terminal transition for `e`.
fn fail_pair(e: IterationError) -> (r: (Stage, Action))
    ensures
        (r.0@, r.1@) == spec_fail(e),
{
    (Stage::Failed { error: e }, Action::Report { error: e })
}

/// Runs the transcript checks of [`spec_accept_transcript`].
fn accept_transcript<S: CommitStrategy>(
    strategy: &S,
    session_id: Vec<u8>,
    sent: Vec<u8>,
    recv: Vec<u8>,
) -> (r: (Stage, Action))
    ensures
        (r.0@, r.1@) == spec_accept_transcript(*strategy, session_id@, sent@, recv@),
{
    match parse_response(recv.as_slice()) {
        None => fail_pair(IterationError::MalformedTranscript),
        Some(sum) => {
            let recv_len = recv.len();
            proof {
                lemma_parse_response_bounds(recv@);
            }
            let body_bad = if sum.body_is_json {
                let body = response_body(recv.as_slice(), sum.body_start);
                !json_is_valid(body.as_slice())
            } else {
                false
            };
            if body_bad {
                fail_pair(IterationError::InvalidBody)
            } else {
                let spans = strategy.plan(sent.as_slice(), recv.as_slice());
                let config = CommitmentConfig { spans };
                if validate_config(&config, sent.len(), recv.len()) {
                    (
                        Stage::Notarizing { session_id, sent, recv },
                        Action::Commit { config },
                    )
                } else {
                    fail_pair(IterationError::Commit)
                }
            }
        },
    }
}

} // verus!

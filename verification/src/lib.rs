//! Notarization session orchestration.
//!
//! A prover cooperates with a semi-trusted notary to run an MPC-TLS session
//! against an HTTP server and to produce an attestation of the exchange
//! together with the secrets needed to disclose parts of it later.  This
//! crate holds the verified core of that workflow: the session configuration
//! and its bound invariant, the fixed-shape HTTP exchange, the transcript
//! commitment builder, the binary artifact codec, the per-iteration session
//! state machine, and the worker-pool accounting.  The cryptographic engine,
//! the notary service and all I/O live outside and drive the state machine
//! through plain events and actions.

pub mod artifact;
pub mod commit;
pub mod config;
pub mod httpmsg;
pub mod pool;
pub mod session;

//! Signing-and-confirmation protocol for a browser-resident wallet bridge.
//!
//! The library verifies the protocol core: the connection state held for the
//! active signer, the transport framing of transactions handed to an external
//! signer, the submission hand-off, and the bounded confirmation polling loop.
//! I/O (the boundary message channel, the ledger RPC transport, timers and UI)
//! stays outside; the library states what each decision returns for every
//! value an outside call can hand back.

pub mod keys;
pub mod encoding;
pub mod json;
pub mod wire;
pub mod bridge;
pub mod connection;
pub mod poller;
pub mod orchestrator;

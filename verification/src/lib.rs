//! ROAST: robust asynchronous Schnorr threshold signatures.
//!
//! ROAST wraps a threshold signature scheme so that `t` honest signers out of
//! `n` get a valid signature, whatever the other signers do or fail to do, and
//! in whatever order messages arrive.
//!
//! To sign a message, each signer sends the coordinator a nonce. When `t`
//! signers have a nonce waiting, the coordinator opens a session for them and
//! asks them to sign under that nonce set. Each of them answers with its
//! signature share and a nonce for a later session. The coordinator keeps track
//! of the responsive signers and bans those that misbehave, and combines the
//! shares of the first session that gets all of them.
//!
//! - [`coordinator`]: the coordinator and its state machine;
//! - [`signer`]: the signer and its pool of nonces;
//! - [`threshold_scheme`]: what both need of the threshold scheme;
//! - [`frost`]: FROST as that scheme;
//! - [`model`]: the coordinator's states and steps as mathematics;
//! - [`safety`], [`laws`], [`liveness`]: what is proved of them;
//! - [`foreign`]: the values of the scheme that are carried through.

pub mod coordinator;
pub mod foreign;
pub mod frost;
pub mod laws;
pub mod liveness;
pub mod model;
pub mod safety;
pub mod signer;
pub mod threshold_scheme;


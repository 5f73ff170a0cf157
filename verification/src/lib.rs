//! Discovery and security probing of attached Pixel devices, and the
//! key-gated authorization of privileged operations on them.
//!
//! The library computes and decides; it runs no process and prints nothing.
//! A caller runs the device bridge, hands its output in, and acts on what
//! comes back:
//!
//! - `request` reads the arguments of an invocation into a command request;
//! - `bridge` says how to call the device bridge and holds what a call came
//!   to;
//! - `devices` reads the bridge's device listing into the records of the
//!   supported family;
//! - `resolve` names the one device that a command works on;
//! - `probe` says which properties to query and resolves the security
//!   attributes from the outcomes of the queries;
//! - `gate` validates a key and opens the sealed payload with it;
//! - `text` holds the character-level primitives that the parsers share.

pub mod bridge;
pub mod devices;
pub mod gate;
pub mod probe;
pub mod request;
pub mod resolve;
pub mod text;

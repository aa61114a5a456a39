//! Client-side core of a greeter for the greetd login daemon.
//!
//! The heart of the crate is the session-authentication protocol client:
//! the message types of the daemon's IPC protocol, the length-prefixed JSON
//! wire codec, the authentication state machine with its legal-operation
//! table, and the client facade that ties them together.  Around it stand
//! the small data managers a greeter needs: desktop sessions, keyboard
//! layouts, languages and power capabilities.
//!
//! The crate performs no I/O itself: the facade hands the caller the exact
//! bytes to write to the daemon's socket and consumes the bytes read back,
//! so everything up to the socket boundary is verified.

pub mod client;
pub mod codec;
pub mod json;
pub mod language;
pub mod laws;
pub mod layout;
pub mod message;
pub mod power;
pub mod session;
pub mod sink;
pub mod state;
pub mod text;

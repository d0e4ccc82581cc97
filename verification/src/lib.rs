//! A pop-up launcher's core: the request protocol of its singleton server, the
//! ranking of candidates against a typed query, and the selection state machine
//! that turns key presses into one reply per request.
//!
//! The library does no input or output of its own. A program around it owns the
//! sockets and the window: it feeds `acceptor::step` with what happened on the
//! network and the `engine::Engine` with what the user did, and carries out
//! what they answer.

pub mod acceptor;
pub mod engine;
pub mod lines;
pub mod ranking;
pub mod scorer;
pub mod session;

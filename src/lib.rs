//! Capture-and-describe core of a terminal escape-sequence inspector.
//!
//! Bytes written by a child program are cut into the windows that produced
//! each parser action ([`driver`]), each action is described as a display
//! event and appended to a coalesced history ([`history`]), and subscribers get
//! the history in chunks followed by throttled, coalesced live batches
//! ([`fanout`]).

pub mod action;
pub mod asset;
pub mod color;
pub mod driver;
pub mod event;
pub mod fanout;
pub mod history;
pub mod text;

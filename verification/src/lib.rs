//! Core engine of a terminal multiplexer: pane layout trees, a VT state
//! machine over a cell grid, session/window bookkeeping, the wire protocol
//! with its framing codec, and the client-side key interpreter.

use vstd::prelude::*;

pub mod cell;
pub mod chars;
pub mod grid;
pub mod scrollback;
pub mod terminal;
pub mod protocol;
pub mod codec;
pub mod keys;
pub mod input;
pub mod pastebuffer;
pub mod copymode;
pub mod window;
pub mod session;
pub mod options;
pub mod server;
pub mod config;
pub mod statusbar;
pub mod renderer;
pub mod geometry;
pub mod layout;

verus! {

/// Relies on uuid::Uuid::new_v4 to draw a fresh random 128-bit token;
/// nothing is promised of the value.
#[verifier::external_body]
fn fresh_uuid() -> u128 {
    uuid::Uuid::new_v4().as_u128()
}

/// Unique identifier for a session.
#[derive(Debug, Clone, Copy, PartialEq, Eq, Hash, Structural)]
pub struct SessionId(pub u128);

impl SessionId {
    pub fn new() -> Self {
        SessionId(fresh_uuid())
    }
}

/// Unique identifier for a window within a session.
#[derive(Debug, Clone, Copy, PartialEq, Eq, Hash, Structural)]
pub struct WindowId(pub u128);

impl WindowId {
    pub fn new() -> Self {
        WindowId(fresh_uuid())
    }
}

/// Unique identifier for a pane within a window.
#[derive(Debug, Clone, Copy, PartialEq, Eq, Hash, Structural)]
pub struct PaneId(pub u128);

impl PaneId {
    pub fn new() -> Self {
        PaneId(fresh_uuid())
    }
}

/// Unique identifier for a connected client.
#[derive(Debug, Clone, Copy, PartialEq, Eq, Hash, Structural)]
pub struct ClientId(pub u128);

impl ClientId {
    pub fn new() -> Self {
        ClientId(fresh_uuid())
    }
}

/// Error kinds surfaced by the engine.
#[derive(Debug, Clone)]
pub enum WtmuxError {
    Io(String),
    ConPty(String),
    Ipc(String),
    Protocol(String),
    SessionNotFound(String),
    WindowNotFound(String),
    PaneNotFound(String),
    Serialization(String),
    Win32(u32),
    Other(String),
}

} // verus!

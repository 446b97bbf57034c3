//! Messages exchanged between client and server.

use vstd::prelude::*;

use crate::SessionId;
use crate::WindowId;

verus! {

/// Mouse event kinds.
#[derive(Debug, Clone, Copy, PartialEq, Eq, Structural)]
pub enum MouseEventKind {
    Click,
    ScrollUp,
    ScrollDown,
}

/// Direction for pane navigation and resize.
#[derive(Debug, Clone, Copy, PartialEq, Eq, Structural)]
pub enum Direction {
    Up,
    Down,
    Left,
    Right,
}

/// How to target a session: by name or by identifier.
#[derive(Debug, Clone)]
pub enum SessionTarget {
    Name(String),
    Id(SessionId),
}

/// Copy mode actions.
#[derive(Debug, Clone)]
pub enum CopyModeAction {
    Up,
    Down,
    Left,
    Right,
    PageUp,
    PageDown,
    HalfPageUp,
    HalfPageDown,
    Top,
    Bottom,
    StartOfLine,
    EndOfLine,
    StartSelection,
    CopySelection,
    CancelSelection,
    SearchForward(String),
    SearchBackward(String),
    SearchNext,
    SearchPrev,
    Exit,
}

/// Messages sent from client to server.
#[derive(Debug, Clone)]
pub enum ClientMessage {
    NewSession { name: Option<String>, command: Option<String>, cols: u16, rows: u16 },
    Attach { session: SessionTarget, cols: u16, rows: u16 },
    Detach,
    Input(Vec<u8>),
    Resize { cols: u16, rows: u16 },
    SplitPane { horizontal: bool },
    SelectPane(Direction),
    ResizePane { direction: Direction, amount: u16 },
    ZoomPane,
    NewWindow { name: Option<String>, command: Option<String> },
    ClosePane,
    SelectWindow(usize),
    NextWindow,
    PrevWindow,
    RenameWindow(String),
    RenameSession(String),
    ListSessions,
    KillSession(SessionTarget),
    EnterCopyMode,
    CopyModeInput(CopyModeAction),
    Paste,
    Command(String),
    MouseEvent { kind: MouseEventKind, col: u16, row: u16 },
    Ping,
}

/// Information about a session for listing.
#[derive(Debug, Clone)]
pub struct SessionInfo {
    pub id: SessionId,
    pub name: String,
    pub window_count: usize,
    pub pane_count: usize,
    pub created_at: u64,
    pub attached_clients: usize,
}

/// Window information for the status bar.
#[derive(Debug, Clone)]
pub struct WindowInfo {
    pub id: WindowId,
    pub index: usize,
    pub name: String,
    pub active: bool,
    pub pane_count: usize,
}

/// Messages sent from server to client.
#[derive(Debug, Clone)]
pub enum ServerMessage {
    Output(Vec<u8>),
    SessionCreated { session_id: SessionId, name: String },
    Attached { session_id: SessionId, name: String },
    Detached,
    SessionList(Vec<SessionInfo>),
    Error(String),
    Pong,
    Shutdown,
    Notification(String),
}

} // verus!

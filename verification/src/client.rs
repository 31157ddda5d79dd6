//! Plain state and notification types of a drawing client of this
//! protocol: which tool is active, why a workspace re-renders, what the
//! login flow reports. They carry no behaviour here — rendering and
//! networking belong to the client itself — but they are shared so that
//! both ends of the wire agree on them.

use vstd::prelude::*;

use crate::user::UserResponse;

verus! {

/// The drawing tool a workspace is in.
#[derive(PartialEq, Eq, Structural, Copy, Clone, Debug)]
pub enum DrawModeType {
    SelectMode,
    LineMode,
}

/// How much of a scene a re-render repaints.
#[derive(PartialEq, Eq, Structural, Clone, Copy, Debug)]
pub enum DrawOption {
    Remain,
    DrawAll,
}

/// Why a workspace updates.
#[derive(PartialEq, Eq, Structural, Clone, Copy, Debug)]
pub enum UpdateReason {
    Init,
    FigureAdded,
    GetCurrentFigures,
    GetCurrentSharedUsers,
    UserJoined,
    UserLeft,
    ShowChat,
    ChangeMode,
    MousePositionChanged,
}

/// Why a call against the pre-flight HTTP interface failed on the client.
#[derive(Debug)]
pub enum ApiError {
    FailedToSendRequest,
    StatusError(u16, String),
    ParseError,
    UserError(UserResponse),
}

/// What the login flow announces when it completes: the chosen user name
/// and, when joining an existing session, the room to enter.
#[derive(Debug)]
pub enum LoginNotifyMessage {
    EnterRoom(String, Option<String>),
}

/// A message of the client's entry page.
#[derive(Debug)]
pub enum MainMessage {
    HandleLoginNotifyMessage(LoginNotifyMessage),
}

/// What a workspace is opened on: the identifier of its room.
#[derive(Clone, PartialEq, Debug)]
pub struct WorkspaceProps {
    pub id: String,
}

/// The idle tool: selects nothing, draws nothing.
#[derive(PartialEq, Eq, Structural, Clone, Copy, Debug)]
pub struct NormalMode {}

impl NormalMode {
    /// The idle tool.
    pub fn new() -> (mode: NormalMode)
        ensures
            mode == (NormalMode {}),
    {
        NormalMode {}
    }
}

/// The selection tool.
#[derive(PartialEq, Eq, Structural, Clone, Copy, Debug)]
pub struct SelectMode {}

impl SelectMode {
    /// The selection tool.
    pub fn new() -> (mode: SelectMode)
        ensures
            mode == (SelectMode {}),
    {
        SelectMode {}
    }
}

} // verus!

//! Message shapes exchanged between a drawing client and the server.
//!
//! Inbound traffic is a `ClientMessage`, outbound traffic a `ServerMessage`.
//! `CheckRoomExist` and `CheckUserExist` belong to the pre-flight HTTP
//! channel; a conforming peer never sends them over the socket, and the
//! engine answers them there with `InvalidRequest`.
//!
//! Each shape has a ghost mirror (`...View`) in which identifiers appear as
//! character sequences and lists as mathematical sequences; every contract
//! in this crate speaks of those mirrors.

use vstd::prelude::*;

use crate::figure::FigureData;

verus! {

/// The character sequences behind a list of identifiers. Every contract
/// that speaks of identifier lists goes through this one definition.
pub open spec fn id_views(ids: Seq<String>) -> Seq<Seq<char>> {
    ids.map_values(|u: String| u@)
}

/// What a participant can ask its room for.
#[derive(Clone, Debug, PartialEq)]
pub enum RequestType {
    CurrentFigures,
    CheckRoomExist(String),
    CheckUserExist(String, String),
    CurrentSharedUsers,
}

/// The answer to a `RequestType`.
#[derive(Clone, Debug, PartialEq)]
pub enum ResponseType {
    CurrentFigures(Vec<FigureData>),
    CurrentSharedUsers(Vec<String>),
    ResponseRoomExist(bool),
    ResponseUserExist(Option<bool>),
    InvalidRequest(RequestType),
}

/// One inbound frame: what a client may send. Cursor coordinates hold the
/// bit patterns of 64-bit floats, as in [`crate::figure`].
#[derive(Clone, Debug, PartialEq)]
pub enum ClientMessage {
    Leave,
    Join(String, String),
    AddFigure(FigureData),
    RequestInfo(RequestType),
    NotifyMousePositionChanged(u64, u64),
}

/// One outbound frame: what the server delivers to a participant.
#[derive(Clone, Debug, PartialEq)]
pub enum ServerMessage {
    UserJoined(String),
    FigureAdded(FigureData),
    ResponseInfo(ResponseType),
    UserLeft(String),
    NotifyUserMousePositionChanged(String, u64, u64),
}

/// Ghost mirror of [`RequestType`].
#[verifier::ext_equal]
pub enum RequestView {
    CurrentFigures,
    CheckRoomExist(Seq<char>),
    CheckUserExist(Seq<char>, Seq<char>),
    CurrentSharedUsers,
}

/// Ghost mirror of [`ResponseType`].
#[verifier::ext_equal]
pub enum ResponseView {
    CurrentFigures(Seq<FigureData>),
    CurrentSharedUsers(Seq<Seq<char>>),
    ResponseRoomExist(bool),
    ResponseUserExist(Option<bool>),
    InvalidRequest(RequestView),
}

/// Ghost mirror of [`ClientMessage`].
#[verifier::ext_equal]
pub enum ClientMsgView {
    Leave,
    Join(Seq<char>, Seq<char>),
    AddFigure(FigureData),
    RequestInfo(RequestView),
    NotifyMousePositionChanged(u64, u64),
}

/// Ghost mirror of [`ServerMessage`].
#[verifier::ext_equal]
pub enum ServerMsgView {
    UserJoined(Seq<char>),
    FigureAdded(FigureData),
    ResponseInfo(ResponseView),
    UserLeft(Seq<char>),
    NotifyUserMousePositionChanged(Seq<char>, u64, u64),
}

impl View for RequestType {
    type V = RequestView;

    open spec fn view(&self) -> RequestView {
        match self {
            RequestType::CurrentFigures => RequestView::CurrentFigures,
            RequestType::CheckRoomExist(room_id) => RequestView::CheckRoomExist(room_id@),
            RequestType::CheckUserExist(room_id, user_id) => RequestView::CheckUserExist(
                room_id@,
                user_id@,
            ),
            RequestType::CurrentSharedUsers => RequestView::CurrentSharedUsers,
        }
    }
}

impl View for ResponseType {
    type V = ResponseView;

    open spec fn view(&self) -> ResponseView {
        match self {
            ResponseType::CurrentFigures(figures) => ResponseView::CurrentFigures(figures@),
            ResponseType::CurrentSharedUsers(user_ids) => ResponseView::CurrentSharedUsers(
                id_views(user_ids@),
            ),
            ResponseType::ResponseRoomExist(exists) => ResponseView::ResponseRoomExist(*exists),
            ResponseType::ResponseUserExist(exists) => ResponseView::ResponseUserExist(*exists),
            ResponseType::InvalidRequest(request) => ResponseView::InvalidRequest(request@),
        }
    }
}

impl View for ClientMessage {
    type V = ClientMsgView;

    open spec fn view(&self) -> ClientMsgView {
        match self {
            ClientMessage::Leave => ClientMsgView::Leave,
            ClientMessage::Join(room_id, user_id) => ClientMsgView::Join(room_id@, user_id@),
            ClientMessage::AddFigure(figure) => ClientMsgView::AddFigure(*figure),
            ClientMessage::RequestInfo(request) => ClientMsgView::RequestInfo(request@),
            ClientMessage::NotifyMousePositionChanged(x, y) => {
                ClientMsgView::NotifyMousePositionChanged(*x, *y)
            },
        }
    }
}

impl View for ServerMessage {
    type V = ServerMsgView;

    open spec fn view(&self) -> ServerMsgView {
        match self {
            ServerMessage::UserJoined(user_id) => ServerMsgView::UserJoined(user_id@),
            ServerMessage::FigureAdded(figure) => ServerMsgView::FigureAdded(*figure),
            ServerMessage::ResponseInfo(response) => ServerMsgView::ResponseInfo(response@),
            ServerMessage::UserLeft(user_id) => ServerMsgView::UserLeft(user_id@),
            ServerMessage::NotifyUserMousePositionChanged(user_id, x, y) => {
                ServerMsgView::NotifyUserMousePositionChanged(user_id@, *x, *y)
            },
        }
    }
}

/// Copy of a request, equal to the original at the ghost level.
pub fn clone_request(request: &RequestType) -> (copy: RequestType)
    ensures
        copy@ == request@,
{
    match request {
        RequestType::CurrentFigures => RequestType::CurrentFigures,
        RequestType::CheckRoomExist(room_id) => RequestType::CheckRoomExist(room_id.clone()),
        RequestType::CheckUserExist(room_id, user_id) => RequestType::CheckUserExist(
            room_id.clone(),
            user_id.clone(),
        ),
        RequestType::CurrentSharedUsers => RequestType::CurrentSharedUsers,
    }
}

/// Copy of a figure list, equal to the original at the ghost level.
pub fn clone_figures(figures: &Vec<FigureData>) -> (copy: Vec<FigureData>)
    ensures
        copy@ == figures@,
{
    let mut copy: Vec<FigureData> = Vec::new();
    let mut i: usize = 0;
    while i < figures.len()
        invariant
            i <= figures.len(),
            copy@ =~= figures@.take(i as int),
        decreases figures.len() - i,
    {
        copy.push(figures[i]);
        i += 1;
    }
    proof {
        assert(copy@ =~= figures@);
    }
    copy
}

/// Copy of an identifier list, equal to the original at the ghost level.
pub fn clone_user_ids(user_ids: &Vec<String>) -> (copy: Vec<String>)
    ensures
        id_views(copy@) == id_views(user_ids@),
{
    let mut copy: Vec<String> = Vec::new();
    let mut i: usize = 0;
    while i < user_ids.len()
        invariant
            i <= user_ids.len(),
            copy@.len() == i,
            forall|j: int| 0 <= j < i ==> copy@[j]@ == user_ids@[j]@,
        decreases user_ids.len() - i,
    {
        copy.push(user_ids[i].clone());
        i += 1;
    }
    proof {
        assert(id_views(copy@) =~= id_views(user_ids@));
    }
    copy
}

/// Copy of an outbound message, equal to the original at the ghost level.
pub fn clone_server_message(message: &ServerMessage) -> (copy: ServerMessage)
    ensures
        copy@ == message@,
{
    match message {
        ServerMessage::UserJoined(user_id) => ServerMessage::UserJoined(user_id.clone()),
        ServerMessage::FigureAdded(figure) => ServerMessage::FigureAdded(*figure),
        ServerMessage::ResponseInfo(response) => ServerMessage::ResponseInfo(
            clone_response(response),
        ),
        ServerMessage::UserLeft(user_id) => ServerMessage::UserLeft(user_id.clone()),
        ServerMessage::NotifyUserMousePositionChanged(user_id, x, y) => {
            ServerMessage::NotifyUserMousePositionChanged(user_id.clone(), *x, *y)
        },
    }
}

/// Copy of a response, equal to the original at the ghost level.
pub fn clone_response(response: &ResponseType) -> (copy: ResponseType)
    ensures
        copy@ == response@,
{
    match response {
        ResponseType::CurrentFigures(figures) => ResponseType::CurrentFigures(
            clone_figures(figures),
        ),
        ResponseType::CurrentSharedUsers(user_ids) => ResponseType::CurrentSharedUsers(
            clone_user_ids(user_ids),
        ),
        ResponseType::ResponseRoomExist(exists) => ResponseType::ResponseRoomExist(*exists),
        ResponseType::ResponseUserExist(exists) => ResponseType::ResponseUserExist(*exists),
        ResponseType::InvalidRequest(request) => ResponseType::InvalidRequest(
            clone_request(request),
        ),
    }
}

} // verus!

//! The connection bridge's decisions and the join/leave handshake.
//!
//! One bridge ties one socket to one room mailbox. The host reads frames,
//! turns each into an [`InboundEvent`] (decoding failures become
//! [`InboundEvent::Malformed`] — a per-connection fault, never a room-wide
//! one), and asks [`bridge_step`] what to do: forward a mailbox message,
//! forward a final leave and stop reading, or ignore the frame.
//!
//! Before that loop starts, a new socket goes through the handshake:
//! [`await_join`] classifies the first frames until a join arrives, then
//! [`resolve_and_join`] creates the room if needed — falling back to a
//! plain join when a concurrent creator won the race — and attaches the
//! member. It cannot fail: after it, the room exists and the member is in.

use vstd::prelude::*;

use crate::message::ClientMessage;
use crate::message::ClientMsgView;
use crate::room::deliveries_view;
use crate::room::spec_join;
use crate::room::Delivery;
use crate::room::RoomMsgView;
use crate::room::RoomMessage;
use crate::server::has_room;
use crate::server::registry_wf;
use crate::server::room_index;
use crate::server::spec_create;
use crate::server::ServerApp;
use vstd::pervasive::unreached;

verus! {

/// What the host read on one socket: a decoded message, a frame that did
/// not decode, an orderly close, or a frame kind the protocol ignores.
#[derive(Debug, PartialEq)]
pub enum InboundEvent {
    Message(ClientMessage),
    Malformed,
    Closed,
    Other,
}

/// Ghost mirror of [`InboundEvent`].
#[verifier::ext_equal]
pub enum InboundEventView {
    Message(ClientMsgView),
    Malformed,
    Closed,
    Other,
}

impl View for InboundEvent {
    type V = InboundEventView;

    open spec fn view(&self) -> InboundEventView {
        match self {
            InboundEvent::Message(message) => InboundEventView::Message(message@),
            InboundEvent::Malformed => InboundEventView::Malformed,
            InboundEvent::Closed => InboundEventView::Closed,
            InboundEvent::Other => InboundEventView::Other,
        }
    }
}

/// What the bridge does with one inbound event.
#[derive(Debug, PartialEq)]
pub enum BridgeAction {
    /// Send this to the room's mailbox and keep reading.
    Forward(RoomMessage),
    /// Send this to the room's mailbox, then stop this bridge.
    FinishWith(RoomMessage),
    /// Keep reading.
    Ignore,
}

/// Ghost mirror of [`BridgeAction`].
#[verifier::ext_equal]
pub enum BridgeActionView {
    Forward(RoomMsgView),
    FinishWith(RoomMsgView),
    Ignore,
}

impl View for BridgeAction {
    type V = BridgeActionView;

    open spec fn view(&self) -> BridgeActionView {
        match self {
            BridgeAction::Forward(message) => BridgeActionView::Forward(message@),
            BridgeAction::FinishWith(message) => BridgeActionView::FinishWith(message@),
            BridgeAction::Ignore => BridgeActionView::Ignore,
        }
    }
}

/// The bridge's read-loop decision for a member that is attached to a room.
///
/// A leave or an orderly close forwards the final leave and stops; a frame
/// that did not decode does the same, closing only this connection. Figures,
/// information requests and cursor positions are forwarded stamped with the
/// sender's identity. A mid-session join attempt and non-text frames are
/// ignored.
pub open spec fn spec_bridge_step(user_id: Seq<char>, event: InboundEventView) -> BridgeActionView {
    match event {
        InboundEventView::Message(message) => match message {
            ClientMsgView::Leave => BridgeActionView::FinishWith(RoomMsgView::LeaveUser(user_id)),
            ClientMsgView::Join(_, _) => BridgeActionView::Ignore,
            ClientMsgView::AddFigure(figure) => BridgeActionView::Forward(
                RoomMsgView::AddFigure(figure),
            ),
            ClientMsgView::RequestInfo(request) => BridgeActionView::Forward(
                RoomMsgView::RequestInfo(user_id, request),
            ),
            ClientMsgView::NotifyMousePositionChanged(x, y) => BridgeActionView::Forward(
                RoomMsgView::NotifyMousePositionChanged(user_id, x, y),
            ),
        },
        InboundEventView::Malformed => BridgeActionView::FinishWith(
            RoomMsgView::LeaveUser(user_id),
        ),
        InboundEventView::Closed => BridgeActionView::FinishWith(RoomMsgView::LeaveUser(user_id)),
        InboundEventView::Other => BridgeActionView::Ignore,
    }
}

/// Exactly [`spec_bridge_step`].
pub fn bridge_step(user_id: &String, event: InboundEvent) -> (action: BridgeAction)
    ensures
        action@ == spec_bridge_step(user_id@, event@),
{
    match event {
        InboundEvent::Message(message) => match message {
            ClientMessage::Leave => BridgeAction::FinishWith(
                RoomMessage::LeaveUser(user_id.clone()),
            ),
            ClientMessage::Join(_, _) => BridgeAction::Ignore,
            ClientMessage::AddFigure(figure) => BridgeAction::Forward(
                RoomMessage::AddFigure(figure),
            ),
            ClientMessage::RequestInfo(request) => BridgeAction::Forward(
                RoomMessage::RequestInfo(user_id.clone(), request),
            ),
            ClientMessage::NotifyMousePositionChanged(x, y) => BridgeAction::Forward(
                RoomMessage::NotifyMousePositionChanged(user_id.clone(), x, y),
            ),
        },
        InboundEvent::Malformed => BridgeAction::FinishWith(
            RoomMessage::LeaveUser(user_id.clone()),
        ),
        InboundEvent::Closed => BridgeAction::FinishWith(RoomMessage::LeaveUser(user_id.clone())),
        InboundEvent::Other => BridgeAction::Ignore,
    }
}

/// The handshake's verdict on one frame read before any room is joined.
#[derive(Debug, PartialEq)]
pub enum HandshakeStep {
    /// A join arrived: the room and member identifiers to resolve.
    Proceed(String, String),
    /// A protocol violation: close the socket without entering any room.
    Reject,
    /// A frame kind the protocol ignores: keep waiting for the join.
    KeepWaiting,
}

/// Ghost mirror of [`HandshakeStep`].
#[verifier::ext_equal]
pub enum HandshakeStepView {
    Proceed(Seq<char>, Seq<char>),
    Reject,
    KeepWaiting,
}

impl View for HandshakeStep {
    type V = HandshakeStepView;

    open spec fn view(&self) -> HandshakeStepView {
        match self {
            HandshakeStep::Proceed(room_id, user_id) => HandshakeStepView::Proceed(
                room_id@,
                user_id@,
            ),
            HandshakeStep::Reject => HandshakeStepView::Reject,
            HandshakeStep::KeepWaiting => HandshakeStepView::KeepWaiting,
        }
    }
}

/// The handshake's first phase: the only acceptable message is a join.
/// Anything else that decodes, fails to decode, or closes the socket is a
/// violation; frame kinds the protocol ignores leave the handshake waiting.
pub open spec fn spec_await_join(event: InboundEventView) -> HandshakeStepView {
    match event {
        InboundEventView::Message(message) => match message {
            ClientMsgView::Join(room_id, user_id) => HandshakeStepView::Proceed(room_id, user_id),
            _ => HandshakeStepView::Reject,
        },
        InboundEventView::Malformed => HandshakeStepView::Reject,
        InboundEventView::Closed => HandshakeStepView::Reject,
        InboundEventView::Other => HandshakeStepView::KeepWaiting,
    }
}

/// Exactly [`spec_await_join`].
pub fn await_join(event: InboundEvent) -> (step: HandshakeStep)
    ensures
        step@ == spec_await_join(event@),
{
    match event {
        InboundEvent::Message(message) => match message {
            ClientMessage::Join(room_id, user_id) => HandshakeStep::Proceed(room_id, user_id),
            _ => HandshakeStep::Reject,
        },
        InboundEvent::Malformed => HandshakeStep::Reject,
        InboundEvent::Closed => HandshakeStep::Reject,
        InboundEvent::Other => HandshakeStep::KeepWaiting,
    }
}

/// The handshake's second phase: create the room when absent — a creator
/// that loses the race to another one falls back to joining the room that
/// now exists — then join it. It always succeeds: afterwards the room is
/// registered and the member is in it, and the returned deliveries announce
/// the join to every member of the room, the new one included.
pub fn resolve_and_join(app: &mut ServerApp, room_id: &String, user_id: String) -> (deliveries:
    Vec<Delivery>)
    requires
        registry_wf(old(app)@),
    ensures
        registry_wf(final(app)@),
        ({
            let rooms = if has_room(old(app)@, room_id@) {
                old(app)@
            } else {
                spec_create(old(app)@, room_id@)
            };
            let ix = room_index(rooms, room_id@);
            let step = spec_join(rooms[ix], user_id@);
            &&& final(app)@ == rooms.update(ix, step.room)
            &&& deliveries_view(deliveries@) == step.deliveries
        }),
{
    if !app.check_exist_room(room_id) {
        let created = app.make_room(room_id.clone());
        proof {
            assert(has_room(app@, room_id@)) by {
                assert(app@[app@.len() - 1].id == room_id@);
            }
        }
        match created {
            Ok(()) => {},
            Err(_) => {},
        }
    }
    match app.join_room(room_id, user_id) {
        Ok(deliveries) => deliveries,
        Err(_) => unreached(),
    }
}

} // verus!

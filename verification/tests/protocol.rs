//! The bridge's frame-by-frame decisions, the handshake's first phase, and
//! the pre-flight HTTP responses.

use whiteboard::client::DrawModeType;
use whiteboard::client::NormalMode;
use whiteboard::client::SelectMode;
use whiteboard::figure::Color;
use whiteboard::figure::FigureData;
use whiteboard::figure::LineData;
use whiteboard::handshake::await_join;
use whiteboard::handshake::bridge_step;
use whiteboard::handshake::BridgeAction;
use whiteboard::handshake::HandshakeStep;
use whiteboard::handshake::InboundEvent;
use whiteboard::message::ClientMessage;
use whiteboard::message::RequestType;
use whiteboard::message::ResponseType;
use whiteboard::room::RoomMessage;
use whiteboard::server::ServerApp;
use whiteboard::user::User;
use whiteboard::user::UserResponse;

fn s(text: &str) -> String {
    text.to_string()
}

fn square_line() -> FigureData {
    FigureData::Line(LineData {
        start_x: 1.0f64.to_bits(),
        start_y: 2.0f64.to_bits(),
        end_x: 3.0f64.to_bits(),
        end_y: 4.0f64.to_bits(),
        color: Color {
            r: 0.5f32.to_bits(),
            g: 0.5f32.to_bits(),
            b: 0.5f32.to_bits(),
            a: 1.0f32.to_bits(),
        },
    })
}

#[test]
fn bridge_forwards_stamped_messages() {
    let alice = s("alice");
    assert_eq!(
        bridge_step(&alice, InboundEvent::Message(ClientMessage::AddFigure(square_line()))),
        BridgeAction::Forward(RoomMessage::AddFigure(square_line()))
    );
    assert_eq!(
        bridge_step(
            &alice,
            InboundEvent::Message(ClientMessage::RequestInfo(RequestType::CurrentFigures)),
        ),
        BridgeAction::Forward(RoomMessage::RequestInfo(s("alice"), RequestType::CurrentFigures))
    );
    assert_eq!(
        bridge_step(
            &alice,
            InboundEvent::Message(ClientMessage::NotifyMousePositionChanged(
                1.5f64.to_bits(),
                2.5f64.to_bits(),
            )),
        ),
        BridgeAction::Forward(RoomMessage::NotifyMousePositionChanged(
            s("alice"),
            1.5f64.to_bits(),
            2.5f64.to_bits(),
        ))
    );
}

#[test]
fn bridge_finishes_on_leave_close_and_decode_errors() {
    let alice = s("alice");
    assert_eq!(
        bridge_step(&alice, InboundEvent::Message(ClientMessage::Leave)),
        BridgeAction::FinishWith(RoomMessage::LeaveUser(s("alice")))
    );
    assert_eq!(
        bridge_step(&alice, InboundEvent::Closed),
        BridgeAction::FinishWith(RoomMessage::LeaveUser(s("alice")))
    );
    // A malformed frame fells only this bridge, as a leave.
    assert_eq!(
        bridge_step(&alice, InboundEvent::Malformed),
        BridgeAction::FinishWith(RoomMessage::LeaveUser(s("alice")))
    );
}

#[test]
fn bridge_ignores_stray_frames() {
    let alice = s("alice");
    assert_eq!(
        bridge_step(&alice, InboundEvent::Message(ClientMessage::Join(s("r1"), s("x")))),
        BridgeAction::Ignore
    );
    assert_eq!(bridge_step(&alice, InboundEvent::Other), BridgeAction::Ignore);
}

#[test]
fn handshake_accepts_only_a_join_first() {
    assert_eq!(
        await_join(InboundEvent::Message(ClientMessage::Join(s("r1"), s("alice")))),
        HandshakeStep::Proceed(s("r1"), s("alice"))
    );
    assert_eq!(
        await_join(InboundEvent::Message(ClientMessage::Leave)),
        HandshakeStep::Reject
    );
    assert_eq!(
        await_join(InboundEvent::Message(ClientMessage::AddFigure(square_line()))),
        HandshakeStep::Reject
    );
    assert_eq!(await_join(InboundEvent::Malformed), HandshakeStep::Reject);
    assert_eq!(await_join(InboundEvent::Closed), HandshakeStep::Reject);
    assert_eq!(await_join(InboundEvent::Other), HandshakeStep::KeepWaiting);
}

#[test]
fn preflight_room_check_answers_exactly() {
    let mut app = ServerApp::new();
    app.make_room(s("r1")).unwrap();
    assert_eq!(
        app.check_room_exist_response(RequestType::CheckRoomExist(s("r1"))),
        ResponseType::ResponseRoomExist(true)
    );
    assert_eq!(
        app.check_room_exist_response(RequestType::CheckRoomExist(s("r2"))),
        ResponseType::ResponseRoomExist(false)
    );
    assert_eq!(
        app.check_room_exist_response(RequestType::CurrentFigures),
        ResponseType::InvalidRequest(RequestType::CurrentFigures)
    );
}

#[test]
fn preflight_user_check_answers_exactly() {
    let mut app = ServerApp::new();
    app.make_room(s("r1")).unwrap();
    app.join_room(&s("r1"), s("alice")).unwrap();
    assert_eq!(
        app.check_user_exist_response(RequestType::CheckUserExist(s("r1"), s("alice"))),
        ResponseType::ResponseUserExist(Some(true))
    );
    assert_eq!(
        app.check_user_exist_response(RequestType::CheckUserExist(s("r1"), s("bob"))),
        ResponseType::ResponseUserExist(Some(false))
    );
    assert_eq!(
        app.check_user_exist_response(RequestType::CheckUserExist(s("r9"), s("alice"))),
        ResponseType::ResponseUserExist(None)
    );
    assert_eq!(
        app.check_user_exist_response(RequestType::CurrentSharedUsers),
        ResponseType::InvalidRequest(RequestType::CurrentSharedUsers)
    );
}

#[test]
fn account_shapes_compare_by_content() {
    assert_eq!(User::new(s("ada")), User { id: s("ada") });
    assert_ne!(UserResponse::LogedIn, UserResponse::LogedOut);
}

#[test]
fn client_tool_types_construct() {
    assert_eq!(NormalMode::new(), NormalMode {});
    assert_eq!(SelectMode::new(), SelectMode {});
    assert_ne!(DrawModeType::SelectMode, DrawModeType::LineMode);
}

//! End-to-end scenarios of the room engine: handshakes, drawing, leaving,
//! deletion, and the create/join race, driven through the public API.

use whiteboard::figure::Color;
use whiteboard::figure::FigureData;
use whiteboard::figure::LineData;
use whiteboard::handshake::await_join;
use whiteboard::handshake::resolve_and_join;
use whiteboard::handshake::HandshakeStep;
use whiteboard::handshake::InboundEvent;
use whiteboard::message::ClientMessage;
use whiteboard::message::RequestType;
use whiteboard::message::ResponseType;
use whiteboard::message::ServerMessage;
use whiteboard::room::Delivery;
use whiteboard::room::Room;
use whiteboard::room::RoomMessage;
use whiteboard::server::ServerApp;
use whiteboard::server::ServerAppError;
use whiteboard::server::ServerAppMessage;

fn s(text: &str) -> String {
    text.to_string()
}

fn red() -> Color {
    Color {
        r: 1.0f32.to_bits(),
        g: 0.0f32.to_bits(),
        b: 0.0f32.to_bits(),
        a: 1.0f32.to_bits(),
    }
}

fn red_line() -> FigureData {
    FigureData::Line(LineData {
        start_x: 0.0f64.to_bits(),
        start_y: 0.0f64.to_bits(),
        end_x: 10.0f64.to_bits(),
        end_y: 10.0f64.to_bits(),
        color: red(),
    })
}

fn delivery(target: &str, message: ServerMessage) -> Delivery {
    Delivery {
        target: s(target),
        message,
    }
}

#[test]
fn it_works() {
    let result = whiteboard::add(2, 2);
    assert_eq!(result, 4);
}

#[test]
fn scenario_join_creates_room_and_announces() {
    let mut app = ServerApp::new();
    assert!(!app.check_exist_room(&s("r1")));

    let step = await_join(InboundEvent::Message(ClientMessage::Join(s("r1"), s("alice"))));
    let (room_id, user_a) = match step {
        HandshakeStep::Proceed(room_id, user_id) => (room_id, user_id),
        other => panic!("first join frame was not accepted: {:?}", other),
    };
    let ds_a = resolve_and_join(&mut app, &room_id, user_a);
    assert!(app.check_exist_room(&s("r1")));
    assert_eq!(
        ds_a,
        vec![delivery("alice", ServerMessage::UserJoined(s("alice")))]
    );

    let ds_b = resolve_and_join(&mut app, &s("r1"), s("bob"));
    assert_eq!(
        ds_b,
        vec![
            delivery("alice", ServerMessage::UserJoined(s("bob"))),
            delivery("bob", ServerMessage::UserJoined(s("bob"))),
        ]
    );

    let room = &mut app.rooms[0];
    let (ds_f, stop) = room.handle_message(RoomMessage::RequestInfo(
        s("bob"),
        RequestType::CurrentFigures,
    ));
    assert!(!stop);
    assert_eq!(
        ds_f,
        vec![delivery(
            "bob",
            ServerMessage::ResponseInfo(ResponseType::CurrentFigures(vec![])),
        )]
    );
}

#[test]
fn scenario_added_figure_is_broadcast_and_replayed() {
    let mut app = ServerApp::new();
    resolve_and_join(&mut app, &s("r1"), s("alice"));
    resolve_and_join(&mut app, &s("r1"), s("bob"));

    let room = &mut app.rooms[0];
    let (ds, stop) = room.handle_message(RoomMessage::AddFigure(red_line()));
    assert!(!stop);
    assert_eq!(
        ds,
        vec![
            delivery("alice", ServerMessage::FigureAdded(red_line())),
            delivery("bob", ServerMessage::FigureAdded(red_line())),
        ]
    );

    let (ds_f, _) = room.handle_message(RoomMessage::RequestInfo(
        s("bob"),
        RequestType::CurrentFigures,
    ));
    assert_eq!(
        ds_f,
        vec![delivery(
            "bob",
            ServerMessage::ResponseInfo(ResponseType::CurrentFigures(vec![red_line()])),
        )]
    );
}

#[test]
fn scenario_leave_then_empty_room_is_deleted() {
    let mut app = ServerApp::new();
    resolve_and_join(&mut app, &s("r1"), s("alice"));
    resolve_and_join(&mut app, &s("r1"), s("bob"));

    let room = &mut app.rooms[0];
    let (ds, stop) = room.handle_message(RoomMessage::LeaveUser(s("alice")));
    assert!(!stop);
    assert_eq!(ds, vec![delivery("bob", ServerMessage::UserLeft(s("alice")))]);
    assert!(app.check_exist_room(&s("r1")));

    let room = &mut app.rooms[0];
    let (ds_last, stop_last) = room.handle_message(RoomMessage::LeaveUser(s("bob")));
    assert!(stop_last);
    assert_eq!(ds_last, vec![]);

    app.handle_message(ServerAppMessage::DeleteRoom(s("r1")));
    assert!(!app.check_exist_room(&s("r1")));
    assert!(app.make_room(s("r1")).is_ok());
}

#[test]
fn scenario_creation_race_loser_joins() {
    let mut app = ServerApp::new();

    // The first creator wins the race.
    let ds_a = resolve_and_join(&mut app, &s("r2"), s("alice"));
    assert_eq!(ds_a.len(), 1);

    // The loser observes the taken identifier, then falls back to a join.
    match app.make_room(s("r2")) {
        Err(ServerAppError::RoomAlreadyExist(id)) => assert_eq!(id, s("r2")),
        other => panic!("create on an existing room returned {:?}", other),
    }
    let ds_b = resolve_and_join(&mut app, &s("r2"), s("bob"));
    assert_eq!(
        ds_b,
        vec![
            delivery("alice", ServerMessage::UserJoined(s("bob"))),
            delivery("bob", ServerMessage::UserJoined(s("bob"))),
        ]
    );

    // No member or figure data was lost or duplicated.
    assert_eq!(app.check_exist_user(&s("r2"), &s("alice")), Ok(true));
    assert_eq!(app.check_exist_user(&s("r2"), &s("bob")), Ok(true));
    assert_eq!(app.rooms.len(), 1);
    assert_eq!(app.rooms[0].users.len(), 2);
}

#[test]
fn leave_of_absent_member_is_no_op() {
    let mut room = Room::new(s("r1"));
    room.join_user(s("alice"));
    let (ds, stop) = room.handle_message(RoomMessage::LeaveUser(s("ghost")));
    assert!(!stop);
    assert_eq!(ds, vec![]);
    assert_eq!(room.users, vec![s("alice")]);

    // A second leave of someone already gone is equally silent.
    room.join_user(s("bob"));
    room.handle_message(RoomMessage::LeaveUser(s("alice")));
    let (ds_again, stop_again) = room.handle_message(RoomMessage::LeaveUser(s("alice")));
    assert!(!stop_again);
    assert_eq!(ds_again, vec![]);
    assert_eq!(room.users, vec![s("bob")]);
}

#[test]
fn rejoining_member_is_not_duplicated() {
    let mut room = Room::new(s("r1"));
    room.join_user(s("alice"));
    let ds = room.join_user(s("alice"));
    assert_eq!(room.users, vec![s("alice")]);
    assert_eq!(
        ds,
        vec![delivery("alice", ServerMessage::UserJoined(s("alice")))]
    );
}

#[test]
fn mouse_position_skips_sender_and_is_not_replayed() {
    let mut room = Room::new(s("r1"));
    room.join_user(s("alice"));
    room.join_user(s("bob"));

    let (ds, stop) = room.handle_message(RoomMessage::NotifyMousePositionChanged(
        s("alice"),
        3.5f64.to_bits(),
        7.25f64.to_bits(),
    ));
    assert!(!stop);
    assert_eq!(
        ds,
        vec![delivery(
            "bob",
            ServerMessage::NotifyUserMousePositionChanged(
                s("alice"),
                3.5f64.to_bits(),
                7.25f64.to_bits(),
            ),
        )]
    );

    // A later joiner sees join announcements only: nothing was recorded.
    let ds_join = room.join_user(s("carol"));
    for d in &ds_join {
        assert_eq!(d.message, ServerMessage::UserJoined(s("carol")));
    }
    let (ds_f, _) = room.handle_message(RoomMessage::RequestInfo(
        s("carol"),
        RequestType::CurrentFigures,
    ));
    assert_eq!(
        ds_f,
        vec![delivery(
            "carol",
            ServerMessage::ResponseInfo(ResponseType::CurrentFigures(vec![])),
        )]
    );
}

#[test]
fn shared_users_lists_only_the_others() {
    let mut room = Room::new(s("r1"));
    room.join_user(s("alice"));
    room.join_user(s("bob"));
    room.join_user(s("carol"));

    let (ds, _) = room.handle_message(RoomMessage::RequestInfo(
        s("bob"),
        RequestType::CurrentSharedUsers,
    ));
    assert_eq!(
        ds,
        vec![delivery(
            "bob",
            ServerMessage::ResponseInfo(ResponseType::CurrentSharedUsers(vec![
                s("alice"),
                s("carol"),
            ])),
        )]
    );
}

#[test]
fn requests_from_non_members_are_ignored() {
    let mut room = Room::new(s("r1"));
    room.join_user(s("alice"));
    let (ds, stop) = room.handle_message(RoomMessage::RequestInfo(
        s("ghost"),
        RequestType::CurrentFigures,
    ));
    assert!(!stop);
    assert_eq!(ds, vec![]);
    let (ds2, _) = room.handle_message(RoomMessage::RequestInfo(
        s("ghost"),
        RequestType::CurrentSharedUsers,
    ));
    assert_eq!(ds2, vec![]);
}

#[test]
fn preflight_requests_on_the_socket_are_ignored() {
    let mut room = Room::new(s("r1"));
    room.join_user(s("alice"));
    let (ds, stop) = room.handle_message(RoomMessage::RequestInfo(
        s("alice"),
        RequestType::CheckRoomExist(s("r1")),
    ));
    assert!(!stop);
    assert_eq!(ds, vec![]);
    let (ds2, _) = room.handle_message(RoomMessage::RequestInfo(
        s("alice"),
        RequestType::CheckUserExist(s("r1"), s("alice")),
    ));
    assert_eq!(ds2, vec![]);
}

#[test]
fn registry_errors_name_the_room() {
    let mut app = ServerApp::new();
    assert_eq!(
        app.join_room(&s("nowhere"), s("alice")),
        Err(ServerAppError::RoomDoesNotExist(s("nowhere")))
    );
    assert_eq!(
        app.check_exist_user(&s("nowhere"), &s("alice")),
        Err(ServerAppError::RoomDoesNotExist(s("nowhere")))
    );
    app.make_room(s("taken")).unwrap();
    assert_eq!(
        app.make_room(s("taken")),
        Err(ServerAppError::RoomAlreadyExist(s("taken")))
    );
}

#[test]
fn member_check_distinguishes_absence_kinds() {
    let mut app = ServerApp::new();
    app.make_room(s("r1")).unwrap();
    app.join_room(&s("r1"), s("alice")).unwrap();
    assert_eq!(app.check_exist_user(&s("r1"), &s("alice")), Ok(true));
    assert_eq!(app.check_exist_user(&s("r1"), &s("bob")), Ok(false));
}

#[test]
fn figure_bits_carry_exact_wire_values() {
    let figure = red_line();
    let FigureData::Line(line) = figure;
    assert_eq!(f64::from_bits(line.end_x), 10.0);
    assert_eq!(f64::from_bits(line.start_y), 0.0);
    assert_eq!(f32::from_bits(line.color.r), 1.0);
    assert_eq!(f32::from_bits(line.color.a), 1.0);
    assert_eq!(line.end_x, 0x4024000000000000u64);
}

#[test]
fn deletion_removes_only_the_named_room() {
    let mut app = ServerApp::new();
    resolve_and_join(&mut app, &s("keep"), s("alice"));
    resolve_and_join(&mut app, &s("drop"), s("bob"));
    app.handle_message(ServerAppMessage::DeleteRoom(s("drop")));
    assert!(app.check_exist_room(&s("keep")));
    assert!(!app.check_exist_room(&s("drop")));
    assert_eq!(app.check_exist_user(&s("keep"), &s("alice")), Ok(true));
}

#[test]
fn mouse_position_alone_in_room_reaches_nobody() {
    let mut room = Room::new(s("r1"));
    room.join_user(s("alice"));
    let (ds, stop) = room.handle_message(RoomMessage::NotifyMousePositionChanged(
        s("alice"),
        1.0f64.to_bits(),
        1.0f64.to_bits(),
    ));
    assert!(!stop);
    assert_eq!(ds, vec![]);
}

#[test]
fn shared_users_order_survives_leaves() {
    let mut room = Room::new(s("r1"));
    room.join_user(s("alice"));
    room.join_user(s("bob"));
    room.join_user(s("carol"));
    room.handle_message(RoomMessage::LeaveUser(s("bob")));
    let (ds, _) = room.handle_message(RoomMessage::RequestInfo(
        s("carol"),
        RequestType::CurrentSharedUsers,
    ));
    assert_eq!(
        ds,
        vec![delivery(
            "carol",
            ServerMessage::ResponseInfo(ResponseType::CurrentSharedUsers(vec![s("alice")])),
        )]
    );
}

//! The room registry: the top-level map from room identifier to live room.
//!
//! Existence in the registry is the sole source of truth for "room exists";
//! absence means a fresh create will succeed. Rooms announce their own
//! deletion (see [`crate::room`]); the host forwards each notice to a
//! private deletion mailbox and feeds it to [`ServerApp::handle_message`],
//! which removes the entry.

use vstd::prelude::*;

use crate::message::RequestType;
use crate::message::RequestView;
use crate::message::ResponseType;
use crate::message::ResponseView;
use crate::room::deliveries_view;
use crate::room::empty_room;
use crate::room::spec_join;
use crate::room::Delivery;
use crate::room::Room;
use crate::room::RoomView;
use crate::seqs::lemma_distinct_index_unique;
use crate::seqs::lemma_push_keeps_distinct;
use crate::seqs::lemma_remove_one;

verus! {

/// One message on the registry's deletion mailbox.
#[derive(Debug, PartialEq)]
pub enum ServerAppMessage {
    DeleteRoom(String),
}

/// Ghost mirror of [`ServerAppMessage`].
#[verifier::ext_equal]
pub enum ServerAppMsgView {
    DeleteRoom(Seq<char>),
}

impl View for ServerAppMessage {
    type V = ServerAppMsgView;

    open spec fn view(&self) -> ServerAppMsgView {
        match self {
            ServerAppMessage::DeleteRoom(room_id) => ServerAppMsgView::DeleteRoom(room_id@),
        }
    }
}

/// A registry operation failed: create on an existing identifier, or
/// join/member-check on an absent one.
#[derive(Debug, PartialEq)]
pub enum ServerAppError {
    RoomAlreadyExist(String),
    RoomDoesNotExist(String),
}

/// The registry itself: every live room, each identifier at most once.
pub struct ServerApp {
    pub rooms: Vec<Room>,
}

/// The ghost states of the registered rooms, in registration order.
pub open spec fn room_views(rooms: Seq<Room>) -> Seq<RoomView> {
    rooms.map_values(|r: Room| r@)
}

/// The identifiers of the registered rooms, in registration order.
pub open spec fn room_ids(rooms: Seq<RoomView>) -> Seq<Seq<char>> {
    rooms.map_values(|r: RoomView| r.id)
}

impl View for ServerApp {
    type V = Seq<RoomView>;

    open spec fn view(&self) -> Seq<RoomView> {
        room_views(self.rooms@)
    }
}

/// Room identifiers are unique, and every registered room is well formed.
pub open spec fn registry_wf(rooms: Seq<RoomView>) -> bool {
    &&& room_ids(rooms).no_duplicates()
    &&& forall|i: int| 0 <= i < rooms.len() ==> (#[trigger] rooms[i]).wf()
}

/// Whether a room with this identifier is registered.
pub open spec fn has_room(rooms: Seq<RoomView>, room_id: Seq<char>) -> bool {
    exists|i: int| 0 <= i < rooms.len() && rooms[i].id == room_id
}

/// The position of the room with this identifier. Meaningful only when the
/// room is registered; unique when the registry is well formed.
pub open spec fn room_index(rooms: Seq<RoomView>, room_id: Seq<char>) -> int {
    choose|i: int| 0 <= i < rooms.len() && rooms[i].id == room_id
}

/// The registered room with this identifier.
pub open spec fn room_at(rooms: Seq<RoomView>, room_id: Seq<char>) -> RoomView {
    rooms[room_index(rooms, room_id)]
}

/// Transition for a create: register a fresh, empty room.
pub open spec fn spec_create(rooms: Seq<RoomView>, room_id: Seq<char>) -> Seq<RoomView> {
    rooms.push(empty_room(room_id))
}

/// Transition for a processed deletion notice: drop the entry, if any.
pub open spec fn spec_delete(rooms: Seq<RoomView>, room_id: Seq<char>) -> Seq<RoomView> {
    if has_room(rooms, room_id) {
        rooms.remove(room_index(rooms, room_id))
    } else {
        rooms
    }
}

impl ServerApp {
    /// A registry with no rooms.
    pub fn new() -> (app: ServerApp)
        ensures
            app@ == Seq::<RoomView>::empty(),
            registry_wf(app@),
    {
        let app = ServerApp { rooms: Vec::new() };
        proof {
            assert(app@ =~= Seq::<RoomView>::empty());
            assert(room_ids(app@) =~= Seq::<Seq<char>>::empty());
        }
        app
    }

    /// The position of the room with this identifier, when registered.
    fn find_room(&self, room_id: &String) -> (found: Option<usize>)
        ensures
            match found {
                Some(ix) => ix < self@.len() && self@[ix as int].id == room_id@,
                None => !has_room(self@, room_id@),
            },
    {
        let mut i: usize = 0;
        while i < self.rooms.len()
            invariant
                i <= self.rooms.len(),
                forall|j: int| 0 <= j < i ==> self@[j].id != room_id@,
            decreases self.rooms.len() - i,
        {
            if self.rooms[i].id.eq(room_id) {
                return Some(i);
            }
            i += 1;
        }
        None
    }

    /// Whether a room with this identifier is registered.
    pub fn check_exist_room(&self, room_id: &String) -> (present: bool)
        ensures
            present == has_room(self@, room_id@),
    {
        let found = self.find_room(room_id);
        proof {
            if let Some(ix) = found {
                assert(has_room(self@, room_id@));
            }
        }
        found.is_some()
    }

    /// Register a fresh room under this identifier, or report that the
    /// identifier is taken; the caller then retries as a join.
    pub fn make_room(&mut self, room_id: String) -> (outcome: Result<(), ServerAppError>)
        requires
            registry_wf(old(self)@),
        ensures
            registry_wf(final(self)@),
            has_room(old(self)@, room_id@) ==> (outcome matches Err(
                ServerAppError::RoomAlreadyExist(id),
            ) && id@ == room_id@ && final(self)@ == old(self)@),
            !has_room(old(self)@, room_id@) ==> (outcome matches Ok(_) && final(self)@
                == spec_create(old(self)@, room_id@)),
    {
        if self.check_exist_room(&room_id) {
            return Err(ServerAppError::RoomAlreadyExist(room_id));
        }
        let ghost before = self@;
        let room = Room::new(room_id);
        self.rooms.push(room);
        proof {
            assert(self@ =~= spec_create(before, room.id@));
            assert(room_ids(self@) =~= room_ids(before).push(room.id@));
            assert forall|x: Seq<char>| room_ids(before).contains(x) implies has_room(
                before,
                x,
            ) by {
                let i = choose|i: int|
                    0 <= i < room_ids(before).len() && room_ids(before)[i] == x;
            }
            lemma_push_keeps_distinct(room_ids(before), room.id@);
        }
        Ok(())
    }

    /// Whether this member is in this room, or an error when the room does
    /// not exist.
    pub fn check_exist_user(&self, room_id: &String, user_id: &String) -> (outcome: Result<
        bool,
        ServerAppError,
    >)
        requires
            registry_wf(self@),
        ensures
            has_room(self@, room_id@) ==> (outcome matches Ok(present) && present == room_at(
                self@,
                room_id@,
            ).has_user(user_id@)),
            !has_room(self@, room_id@) ==> (outcome matches Err(
                ServerAppError::RoomDoesNotExist(id),
            ) && id@ == room_id@),
    {
        match self.find_room(room_id) {
            Some(ix) => {
                proof {
                    assert(has_room(self@, room_id@));
                    lemma_distinct_index_unique(
                        room_ids(self@),
                        ix as int,
                        room_index(self@, room_id@),
                    );
                }
                Ok(self.rooms[ix].check_exist_user(user_id))
            },
            None => Err(ServerAppError::RoomDoesNotExist(room_id.clone())),
        }
    }

    /// Let a member join the room with this identifier: exactly
    /// [`spec_join`] on that room, or an error when the room does not
    /// exist.
    pub fn join_room(&mut self, room_id: &String, user_id: String) -> (outcome: Result<
        Vec<Delivery>,
        ServerAppError,
    >)
        requires
            registry_wf(old(self)@),
        ensures
            registry_wf(final(self)@),
            !has_room(old(self)@, room_id@) ==> (outcome matches Err(
                ServerAppError::RoomDoesNotExist(id),
            ) && id@ == room_id@ && final(self)@ == old(self)@),
            has_room(old(self)@, room_id@) ==> (outcome matches Ok(deliveries) && {
                let ix = room_index(old(self)@, room_id@);
                let step = spec_join(old(self)@[ix], user_id@);
                &&& final(self)@ == old(self)@.update(ix, step.room)
                &&& deliveries_view(deliveries@) == step.deliveries
            }),
    {
        let found = match self.find_room(room_id) {
            Some(ix) => ix,
            None => {
                return Err(ServerAppError::RoomDoesNotExist(room_id.clone()));
            },
        };
        let ghost before = self@;
        proof {
            assert(has_room(before, room_id@));
            lemma_distinct_index_unique(
                room_ids(before),
                found as int,
                room_index(before, room_id@),
            );
        }
        let mut room = self.rooms.remove(found);
        let deliveries = room.join_user(user_id);
        let ghost joined = room@;
        self.rooms.insert(found, room);
        proof {
            assert(self@ =~= before.update(found as int, joined));
            assert(room_ids(self@) =~= room_ids(before));
        }
        Ok(deliveries)
    }

    /// Process one deletion notice: the entry under the announced
    /// identifier leaves the registry.
    pub fn handle_message(&mut self, message: ServerAppMessage)
        requires
            registry_wf(old(self)@),
        ensures
            registry_wf(final(self)@),
            message@ matches ServerAppMsgView::DeleteRoom(room_id) && final(self)@
                == spec_delete(old(self)@, room_id),
    {
        let ServerAppMessage::DeleteRoom(room_id) = message;
        match self.find_room(&room_id) {
            Some(ix) => {
                let ghost before = self@;
                proof {
                    assert(has_room(before, room_id@));
                    lemma_distinct_index_unique(
                        room_ids(before),
                        ix as int,
                        room_index(before, room_id@),
                    );
                    lemma_remove_one(room_ids(before), ix as int);
                }
                self.rooms.remove(ix);
                proof {
                    assert(self@ =~= before.remove(ix as int));
                    assert(room_ids(self@) =~= room_ids(before).remove(ix as int));
                }
            },
            None => {},
        }
    }

    /// The response to a pre-flight room-existence request. Any other
    /// request on this channel is answered as invalid.
    pub fn check_room_exist_response(&self, request: RequestType) -> (response: ResponseType)
        ensures
            response@ == (match request@ {
                RequestView::CheckRoomExist(room_id) => ResponseView::ResponseRoomExist(
                    has_room(self@, room_id),
                ),
                _ => ResponseView::InvalidRequest(request@),
            }),
    {
        match request {
            RequestType::CheckRoomExist(room_id) => {
                let present = self.check_exist_room(&room_id);
                ResponseType::ResponseRoomExist(present)
            },
            other => ResponseType::InvalidRequest(other),
        }
    }

    /// The response to a pre-flight member-existence request: the answer,
    /// or nothing when the room does not exist. Any other request on this
    /// channel is answered as invalid.
    pub fn check_user_exist_response(&self, request: RequestType) -> (response: ResponseType)
        requires
            registry_wf(self@),
        ensures
            response@ == (match request@ {
                RequestView::CheckUserExist(room_id, user_id) => ResponseView::ResponseUserExist(
                    if has_room(self@, room_id) {
                        Some(room_at(self@, room_id).has_user(user_id))
                    } else {
                        None
                    },
                ),
                _ => ResponseView::InvalidRequest(request@),
            }),
    {
        match request {
            RequestType::CheckUserExist(room_id, user_id) => {
                match self.check_exist_user(&room_id, &user_id) {
                    Ok(present) => ResponseType::ResponseUserExist(Some(present)),
                    Err(_) => ResponseType::ResponseUserExist(None),
                }
            },
            other => ResponseType::InvalidRequest(other),
        }
    }
}

} // verus!

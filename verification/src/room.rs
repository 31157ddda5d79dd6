//! The room actor: authoritative state of one drawing session.
//!
//! A room owns its member list and its append-only figure log. Two entry
//! points mutate it: [`Room::join_user`], called synchronously by the join
//! handshake, and [`Room::handle_message`], which processes one mailbox
//! message; the host drains the mailbox strictly in order and performs the
//! returned deliveries. Delivering is outside the room: each returned
//! [`Delivery`] names the member that must receive the message.
//!
//! The whole behaviour is fixed by the ghost transition functions
//! [`spec_join`] and [`spec_handle`]; the executable methods are verified
//! to implement them exactly.

use vstd::prelude::*;

use crate::figure::FigureData;
use crate::message::clone_figures;
use crate::message::clone_user_ids;
use crate::message::id_views;
use crate::message::RequestType;
use crate::message::RequestView;
use crate::message::ResponseType;
use crate::message::ResponseView;
use crate::message::ServerMessage;
use crate::message::ServerMsgView;
use crate::seqs::lemma_distinct_index_unique;
use crate::seqs::lemma_push_keeps_distinct;
use crate::seqs::lemma_remove_one;

verus! {

/// One message on a room's mailbox.
#[derive(Debug, PartialEq)]
pub enum RoomMessage {
    LeaveUser(String),
    AddFigure(FigureData),
    RequestInfo(String, RequestType),
    NotifyMousePositionChanged(String, u64, u64),
}

/// Ghost mirror of [`RoomMessage`].
#[verifier::ext_equal]
pub enum RoomMsgView {
    LeaveUser(Seq<char>),
    AddFigure(FigureData),
    RequestInfo(Seq<char>, RequestView),
    NotifyMousePositionChanged(Seq<char>, u64, u64),
}

impl View for RoomMessage {
    type V = RoomMsgView;

    open spec fn view(&self) -> RoomMsgView {
        match self {
            RoomMessage::LeaveUser(user_id) => RoomMsgView::LeaveUser(user_id@),
            RoomMessage::AddFigure(figure) => RoomMsgView::AddFigure(*figure),
            RoomMessage::RequestInfo(user_id, request) => RoomMsgView::RequestInfo(
                user_id@,
                request@,
            ),
            RoomMessage::NotifyMousePositionChanged(user_id, x, y) => {
                RoomMsgView::NotifyMousePositionChanged(user_id@, *x, *y)
            },
        }
    }
}

/// One outbound message together with the member that must receive it.
#[derive(Debug, PartialEq)]
pub struct Delivery {
    pub target: String,
    pub message: ServerMessage,
}

/// Ghost mirror of [`Delivery`].
#[verifier::ext_equal]
pub struct DeliveryView {
    pub target: Seq<char>,
    pub message: ServerMsgView,
}

impl View for Delivery {
    type V = DeliveryView;

    open spec fn view(&self) -> DeliveryView {
        DeliveryView { target: self.target@, message: self.message@ }
    }
}

/// The ghost level of a delivery list.
pub open spec fn deliveries_view(deliveries: Seq<Delivery>) -> Seq<DeliveryView> {
    deliveries.map_values(|d: Delivery| d@)
}

/// One session: its identifier, current members and figure log.
pub struct Room {
    pub id: String,
    pub users: Vec<String>,
    pub figures: Vec<FigureData>,
}

/// Ghost state of a room.
#[verifier::ext_equal]
pub struct RoomView {
    pub id: Seq<char>,
    pub users: Seq<Seq<char>>,
    pub figures: Seq<FigureData>,
}

impl View for Room {
    type V = RoomView;

    open spec fn view(&self) -> RoomView {
        RoomView { id: self.id@, users: id_views(self.users@), figures: self.figures@ }
    }
}

impl RoomView {
    /// Member identifiers are unique within their room.
    pub open spec fn wf(self) -> bool {
        self.users.no_duplicates()
    }

    /// Whether `user_id` currently is a member.
    pub open spec fn has_user(self, user_id: Seq<char>) -> bool {
        self.users.contains(user_id)
    }
}

/// A room as it is created: no members, no figures.
pub open spec fn empty_room(id: Seq<char>) -> RoomView {
    RoomView { id: id, users: Seq::empty(), figures: Seq::empty() }
}

/// The position of a member in the room's list. Meaningful only when the
/// member is present; unique when the room is well formed.
pub open spec fn user_index(users: Seq<Seq<char>>, user_id: Seq<char>) -> int {
    choose|i: int| 0 <= i < users.len() && users[i] == user_id
}

/// One message to each of `targets`, in list order.
pub open spec fn deliver_each(targets: Seq<Seq<char>>, message: ServerMsgView) -> Seq<
    DeliveryView,
> {
    targets.map_values(|t: Seq<char>| DeliveryView { target: t, message: message })
}

/// What one room transition produces: the new state, the deliveries to
/// perform, and whether the room announced its own deletion (after which
/// its mailbox is never drained again).
#[verifier::ext_equal]
pub struct RoomStepView {
    pub room: RoomView,
    pub deliveries: Seq<DeliveryView>,
    pub delete_notice: bool,
}

/// Transition for a join: insert the member unless already present, then
/// announce the join to every current member, the new one included.
pub open spec fn spec_join(r: RoomView, user_id: Seq<char>) -> RoomStepView {
    let users = if r.has_user(user_id) {
        r.users
    } else {
        r.users.push(user_id)
    };
    RoomStepView {
        room: RoomView { id: r.id, users: users, figures: r.figures },
        deliveries: deliver_each(users, ServerMsgView::UserJoined(user_id)),
        delete_notice: false,
    }
}

/// Transition for one mailbox message.
///
/// - A leave of a member removes it; the last member's leave raises the
///   deletion notice, any other leave is announced to the remaining
///   members. A leave of an absent identifier changes nothing.
/// - A figure is appended to the log and announced to every member.
/// - An information request is answered to the requester alone, and only
///   while it is a member: the full figure log in submission order, or the
///   identifiers of all other members. Requests that belong to the
///   pre-flight HTTP channel are ignored here.
/// - A cursor notification goes to every member except its sender and is
///   not recorded.
pub open spec fn spec_handle(r: RoomView, message: RoomMsgView) -> RoomStepView {
    match message {
        RoomMsgView::LeaveUser(user_id) => {
            if !r.has_user(user_id) {
                RoomStepView { room: r, deliveries: Seq::empty(), delete_notice: false }
            } else {
                let users = r.users.remove(user_index(r.users, user_id));
                let room = RoomView { id: r.id, users: users, figures: r.figures };
                if users.len() == 0 {
                    RoomStepView { room: room, deliveries: Seq::empty(), delete_notice: true }
                } else {
                    RoomStepView {
                        room: room,
                        deliveries: deliver_each(users, ServerMsgView::UserLeft(user_id)),
                        delete_notice: false,
                    }
                }
            }
        },
        RoomMsgView::AddFigure(figure) => RoomStepView {
            room: RoomView { id: r.id, users: r.users, figures: r.figures.push(figure) },
            deliveries: deliver_each(r.users, ServerMsgView::FigureAdded(figure)),
            delete_notice: false,
        },
        RoomMsgView::RequestInfo(user_id, request) => RoomStepView {
            room: r,
            deliveries: spec_answer(r, user_id, request),
            delete_notice: false,
        },
        RoomMsgView::NotifyMousePositionChanged(user_id, x, y) => {
            let targets = if r.has_user(user_id) {
                r.users.remove(user_index(r.users, user_id))
            } else {
                r.users
            };
            RoomStepView {
                room: r,
                deliveries: deliver_each(
                    targets,
                    ServerMsgView::NotifyUserMousePositionChanged(user_id, x, y),
                ),
                delete_notice: false,
            }
        },
    }
}

/// The deliveries that answer one information request.
pub open spec fn spec_answer(r: RoomView, user_id: Seq<char>, request: RequestView) -> Seq<
    DeliveryView,
> {
    match request {
        RequestView::CurrentFigures => {
            if r.has_user(user_id) {
                seq![
                    DeliveryView {
                        target: user_id,
                        message: ServerMsgView::ResponseInfo(
                            ResponseView::CurrentFigures(r.figures),
                        ),
                    },
                ]
            } else {
                Seq::empty()
            }
        },
        RequestView::CurrentSharedUsers => {
            if r.has_user(user_id) {
                seq![
                    DeliveryView {
                        target: user_id,
                        message: ServerMsgView::ResponseInfo(
                            ResponseView::CurrentSharedUsers(
                                r.users.remove(user_index(r.users, user_id)),
                            ),
                        ),
                    },
                ]
            } else {
                Seq::empty()
            }
        },
        RequestView::CheckRoomExist(_) => Seq::empty(),
        RequestView::CheckUserExist(_, _) => Seq::empty(),
    }
}

impl Room {
    /// A fresh room with the given identifier and no members or figures.
    pub fn new(id: String) -> (room: Room)
        ensures
            room@ == empty_room(id@),
            room@.wf(),
    {
        let room = Room { id: id, users: Vec::new(), figures: Vec::new() };
        proof {
            assert(room@ =~~= empty_room(room.id@));
        }
        room
    }

    /// The position of a member in the list, when present.
    fn find_user(&self, user_id: &String) -> (found: Option<usize>)
        ensures
            match found {
                Some(ix) => ix < self.users@.len() && id_views(self.users@)[ix as int]
                    == user_id@,
                None => !self@.has_user(user_id@),
            },
    {
        let mut i: usize = 0;
        while i < self.users.len()
            invariant
                i <= self.users.len(),
                forall|j: int| 0 <= j < i ==> id_views(self.users@)[j] != user_id@,
            decreases self.users.len() - i,
        {
            if self.users[i].eq(user_id) {
                return Some(i);
            }
            i += 1;
        }
        proof {
            assert forall|j: int|
                0 <= j < self.users@.len() implies id_views(self.users@)[j] != user_id@ by {}
            assert(!self@.has_user(user_id@)) by {
                if id_views(self.users@).contains(user_id@) {
                    let j = choose|j: int|
                        0 <= j < id_views(self.users@).len() && id_views(self.users@)[j]
                            == user_id@;
                }
            }
        }
        None
    }

    /// Whether `user_id` currently is a member.
    pub fn check_exist_user(&self, user_id: &String) -> (present: bool)
        ensures
            present == self@.has_user(user_id@),
    {
        let found = self.find_user(user_id);
        proof {
            if found is Some {
                assert(id_views(self.users@).contains(user_id@));
            }
        }
        found.is_some()
    }

    /// Insert a member and announce the join to all members, the new one
    /// included. Exactly [`spec_join`].
    pub fn join_user(&mut self, user_id: String) -> (deliveries: Vec<Delivery>)
        requires
            old(self)@.wf(),
        ensures
            final(self)@.wf(),
            final(self)@ == spec_join(old(self)@, user_id@).room,
            deliveries_view(deliveries@) == spec_join(old(self)@, user_id@).deliveries,
    {
        let present = self.check_exist_user(&user_id);
        if !present {
            let ghost before = id_views(self.users@);
            self.users.push(user_id.clone());
            proof {
                assert(id_views(self.users@) =~= before.push(user_id@));
                lemma_push_keeps_distinct(before, user_id@);
            }
        }
        let message = ServerMessage::UserJoined(user_id);
        broadcast_deliveries(&self.users, &message)
    }

    /// Process one mailbox message. Exactly [`spec_handle`]: the returned
    /// pair holds the deliveries to perform and whether the room announced
    /// its own deletion.
    pub fn handle_message(&mut self, message: RoomMessage) -> (outcome: (Vec<Delivery>, bool))
        requires
            old(self)@.wf(),
        ensures
            final(self)@.wf(),
            final(self)@ == spec_handle(old(self)@, message@).room,
            deliveries_view(outcome.0@) == spec_handle(old(self)@, message@).deliveries,
            outcome.1 == spec_handle(old(self)@, message@).delete_notice,
    {
        match message {
            RoomMessage::LeaveUser(user_id) => {
                match self.find_user(&user_id) {
                    None => {
                        proof {
                            assert(deliveries_view(Seq::<Delivery>::empty())
                                =~= Seq::<DeliveryView>::empty());
                        }
                        (Vec::new(), false)
                    },
                    Some(ix) => {
                        let ghost before = id_views(self.users@);
                        proof {
                            assert(before.contains(user_id@));
                            lemma_distinct_index_unique(
                                before,
                                ix as int,
                                user_index(before, user_id@),
                            );
                            lemma_remove_one(before, ix as int);
                        }
                        self.users.remove(ix);
                        proof {
                            assert(id_views(self.users@) =~= before.remove(ix as int));
                        }
                        if self.users.len() == 0 {
                            proof {
                                assert(deliveries_view(Seq::<Delivery>::empty())
                                    =~= Seq::<DeliveryView>::empty());
                            }
                            (Vec::new(), true)
                        } else {
                            let message = ServerMessage::UserLeft(user_id);
                            (broadcast_deliveries(&self.users, &message), false)
                        }
                    },
                }
            },
            RoomMessage::AddFigure(figure) => {
                self.figures.push(figure);
                let message = ServerMessage::FigureAdded(figure);
                (broadcast_deliveries(&self.users, &message), false)
            },
            RoomMessage::RequestInfo(user_id, request) => {
                let deliveries = self.answer_request(user_id, request);
                (deliveries, false)
            },
            RoomMessage::NotifyMousePositionChanged(user_id, x, y) => {
                let targets = match self.find_user(&user_id) {
                    Some(ix) => {
                        proof {
                            let ghost users = id_views(self.users@);
                            assert(users.contains(user_id@));
                            lemma_distinct_index_unique(
                                users,
                                ix as int,
                                user_index(users, user_id@),
                            );
                        }
                        copy_users_except(&self.users, ix)
                    },
                    None => clone_user_ids(&self.users),
                };
                let message = ServerMessage::NotifyUserMousePositionChanged(user_id, x, y);
                (broadcast_deliveries(&targets, &message), false)
            },
        }
    }

    /// Answer one information request; deliveries go to the requester only.
    fn answer_request(&self, user_id: String, request: RequestType) -> (deliveries: Vec<
        Delivery,
    >)
        requires
            self@.wf(),
        ensures
            deliveries_view(deliveries@) == spec_answer(self@, user_id@, request@),
    {
        let mut deliveries: Vec<Delivery> = Vec::new();
        match request {
            RequestType::CurrentFigures => {
                if self.find_user(&user_id).is_some() {
                    proof {
                        assert(id_views(self.users@).contains(user_id@));
                    }
                    let message = ServerMessage::ResponseInfo(
                        ResponseType::CurrentFigures(clone_figures(&self.figures)),
                    );
                    deliveries.push(Delivery { target: user_id, message: message });
                }
            },
            RequestType::CurrentSharedUsers => {
                match self.find_user(&user_id) {
                    Some(ix) => {
                        proof {
                            let ghost users = id_views(self.users@);
                            assert(users.contains(user_id@));
                            lemma_distinct_index_unique(
                                users,
                                ix as int,
                                user_index(users, user_id@),
                            );
                        }
                        let others = copy_users_except(&self.users, ix);
                        let message = ServerMessage::ResponseInfo(
                            ResponseType::CurrentSharedUsers(others),
                        );
                        deliveries.push(Delivery { target: user_id, message: message });
                    },
                    None => {},
                }
            },
            RequestType::CheckRoomExist(_) => {},
            RequestType::CheckUserExist(_, _) => {},
        }
        proof {
            assert(deliveries_view(deliveries@) =~= spec_answer(self@, user_id@, request@));
        }
        deliveries
    }
}

/// One copy of `message` addressed to each listed member, in list order.
fn broadcast_deliveries(users: &Vec<String>, message: &ServerMessage) -> (out: Vec<Delivery>)
    ensures
        deliveries_view(out@) == deliver_each(id_views(users@), message@),
{
    let mut out: Vec<Delivery> = Vec::new();
    let mut i: usize = 0;
    while i < users.len()
        invariant
            i <= users.len(),
            out@.len() == i,
            forall|j: int|
                0 <= j < i ==> (#[trigger] out@[j])@ == (DeliveryView {
                    target: id_views(users@)[j],
                    message: message@,
                }),
        decreases users.len() - i,
    {
        out.push(
            Delivery { target: users[i].clone(), message: crate::message::clone_server_message(message) },
        );
        i += 1;
    }
    proof {
        assert(deliveries_view(out@) =~= deliver_each(id_views(users@), message@));
    }
    out
}

/// Copies of every member identifier but the one at `skip`, in list order.
fn copy_users_except(users: &Vec<String>, skip: usize) -> (out: Vec<String>)
    requires
        skip < users@.len(),
    ensures
        id_views(out@) == id_views(users@).remove(skip as int),
{
    let mut out: Vec<String> = Vec::new();
    let mut i: usize = 0;
    while i < users.len()
        invariant
            i <= users.len(),
            skip < users@.len(),
            out@.len() == if i <= skip {
                i as int
            } else {
                i - 1
            },
            forall|j: int|
                0 <= j < out@.len() ==> (#[trigger] out@[j])@ == (if j < skip {
                    id_views(users@)[j]
                } else {
                    id_views(users@)[j + 1]
                }),
        decreases users.len() - i,
    {
        if i != skip {
            out.push(users[i].clone());
        }
        i += 1;
    }
    proof {
        assert(id_views(out@) =~= id_views(users@).remove(skip as int));
    }
    out
}

} // verus!

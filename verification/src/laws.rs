//! Laws of the room and registry transition systems.
//!
//! A room's lifetime is a sequence of events: synchronous joins and
//! mailbox messages, drained strictly in order. These proof functions state
//! what holds over every such sequence: the figure log accumulates exactly
//! the accepted figures, the member set tracks joins and leaves, a
//! processed deletion really removes the room, and cursor notifications
//! reach everyone but their sender and are never replayed.

use vstd::prelude::*;

use crate::figure::FigureData;
use crate::message::RequestView;
use crate::message::ResponseView;
use crate::message::ServerMsgView;
use crate::room::spec_handle;
use crate::room::spec_join;
use crate::room::user_index;
use crate::room::DeliveryView;
use crate::room::RoomMsgView;
use crate::room::RoomStepView;
use crate::room::RoomView;
use crate::seqs::lemma_distinct_index_unique;
use crate::seqs::lemma_push_keeps_distinct;
use crate::seqs::lemma_remove_one;
use crate::server::has_room;
use crate::server::registry_wf;
use crate::server::room_ids;
use crate::server::room_index;
use crate::server::spec_delete;

verus! {

/// One event in a room's life: a synchronous join, or one mailbox message.
pub enum RoomEvent {
    Joined(Seq<char>),
    Mailbox(RoomMsgView),
}

/// The transition one event causes.
pub open spec fn apply_event(r: RoomView, event: RoomEvent) -> RoomStepView {
    match event {
        RoomEvent::Joined(user_id) => spec_join(r, user_id),
        RoomEvent::Mailbox(message) => spec_handle(r, message),
    }
}

/// The room state after a whole sequence of events, processed in order.
pub open spec fn apply_events(r: RoomView, events: Seq<RoomEvent>) -> RoomView
    decreases events.len(),
{
    if events.len() == 0 {
        r
    } else {
        apply_events(apply_event(r, events[0]).room, events.drop_first())
    }
}

/// Processing a sequence and then one more event is processing the
/// extended sequence.
pub proof fn lemma_apply_events_snoc(r: RoomView, events: Seq<RoomEvent>, event: RoomEvent)
    ensures
        apply_events(r, events.push(event)) == apply_event(apply_events(r, events), event).room,
    decreases events.len(),
{
    if events.len() == 0 {
        let stepped = apply_event(r, event).room;
        assert(events.push(event)[0] == event);
        assert(events.push(event).drop_first() =~= Seq::<RoomEvent>::empty());
        assert(apply_events(stepped, Seq::<RoomEvent>::empty()) == stepped);
        assert(apply_events(r, events) == r);
    } else {
        let inner = apply_event(r, events[0]).room;
        assert(events.push(event)[0] == events[0]);
        assert(events.push(event).drop_first() =~= events.drop_first().push(event));
        lemma_apply_events_snoc(inner, events.drop_first(), event);
        assert(apply_events(r, events.push(event)) == apply_events(
            inner,
            events.drop_first().push(event),
        ));
        assert(apply_events(r, events) == apply_events(inner, events.drop_first()));
    }
}

/// No event duplicates a member identifier.
pub proof fn lemma_event_keeps_wf(r: RoomView, event: RoomEvent)
    requires
        r.wf(),
    ensures
        apply_event(r, event).room.wf(),
{
    match event {
        RoomEvent::Joined(user_id) => {
            if !r.has_user(user_id) {
                lemma_push_keeps_distinct(r.users, user_id);
            }
        },
        RoomEvent::Mailbox(message) => {
            match message {
                RoomMsgView::LeaveUser(user_id) => {
                    if r.has_user(user_id) {
                        lemma_remove_one(r.users, user_index(r.users, user_id));
                    }
                },
                _ => {},
            }
        },
    }
}

/// No sequence of events duplicates a member identifier.
pub proof fn lemma_events_keep_wf(r: RoomView, events: Seq<RoomEvent>)
    requires
        r.wf(),
    ensures
        apply_events(r, events).wf(),
    decreases events.len(),
{
    if events.len() > 0 {
        lemma_event_keeps_wf(r, events[0]);
        lemma_events_keep_wf(apply_event(r, events[0]).room, events.drop_first());
    }
}

/// The figures accepted in a sequence of events, in submission order.
pub open spec fn added_figures(events: Seq<RoomEvent>) -> Seq<FigureData>
    decreases events.len(),
{
    if events.len() == 0 {
        Seq::empty()
    } else {
        let rest = added_figures(events.drop_first());
        match events[0] {
            RoomEvent::Mailbox(RoomMsgView::AddFigure(figure)) => seq![figure] + rest,
            _ => rest,
        }
    }
}

/// Law: after any sequence of events, the figure log is exactly the old
/// log followed by the accepted figures in submission order — nothing
/// lost, duplicated or reordered, whatever other events interleave.
pub proof fn lemma_figure_log_exact(r: RoomView, events: Seq<RoomEvent>)
    ensures
        apply_events(r, events).figures == r.figures + added_figures(events),
    decreases events.len(),
{
    if events.len() == 0 {
        assert(r.figures + added_figures(events) =~= r.figures);
    } else {
        let step = apply_event(r, events[0]);
        lemma_figure_log_exact(step.room, events.drop_first());
        let rest = added_figures(events.drop_first());
        match events[0] {
            RoomEvent::Mailbox(RoomMsgView::AddFigure(figure)) => {
                assert(step.room.figures == r.figures.push(figure));
                assert(r.figures.push(figure) + rest =~= r.figures + (seq![figure] + rest));
            },
            _ => {
                assert(step.room.figures == r.figures);
            },
        }
    }
}

/// Law: however a room's history went, a member who joins afterwards and
/// asks for the current figures is answered with exactly the accumulated
/// log, in one delivery, addressed to that member alone.
pub proof fn lemma_later_joiner_replay(r: RoomView, events: Seq<RoomEvent>, user_id: Seq<char>)
    ensures
        ({
            let joined = spec_join(apply_events(r, events), user_id).room;
            let request = RoomMsgView::RequestInfo(user_id, RequestView::CurrentFigures);
            spec_handle(joined, request).deliveries == seq![
                DeliveryView {
                    target: user_id,
                    message: ServerMsgView::ResponseInfo(
                        ResponseView::CurrentFigures(r.figures + added_figures(events)),
                    ),
                },
            ]
        }),
{
    lemma_figure_log_exact(r, events);
    let grown = apply_events(r, events);
    let joined = spec_join(grown, user_id).room;
    assert(joined.has_user(user_id)) by {
        if !grown.has_user(user_id) {
            assert(joined.users[joined.users.len() - 1] == user_id);
        }
    }
}

/// The identifiers that joined during a sequence of events.
pub open spec fn joined_ids(events: Seq<RoomEvent>) -> Set<Seq<char>>
    decreases events.len(),
{
    if events.len() == 0 {
        Set::empty()
    } else {
        let rest = joined_ids(events.drop_last());
        match events.last() {
            RoomEvent::Joined(user_id) => rest.insert(user_id),
            _ => rest,
        }
    }
}

/// The identifiers that left during a sequence of events.
pub open spec fn left_ids(events: Seq<RoomEvent>) -> Set<Seq<char>>
    decreases events.len(),
{
    if events.len() == 0 {
        Set::empty()
    } else {
        let rest = left_ids(events.drop_last());
        match events.last() {
            RoomEvent::Mailbox(RoomMsgView::LeaveUser(user_id)) => rest.insert(user_id),
            _ => rest,
        }
    }
}

/// Whether this event is a join of this identifier.
pub open spec fn is_join_of(event: RoomEvent, user_id: Seq<char>) -> bool {
    event matches RoomEvent::Joined(u) && u == user_id
}

/// Whether this event is a leave of this identifier.
pub open spec fn is_leave_of(event: RoomEvent, user_id: Seq<char>) -> bool {
    event matches RoomEvent::Mailbox(RoomMsgView::LeaveUser(u)) && u == user_id
}

/// No identifier joins again after a leave of it.
pub open spec fn no_rejoin(events: Seq<RoomEvent>) -> bool {
    forall|i: int, j: int, user_id: Seq<char>|
        0 <= i < j < events.len() && #[trigger] is_leave_of(events[i], user_id) ==> !(
        #[trigger] is_join_of(events[j], user_id))
}

/// What the joined and left sets contain: exactly the identifiers with a
/// join, or a leave, somewhere in the sequence.
pub proof fn lemma_id_sets_membership(events: Seq<RoomEvent>)
    ensures
        forall|u: Seq<char>|
            #[trigger] joined_ids(events).contains(u) <==> exists|i: int|
                0 <= i < events.len() && #[trigger] is_join_of(events[i], u),
        forall|u: Seq<char>|
            #[trigger] left_ids(events).contains(u) <==> exists|i: int|
                0 <= i < events.len() && #[trigger] is_leave_of(events[i], u),
    decreases events.len(),
{
    if events.len() > 0 {
        let front = events.drop_last();
        lemma_id_sets_membership(front);
        assert forall|u: Seq<char>| #[trigger] joined_ids(events).contains(u) implies exists|
            i: int,
        | 0 <= i < events.len() && #[trigger] is_join_of(events[i], u) by {
            if joined_ids(front).contains(u) {
                let i = choose|i: int| 0 <= i < front.len() && #[trigger] is_join_of(front[i], u);
                assert(is_join_of(events[i], u));
            } else {
                assert(is_join_of(events[events.len() - 1], u));
            }
        }
        assert forall|u: Seq<char>|
            (exists|i: int| 0 <= i < events.len() && #[trigger] is_join_of(events[i], u)) implies
            #[trigger] joined_ids(events).contains(u) by {
            let i = choose|i: int| 0 <= i < events.len() && #[trigger] is_join_of(events[i], u);
            if i < events.len() - 1 {
                assert(is_join_of(front[i], u));
                assert(joined_ids(front).contains(u));
            } else {
                assert(events[i] == events.last());
            }
        }
        assert forall|u: Seq<char>| #[trigger] left_ids(events).contains(u) implies exists|i: int|
            0 <= i < events.len() && #[trigger] is_leave_of(events[i], u) by {
            if left_ids(front).contains(u) {
                let i = choose|i: int| 0 <= i < front.len() && #[trigger] is_leave_of(front[i], u);
                assert(is_leave_of(events[i], u));
            } else {
                assert(is_leave_of(events[events.len() - 1], u));
            }
        }
        assert forall|u: Seq<char>|
            (exists|i: int| 0 <= i < events.len() && #[trigger] is_leave_of(events[i], u)) implies
            #[trigger] left_ids(events).contains(u) by {
            let i = choose|i: int| 0 <= i < events.len() && #[trigger] is_leave_of(events[i], u);
            if i < events.len() - 1 {
                assert(is_leave_of(front[i], u));
                assert(left_ids(front).contains(u));
            } else {
                assert(events[i] == events.last());
            }
        }
    }
}

/// Law: starting from an empty room, and as long as no identifier rejoins
/// after leaving, the member set is always exactly the identifiers that
/// joined minus those that left. In particular a repeated leave of an
/// already absent identifier changes nothing (see also
/// [`lemma_leave_absent_noop`]).
pub proof fn lemma_member_set(r: RoomView, events: Seq<RoomEvent>)
    requires
        r.users == Seq::<Seq<char>>::empty(),
        no_rejoin(events),
    ensures
        apply_events(r, events).users.to_set() == joined_ids(events).difference(left_ids(events)),
    decreases events.len(),
{
    if events.len() == 0 {
        assert(apply_events(r, events).users.to_set() =~= joined_ids(events).difference(
            left_ids(events),
        ));
    } else {
        let front = events.drop_last();
        let event = events.last();
        assert(no_rejoin(front)) by {
            assert(forall|i: int| 0 <= i < front.len() ==> front[i] == events[i]);
        }
        lemma_member_set(r, front);
        assert(front.push(event) =~= events);
        lemma_apply_events_snoc(r, front, event);
        lemma_events_keep_wf(r, front);
        lemma_id_sets_membership(front);
        let state = apply_events(r, front);
        let members = state.users;
        let joined = joined_ids(front);
        let left = left_ids(front);
        let grown = apply_events(r, events);
        match event {
            RoomEvent::Joined(user_id) => {
                assert(joined_ids(events) == joined.insert(user_id));
                assert(left_ids(events) == left);
                assert(!left.contains(user_id)) by {
                    if left.contains(user_id) {
                        let i = choose|i: int|
                            0 <= i < front.len() && #[trigger] is_leave_of(front[i], user_id);
                        assert(is_leave_of(events[i], user_id));
                        assert(is_join_of(events[events.len() - 1], user_id));
                    }
                }
                if state.has_user(user_id) {
                    assert(grown.users == members);
                    assert(members.to_set().contains(user_id));
                    assert(grown.users.to_set() =~= joined.insert(user_id).difference(left));
                } else {
                    assert(grown.users == members.push(user_id));
                    assert(grown.users.to_set() =~= members.to_set().insert(user_id)) by {
                        assert forall|x: Seq<char>|
                            #[trigger] members.push(user_id).contains(x) implies members.contains(
                            x,
                        ) || x == user_id by {
                            let i = choose|i: int|
                                0 <= i < members.push(user_id).len() && members.push(user_id)[i]
                                    == x;
                            if i < members.len() {
                                assert(members[i] == x);
                            }
                        }
                        assert forall|x: Seq<char>| members.contains(x) implies members.push(
                            user_id,
                        ).contains(x) by {
                            let i = choose|i: int| 0 <= i < members.len() && members[i] == x;
                            assert(members.push(user_id)[i] == x);
                        }
                        assert(members.push(user_id)[members.len() as int] == user_id);
                    }
                    assert(members.to_set().insert(user_id) =~= joined.insert(user_id).difference(
                        left,
                    ));
                }
            },
            RoomEvent::Mailbox(message) => {
                match message {
                    RoomMsgView::LeaveUser(user_id) => {
                        assert(joined_ids(events) == joined);
                        assert(left_ids(events) == left.insert(user_id));
                        if state.has_user(user_id) {
                            let ix = user_index(members, user_id);
                            lemma_remove_one(members, ix);
                            assert(grown.users == members.remove(ix));
                            assert(grown.users.to_set() =~= members.to_set().remove(user_id)) by {
                                assert(members[ix] == user_id);
                            }
                            assert(members.to_set().remove(user_id) =~= joined.difference(
                                left.insert(user_id),
                            ));
                        } else {
                            assert(grown.users == members);
                            assert(!members.to_set().contains(user_id));
                            assert(members.to_set() =~= joined.difference(left.insert(user_id)));
                        }
                    },
                    RoomMsgView::AddFigure(_) => {
                        assert(grown.users == members);
                        assert(joined_ids(events) == joined);
                        assert(left_ids(events) == left);
                    },
                    RoomMsgView::RequestInfo(_, _) => {
                        assert(grown.users == members);
                        assert(joined_ids(events) == joined);
                        assert(left_ids(events) == left);
                    },
                    RoomMsgView::NotifyMousePositionChanged(_, _, _) => {
                        assert(grown.users == members);
                        assert(joined_ids(events) == joined);
                        assert(left_ids(events) == left);
                    },
                }
            },
        }
    }
}

/// Law: a leave of an identifier that is not a member is a no-op — the
/// state is unchanged, nothing is delivered, no deletion is announced.
pub proof fn lemma_leave_absent_noop(r: RoomView, user_id: Seq<char>)
    requires
        !r.has_user(user_id),
    ensures
        spec_handle(r, RoomMsgView::LeaveUser(user_id)) == (RoomStepView {
            room: r,
            deliveries: Seq::empty(),
            delete_notice: false,
        }),
{
    assert(spec_handle(r, RoomMsgView::LeaveUser(user_id)) =~~= RoomStepView {
        room: r,
        deliveries: Seq::empty(),
        delete_notice: false,
    });
}

/// Law: once the registry has processed a room's deletion notice, an
/// existence check for that identifier is false — so, by the contract of
/// `ServerApp::make_room`, a create for the same identifier then succeeds.
pub proof fn lemma_deleted_room_gone(rooms: Seq<RoomView>, room_id: Seq<char>)
    requires
        registry_wf(rooms),
    ensures
        !has_room(spec_delete(rooms, room_id), room_id),
{
    if has_room(rooms, room_id) {
        let ix = room_index(rooms, room_id);
        let remaining = spec_delete(rooms, room_id);
        assert(remaining == rooms.remove(ix));
        if has_room(remaining, room_id) {
            let j = choose|j: int| 0 <= j < remaining.len() && remaining[j].id == room_id;
            if j < ix {
                assert(room_ids(rooms)[j] == room_id);
                lemma_distinct_index_unique(room_ids(rooms), j, ix);
            } else {
                assert(room_ids(rooms)[j + 1] == room_id);
                lemma_distinct_index_unique(room_ids(rooms), j + 1, ix);
            }
        }
    }
}

/// Law: a cursor notification changes no state — so it can never be
/// replayed to a later joiner — and it is delivered to exactly the members
/// other than its sender, each once, always carrying the sender's identity
/// and position.
pub proof fn lemma_mouse_position(r: RoomView, user_id: Seq<char>, x: u64, y: u64)
    requires
        r.wf(),
    ensures
        ({
            let step = spec_handle(r, RoomMsgView::NotifyMousePositionChanged(user_id, x, y));
            &&& step.room == r
            &&& step.delete_notice == false
            &&& forall|i: int|
                0 <= i < step.deliveries.len() ==> (#[trigger] step.deliveries[i]).target
                    != user_id
            &&& forall|i: int|
                0 <= i < step.deliveries.len() ==> (#[trigger] step.deliveries[i]).message
                    == ServerMsgView::NotifyUserMousePositionChanged(user_id, x, y)
            &&& forall|i: int, j: int|
                0 <= i < j < step.deliveries.len() ==> (#[trigger] step.deliveries[i]).target != (
                #[trigger] step.deliveries[j]).target
            &&& forall|target: Seq<char>|
                (exists|i: int|
                    0 <= i < step.deliveries.len() && (#[trigger] step.deliveries[i]).target
                        == target) <==> r.users.contains(target) && target != user_id
        }),
{
    let step = spec_handle(r, RoomMsgView::NotifyMousePositionChanged(user_id, x, y));
    let targets = if r.has_user(user_id) {
        r.users.remove(user_index(r.users, user_id))
    } else {
        r.users
    };
    if r.has_user(user_id) {
        lemma_remove_one(r.users, user_index(r.users, user_id));
        assert(r.users[user_index(r.users, user_id)] == user_id);
    }
    assert(targets.no_duplicates());
    assert(forall|v: Seq<char>|
        #[trigger] targets.contains(v) <==> r.users.contains(v) && v != user_id);
    assert forall|i: int|
        0 <= i < step.deliveries.len() implies (#[trigger] step.deliveries[i]).target
        != user_id by {
        assert(step.deliveries[i].target == targets[i]);
        assert(targets.contains(targets[i]));
    }
    assert forall|target: Seq<char>| r.users.contains(target) && target != user_id implies exists|
        i: int,
    | 0 <= i < step.deliveries.len() && (#[trigger] step.deliveries[i]).target == target by {
        assert(targets.contains(target));
        let i = choose|i: int| 0 <= i < targets.len() && targets[i] == target;
        assert(step.deliveries[i].target == target);
    }
    assert forall|target: Seq<char>|
        (exists|i: int|
            0 <= i < step.deliveries.len() && (#[trigger] step.deliveries[i]).target
                == target) implies r.users.contains(target) && target != user_id by {
        let i = choose|i: int|
            0 <= i < step.deliveries.len() && (#[trigger] step.deliveries[i]).target == target;
        assert(targets.contains(targets[i]));
    }
}

/// Law: no event other than a cursor notification ever delivers a cursor
/// message — together with [`lemma_mouse_position`], a notification is
/// seen only by the members present when it was sent, its sender excepted.
pub proof fn lemma_mouse_never_replayed(r: RoomView, event: RoomEvent)
    requires
        !(event matches RoomEvent::Mailbox(RoomMsgView::NotifyMousePositionChanged(_, _, _))),
    ensures
        forall|i: int|
            0 <= i < apply_event(r, event).deliveries.len() ==> !((
            #[trigger] apply_event(r, event).deliveries[i]).message matches
                ServerMsgView::NotifyUserMousePositionChanged(_, _, _)),
{
    let step = apply_event(r, event);
    match event {
        RoomEvent::Joined(user_id) => {
            assert forall|i: int| 0 <= i < step.deliveries.len() implies !((
            #[trigger] step.deliveries[i]).message matches
                ServerMsgView::NotifyUserMousePositionChanged(_, _, _)) by {
                assert(step.deliveries[i].message == ServerMsgView::UserJoined(user_id));
            }
        },
        RoomEvent::Mailbox(message) => {
            match message {
                RoomMsgView::LeaveUser(user_id) => {
                    assert forall|i: int| 0 <= i < step.deliveries.len() implies !((
                    #[trigger] step.deliveries[i]).message matches
                        ServerMsgView::NotifyUserMousePositionChanged(_, _, _)) by {
                        assert(step.deliveries[i].message == ServerMsgView::UserLeft(user_id));
                    }
                },
                RoomMsgView::AddFigure(figure) => {
                    assert forall|i: int| 0 <= i < step.deliveries.len() implies !((
                    #[trigger] step.deliveries[i]).message matches
                        ServerMsgView::NotifyUserMousePositionChanged(_, _, _)) by {
                        assert(step.deliveries[i].message == ServerMsgView::FigureAdded(figure));
                    }
                },
                RoomMsgView::RequestInfo(_, _) => {
                    assert forall|i: int| 0 <= i < step.deliveries.len() implies !((
                    #[trigger] step.deliveries[i]).message matches
                        ServerMsgView::NotifyUserMousePositionChanged(_, _, _)) by {
                        assert(step.deliveries[i].message matches ServerMsgView::ResponseInfo(_));
                    }
                },
                RoomMsgView::NotifyMousePositionChanged(_, _, _) => {},
            }
        },
    }
}

} // verus!

//! The incremental state-synchronization engine. A sync payload is one
//! decoded partial server snapshot: the joined rooms it reports (each with
//! timeline and membership events and an optional unread counter), the
//! invited room identifiers, and the continuation token. `apply_sync`
//! folds one payload into the state store; the spec functions beside it
//! say exactly what the fold produces.

use vstd::prelude::*;
use vstd::string::*;
use crate::client::{
    DataHolder, HolderView, Message, MessageView, RoomData, RoomView, UserData, UserView,
    find_room, find_user, first_index, lemma_first_index, lemma_first_index_at, room_ids, user_ids,
};
use crate::text::{contains_str, str_eq};

verus! {

/// One timeline event of a sync payload, reduced to the fields the engine
/// reads. A field the payload lacked is carried as the empty string.
pub struct TimelineEvent {
    pub event_type: String,
    pub msgtype: String,
    pub body: String,
    pub sender: String,
}

/// The mathematical value of a [`TimelineEvent`].
#[verifier::ext_equal]
pub struct TimelineEventView {
    pub event_type: Seq<char>,
    pub msgtype: Seq<char>,
    pub body: Seq<char>,
    pub sender: Seq<char>,
}

impl View for TimelineEvent {
    type V = TimelineEventView;

    open spec fn view(&self) -> TimelineEventView {
        TimelineEventView {
            event_type: self.event_type@,
            msgtype: self.msgtype@,
            body: self.body@,
            sender: self.sender@,
        }
    }
}

/// One state event of a sync payload, reduced to the fields the engine
/// reads. The display name is optional in the wire format.
pub struct StateEvent {
    pub event_type: String,
    pub membership: String,
    pub displayname: Option<String>,
    pub sender: String,
}

/// The mathematical value of a [`StateEvent`].
#[verifier::ext_equal]
pub struct StateEventView {
    pub event_type: Seq<char>,
    pub membership: Seq<char>,
    pub displayname: Option<Seq<char>>,
    pub sender: Seq<char>,
}

impl View for StateEvent {
    type V = StateEventView;

    open spec fn view(&self) -> StateEventView {
        StateEventView {
            event_type: self.event_type@,
            membership: self.membership@,
            displayname: match self.displayname {
                Option::Some(s) => Option::Some(s@),
                Option::None => Option::None,
            },
            sender: self.sender@,
        }
    }
}

/// One joined room of a sync payload: its identifier, the notification
/// counter if the payload carried one, and its timeline and state events.
pub struct JoinedRoomSync {
    pub room_id: String,
    pub notification_count: Option<u32>,
    pub timeline: Vec<TimelineEvent>,
    pub state: Vec<StateEvent>,
}

/// The mathematical value of a [`JoinedRoomSync`].
#[verifier::ext_equal]
pub struct JoinedRoomView {
    pub room_id: Seq<char>,
    pub notification_count: Option<u32>,
    pub timeline: Seq<TimelineEventView>,
    pub state: Seq<StateEventView>,
}

impl View for JoinedRoomSync {
    type V = JoinedRoomView;

    open spec fn view(&self) -> JoinedRoomView {
        JoinedRoomView {
            room_id: self.room_id@,
            notification_count: self.notification_count,
            timeline: self.timeline@.map_values(|e: TimelineEvent| e@),
            state: self.state@.map_values(|e: StateEvent| e@),
        }
    }
}

/// One decoded sync payload.
pub struct SyncPayload {
    pub joined: Vec<JoinedRoomSync>,
    pub invited: Vec<String>,
    pub next_batch: String,
}

/// The mathematical value of a [`SyncPayload`].
#[verifier::ext_equal]
pub struct SyncPayloadView {
    pub joined: Seq<JoinedRoomView>,
    pub invited: Seq<Seq<char>>,
    pub next_batch: Seq<char>,
}

impl View for SyncPayload {
    type V = SyncPayloadView;

    open spec fn view(&self) -> SyncPayloadView {
        SyncPayloadView {
            joined: self.joined@.map_values(|r: JoinedRoomSync| r@),
            invited: self.invited@.map_values(|s: String| s@),
            next_batch: self.next_batch@,
        }
    }
}

/// Whether a timeline event is a text message.
pub open spec fn is_text_event(e: TimelineEventView) -> bool {
    e.event_type == "m.room.message"@ && e.msgtype == "m.text"@
}

/// Whether a state event reports a joined membership.
pub open spec fn is_join_event(e: StateEventView) -> bool {
    e.event_type == "m.room.member"@ && e.membership == "join"@
}

/// The display name a membership event resolves to: the event's display
/// name, or the member's identifier when the payload carried none.
pub open spec fn displayname_or_id(e: StateEventView) -> Seq<char> {
    match e.displayname {
        Option::Some(n) => n,
        Option::None => e.sender,
    }
}

/// The unread counter a joined-room report carries, zero when absent.
pub open spec fn unread_of(jr: JoinedRoomView) -> u32 {
    match jr.notification_count {
        Option::Some(n) => n,
        Option::None => 0u32,
    }
}

/// The messages that a timeline appends to the room `room_id`: one per
/// text-message event, in timeline order.
pub open spec fn new_messages(room_id: Seq<char>, timeline: Seq<TimelineEventView>) -> Seq<
    MessageView,
>
    decreases timeline.len(),
{
    if timeline.len() == 0 {
        Seq::empty()
    } else {
        new_messages(room_id, timeline.drop_last()) + if is_text_event(timeline.last()) {
            seq![
                MessageView {
                    sender: timeline.last().sender,
                    room: room_id,
                    content: timeline.last().body,
                    msgtype: "text"@,
                },
            ]
        } else {
            Seq::empty()
        }
    }
}

/// What one state event does to a member list: a joined membership whose
/// sender is not yet listed is appended, everything else changes nothing.
pub open spec fn member_step(members: Seq<Seq<char>>, e: StateEventView) -> Seq<Seq<char>> {
    if is_join_event(e) && !members.contains(e.sender) {
        members.push(e.sender)
    } else {
        members
    }
}

/// The member list after folding a whole state-event sequence.
pub open spec fn apply_members(members: Seq<Seq<char>>, state: Seq<StateEventView>) -> Seq<
    Seq<char>,
>
    decreases state.len(),
{
    if state.len() == 0 {
        members
    } else {
        member_step(apply_members(members, state.drop_last()), state.last())
    }
}

/// What one state event does to the user store for the room `room_id`:
/// a joined membership creates an unseen user (named by the event, offline,
/// member of this room), or adds the room to a known user's room list if
/// it is not already there.
pub open spec fn user_step(users: Seq<UserView>, e: StateEventView, room_id: Seq<char>) -> Seq<
    UserView,
> {
    if !is_join_event(e) {
        users
    } else {
        let i = first_index(user_ids(users), e.sender);
        if i == -1 {
            users.push(
                UserView {
                    id: e.sender,
                    name: displayname_or_id(e),
                    is_online: false,
                    rooms: seq![room_id],
                },
            )
        } else if !users[i].rooms.contains(room_id) {
            users.update(i, UserView { rooms: users[i].rooms.push(room_id), ..users[i] })
        } else {
            users
        }
    }
}

/// The user store after folding a whole state-event sequence.
pub open spec fn apply_users(
    users: Seq<UserView>,
    state: Seq<StateEventView>,
    room_id: Seq<char>,
) -> Seq<UserView>
    decreases state.len(),
{
    if state.len() == 0 {
        users
    } else {
        user_step(apply_users(users, state.drop_last(), room_id), state.last(), room_id)
    }
}

/// What one joined-room report does to the whole state. An unseen room is
/// constructed (members and messages from the report, unread counter from
/// the report or zero) and appended; a known room keeps its identifier,
/// alias and unread counter, appends the report's text messages to its
/// message sequence and the unlisted join senders to its member list.
/// Either way the report's membership events update the user store.
pub open spec fn joined_step(h: HolderView, jr: JoinedRoomView) -> HolderView {
    let users2 = apply_users(h.users, jr.state, jr.room_id);
    let i = first_index(room_ids(h.rooms), jr.room_id);
    if i == -1 {
        let room = RoomView {
            id: jr.room_id,
            alias: Seq::empty(),
            members: apply_members(Seq::empty(), jr.state),
            messages: new_messages(jr.room_id, jr.timeline),
            unread_msgs: unread_of(jr),
        };
        HolderView { rooms: h.rooms.push(room), users: users2, ..h }
    } else {
        let r = h.rooms[i];
        let r2 = RoomView {
            members: apply_members(r.members, jr.state),
            messages: r.messages + new_messages(jr.room_id, jr.timeline),
            ..r
        };
        HolderView { rooms: h.rooms.update(i, r2), users: users2, ..h }
    }
}

/// The state after folding every joined-room report, in payload order.
pub open spec fn apply_joined(h: HolderView, joined: Seq<JoinedRoomView>) -> HolderView
    decreases joined.len(),
{
    if joined.len() == 0 {
        h
    } else {
        joined_step(apply_joined(h, joined.drop_last()), joined.last())
    }
}

/// The state after one sync payload: every joined-room report folded in,
/// the invited room identifiers appended to the invite list as reported
/// (without deduplication), and the sync cursor replaced by the payload's
/// continuation token verbatim.
pub open spec fn apply_sync_spec(h: HolderView, p: SyncPayloadView) -> HolderView {
    let h1 = apply_joined(h, p.joined);
    HolderView { room_invites: h1.room_invites + p.invited, next_batch: p.next_batch, ..h1 }
}

/// Appends the text messages of a joined-room report to `room`, leaving
/// every other field of the room as it was.
fn append_room_messages(room: &mut RoomData, jr: &JoinedRoomSync)
    ensures
        final(room)@ == (RoomView {
            messages: old(room)@.messages + new_messages(jr@.room_id, jr@.timeline),
            ..old(room)@
        }),
{
    let ghost tl = jr@.timeline;
    let ghost m0 = old(room)@.messages;
    let mut i: usize = 0;
    while i < jr.timeline.len()
        invariant
            i <= jr.timeline@.len(),
            tl == jr@.timeline,
            tl.len() == jr.timeline@.len(),
            room.id == old(room).id,
            room.alias == old(room).alias,
            room.members == old(room).members,
            room.unread_msgs == old(room).unread_msgs,
            room.messages@.map_values(|m: Message| m@) == m0 + new_messages(jr@.room_id, tl.take(i as int)),
        decreases jr.timeline@.len() - i,
    {
        proof {
            assert(tl.take(i + 1).drop_last() =~= tl.take(i as int));
            assert(tl.take(i + 1).last() == tl[i as int]);
            assert(tl[i as int] == jr.timeline@[i as int]@);
        }
        let e = &jr.timeline[i];
        let is_text = str_eq(e.event_type.as_str(), "m.room.message") && str_eq(
            e.msgtype.as_str(),
            "m.text",
        );
        assert(is_text == is_text_event(tl[i as int]));
        if is_text {
            let ghost before = room.messages@.map_values(|m: Message| m@);
            let msg = Message {
                sender: e.sender.clone(),
                room: jr.room_id.clone(),
                content: e.body.clone(),
                msgtype: "text".to_owned(),
            };
            room.messages.push(msg);
            proof {
                assert(room.messages@.map_values(|m: Message| m@) =~= before.push(
                    MessageView {
                        sender: tl[i as int].sender,
                        room: jr@.room_id,
                        content: tl[i as int].body,
                        msgtype: "text"@,
                    },
                ));
                assert(room.messages@.map_values(|m: Message| m@) =~= m0 + new_messages(
                    jr@.room_id,
                    tl.take(i + 1),
                ));
            }
        }
        i += 1;
    }
    proof {
        assert(tl.take(tl.len() as int) =~= tl);
        assert(room@ =~= (RoomView {
            messages: old(room)@.messages + new_messages(jr@.room_id, jr@.timeline),
            ..old(room)@
        }));
    }
}

/// Folds the membership events of a joined-room report into the user store
/// and the room's member list.
fn apply_state_events(
    users: &mut Vec<UserData>,
    members: &mut Vec<String>,
    state: &Vec<StateEvent>,
    room_id: &String,
)
    ensures
        final(users)@.map_values(|u: UserData| u@) == apply_users(
            old(users)@.map_values(|u: UserData| u@),
            state@.map_values(|e: StateEvent| e@),
            room_id@,
        ),
        final(members)@.map_values(|s: String| s@) == apply_members(
            old(members)@.map_values(|s: String| s@),
            state@.map_values(|e: StateEvent| e@),
        ),
{
    let ghost sv = state@.map_values(|e: StateEvent| e@);
    let ghost u0 = old(users)@.map_values(|u: UserData| u@);
    let ghost m0 = old(members)@.map_values(|s: String| s@);
    let mut i: usize = 0;
    while i < state.len()
        invariant
            i <= state@.len(),
            sv == state@.map_values(|e: StateEvent| e@),
            sv.len() == state@.len(),
            users@.map_values(|u: UserData| u@) == apply_users(u0, sv.take(i as int), room_id@),
            members@.map_values(|s: String| s@) == apply_members(m0, sv.take(i as int)),
        decreases state@.len() - i,
    {
        proof {
            assert(sv.take(i + 1).drop_last() =~= sv.take(i as int));
            assert(sv.take(i + 1).last() == sv[i as int]);
            assert(sv[i as int] == state@[i as int]@);
        }
        let ghost uprev = users@.map_values(|u: UserData| u@);
        let ghost mprev = members@.map_values(|s: String| s@);
        let e = &state[i];
        let is_join = str_eq(e.event_type.as_str(), "m.room.member") && str_eq(
            e.membership.as_str(),
            "join",
        );
        assert(is_join == is_join_event(sv[i as int]));
        if is_join {
            match find_user(users, e.sender.as_str()) {
                Option::None => {
                    let name = match &e.displayname {
                        Option::Some(n) => n.clone(),
                        Option::None => e.sender.clone(),
                    };
                    let mut user_rooms: Vec<String> = Vec::new();
                    user_rooms.push(room_id.clone());
                    users.push(
                        UserData { id: e.sender.clone(), name, is_online: false, rooms: user_rooms },
                    );
                    proof {
                        assert(users@.map_values(|u: UserData| u@) =~~= uprev.push(
                            UserView {
                                id: sv[i as int].sender,
                                name: displayname_or_id(sv[i as int]),
                                is_online: false,
                                rooms: seq![room_id@],
                            },
                        ));
                    }
                },
                Option::Some(u) => {
                    proof {
                        lemma_first_index(user_ids(uprev), sv[i as int].sender);
                    }
                    if !contains_str(&users[u].rooms, room_id.as_str()) {
                        let mut usr = users.remove(u);
                        usr.rooms.push(room_id.clone());
                        users.insert(u, usr);
                        proof {
                            assert(users@.map_values(|u2: UserData| u2@) =~~= uprev.update(
                                u as int,
                                UserView { rooms: uprev[u as int].rooms.push(room_id@), ..uprev[u as int] },
                            ));
                        }
                    }
                },
            }
            if !contains_str(members, e.sender.as_str()) {
                members.push(e.sender.clone());
                proof {
                    assert(members@.map_values(|s: String| s@) =~= mprev.push(sv[i as int].sender));
                }
            }
        }
        assert(users@.map_values(|u: UserData| u@) == user_step(uprev, sv[i as int], room_id@));
        assert(members@.map_values(|s: String| s@) == member_step(mprev, sv[i as int]));
        i += 1;
    }
    proof {
        assert(sv.take(sv.len() as int) =~= sv);
    }
}

/// Folds one joined-room report into the state, as `joined_step` says.
fn apply_joined_room(holder: &mut DataHolder, jr: &JoinedRoomSync)
    ensures
        final(holder)@ == joined_step(old(holder)@, jr@),
{
    let ghost h0 = old(holder)@;
    match find_room(&holder.rooms, jr.room_id.as_str()) {
        Option::None => {
            let mut room = RoomData {
                id: jr.room_id.clone(),
                alias: String::new(),
                members: Vec::new(),
                messages: Vec::new(),
                unread_msgs: match jr.notification_count {
                    Option::Some(n) => n,
                    Option::None => 0,
                },
            };
            proof {
                assert(room@.members =~= Seq::<Seq<char>>::empty());
                assert(room@.messages =~= Seq::<MessageView>::empty());
            }
            append_room_messages(&mut room, jr);
            apply_state_events(&mut holder.users, &mut room.members, &jr.state, &jr.room_id);
            let ghost rv = room@;
            holder.rooms.push(room);
            proof {
                assert(Seq::<MessageView>::empty() + new_messages(jr@.room_id, jr@.timeline)
                    =~= new_messages(jr@.room_id, jr@.timeline));
                assert(holder.rooms@.map_values(|r: RoomData| r@) =~~= h0.rooms.push(rv));
                assert(holder@ =~~= joined_step(h0, jr@));
            }
        },
        Option::Some(i) => {
            proof {
                lemma_first_index(room_ids(h0.rooms), jr@.room_id);
            }
            let mut room = holder.rooms.remove(i);
            append_room_messages(&mut room, jr);
            apply_state_events(&mut holder.users, &mut room.members, &jr.state, &jr.room_id);
            let ghost rv = room@;
            holder.rooms.insert(i, room);
            proof {
                assert(holder.rooms@.map_values(|r: RoomData| r@) =~~= h0.rooms.update(i as int, rv));
                assert(holder@ =~~= joined_step(h0, jr@));
            }
        },
    }
}

/// Appends every identifier of `extra` to `invites`, in order, keeping
/// duplicates as they come.
fn append_invites(invites: &mut Vec<String>, extra: &Vec<String>)
    ensures
        final(invites)@.map_values(|s: String| s@) == old(invites)@.map_values(|s: String| s@)
            + extra@.map_values(|s: String| s@),
{
    let ghost e0 = extra@.map_values(|s: String| s@);
    let ghost i0 = old(invites)@.map_values(|s: String| s@);
    let mut k: usize = 0;
    while k < extra.len()
        invariant
            k <= extra@.len(),
            e0 == extra@.map_values(|s: String| s@),
            e0.len() == extra@.len(),
            invites@.map_values(|s: String| s@) == i0 + e0.take(k as int),
        decreases extra@.len() - k,
    {
        let ghost before = invites@.map_values(|s: String| s@);
        invites.push(extra[k].clone());
        proof {
            assert(invites@.map_values(|s: String| s@) =~= before.push(e0[k as int]));
            assert(before.push(e0[k as int]) =~= i0 + e0.take(k + 1));
        }
        k += 1;
    }
    proof {
        assert(e0.take(e0.len() as int) =~= e0);
    }
}

/// Folds one decoded sync payload into the state store: the update the
/// payload describes is applied in full, exactly as `apply_sync_spec`
/// says, and nothing else changes. Previously stored messages are never
/// reordered or dropped.
pub fn apply_sync(holder: &mut DataHolder, payload: &SyncPayload)
    ensures
        final(holder)@ == apply_sync_spec(old(holder)@, payload@),
{
    let ghost h0 = old(holder)@;
    let ghost jv = payload@.joined;
    let mut k: usize = 0;
    while k < payload.joined.len()
        invariant
            k <= payload.joined@.len(),
            jv == payload@.joined,
            jv.len() == payload.joined@.len(),
            holder@ == apply_joined(h0, jv.take(k as int)),
        decreases payload.joined@.len() - k,
    {
        proof {
            assert(jv.take(k + 1).drop_last() =~= jv.take(k as int));
            assert(jv.take(k + 1).last() == jv[k as int]);
            assert(jv[k as int] == payload.joined@[k as int]@);
        }
        apply_joined_room(holder, &payload.joined[k]);
        k += 1;
    }
    proof {
        assert(jv.take(jv.len() as int) =~= jv);
    }
    append_invites(&mut holder.room_invites, &payload.invited);
    holder.next_batch = payload.next_batch.clone();
    proof {
        assert(holder@ =~~= apply_sync_spec(h0, payload@));
    }
}

/// Folding a state-event sequence only appends to a member list: the old
/// list is a prefix of the new one.
pub proof fn lemma_members_grow(members: Seq<Seq<char>>, state: Seq<StateEventView>)
    ensures
        members.len() <= apply_members(members, state).len(),
        forall|k: int| 0 <= k < members.len() ==> apply_members(members, state)[k] == members[k],
    decreases state.len(),
{
    if state.len() > 0 {
        lemma_members_grow(members, state.drop_last());
    }
}

/// After folding a state-event sequence, the member list holds the sender
/// of every joined membership it reported.
pub proof fn lemma_members_complete(members: Seq<Seq<char>>, state: Seq<StateEventView>, s: int)
    requires
        0 <= s < state.len(),
        is_join_event(state[s]),
    ensures
        apply_members(members, state).contains(state[s].sender),
    decreases state.len(),
{
    let prev = apply_members(members, state.drop_last());
    if s == state.len() - 1 {
        if !prev.contains(state[s].sender) {
            assert(prev.push(state[s].sender)[prev.len() as int] == state[s].sender);
        }
    } else {
        lemma_members_complete(members, state.drop_last(), s);
        if !prev.contains(state.last().sender) {
            let k = choose|k: int| 0 <= k < prev.len() && prev[k] == state[s].sender;
            assert(prev.push(state.last().sender)[k] == state[s].sender);
        }
    }
}

/// A member list that already holds every joined sender of a state-event
/// sequence is left exactly as it is by the fold.
pub proof fn lemma_members_stable(members: Seq<Seq<char>>, state: Seq<StateEventView>)
    requires
        forall|s: int|
            0 <= s < state.len() && is_join_event(#[trigger] state[s]) ==> members.contains(
                state[s].sender,
            ),
    ensures
        apply_members(members, state) == members,
    decreases state.len(),
{
    if state.len() > 0 {
        assert(forall|s: int|
            0 <= s < state.len() - 1 && is_join_event(#[trigger] state.drop_last()[s])
                ==> members.contains(state.drop_last()[s].sender));
        lemma_members_stable(members, state.drop_last());
    }
}

/// One joined-room report never drops a room, renames a room, or removes
/// or reorders anything from a room's member list or message sequence.
pub proof fn lemma_joined_step_monotone(h: HolderView, jr: JoinedRoomView, j: int)
    requires
        0 <= j < h.rooms.len(),
    ensures
        h.rooms.len() <= joined_step(h, jr).rooms.len(),
        joined_step(h, jr).rooms[j].id == h.rooms[j].id,
        h.rooms[j].messages.len() <= joined_step(h, jr).rooms[j].messages.len(),
        forall|k: int|
            0 <= k < h.rooms[j].messages.len() ==> joined_step(h, jr).rooms[j].messages[k]
                == h.rooms[j].messages[k],
        h.rooms[j].members.len() <= joined_step(h, jr).rooms[j].members.len(),
        forall|k: int|
            0 <= k < h.rooms[j].members.len() ==> joined_step(h, jr).rooms[j].members[k]
                == h.rooms[j].members[k],
{
    let i = first_index(room_ids(h.rooms), jr.room_id);
    lemma_first_index(room_ids(h.rooms), jr.room_id);
    if i != -1 && i == j {
        lemma_members_grow(h.rooms[j].members, jr.state);
    }
}

/// Folding a joined-room sequence never drops a room, renames a room, or
/// removes or reorders anything from a room's member list or message
/// sequence.
pub proof fn lemma_apply_joined_monotone(h: HolderView, joined: Seq<JoinedRoomView>, j: int)
    requires
        0 <= j < h.rooms.len(),
    ensures
        h.rooms.len() <= apply_joined(h, joined).rooms.len(),
        apply_joined(h, joined).rooms[j].id == h.rooms[j].id,
        h.rooms[j].messages.len() <= apply_joined(h, joined).rooms[j].messages.len(),
        forall|k: int|
            0 <= k < h.rooms[j].messages.len() ==> apply_joined(h, joined).rooms[j].messages[k]
                == h.rooms[j].messages[k],
        h.rooms[j].members.len() <= apply_joined(h, joined).rooms[j].members.len(),
        forall|k: int|
            0 <= k < h.rooms[j].members.len() ==> apply_joined(h, joined).rooms[j].members[k]
                == h.rooms[j].members[k],
    decreases joined.len(),
{
    if joined.len() > 0 {
        lemma_apply_joined_monotone(h, joined.drop_last(), j);
        lemma_joined_step_monotone(apply_joined(h, joined.drop_last()), joined.last(), j);
    }
}

/// The append-only law: one sync payload never shortens, reorders or
/// rewrites the stored message sequence of a room that was already known;
/// it can only append to it. The room keeps its identifier and its place.
pub proof fn lemma_sync_append_only(h: HolderView, p: SyncPayloadView, j: int)
    requires
        0 <= j < h.rooms.len(),
    ensures
        h.rooms.len() <= apply_sync_spec(h, p).rooms.len(),
        apply_sync_spec(h, p).rooms[j].id == h.rooms[j].id,
        h.rooms[j].messages.len() <= apply_sync_spec(h, p).rooms[j].messages.len(),
        forall|k: int|
            0 <= k < h.rooms[j].messages.len() ==> apply_sync_spec(h, p).rooms[j].messages[k]
                == h.rooms[j].messages[k],
{
    lemma_apply_joined_monotone(h, p.joined, j);
}

/// The append-only law over two payloads in sequence: a room present after
/// the first payload has at least as many messages after the second, and
/// the earlier messages stand unchanged in front.
pub proof fn lemma_sync_append_only_twice(h: HolderView, p1: SyncPayloadView, p2: SyncPayloadView, j: int)
    requires
        0 <= j < apply_sync_spec(h, p1).rooms.len(),
    ensures
        apply_sync_spec(h, p1).rooms[j].messages.len() <= apply_sync_spec(
            apply_sync_spec(h, p1),
            p2,
        ).rooms[j].messages.len(),
        forall|k: int|
            0 <= k < apply_sync_spec(h, p1).rooms[j].messages.len() ==> apply_sync_spec(
                apply_sync_spec(h, p1),
                p2,
            ).rooms[j].messages[k] == apply_sync_spec(h, p1).rooms[j].messages[k],
{
    lemma_sync_append_only(apply_sync_spec(h, p1), p2, j);
}

/// Whether every joined-room report of `joined` is already absorbed in
/// `rooms`: its room is present, and that room's member list holds every
/// joined sender the report carries.
pub open spec fn rooms_absorb(rooms: Seq<RoomView>, joined: Seq<JoinedRoomView>) -> bool {
    forall|t: int|
        #![trigger joined[t]]
        0 <= t < joined.len() ==> {
            let i = first_index(room_ids(rooms), joined[t].room_id);
            &&& i != -1
            &&& forall|s: int|
                0 <= s < joined[t].state.len() && is_join_event(#[trigger] joined[t].state[s])
                    ==> rooms[i].members.contains(joined[t].state[s].sender)
        }
}

/// A step keeps an absorbed report absorbed: the room's first index does
/// not move, and its member list only grows.
proof fn lemma_step_keeps_absorbed(h: HolderView, jr: JoinedRoomView, id: Seq<char>)
    requires
        first_index(room_ids(h.rooms), id) != -1,
    ensures
        first_index(room_ids(joined_step(h, jr).rooms), id) == first_index(
            room_ids(h.rooms),
            id,
        ),
        forall|x: Seq<char>|
            h.rooms[first_index(room_ids(h.rooms), id)].members.contains(x) ==> joined_step(
                h,
                jr,
            ).rooms[first_index(room_ids(h.rooms), id)].members.contains(x),
{
    let i = first_index(room_ids(h.rooms), id);
    lemma_first_index(room_ids(h.rooms), id);
    lemma_joined_step_monotone(h, jr, i);
    let rooms2 = joined_step(h, jr).rooms;
    assert(forall|j: int| 0 <= j < h.rooms.len() ==> room_ids(rooms2)[j] == room_ids(h.rooms)[j])
        by {
        let i2 = first_index(room_ids(h.rooms), jr.room_id);
        lemma_first_index(room_ids(h.rooms), jr.room_id);
    }
    lemma_first_index_at_stable(room_ids(h.rooms), room_ids(rooms2), id, i);
    assert forall|x: Seq<char>| h.rooms[i].members.contains(x) implies rooms2[i].members.contains(
        x,
    ) by {
        lemma_joined_step_monotone(h, jr, i);
        let k = choose|k: int| 0 <= k < h.rooms[i].members.len() && h.rooms[i].members[k] == x;
        assert(rooms2[i].members[k] == x);
    }
}

/// A first index carries over to a longer identifier sequence that agrees
/// on the shorter one's prefix.
proof fn lemma_first_index_at_stable(
    ids1: Seq<Seq<char>>,
    ids2: Seq<Seq<char>>,
    id: Seq<char>,
    i: int,
)
    requires
        0 <= i < ids1.len(),
        ids1.len() <= ids2.len(),
        first_index(ids1, id) == i,
        forall|j: int| 0 <= j < ids1.len() ==> ids2[j] == ids1[j],
    ensures
        first_index(ids2, id) == i,
{
    lemma_first_index(ids1, id);
    lemma_first_index_at(ids2, id, i);
}

/// After folding a joined-room sequence, every one of its reports is
/// absorbed in the resulting rooms.
pub proof fn lemma_apply_joined_absorbs(h: HolderView, joined: Seq<JoinedRoomView>)
    ensures
        rooms_absorb(apply_joined(h, joined).rooms, joined),
    decreases joined.len(),
{
    if joined.len() > 0 {
        let prev = apply_joined(h, joined.drop_last());
        let jr = joined.last();
        let hn = joined_step(prev, jr);
        lemma_apply_joined_absorbs(h, joined.drop_last());
        // the last report is absorbed by its own step
        let i = first_index(room_ids(prev.rooms), jr.room_id);
        lemma_first_index(room_ids(prev.rooms), jr.room_id);
        if i == -1 {
            let newroom = hn.rooms.last();
            assert(room_ids(hn.rooms)[prev.rooms.len() as int] == jr.room_id);
            assert(forall|j: int| 0 <= j < prev.rooms.len() ==> room_ids(hn.rooms)[j] == room_ids(
                prev.rooms,
            )[j]);
            lemma_first_index_at(room_ids(hn.rooms), jr.room_id, prev.rooms.len() as int);
            assert forall|s: int|
                0 <= s < jr.state.len() && is_join_event(#[trigger] jr.state[s]) implies hn.rooms[
                first_index(room_ids(hn.rooms), jr.room_id)].members.contains(jr.state[s].sender) by {
                lemma_members_complete(Seq::empty(), jr.state, s);
            }
        } else {
            assert(forall|j: int| 0 <= j < prev.rooms.len() ==> room_ids(hn.rooms)[j] == room_ids(
                prev.rooms,
            )[j]);
            lemma_first_index_at_stable(room_ids(prev.rooms), room_ids(hn.rooms), jr.room_id, i);
            assert forall|s: int|
                0 <= s < jr.state.len() && is_join_event(#[trigger] jr.state[s]) implies hn.rooms[
                first_index(room_ids(hn.rooms), jr.room_id)].members.contains(jr.state[s].sender) by {
                lemma_members_complete(prev.rooms[i].members, jr.state, s);
            }
        }
        // earlier reports stay absorbed
        assert forall|t: int| #![trigger joined[t]] 0 <= t < joined.len() - 1 implies {
            let i2 = first_index(room_ids(hn.rooms), joined[t].room_id);
            &&& i2 != -1
            &&& forall|s: int|
                0 <= s < joined[t].state.len() && is_join_event(#[trigger] joined[t].state[s])
                    ==> hn.rooms[i2].members.contains(joined[t].state[s].sender)
        } by {
            assert(joined.drop_last()[t] == joined[t]);
            lemma_step_keeps_absorbed(prev, jr, joined[t].room_id);
        }
    }
}

/// Folding a joined-room sequence whose reports are all absorbed changes
/// no room identifier and no member list.
pub proof fn lemma_apply_joined_stable(h: HolderView, joined: Seq<JoinedRoomView>)
    requires
        rooms_absorb(h.rooms, joined),
    ensures
        apply_joined(h, joined).rooms.len() == h.rooms.len(),
        forall|j: int|
            #![trigger apply_joined(h, joined).rooms[j]]
            0 <= j < h.rooms.len() ==> apply_joined(h, joined).rooms[j].id == h.rooms[j].id
                && apply_joined(h, joined).rooms[j].members == h.rooms[j].members,
    decreases joined.len(),
{
    if joined.len() > 0 {
        let prev = apply_joined(h, joined.drop_last());
        let jr = joined.last();
        assert(forall|t: int| #![trigger joined.drop_last()[t]] 0 <= t < joined.len() - 1
            ==> joined.drop_last()[t] == joined[t]);
        lemma_apply_joined_stable(h, joined.drop_last());
        assert(room_ids(prev.rooms) =~= room_ids(h.rooms));
        let i = first_index(room_ids(h.rooms), jr.room_id);
        lemma_first_index(room_ids(h.rooms), jr.room_id);
        assert(i != -1);
        lemma_members_stable(h.rooms[i].members, jr.state);
    }
}

/// The idempotence law: applying the same payload a second time leaves the
/// room map with the same rooms, in the same order, under the same
/// identifiers, with identical member lists.
pub proof fn lemma_sync_idempotent_rooms(h: HolderView, p: SyncPayloadView)
    ensures
        apply_sync_spec(apply_sync_spec(h, p), p).rooms.len() == apply_sync_spec(h, p).rooms.len(),
        forall|j: int|
            #![trigger apply_sync_spec(apply_sync_spec(h, p), p).rooms[j]]
            0 <= j < apply_sync_spec(h, p).rooms.len() ==> apply_sync_spec(
                apply_sync_spec(h, p),
                p,
            ).rooms[j].id == apply_sync_spec(h, p).rooms[j].id && apply_sync_spec(
                apply_sync_spec(h, p),
                p,
            ).rooms[j].members == apply_sync_spec(h, p).rooms[j].members,
{
    let h1 = apply_sync_spec(h, p);
    lemma_apply_joined_absorbs(h, p.joined);
    assert(h1.rooms == apply_joined(h, p.joined).rooms);
    lemma_apply_joined_stable(h1, p.joined);
}

} // verus!

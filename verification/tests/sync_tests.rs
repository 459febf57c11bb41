use determinant::client::{DataHolder, Server};
use determinant::render::picker_labels;
use determinant::sync::{apply_sync, JoinedRoomSync, StateEvent, SyncPayload, TimelineEvent};

fn fresh_holder() -> DataHolder {
    DataHolder {
        server: Server { address: "https://hs.example".to_string() },
        user_id: "@me:example.org".to_string(),
        token: "tok".to_string(),
        rooms: Vec::new(),
        users: Vec::new(),
        room_invites: Vec::new(),
        next_batch: String::new(),
    }
}

fn join_event(sender: &str, displayname: Option<&str>) -> StateEvent {
    StateEvent {
        event_type: "m.room.member".to_string(),
        membership: "join".to_string(),
        displayname: displayname.map(|s| s.to_string()),
        sender: sender.to_string(),
    }
}

fn text_event(sender: &str, body: &str) -> TimelineEvent {
    TimelineEvent {
        event_type: "m.room.message".to_string(),
        msgtype: "m.text".to_string(),
        body: body.to_string(),
        sender: sender.to_string(),
    }
}

fn one_room_payload() -> SyncPayload {
    SyncPayload {
        joined: vec![JoinedRoomSync {
            room_id: "!abc:example.org".to_string(),
            notification_count: Some(2),
            timeline: vec![text_event("@other:example.org", "hi")],
            state: vec![
                join_event("@me:example.org", Some("Me")),
                join_event("@other:example.org", Some("Other Person")),
            ],
        }],
        invited: Vec::new(),
        next_batch: "batch1".to_string(),
    }
}

#[test]
fn one_joined_room_is_folded_in() {
    let mut h = fresh_holder();
    apply_sync(&mut h, &one_room_payload());
    assert_eq!(h.rooms.len(), 1);
    let room = &h.rooms[0];
    assert_eq!(room.id, "!abc:example.org");
    assert_eq!(room.members, vec!["@me:example.org".to_string(), "@other:example.org".to_string()]);
    assert_eq!(room.messages.len(), 1);
    assert_eq!(room.messages[0].content, "hi");
    assert_eq!(room.messages[0].sender, "@other:example.org");
    assert_eq!(room.messages[0].msgtype, "text");
    assert_eq!(room.unread_msgs, 2);
    assert_eq!(h.users.len(), 2);
    assert_eq!(h.next_batch, "batch1");
    // the picker shows the other member's display name for a two-member room
    let labels = picker_labels(&h);
    assert_eq!(labels, vec!["Other Person".to_string()]);
}

#[test]
fn resync_appends_messages_never_shortens() {
    let mut h = fresh_holder();
    apply_sync(&mut h, &one_room_payload());
    let count_after_first = h.rooms[0].messages.len();
    let mut second = one_room_payload();
    second.joined[0].timeline.push(text_event("@me:example.org", "hello back"));
    apply_sync(&mut h, &second);
    let count_after_second = h.rooms[0].messages.len();
    assert!(count_after_second >= count_after_first);
    // the earlier messages stand unchanged in front
    assert_eq!(h.rooms[0].messages[0].content, "hi");
    assert_eq!(h.rooms[0].messages.len(), 3);
    assert_eq!(h.rooms[0].messages[1].content, "hi");
    assert_eq!(h.rooms[0].messages[2].content, "hello back");
}

#[test]
fn reapplying_payload_keeps_rooms_and_members() {
    let mut h = fresh_holder();
    let p = one_room_payload();
    apply_sync(&mut h, &p);
    let ids_once: Vec<String> = h.rooms.iter().map(|r| r.id.clone()).collect();
    let members_once = h.rooms[0].members.clone();
    apply_sync(&mut h, &p);
    let ids_twice: Vec<String> = h.rooms.iter().map(|r| r.id.clone()).collect();
    assert_eq!(ids_once, ids_twice);
    assert_eq!(members_once, h.rooms[0].members);
    assert_eq!(h.users.len(), 2);
}

#[test]
fn unread_counter_stays_stale_on_resync() {
    let mut h = fresh_holder();
    apply_sync(&mut h, &one_room_payload());
    assert_eq!(h.rooms[0].unread_msgs, 2);
    let mut second = one_room_payload();
    second.joined[0].notification_count = Some(7);
    apply_sync(&mut h, &second);
    // a known room keeps the counter it was first seen with
    assert_eq!(h.rooms[0].unread_msgs, 2);
}

#[test]
fn absent_unread_counter_defaults_to_zero() {
    let mut h = fresh_holder();
    let mut p = one_room_payload();
    p.joined[0].notification_count = None;
    apply_sync(&mut h, &p);
    assert_eq!(h.rooms[0].unread_msgs, 0);
}

#[test]
fn absent_displayname_falls_back_to_the_identifier() {
    let mut h = fresh_holder();
    let mut p = one_room_payload();
    p.joined[0].state = vec![join_event("@anon:example.org", None)];
    apply_sync(&mut h, &p);
    assert_eq!(h.users.len(), 1);
    assert_eq!(h.users[0].name, "@anon:example.org");
}

#[test]
fn non_text_events_are_skipped() {
    let mut h = fresh_holder();
    let mut p = one_room_payload();
    p.joined[0].timeline = vec![
        TimelineEvent {
            event_type: "m.room.topic".to_string(),
            msgtype: String::new(),
            body: "ignored".to_string(),
            sender: "@other:example.org".to_string(),
        },
        TimelineEvent {
            event_type: "m.room.message".to_string(),
            msgtype: "m.image".to_string(),
            body: "ignored too".to_string(),
            sender: "@other:example.org".to_string(),
        },
        text_event("@other:example.org", "kept"),
    ];
    apply_sync(&mut h, &p);
    assert_eq!(h.rooms[0].messages.len(), 1);
    assert_eq!(h.rooms[0].messages[0].content, "kept");
}

#[test]
fn invites_are_appended_without_dedup() {
    let mut h = fresh_holder();
    let p = SyncPayload {
        joined: Vec::new(),
        invited: vec!["!inv:x".to_string()],
        next_batch: "b1".to_string(),
    };
    apply_sync(&mut h, &p);
    apply_sync(&mut h, &p);
    assert_eq!(h.room_invites, vec!["!inv:x".to_string(), "!inv:x".to_string()]);
    assert_eq!(h.next_batch, "b1");
}

#[test]
fn duplicate_members_in_one_payload_are_deduplicated() {
    let mut h = fresh_holder();
    let mut p = one_room_payload();
    p.joined[0].state = vec![
        join_event("@me:example.org", Some("Me")),
        join_event("@me:example.org", Some("Me")),
    ];
    apply_sync(&mut h, &p);
    assert_eq!(h.rooms[0].members, vec!["@me:example.org".to_string()]);
}

#[test]
fn empty_continuation_token_is_kept_verbatim() {
    let mut h = fresh_holder();
    h.next_batch = "old".to_string();
    let p = SyncPayload { joined: Vec::new(), invited: Vec::new(), next_batch: String::new() };
    apply_sync(&mut h, &p);
    assert_eq!(h.next_batch, "");
}

#[test]
fn user_room_sets_grow_without_duplicates() {
    let mut h = fresh_holder();
    apply_sync(&mut h, &one_room_payload());
    apply_sync(&mut h, &one_room_payload());
    assert_eq!(h.users[0].rooms, vec!["!abc:example.org".to_string()]);
    let mut p2 = one_room_payload();
    p2.joined[0].room_id = "!second:example.org".to_string();
    apply_sync(&mut h, &p2);
    assert_eq!(
        h.users[0].rooms,
        vec!["!abc:example.org".to_string(), "!second:example.org".to_string()]
    );
}

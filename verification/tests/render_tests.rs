use determinant::app::{App, AppMode};
use determinant::client::{Message, RoomData, UserData};
use determinant::render::{
    message_items, picker_labels, sender_items, PaintOp, RenderError,
};

fn room(id: &str, members: &[&str]) -> RoomData {
    RoomData {
        id: id.to_string(),
        alias: String::new(),
        members: members.iter().map(|s| s.to_string()).collect(),
        messages: Vec::new(),
        unread_msgs: 0,
    }
}

fn user(id: &str, name: &str) -> UserData {
    UserData { id: id.to_string(), name: name.to_string(), is_online: false, rooms: Vec::new() }
}

fn message(sender: &str, content: &str) -> Message {
    Message {
        sender: sender.to_string(),
        room: "!a:x".to_string(),
        content: content.to_string(),
        msgtype: "text".to_string(),
    }
}

#[test]
fn two_member_rooms_show_the_other_members_name() {
    let mut app = App::new();
    app.holder.user_id = "@me:x".to_string();
    app.holder.rooms.push(room("!a:x", &["@me:x", "@other:x"]));
    app.holder.rooms.push(room("!b:x", &["@other:x", "@me:x"]));
    app.holder.rooms.push(room("!c:x", &["@me:x"]));
    app.holder.users.push(user("@other:x", "Other"));
    let labels = picker_labels(&app.holder);
    assert_eq!(
        labels,
        vec!["Other".to_string(), "Other".to_string(), "!c:x".to_string()]
    );
}

#[test]
fn unknown_members_fall_back_to_the_room_id() {
    let mut app = App::new();
    app.holder.user_id = "@me:x".to_string();
    app.holder.rooms.push(room("!a:x", &["@me:x", "@stranger:x"]));
    let labels = picker_labels(&app.holder);
    assert_eq!(labels, vec!["!a:x".to_string()]);
}

#[test]
fn sender_column_repeats_names_over_newlines() {
    let users = vec![user("@u:x", "U")];
    let messages = vec![message("@u:x", "one\ntwo"), message("@ghost:x", "hi"), message("@u:x", "z")];
    let senders = sender_items(&users, &messages);
    assert_eq!(
        senders,
        vec!["U".to_string(), "U".to_string(), String::new(), "U".to_string()]
    );
    let texts = message_items(&messages);
    assert_eq!(
        texts,
        vec!["one\ntwo".to_string(), "hi".to_string(), "z".to_string()]
    );
}

#[test]
fn fresh_app_renders_the_picker_and_the_status_bar() {
    let app = App::new();
    let ops = app.render(80, 24).expect("an empty picker fits any sane terminal");
    assert_eq!(ops.len(), 3);
    match &ops[0] {
        PaintOp::List(l) => {
            assert_eq!((l.rect.x, l.rect.y, l.rect.width, l.rect.height), (0, 0, 80, 23));
            assert_eq!(l.cursor, Some(0));
            assert!(l.items.is_empty());
            assert_eq!((l.borders.top, l.borders.left, l.borders.right), (true, false, false));
            assert!(l.selected);
        },
        _ => panic!("the first instruction paints the room picker"),
    }
    match &ops[1] {
        PaintOp::Text(t) => {
            assert_eq!((t.rect.x, t.rect.y, t.rect.width, t.rect.height), (0, 23, 40, 1));
            assert_eq!(t.text, "Logged in as [USERNAME]");
        },
        _ => panic!("the status bar comes after the panes"),
    }
    match &ops[2] {
        PaintOp::Text(t) => {
            assert_eq!((t.rect.x, t.rect.y, t.rect.width, t.rect.height), (40, 23, 40, 1));
            assert_eq!(t.text, "Determinant Alpha 0.1");
        },
        _ => panic!("the status bar has two halves"),
    }
}

#[test]
fn bound_pane_renders_title_and_columns() {
    let mut app = App::new();
    let mut r = room("!a:x", &[]);
    r.messages.push(message("@u:x", "hello"));
    app.holder.rooms.push(r);
    app.holder.users.push(user("@u:x", "U"));
    app.windows[0].selected_room_id = "!a:x".to_string();
    let ops = app.render(80, 24).expect("a quiet bound pane fits");
    assert_eq!(ops.len(), 5);
    match &ops[0] {
        PaintOp::Text(t) => {
            assert_eq!((t.rect.x, t.rect.y, t.rect.width, t.rect.height), (0, 0, 80, 23));
            assert_eq!(t.text, "Messages for room  !a:x");
        },
        _ => panic!("the title box comes first"),
    }
    match &ops[1] {
        PaintOp::List(l) => {
            // sender column: a fifth of the pane, under the title row
            assert_eq!((l.rect.x, l.rect.y, l.rect.width, l.rect.height), (0, 1, 16, 21));
            assert_eq!(l.items, vec!["U".to_string()]);
        },
        _ => panic!("the sender column comes second"),
    }
    match &ops[2] {
        PaintOp::List(l) => {
            // message column: the rest, minus the selected pane's overlay
            assert_eq!((l.rect.x, l.rect.y, l.rect.width, l.rect.height), (16, 1, 62, 21));
            assert_eq!(l.items, vec!["hello".to_string()]);
        },
        _ => panic!("the message column comes third"),
    }
}

#[test]
fn compose_bar_appears_with_text_and_counts_newlines() {
    let mut app = App::new();
    app.holder.rooms.push(room("!a:x", &[]));
    app.windows[0].selected_room_id = "!a:x".to_string();
    app.windows[0].written_msg = "ab\ncd".chars().collect();
    app.windows[0].selected_char = 6;
    let ops = app.render(80, 24).expect("one newline fits");
    assert_eq!(ops.len(), 6);
    match &ops[3] {
        PaintOp::Text(t) => {
            // one newline: the bar is three rows high with its top border
            assert_eq!((t.rect.x, t.rect.y, t.rect.width, t.rect.height), (0, 20, 79, 3));
            assert_eq!(t.text, " $> ab\ncd");
            assert!(t.borders.top);
        },
        _ => panic!("the compose bar follows the columns"),
    }
}

#[test]
fn insert_mode_adds_the_banner_row() {
    let mut app = App::new();
    app.mode = AppMode::Insert;
    let ops = app.render(80, 24).expect("the picker fits in insert mode too");
    assert_eq!(ops.len(), 4);
    match &ops[0] {
        PaintOp::List(l) => {
            assert_eq!(l.rect.height, 22);
        },
        _ => panic!("the picker still comes first"),
    }
    match &ops[3] {
        PaintOp::Text(t) => {
            assert_eq!((t.rect.x, t.rect.y, t.rect.width, t.rect.height), (0, 23, 80, 1));
            assert_eq!(t.text, "-- INSERT --");
        },
        _ => panic!("insert mode paints its banner last"),
    }
}

#[test]
fn pathological_newlines_are_reported_not_fatal() {
    let mut app = App::new();
    app.holder.rooms.push(room("!a:x", &[]));
    app.windows[0].selected_room_id = "!a:x".to_string();
    app.windows[0].written_msg = "\n".repeat(50).chars().collect();
    app.windows[0].selected_char = 51;
    let r = app.render(80, 24);
    assert_eq!(r.err(), Some(RenderError::InputOverflow));
}

#[test]
fn too_many_panes_for_the_width_are_refused() {
    let mut app = App::new();
    for _ in 0..9 {
        app.add_window();
    }
    assert_eq!(app.windows.len(), 10);
    let r = app.render(5, 24);
    assert_eq!(r.err(), Some(RenderError::InputOverflow));
    assert!(app.render(10, 24).is_ok());
}

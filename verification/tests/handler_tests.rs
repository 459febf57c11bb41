use determinant::app::{App, AppMode, MessageWindow};
use determinant::client::RoomData;
use determinant::handler::{handle_key_events, Action, KeyCode};

fn room(id: &str) -> RoomData {
    RoomData {
        id: id.to_string(),
        alias: String::new(),
        members: Vec::new(),
        messages: Vec::new(),
        unread_msgs: 0,
    }
}

fn app_with_rooms(ids: &[&str]) -> App {
    let mut app = App::new();
    for id in ids {
        app.holder.rooms.push(room(id));
    }
    app
}

#[test]
fn enter_on_unbound_pane_binds_the_picker_room() {
    let mut app = app_with_rooms(&["!only:example.org"]);
    assert_eq!(app.windows[0].selected_room, 0);
    assert!(matches!(app.mode, AppMode::Normal));
    let act = handle_key_events(KeyCode::Enter, &mut app);
    assert!(matches!(act, Action::Nothing));
    assert_eq!(app.windows[0].selected_room_id, "!only:example.org");
    assert!(app.windows[0].written_msg.is_empty());
    assert_eq!(app.windows[0].selected_char, 1);
}

#[test]
fn enter_in_insert_mode_writes_a_newline_at_the_caret() {
    let mut app = App::new();
    app.mode = AppMode::Insert;
    app.windows[0].written_msg = vec!['h', 'i'];
    app.windows[0].selected_char = 3;
    let act = handle_key_events(KeyCode::Enter, &mut app);
    assert!(matches!(act, Action::Nothing));
    assert_eq!(app.windows[0].written_msg, vec!['h', 'i', '\n']);
    assert_eq!(app.windows[0].selected_char, 4);
}

#[test]
fn closing_the_last_unbound_pane_quits() {
    let mut app = app_with_rooms(&["!a:x"]);
    assert_eq!(app.windows.len(), 1);
    let act = handle_key_events(KeyCode::Char('q'), &mut app);
    assert!(matches!(act, Action::Nothing));
    assert!(!app.running);
    // the state store is untouched
    assert_eq!(app.holder.rooms.len(), 1);
    assert_eq!(app.holder.rooms[0].id, "!a:x");
    assert_eq!(app.windows.len(), 1);
}

#[test]
fn closing_one_of_several_unbound_panes_removes_it() {
    let mut app = App::new();
    handle_key_events(KeyCode::Char('v'), &mut app);
    handle_key_events(KeyCode::Right, &mut app);
    assert_eq!(app.windows.len(), 2);
    assert_eq!(app.selected_window, 1);
    let act = handle_key_events(KeyCode::Char('q'), &mut app);
    assert!(matches!(act, Action::Nothing));
    assert!(app.running);
    assert_eq!(app.windows.len(), 1);
    assert_eq!(app.selected_window, 0);
}

#[test]
fn closing_a_bound_pane_resets_it_to_the_picker() {
    let mut app = app_with_rooms(&["!a:x"]);
    handle_key_events(KeyCode::Enter, &mut app);
    assert_eq!(app.windows[0].selected_room_id, "!a:x");
    app.windows[0].written_msg = vec!['x'];
    app.windows[0].selected_char = 2;
    let act = handle_key_events(KeyCode::Char('q'), &mut app);
    assert!(matches!(act, Action::Nothing));
    assert!(app.running);
    assert_eq!(app.windows.len(), 1);
    assert_eq!(app.windows[0].selected_room_id, "");
    assert!(app.windows[0].written_msg.is_empty());
    assert_eq!(app.windows[0].selected_char, 1);
}

#[test]
fn i_enters_insert_and_esc_leaves_it() {
    let mut app = App::new();
    handle_key_events(KeyCode::Char('i'), &mut app);
    assert!(matches!(app.mode, AppMode::Insert));
    handle_key_events(KeyCode::Esc, &mut app);
    assert!(matches!(app.mode, AppMode::Normal));
}

#[test]
fn s_asks_for_a_sync_and_changes_nothing() {
    let mut app = App::new();
    let act = handle_key_events(KeyCode::Char('s'), &mut app);
    assert!(matches!(act, Action::Sync));
    assert!(app.running);
    assert_eq!(app.windows.len(), 1);
}

#[test]
fn v_splits_a_new_unbound_pane() {
    let mut app = App::new();
    handle_key_events(KeyCode::Char('v'), &mut app);
    assert_eq!(app.windows.len(), 2);
    assert_eq!(app.selected_window, 0);
    assert_eq!(app.windows[1].selected_room_id, "");
    assert_eq!(app.windows[1].selected_char, 1);
}

#[test]
fn pane_selection_clamps_at_both_ends() {
    let mut app = App::new();
    handle_key_events(KeyCode::Char('v'), &mut app);
    handle_key_events(KeyCode::Left, &mut app);
    assert_eq!(app.selected_window, 0);
    handle_key_events(KeyCode::Right, &mut app);
    assert_eq!(app.selected_window, 1);
    handle_key_events(KeyCode::Right, &mut app);
    assert_eq!(app.selected_window, 1);
}

#[test]
fn picker_cursor_clamps_to_the_room_list() {
    let mut app = app_with_rooms(&["!a:x", "!b:x"]);
    handle_key_events(KeyCode::Up, &mut app);
    assert_eq!(app.windows[0].selected_room, 0);
    handle_key_events(KeyCode::Down, &mut app);
    assert_eq!(app.windows[0].selected_room, 1);
    handle_key_events(KeyCode::Down, &mut app);
    assert_eq!(app.windows[0].selected_room, 1);
}

#[test]
fn picker_cursor_stays_put_without_rooms() {
    let mut app = App::new();
    handle_key_events(KeyCode::Down, &mut app);
    assert_eq!(app.windows[0].selected_room, 0);
    handle_key_events(KeyCode::Enter, &mut app);
    assert_eq!(app.windows[0].selected_room_id, "");
}

#[test]
fn caret_moves_clamp_and_edits_land_at_the_caret() {
    let mut app = App::new();
    app.mode = AppMode::Insert;
    handle_key_events(KeyCode::Char('a'), &mut app);
    handle_key_events(KeyCode::Char('b'), &mut app);
    assert_eq!(app.windows[0].written_msg, vec!['a', 'b']);
    assert_eq!(app.windows[0].selected_char, 3);
    handle_key_events(KeyCode::Left, &mut app);
    handle_key_events(KeyCode::Char('x'), &mut app);
    assert_eq!(app.windows[0].written_msg, vec!['a', 'x', 'b']);
    // moving right clamps at the buffer length, one short of where typing
    // leaves the caret
    assert_eq!(app.windows[0].selected_char, 3);
    handle_key_events(KeyCode::Right, &mut app);
    assert_eq!(app.windows[0].selected_char, 3);
}

#[test]
fn backspace_removes_left_of_caret_and_stops_at_the_start() {
    let mut app = App::new();
    app.mode = AppMode::Insert;
    app.windows[0].written_msg = vec!['a', 'b'];
    app.windows[0].selected_char = 3;
    handle_key_events(KeyCode::Backspace, &mut app);
    assert_eq!(app.windows[0].written_msg, vec!['a']);
    assert_eq!(app.windows[0].selected_char, 2);
    handle_key_events(KeyCode::Backspace, &mut app);
    assert_eq!(app.windows[0].written_msg, Vec::<char>::new());
    assert_eq!(app.windows[0].selected_char, 1);
    handle_key_events(KeyCode::Backspace, &mut app);
    assert_eq!(app.windows[0].written_msg, Vec::<char>::new());
    assert_eq!(app.windows[0].selected_char, 1);
}

#[test]
fn caret_clamped_to_zero_still_inserts_safely() {
    let mut app = App::new();
    app.mode = AppMode::Insert;
    handle_key_events(KeyCode::Left, &mut app);
    assert_eq!(app.windows[0].selected_char, 0);
    handle_key_events(KeyCode::Char('z'), &mut app);
    assert_eq!(app.windows[0].written_msg, vec!['z']);
    assert_eq!(app.windows[0].selected_char, 2);
}

#[test]
fn enter_with_text_produces_a_send_request_and_clears_the_buffer() {
    let mut app = app_with_rooms(&["!a:x"]);
    handle_key_events(KeyCode::Enter, &mut app);
    app.windows[0].written_msg = vec!['h', 'i'];
    app.windows[0].selected_char = 3;
    let act = handle_key_events(KeyCode::Enter, &mut app);
    match act {
        Action::Send(req) => {
            assert_eq!(req.path, "rooms/!a:x/send/m.room.message");
            assert_eq!(req.body, "{\"msgtype\":\"m.text\",\"body\":\"hi\"}");
        },
        _ => panic!("a composed message must be sent"),
    }
    assert!(app.windows[0].written_msg.is_empty());
    assert_eq!(app.windows[0].selected_char, 1);
}

#[test]
fn unlisted_keys_change_nothing() {
    let mut app = App::new();
    let act = handle_key_events(KeyCode::Char('z'), &mut app);
    assert!(matches!(act, Action::Nothing));
    assert!(matches!(app.mode, AppMode::Normal));
    assert_eq!(app.windows.len(), 1);
    let act2 = handle_key_events(KeyCode::Other, &mut app);
    assert!(matches!(act2, Action::Nothing));
}

#[test]
fn fresh_window_is_unbound() {
    let w = MessageWindow::new();
    assert_eq!(w.selected_room_id, "");
    assert_eq!(w.selected_room, 0);
    assert_eq!(w.selected_char, 1);
    assert!(w.written_msg.is_empty());
}

//! The modal key dispatcher. A key event arrives as a plain [`KeyCode`];
//! the handler mutates the application state and returns the [`Action`]
//! the surrounding event loop must perform — sending a composed message,
//! issuing a sync request, or nothing. Quitting is signalled through
//! `App::running`.

use vstd::prelude::*;
use vstd::string::*;
use crate::app::{App, AppMode, EditOp, MessageWindow, edit_step, frame_except_windows};
use crate::client::message_payload_spec;

verus! {

/// The key surface the interface reacts to. Every other key arrives as
/// `Other` and changes nothing.
#[derive(Clone, Copy, Debug, PartialEq, Eq, Structural)]
pub enum KeyCode {
    Enter,
    Up,
    Down,
    Left,
    Right,
    Esc,
    Backspace,
    Char(char),
    Other,
}

/// What the event loop must do after a key was handled.
pub enum Action {
    Nothing,
    Send(crate::app::SendRequest),
    Sync,
}

/// The pane the selection stands on.
pub open spec fn selected_win(a: App) -> MessageWindow {
    a.windows@[a.selected_window as int]
}

/// Whether `b` is `a` with the selected pane replaced by `w2`.
pub open spec fn windows_replaced(a: App, b: App, w2: MessageWindow) -> bool {
    b.windows@ == a.windows@.update(a.selected_window as int, w2)
}

/// Whether `b` is `a` with one editing operation applied to the selected
/// pane's buffer and caret.
pub open spec fn edited_selected(a: App, b: App, op: EditOp) -> bool {
    let sw = selected_win(a);
    let nw = b.windows@[a.selected_window as int];
    &&& windows_replaced(
        a,
        b,
        (MessageWindow { written_msg: nw.written_msg, selected_char: nw.selected_char, ..sw }),
    )
    &&& (nw.written_msg@, nw.selected_char as nat) == edit_step(
        sw.written_msg@,
        sw.selected_char as nat,
        op,
    )
}

/// Applies one editing operation to the selected pane.
fn edit_selected(app: &mut App, op: EditOp)
    requires
        old(app).wf(),
        selected_win(*old(app)).written_msg@.len() + 2 <= usize::MAX,
    ensures
        final(app).wf(),
        frame_except_windows(*old(app), *final(app)),
        edited_selected(*old(app), *final(app), op),
{
    let sel = app.selected_window;
    let mut w = app.windows.remove(sel);
    match op {
        EditOp::Left => w.caret_left(),
        EditOp::Right => w.caret_right(),
        EditOp::Backspace => w.backspace(),
        EditOp::Insert(c) => w.insert_char(c),
    }
    app.windows.insert(sel, w);
    proof {
        assert(app.windows@ =~= old(app).windows@.update(
            sel as int,
            (MessageWindow {
                written_msg: app.windows@[sel as int].written_msg,
                selected_char: app.windows@[sel as int].selected_char,
                ..old(app).windows@[sel as int]
            }),
        ));
    }
}

/// Handles one key event and updates the state of [`App`].
///
/// In Normal mode: Enter sends the composed message if the buffer is not
/// empty and otherwise binds the selected pane to the picker's room; Up
/// and Down move the picker cursor; Left and Right move the pane
/// selection; `i` enters Insert mode; `v` splits a new pane; `s` asks for
/// a sync; `q` closes an unbound pane, quits when it is the last one, or
/// resets a bound pane to the picker. In Insert mode: Esc returns to
/// Normal mode and the remaining keys edit the compose buffer. Every
/// unlisted key changes nothing.
pub fn handle_key_events(key: KeyCode, app: &mut App) -> (act: Action)
    requires
        old(app).wf(),
        selected_win(*old(app)).written_msg@.len() + 2 <= usize::MAX,
    ensures
        final(app).wf(),
        ({
            let a = *old(app);
            let b = *final(app);
            let sw = selected_win(a);
            match a.mode {
                AppMode::Normal => match key {
                    KeyCode::Enter => if sw.written_msg@.len() != 0 {
                        &&& act matches Action::Send(req) && req.path@ == "rooms/"@
                            + sw.selected_room_id@ + "/send/m.room.message"@ && req.body@
                            == message_payload_spec(sw.written_msg@)
                        &&& frame_except_windows(a, b)
                        &&& b.windows@ =~= a.windows@.update(
                            a.selected_window as int,
                            (MessageWindow {
                                written_msg: b.windows@[a.selected_window as int].written_msg,
                                selected_char: 1,
                                ..sw
                            }),
                        )
                        &&& b.windows@[a.selected_window as int].written_msg@
                            == Seq::<char>::empty()
                    } else {
                        &&& act matches Action::Nothing
                        &&& frame_except_windows(a, b)
                        &&& if sw.is_unbound() && a.holder.rooms@.len() > 0 {
                            b.windows@ =~= a.windows@.update(
                                a.selected_window as int,
                                (MessageWindow {
                                    selected_room_id: b.windows@[a.selected_window as int].selected_room_id,
                                    ..sw
                                }),
                            ) && b.windows@[a.selected_window as int].selected_room_id@
                                == a.holder.rooms@[sw.selected_room as int].id@
                        } else {
                            b.windows@ == a.windows@
                        }
                    },
                    KeyCode::Up => {
                        &&& act matches Action::Nothing
                        &&& frame_except_windows(a, b)
                        &&& windows_replaced(
                            a,
                            b,
                            (MessageWindow {
                                selected_room: if sw.selected_room > 0 {
                                    (sw.selected_room - 1) as usize
                                } else {
                                    0
                                },
                                ..sw
                            }),
                        )
                    },
                    KeyCode::Down => {
                        &&& act matches Action::Nothing
                        &&& frame_except_windows(a, b)
                        &&& windows_replaced(
                            a,
                            b,
                            (MessageWindow {
                                selected_room: if sw.selected_room + 1 < a.holder.rooms@.len() {
                                    (sw.selected_room + 1) as usize
                                } else {
                                    sw.selected_room
                                },
                                ..sw
                            }),
                        )
                    },
                    KeyCode::Left => act matches Action::Nothing && b == (App {
                        selected_window: if a.selected_window > 0 {
                            (a.selected_window - 1) as usize
                        } else {
                            0
                        },
                        ..a
                    }),
                    KeyCode::Right => act matches Action::Nothing && b == (App {
                        selected_window: if a.selected_window + 1 < a.windows@.len() {
                            (a.selected_window + 1) as usize
                        } else {
                            a.selected_window
                        },
                        ..a
                    }),
                    KeyCode::Char(c) => if c == 'i' {
                        act matches Action::Nothing && b == (App { mode: AppMode::Insert, ..a })
                    } else if c == 'v' {
                        &&& act matches Action::Nothing
                        &&& frame_except_windows(a, b)
                        &&& b.windows@.len() == a.windows@.len() + 1
                        &&& forall|i: int|
                            0 <= i < a.windows@.len() ==> b.windows@[i] == a.windows@[i]
                        &&& b.windows@.last().selected_room_id@ == Seq::<char>::empty()
                        &&& b.windows@.last().selected_room == 0
                        &&& b.windows@.last().written_msg@ == Seq::<char>::empty()
                        &&& b.windows@.last().selected_char == 1
                    } else if c == 's' {
                        act matches Action::Sync && b == a
                    } else if c == 'q' {
                        &&& act matches Action::Nothing
                        &&& if a.windows@.len() > 1 && sw.is_unbound() {
                            b == (App {
                                selected_window: if a.selected_window != 0 {
                                    (a.selected_window - 1) as usize
                                } else {
                                    0
                                },
                                windows: b.windows,
                                ..a
                            }) && b.windows@ == a.windows@.remove(a.selected_window as int)
                        } else if sw.is_unbound() {
                            b == (App { running: false, ..a })
                        } else {
                            frame_except_windows(a, b) && b.windows@ =~= a.windows@.update(
                                a.selected_window as int,
                                (MessageWindow {
                                    selected_room_id: b.windows@[a.selected_window as int].selected_room_id,
                                    written_msg: b.windows@[a.selected_window as int].written_msg,
                                    selected_char: 1,
                                    ..sw
                                }),
                            ) && b.windows@[a.selected_window as int].selected_room_id@
                                == Seq::<char>::empty()
                                && b.windows@[a.selected_window as int].written_msg@
                                == Seq::<char>::empty()
                        }
                    } else {
                        act matches Action::Nothing && b == a
                    },
                    _ => act matches Action::Nothing && b == a,
                },
                AppMode::Insert => match key {
                    KeyCode::Esc => act matches Action::Nothing && b == (App {
                        mode: AppMode::Normal,
                        ..a
                    }),
                    KeyCode::Backspace => act matches Action::Nothing && frame_except_windows(a, b)
                        && edited_selected(a, b, EditOp::Backspace),
                    KeyCode::Left => act matches Action::Nothing && frame_except_windows(a, b)
                        && edited_selected(a, b, EditOp::Left),
                    KeyCode::Right => act matches Action::Nothing && frame_except_windows(a, b)
                        && edited_selected(a, b, EditOp::Right),
                    KeyCode::Enter => act matches Action::Nothing && frame_except_windows(a, b)
                        && edited_selected(a, b, EditOp::Insert('\n')),
                    KeyCode::Char(c) => act matches Action::Nothing && frame_except_windows(a, b)
                        && edited_selected(a, b, EditOp::Insert(c)),
                    _ => act matches Action::Nothing && b == a,
                },
            }
        }),
{
    let window_count = app.windows.len();
    match app.mode {
        AppMode::Normal => match key {
            KeyCode::Enter => {
                if app.windows[app.selected_window].written_msg.len() > 0 {
                    let req = app.send_message();
                    return Action::Send(req);
                } else {
                    app.sel_room();
                    return Action::Nothing;
                }
            },
            KeyCode::Up => {
                let sel = app.selected_window;
                let mut w = app.windows.remove(sel);
                if w.selected_room > 0 {
                    w.selected_room = w.selected_room - 1;
                }
                app.windows.insert(sel, w);
                proof {
                    assert(app.windows@ =~= old(app).windows@.update(
                        sel as int,
                        (MessageWindow {
                            selected_room: app.windows@[sel as int].selected_room,
                            ..old(app).windows@[sel as int]
                        }),
                    ));
                }
                return Action::Nothing;
            },
            KeyCode::Down => {
                let room_count = app.holder.rooms.len();
                let sel = app.selected_window;
                let mut w = app.windows.remove(sel);
                if w.selected_room + 1 < room_count {
                    w.selected_room = w.selected_room + 1;
                }
                app.windows.insert(sel, w);
                proof {
                    assert(app.windows@ =~= old(app).windows@.update(
                        sel as int,
                        (MessageWindow {
                            selected_room: app.windows@[sel as int].selected_room,
                            ..old(app).windows@[sel as int]
                        }),
                    ));
                }
                return Action::Nothing;
            },
            KeyCode::Left => {
                if app.selected_window > 0 {
                    app.selected_window = app.selected_window - 1;
                }
                return Action::Nothing;
            },
            KeyCode::Right => {
                if app.selected_window + 1 < window_count {
                    app.selected_window = app.selected_window + 1;
                }
                return Action::Nothing;
            },
            KeyCode::Char(c) => {
                if c == 'i' {
                    app.mode = AppMode::Insert;
                    return Action::Nothing;
                } else if c == 'v' {
                    app.add_window();
                    return Action::Nothing;
                } else if c == 's' {
                    return Action::Sync;
                } else if c == 'q' {
                    let sel = app.selected_window;
                    let unbound = app.windows[sel].selected_room_id.as_str().is_empty();
                    if window_count > 1 && unbound {
                        app.windows.remove(sel);
                        if sel != 0 {
                            app.selected_window = sel - 1;
                        }
                    } else if unbound {
                        app.running = false;
                    } else {
                        let mut w = app.windows.remove(sel);
                        w.written_msg = Vec::new();
                        w.selected_room_id = String::new();
                        w.selected_char = 1;
                        app.windows.insert(sel, w);
                        proof {
                            assert(app.windows@ =~= old(app).windows@.update(
                                sel as int,
                                (MessageWindow {
                                    selected_room_id: app.windows@[sel as int].selected_room_id,
                                    written_msg: app.windows@[sel as int].written_msg,
                                    selected_char: 1,
                                    ..old(app).windows@[sel as int]
                                }),
                            ));
                        }
                    }
                    return Action::Nothing;
                } else {
                    return Action::Nothing;
                }
            },
            _ => {
                return Action::Nothing;
            },
        },
        AppMode::Insert => match key {
            KeyCode::Esc => {
                app.mode = AppMode::Normal;
                return Action::Nothing;
            },
            KeyCode::Backspace => {
                edit_selected(app, EditOp::Backspace);
                return Action::Nothing;
            },
            KeyCode::Left => {
                edit_selected(app, EditOp::Left);
                return Action::Nothing;
            },
            KeyCode::Right => {
                edit_selected(app, EditOp::Right);
                return Action::Nothing;
            },
            KeyCode::Enter => {
                edit_selected(app, EditOp::Insert('\n'));
                return Action::Nothing;
            },
            KeyCode::Char(c) => {
                edit_selected(app, EditOp::Insert(c));
                return Action::Nothing;
            },
            _ => {
                return Action::Nothing;
            },
        },
    }
}

} // verus!

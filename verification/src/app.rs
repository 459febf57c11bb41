//! The application state: the modal multi-pane interface. Each pane
//! (window) is either bound to a room or shows the room picker, and
//! carries its own compose buffer and caret. The application owns the
//! ordered pane sequence, the selected-pane index and the input mode.

use vstd::prelude::*;
use vstd::string::*;
use crate::client::{DataHolder, Server, message_payload, message_payload_spec, send_message_path};

verus! {

/// Modes the app can be on: `Normal` takes commands, `Insert` takes text.
#[derive(Clone, Copy, Debug, PartialEq, Eq, Structural)]
pub enum AppMode {
    Normal,
    Insert,
}

/// One pane of the interface: the room it is bound to (empty identifier
/// means the pane shows the room picker), the picker cursor, the compose
/// buffer and the caret. The caret is one-based: caret 1 inserts before
/// the first character; caret 0 is the far clamp of moving left.
pub struct MessageWindow {
    pub selected_room_id: String,
    pub selected_room: usize,
    pub written_msg: Vec<char>,
    pub selected_char: usize,
}

/// One editing operation on a compose buffer.
#[derive(Clone, Copy, Debug, PartialEq, Eq, Structural)]
pub enum EditOp {
    Left,
    Right,
    Backspace,
    Insert(char),
}

/// The insertion position a caret stands for: the caret minus one,
/// clamped to the start of the buffer.
pub open spec fn caret_pos(caret: nat) -> nat {
    if caret == 0 {
        0
    } else {
        (caret - 1) as nat
    }
}

/// What one editing operation does to a buffer and caret: moving left or
/// right clamps to the buffer, backspace removes the character left of
/// the caret when there is one, and an insertion writes at the caret's
/// position and advances the caret past the written character.
pub open spec fn edit_step(buf: Seq<char>, caret: nat, op: EditOp) -> (Seq<char>, nat) {
    match op {
        EditOp::Left => (buf, if caret > 0 {
            (caret - 1) as nat
        } else {
            0
        }),
        EditOp::Right => (buf, if caret < buf.len() {
            caret + 1
        } else {
            caret
        }),
        EditOp::Backspace => if buf.len() > 0 && caret > 1 {
            (buf.remove(caret - 2), (caret - 1) as nat)
        } else {
            (buf, caret)
        },
        EditOp::Insert(c) => (buf.insert(caret_pos(caret) as int, c), caret_pos(caret) + 2),
    }
}

/// A buffer and caret after a whole sequence of editing operations.
pub open spec fn edit_fold(buf: Seq<char>, caret: nat, ops: Seq<EditOp>) -> (Seq<char>, nat)
    decreases ops.len(),
{
    if ops.len() == 0 {
        (buf, caret)
    } else {
        let prev = edit_fold(buf, caret, ops.drop_last());
        edit_step(prev.0, prev.1, ops.last())
    }
}

/// The caret-bounds law: whatever sequence of editing operations runs over
/// a compose buffer, the caret's insertion position stays within the
/// buffer — the caret never exceeds the buffer length plus one, so every
/// operation addresses an existing position and the buffer length never
/// strays below zero.
pub proof fn lemma_caret_bounds(buf: Seq<char>, caret: nat, ops: Seq<EditOp>)
    requires
        caret <= buf.len() + 1,
    ensures
        edit_fold(buf, caret, ops).1 <= edit_fold(buf, caret, ops).0.len() + 1,
        caret_pos(edit_fold(buf, caret, ops).1) <= edit_fold(buf, caret, ops).0.len(),
    decreases ops.len(),
{
    if ops.len() > 0 {
        lemma_caret_bounds(buf, caret, ops.drop_last());
    }
}

impl MessageWindow {
    /// A pane's caret always addresses a position of its buffer.
    pub open spec fn wf(self) -> bool {
        self.selected_char <= self.written_msg@.len() + 1
    }

    /// Whether the pane shows the room picker rather than a bound room.
    pub open spec fn is_unbound(self) -> bool {
        self.selected_room_id@.len() == 0
    }

    /// A fresh pane: unbound, picker at the top, empty buffer, caret 1.
    pub fn new() -> (w: MessageWindow)
        ensures
            w.selected_room_id@ == Seq::<char>::empty(),
            w.selected_room == 0,
            w.written_msg@ == Seq::<char>::empty(),
            w.selected_char == 1,
            w.wf(),
    {
        MessageWindow {
            selected_room_id: String::new(),
            selected_room: 0,
            written_msg: Vec::new(),
            selected_char: 1,
        }
    }

    /// Moves the caret one position left, clamping at zero.
    pub fn caret_left(&mut self)
        ensures
            (final(self).written_msg@, final(self).selected_char as nat) == edit_step(
                old(self).written_msg@,
                old(self).selected_char as nat,
                EditOp::Left,
            ),
            final(self).selected_room_id == old(self).selected_room_id,
            final(self).selected_room == old(self).selected_room,
            old(self).wf() ==> final(self).wf(),
    {
        if self.selected_char > 0 {
            self.selected_char = self.selected_char - 1;
        }
    }

    /// Moves the caret one position right, clamping at the buffer length.
    pub fn caret_right(&mut self)
        ensures
            (final(self).written_msg@, final(self).selected_char as nat) == edit_step(
                old(self).written_msg@,
                old(self).selected_char as nat,
                EditOp::Right,
            ),
            final(self).selected_room_id == old(self).selected_room_id,
            final(self).selected_room == old(self).selected_room,
            old(self).wf() ==> final(self).wf(),
    {
        if self.selected_char < self.written_msg.len() {
            self.selected_char = self.selected_char + 1;
        }
    }

    /// Removes the character left of the caret and moves the caret left;
    /// does nothing at the start of the buffer.
    pub fn backspace(&mut self)
        requires
            old(self).wf(),
        ensures
            (final(self).written_msg@, final(self).selected_char as nat) == edit_step(
                old(self).written_msg@,
                old(self).selected_char as nat,
                EditOp::Backspace,
            ),
            final(self).selected_room_id == old(self).selected_room_id,
            final(self).selected_room == old(self).selected_room,
            final(self).wf(),
    {
        if self.written_msg.len() > 0 && self.selected_char > 1 {
            self.written_msg.remove(self.selected_char - 2);
            self.selected_char = self.selected_char - 1;
        }
    }

    /// Writes one character at the caret's position and advances the
    /// caret past it.
    pub fn insert_char(&mut self, c: char)
        requires
            old(self).wf(),
            old(self).written_msg@.len() + 2 <= usize::MAX,
        ensures
            (final(self).written_msg@, final(self).selected_char as nat) == edit_step(
                old(self).written_msg@,
                old(self).selected_char as nat,
                EditOp::Insert(c),
            ),
            final(self).selected_room_id == old(self).selected_room_id,
            final(self).selected_room == old(self).selected_room,
            final(self).wf(),
    {
        let pos: usize = if self.selected_char == 0 {
            0
        } else {
            self.selected_char - 1
        };
        self.written_msg.insert(pos, c);
        self.selected_char = pos + 2;
    }
}

/// The application: whether the event loop keeps running, the synchronized
/// state store, the input mode, the panes and the selected-pane index,
/// and a few fields kept from the session's startup configuration.
pub struct App {
    pub running: bool,
    pub holder: DataHolder,
    pub selected_room: usize,
    pub selected_room_id: String,
    pub mode: AppMode,
    pub left_panel_width: u16,
    pub invites_height: u16,
    pub written_msg: String,
    pub selected_char: usize,
    pub selected_window: usize,
    pub windows: Vec<MessageWindow>,
}

/// What a message send needs from the transport: the request path of the
/// room and the JSON body to post.
pub struct SendRequest {
    pub path: String,
    pub body: String,
}

/// Whether every field of `b` but the pane sequence equals `a`'s.
pub open spec fn frame_except_windows(a: App, b: App) -> bool {
    &&& b.running == a.running
    &&& b.holder == a.holder
    &&& b.selected_room == a.selected_room
    &&& b.selected_room_id == a.selected_room_id
    &&& b.mode == a.mode
    &&& b.left_panel_width == a.left_panel_width
    &&& b.invites_height == a.invites_height
    &&& b.written_msg == a.written_msg
    &&& b.selected_char == a.selected_char
    &&& b.selected_window == a.selected_window
}

impl App {
    /// The structural invariant of the interface: at least one pane, the
    /// selected index inside the pane sequence, every caret inside its
    /// buffer, and every picker cursor inside the room list (at zero when
    /// no room is known yet).
    pub open spec fn wf(self) -> bool {
        &&& self.windows@.len() >= 1
        &&& self.selected_window < self.windows@.len()
        &&& forall|i: int| 0 <= i < self.windows@.len() ==> (#[trigger] self.windows@[i]).wf()
        &&& forall|i: int|
            0 <= i < self.windows@.len() ==> ((#[trigger] self.windows@[i]).selected_room
                < self.holder.rooms@.len() || self.windows@[i].selected_room == 0)
    }

    /// Constructs a new instance of [`App`]: running, an empty state store
    /// with the placeholder server and user, Normal mode, and one fresh
    /// unbound pane.
    pub fn new() -> (app: App)
        ensures
            app.running,
            app.holder.server.address@ == "YOUR-SERVER"@,
            app.holder.user_id@ == "YOUR-USER"@,
            app.holder.rooms@.len() == 0,
            app.holder.users@.len() == 0,
            app.holder.room_invites@.len() == 0,
            app.holder.token@ == Seq::<char>::empty(),
            app.holder.next_batch@ == Seq::<char>::empty(),
            app.mode == AppMode::Normal,
            app.selected_room == 0,
            app.selected_room_id@ == Seq::<char>::empty(),
            app.left_panel_width == 0,
            app.invites_height == 10,
            app.written_msg@ == Seq::<char>::empty(),
            app.selected_char == 0,
            app.selected_window == 0,
            app.windows@.len() == 1,
            app.windows@[0].selected_room_id@ == Seq::<char>::empty(),
            app.windows@[0].selected_room == 0,
            app.windows@[0].written_msg@ == Seq::<char>::empty(),
            app.windows@[0].selected_char == 1,
            app.wf(),
    {
        let mut windows: Vec<MessageWindow> = Vec::new();
        windows.push(MessageWindow::new());
        App {
            running: true,
            holder: DataHolder {
                server: Server { address: "YOUR-SERVER".to_owned() },
                user_id: "YOUR-USER".to_owned(),
                token: String::new(),
                rooms: Vec::new(),
                users: Vec::new(),
                room_invites: Vec::new(),
                next_batch: String::new(),
            },
            selected_room: 0,
            selected_room_id: String::new(),
            mode: AppMode::Normal,
            left_panel_width: 0,
            invites_height: 10,
            written_msg: String::new(),
            selected_char: 0,
            selected_window: 0,
            windows,
        }
    }

    /// Handles the tick event of the terminal: the state advances nothing
    /// by itself.
    pub fn tick(&self) {
    }

    /// Appends a fresh unbound pane; the selection does not move.
    pub fn add_window(&mut self)
        requires
            old(self).wf(),
        ensures
            final(self).windows@.len() == old(self).windows@.len() + 1,
            forall|i: int|
                0 <= i < old(self).windows@.len() ==> final(self).windows@[i] == old(
                    self,
                ).windows@[i],
            final(self).windows@.last().selected_room_id@ == Seq::<char>::empty(),
            final(self).windows@.last().selected_room == 0,
            final(self).windows@.last().written_msg@ == Seq::<char>::empty(),
            final(self).windows@.last().selected_char == 1,
            frame_except_windows(*old(self), *final(self)),
            final(self).wf(),
    {
        let window = MessageWindow::new();
        self.windows.push(window);
    }

    /// Binds the selected pane to the room its picker cursor stands on.
    /// A pane that is already bound, or a picker over an empty room list,
    /// is left as it is.
    pub fn sel_room(&mut self)
        requires
            old(self).wf(),
        ensures
            ({
                let w = old(self).windows@[old(self).selected_window as int];
                if w.is_unbound() && old(self).holder.rooms@.len() > 0 {
                    final(self).windows@ =~= old(self).windows@.update(
                        old(self).selected_window as int,
                        (MessageWindow {
                            selected_room_id: final(self).windows@[old(self).selected_window as int].selected_room_id,
                            ..w
                        }),
                    ) && final(self).windows@[old(self).selected_window as int].selected_room_id@
                        == old(self).holder.rooms@[w.selected_room as int].id@
                } else {
                    final(self).windows@ == old(self).windows@
                }
            }),
            frame_except_windows(*old(self), *final(self)),
            final(self).wf(),
    {
        if self.holder.rooms.len() == 0 {
            return ;
        }
        let sel = self.selected_window;
        if self.windows[sel].selected_room_id.as_str().is_empty() {
            let cursor = self.windows[sel].selected_room;
            let id = self.holder.rooms[cursor].id.clone();
            let mut w = self.windows.remove(sel);
            w.selected_room_id = id;
            self.windows.insert(sel, w);
            proof {
                assert(self.windows@ =~= old(self).windows@.update(
                    sel as int,
                    (MessageWindow {
                        selected_room_id: self.windows@[sel as int].selected_room_id,
                        ..old(self).windows@[sel as int]
                    }),
                ));
            }
        }
    }

    /// Takes the selected pane's composed message: empties the buffer,
    /// resets the caret, and returns the request path of the pane's room
    /// together with the JSON body that sends the buffer's text.
    pub fn send_message(&mut self) -> (r: SendRequest)
        requires
            old(self).wf(),
        ensures
            ({
                let w = old(self).windows@[old(self).selected_window as int];
                &&& r.path@ == "rooms/"@ + w.selected_room_id@ + "/send/m.room.message"@
                &&& r.body@ == message_payload_spec(w.written_msg@)
                &&& final(self).windows@ =~= old(self).windows@.update(
                    old(self).selected_window as int,
                    (MessageWindow {
                        written_msg: final(self).windows@[old(self).selected_window as int].written_msg,
                        selected_char: 1,
                        ..w
                    }),
                )
                &&& final(self).windows@[old(self).selected_window as int].written_msg@
                    == Seq::<char>::empty()
            }),
            frame_except_windows(*old(self), *final(self)),
            final(self).wf(),
    {
        let sel = self.selected_window;
        let body = message_payload(&self.windows[sel].written_msg);
        let path = send_message_path(self.windows[sel].selected_room_id.as_str());
        let mut w = self.windows.remove(sel);
        w.written_msg = Vec::new();
        w.selected_char = 1;
        self.windows.insert(sel, w);
        proof {
            assert(self.windows@ =~= old(self).windows@.update(
                sel as int,
                (MessageWindow {
                    written_msg: self.windows@[sel as int].written_msg,
                    selected_char: 1,
                    ..old(self).windows@[sel as int]
                }),
            ));
        }
        SendRequest { path, body }
    }
}

} // verus!

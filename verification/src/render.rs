//! The renderer: a read-only pass over the application state that
//! computes paint instructions — rectangles with border flags and either
//! a text or a list of items — for the terminal driver to draw. Only the
//! geometry and the displayed text are computed here; colours and styling
//! are the driver's business.

use vstd::prelude::*;
use vstd::string::*;
use crate::app::{App, AppMode};
use crate::client::{
    DataHolder, HolderView, Message, MessageView, RoomView, UserData, UserView,
    find_room, find_user, first_index, lemma_first_index, room_ids, user_ids,
};
use crate::layout::{layout, lemma_pane_grid, pane_w, pane_x};
use crate::text::{append_str, chars_to_string, count_char, count_char_str, count_matches, str_eq};

verus! {

/// A rectangular region of the terminal, in cells.
#[derive(Clone, Copy, Debug, PartialEq, Eq, Structural)]
pub struct Rect {
    pub x: u16,
    pub y: u16,
    pub width: u16,
    pub height: u16,
}

/// Which borders of a region are drawn.
#[derive(Clone, Copy, Debug, PartialEq, Eq, Structural)]
pub struct BorderFlags {
    pub top: bool,
    pub left: bool,
    pub right: bool,
}

/// A region painted with one text.
pub struct TextPaint {
    pub rect: Rect,
    pub borders: BorderFlags,
    pub selected: bool,
    pub text: String,
}

/// The mathematical value of a [`TextPaint`].
#[verifier::ext_equal]
pub struct TextPaintView {
    pub rect: Rect,
    pub borders: BorderFlags,
    pub selected: bool,
    pub text: Seq<char>,
}

impl View for TextPaint {
    type V = TextPaintView;

    open spec fn view(&self) -> TextPaintView {
        TextPaintView {
            rect: self.rect,
            borders: self.borders,
            selected: self.selected,
            text: self.text@,
        }
    }
}

/// A region painted with a list of items, one per row, with an optional
/// highlighted cursor row.
pub struct ListPaint {
    pub rect: Rect,
    pub borders: BorderFlags,
    pub selected: bool,
    pub items: Vec<String>,
    pub cursor: Option<usize>,
}

/// The mathematical value of a [`ListPaint`].
#[verifier::ext_equal]
pub struct ListPaintView {
    pub rect: Rect,
    pub borders: BorderFlags,
    pub selected: bool,
    pub items: Seq<Seq<char>>,
    pub cursor: Option<usize>,
}

impl View for ListPaint {
    type V = ListPaintView;

    open spec fn view(&self) -> ListPaintView {
        ListPaintView {
            rect: self.rect,
            borders: self.borders,
            selected: self.selected,
            items: self.items@.map_values(|s: String| s@),
            cursor: self.cursor,
        }
    }
}

/// One paint instruction.
pub enum PaintOp {
    Text(TextPaint),
    List(ListPaint),
}

/// The mathematical value of a [`PaintOp`].
#[verifier::ext_equal]
pub enum PaintOpView {
    Text(TextPaintView),
    List(ListPaintView),
}

impl View for PaintOp {
    type V = PaintOpView;

    open spec fn view(&self) -> PaintOpView {
        match self {
            PaintOp::Text(t) => PaintOpView::Text(t@),
            PaintOp::List(l) => PaintOpView::List(l@),
        }
    }
}

/// Why a frame could not be rendered: the state needs more rows or
/// columns than the terminal can address — most often a pathological
/// amount of newlines in a compose buffer. Reported, never fatal.
#[derive(Clone, Copy, Debug, PartialEq, Eq, Structural)]
pub enum RenderError {
    InputOverflow,
}

/// The display name of the user `id`, or `fallback` when the user is not
/// known yet.
pub open spec fn user_name_or(users: Seq<UserView>, id: Seq<char>, fallback: Seq<char>) -> Seq<
    char,
> {
    let i = first_index(user_ids(users), id);
    if i == -1 {
        fallback
    } else {
        users[i].name
    }
}

/// The label the room picker shows for one room: for a two-member room
/// the other member's display name, otherwise the room's identifier.
pub open spec fn room_label(h: HolderView, r: RoomView) -> Seq<char> {
    if r.members.len() == 2 {
        if r.members[0] == h.user_id {
            user_name_or(h.users, r.members[1], r.id)
        } else {
            user_name_or(h.users, r.members[0], r.id)
        }
    } else {
        r.id
    }
}

/// The labels of the room picker, in room order.
pub open spec fn room_labels(h: HolderView) -> Seq<Seq<char>> {
    h.rooms.map_values(|r: RoomView| room_label(h, r))
}

/// Computes the room-picker labels.
pub fn picker_labels(holder: &DataHolder) -> (r: Vec<String>)
    ensures
        r@.map_values(|s: String| s@) == room_labels(holder@),
{
    let mut r: Vec<String> = Vec::new();
    let mut i: usize = 0;
    while i < holder.rooms.len()
        invariant
            i <= holder.rooms@.len(),
            r@.map_values(|s: String| s@) =~= room_labels(holder@).take(i as int),
        decreases holder.rooms@.len() - i,
    {
        let ghost before = r@.map_values(|s: String| s@);
        let room = &holder.rooms[i];
        let label: String;
        if room.members.len() == 2 {
            let other: &String = if str_eq(room.members[0].as_str(), holder.user_id.as_str()) {
                &room.members[1]
            } else {
                &room.members[0]
            };
            assert(other@ == if holder@.rooms[i as int].members[0] == holder@.user_id {
                holder@.rooms[i as int].members[1]
            } else {
                holder@.rooms[i as int].members[0]
            });
            match find_user(&holder.users, other.as_str()) {
                Option::Some(u) => {
                    proof {
                        lemma_first_index(user_ids(holder@.users), other@);
                    }
                    label = holder.users[u].name.clone();
                },
                Option::None => {
                    label = room.id.clone();
                },
            }
        } else {
            label = room.id.clone();
        }
        assert(label@ == room_label(holder@, holder@.rooms[i as int]));
        r.push(label);
        proof {
            assert(r@.map_values(|s: String| s@) =~= before.push(label@));
            assert(before.push(label@) =~= room_labels(holder@).take(i + 1));
        }
        i += 1;
    }
    proof {
        assert(room_labels(holder@).take(holder.rooms@.len() as int) =~= room_labels(holder@));
    }
    r
}

/// The message texts of a room, in order.
pub open spec fn contents_of(msgs: Seq<MessageView>) -> Seq<Seq<char>> {
    msgs.map_values(|m: MessageView| m.content)
}

/// Computes the message texts of a room.
pub fn message_items(messages: &Vec<Message>) -> (r: Vec<String>)
    ensures
        r@.map_values(|s: String| s@) == contents_of(messages@.map_values(|m: Message| m@)),
{
    let ghost msgs = messages@.map_values(|m: Message| m@);
    let mut r: Vec<String> = Vec::new();
    let mut i: usize = 0;
    while i < messages.len()
        invariant
            i <= messages@.len(),
            msgs == messages@.map_values(|m: Message| m@),
            msgs.len() == messages@.len(),
            r@.map_values(|s: String| s@) =~= contents_of(msgs).take(i as int),
        decreases messages@.len() - i,
    {
        let ghost before = r@.map_values(|s: String| s@);
        r.push(messages[i].content.clone());
        proof {
            assert(r@.map_values(|s: String| s@) =~= before.push(msgs[i as int].content));
            assert(before.push(msgs[i as int].content) =~= contents_of(msgs).take(i + 1));
        }
        i += 1;
    }
    proof {
        assert(contents_of(msgs).take(msgs.len() as int) =~= contents_of(msgs));
    }
    r
}

/// The same name, `k` times over.
pub open spec fn repeat_name(name: Seq<char>, k: nat) -> Seq<Seq<char>>
    decreases k,
{
    if k == 0 {
        Seq::empty()
    } else {
        repeat_name(name, (k - 1) as nat).push(name)
    }
}

/// The sender-column entries of one message: an empty entry for an
/// unknown sender; otherwise the sender's display name, once and then
/// once more per newline of the message, so the name spans the rows the
/// message occupies.
pub open spec fn sender_entries(users: Seq<UserView>, m: MessageView) -> Seq<Seq<char>> {
    let i = first_index(user_ids(users), m.sender);
    if i == -1 {
        seq![Seq::<char>::empty()]
    } else {
        repeat_name(users[i].name, 1 + count_matches(m.content, '\n'))
    }
}

/// The sender column of a whole room, in message order.
pub open spec fn senders_of(users: Seq<UserView>, msgs: Seq<MessageView>) -> Seq<Seq<char>>
    decreases msgs.len(),
{
    if msgs.len() == 0 {
        Seq::empty()
    } else {
        senders_of(users, msgs.drop_last()) + sender_entries(users, msgs.last())
    }
}

/// Computes the sender column of a room.
pub fn sender_items(users: &Vec<UserData>, messages: &Vec<Message>) -> (r: Vec<String>)
    ensures
        r@.map_values(|s: String| s@) == senders_of(
            users@.map_values(|u: UserData| u@),
            messages@.map_values(|m: Message| m@),
        ),
{
    let ghost uv = users@.map_values(|u: UserData| u@);
    let ghost msgs = messages@.map_values(|m: Message| m@);
    let mut r: Vec<String> = Vec::new();
    let mut i: usize = 0;
    while i < messages.len()
        invariant
            i <= messages@.len(),
            uv == users@.map_values(|u: UserData| u@),
            msgs == messages@.map_values(|m: Message| m@),
            msgs.len() == messages@.len(),
            r@.map_values(|s: String| s@) =~= senders_of(uv, msgs.take(i as int)),
        decreases messages@.len() - i,
    {
        proof {
            assert(msgs.take(i + 1).drop_last() =~= msgs.take(i as int));
            assert(msgs.take(i + 1).last() == msgs[i as int]);
        }
        let ghost before = r@.map_values(|s: String| s@);
        let msg = &messages[i];
        match find_user(users, msg.sender.as_str()) {
            Option::None => {
                r.push(String::new());
                proof {
                    assert(r@.map_values(|s: String| s@) =~= before.push(Seq::<char>::empty()));
                    assert(before.push(Seq::<char>::empty()) =~= before + seq![
                        Seq::<char>::empty(),
                    ]);
                }
            },
            Option::Some(u) => {
                proof {
                    lemma_first_index(user_ids(uv), msg.sender@);
                }
                let nl: usize = count_char_str(msg.content.as_str(), '\n');
                let ghost name = uv[u as int].name;
                r.push(users[u].name.clone());
                proof {
                    assert(r@.map_values(|s: String| s@) =~= before.push(name));
                    assert(repeat_name(name, 0) =~= Seq::<Seq<char>>::empty());
                    assert(repeat_name(name, 1) =~= Seq::<Seq<char>>::empty().push(name));
                    assert(before.push(name) =~= before + repeat_name(name, 1));
                }
                let mut k: usize = 0;
                while k < nl
                    invariant
                        k <= nl,
                        uv == users@.map_values(|u2: UserData| u2@),
                        u < users@.len(),
                        name == uv[u as int].name,
                        users@[u as int].name@ == name,
                        r@.map_values(|s: String| s@) =~= before + repeat_name(name, (1 + k) as nat),
                    decreases nl - k,
                {
                    let ghost mid = r@.map_values(|s: String| s@);
                    r.push(users[u].name.clone());
                    proof {
                        assert(r@.map_values(|s: String| s@) =~= mid.push(name));
                        assert(mid.push(name) =~= before + repeat_name(name, (1 + k + 1) as nat));
                    }
                    k += 1;
                }
                proof {
                    assert(r@.map_values(|s: String| s@) =~= before + sender_entries(
                        uv,
                        msgs[i as int],
                    ));
                }
            },
        }
        proof {
            assert(r@.map_values(|s: String| s@) =~= senders_of(uv, msgs.take(i + 1)));
        }
        i += 1;
    }
    proof {
        assert(msgs.take(msgs.len() as int) =~= msgs);
    }
    r
}

/// The rows the status bar reserves under the panes in Insert mode.
pub open spec fn lowbar_of(mode: AppMode) -> int {
    if mode == AppMode::Insert {
        1
    } else {
        0
    }
}

/// The fixed rows reserved under a bound pane's lists.
pub open spec fn lowbar_height_of(mode: AppMode) -> int {
    if mode == AppMode::Insert {
        4
    } else {
        3
    }
}

/// The rows the whole frame needs below the panes.
pub open spec fn min_rows_of(mode: AppMode) -> int {
    if mode == AppMode::Insert {
        2
    } else {
        1
    }
}

/// Whether the compose bar of pane `i` is drawn: it holds text, or the
/// pane is selected while Insert mode is active.
pub open spec fn bar_shown(app: App, i: int) -> bool {
    let w = app.windows@[i];
    w.written_msg@.len() != 0 || (app.mode == AppMode::Insert && i == app.selected_window as int)
}

/// Whether pane `i` fits the terminal: its lists keep at least zero rows
/// after the compose buffer's newlines and the reserved rows, its message
/// column is no wider than the pane, and a drawn compose bar has a column
/// to stand in. A picker pane always fits.
pub open spec fn window_fits(app: App, width: u16, height: u16, i: int) -> bool {
    let n = app.windows@.len() as int;
    let sel = app.selected_window as int;
    let w = app.windows@[i];
    let ww = pane_w(width, n, sel, i);
    if w.selected_room_id@.len() == 0 {
        true
    } else {
        let nl = count_matches(w.written_msg@, '\n') as int;
        &&& nl + lowbar_of(app.mode) + lowbar_height_of(app.mode) <= height as int
        &&& ww / 5 + (if i == sel {
            2int
        } else {
            0int
        }) <= ww
        &&& (bar_shown(app, i) ==> ww >= 1)
    }
}

/// Whether the whole frame fits the terminal: one column per pane at
/// least, the rows the status bar needs, and every pane fits.
pub open spec fn render_fits(app: App, width: u16, height: u16) -> bool {
    &&& app.windows@.len() <= width as int
    &&& min_rows_of(app.mode) <= height as int
    &&& forall|i: int| 0 <= i < app.windows@.len() ==> window_fits(app, width, height, i)
}

/// The messages of the room pane `i` is bound to; none when the bound
/// identifier is unknown to the store.
pub open spec fn bound_messages(app: App, i: int) -> Seq<MessageView> {
    let ridx = first_index(room_ids(app.holder@.rooms), app.windows@[i].selected_room_id@);
    if ridx == -1 {
        Seq::empty()
    } else {
        app.holder@.rooms[ridx].messages
    }
}

/// The border flags of pane `i`.
pub open spec fn borders_of(app: App, i: int) -> BorderFlags {
    let n = app.windows@.len() as int;
    let sel = app.selected_window as int;
    BorderFlags { top: true, left: i != 0 && i == sel, right: i != n - 1 && i + 1 != sel }
}

/// The picker instruction of an unbound pane: the room list with the
/// pane's cursor, over the full pane height above the status rows.
pub open spec fn picker_op(app: App, width: u16, height: u16, i: int) -> PaintOpView {
    let n = app.windows@.len() as int;
    let sel = app.selected_window as int;
    let w = app.windows@[i];
    PaintOpView::List(
        ListPaintView {
            rect: Rect {
                x: pane_x(width, n, sel, i) as u16,
                y: 0,
                width: pane_w(width, n, sel, i) as u16,
                height: (height as int - min_rows_of(app.mode)) as u16,
            },
            borders: borders_of(app, i),
            selected: i == sel,
            items: room_labels(app.holder@),
            cursor: Option::Some(w.selected_room),
        },
    )
}

/// The title box of a bound pane.
pub open spec fn title_op(app: App, width: u16, height: u16, i: int) -> PaintOpView {
    let n = app.windows@.len() as int;
    let sel = app.selected_window as int;
    let w = app.windows@[i];
    PaintOpView::Text(
        TextPaintView {
            rect: Rect {
                x: pane_x(width, n, sel, i) as u16,
                y: 0,
                width: pane_w(width, n, sel, i) as u16,
                height: (height as int - 1 - lowbar_of(app.mode)) as u16,
            },
            borders: borders_of(app, i),
            selected: i == sel,
            text: "Messages for room "@ + " "@ + w.selected_room_id@,
        },
    )
}

/// The column shift of a selected pane that is not leftmost.
pub open spec fn move_x_of(app: App, i: int) -> int {
    if i == app.selected_window as int && i != 0 {
        1
    } else {
        0
    }
}

/// The width taken off a selected pane's message column.
pub open spec fn move_w_of(app: App, i: int) -> int {
    if i == app.selected_window as int {
        2
    } else {
        0
    }
}

/// The rows left for a bound pane's lists.
pub open spec fn lists_h_of(app: App, height: u16, i: int) -> int {
    height as int - count_matches(app.windows@[i].written_msg@, '\n') as int - lowbar_of(app.mode)
        - lowbar_height_of(app.mode)
}

/// The sender column of a bound pane.
pub open spec fn senders_op(app: App, width: u16, height: u16, i: int) -> PaintOpView {
    let n = app.windows@.len() as int;
    let sel = app.selected_window as int;
    PaintOpView::List(
        ListPaintView {
            rect: Rect {
                x: (pane_x(width, n, sel, i) + move_x_of(app, i)) as u16,
                y: 1,
                width: (pane_w(width, n, sel, i) / 5) as u16,
                height: lists_h_of(app, height, i) as u16,
            },
            borders: BorderFlags { top: false, left: false, right: true },
            selected: i == sel,
            items: senders_of(app.holder@.users, bound_messages(app, i)),
            cursor: Option::None,
        },
    )
}

/// The message column of a bound pane.
pub open spec fn texts_op(app: App, width: u16, height: u16, i: int) -> PaintOpView {
    let n = app.windows@.len() as int;
    let sel = app.selected_window as int;
    let ww = pane_w(width, n, sel, i);
    PaintOpView::List(
        ListPaintView {
            rect: Rect {
                x: (pane_x(width, n, sel, i) + ww / 5 + move_x_of(app, i)) as u16,
                y: 1,
                width: (ww - ww / 5 - move_w_of(app, i)) as u16,
                height: lists_h_of(app, height, i) as u16,
            },
            borders: BorderFlags { top: false, left: false, right: false },
            selected: i == sel,
            items: contents_of(bound_messages(app, i)),
            cursor: Option::None,
        },
    )
}

/// The compose bar of a bound pane, when it is shown.
pub open spec fn bar_op(app: App, width: u16, height: u16, i: int) -> PaintOpView {
    let n = app.windows@.len() as int;
    let sel = app.selected_window as int;
    let w = app.windows@[i];
    let nl = count_matches(w.written_msg@, '\n') as int;
    PaintOpView::Text(
        TextPaintView {
            rect: Rect {
                x: pane_x(width, n, sel, i) as u16,
                y: (height as int - lowbar_of(app.mode) - nl - 3) as u16,
                width: (pane_w(width, n, sel, i) - 1) as u16,
                height: (nl + 2) as u16,
            },
            borders: BorderFlags { top: true, left: false, right: false },
            selected: i == sel,
            text: " $> "@ + w.written_msg@,
        },
    )
}

/// The paint instructions of pane `i`: a picker pane paints the room list
/// with its cursor; a bound pane paints its title box, the sender column,
/// the message column, and, when shown, the compose bar.
pub open spec fn window_ops(app: App, width: u16, height: u16, i: int) -> Seq<PaintOpView> {
    if app.windows@[i].selected_room_id@.len() == 0 {
        seq![picker_op(app, width, height, i)]
    } else {
        let base_ops = seq![
            title_op(app, width, height, i),
            senders_op(app, width, height, i),
            texts_op(app, width, height, i),
        ];
        if bar_shown(app, i) {
            base_ops.push(bar_op(app, width, height, i))
        } else {
            base_ops
        }
    }
}

/// The paint instructions of the first `k` panes, in pane order.
pub open spec fn windows_ops(app: App, width: u16, height: u16, k: int) -> Seq<PaintOpView>
    decreases k,
{
    if k <= 0 {
        Seq::empty()
    } else {
        windows_ops(app, width, height, k - 1) + window_ops(app, width, height, k - 1)
    }
}

/// The status bar under the panes: the session label on the left half,
/// the client label on the right half, and the Insert banner on the last
/// row while Insert mode is active.
pub open spec fn footer_ops(app: App, width: u16, height: u16) -> Seq<PaintOpView> {
    let y = (height as int - min_rows_of(app.mode)) as u16;
    let no_borders = BorderFlags { top: false, left: false, right: false };
    let left = PaintOpView::Text(
        TextPaintView {
            rect: Rect { x: 0, y, width: width / 2, height: 1 },
            borders: no_borders,
            selected: false,
            text: "Logged in as [USERNAME]"@,
        },
    );
    let right = PaintOpView::Text(
        TextPaintView {
            rect: Rect { x: width / 2, y, width: width / 2, height: 1 },
            borders: no_borders,
            selected: false,
            text: "Determinant Alpha 0.1"@,
        },
    );
    let base_ops = seq![left, right];
    if app.mode == AppMode::Insert {
        base_ops.push(
            PaintOpView::Text(
                TextPaintView {
                    rect: Rect { x: 0, y: (height - 1) as u16, width, height: 1 },
                    borders: no_borders,
                    selected: false,
                    text: "-- INSERT --"@,
                },
            ),
        )
    } else {
        base_ops
    }
}

/// Every paint instruction of one frame: the panes in order, then the
/// status bar.
pub open spec fn render_spec(app: App, width: u16, height: u16) -> Seq<PaintOpView> {
    windows_ops(app, width, height, app.windows@.len() as int) + footer_ops(app, width, height)
}

/// Computes the paint instructions of pane `i`, or refuses the frame
/// when the pane does not fit.
fn paint_window(app: &App, width: u16, height: u16, x: u16, ww: u16, i: usize) -> (r: Result<
    Vec<PaintOp>,
    RenderError,
>)
    requires
        app.wf(),
        i < app.windows@.len(),
        app.windows@.len() <= width as int,
        min_rows_of(app.mode) <= height as int,
        x as int == pane_x(width, app.windows@.len() as int, app.selected_window as int, i as int),
        ww as int == pane_w(width, app.windows@.len() as int, app.selected_window as int, i as int),
    ensures
        r matches Result::Ok(v) ==> window_fits(*app, width, height, i as int)
            && v@.map_values(|o: PaintOp| o@) == window_ops(*app, width, height, i as int),
        r matches Result::Err(e) ==> !window_fits(*app, width, height, i as int) && e
            == RenderError::InputOverflow,
{
    if app.windows[i].selected_room_id.as_str().is_empty() {
        let n = app.windows.len();
        let min_h: u16 = match app.mode {
            AppMode::Insert => 2,
            AppMode::Normal => 1,
        };
        let flags = crate::layout::border_flags(n, app.selected_window, i);
        let borders = BorderFlags { top: flags.0, left: flags.1, right: flags.2 };
        let items = picker_labels(&app.holder);
        let mut ops: Vec<PaintOp> = Vec::new();
        ops.push(
            PaintOp::List(
                ListPaint {
                    rect: Rect { x, y: 0, width: ww, height: height - min_h },
                    borders,
                    selected: i == app.selected_window,
                    items,
                    cursor: Option::Some(app.windows[i].selected_room),
                },
            ),
        );
        proof {
            assert(ops@[0]@ =~~= picker_op(*app, width, height, i as int));
            assert(ops@.map_values(|o: PaintOp| o@) =~~= window_ops(*app, width, height, i as int));
        }
        Result::Ok(ops)
    } else {
        proof {
            lemma_pane_grid(width, app.windows@.len() as int, app.selected_window as int);
        }
        paint_bound_window(app, width, height, x, ww, i)
    }
}

/// Computes the paint instructions of a bound pane, or refuses the frame
/// when the pane does not fit.
#[verifier::rlimit(100)]
fn paint_bound_window(app: &App, width: u16, height: u16, x: u16, ww: u16, i: usize) -> (r: Result<
    Vec<PaintOp>,
    RenderError,
>)
    requires
        app.wf(),
        i < app.windows@.len(),
        app.windows@.len() <= width as int,
        min_rows_of(app.mode) <= height as int,
        x as int == pane_x(width, app.windows@.len() as int, app.selected_window as int, i as int),
        ww as int == pane_w(width, app.windows@.len() as int, app.selected_window as int, i as int),
        app.windows@[i as int].selected_room_id@.len() != 0,
        x as int + ww as int <= width as int,
        i == app.selected_window && i != 0 ==> ww >= 2,
    ensures
        r matches Result::Ok(v) ==> window_fits(*app, width, height, i as int)
            && v@.map_values(|o: PaintOp| o@) == window_ops(*app, width, height, i as int),
        r matches Result::Err(e) ==> !window_fits(*app, width, height, i as int) && e
            == RenderError::InputOverflow,
{
    let n = app.windows.len();
    let is_sel = i == app.selected_window;
    let flags = crate::layout::border_flags(n, app.selected_window, i);
    let borders = BorderFlags { top: flags.0, left: flags.1, right: flags.2 };
    let nl: usize = count_char(&app.windows[i].written_msg, '\n');
    let lowbar: u16 = match app.mode {
        AppMode::Insert => 1,
        AppMode::Normal => 0,
    };
    let lbh: u16 = match app.mode {
        AppMode::Insert => 4,
        AppMode::Normal => 3,
    };
    let fixed: usize = (lowbar + lbh) as usize;
    if (height as usize) < fixed || nl > (height as usize) - fixed {
        proof {
            assert(!window_fits(*app, width, height, i as int));
        }
        return Result::Err(RenderError::InputOverflow);
    }
    let wwu = ww as usize;
    let move_w: usize = if is_sel {
        2
    } else {
        0
    };
    if wwu / 5 + move_w > wwu {
        proof {
            assert(!window_fits(*app, width, height, i as int));
        }
        return Result::Err(RenderError::InputOverflow);
    }
    let shown = app.windows[i].written_msg.len() > 0 || (matches!(app.mode, AppMode::Insert)
        && is_sel);
    assert(shown == bar_shown(*app, i as int));
    if shown && ww < 1 {
        proof {
            assert(!window_fits(*app, width, height, i as int));
        }
        return Result::Err(RenderError::InputOverflow);
    }
    let mut title = "Messages for room ".to_owned();
    append_str(&mut title, " ");
    append_str(&mut title, app.windows[i].selected_room_id.as_str());
    let senders: Vec<String>;
    let texts: Vec<String>;
    match find_room(&app.holder.rooms, app.windows[i].selected_room_id.as_str()) {
        Option::Some(rj) => {
            proof {
                lemma_first_index(
                    room_ids(app.holder@.rooms),
                    app.windows@[i as int].selected_room_id@,
                );
            }
            senders = sender_items(&app.holder.users, &app.holder.rooms[rj].messages);
            texts = message_items(&app.holder.rooms[rj].messages);
        },
        Option::None => {
            senders = Vec::new();
            texts = Vec::new();
            proof {
                assert(contents_of(Seq::<MessageView>::empty()) =~= Seq::<Seq<char>>::empty());
                assert(senders@.map_values(|s: String| s@) =~= Seq::<Seq<char>>::empty());
                assert(texts@.map_values(|s: String| s@) =~= Seq::<Seq<char>>::empty());
            }
        },
    }
    let move_x: u16 = if is_sel && i != 0 {
        1
    } else {
        0
    };
    let lists_h: u16 = height - (nl as u16) - lowbar - lbh;
    let op_title = PaintOp::Text(
        TextPaint {
            rect: Rect { x, y: 0, width: ww, height: height - 1 - lowbar },
            borders,
            selected: is_sel,
            text: title,
        },
    );
    proof {
        assert(op_title@ =~~= title_op(*app, width, height, i as int));
    }
    let op_senders = PaintOp::List(
        ListPaint {
            rect: Rect { x: x + move_x, y: 1, width: ww / 5, height: lists_h },
            borders: BorderFlags { top: false, left: false, right: true },
            selected: is_sel,
            items: senders,
            cursor: Option::None,
        },
    );
    proof {
        assert(op_senders@ =~~= senders_op(*app, width, height, i as int));
    }
    let op_texts = PaintOp::List(
        ListPaint {
            rect: Rect {
                x: x + ww / 5 + move_x,
                y: 1,
                width: ww - ww / 5 - (move_w as u16),
                height: lists_h,
            },
            borders: BorderFlags { top: false, left: false, right: false },
            selected: is_sel,
            items: texts,
            cursor: Option::None,
        },
    );
    proof {
        assert(op_texts@ =~~= texts_op(*app, width, height, i as int));
    }
    let mut ops: Vec<PaintOp> = Vec::new();
    ops.push(op_title);
    ops.push(op_senders);
    ops.push(op_texts);
    if shown {
        let mut bar = " $> ".to_owned();
        let buffer = chars_to_string(&app.windows[i].written_msg);
        append_str(&mut bar, buffer.as_str());
        let op_bar = PaintOp::Text(
            TextPaint {
                rect: Rect {
                    x,
                    y: height - lowbar - (nl as u16) - 3,
                    width: ww - 1,
                    height: (nl as u16) + 2,
                },
                borders: BorderFlags { top: true, left: false, right: false },
                selected: is_sel,
                text: bar,
            },
        );
        proof {
            assert(op_bar@ =~~= bar_op(*app, width, height, i as int));
        }
        ops.push(op_bar);
    }
    proof {
        assert(ops@.map_values(|o: PaintOp| o@) =~~= window_ops(*app, width, height, i as int));
    }
    Result::Ok(ops)
}

impl App {
    /// Renders the user interface: computes the paint instructions of one
    /// frame without mutating anything. When the state needs more rows or
    /// columns than the terminal has - most often through newlines in a
    /// compose buffer - the frame is refused with `InputOverflow` instead.
    pub fn render(&self, width: u16, height: u16) -> (r: Result<Vec<PaintOp>, RenderError>)
        requires
            self.wf(),
        ensures
            r matches Result::Ok(ops) ==> render_fits(*self, width, height)
                && ops@.map_values(|o: PaintOp| o@) == render_spec(*self, width, height),
            r matches Result::Err(e) ==> !render_fits(*self, width, height) && e
                == RenderError::InputOverflow,
    {
        let ghost n_g = self.windows@.len() as int;
        let ghost sel_g = self.selected_window as int;
        let n = self.windows.len();
        if (width as usize) < n {
            return Result::Err(RenderError::InputOverflow);
        }
        let min_h: u16 = match self.mode {
            AppMode::Insert => 2,
            AppMode::Normal => 1,
        };
        if height < min_h {
            return Result::Err(RenderError::InputOverflow);
        }
        let slots = layout(width, n, self.selected_window);
        let mut ops: Vec<PaintOp> = Vec::new();
        let mut i: usize = 0;
        while i < n
            invariant
                self.wf(),
                i <= n,
                n == self.windows@.len(),
                n_g == n as int,
                sel_g == self.selected_window as int,
                n <= width as usize,
                1 <= n,
                min_h as int == min_rows_of(self.mode),
                min_h <= height,
                slots@.len() == n,
                forall|j: int|
                    0 <= j < n ==> (#[trigger] slots@[j]).0 as int == pane_x(width, n_g, sel_g, j)
                        && slots@[j].1 as int == pane_w(width, n_g, sel_g, j),
                forall|j: int| 0 <= j < i ==> window_fits(*self, width, height, j),
                ops@.map_values(|o: PaintOp| o@) =~= windows_ops(*self, width, height, i as int),
            decreases n - i,
        {
            let slot = slots[i];
            match paint_window(self, width, height, slot.0, slot.1, i) {
                Result::Ok(mut v) => {
                    let ghost vmap = v@.map_values(|o: PaintOp| o@);
                    let ghost ops_before = ops@.map_values(|o: PaintOp| o@);
                    ops.append(&mut v);
                    proof {
                        assert(ops@.map_values(|o: PaintOp| o@) =~= ops_before + vmap);
                    }
                },
                Result::Err(e) => {
                    proof {
                        assert(!render_fits(*self, width, height)) by {
                            assert(!window_fits(*self, width, height, i as int));
                        }
                    }
                    return Result::Err(e);
                },
            }
            i += 1;
        }
        let ghost ops_windows = ops@.map_values(|o: PaintOp| o@);
        let y: u16 = height - min_h;
        let no_borders = BorderFlags { top: false, left: false, right: false };
        ops.push(
            PaintOp::Text(
                TextPaint {
                    rect: Rect { x: 0, y, width: width / 2, height: 1 },
                    borders: no_borders,
                    selected: false,
                    text: "Logged in as [USERNAME]".to_owned(),
                },
            ),
        );
        ops.push(
            PaintOp::Text(
                TextPaint {
                    rect: Rect { x: width / 2, y, width: width / 2, height: 1 },
                    borders: no_borders,
                    selected: false,
                    text: "Determinant Alpha 0.1".to_owned(),
                },
            ),
        );
        if matches!(self.mode, AppMode::Insert) {
            ops.push(
                PaintOp::Text(
                    TextPaint {
                        rect: Rect { x: 0, y: height - 1, width, height: 1 },
                        borders: no_borders,
                        selected: false,
                        text: "-- INSERT --".to_owned(),
                    },
                ),
            );
        }
        proof {
            assert(ops@.map_values(|o: PaintOp| o@) =~~= ops_windows + footer_ops(
                *self,
                width,
                height,
            ));
        }
        Result::Ok(ops)
    }
}

} // verus!

//! The client's data model: rooms, users, messages and the session state
//! that the sync engine folds server snapshots into, together with the
//! construction of the request URLs and request bodies that the transport
//! sends. The transport itself (HTTP, JSON decoding) lives outside the
//! crate and exchanges plain values with it.

use vstd::prelude::*;
use vstd::string::*;
use crate::text::{push_char, append_str, encode_colons, encode_colons_spec};

verus! {

/// One timeline message of a room. Immutable once created.
pub struct Message {
    pub sender: String,
    pub room: String,
    pub content: String,
    pub msgtype: String,
}

/// The mathematical value of a [`Message`]: its four fields as character
/// sequences.
#[verifier::ext_equal]
pub struct MessageView {
    pub sender: Seq<char>,
    pub room: Seq<char>,
    pub content: Seq<char>,
    pub msgtype: Seq<char>,
}

impl View for Message {
    type V = MessageView;

    open spec fn view(&self) -> MessageView {
        MessageView {
            sender: self.sender@,
            room: self.room@,
            content: self.content@,
            msgtype: self.msgtype@,
        }
    }
}

/// One known user: identifier, display name, online flag and the rooms the
/// user was seen joined to.
pub struct UserData {
    pub id: String,
    pub name: String,
    pub is_online: bool,
    pub rooms: Vec<String>,
}

/// The mathematical value of a [`UserData`].
#[verifier::ext_equal]
pub struct UserView {
    pub id: Seq<char>,
    pub name: Seq<char>,
    pub is_online: bool,
    pub rooms: Seq<Seq<char>>,
}

impl View for UserData {
    type V = UserView;

    open spec fn view(&self) -> UserView {
        UserView {
            id: self.id@,
            name: self.name@,
            is_online: self.is_online,
            rooms: self.rooms@.map_values(|s: String| s@),
        }
    }
}

/// One joined room: identifier, optional alias, member identifiers in the
/// order their joins were observed, messages in arrival order, and the
/// unread counter reported when the room was first seen.
pub struct RoomData {
    pub id: String,
    pub alias: String,
    pub members: Vec<String>,
    pub messages: Vec<Message>,
    pub unread_msgs: u32,
}

/// The mathematical value of a [`RoomData`].
#[verifier::ext_equal]
pub struct RoomView {
    pub id: Seq<char>,
    pub alias: Seq<char>,
    pub members: Seq<Seq<char>>,
    pub messages: Seq<MessageView>,
    pub unread_msgs: u32,
}

impl View for RoomData {
    type V = RoomView;

    open spec fn view(&self) -> RoomView {
        RoomView {
            id: self.id@,
            alias: self.alias@,
            members: self.members@.map_values(|s: String| s@),
            messages: self.messages@.map_values(|m: Message| m@),
            unread_msgs: self.unread_msgs,
        }
    }
}

/// The server a session talks to: its base address.
pub struct Server {
    pub address: String,
}

/// Holds the global data for the client: the server, the identity and
/// token of the session, the room and user state, pending invites and the
/// sync cursor.
pub struct DataHolder {
    pub server: Server,
    pub user_id: String,
    pub token: String,
    pub rooms: Vec<RoomData>,
    pub users: Vec<UserData>,
    pub room_invites: Vec<String>,
    pub next_batch: String,
}

/// The mathematical value of a [`DataHolder`].
#[verifier::ext_equal]
pub struct HolderView {
    pub address: Seq<char>,
    pub user_id: Seq<char>,
    pub token: Seq<char>,
    pub rooms: Seq<RoomView>,
    pub users: Seq<UserView>,
    pub room_invites: Seq<Seq<char>>,
    pub next_batch: Seq<char>,
}

impl View for DataHolder {
    type V = HolderView;

    open spec fn view(&self) -> HolderView {
        HolderView {
            address: self.server.address@,
            user_id: self.user_id@,
            token: self.token@,
            rooms: self.rooms@.map_values(|r: RoomData| r@),
            users: self.users@.map_values(|u: UserData| u@),
            room_invites: self.room_invites@.map_values(|s: String| s@),
            next_batch: self.next_batch@,
        }
    }
}

/// The identifiers of a room sequence, in order.
pub open spec fn room_ids(rooms: Seq<RoomView>) -> Seq<Seq<char>> {
    rooms.map_values(|r: RoomView| r.id)
}

/// The identifiers of a user sequence, in order.
pub open spec fn user_ids(users: Seq<UserView>) -> Seq<Seq<char>> {
    users.map_values(|u: UserView| u.id)
}

/// The index of the first occurrence of `id` in `ids`, or `-1` if absent.
pub open spec fn first_index(ids: Seq<Seq<char>>, id: Seq<char>) -> int
    decreases ids.len(),
{
    if ids.len() == 0 {
        -1
    } else if ids.first() == id {
        0
    } else {
        let r = first_index(ids.drop_first(), id);
        if r == -1 {
            -1
        } else {
            r + 1
        }
    }
}

/// What `first_index` returns: `-1` exactly when `id` is absent, and
/// otherwise the first position that holds `id`.
pub proof fn lemma_first_index(ids: Seq<Seq<char>>, id: Seq<char>)
    ensures
        first_index(ids, id) == -1 ==> forall|j: int| 0 <= j < ids.len() ==> ids[j] != id,
        first_index(ids, id) != -1 ==> {
            let r = first_index(ids, id);
            &&& 0 <= r < ids.len()
            &&& ids[r] == id
            &&& forall|j: int| 0 <= j < r ==> ids[j] != id
        },
    decreases ids.len(),
{
    if ids.len() > 0 && ids.first() != id {
        lemma_first_index(ids.drop_first(), id);
        assert forall|j: int| 1 <= j < ids.len() implies ids[j] == ids.drop_first()[j - 1] by {}
    }
}

/// A scan that found `id` first at `i` agrees with `first_index`.
pub proof fn lemma_first_index_at(ids: Seq<Seq<char>>, id: Seq<char>, i: int)
    requires
        0 <= i < ids.len(),
        ids[i] == id,
        forall|j: int| 0 <= j < i ==> ids[j] != id,
    ensures
        first_index(ids, id) == i,
    decreases i,
{
    if i > 0 {
        lemma_first_index_at(ids.drop_first(), id, i - 1);
    }
}

/// A scan that found `id` nowhere agrees with `first_index`.
pub proof fn lemma_first_index_none(ids: Seq<Seq<char>>, id: Seq<char>)
    requires
        forall|j: int| 0 <= j < ids.len() ==> ids[j] != id,
    ensures
        first_index(ids, id) == -1,
    decreases ids.len(),
{
    if ids.len() > 0 {
        lemma_first_index_none(ids.drop_first(), id);
    }
}

/// Finds the position of the room with identifier `id`, scanning in order.
pub fn find_room(rooms: &Vec<RoomData>, id: &str) -> (r: Option<usize>)
    ensures
        match r {
            Some(i) => i == first_index(room_ids(rooms@.map_values(|r: RoomData| r@)), id@),
            None => first_index(room_ids(rooms@.map_values(|r: RoomData| r@)), id@) == -1,
        },
{
    let ghost ids = room_ids(rooms@.map_values(|r: RoomData| r@));
    let mut i: usize = 0;
    while i < rooms.len()
        invariant
            i <= rooms@.len(),
            ids == room_ids(rooms@.map_values(|r: RoomData| r@)),
            ids.len() == rooms@.len(),
            forall|j: int| 0 <= j < i ==> ids[j] != id@,
        decreases rooms@.len() - i,
    {
        assert(ids[i as int] == rooms@[i as int].id@);
        if crate::text::str_eq(rooms[i].id.as_str(), id) {
            proof {
                lemma_first_index_at(ids, id@, i as int);
            }
            return Some(i);
        }
        i += 1;
    }
    proof {
        lemma_first_index_none(ids, id@);
    }
    None
}

/// Finds the position of the user with identifier `id`, scanning in order.
pub fn find_user(users: &Vec<UserData>, id: &str) -> (r: Option<usize>)
    ensures
        match r {
            Some(i) => i == first_index(user_ids(users@.map_values(|u: UserData| u@)), id@),
            None => first_index(user_ids(users@.map_values(|u: UserData| u@)), id@) == -1,
        },
{
    let ghost ids = user_ids(users@.map_values(|u: UserData| u@));
    let mut i: usize = 0;
    while i < users.len()
        invariant
            i <= users@.len(),
            ids == user_ids(users@.map_values(|u: UserData| u@)),
            ids.len() == users@.len(),
            forall|j: int| 0 <= j < i ==> ids[j] != id@,
        decreases users@.len() - i,
    {
        assert(ids[i as int] == users@[i as int].id@);
        if crate::text::str_eq(users[i].id.as_str(), id) {
            proof {
                lemma_first_index_at(ids, id@, i as int);
            }
            return Some(i);
        }
        i += 1;
    }
    proof {
        lemma_first_index_none(ids, id@);
    }
    None
}

/// The path prefix every client request is sent under.
pub open spec fn api_prefix() -> Seq<char> {
    "/_matrix/client/r0/"@
}

/// The query string that a parameter list appends to a GET request:
/// `"&"` before each parameter, in order.
pub open spec fn params_query(params: Seq<Seq<char>>) -> Seq<char>
    decreases params.len(),
{
    if params.len() == 0 {
        Seq::empty()
    } else {
        params_query(params.drop_last()) + "&"@ + params.last()
    }
}

impl Server {
    /// The URL of a GET request: base address, API prefix, path, the access
    /// token as a query credential, then every extra parameter after a `&`.
    pub fn get_request_url(&self, path: &str, params: &Vec<String>, token: &str) -> (r: String)
        ensures
            r@ == self.address@ + api_prefix() + path@ + "?access_token="@ + token@
                + params_query(params@.map_values(|s: String| s@)),
    {
        let ghost ps = params@.map_values(|s: String| s@);
        let mut r = self.address.clone();
        append_str(&mut r, "/_matrix/client/r0/");
        append_str(&mut r, path);
        append_str(&mut r, "?access_token=");
        append_str(&mut r, token);
        let ghost head = self.address@ + api_prefix() + path@ + "?access_token="@ + token@;
        let mut i: usize = 0;
        while i < params.len()
            invariant
                i <= params@.len(),
                ps == params@.map_values(|s: String| s@),
                ps.len() == params@.len(),
                r@ == head + params_query(ps.take(i as int)),
            decreases params@.len() - i,
        {
            proof {
                assert(ps.take(i + 1).drop_last() =~= ps.take(i as int));
                assert(ps.take(i + 1).last() == ps[i as int]);
                assert(ps[i as int] == params@[i as int]@);
            }
            append_str(&mut r, "&");
            append_str(&mut r, params[i].as_str());
            i += 1;
        }
        proof {
            assert(ps.take(ps.len() as int) =~= ps);
        }
        r
    }

    /// The URL of a POST request without a token: base address, API prefix,
    /// and the path with its colons percent-encoded.
    pub fn post_request_url(&self, path: &str) -> (r: String)
        ensures
            r@ == self.address@ + api_prefix() + encode_colons_spec(path@),
    {
        let mut r = self.address.clone();
        append_str(&mut r, "/_matrix/client/r0/");
        let encoded = encode_colons(path);
        append_str(&mut r, encoded.as_str());
        r
    }

    /// The URL of a POST request with a token: the access token is appended
    /// to the path as a query credential first, and the colons of the whole
    /// path-with-query are then percent-encoded.
    pub fn post_request_url_token(&self, path: &str, token: &str) -> (r: String)
        ensures
            r@ == self.address@ + api_prefix() + encode_colons_spec(
                path@ + "?access_token="@ + token@,
            ),
    {
        let mut q = path.to_owned();
        append_str(&mut q, "?access_token=");
        append_str(&mut q, token);
        self.post_request_url(q.as_str())
    }
}

/// The request path a message to `room_id` is posted to.
pub fn send_message_path(room_id: &str) -> (r: String)
    ensures
        r@ == "rooms/"@ + room_id@ + "/send/m.room.message"@,
{
    let mut r = "rooms/".to_owned();
    append_str(&mut r, room_id);
    append_str(&mut r, "/send/m.room.message");
    r
}

/// The parameters of a sync request: full state, online presence, and the
/// sync cursor as `since` only when a cursor is already known.
pub fn sync_params(next_batch: &str) -> (r: Vec<String>)
    ensures
        next_batch@.len() == 0 ==> r@.map_values(|s: String| s@) =~= seq![
            "full_state=true"@,
            "set_presence=online"@,
        ],
        next_batch@.len() != 0 ==> r@.map_values(|s: String| s@) =~= seq![
            "full_state=true"@,
            "set_presence=online"@,
            "since="@ + next_batch@,
        ],
{
    let mut r: Vec<String> = Vec::new();
    r.push("full_state=true".to_owned());
    r.push("set_presence=online".to_owned());
    if !next_batch.is_empty() {
        let mut since = "since=".to_owned();
        append_str(&mut since, next_batch);
        r.push(since);
    }
    r
}

/// The lower-case hexadecimal digit of a value below sixteen.
pub open spec fn hex_digit_spec(n: u32) -> char {
    if n == 0 {
        '0'
    } else if n == 1 {
        '1'
    } else if n == 2 {
        '2'
    } else if n == 3 {
        '3'
    } else if n == 4 {
        '4'
    } else if n == 5 {
        '5'
    } else if n == 6 {
        '6'
    } else if n == 7 {
        '7'
    } else if n == 8 {
        '8'
    } else if n == 9 {
        '9'
    } else if n == 10 {
        'a'
    } else if n == 11 {
        'b'
    } else if n == 12 {
        'c'
    } else if n == 13 {
        'd'
    } else if n == 14 {
        'e'
    } else {
        'f'
    }
}

/// The lower-case hexadecimal digit of `n`.
pub fn hex_digit(n: u32) -> (c: char)
    requires
        n < 16,
    ensures
        c == hex_digit_spec(n),
{
    if n == 0 {
        '0'
    } else if n == 1 {
        '1'
    } else if n == 2 {
        '2'
    } else if n == 3 {
        '3'
    } else if n == 4 {
        '4'
    } else if n == 5 {
        '5'
    } else if n == 6 {
        '6'
    } else if n == 7 {
        '7'
    } else if n == 8 {
        '8'
    } else if n == 9 {
        '9'
    } else if n == 10 {
        'a'
    } else if n == 11 {
        'b'
    } else if n == 12 {
        'c'
    } else if n == 13 {
        'd'
    } else if n == 14 {
        'e'
    } else {
        'f'
    }
}

/// How one character is written inside a JSON string literal: quote,
/// backslash and the common control characters get a two-character escape,
/// the remaining control characters a `\u00..` escape, and every other
/// character stands as it is.
pub open spec fn json_escape_char(c: char) -> Seq<char> {
    if c == '"' {
        "\\\""@
    } else if c == '\\' {
        "\\\\"@
    } else if c == '\n' {
        "\\n"@
    } else if c == '\r' {
        "\\r"@
    } else if c == '\t' {
        "\\t"@
    } else if (c as u32) < 32 {
        "\\u00"@ + seq![hex_digit_spec((c as u32) / 16), hex_digit_spec((c as u32) % 16)]
    } else {
        seq![c]
    }
}

/// The body of a JSON string literal holding `s`: each character escaped.
pub open spec fn json_escape_spec(s: Seq<char>) -> Seq<char>
    decreases s.len(),
{
    if s.len() == 0 {
        Seq::empty()
    } else {
        json_escape_spec(s.drop_last()) + json_escape_char(s.last())
    }
}

/// Appends one character to `r` in its JSON string-literal form.
pub fn append_escaped_char(r: &mut String, c: char)
    ensures
        final(r)@ == old(r)@ + json_escape_char(c),
{
    if c == '"' {
        append_str(r, "\\\"");
    } else if c == '\\' {
        append_str(r, "\\\\");
    } else if c == '\n' {
        append_str(r, "\\n");
    } else if c == '\r' {
        append_str(r, "\\r");
    } else if c == '\t' {
        append_str(r, "\\t");
    } else if (c as u32) < 32 {
        append_str(r, "\\u00");
        push_char(r, hex_digit((c as u32) / 16));
        push_char(r, hex_digit((c as u32) % 16));
        proof {
            assert(r@ =~= old(r)@ + json_escape_char(c));
        }
    } else {
        push_char(r, c);
        proof {
            assert(r@ =~= old(r)@ + seq![c]);
        }
    }
}

/// Appends a character buffer to `r` in its JSON string-literal form.
pub fn append_escaped(r: &mut String, s: &Vec<char>)
    ensures
        final(r)@ == old(r)@ + json_escape_spec(s@),
{
    let mut i: usize = 0;
    while i < s.len()
        invariant
            i <= s@.len(),
            r@ == old(r)@ + json_escape_spec(s@.take(i as int)),
        decreases s@.len() - i,
    {
        proof {
            assert(s@.take(i + 1).drop_last() =~= s@.take(i as int));
            assert(s@.take(i + 1).last() == s@[i as int]);
        }
        append_escaped_char(r, s[i]);
        i += 1;
    }
    proof {
        assert(s@.take(s@.len() as int) =~= s@);
    }
}

/// Appends a string slice to `r` in its JSON string-literal form.
pub fn append_escaped_str(r: &mut String, s: &str)
    ensures
        final(r)@ == old(r)@ + json_escape_spec(s@),
{
    let len: usize = s.unicode_len();
    let mut i: usize = 0;
    while i < len
        invariant
            len == s@.len(),
            i <= len,
            r@ == old(r)@ + json_escape_spec(s@.take(i as int)),
        decreases len - i,
    {
        proof {
            assert(s@.take(i + 1).drop_last() =~= s@.take(i as int));
            assert(s@.take(i + 1).last() == s@[i as int]);
        }
        append_escaped_char(r, s.get_char(i));
        i += 1;
    }
    proof {
        assert(s@.take(len as int) =~= s@);
    }
}

/// The JSON body of a text-message send request for `body`.
pub open spec fn message_payload_spec(body: Seq<char>) -> Seq<char> {
    "{\"msgtype\":\"m.text\",\"body\":\""@ + json_escape_spec(body) + "\"}"@
}

/// Builds the JSON body of a text-message send request.
pub fn message_payload(body: &Vec<char>) -> (r: String)
    ensures
        r@ == message_payload_spec(body@),
{
    let mut r = "{\"msgtype\":\"m.text\",\"body\":\"".to_owned();
    append_escaped(&mut r, body);
    append_str(&mut r, "\"}");
    r
}

/// The JSON body of a password-grant login request for `user` and `pass`.
pub open spec fn login_payload_spec(user: Seq<char>, pass: Seq<char>) -> Seq<char> {
    "{\"type\":\"m.login.password\",\"identifier\":{\"type\":\"m.id.user\",\"user\":\""@
        + json_escape_spec(user) + "\"},\"password\":\""@ + json_escape_spec(pass) + "\"}"@
}

/// Builds the JSON body of a password-grant login request.
pub fn login_payload(user: &str, pass: &str) -> (r: String)
    ensures
        r@ == login_payload_spec(user@, pass@),
{
    let mut r = "{\"type\":\"m.login.password\",\"identifier\":{\"type\":\"m.id.user\",\"user\":\""
        .to_owned();
    append_escaped_str(&mut r, user);
    append_str(&mut r, "\"},\"password\":\"");
    append_escaped_str(&mut r, pass);
    append_str(&mut r, "\"}");
    r
}

} // verus!

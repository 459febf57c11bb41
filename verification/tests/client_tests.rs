use determinant::client::{
    login_payload, message_payload, send_message_path, sync_params, DataHolder, Message, RoomData,
    Server, UserData,
};
use determinant::client::{find_room, find_user};
use determinant::text::{chars_to_string, contains_str, count_char, encode_colons, str_eq,
    str_to_chars};

fn server(addr: &str) -> Server {
    Server { address: addr.to_string() }
}

#[test]
fn str_eq_agrees_with_equality() {
    assert!(str_eq("", ""));
    assert!(str_eq("abc", "abc"));
    assert!(!str_eq("abc", "abd"));
    assert!(!str_eq("abc", "ab"));
    assert!(str_eq("døkk", "døkk"));
}

#[test]
fn count_char_counts() {
    let v: Vec<char> = "a\nb\n\nc".chars().collect();
    assert_eq!(count_char(&v, '\n'), 3);
    let empty: Vec<char> = Vec::new();
    assert_eq!(count_char(&empty, '\n'), 0);
}

#[test]
fn encode_colons_rewrites_each_colon() {
    assert_eq!(encode_colons("!abc:example.org"), "!abc%3Aexample.org");
    assert_eq!(encode_colons("no-colon"), "no-colon");
    assert_eq!(encode_colons("::"), "%3A%3A");
    assert_eq!(encode_colons(""), "");
}

#[test]
fn chars_round_trip() {
    let v = str_to_chars("hej\nvärld");
    assert_eq!(chars_to_string(&v), "hej\nvärld");
}

#[test]
fn contains_str_scans() {
    let v = vec!["a".to_string(), "bb".to_string()];
    assert!(contains_str(&v, "bb"));
    assert!(!contains_str(&v, "c"));
}

#[test]
fn get_url_appends_token_and_params() {
    let s = server("https://hs.example");
    let params = vec!["full_state=true".to_string(), "set_presence=online".to_string()];
    let url = s.get_request_url("sync", &params, "tok123");
    assert_eq!(
        url,
        "https://hs.example/_matrix/client/r0/sync?access_token=tok123&full_state=true&set_presence=online"
    );
}

#[test]
fn post_url_percent_encodes_colons_in_path() {
    let s = server("https://hs.example");
    let url = s.post_request_url("rooms/!abc:example.org/send/m.room.message");
    assert_eq!(
        url,
        "https://hs.example/_matrix/client/r0/rooms/!abc%3Aexample.org/send/m.room.message"
    );
}

#[test]
fn post_url_token_encodes_after_query_is_appended() {
    let s = server("https://hs.example");
    let url = s.post_request_url_token("rooms/!a:x/send/m.room.message", "tok:en");
    assert_eq!(
        url,
        "https://hs.example/_matrix/client/r0/rooms/!a%3Ax/send/m.room.message?access_token=tok%3Aen"
    );
}

#[test]
fn send_message_path_joins_segments() {
    assert_eq!(
        send_message_path("!abc:example.org"),
        "rooms/!abc:example.org/send/m.room.message"
    );
}

#[test]
fn sync_params_without_cursor() {
    let p = sync_params("");
    assert_eq!(p, vec!["full_state=true".to_string(), "set_presence=online".to_string()]);
}

#[test]
fn sync_params_with_cursor() {
    let p = sync_params("s72594_4483_1934");
    assert_eq!(
        p,
        vec![
            "full_state=true".to_string(),
            "set_presence=online".to_string(),
            "since=s72594_4483_1934".to_string()
        ]
    );
}

#[test]
fn message_payload_is_minimal_json() {
    let body: Vec<char> = "hi".chars().collect();
    assert_eq!(message_payload(&body), "{\"msgtype\":\"m.text\",\"body\":\"hi\"}");
}

#[test]
fn message_payload_escapes() {
    let body: Vec<char> = "a\"b\\c\nd\te\u{1}".chars().collect();
    assert_eq!(
        message_payload(&body),
        "{\"msgtype\":\"m.text\",\"body\":\"a\\\"b\\\\c\\nd\\te\\u0001\"}"
    );
}

#[test]
fn login_payload_is_password_grant() {
    assert_eq!(
        login_payload("alice", "s3cret"),
        "{\"type\":\"m.login.password\",\"identifier\":{\"type\":\"m.id.user\",\"user\":\"alice\"},\"password\":\"s3cret\"}"
    );
}

#[test]
fn login_payload_escapes_credentials() {
    assert_eq!(
        login_payload("a\"b", "p\\q"),
        "{\"type\":\"m.login.password\",\"identifier\":{\"type\":\"m.id.user\",\"user\":\"a\\\"b\"},\"password\":\"p\\\\q\"}"
    );
}

#[test]
fn find_room_and_user_scan_in_order() {
    let rooms = vec![
        RoomData {
            id: "!a:x".to_string(),
            alias: String::new(),
            members: Vec::new(),
            messages: Vec::new(),
            unread_msgs: 0,
        },
        RoomData {
            id: "!b:x".to_string(),
            alias: String::new(),
            members: Vec::new(),
            messages: Vec::new(),
            unread_msgs: 0,
        },
    ];
    assert_eq!(find_room(&rooms, "!b:x"), Some(1));
    assert_eq!(find_room(&rooms, "!c:x"), None);
    let users = vec![UserData {
        id: "@u:x".to_string(),
        name: "U".to_string(),
        is_online: false,
        rooms: Vec::new(),
    }];
    assert_eq!(find_user(&users, "@u:x"), Some(0));
    assert_eq!(find_user(&users, "@v:x"), None);
}

#[test]
fn holder_starts_usable() {
    let h = DataHolder {
        server: server("https://hs.example"),
        user_id: "@me:x".to_string(),
        token: String::new(),
        rooms: Vec::new(),
        users: Vec::new(),
        room_invites: Vec::new(),
        next_batch: String::new(),
    };
    assert_eq!(h.rooms.len(), 0);
    let m = Message {
        sender: "@me:x".to_string(),
        room: "!a:x".to_string(),
        content: "hello".to_string(),
        msgtype: "text".to_string(),
    };
    assert_eq!(m.content, "hello");
}

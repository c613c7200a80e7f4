use fling::directory::Directory;
use fling::message::{WebSocketMessage, WireError};
use fling::server::{outbound, relay, Connection, Effect};

fn sorted(mut names: Vec<String>) -> Vec<String> {
    names.sort();
    names
}

fn names(list: &[&str]) -> Vec<String> {
    list.iter().map(|s| s.to_string()).collect()
}

#[test]
fn new_directory_is_empty() {
    let directory = Directory::new();
    assert!(directory.online().is_empty());
    assert_eq!(directory.route("alice"), None);
}

#[test]
fn register_replies_with_those_registered_before() {
    let mut directory = Directory::new();
    assert_eq!(directory.register("alice".to_string(), 1), Vec::<String>::new());
    assert_eq!(directory.register("bob".to_string(), 2), names(&["alice"]));
    assert_eq!(sorted(directory.register("carol".to_string(), 3)), names(&["alice", "bob"]));
    assert_eq!(sorted(directory.online()), names(&["alice", "bob", "carol"]));
}

#[test]
fn each_of_many_registrations_sees_exactly_its_predecessors() {
    let mut directory = Directory::new();
    let mut before: Vec<String> = Vec::new();
    for i in 0..40u64 {
        let nickname = format!("peer-{}", i);
        let reply = sorted(directory.register(nickname.clone(), i));
        assert_eq!(reply, sorted(before.clone()));
        before.push(nickname);
    }
}

#[test]
fn second_registration_of_a_nickname_overwrites_the_first() {
    let mut directory = Directory::new();
    directory.register("alice".to_string(), 1);
    let reply = directory.register("alice".to_string(), 2);
    assert_eq!(reply, Vec::<String>::new());
    assert_eq!(directory.route("alice"), Some(2));
    assert_eq!(directory.online(), names(&["alice"]));
}

#[test]
fn disconnect_removes_the_nickname() {
    let mut directory = Directory::new();
    directory.register("alice".to_string(), 1);
    directory.register("bob".to_string(), 2);
    directory.disconnect("alice");
    assert_eq!(directory.route("alice"), None);
    assert_eq!(directory.route("bob"), Some(2));
    directory.disconnect("nobody");
    assert_eq!(directory.online(), names(&["bob"]));
}

#[test]
fn register_message_is_answered_and_broadcast() {
    let mut directory = Directory::new();
    directory.register("bob".to_string(), 7);
    let mut connection = Connection::open(9);
    assert_eq!(connection.nickname(), None);
    let effects =
        connection.receive(&mut directory, Ok(WebSocketMessage::Register("alice".to_string())));
    assert_eq!(
        effects,
        vec![
            Effect::Send { to: 9, message: WebSocketMessage::RegisterSuccess(names(&["bob"])) },
            Effect::Broadcast { from: 9, message: WebSocketMessage::UserJoined("alice".to_string()) },
        ]
    );
    assert_eq!(connection.nickname(), Some("alice".to_string()));
    assert_eq!(connection.id(), 9);
    assert_eq!(directory.route("alice"), Some(9));
}

#[test]
fn send_file_is_routed_to_the_recipient() {
    let mut directory = Directory::new();
    directory.register("bob".to_string(), 7);
    let mut connection = Connection::open(9);
    let effects = connection.on_text(
        &mut directory,
        r#"{"type":"send_file","payload":{"recipient":"bob","ticket":"blobxyz"}}"#,
    );
    assert_eq!(
        effects,
        vec![Effect::Send { to: 7, message: WebSocketMessage::ReceiveFile("blobxyz".to_string()) }]
    );
}

#[test]
fn send_file_to_an_unknown_recipient_is_dropped_silently() {
    let mut directory = Directory::new();
    let mut connection = Connection::open(9);
    let effects = connection.receive(
        &mut directory,
        Ok(WebSocketMessage::SendFile { recipient: "ghost".to_string(), ticket: "t".to_string() }),
    );
    assert_eq!(effects, vec![]);
}

#[test]
fn after_a_nickname_is_taken_over_files_go_to_the_new_holder() {
    let mut directory = Directory::new();
    let mut first = Connection::open(1);
    let mut second = Connection::open(2);
    let mut sender = Connection::open(3);
    first.receive(&mut directory, Ok(WebSocketMessage::Register("alice".to_string())));
    second.receive(&mut directory, Ok(WebSocketMessage::Register("alice".to_string())));
    let effects = sender.receive(
        &mut directory,
        Ok(WebSocketMessage::SendFile { recipient: "alice".to_string(), ticket: "t".to_string() }),
    );
    assert_eq!(
        effects,
        vec![Effect::Send { to: 2, message: WebSocketMessage::ReceiveFile("t".to_string()) }]
    );
}

#[test]
fn messages_that_peers_do_not_send_are_ignored() {
    let mut directory = Directory::new();
    let mut connection = Connection::open(9);
    for message in vec![
        WebSocketMessage::RegisterSuccess(vec![]),
        WebSocketMessage::UserJoined("x".to_string()),
        WebSocketMessage::UserLeft("x".to_string()),
        WebSocketMessage::ReceiveFile("t".to_string()),
        WebSocketMessage::ErrorDeserializingJson("e".to_string()),
    ] {
        assert_eq!(connection.receive(&mut directory, Ok(message)), vec![]);
    }
    assert_eq!(connection.nickname(), None);
    assert!(directory.online().is_empty());
}

#[test]
fn unreadable_text_is_answered_with_the_reason_and_changes_nothing() {
    let mut directory = Directory::new();
    let mut connection = Connection::open(9);
    let effects = connection.on_text(&mut directory, "{");
    assert_eq!(
        effects,
        vec![Effect::Send {
            to: 9,
            message: WebSocketMessage::ErrorDeserializingJson(
                "EOF while parsing an object at line 1 column 1".to_string()
            ),
        }]
    );
    let effects = connection.receive(&mut directory, Err(WireError::MissingPayload));
    assert_eq!(
        effects,
        vec![Effect::Send {
            to: 9,
            message: WebSocketMessage::ErrorDeserializingJson(
                "missing field `payload`".to_string()
            ),
        }]
    );
    assert_eq!(connection.nickname(), None);
    assert!(directory.online().is_empty());
}

#[test]
fn closing_broadcasts_user_left_once_and_frees_the_nickname() {
    let mut directory = Directory::new();
    let mut connection = Connection::open(9);
    connection.on_text(&mut directory, r#"{"type":"register","payload":"alice"}"#);
    let effects = connection.close(&mut directory);
    assert_eq!(
        effects,
        vec![Effect::Broadcast { from: 9, message: WebSocketMessage::UserLeft("alice".to_string()) }]
    );
    assert_eq!(directory.route("alice"), None);
}

#[test]
fn closing_an_unregistered_connection_changes_and_says_nothing() {
    let mut directory = Directory::new();
    directory.register("bob".to_string(), 7);
    directory.register(String::new(), 8);
    let connection = Connection::open(9);
    let effects = connection.close(&mut directory);
    assert_eq!(effects, vec![]);
    assert_eq!(directory.route("bob"), Some(7));
    assert_eq!(directory.route(""), Some(8));
}

#[test]
fn a_connection_that_only_sent_what_cannot_be_read_leaves_silently() {
    let mut directory = Directory::new();
    let mut connection = Connection::open(9);
    connection.on_text(&mut directory, "{");
    connection.receive(&mut directory, Ok(WebSocketMessage::UserJoined("mallory".to_string())));
    assert_eq!(connection.close(&mut directory), vec![]);
    assert!(directory.online().is_empty());
}

#[test]
fn a_connection_registered_under_the_empty_nickname_leaves_under_it() {
    let mut directory = Directory::new();
    let mut connection = Connection::open(3);
    connection.receive(&mut directory, Ok(WebSocketMessage::Register(String::new())));
    assert_eq!(directory.route(""), Some(3));
    let effects = connection.close(&mut directory);
    assert_eq!(
        effects,
        vec![Effect::Broadcast { from: 3, message: WebSocketMessage::UserLeft(String::new()) }]
    );
    assert_eq!(directory.route(""), None);
}

#[test]
fn closing_the_first_holder_removes_the_nickname_of_the_second() {
    let mut directory = Directory::new();
    let mut first = Connection::open(1);
    let mut second = Connection::open(2);
    first.receive(&mut directory, Ok(WebSocketMessage::Register("alice".to_string())));
    second.receive(&mut directory, Ok(WebSocketMessage::Register("alice".to_string())));
    first.close(&mut directory);
    assert_eq!(directory.route("alice"), None);
}

#[test]
fn only_downstream_messages_are_written() {
    assert_eq!(outbound(&WebSocketMessage::Register("a".to_string())), None);
    assert_eq!(
        outbound(&WebSocketMessage::SendFile { recipient: "a".to_string(), ticket: "t".to_string() }),
        None
    );
    assert_eq!(
        outbound(&WebSocketMessage::RegisterSuccess(vec!["b".to_string()])),
        Some(r#"{"type":"register_success","payload":["b"]}"#.to_string())
    );
    assert_eq!(
        outbound(&WebSocketMessage::UserJoined("b".to_string())),
        Some(r#"{"type":"user_joined","payload":"b"}"#.to_string())
    );
    assert_eq!(
        outbound(&WebSocketMessage::UserLeft("b".to_string())),
        Some(r#"{"type":"user_left","payload":"b"}"#.to_string())
    );
    assert_eq!(
        outbound(&WebSocketMessage::ReceiveFile("t".to_string())),
        Some(r#"{"type":"receive_file","payload":"t"}"#.to_string())
    );
    assert_eq!(
        outbound(&WebSocketMessage::ErrorDeserializingJson("e".to_string())),
        Some(r#"{"type":"error_deserializing_json","payload":"e"}"#.to_string())
    );
}

#[test]
fn joining_and_leaving_of_others_is_relayed() {
    let joined = WebSocketMessage::UserJoined("alice".to_string());
    let left = WebSocketMessage::UserLeft("alice".to_string());
    assert_eq!(relay(1, 2, &joined), Some(WebSocketMessage::UserJoined("alice".to_string())));
    assert_eq!(relay(1, 2, &left), Some(WebSocketMessage::UserLeft("alice".to_string())));
    assert_eq!(relay(2, 2, &joined), None);
    assert_eq!(relay(2, 2, &left), None);
    assert_eq!(relay(1, 2, &WebSocketMessage::ReceiveFile("t".to_string())), None);
    assert_eq!(relay(1, 2, &WebSocketMessage::Register("x".to_string())), None);
}

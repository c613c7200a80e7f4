use fling::json::{parse, render, Json};
use fling::message::{WebSocketMessage, WireError};

fn text(s: &str) -> Json {
    Json::Text(s.to_string())
}

fn object(members: Vec<(&str, Json)>) -> Json {
    Json::Object(members.into_iter().map(|(k, v)| (k.to_string(), v)).collect())
}

#[test]
fn register_is_written_with_type_then_payload() {
    let message = WebSocketMessage::Register("alice".to_string());
    assert_eq!(message.to_json(), r#"{"type":"register","payload":"alice"}"#);
}

#[test]
fn every_kind_has_its_wire_form() {
    assert_eq!(
        WebSocketMessage::RegisterSuccess(vec!["bob".to_string(), "carol".to_string()]).to_json(),
        r#"{"type":"register_success","payload":["bob","carol"]}"#
    );
    assert_eq!(
        WebSocketMessage::RegisterSuccess(vec![]).to_json(),
        r#"{"type":"register_success","payload":[]}"#
    );
    assert_eq!(
        WebSocketMessage::UserJoined("bob".to_string()).to_json(),
        r#"{"type":"user_joined","payload":"bob"}"#
    );
    assert_eq!(
        WebSocketMessage::UserLeft("bob".to_string()).to_json(),
        r#"{"type":"user_left","payload":"bob"}"#
    );
    assert_eq!(
        WebSocketMessage::SendFile { recipient: "bob".to_string(), ticket: "blobabc".to_string() }
            .to_json(),
        r#"{"type":"send_file","payload":{"recipient":"bob","ticket":"blobabc"}}"#
    );
    assert_eq!(
        WebSocketMessage::ReceiveFile("blobabc".to_string()).to_json(),
        r#"{"type":"receive_file","payload":"blobabc"}"#
    );
    assert_eq!(
        WebSocketMessage::ErrorDeserializingJson("bad".to_string()).to_json(),
        r#"{"type":"error_deserializing_json","payload":"bad"}"#
    );
}

#[test]
fn text_is_escaped_by_the_json_writer() {
    let message = WebSocketMessage::Register("a\"b\\c\n".to_string());
    assert_eq!(message.to_json(), r#"{"type":"register","payload":"a\"b\\c\n"}"#);
}

#[test]
fn encode_builds_the_document() {
    let message = WebSocketMessage::SendFile { recipient: "bob".to_string(), ticket: "t".to_string() };
    assert_eq!(
        message.encode(),
        object(vec![
            ("type", text("send_file")),
            ("payload", object(vec![("recipient", text("bob")), ("ticket", text("t"))])),
        ])
    );
}

#[test]
fn every_kind_round_trips_through_text() {
    let messages = vec![
        WebSocketMessage::Register("alice".to_string()),
        WebSocketMessage::RegisterSuccess(vec!["bob".to_string(), "carol".to_string()]),
        WebSocketMessage::RegisterSuccess(vec![]),
        WebSocketMessage::UserJoined("bob".to_string()),
        WebSocketMessage::UserLeft("bob".to_string()),
        WebSocketMessage::SendFile { recipient: "bob".to_string(), ticket: "blobabc".to_string() },
        WebSocketMessage::ReceiveFile("blobabc".to_string()),
        WebSocketMessage::ErrorDeserializingJson("expected value at line 1 column 1".to_string()),
    ];
    for message in messages {
        let wire = message.to_json();
        assert_eq!(WebSocketMessage::from_json(&wire), Ok(message.duplicate()));
        assert_eq!(WebSocketMessage::decode(&message.encode()), Ok(message));
    }
}

#[test]
fn payload_may_come_before_type() {
    assert_eq!(
        WebSocketMessage::from_json(r#"{"payload":"alice","type":"register"}"#),
        Ok(WebSocketMessage::Register("alice".to_string()))
    );
}

#[test]
fn whitespace_and_extra_members_are_accepted() {
    assert_eq!(
        WebSocketMessage::from_json(
            " { \"type\" : \"user_left\" , \"extra\" : 1, \"payload\" : \"bob\" } "
        ),
        Ok(WebSocketMessage::UserLeft("bob".to_string()))
    );
}

#[test]
fn text_that_is_not_json_is_a_syntax_error() {
    match WebSocketMessage::from_json("not json") {
        Err(WireError::Syntax(reason)) => {
            assert_eq!(reason, "expected ident at line 1 column 2");
        }
        other => panic!("unexpected outcome: {:?}", other),
    }
    assert!(matches!(WebSocketMessage::from_json(""), Err(WireError::Syntax(_))));
    assert!(matches!(WebSocketMessage::from_json("{\"type\":"), Err(WireError::Syntax(_))));
}

#[test]
fn a_document_that_is_no_object_is_rejected() {
    assert_eq!(WebSocketMessage::from_json("[1,2]"), Err(WireError::NotAnObject));
    assert_eq!(WebSocketMessage::from_json("\"register\""), Err(WireError::NotAnObject));
    assert_eq!(WebSocketMessage::decode(&Json::Null), Err(WireError::NotAnObject));
    assert_eq!(WebSocketMessage::decode(&Json::Bool(true)), Err(WireError::NotAnObject));
}

#[test]
fn missing_or_bad_type_is_rejected() {
    assert_eq!(WebSocketMessage::from_json(r#"{"payload":"x"}"#), Err(WireError::MissingType));
    assert_eq!(WebSocketMessage::from_json(r#"{}"#), Err(WireError::MissingType));
    assert_eq!(
        WebSocketMessage::from_json(r#"{"type":7,"payload":"x"}"#),
        Err(WireError::BadType)
    );
}

#[test]
fn unknown_kind_is_rejected_by_name() {
    assert_eq!(
        WebSocketMessage::from_json(r#"{"type":"user_not_found","payload":"x"}"#),
        Err(WireError::UnknownKind("user_not_found".to_string()))
    );
    assert_eq!(
        WebSocketMessage::from_json(r#"{"type":"Register","payload":"x"}"#),
        Err(WireError::UnknownKind("Register".to_string()))
    );
}

#[test]
fn missing_payload_is_rejected() {
    assert_eq!(
        WebSocketMessage::from_json(r#"{"type":"register"}"#),
        Err(WireError::MissingPayload)
    );
}

#[test]
fn payload_of_the_wrong_shape_is_rejected() {
    assert_eq!(
        WebSocketMessage::from_json(r#"{"type":"register","payload":["alice"]}"#),
        Err(WireError::BadPayload)
    );
    assert_eq!(
        WebSocketMessage::from_json(r#"{"type":"register_success","payload":"alice"}"#),
        Err(WireError::BadPayload)
    );
    assert_eq!(
        WebSocketMessage::from_json(r#"{"type":"register_success","payload":["a",1]}"#),
        Err(WireError::BadPayload)
    );
    assert_eq!(
        WebSocketMessage::from_json(r#"{"type":"send_file","payload":{"recipient":"bob"}}"#),
        Err(WireError::BadPayload)
    );
    assert_eq!(
        WebSocketMessage::from_json(
            r#"{"type":"send_file","payload":{"recipient":"bob","ticket":null}}"#
        ),
        Err(WireError::BadPayload)
    );
    assert_eq!(
        WebSocketMessage::from_json(r#"{"type":"send_file","payload":"bob"}"#),
        Err(WireError::BadPayload)
    );
}

#[test]
fn errors_describe_themselves() {
    assert_eq!(WireError::Syntax("oops".to_string()).describe(), "oops");
    assert_eq!(WireError::NotAnObject.describe(), "expected a JSON object");
    assert_eq!(WireError::MissingType.describe(), "missing field `type`");
    assert_eq!(WireError::BadType.describe(), "field `type` is not a string");
    assert_eq!(
        WireError::UnknownKind("ping".to_string()).describe(),
        "unknown message type: ping"
    );
    assert_eq!(WireError::MissingPayload.describe(), "missing field `payload`");
    assert_eq!(
        WireError::BadPayload.describe(),
        "field `payload` does not fit the message type"
    );
}

#[test]
fn duplicate_copies_every_field() {
    let message = WebSocketMessage::SendFile { recipient: "bob".to_string(), ticket: "t".to_string() };
    assert_eq!(message.duplicate(), message);
    let list = WebSocketMessage::RegisterSuccess(vec!["a".to_string(), "b".to_string()]);
    assert_eq!(list.duplicate(), list);
}

#[test]
fn json_text_is_parsed_into_a_document() {
    assert_eq!(
        parse(r#"{"b":[1,"x",null,true],"a":{"c":-2}}"#),
        Ok(object(vec![
            (
                "b",
                Json::List(vec![
                    Json::Number(serde_json::Number::from(1)),
                    text("x"),
                    Json::Null,
                    Json::Bool(true),
                ]),
            ),
            ("a", object(vec![("c", Json::Number(serde_json::Number::from(-2)))])),
        ]))
    );
    assert_eq!(parse("[1,"), Err("EOF while parsing a value at line 1 column 3".to_string()));
}

#[test]
fn a_document_is_written_compactly_and_in_order() {
    let document = object(vec![
        ("z", Json::Number(serde_json::Number::from(10))),
        ("a", Json::List(vec![Json::Bool(false), Json::Null, text("q")])),
    ]);
    assert_eq!(render(&document), r#"{"z":10,"a":[false,null,"q"]}"#);
    assert_eq!(parse(&render(&document)), Ok(document));
}

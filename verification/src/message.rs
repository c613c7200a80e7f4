//! The messages of the rendezvous protocol and their form on the wire.
//!
//! Every message travels as one JSON object with two members: `type`, a
//! string that names the kind of message, and `payload`, which holds the
//! message's data.

use vstd::prelude::*;
use crate::json::{json_parse, json_text, parse, render, Json, JsonDoc};
use crate::text::{concat, copy_all, same_text, texts};

verus! {

/// A message between a peer and the rendezvous server.
#[derive(Debug, PartialEq, Eq)]
pub enum WebSocketMessage {
    /// A peer announces itself under a nickname.
    Register(String),
    /// The server's reply to `Register`: the other peers that are online.
    RegisterSuccess(Vec<String>),
    /// A peer came online.
    UserJoined(String),
    /// A peer went offline.
    UserLeft(String),
    /// A peer asks the server to pass a ticket on to `recipient`.
    SendFile { recipient: String, ticket: String },
    /// The server passes a ticket on to its recipient.
    ReceiveFile(String),
    /// A message could not be read; the text says why.
    ErrorDeserializingJson(String),
}

/// A message as mathematical values.
pub enum MessageView {
    Register(Seq<char>),
    RegisterSuccess(Seq<Seq<char>>),
    UserJoined(Seq<char>),
    UserLeft(Seq<char>),
    SendFile { recipient: Seq<char>, ticket: Seq<char> },
    ReceiveFile(Seq<char>),
    ErrorDeserializingJson(Seq<char>),
}

impl View for WebSocketMessage {
    type V = MessageView;

    open spec fn view(&self) -> MessageView {
        match self {
            WebSocketMessage::Register(nickname) => MessageView::Register(nickname@),
            WebSocketMessage::RegisterSuccess(users) => MessageView::RegisterSuccess(texts(users@)),
            WebSocketMessage::UserJoined(nickname) => MessageView::UserJoined(nickname@),
            WebSocketMessage::UserLeft(nickname) => MessageView::UserLeft(nickname@),
            WebSocketMessage::SendFile { recipient, ticket } => MessageView::SendFile {
                recipient: recipient@,
                ticket: ticket@,
            },
            WebSocketMessage::ReceiveFile(ticket) => MessageView::ReceiveFile(ticket@),
            WebSocketMessage::ErrorDeserializingJson(reason) => MessageView::ErrorDeserializingJson(
                reason@,
            ),
        }
    }
}

/// Why a text is not a message of the protocol.
#[derive(Debug, PartialEq, Eq)]
pub enum WireError {
    /// The text is not JSON; this is what the parser said.
    Syntax(String),
    /// The document is not an object.
    NotAnObject,
    /// The object has no member `type`.
    MissingType,
    /// The member `type` is not a string.
    BadType,
    /// The member `type` names no kind of message.
    UnknownKind(String),
    /// The object has no member `payload`.
    MissingPayload,
    /// The member `payload` does not hold what the kind of message asks for.
    BadPayload,
}

/// A wire error as mathematical values.
pub enum WireErrorView {
    Syntax(Seq<char>),
    NotAnObject,
    MissingType,
    BadType,
    UnknownKind(Seq<char>),
    MissingPayload,
    BadPayload,
}

impl View for WireError {
    type V = WireErrorView;

    open spec fn view(&self) -> WireErrorView {
        match self {
            WireError::Syntax(reason) => WireErrorView::Syntax(reason@),
            WireError::NotAnObject => WireErrorView::NotAnObject,
            WireError::MissingType => WireErrorView::MissingType,
            WireError::BadType => WireErrorView::BadType,
            WireError::UnknownKind(kind) => WireErrorView::UnknownKind(kind@),
            WireError::MissingPayload => WireErrorView::MissingPayload,
            WireError::BadPayload => WireErrorView::BadPayload,
        }
    }
}

/// The text that reports a wire error.
pub open spec fn error_text(error: WireErrorView) -> Seq<char> {
    match error {
        WireErrorView::Syntax(reason) => reason,
        WireErrorView::NotAnObject => "expected a JSON object"@,
        WireErrorView::MissingType => "missing field `type`"@,
        WireErrorView::BadType => "field `type` is not a string"@,
        WireErrorView::UnknownKind(kind) => "unknown message type: "@ + kind,
        WireErrorView::MissingPayload => "missing field `payload`"@,
        WireErrorView::BadPayload => "field `payload` does not fit the message type"@,
    }
}

impl WireError {
    /// The text that reports the error.
    pub fn describe(&self) -> (line: String)
        ensures
            line@ == error_text(self@),
    {
        match self {
            WireError::Syntax(reason) => reason.clone(),
            WireError::NotAnObject => "expected a JSON object".to_owned(),
            WireError::MissingType => "missing field `type`".to_owned(),
            WireError::BadType => "field `type` is not a string".to_owned(),
            WireError::UnknownKind(kind) => concat(
                "unknown message type: ",
                kind.as_str(),
            ),
            WireError::MissingPayload => "missing field `payload`".to_owned(),
            WireError::BadPayload => "field `payload` does not fit the message type".to_owned(),
        }
    }
}

/// The outcome of reading a message, as mathematical values.
pub open spec fn outcome_view(outcome: Result<WebSocketMessage, WireError>) -> Result<
    MessageView,
    WireErrorView,
> {
    match outcome {
        Ok(message) => Ok(message@),
        Err(error) => Err(error@),
    }
}

/// The name under which a kind of message travels.
pub open spec fn kind_of(message: MessageView) -> Seq<char> {
    match message {
        MessageView::Register(_) => "register"@,
        MessageView::RegisterSuccess(_) => "register_success"@,
        MessageView::UserJoined(_) => "user_joined"@,
        MessageView::UserLeft(_) => "user_left"@,
        MessageView::SendFile { .. } => "send_file"@,
        MessageView::ReceiveFile(_) => "receive_file"@,
        MessageView::ErrorDeserializingJson(_) => "error_deserializing_json"@,
    }
}

/// A list of strings as a JSON array.
pub open spec fn text_list(items: Seq<Seq<char>>) -> JsonDoc {
    JsonDoc::List(Seq::new(items.len(), |i: int| JsonDoc::Text(items[i])))
}

/// The data of a message as a JSON document.
pub open spec fn payload_of(message: MessageView) -> JsonDoc {
    match message {
        MessageView::Register(nickname) => JsonDoc::Text(nickname),
        MessageView::RegisterSuccess(users) => text_list(users),
        MessageView::UserJoined(nickname) => JsonDoc::Text(nickname),
        MessageView::UserLeft(nickname) => JsonDoc::Text(nickname),
        MessageView::SendFile { recipient, ticket } => JsonDoc::Object(
            seq![("recipient"@, JsonDoc::Text(recipient)), ("ticket"@, JsonDoc::Text(ticket))],
        ),
        MessageView::ReceiveFile(ticket) => JsonDoc::Text(ticket),
        MessageView::ErrorDeserializingJson(reason) => JsonDoc::Text(reason),
    }
}

/// The JSON document that carries a message: the kind first, then the data.
pub open spec fn wire_doc(message: MessageView) -> JsonDoc {
    JsonDoc::Object(
        seq![("type"@, JsonDoc::Text(kind_of(message))), ("payload"@, payload_of(message))],
    )
}

/// The first member of an object that goes by `key`, looking from position
/// `from` on.
pub open spec fn member_from(members: Seq<(Seq<char>, JsonDoc)>, key: Seq<char>, from: int)
    -> Option<JsonDoc>
    decreases members.len() - from,
{
    if from < 0 || from >= members.len() {
        None
    } else if members[from].0 == key {
        Some(members[from].1)
    } else {
        member_from(members, key, from + 1)
    }
}

/// The member of a document that goes by `key`, if the document is an object
/// and has one.
pub open spec fn member(doc: JsonDoc, key: Seq<char>) -> Option<JsonDoc> {
    match doc {
        JsonDoc::Object(members) => member_from(members, key, 0),
        _ => None,
    }
}

/// The string that a document is, if it is one.
pub open spec fn text_of(doc: JsonDoc) -> Option<Seq<char>> {
    match doc {
        JsonDoc::Text(text) => Some(text),
        _ => None,
    }
}

/// The strings that a document lists, if it is an array of strings.
pub open spec fn texts_of(doc: JsonDoc) -> Option<Seq<Seq<char>>> {
    match doc {
        JsonDoc::List(items) => if forall|i: int| 0 <= i < items.len() ==> #[trigger] items[i] is Text {
            Some(Seq::new(items.len(), |i: int| items[i]->Text_0))
        } else {
            None
        },
        _ => None,
    }
}

/// The message of kind `kind` with the data `payload`.
pub open spec fn assembled(kind: Seq<char>, payload: JsonDoc) -> Result<MessageView, WireErrorView> {
    if kind == "register"@ {
        match text_of(payload) {
            Some(nickname) => Ok(MessageView::Register(nickname)),
            None => Err(WireErrorView::BadPayload),
        }
    } else if kind == "register_success"@ {
        match texts_of(payload) {
            Some(users) => Ok(MessageView::RegisterSuccess(users)),
            None => Err(WireErrorView::BadPayload),
        }
    } else if kind == "user_joined"@ {
        match text_of(payload) {
            Some(nickname) => Ok(MessageView::UserJoined(nickname)),
            None => Err(WireErrorView::BadPayload),
        }
    } else if kind == "user_left"@ {
        match text_of(payload) {
            Some(nickname) => Ok(MessageView::UserLeft(nickname)),
            None => Err(WireErrorView::BadPayload),
        }
    } else if kind == "send_file"@ {
        match (member(payload, "recipient"@), member(payload, "ticket"@)) {
            (Some(JsonDoc::Text(recipient)), Some(JsonDoc::Text(ticket))) => Ok(
                MessageView::SendFile { recipient, ticket },
            ),
            _ => Err(WireErrorView::BadPayload),
        }
    } else if kind == "receive_file"@ {
        match text_of(payload) {
            Some(ticket) => Ok(MessageView::ReceiveFile(ticket)),
            None => Err(WireErrorView::BadPayload),
        }
    } else if kind == "error_deserializing_json"@ {
        match text_of(payload) {
            Some(reason) => Ok(MessageView::ErrorDeserializingJson(reason)),
            None => Err(WireErrorView::BadPayload),
        }
    } else {
        Err(WireErrorView::UnknownKind(kind))
    }
}

/// The message that a JSON document carries, or why it carries none.
pub open spec fn decoded(doc: JsonDoc) -> Result<MessageView, WireErrorView> {
    if !(doc is Object) {
        Err(WireErrorView::NotAnObject)
    } else {
        match member(doc, "type"@) {
            None => Err(WireErrorView::MissingType),
            Some(JsonDoc::Text(kind)) => match member(doc, "payload"@) {
                None => Err(WireErrorView::MissingPayload),
                Some(payload) => assembled(kind, payload),
            },
            Some(_) => Err(WireErrorView::BadType),
        }
    }
}

/// The message that a text carries, or why it carries none.
pub open spec fn read(text: Seq<char>) -> Result<MessageView, WireErrorView> {
    match json_parse(text) {
        Ok(doc) => decoded(doc),
        Err(reason) => Err(WireErrorView::Syntax(reason)),
    }
}

/// The member of an object that goes by `key`.
pub(crate) fn find_member<'a>(members: &'a Vec<(String, Json)>, key: &str) -> (found: Option<&'a Json>)
    ensures
        match found {
            Some(json) => member(Json::Object(*members)@, key@) == Some(json@),
            None => member(Json::Object(*members)@, key@) is None,
        },
{
    let ghost docs = Json::Object(*members)@->Object_0;
    let mut i: usize = 0;
    while i < members.len()
        invariant
            i <= members@.len(),
            docs == Json::Object(*members)@->Object_0,
            docs.len() == members@.len(),
            member_from(docs, key@, 0) == member_from(docs, key@, i as int),
        decreases members@.len() - i,
    {
        if same_text(members[i].0.as_str(), key) {
            assert(docs[i as int] == (members@[i as int].0@, members@[i as int].1@));
            return Some(&members[i].1);
        }
        assert(docs[i as int].0 == members@[i as int].0@);
        i = i + 1;
    }
    None
}

/// The string that a document is, if it is one.
fn as_text(json: &Json) -> (text: Option<String>)
    ensures
        match text {
            Some(text) => text_of(json@) == Some(text@),
            None => text_of(json@) is None,
        },
{
    match json {
        Json::Text(text) => Some(text.clone()),
        _ => None,
    }
}

/// The strings that a document lists, if it is an array of strings.
fn as_texts(json: &Json) -> (list: Option<Vec<String>>)
    ensures
        match list {
            Some(list) => texts_of(json@) == Some(texts(list@)),
            None => texts_of(json@) is None,
        },
{
    match json {
        Json::List(items) => {
            let ghost docs = json@->List_0;
            let mut list: Vec<String> = Vec::new();
            let mut i: usize = 0;
            while i < items.len()
                invariant
                    i <= items@.len(),
                    json@ == JsonDoc::List(docs),
                    docs.len() == items@.len(),
                    forall|k: int| 0 <= k < items@.len() ==> docs[k] == (#[trigger] items@[k])@,
                    list@.len() == i,
                    forall|k: int| 0 <= k < i ==> #[trigger] docs[k] == JsonDoc::Text(list@[k]@),
                decreases items@.len() - i,
            {
                match &items[i] {
                    Json::Text(text) => {
                        list.push(text.clone());
                    },
                    _ => {
                        assert(!(docs[i as int] is Text));
                        return None;
                    },
                }
                i = i + 1;
            }
            assert(texts_of(json@) == Some(texts(list@))) by {
                assert(texts_of(json@) is Some);
                assert(texts_of(json@)->0 =~= texts(list@));
            }
            Some(list)
        },
        _ => None,
    }
}

/// The document that carries a message has no key twice in any object, so
/// it can be written as text as it is.
pub proof fn lemma_wire_doc_keys(message: MessageView)
    ensures
        wire_doc(message).distinct_keys(),
{
    reveal_with_fuel(JsonDoc::distinct_keys, 3);
    reveal_strlit("type");
    reveal_strlit("payload");
    reveal_strlit("recipient");
    reveal_strlit("ticket");
    assert("type"@.len() == 4);
    assert("payload"@.len() == 7);
    assert("recipient"@.len() == 9);
    assert("ticket"@.len() == 6);
    let payload = payload_of(message);
    assert(payload.distinct_keys()) by {
        match message {
            MessageView::RegisterSuccess(users) => {
                assert forall|i: int| 0 <= i < payload->List_0.len() implies (
                #[trigger] payload->List_0[i]).distinct_keys() by {
                    assert(payload->List_0[i] is Text);
                }
            },
            _ => {},
        }
    }
}

/// A list of strings as a JSON array.
fn list_of_texts(items: &Vec<String>) -> (json: Json)
    ensures
        json@ == text_list(texts(items@)),
{
    let mut list: Vec<Json> = Vec::new();
    let mut i: usize = 0;
    while i < items.len()
        invariant
            i <= items@.len(),
            list@.len() == i,
            forall|k: int| 0 <= k < i ==> (#[trigger] list@[k])@ == JsonDoc::Text(items@[k]@),
        decreases items@.len() - i,
    {
        list.push(Json::Text(items[i].clone()));
        i = i + 1;
    }
    let json = Json::List(list);
    assert(json@->List_0 =~= text_list(texts(items@))->List_0);
    json
}

/// An object of two members.
fn pair(first: &str, left: Json, second: &str, right: Json) -> (json: Json)
    ensures
        json@ == JsonDoc::Object(seq![(first@, left@), (second@, right@)]),
{
    let members = vec![(first.to_owned(), left), (second.to_owned(), right)];
    let json = Json::Object(members);
    assert(json@->Object_0 =~= seq![(first@, left@), (second@, right@)]);
    json
}

impl WebSocketMessage {
    /// The JSON document that carries the message.
    pub fn encode(&self) -> (json: Json)
        ensures
            json@ == wire_doc(self@),
    {
        match self {
            WebSocketMessage::Register(nickname) => pair(
                "type",
                Json::Text("register".to_owned()),
                "payload",
                Json::Text(nickname.clone()),
            ),
            WebSocketMessage::RegisterSuccess(users) => pair(
                "type",
                Json::Text("register_success".to_owned()),
                "payload",
                list_of_texts(users),
            ),
            WebSocketMessage::UserJoined(nickname) => pair(
                "type",
                Json::Text("user_joined".to_owned()),
                "payload",
                Json::Text(nickname.clone()),
            ),
            WebSocketMessage::UserLeft(nickname) => pair(
                "type",
                Json::Text("user_left".to_owned()),
                "payload",
                Json::Text(nickname.clone()),
            ),
            WebSocketMessage::SendFile { recipient, ticket } => pair(
                "type",
                Json::Text("send_file".to_owned()),
                "payload",
                pair(
                    "recipient",
                    Json::Text(recipient.clone()),
                    "ticket",
                    Json::Text(ticket.clone()),
                ),
            ),
            WebSocketMessage::ReceiveFile(ticket) => pair(
                "type",
                Json::Text("receive_file".to_owned()),
                "payload",
                Json::Text(ticket.clone()),
            ),
            WebSocketMessage::ErrorDeserializingJson(reason) => pair(
                "type",
                Json::Text("error_deserializing_json".to_owned()),
                "payload",
                Json::Text(reason.clone()),
            ),
        }
    }

    /// The message as JSON text, ready for the wire.
    pub fn to_json(&self) -> (text: String)
        ensures
            text@ == json_text(wire_doc(self@)),
    {
        let json = self.encode();
        proof {
            lemma_wire_doc_keys(self@);
        }
        render(&json)
    }

    /// The message of kind `kind` with the data `payload`.
    fn assemble(kind: &str, payload: &Json) -> (outcome: Result<WebSocketMessage, WireError>)
        ensures
            outcome_view(outcome) == assembled(kind@, payload@),
    {
        if same_text(kind, "register") {
            match as_text(payload) {
                Some(nickname) => Ok(WebSocketMessage::Register(nickname)),
                None => Err(WireError::BadPayload),
            }
        } else if same_text(kind, "register_success") {
            match as_texts(payload) {
                Some(users) => Ok(WebSocketMessage::RegisterSuccess(users)),
                None => Err(WireError::BadPayload),
            }
        } else if same_text(kind, "user_joined") {
            match as_text(payload) {
                Some(nickname) => Ok(WebSocketMessage::UserJoined(nickname)),
                None => Err(WireError::BadPayload),
            }
        } else if same_text(kind, "user_left") {
            match as_text(payload) {
                Some(nickname) => Ok(WebSocketMessage::UserLeft(nickname)),
                None => Err(WireError::BadPayload),
            }
        } else if same_text(kind, "send_file") {
            match payload {
                Json::Object(members) => {
                    match (find_member(members, "recipient"), find_member(members, "ticket")) {
                        (Some(Json::Text(recipient)), Some(Json::Text(ticket))) => Ok(
                            WebSocketMessage::SendFile {
                                recipient: recipient.clone(),
                                ticket: ticket.clone(),
                            },
                        ),
                        _ => Err(WireError::BadPayload),
                    }
                },
                _ => Err(WireError::BadPayload),
            }
        } else if same_text(kind, "receive_file") {
            match as_text(payload) {
                Some(ticket) => Ok(WebSocketMessage::ReceiveFile(ticket)),
                None => Err(WireError::BadPayload),
            }
        } else if same_text(kind, "error_deserializing_json") {
            match as_text(payload) {
                Some(reason) => Ok(WebSocketMessage::ErrorDeserializingJson(reason)),
                None => Err(WireError::BadPayload),
            }
        } else {
            Err(WireError::UnknownKind(kind.to_owned()))
        }
    }

    /// Reads the message that a JSON document carries.
    pub fn decode(json: &Json) -> (outcome: Result<WebSocketMessage, WireError>)
        ensures
            outcome_view(outcome) == decoded(json@),
    {
        match json {
            Json::Object(members) => {
                match find_member(members, "type") {
                    None => Err(WireError::MissingType),
                    Some(Json::Text(kind)) => match find_member(members, "payload") {
                        None => Err(WireError::MissingPayload),
                        Some(payload) => WebSocketMessage::assemble(kind.as_str(), payload),
                    },
                    Some(_) => Err(WireError::BadType),
                }
            },
            _ => Err(WireError::NotAnObject),
        }
    }

    /// Reads a message from JSON text as it came off the wire.
    pub fn from_json(text: &str) -> (outcome: Result<WebSocketMessage, WireError>)
        ensures
            outcome_view(outcome) == read(text@),
    {
        match parse(text) {
            Ok(json) => WebSocketMessage::decode(&json),
            Err(reason) => Err(WireError::Syntax(reason)),
        }
    }

    /// A copy of the message.
    pub fn duplicate(&self) -> (copy: WebSocketMessage)
        ensures
            copy@ == self@,
    {
        match self {
            WebSocketMessage::Register(nickname) => WebSocketMessage::Register(nickname.clone()),
            WebSocketMessage::RegisterSuccess(users) => {
                let copy = WebSocketMessage::RegisterSuccess(copy_all(users));
                copy
            },
            WebSocketMessage::UserJoined(nickname) => WebSocketMessage::UserJoined(
                nickname.clone(),
            ),
            WebSocketMessage::UserLeft(nickname) => WebSocketMessage::UserLeft(nickname.clone()),
            WebSocketMessage::SendFile { recipient, ticket } => WebSocketMessage::SendFile {
                recipient: recipient.clone(),
                ticket: ticket.clone(),
            },
            WebSocketMessage::ReceiveFile(ticket) => WebSocketMessage::ReceiveFile(ticket.clone()),
            WebSocketMessage::ErrorDeserializingJson(reason) => {
                WebSocketMessage::ErrorDeserializingJson(reason.clone())
            },
        }
    }
}

proof fn lemma_kinds_differ()
    ensures
        "register"@ != "register_success"@,
        "register"@ != "user_joined"@,
        "register"@ != "user_left"@,
        "register"@ != "send_file"@,
        "register"@ != "receive_file"@,
        "register"@ != "error_deserializing_json"@,
        "register_success"@ != "user_joined"@,
        "register_success"@ != "user_left"@,
        "register_success"@ != "send_file"@,
        "register_success"@ != "receive_file"@,
        "register_success"@ != "error_deserializing_json"@,
        "user_joined"@ != "user_left"@,
        "user_joined"@ != "send_file"@,
        "user_joined"@ != "receive_file"@,
        "user_joined"@ != "error_deserializing_json"@,
        "user_left"@ != "send_file"@,
        "user_left"@ != "receive_file"@,
        "user_left"@ != "error_deserializing_json"@,
        "send_file"@ != "receive_file"@,
        "send_file"@ != "error_deserializing_json"@,
        "receive_file"@ != "error_deserializing_json"@,
        "type"@ != "payload"@,
        "recipient"@ != "ticket"@,
{
    reveal_strlit("register");
    reveal_strlit("register_success");
    reveal_strlit("user_joined");
    reveal_strlit("user_left");
    reveal_strlit("send_file");
    reveal_strlit("receive_file");
    reveal_strlit("error_deserializing_json");
    reveal_strlit("type");
    reveal_strlit("payload");
    reveal_strlit("recipient");
    reveal_strlit("ticket");
    assert("register"@.len() == 8);
    assert("register_success"@.len() == 16);
    assert("user_joined"@.len() == 11);
    assert("user_left"@.len() == 9);
    assert("send_file"@.len() == 9);
    assert("receive_file"@.len() == 12);
    assert("error_deserializing_json"@.len() == 24);
    assert("type"@.len() == 4);
    assert("payload"@.len() == 7);
    assert("recipient"@.len() == 9);
    assert("ticket"@.len() == 6);
    assert("user_left"@[0] == 'u');
    assert("send_file"@[0] == 's');
}

/// Every message is read back, unchanged, from the document that carries it.
pub proof fn lemma_decode_inverts_encode(message: MessageView)
    ensures
        decoded(wire_doc(message)) is Ok,
        decoded(wire_doc(message))->Ok_0 == message,
{
    lemma_kinds_differ();
    reveal_with_fuel(member_from, 3);
    let doc = wire_doc(message);
    assert(member(doc, "type"@) == Some(JsonDoc::Text(kind_of(message))));
    assert(member(doc, "payload"@) == Some(payload_of(message)));
    match message {
        MessageView::RegisterSuccess(users) => {
            assert(texts_of(text_list(users))->0 =~= users);
        },
        MessageView::SendFile { recipient, ticket } => {
            let payload = payload_of(message);
            assert(member(payload, "recipient"@) == Some(JsonDoc::Text(recipient)));
            assert(member(payload, "ticket"@) == Some(JsonDoc::Text(ticket)));
        },
        _ => {},
    }
}

} // verus!

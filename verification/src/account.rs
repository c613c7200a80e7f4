//! Registering a username with the account service over HTTP: the request
//! body, the reply, and what the user is told.

use vstd::prelude::*;
use crate::json::{json_parse, json_text, parse, render, Json, JsonDoc};
use crate::message::{find_member, member};
use crate::text::concat;

verus! {

/// The request to register a username.
#[derive(Debug, PartialEq, Eq)]
pub struct Register {
    pub username: String,
}

/// The JSON document that carries a registration: an object with the one
/// member `username`.
pub open spec fn register_doc(username: Seq<char>) -> JsonDoc {
    JsonDoc::Object(seq![("username"@, JsonDoc::Text(username))])
}

impl Register {
    /// The body of the request, as JSON text.
    pub fn to_json(&self) -> (body: String)
        ensures
            body@ == json_text(register_doc(self.username@)),
    {
        let name = Json::Text(self.username.clone());
        assert(name@ == JsonDoc::Text(self.username@));
        let members = vec![("username".to_owned(), name)];
        let json = Json::Object(members);
        assert(json@->Object_0 =~= register_doc(self.username@)->Object_0);
        assert(json@.distinct_keys()) by {
            reveal_with_fuel(JsonDoc::distinct_keys, 2);
        }
        render(&json)
    }
}

/// The header that every request to the service carries: name and value.
pub fn construct_headers() -> (headers: Vec<(String, String)>)
    ensures
        headers@.len() == 1,
        headers@[0].0@ == "content-type"@,
        headers@[0].1@ == "application/json"@,
{
    vec![("content-type".to_owned(), "application/json".to_owned())]
}

/// The service's reply.
#[derive(Debug, PartialEq, Eq)]
pub struct Response {
    pub message: String,
}

/// What `Response::decode` makes of a document: the text of the reply, or
/// why the document is no reply.
pub open spec fn reply_of(doc: JsonDoc) -> Result<Seq<char>, Seq<char>> {
    if !(doc is Object) {
        Err("expected a JSON object"@)
    } else {
        match member(doc, "message"@) {
            None => Err("missing field `message`"@),
            Some(JsonDoc::Text(message)) => Ok(message),
            Some(_) => Err("field `message` is not a string"@),
        }
    }
}

/// What `Response::from_json` makes of a text.
pub open spec fn reply_in(text: Seq<char>) -> Result<Seq<char>, Seq<char>> {
    match json_parse(text) {
        Ok(doc) => reply_of(doc),
        Err(reason) => Err(reason),
    }
}

/// The outcome of reading a reply, as mathematical values.
pub open spec fn reply_view(outcome: Result<Response, String>) -> Result<Seq<char>, Seq<char>> {
    match outcome {
        Ok(response) => Ok(response.message@),
        Err(reason) => Err(reason@),
    }
}

impl Response {
    /// Reads the reply that a JSON document carries: an object whose member
    /// `message` is a string.
    pub fn decode(json: &Json) -> (outcome: Result<Response, String>)
        ensures
            reply_view(outcome) == reply_of(json@),
    {
        match json {
            Json::Object(members) => match find_member(members, "message") {
                None => Err("missing field `message`".to_owned()),
                Some(Json::Text(message)) => Ok(Response { message: message.clone() }),
                Some(_) => Err("field `message` is not a string".to_owned()),
            },
            _ => Err("expected a JSON object".to_owned()),
        }
    }

    /// Reads a reply from the text of a response body.
    pub fn from_json(text: &str) -> (outcome: Result<Response, String>)
        ensures
            reply_view(outcome) == reply_in(text@),
    {
        match parse(text) {
            Ok(json) => Response::decode(&json),
            Err(reason) => Err(reason),
        }
    }
}

/// What the user is told about a response, given the body that was read or
/// the reason why it could not be read.
pub open spec fn told(body: Result<Seq<char>, Seq<char>>) -> Seq<char> {
    match body {
        Ok(text) => match reply_in(text) {
            Ok(message) => message,
            Err(reason) => "Error parsing response: "@ + reason,
        },
        Err(reason) => "Failed to read response body: "@ + reason,
    }
}

/// The body as mathematical values.
pub open spec fn body_view(body: Result<String, String>) -> Result<Seq<char>, Seq<char>> {
    match body {
        Ok(text) => Ok(text@),
        Err(reason) => Err(reason@),
    }
}

/// The message to show for a response: the reply's own message, or what went
/// wrong in reading it.
pub fn response_to_message(body: Result<String, String>) -> (message: String)
    ensures
        message@ == told(body_view(body)),
{
    match body {
        Ok(text) => match Response::from_json(text.as_str()) {
            Ok(response) => response.message,
            Err(reason) => concat("Error parsing response: ", reason.as_str()),
        },
        Err(reason) => concat("Failed to read response body: ", reason.as_str()),
    }
}

/// What came of asking the service: it answered, with a status that means
/// success or not and the message made of its response, or it could not be
/// reached.
#[derive(Debug, PartialEq, Eq)]
pub enum Attempt {
    Answered { success: bool, message: String },
    Unreachable(String),
}

/// What the form is told about an attempt: the message, as good news only if
/// the service answered with success.
pub fn registration_outcome(attempt: Attempt) -> (outcome: Result<String, String>)
    ensures
        body_view(outcome) == match attempt {
            Attempt::Answered { success, message } => if success {
                Ok(message@)
            } else {
                Err(message@)
            },
            Attempt::Unreachable(reason) => Err(reason@),
        },
{
    match attempt {
        Attempt::Answered { success, message } => if success {
            Ok(message)
        } else {
            Err(message)
        },
        Attempt::Unreachable(reason) => Err(reason),
    }
}

/// What the form finds when it looks for the answer to its request.
#[derive(Debug, PartialEq, Eq)]
pub enum Polled {
    /// Nothing has arrived yet.
    Empty,
    /// The request was given up without an answer.
    Closed,
    /// The answer.
    Answer(Result<String, String>),
}

/// The form in which the user picks a username.
#[derive(Debug, PartialEq, Eq)]
pub struct UsernameForm {
    pub username: String,
    /// What the form says about the last request.
    pub message: String,
    /// Whether the form is shown.
    pub open: bool,
    /// Whether a request is under way.
    pub waiting: bool,
}

/// A form as mathematical values.
pub struct FormView {
    pub username: Seq<char>,
    pub message: Seq<char>,
    pub open: bool,
    pub waiting: bool,
}

impl View for UsernameForm {
    type V = FormView;

    open spec fn view(&self) -> FormView {
        FormView {
            username: self.username@,
            message: self.message@,
            open: self.open,
            waiting: self.waiting,
        }
    }
}

/// What the form found, as mathematical values.
pub enum PolledView {
    Empty,
    Closed,
    Answer(Result<Seq<char>, Seq<char>>),
}

impl View for Polled {
    type V = PolledView;

    open spec fn view(&self) -> PolledView {
        match self {
            Polled::Empty => PolledView::Empty,
            Polled::Closed => PolledView::Closed,
            Polled::Answer(answer) => PolledView::Answer(body_view(*answer)),
        }
    }
}

/// The form after it has looked for the answer to its request.
///
/// A form that is not waiting stays as it is, and so does one that finds
/// nothing yet. Good news closes the form; bad news, or a request given up,
/// leaves it open with the reason.
pub open spec fn polled(form: FormView, found: PolledView) -> FormView {
    if !form.waiting {
        form
    } else {
        match found {
            PolledView::Empty => form,
            PolledView::Closed => FormView {
                waiting: false,
                message: "Connection closed before response"@,
                ..form
            },
            PolledView::Answer(Ok(message)) => FormView {
                waiting: false,
                message,
                open: false,
                ..form
            },
            PolledView::Answer(Err(reason)) => FormView { waiting: false, message: reason, ..form },
        }
    }
}

impl UsernameForm {
    /// An open form with nothing filled in.
    pub fn new() -> (form: UsernameForm)
        ensures
            form@ == (FormView {
                username: Seq::empty(),
                message: Seq::empty(),
                open: true,
                waiting: false,
            }),
    {
        UsernameForm { username: String::new(), message: String::new(), open: true, waiting: false }
    }

    /// Looks for the answer to the request under way.
    pub fn poll_username_response(&mut self, found: Polled)
        ensures
            final(self)@ == polled(old(self)@, found@),
    {
        if !self.waiting {
            return;
        }
        match found {
            Polled::Empty => {},
            Polled::Closed => {
                self.waiting = false;
                self.message = "Connection closed before response".to_owned();
            },
            Polled::Answer(Ok(message)) => {
                self.waiting = false;
                self.message = message;
                self.open = false;
            },
            Polled::Answer(Err(reason)) => {
                self.waiting = false;
                self.message = reason;
            },
        }
    }
}

} // verus!

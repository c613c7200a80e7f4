//! What the rendezvous server decides for one connection.
//!
//! The server reads frames off a socket, writes frames to it, and relays what
//! other connections broadcast. What it does with each of them is decided
//! here: the caller hands in what arrived and carries out the effects that
//! come back.

use vstd::prelude::*;
use crate::directory::{holder, lists_others, Directory};
use crate::json::json_text;
use crate::message::{
    error_text, outcome_view, read, wire_doc, MessageView, WebSocketMessage, WireError,
    WireErrorView,
};
use crate::text::texts;

verus! {

/// One connection to the server, and the nickname that it registered last.
#[derive(Debug, PartialEq, Eq)]
pub struct Connection {
    id: u64,
    nickname: Option<String>,
}

/// A connection as mathematical values.
pub struct ConnectionView {
    pub id: u64,
    pub nickname: Option<Seq<char>>,
}

impl View for Connection {
    type V = ConnectionView;

    closed spec fn view(&self) -> ConnectionView {
        ConnectionView {
            id: self.id,
            nickname: match self.nickname {
                Some(nickname) => Some(nickname@),
                None => None,
            },
        }
    }
}

/// What the server is to do with a message.
#[derive(Debug, PartialEq, Eq)]
pub enum Effect {
    /// Queue the message for the connection `to`.
    Send { to: u64, message: WebSocketMessage },
    /// Hand the message to every connection's relay, as coming from the
    /// connection `from`.
    Broadcast { from: u64, message: WebSocketMessage },
}

/// An effect as mathematical values.
pub enum EffectView {
    Send { to: u64, message: MessageView },
    Broadcast { from: u64, message: MessageView },
}

impl View for Effect {
    type V = EffectView;

    open spec fn view(&self) -> EffectView {
        match self {
            Effect::Send { to, message } => EffectView::Send { to: *to, message: message@ },
            Effect::Broadcast { from, message } => EffectView::Broadcast {
                from: *from,
                message: message@,
            },
        }
    }
}

/// The views of a vector of effects, in order.
pub open spec fn effects_view(effects: Seq<Effect>) -> Seq<EffectView> {
    Seq::new(effects.len(), |i: int| effects[i]@)
}

/// What becomes of a connection, of the directory and of the server's
/// outgoing messages when something arrives on the connection.
///
/// - `Register` stores the connection under the nickname, answers with the
///   other nicknames that are online, once each and in no particular order,
///   and then broadcasts that the nickname joined.
/// - `SendFile` passes the ticket on to the connection that holds the
///   recipient's nickname; with nobody registered under it, the message is
///   dropped without a word to the sender.
/// - Any other message is ignored.
/// - What cannot be read is answered with the reason, and nothing else
///   changes.
pub open spec fn handled(
    before: ConnectionView,
    sessions: Map<Seq<char>, u64>,
    inbound: Result<MessageView, WireErrorView>,
    after: ConnectionView,
    sessions_after: Map<Seq<char>, u64>,
    effects: Seq<EffectView>,
) -> bool {
    match inbound {
        Ok(MessageView::Register(nickname)) => {
            &&& after == ConnectionView { id: before.id, nickname: Some(nickname) }
            &&& sessions_after == sessions.insert(nickname, before.id)
            &&& effects.len() == 2
            &&& effects[0] matches EffectView::Send {
                to,
                message: MessageView::RegisterSuccess(others),
            }
            &&& to == before.id
            &&& lists_others(others, sessions, nickname)
            &&& effects[1] == EffectView::Broadcast {
                from: before.id,
                message: MessageView::UserJoined(nickname),
            }
        },
        Ok(MessageView::SendFile { recipient, ticket }) => {
            &&& after == before
            &&& sessions_after == sessions
            &&& effects == match holder(sessions, recipient) {
                Some(to) => seq![EffectView::Send { to, message: MessageView::ReceiveFile(ticket) }],
                None => seq![],
            }
        },
        Ok(_) => {
            &&& after == before
            &&& sessions_after == sessions
            &&& effects == Seq::<EffectView>::empty()
        },
        Err(error) => {
            &&& after == before
            &&& sessions_after == sessions
            &&& effects == seq![
                EffectView::Send {
                    to: before.id,
                    message: MessageView::ErrorDeserializingJson(error_text(error)),
                },
            ]
        },
    }
}

/// What becomes of the directory and of the server's outgoing messages when a
/// connection closes.
///
/// The nickname that the connection registered last is taken out of the
/// directory, whoever holds it by now, and its leaving is broadcast once. A
/// connection that never registered has no session to end: the directory
/// stays as it is and nothing is broadcast.
pub open spec fn closed(
    connection: ConnectionView,
    sessions: Map<Seq<char>, u64>,
    sessions_after: Map<Seq<char>, u64>,
    effects: Seq<EffectView>,
) -> bool {
    match connection.nickname {
        Some(nickname) => {
            &&& sessions_after == sessions.remove(nickname)
            &&& effects == seq![
                EffectView::Broadcast {
                    from: connection.id,
                    message: MessageView::UserLeft(nickname),
                },
            ]
        },
        None => {
            &&& sessions_after == sessions
            &&& effects == Seq::<EffectView>::empty()
        },
    }
}

impl Connection {
    /// A connection that has not registered yet.
    pub fn open(id: u64) -> (connection: Connection)
        ensures
            connection@ == (ConnectionView { id, nickname: None }),
    {
        Connection { id, nickname: None }
    }

    /// The number that the server knows the connection by.
    pub fn id(&self) -> (id: u64)
        ensures
            id == self@.id,
    {
        self.id
    }

    /// The nickname registered last on this connection, if any.
    pub fn nickname(&self) -> (nickname: Option<String>)
        ensures
            match nickname {
                Some(nickname) => self@.nickname == Some(nickname@),
                None => self@.nickname is None,
            },
    {
        match &self.nickname {
            Some(nickname) => Some(nickname.clone()),
            None => None,
        }
    }

    /// Takes in a message that was read off the connection, or the reason why
    /// what arrived could not be read.
    pub fn receive(
        &mut self,
        directory: &mut Directory,
        inbound: Result<WebSocketMessage, WireError>,
    ) -> (effects: Vec<Effect>)
        ensures
            handled(
                old(self)@,
                old(directory)@,
                outcome_view(inbound),
                final(self)@,
                final(directory)@,
                effects_view(effects@),
            ),
    {
        let ghost before = self@;
        let ghost sessions = directory@;
        match inbound {
            Ok(WebSocketMessage::Register(nickname)) => {
                let others = directory.register(nickname.clone(), self.id);
                let joined = nickname.clone();
                self.nickname = Some(nickname);
                let effects = vec![
                    Effect::Send { to: self.id, message: WebSocketMessage::RegisterSuccess(others) },
                    Effect::Broadcast {
                        from: self.id,
                        message: WebSocketMessage::UserJoined(joined),
                    },
                ];
                assert(effects_view(effects@)[0] == EffectView::Send {
                    to: before.id,
                    message: MessageView::RegisterSuccess(texts(others@)),
                });
                effects
            },
            Ok(WebSocketMessage::SendFile { recipient, ticket }) => {
                match directory.route(recipient.as_str()) {
                    Some(to) => {
                        let effects = vec![
                            Effect::Send { to, message: WebSocketMessage::ReceiveFile(ticket) },
                        ];
                        assert(effects_view(effects@) =~= seq![
                            EffectView::Send { to, message: MessageView::ReceiveFile(ticket@) },
                        ]);
                        effects
                    },
                    None => {
                        let effects: Vec<Effect> = Vec::new();
                        assert(effects_view(effects@) =~= Seq::<EffectView>::empty());
                        effects
                    },
                }
            },
            Ok(_) => {
                let effects: Vec<Effect> = Vec::new();
                assert(effects_view(effects@) =~= Seq::<EffectView>::empty());
                effects
            },
            Err(error) => {
                let reason = error.describe();
                let effects = vec![
                    Effect::Send {
                        to: self.id,
                        message: WebSocketMessage::ErrorDeserializingJson(reason),
                    },
                ];
                assert(effects_view(effects@) =~= seq![
                    EffectView::Send {
                        to: before.id,
                        message: MessageView::ErrorDeserializingJson(error_text(error@)),
                    },
                ]);
                effects
            },
        }
    }

    /// Takes in the text of a frame that arrived on the connection.
    pub fn on_text(&mut self, directory: &mut Directory, text: &str) -> (effects: Vec<Effect>)
        ensures
            handled(
                old(self)@,
                old(directory)@,
                read(text@),
                final(self)@,
                final(directory)@,
                effects_view(effects@),
            ),
    {
        let inbound = WebSocketMessage::from_json(text);
        self.receive(directory, inbound)
    }

    /// Closes the connection.
    pub fn close(self, directory: &mut Directory) -> (effects: Vec<Effect>)
        ensures
            closed(self@, old(directory)@, final(directory)@, effects_view(effects@)),
    {
        match self.nickname {
            Some(nickname) => {
                directory.disconnect(nickname.as_str());
                let effects = vec![
                    Effect::Broadcast {
                        from: self.id,
                        message: WebSocketMessage::UserLeft(nickname),
                    },
                ];
                assert(effects_view(effects@) =~= seq![
                    EffectView::Broadcast {
                        from: self.id,
                        message: MessageView::UserLeft(nickname@),
                    },
                ]);
                effects
            },
            None => {
                let effects: Vec<Effect> = Vec::new();
                assert(effects_view(effects@) =~= Seq::<EffectView>::empty());
                effects
            },
        }
    }
}

/// The message goes from the server to a peer.
pub open spec fn is_downstream(message: MessageView) -> bool {
    message is RegisterSuccess || message is UserJoined || message is UserLeft
        || message is ReceiveFile || message is ErrorDeserializingJson
}

/// The frame that the server writes for a queued message: the message as
/// JSON if it is one that goes from the server to a peer, and nothing
/// otherwise.
pub fn outbound(message: &WebSocketMessage) -> (frame: Option<String>)
    ensures
        frame is Some <==> is_downstream(message@),
        frame matches Some(text) ==> text@ == json_text(wire_doc(message@)),
{
    match message {
        WebSocketMessage::Register(_) => None,
        WebSocketMessage::SendFile { .. } => None,
        _ => Some(message.to_json()),
    }
}

/// What a connection passes on of what another connection broadcast.
pub open spec fn relayed(own: u64, from: u64, message: MessageView) -> Option<MessageView> {
    if from != own && (message is UserJoined || message is UserLeft) {
        Some(message)
    } else {
        None
    }
}

/// What the connection `own` is to queue for its peer when the connection
/// `from` broadcasts `message`: joining and leaving of others is passed on,
/// anything else is not.
pub fn relay(own: u64, from: u64, message: &WebSocketMessage) -> (passed: Option<WebSocketMessage>)
    ensures
        match passed {
            Some(copy) => relayed(own, from, message@) == Some(copy@),
            None => relayed(own, from, message@) is None,
        },
{
    if from == own {
        return None;
    }
    match message {
        WebSocketMessage::UserJoined(nickname) => Some(
            WebSocketMessage::UserJoined(nickname.clone()),
        ),
        WebSocketMessage::UserLeft(nickname) => Some(WebSocketMessage::UserLeft(nickname.clone())),
        _ => None,
    }
}

/// The effect broadcasts that `nickname` joined, from the connection `id`.
pub open spec fn announces(effect: EffectView, id: u64, nickname: Seq<char>) -> bool {
    effect == EffectView::Broadcast { from: id, message: MessageView::UserJoined(nickname) }
}

/// The effect broadcasts that somebody left.
pub open spec fn is_parting(effect: EffectView) -> bool {
    effect matches EffectView::Broadcast { message, .. } && message is UserLeft
}

/// Everything that the server has done for one connection so far fits the
/// connection: nobody's leaving was broadcast, and if the connection has a
/// nickname, then that the nickname joined was broadcast.
pub open spec fn consistent(history: Seq<EffectView>, connection: ConnectionView) -> bool {
    &&& forall|i: int| 0 <= i < history.len() ==> !is_parting(#[trigger] history[i])
    &&& connection.nickname matches Some(nickname) ==> exists|i: int|
        0 <= i < history.len() && announces(#[trigger] history[i], connection.id, nickname)
}

/// Handling what arrives on a connection never broadcasts that somebody left,
/// and a connection comes by a nickname only together with the broadcast that
/// the nickname joined.
pub proof fn lemma_joined_before_left(
    history: Seq<EffectView>,
    before: ConnectionView,
    sessions: Map<Seq<char>, u64>,
    inbound: Result<MessageView, WireErrorView>,
    after: ConnectionView,
    sessions_after: Map<Seq<char>, u64>,
    effects: Seq<EffectView>,
)
    requires
        consistent(history, before),
        handled(before, sessions, inbound, after, sessions_after, effects),
    ensures
        consistent(history + effects, after),
{
    let all = history + effects;
    assert forall|i: int| 0 <= i < all.len() implies !is_parting(#[trigger] all[i]) by {
        if i < history.len() {
            assert(all[i] == history[i]);
        } else {
            assert(all[i] == effects[i - history.len()]);
        }
    }
    match inbound {
        Ok(MessageView::Register(nickname)) => {
            let at = history.len() as int + 1;
            assert(all[at] == effects[1]);
            assert(announces(all[at], after.id, nickname));
        },
        _ => {
            if before.nickname is Some {
                let i = choose|i: int|
                    0 <= i < history.len() && announces(
                        #[trigger] history[i],
                        before.id,
                        before.nickname->0,
                    );
                assert(all[i] == history[i]);
            }
        },
    }
}

/// The effect broadcasts that `nickname` left, from the connection `id`.
pub open spec fn parts(effect: EffectView, id: u64, nickname: Seq<char>) -> bool {
    effect == EffectView::Broadcast { from: id, message: MessageView::UserLeft(nickname) }
}

/// When a connection closes, the leaving of a nickname is broadcast only
/// after the joining of that nickname was broadcast for this connection, and
/// nobody's leaving was broadcast for it before. A connection that registered
/// broadcasts the leaving of its nickname exactly once; one that never
/// registered broadcasts nothing.
pub proof fn lemma_left_once_after_joined(
    history: Seq<EffectView>,
    connection: ConnectionView,
    sessions: Map<Seq<char>, u64>,
    sessions_after: Map<Seq<char>, u64>,
    effects: Seq<EffectView>,
)
    requires
        consistent(history, connection),
        closed(connection, sessions, sessions_after, effects),
    ensures
        forall|i: int| 0 <= i < history.len() ==> !is_parting(#[trigger] history[i]),
        connection.nickname is None ==> effects.len() == 0,
        connection.nickname is Some ==> effects.len() == 1 && parts(
            effects[0],
            connection.id,
            connection.nickname->0,
        ),
        forall|k: int|
            0 <= k < effects.len() && is_parting(#[trigger] effects[k]) ==> connection.nickname
                is Some && parts(effects[k], connection.id, connection.nickname->0),
        connection.nickname is Some ==> exists|i: int|
            0 <= i < history.len() && announces(
                #[trigger] history[i],
                connection.id,
                connection.nickname->0,
            ),
{
}

} // verus!

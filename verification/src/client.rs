//! The peer's side of the rendezvous: what arrives from the server, what the
//! user asks for, and the state that the user interface shows.

use vstd::prelude::*;
use crate::download::{is_over, stepped, CommandView, DownloadState, JobView, ReportView};
use crate::events::{described, AppEvent, AppEventView, Fault, FaultView};
use crate::message::{
    error_text, outcome_view, read, MessageView, WebSocketMessage, WireError, WireErrorView,
};
use crate::progress::Fraction;
use crate::text::{concat, copy_all, same_text, texts};

verus! {

/// What the user interface asks of the coordinator.
#[derive(Debug, PartialEq, Eq)]
pub enum UIEvent {
    /// Announce this peer under the nickname.
    Register(String),
    /// Import the files and offer them to `recipient`.
    PrepareFile { recipient: String, files: Vec<String> },
    /// Fetch what the ticket refers to.
    DownloadFile(String),
}

/// A request of the user interface as mathematical values.
pub enum UIEventView {
    Register(Seq<char>),
    PrepareFile { recipient: Seq<char>, files: Seq<Seq<char>> },
    DownloadFile(Seq<char>),
}

impl View for UIEvent {
    type V = UIEventView;

    open spec fn view(&self) -> UIEventView {
        match self {
            UIEvent::Register(nickname) => UIEventView::Register(nickname@),
            UIEvent::PrepareFile { recipient, files } => UIEventView::PrepareFile {
                recipient: recipient@,
                files: texts(files@),
            },
            UIEvent::DownloadFile(ticket) => UIEventView::DownloadFile(ticket@),
        }
    }
}

/// The message as a mathematical value, if there is one.
pub open spec fn sent_view(message: Option<WebSocketMessage>) -> Option<MessageView> {
    match message {
        Some(message) => Some(message@),
        None => None,
    }
}

impl UIEvent {
    /// The message that carries the request to the server, for the requests
    /// that go there as they are: only `Register` does.
    pub fn to_ws(self) -> (message: Option<WebSocketMessage>)
        ensures
            sent_view(message) == match self@ {
                UIEventView::Register(nickname) => Some(MessageView::Register(nickname)),
                _ => None,
            },
    {
        match self {
            UIEvent::Register(nickname) => Some(WebSocketMessage::Register(nickname)),
            _ => None,
        }
    }
}

/// The event that a message from the server amounts to, if any.
pub open spec fn processed(inbound: Result<MessageView, WireErrorView>) -> Option<AppEventView> {
    match inbound {
        Ok(MessageView::RegisterSuccess(users)) => Some(AppEventView::RegisterSuccess(users)),
        Ok(MessageView::UserJoined(nickname)) => Some(AppEventView::AddNewUser(nickname)),
        Ok(MessageView::UserLeft(nickname)) => Some(AppEventView::RemoveUser(nickname)),
        Ok(MessageView::ReceiveFile(ticket)) => Some(AppEventView::DownloadFile(ticket)),
        Ok(MessageView::ErrorDeserializingJson(reason)) => Some(
            AppEventView::FatalError(
                FaultView { context: "Server JSON error"@, cause: Some(reason) },
            ),
        ),
        Ok(_) => None,
        Err(error) => Some(
            AppEventView::FatalError(
                FaultView { context: "Message parse failed"@, cause: Some(error_text(error)) },
            ),
        ),
    }
}

/// The event as a mathematical value, if there is one.
pub open spec fn event_view(event: Option<AppEvent>) -> Option<AppEventView> {
    match event {
        Some(event) => Some(event@),
        None => None,
    }
}

/// Turns a message that was read off the signalling socket, or the reason why
/// it could not be read, into the event for the user interface.
pub fn to_event(inbound: Result<WebSocketMessage, WireError>) -> (event: Option<AppEvent>)
    ensures
        event_view(event) == processed(outcome_view(inbound)),
{
    match inbound {
        Ok(WebSocketMessage::RegisterSuccess(users)) => Some(AppEvent::RegisterSuccess(users)),
        Ok(WebSocketMessage::UserJoined(nickname)) => Some(AppEvent::AddNewUser(nickname)),
        Ok(WebSocketMessage::UserLeft(nickname)) => Some(AppEvent::RemoveUser(nickname)),
        Ok(WebSocketMessage::ReceiveFile(ticket)) => Some(AppEvent::DownloadFile(ticket)),
        Ok(WebSocketMessage::ErrorDeserializingJson(reason)) => Some(
            AppEvent::FatalError(Fault::caused("Server JSON error", reason)),
        ),
        Ok(_) => None,
        Err(error) => Some(
            AppEvent::FatalError(Fault::caused("Message parse failed", error.describe())),
        ),
    }
}

/// Turns the text of a frame from the server into the event for the user
/// interface.
pub fn process_message(text: &str) -> (event: Option<AppEvent>)
    ensures
        event_view(event) == processed(read(text@)),
{
    to_event(WebSocketMessage::from_json(text))
}

/// The message that offers a committed collection to `recipient`, unless the
/// collection is empty and there is nothing to send.
pub fn announcement(recipient: String, ticket: String, nothing_to_send: bool) -> (message: Option<
    WebSocketMessage,
>)
    ensures
        sent_view(message) == if nothing_to_send {
            None
        } else {
            Some(MessageView::SendFile { recipient: recipient@, ticket: ticket@ })
        },
{
    if nothing_to_send {
        None
    } else {
        Some(WebSocketMessage::SendFile { recipient, ticket })
    }
}

/// The name of a peer's working directory inside the content store's root.
pub fn working_dir_name(nickname: &str) -> (name: String)
    ensures
        name@ == "fling-"@ + nickname@,
{
    concat("fling-", nickname)
}

/// The nickname to go by: the generated one, or `Guest` where none could be
/// generated.
pub fn nickname_or_guest(generated: Option<String>) -> (nickname: String)
    ensures
        nickname@ == match generated {
            Some(name) => name@,
            None => "Guest"@,
        },
{
    match generated {
        Some(name) => name,
        None => "Guest".to_owned(),
    }
}

/// The adjective that a generated nickname starts with.
pub open spec fn adjective(choice: int) -> Seq<char> {
    if choice == 0 {
        "happy"@
    } else if choice == 1 {
        "lucky"@
    } else if choice == 2 {
        "brave"@
    } else if choice == 3 {
        "calm"@
    } else {
        "bright"@
    }
}

/// The noun in the middle of a generated nickname.
pub open spec fn noun(choice: int) -> Seq<char> {
    if choice == 0 {
        "cat"@
    } else if choice == 1 {
        "dog"@
    } else if choice == 2 {
        "fox"@
    } else if choice == 3 {
        "bear"@
    } else {
        "wolf"@
    }
}

/// One decimal digit as text.
pub open spec fn digit(value: int) -> Seq<char> {
    if value == 0 {
        "0"@
    } else if value == 1 {
        "1"@
    } else if value == 2 {
        "2"@
    } else if value == 3 {
        "3"@
    } else if value == 4 {
        "4"@
    } else if value == 5 {
        "5"@
    } else if value == 6 {
        "6"@
    } else if value == 7 {
        "7"@
    } else if value == 8 {
        "8"@
    } else {
        "9"@
    }
}

/// A number in decimal, without leading zeros.
pub open spec fn decimal(value: int) -> Seq<char>
    decreases value,
{
    if value < 10 {
        digit(value)
    } else {
        decimal(value / 10) + digit(value % 10)
    }
}

/// The nickname made of three bytes: an adjective picked by the first, a
/// noun picked by the second, and the third as a number, joined by hyphens.
pub open spec fn generated_nickname(first: u8, second: u8, third: u8) -> Seq<char> {
    adjective(first as int % 5) + "-"@ + noun(second as int % 5) + "-"@ + decimal(third as int)
}

fn adjective_text(choice: u8) -> (text: &'static str)
    ensures
        text@ == adjective(choice as int),
{
    if choice == 0 {
        "happy"
    } else if choice == 1 {
        "lucky"
    } else if choice == 2 {
        "brave"
    } else if choice == 3 {
        "calm"
    } else {
        "bright"
    }
}

fn noun_text(choice: u8) -> (text: &'static str)
    ensures
        text@ == noun(choice as int),
{
    if choice == 0 {
        "cat"
    } else if choice == 1 {
        "dog"
    } else if choice == 2 {
        "fox"
    } else if choice == 3 {
        "bear"
    } else {
        "wolf"
    }
}

fn digit_text(value: u8) -> (text: &'static str)
    ensures
        text@ == digit(value as int),
{
    if value == 0 {
        "0"
    } else if value == 1 {
        "1"
    } else if value == 2 {
        "2"
    } else if value == 3 {
        "3"
    } else if value == 4 {
        "4"
    } else if value == 5 {
        "5"
    } else if value == 6 {
        "6"
    } else if value == 7 {
        "7"
    } else if value == 8 {
        "8"
    } else {
        "9"
    }
}

fn decimal_text(value: u8) -> (text: String)
    ensures
        text@ == decimal(value as int),
{
    reveal_with_fuel(decimal, 3);
    if value < 10 {
        digit_text(value).to_owned()
    } else if value < 100 {
        concat(digit_text(value / 10), digit_text(value % 10))
    } else {
        let tens = concat(digit_text(value / 100), digit_text((value / 10) % 10));
        concat(tens.as_str(), digit_text(value % 10))
    }
}

/// A nickname made of three bytes of chance, such as `brave-fox-17`.
pub fn nickname_from_bytes(bytes: [u8; 3]) -> (nickname: String)
    ensures
        nickname@ == generated_nickname(bytes[0], bytes[1], bytes[2]),
{
    let head = concat(adjective_text(bytes[0] % 5), "-");
    let middle = concat(head.as_str(), noun_text(bytes[1] % 5));
    let stem = concat(middle.as_str(), "-");
    let number = decimal_text(bytes[2]);
    concat(stem.as_str(), number.as_str())
}

/// What to tell the user after the attempt to delete the working directory
/// `directory`: nothing if it went well, and otherwise that the directory is
/// still there, with the cause.
pub fn cleanup_report(directory: &str, outcome: Result<(), String>) -> (event: Option<AppEvent>)
    ensures
        event_view(event) == match outcome {
            Ok(_) => None,
            Err(cause) => Some(
                AppEventView::FatalError(
                    FaultView {
                        context: "Failed to delete temp dir "@ + directory@
                            + ", be sure to delete it yourself"@,
                        cause: Some(cause@),
                    },
                ),
            ),
        },
{
    match outcome {
        Ok(_) => None,
        Err(cause) => {
            let head = concat("Failed to delete temp dir ", directory);
            let context = concat(head.as_str(), ", be sure to delete it yourself");
            Some(AppEvent::FatalError(Fault::caused(context.as_str(), cause)))
        },
    }
}

/// Where the peer stands with the rendezvous server.
#[derive(Clone, Copy, Debug, PartialEq, Eq, Structural)]
pub enum AppState {
    /// The socket and the content store are being set up.
    Connecting,
    /// Both are up; the nickname is to be registered.
    PublishUser,
    /// The registration is on its way.
    WaitForRegisterConfirmation,
    /// The server has confirmed the registration.
    Ready,
}

/// What the user interface is to do after an event.
#[derive(Debug, PartialEq, Eq)]
pub enum Reaction {
    /// Show the text as an error.
    ShowError(String),
    /// Hand the request to the coordinator.
    Request(UIEvent),
}

/// A reaction as mathematical values.
pub enum ReactionView {
    ShowError(Seq<char>),
    Request(UIEventView),
}

impl View for Reaction {
    type V = ReactionView;

    open spec fn view(&self) -> ReactionView {
        match self {
            Reaction::ShowError(text) => ReactionView::ShowError(text@),
            Reaction::Request(request) => ReactionView::Request(request@),
        }
    }
}

/// The reaction as a mathematical value, if there is one.
pub open spec fn reaction_view(reaction: Option<Reaction>) -> Option<ReactionView> {
    match reaction {
        Some(reaction) => Some(reaction@),
        None => None,
    }
}

/// The request as a mathematical value, if there is one.
pub open spec fn request_view(request: Option<UIEvent>) -> Option<UIEventView> {
    match request {
        Some(request) => Some(request@),
        None => None,
    }
}

/// What the user interface shows: who is online, which files are selected,
/// and how far the transfers have come.
#[derive(Debug, PartialEq, Eq)]
pub struct Session {
    app_state: AppState,
    nickname: String,
    users: Vec<String>,
    files: Vec<String>,
    is_downloading: bool,
    is_importing: bool,
    progress: Fraction,
}

/// A session as mathematical values.
pub struct SessionView {
    pub app_state: AppState,
    pub nickname: Seq<char>,
    /// The other peers that are online.
    pub users: Set<Seq<char>>,
    /// The files selected for sending, in the order of selection.
    pub files: Seq<Seq<char>>,
    pub is_downloading: bool,
    pub is_importing: bool,
    /// Numerator and denominator of the progress shown.
    pub progress: (int, int),
}

impl View for Session {
    type V = SessionView;

    closed spec fn view(&self) -> SessionView {
        SessionView {
            app_state: self.app_state,
            nickname: self.nickname@,
            users: texts(self.users@).to_set(),
            files: texts(self.files@),
            is_downloading: self.is_downloading,
            is_importing: self.is_importing,
            progress: (self.progress.num(), self.progress.den()),
        }
    }
}

/// The session after an event.
///
/// When a download is done, the session goes back to showing no transfer:
/// nothing is under way and the progress is `0 / 1`.
pub open spec fn applied(session: SessionView, event: AppEventView) -> SessionView {
    match event {
        AppEventView::ReadyToPublishUser => SessionView {
            app_state: AppState::PublishUser,
            ..session
        },
        AppEventView::RegisterSuccess(users) => SessionView {
            users: users.to_set(),
            app_state: AppState::Ready,
            ..session
        },
        AppEventView::AddNewUser(nickname) => if nickname != session.nickname {
            SessionView { users: session.users.insert(nickname), ..session }
        } else {
            session
        },
        AppEventView::RemoveUser(nickname) => SessionView {
            users: session.users.remove(nickname),
            ..session
        },
        AppEventView::ReceivedFile(files) => SessionView { files: session.files + files, ..session },
        AppEventView::UpdateProgressValue(numerator, denominator) => SessionView {
            progress: (numerator, denominator),
            ..session
        },
        AppEventView::ImportStart => SessionView { is_importing: true, ..session },
        AppEventView::ImportDone => SessionView { is_importing: false, ..session },
        AppEventView::DownloadStart => SessionView { is_downloading: true, ..session },
        AppEventView::DownloadDone => SessionView {
            is_downloading: false,
            progress: (0, 1),
            ..session
        },
        AppEventView::DownloadFile(_) => session,
        AppEventView::FatalError(_) => session,
    }
}

/// The session after every event that `commands` emit, in order.
pub open spec fn shown_after(session: SessionView, commands: Seq<CommandView>) -> SessionView
    decreases commands.len(),
{
    if commands.len() == 0 {
        session
    } else {
        let before = shown_after(session, commands.drop_last());
        match commands.last() {
            CommandView::Emit(event) => applied(before, event),
            _ => before,
        }
    }
}

/// No download ends with its progress still on show. The step on which a job
/// becomes complete or fails says last that the download is done, and a
/// session that takes in what the step emits, whatever it showed before, then
/// shows no download under way and the progress `0 / 1`.
pub proof fn lemma_ended_download_shows_no_progress(
    session: SessionView,
    job: JobView,
    report: ReportView,
)
    requires
        !is_over(job.state),
        is_over(stepped(job, report).0.state),
    ensures
        stepped(job, report).0.progress is None,
        stepped(job, report).1.len() > 0,
        stepped(job, report).1.last() == CommandView::Emit(AppEventView::DownloadDone),
        shown_after(session, stepped(job, report).1).progress == (0int, 1int),
        !shown_after(session, stepped(job, report).1).is_downloading,
{
    reveal_with_fuel(shown_after, 2);
}

/// When the stream of a fetch has ended, the job says that the download is
/// done, after the last fraction if one is still to be shown, and a session
/// that takes in what the step emits then shows no download under way and the
/// progress `0 / 1`.
pub proof fn lemma_end_of_fetch_shows_no_progress(
    session: SessionView,
    job: JobView,
    report: ReportView,
)
    requires
        job.state == DownloadState::Fetching,
        report is Done || report is StreamEnded,
    ensures
        shown_after(session, stepped(job, report).1).progress == (0int, 1int),
        !shown_after(session, stepped(job, report).1).is_downloading,
{
    reveal_with_fuel(shown_after, 4);
    let commands = stepped(job, report).1;
    assert(commands.last() == CommandView::LoadCollection);
    assert(commands.drop_last().last() == CommandView::Emit(AppEventView::DownloadDone));
}

/// What the user interface is to do after an event, if anything: an offered
/// ticket is to be downloaded, and an error is to be shown.
pub open spec fn reaction_to(event: AppEventView) -> Option<ReactionView> {
    match event {
        AppEventView::DownloadFile(ticket) => Some(
            ReactionView::Request(UIEventView::DownloadFile(ticket)),
        ),
        AppEventView::FatalError(fault) => Some(ReactionView::ShowError(described(fault))),
        _ => None,
    }
}

/// The strings of `list`, each once, in the order of their first occurrence.
fn without_repeats(list: Vec<String>) -> (unique: Vec<String>)
    ensures
        texts(unique@).no_duplicates(),
        texts(unique@).to_set() == texts(list@).to_set(),
{
    let mut unique: Vec<String> = Vec::new();
    let mut i: usize = 0;
    assert(texts(unique@) =~= Seq::<Seq<char>>::empty());
    while i < list.len()
        invariant
            i <= list@.len(),
            texts(unique@).no_duplicates(),
            texts(unique@).to_set() == texts(list@).take(i as int).to_set(),
        decreases list@.len() - i,
    {
        let ghost kept = texts(unique@);
        let ghost seen = texts(list@).take(i as int);
        let found = position_of(&unique, list[i].as_str());
        if found.is_none() {
            unique.push(list[i].clone());
            assert(texts(unique@) =~= kept.push(list@[i as int]@));
        }
        proof {
            let now = texts(list@).take(i + 1);
            let added = list@[i as int]@;
            assert(now =~= seen.push(added));
            assert forall|n: Seq<char>| texts(unique@).to_set().contains(n) <==> now.to_set().contains(
                n,
            ) by {
                if texts(unique@).to_set().contains(n) {
                    let k = choose|k: int| 0 <= k < texts(unique@).len() && texts(unique@)[k] == n;
                    if k < kept.len() {
                        assert(kept.to_set().contains(kept[k]));
                        let j = choose|j: int| 0 <= j < seen.len() && seen[j] == n;
                        assert(now[j] == n);
                    } else {
                        assert(now[i as int] == n);
                    }
                }
                if now.to_set().contains(n) {
                    let j = choose|j: int| 0 <= j < now.len() && now[j] == n;
                    if j < i {
                        assert(seen.to_set().contains(seen[j]));
                        let k = choose|k: int| 0 <= k < kept.len() && kept[k] == n;
                        assert(texts(unique@)[k] == n);
                    } else if found is None {
                        assert(texts(unique@)[kept.len() as int] == n);
                    } else {
                        assert(texts(unique@)[found->0 as int] == n);
                    }
                }
            }
            assert(texts(unique@).to_set() =~= now.to_set());
        }
        i = i + 1;
    }
    assert(texts(list@).take(list@.len() as int) =~= texts(list@));
    unique
}

/// Where `wanted` stands in `list`, if it does.
fn position_of(list: &Vec<String>, wanted: &str) -> (found: Option<usize>)
    ensures
        match found {
            Some(at) => at < list@.len() && texts(list@)[at as int] == wanted@,
            None => !texts(list@).contains(wanted@),
        },
{
    let mut i: usize = 0;
    while i < list.len()
        invariant
            i <= list@.len(),
            forall|k: int| 0 <= k < i ==> texts(list@)[k] != wanted@,
        decreases list@.len() - i,
    {
        if same_text(list[i].as_str(), wanted) {
            return Some(i);
        }
        i = i + 1;
    }
    None
}

impl Session {
    #[verifier::type_invariant]
    spec fn valid(&self) -> bool {
        texts(self.users@).no_duplicates()
    }

    /// The session of a peer that goes by `nickname` and has not connected
    /// yet.
    pub fn new(nickname: String) -> (session: Session)
        ensures
            session@ == (SessionView {
                app_state: AppState::Connecting,
                nickname: nickname@,
                users: Set::empty(),
                files: Seq::empty(),
                is_downloading: false,
                is_importing: false,
                progress: (0, 1),
            }),
    {
        let session = Session {
            app_state: AppState::Connecting,
            nickname,
            users: Vec::new(),
            files: Vec::new(),
            is_downloading: false,
            is_importing: false,
            progress: Fraction::zero(),
        };
        assert(texts(session.users@) =~= Seq::<Seq<char>>::empty());
        assert(session@.users =~= Set::<Seq<char>>::empty());
        assert(session@.files =~= Seq::<Seq<char>>::empty());
        session
    }

    /// Where the peer stands with the server.
    pub fn app_state(&self) -> (state: AppState)
        ensures
            state == self@.app_state,
    {
        self.app_state
    }

    /// The nickname that this peer goes by.
    pub fn nickname(&self) -> (nickname: &String)
        ensures
            nickname@ == self@.nickname,
    {
        &self.nickname
    }

    /// The other peers that are online, once each.
    pub fn users(&self) -> (users: Vec<String>)
        ensures
            texts(users@).no_duplicates(),
            texts(users@).to_set() == self@.users,
    {
        proof {
            use_type_invariant(self);
        }
        copy_all(&self.users)
    }

    /// The files selected for sending.
    pub fn files(&self) -> (files: Vec<String>)
        ensures
            texts(files@) == self@.files,
    {
        copy_all(&self.files)
    }

    /// Whether an import is under way.
    pub fn is_importing(&self) -> (importing: bool)
        ensures
            importing == self@.is_importing,
    {
        self.is_importing
    }

    /// Whether a download is under way.
    pub fn is_downloading(&self) -> (downloading: bool)
        ensures
            downloading == self@.is_downloading,
    {
        self.is_downloading
    }

    /// The progress to show.
    pub fn progress(&self) -> (progress: Fraction)
        ensures
            self@.progress == (progress.num(), progress.den()),
            progress.in_unit_interval(),
    {
        let _ = self.progress.numerator();
        self.progress
    }

    /// Whether the progress bar is to be shown: while a download is under way,
    /// or while the progress is strictly between nothing and everything.
    pub fn progress_visible(&self) -> (visible: bool)
        ensures
            visible == (self@.is_downloading || 0 < self@.progress.0 < self@.progress.1),
    {
        let numerator = self.progress.numerator();
        let denominator = self.progress.denominator();
        self.is_downloading || (0 < numerator && numerator < denominator)
    }

    /// Takes in an event from the coordinator and says what the user interface
    /// is to do about it.
    pub fn apply(self, event: AppEvent) -> (next: (Session, Option<Reaction>))
        ensures
            next.0@ == applied(self@, event@),
            reaction_view(next.1) == reaction_to(event@),
    {
        proof {
            use_type_invariant(&self);
        }
        let ghost before = self@;
        match event {
            AppEvent::ReadyToPublishUser => (
                Session { app_state: AppState::PublishUser, ..self },
                None,
            ),
            AppEvent::RegisterSuccess(users) => {
                let unique = without_repeats(users);
                (Session { users: unique, app_state: AppState::Ready, ..self }, None)
            },
            AppEvent::AddNewUser(nickname) => {
                if same_text(nickname.as_str(), self.nickname.as_str()) {
                    return (self, None);
                }
                match position_of(&self.users, nickname.as_str()) {
                    Some(at) => {
                        proof {
                            assert(texts(self.users@).to_set().contains(
                                texts(self.users@)[at as int],
                            ));
                            assert(before.users.insert(nickname@) =~= before.users);
                        }
                        (self, None)
                    },
                    None => {
                        let Session {
                            app_state,
                            nickname: own,
                            mut users,
                            files,
                            is_downloading,
                            is_importing,
                            progress,
                        } = self;
                        let ghost kept = texts(users@);
                        users.push(nickname);
                        proof {
                            let now = texts(users@);
                            assert(now =~= kept.push(nickname@));
                            assert forall|n: Seq<char>| now.to_set().contains(n) <==> kept.to_set().insert(
                                nickname@,
                            ).contains(n) by {
                                if now.to_set().contains(n) {
                                    let k = choose|k: int| 0 <= k < now.len() && now[k] == n;
                                    if k < kept.len() {
                                        assert(kept.to_set().contains(kept[k]));
                                    }
                                }
                                if kept.to_set().contains(n) {
                                    let k = choose|k: int| 0 <= k < kept.len() && kept[k] == n;
                                    assert(now[k] == n);
                                }
                                if n == nickname@ {
                                    assert(now[kept.len() as int] == n);
                                }
                            }
                            assert(now.to_set() =~= kept.to_set().insert(nickname@));
                        }
                        (
                            Session {
                                app_state,
                                nickname: own,
                                users,
                                files,
                                is_downloading,
                                is_importing,
                                progress,
                            },
                            None,
                        )
                    },
                }
            },
            AppEvent::RemoveUser(nickname) => {
                match position_of(&self.users, nickname.as_str()) {
                    None => {
                        proof {
                            assert(before.users.remove(nickname@) =~= before.users);
                        }
                        (self, None)
                    },
                    Some(at) => {
                        let Session {
                            app_state,
                            nickname: own,
                            mut users,
                            files,
                            is_downloading,
                            is_importing,
                            progress,
                        } = self;
                        let ghost kept = texts(users@);
                        users.remove(at);
                        proof {
                            let now = texts(users@);
                            assert(now =~= kept.remove(at as int));
                            assert forall|n: Seq<char>| now.to_set().contains(n) <==> kept.to_set().remove(
                                nickname@,
                            ).contains(n) by {
                                if now.to_set().contains(n) {
                                    let k = choose|k: int| 0 <= k < now.len() && now[k] == n;
                                    if k < at {
                                        assert(kept[k] == n);
                                        assert(kept.to_set().contains(kept[k]));
                                    } else {
                                        assert(kept[k + 1] == n);
                                        assert(kept.to_set().contains(kept[k + 1]));
                                    }
                                }
                                if kept.to_set().contains(n) && n != nickname@ {
                                    let k = choose|k: int| 0 <= k < kept.len() && kept[k] == n;
                                    if k < at {
                                        assert(now[k] == n);
                                    } else {
                                        assert(now[k - 1] == n);
                                    }
                                }
                            }
                            assert(now.to_set() =~= kept.to_set().remove(nickname@));
                        }
                        (
                            Session {
                                app_state,
                                nickname: own,
                                users,
                                files,
                                is_downloading,
                                is_importing,
                                progress,
                            },
                            None,
                        )
                    },
                }
            },
            AppEvent::ReceivedFile(added) => {
                let Session {
                    app_state,
                    nickname,
                    users,
                    mut files,
                    is_downloading,
                    is_importing,
                    progress,
                } = self;
                let ghost kept = texts(files@);
                let mut i: usize = 0;
                while i < added.len()
                    invariant
                        i <= added@.len(),
                        texts(files@) == kept + texts(added@).take(i as int),
                    decreases added@.len() - i,
                {
                    let ghost prior = texts(files@);
                    files.push(added[i].clone());
                    proof {
                        let next = added@[i as int]@;
                        assert(texts(files@) =~= prior.push(next));
                        assert(texts(added@).take(i + 1) =~= texts(added@).take(i as int).push(
                            next,
                        ));
                        assert(texts(files@) =~= kept + texts(added@).take(i + 1));
                    }
                    i = i + 1;
                }
                assert(texts(added@).take(added@.len() as int) =~= texts(added@));
                (
                    Session {
                        app_state,
                        nickname,
                        users,
                        files,
                        is_downloading,
                        is_importing,
                        progress,
                    },
                    None,
                )
            },
            AppEvent::UpdateProgressValue(progress) => (Session { progress, ..self }, None),
            AppEvent::ImportStart => (Session { is_importing: true, ..self }, None),
            AppEvent::ImportDone => (Session { is_importing: false, ..self }, None),
            AppEvent::DownloadStart => (Session { is_downloading: true, ..self }, None),
            AppEvent::DownloadDone => (
                Session { is_downloading: false, progress: Fraction::zero(), ..self },
                None,
            ),
            AppEvent::DownloadFile(ticket) => (
                self,
                Some(Reaction::Request(UIEvent::DownloadFile(ticket))),
            ),
            AppEvent::FatalError(fault) => (self, Some(Reaction::ShowError(fault.describe()))),
        }
    }

    /// Registers the nickname once the peer is ready for it: asks for the
    /// registration and waits for its confirmation. In any other state
    /// nothing is asked and nothing changes.
    pub fn publish(self) -> (next: (Session, Option<UIEvent>))
        ensures
            self@.app_state == AppState::PublishUser ==> next.0@ == (SessionView {
                app_state: AppState::WaitForRegisterConfirmation,
                ..self@
            }) && request_view(next.1) == Some(UIEventView::Register(self@.nickname)),
            self@.app_state != AppState::PublishUser ==> next.0@ == self@ && next.1 is None,
    {
        proof {
            use_type_invariant(&self);
        }
        if self.app_state == AppState::PublishUser {
            let request = UIEvent::Register(self.nickname.clone());
            (Session { app_state: AppState::WaitForRegisterConfirmation, ..self }, Some(request))
        } else {
            (self, None)
        }
    }

    /// Takes the file at `index` out of the selection; an index beyond the
    /// selection changes nothing.
    pub fn remove_file(self, index: usize) -> (next: Session)
        ensures
            index < self@.files.len() ==> next@ == (SessionView {
                files: self@.files.remove(index as int),
                ..self@
            }),
            index >= self@.files.len() ==> next@ == self@,
    {
        proof {
            use_type_invariant(&self);
        }
        if index >= self.files.len() {
            return self;
        }
        let Session { app_state, nickname, users, mut files, is_downloading, is_importing, progress } =
            self;
        let ghost kept = texts(files@);
        files.remove(index);
        assert(texts(files@) =~= kept.remove(index as int));
        Session { app_state, nickname, users, files, is_downloading, is_importing, progress }
    }

    /// Empties the selection.
    pub fn clear_files(self) -> (next: Session)
        ensures
            next@ == (SessionView { files: Seq::empty(), ..self@ }),
    {
        proof {
            use_type_invariant(&self);
        }
        let next = Session { files: Vec::new(), ..self };
        assert(texts(next.files@) =~= Seq::<Seq<char>>::empty());
        next
    }

    /// The request to send the selected files to `recipient`; there is none
    /// while nothing is selected.
    pub fn send_to(&self, recipient: &str) -> (request: Option<UIEvent>)
        ensures
            self@.files.len() == 0 ==> request is None,
            self@.files.len() > 0 ==> request_view(request) == Some(
                UIEventView::PrepareFile { recipient: recipient@, files: self@.files },
            ),
    {
        if self.files.len() == 0 {
            None
        } else {
            Some(UIEvent::PrepareFile { recipient: recipient.to_owned(), files: copy_all(&self.files) })
        }
    }
}

} // verus!

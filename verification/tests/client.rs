use fling::account::{
    construct_headers, registration_outcome, response_to_message, Attempt, Polled, Register,
    Response, UsernameForm,
};
use fling::client::{
    announcement, cleanup_report, nickname_from_bytes, nickname_or_guest, process_message, to_event,
    working_dir_name,
    AppState, Reaction, Session, UIEvent,
};
use fling::collection::ContentAddress;
use fling::download::{Command, DownloadJob, Report};
use fling::events::{AppEvent, Fault};
use fling::message::{WebSocketMessage, WireError};
use fling::progress::{normalize, Fraction};
use fling::ticket::Ticket;

fn list(items: &[&str]) -> Vec<String> {
    items.iter().map(|s| s.to_string()).collect()
}

fn in_order(mut items: Vec<String>) -> Vec<String> {
    items.sort();
    items
}

#[test]
fn server_messages_become_events() {
    assert_eq!(
        process_message(r#"{"type":"register_success","payload":["bob"]}"#),
        Some(AppEvent::RegisterSuccess(list(&["bob"])))
    );
    assert_eq!(
        process_message(r#"{"type":"user_joined","payload":"bob"}"#),
        Some(AppEvent::AddNewUser("bob".to_string()))
    );
    assert_eq!(
        process_message(r#"{"type":"user_left","payload":"bob"}"#),
        Some(AppEvent::RemoveUser("bob".to_string()))
    );
    assert_eq!(
        process_message(r#"{"type":"receive_file","payload":"blobabc"}"#),
        Some(AppEvent::DownloadFile("blobabc".to_string()))
    );
    assert_eq!(
        process_message(r#"{"type":"error_deserializing_json","payload":"bad"}"#),
        Some(AppEvent::FatalError(Fault {
            context: "Server JSON error".to_string(),
            cause: Some("bad".to_string()),
        }))
    );
}

#[test]
fn messages_meant_for_the_server_are_no_events() {
    assert_eq!(process_message(r#"{"type":"register","payload":"bob"}"#), None);
    assert_eq!(
        to_event(Ok(WebSocketMessage::SendFile {
            recipient: "a".to_string(),
            ticket: "t".to_string()
        })),
        None
    );
}

#[test]
fn what_cannot_be_parsed_is_a_fatal_error_event() {
    assert_eq!(
        to_event(Err(WireError::BadType)),
        Some(AppEvent::FatalError(Fault {
            context: "Message parse failed".to_string(),
            cause: Some("field `type` is not a string".to_string()),
        }))
    );
    match process_message("]") {
        Some(AppEvent::FatalError(fault)) => {
            assert_eq!(fault.context, "Message parse failed");
            assert_eq!(fault.describe(), "Message parse failed: expected value at line 1 column 1");
        }
        other => panic!("unexpected event: {:?}", other),
    }
}

#[test]
fn faults_read_as_context_then_cause() {
    assert_eq!(Fault::new("WebSocket disconnected").describe(), "WebSocket disconnected");
    let fault = Fault::caused("Failed to connect to sender", "timed out".to_string());
    assert_eq!(fault.describe(), "Failed to connect to sender: timed out");
    assert_eq!(fault.duplicate(), fault);
}

#[test]
fn only_register_goes_to_the_server_as_it_is() {
    assert_eq!(
        UIEvent::Register("alice".to_string()).to_ws(),
        Some(WebSocketMessage::Register("alice".to_string()))
    );
    assert_eq!(UIEvent::DownloadFile("t".to_string()).to_ws(), None);
    assert_eq!(
        UIEvent::PrepareFile { recipient: "bob".to_string(), files: list(&["/a"]) }.to_ws(),
        None
    );
}

#[test]
fn an_empty_collection_is_not_announced() {
    assert_eq!(announcement("bob".to_string(), "blobabc".to_string(), true), None);
    assert_eq!(
        announcement("bob".to_string(), "blobabc".to_string(), false),
        Some(WebSocketMessage::SendFile { recipient: "bob".to_string(), ticket: "blobabc".to_string() })
    );
}

#[test]
fn working_directory_is_named_after_the_peer() {
    assert_eq!(working_dir_name("brave-fox-7"), "fling-brave-fox-7");
    assert_eq!(working_dir_name(""), "fling-");
}

#[test]
fn guest_stands_in_for_a_missing_nickname() {
    assert_eq!(nickname_or_guest(None), "Guest");
    assert_eq!(nickname_or_guest(Some("calm-bear".to_string())), "calm-bear");
}

#[test]
fn failed_cleanup_names_the_directory() {
    assert_eq!(cleanup_report("/dl/fling-alice", Ok(())), None);
    assert_eq!(
        cleanup_report("/dl/fling-alice", Err("No such file or directory".to_string())),
        Some(AppEvent::FatalError(Fault {
            context: "Failed to delete temp dir /dl/fling-alice, be sure to delete it yourself"
                .to_string(),
            cause: Some("No such file or directory".to_string()),
        }))
    );
}

#[test]
fn session_follows_the_registration() {
    let session = Session::new("alice".to_string());
    assert_eq!(session.app_state(), AppState::Connecting);
    assert_eq!(session.nickname(), "alice");
    let (session, request) = session.publish();
    assert_eq!(request, None);
    let (session, reaction) = session.apply(AppEvent::ReadyToPublishUser);
    assert_eq!(reaction, None);
    assert_eq!(session.app_state(), AppState::PublishUser);
    let (session, request) = session.publish();
    assert_eq!(request, Some(UIEvent::Register("alice".to_string())));
    assert_eq!(session.app_state(), AppState::WaitForRegisterConfirmation);
    let (session, _) = session.apply(AppEvent::RegisterSuccess(list(&["bob", "carol", "bob"])));
    assert_eq!(session.app_state(), AppState::Ready);
    assert_eq!(in_order(session.users()), list(&["bob", "carol"]));
}

#[test]
fn session_tracks_who_is_online() {
    let session = Session::new("alice".to_string());
    let (session, _) = session.apply(AppEvent::AddNewUser("bob".to_string()));
    let (session, _) = session.apply(AppEvent::AddNewUser("alice".to_string()));
    let (session, _) = session.apply(AppEvent::AddNewUser("bob".to_string()));
    let (session, _) = session.apply(AppEvent::AddNewUser("carol".to_string()));
    assert_eq!(in_order(session.users()), list(&["bob", "carol"]));
    let (session, _) = session.apply(AppEvent::RemoveUser("bob".to_string()));
    let (session, _) = session.apply(AppEvent::RemoveUser("nobody".to_string()));
    assert_eq!(session.users(), list(&["carol"]));
}

#[test]
fn session_tracks_transfers() {
    let session = Session::new("alice".to_string());
    assert!(!session.progress_visible());
    let (session, _) = session.apply(AppEvent::ImportStart);
    assert!(session.is_importing());
    let (session, _) = session.apply(AppEvent::ImportDone);
    assert!(!session.is_importing());
    let (session, _) = session.apply(AppEvent::DownloadStart);
    assert!(session.is_downloading());
    assert!(session.progress_visible());
    let (session, _) = session.apply(AppEvent::UpdateProgressValue(normalize(1, 4)));
    let (session, _) = session.apply(AppEvent::UpdateProgressValue(normalize(3, 4)));
    assert_eq!(session.progress(), normalize(3, 4));
    assert!(session.progress_visible());
    let (session, _) = session.apply(AppEvent::DownloadDone);
    assert!(!session.is_downloading());
    assert_eq!(session.progress(), Fraction::zero());
    assert!(!session.progress_visible());
}

#[test]
fn progress_shows_only_strictly_between_nothing_and_everything() {
    let session = Session::new("alice".to_string());
    let (session, _) = session.apply(AppEvent::UpdateProgressValue(normalize(97, 100)));
    assert!(session.progress_visible());
    let (session, _) = session.apply(AppEvent::UpdateProgressValue(normalize(4, 4)));
    assert!(!session.progress_visible());
    let (session, _) = session.apply(AppEvent::UpdateProgressValue(Fraction::zero()));
    assert!(!session.progress_visible());
}

#[test]
fn a_download_that_is_done_leaves_no_progress_on_show() {
    let session = Session::new("alice".to_string());
    let (session, _) = session.apply(AppEvent::DownloadStart);
    let (session, _) = session.apply(AppEvent::UpdateProgressValue(normalize(97, 100)));
    assert_eq!(session.progress(), normalize(97, 100));
    let (session, _) = session.apply(AppEvent::DownloadDone);
    assert!(!session.is_downloading());
    assert_eq!(session.progress(), Fraction::zero());
    assert!(!session.progress_visible());
}

#[test]
fn a_fault_alone_leaves_the_progress_as_it_is() {
    let session = Session::new("alice".to_string());
    let (session, _) = session.apply(AppEvent::DownloadStart);
    let (session, _) = session.apply(AppEvent::UpdateProgressValue(normalize(1, 2)));
    let (session, reaction) =
        session.apply(AppEvent::FatalError(Fault::new("Error downloading one of the files")));
    assert!(reaction.is_some());
    assert!(session.is_downloading());
    assert_eq!(session.progress(), normalize(1, 2));
}

#[test]
fn session_reacts_to_offers_and_errors() {
    let session = Session::new("alice".to_string());
    let (session, reaction) = session.apply(AppEvent::DownloadFile("blobabc".to_string()));
    assert_eq!(reaction, Some(Reaction::Request(UIEvent::DownloadFile("blobabc".to_string()))));
    let (_, reaction) = session
        .apply(AppEvent::FatalError(Fault::caused("Download failed", "no route".to_string())));
    assert_eq!(reaction, Some(Reaction::ShowError("Download failed: no route".to_string())));
}

#[test]
fn session_keeps_the_selection_of_files() {
    let session = Session::new("alice".to_string());
    assert_eq!(session.send_to("bob"), None);
    let (session, _) = session.apply(AppEvent::ReceivedFile(list(&["/a", "/b"])));
    let (session, _) = session.apply(AppEvent::ReceivedFile(list(&["/c"])));
    assert_eq!(session.files(), list(&["/a", "/b", "/c"]));
    assert_eq!(
        session.send_to("bob"),
        Some(UIEvent::PrepareFile { recipient: "bob".to_string(), files: list(&["/a", "/b", "/c"]) })
    );
    let session = session.remove_file(1);
    assert_eq!(session.files(), list(&["/a", "/c"]));
    let session = session.remove_file(5);
    assert_eq!(session.files(), list(&["/a", "/c"]));
    let session = session.clear_files();
    assert_eq!(session.files(), Vec::<String>::new());
}

#[test]
fn register_body_is_an_object_with_the_username() {
    let body = Register { username: "laptop".to_string() }.to_json();
    assert_eq!(body, r#"{"username":"laptop"}"#);
}

#[test]
fn headers_announce_json() {
    assert_eq!(
        construct_headers(),
        vec![("content-type".to_string(), "application/json".to_string())]
    );
}

#[test]
fn response_is_read_from_its_message_member() {
    assert_eq!(
        Response::from_json(r#"{"message":"welcome"}"#),
        Ok(Response { message: "welcome".to_string() })
    );
    assert_eq!(
        Response::from_json(r#"{"status":1,"message":"welcome"}"#),
        Ok(Response { message: "welcome".to_string() })
    );
    assert_eq!(Response::from_json("{}"), Err("missing field `message`".to_string()));
    assert_eq!(
        Response::from_json(r#"{"message":5}"#),
        Err("field `message` is not a string".to_string())
    );
    assert_eq!(Response::from_json("[]"), Err("expected a JSON object".to_string()));
    assert_eq!(
        Response::from_json("<html>"),
        Err("expected value at line 1 column 1".to_string())
    );
}

#[test]
fn response_becomes_the_message_to_show() {
    assert_eq!(response_to_message(Ok(r#"{"message":"username taken"}"#.to_string())), "username taken");
    assert_eq!(
        response_to_message(Ok("oops".to_string())),
        "Error parsing response: expected value at line 1 column 1"
    );
    assert_eq!(
        response_to_message(Err("connection reset".to_string())),
        "Failed to read response body: connection reset"
    );
}

#[test]
fn only_a_successful_answer_is_good_news() {
    assert_eq!(
        registration_outcome(Attempt::Answered { success: true, message: "ok".to_string() }),
        Ok("ok".to_string())
    );
    assert_eq!(
        registration_outcome(Attempt::Answered { success: false, message: "taken".to_string() }),
        Err("taken".to_string())
    );
    assert_eq!(
        registration_outcome(Attempt::Unreachable("refused".to_string())),
        Err("refused".to_string())
    );
}

#[test]
fn form_closes_on_good_news_only() {
    let mut form = UsernameForm::new();
    assert!(form.open);
    form.poll_username_response(Polled::Answer(Ok("ignored".to_string())));
    assert!(form.open);
    assert_eq!(form.message, "");
    form.waiting = true;
    form.poll_username_response(Polled::Empty);
    assert!(form.waiting);
    form.poll_username_response(Polled::Answer(Err("taken".to_string())));
    assert!(!form.waiting);
    assert!(form.open);
    assert_eq!(form.message, "taken");
    form.waiting = true;
    form.poll_username_response(Polled::Closed);
    assert!(!form.waiting);
    assert!(form.open);
    assert_eq!(form.message, "Connection closed before response");
    form.waiting = true;
    form.poll_username_response(Polled::Answer(Ok("welcome".to_string())));
    assert!(!form.waiting);
    assert!(!form.open);
    assert_eq!(form.message, "welcome");
}

#[test]
fn normalize_gives_exact_fractions() {
    let quarter = normalize(25, 100);
    assert_eq!((quarter.numerator(), quarter.denominator()), (25, 100));
    let all = normalize(100, 100);
    assert_eq!((all.numerator(), all.denominator()), (100, 100));
    let over = normalize(101, 100);
    assert_eq!((over.numerator(), over.denominator()), (100, 100));
    let none = normalize(0, 100);
    assert_eq!((none.numerator(), none.denominator()), (0, 100));
    let unset = normalize(17, 0);
    assert_eq!((unset.numerator(), unset.denominator()), (0, 1));
    let zero = Fraction::zero();
    assert_eq!((zero.numerator(), zero.denominator()), (0, 1));
    let huge = normalize(u64::MAX, u64::MAX);
    assert_eq!((huge.numerator(), huge.denominator()), (u64::MAX, u64::MAX));
}

#[test]
fn nicknames_are_made_of_adjective_noun_and_number() {
    assert_eq!(nickname_from_bytes([0, 0, 0]), "happy-cat-0");
    assert_eq!(nickname_from_bytes([7, 3, 255]), "brave-bear-255");
    assert_eq!(nickname_from_bytes([4, 9, 42]), "bright-wolf-42");
    assert_eq!(nickname_from_bytes([1, 1, 100]), "lucky-dog-100");
    assert_eq!(nickname_from_bytes([3, 2, 9]), "calm-fox-9");
    assert_eq!(nickname_from_bytes([5, 5, 10]), "happy-cat-10");
    assert_eq!(nickname_from_bytes([255, 254, 199]), "happy-wolf-199");
}

#[test]
fn a_session_that_follows_a_job_to_its_end_shows_no_transfer() {
    use_job_events(vec![64, 100], vec![10, 97], Report::Done, Report::TagsDeleted);
    use_job_events(vec![64, 100], vec![], Report::StreamEnded, Report::TagsFailed("busy".to_string()));
    use_job_events(vec![64, 100], vec![97], Report::StreamEnded, Report::LoadFailed("x".to_string()));
}

fn use_job_events(sizes: Vec<u64>, counts: Vec<u64>, end: Report, last: Report) {
    let ticket = Ticket::for_collection("peer".to_string(), ContentAddress { bytes: [1; 32] });
    let (job, _) = DownloadJob::new(ticket, "/tmp/out".to_string()).start();
    let mut reports = vec![Report::LocalInfo { complete: false }, Report::Connected, Report::Sizes(sizes)];
    reports.extend(counts.into_iter().map(Report::Progress));
    reports.push(end);
    let loads = matches!(last, Report::LoadFailed(_));
    if !loads {
        reports.push(Report::Loaded(vec![]));
    }
    reports.push(last);
    let mut job = job;
    let mut session = Session::new("alice".to_string());
    let mut fractions = Vec::new();
    for report in reports {
        let (next, commands) = job.step(report);
        job = next;
        for command in commands {
            if let Command::Emit(event) = command {
                if let AppEvent::UpdateProgressValue(fraction) = &event {
                    fractions.push((fraction.numerator(), fraction.denominator()));
                }
                session = session.apply(event).0;
            }
        }
    }
    assert!(job.is_finished());
    assert_eq!(fractions.last(), Some(&(100, 100)));
    assert!(!session.is_downloading());
    assert_eq!(session.progress(), Fraction::zero());
    assert!(!session.progress_visible());
}

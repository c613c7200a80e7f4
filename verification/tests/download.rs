use fling::collection::{ContentAddress, Entry};
use fling::download::{payload_total, Command, DownloadJob, DownloadState, Report};
use fling::events::{AppEvent, Fault};
use fling::progress::normalize;
use fling::ticket::{BlobFormat, Ticket};

fn address(byte: u8) -> ContentAddress {
    ContentAddress { bytes: [byte; 32] }
}

fn entry(name: &str, byte: u8) -> Entry {
    Entry { name: name.to_string(), hash: address(byte) }
}

fn fresh_job() -> DownloadJob {
    DownloadJob::new(Ticket::for_collection("peer-1".to_string(), address(9)), "/tmp/out".to_string())
}

fn done() -> Command {
    Command::Emit(AppEvent::DownloadDone)
}

fn shows(received: u64, total: u64) -> Command {
    Command::Emit(AppEvent::UpdateProgressValue(normalize(received, total)))
}

fn fatal(context: &str, cause: &str) -> Command {
    Command::Emit(AppEvent::FatalError(Fault {
        context: context.to_string(),
        cause: Some(cause.to_string()),
    }))
}

fn fetching_job(sizes: Vec<u64>) -> DownloadJob {
    let (job, _) = fresh_job().start();
    let (job, _) = job.step(Report::LocalInfo { complete: false });
    let (job, _) = job.step(Report::Connected);
    let (job, _) = job.step(Report::Sizes(sizes));
    job
}

#[test]
fn a_new_job_is_requested_and_knows_its_ticket() {
    let job = fresh_job();
    assert_eq!(job.state(), DownloadState::Requested);
    assert_eq!(job.ticket().origin, "peer-1");
    assert_eq!(job.ticket().format, BlobFormat::HashSeq);
    assert_eq!(job.ticket().hash, address(9));
    assert!(job.ticket().recursive());
    assert_eq!(job.destination(), "/tmp/out");
    assert_eq!(job.total(), 0);
    assert_eq!(job.progress(), None);
    assert!(!job.is_finished());
}

#[test]
fn start_asks_for_local_completeness_once() {
    let (job, commands) = fresh_job().start();
    assert_eq!(commands, vec![Command::QueryLocal]);
    assert_eq!(job.state(), DownloadState::LocalCompletenessCheck);
    let (job, commands) = job.start();
    assert_eq!(commands, vec![]);
    assert_eq!(job.state(), DownloadState::LocalCompletenessCheck);
}

#[test]
fn reports_before_start_are_ignored() {
    let (job, commands) = fresh_job().step(Report::LocalInfo { complete: true });
    assert_eq!(commands, vec![]);
    assert_eq!(job.state(), DownloadState::Requested);
}

#[test]
fn complete_content_goes_straight_to_export() {
    let (job, _) = fresh_job().start();
    let (job, commands) = job.step(Report::LocalInfo { complete: true });
    assert_eq!(commands, vec![Command::LoadCollection]);
    assert_eq!(job.state(), DownloadState::Exporting);
    let (job, commands) = job.step(Report::Loaded(vec![entry("a.txt", 1), entry("b.txt", 2)]));
    assert_eq!(commands, vec![Command::Export { name: "a.txt".to_string(), hash: address(1) }]);
    let (job, commands) = job.step(Report::Exported);
    assert_eq!(commands, vec![Command::Export { name: "b.txt".to_string(), hash: address(2) }]);
    let (job, commands) = job.step(Report::Exported);
    assert_eq!(commands, vec![Command::DeleteTags]);
    let (job, commands) = job.step(Report::TagsDeleted);
    assert_eq!(commands, vec![done()]);
    assert_eq!(job.state(), DownloadState::Complete);
    assert!(job.is_finished());
    let (job, commands) = job.step(Report::TagsDeleted);
    assert_eq!(commands, vec![]);
    assert_eq!(job.state(), DownloadState::Complete);
}

#[test]
fn full_download_runs_through_every_state() {
    let (job, _) = fresh_job().start();
    let (job, commands) = job.step(Report::LocalInfo { complete: false });
    assert_eq!(commands, vec![Command::Connect]);
    assert_eq!(job.state(), DownloadState::Connecting);
    let (job, commands) = job.step(Report::Connected);
    assert_eq!(commands, vec![Command::QuerySizes]);
    assert_eq!(job.state(), DownloadState::SizeDiscovery);
    let (job, commands) = job.step(Report::Sizes(vec![64, 100, 300]));
    assert_eq!(commands, vec![Command::Emit(AppEvent::DownloadStart), Command::Fetch]);
    assert_eq!(job.state(), DownloadState::Fetching);
    assert_eq!(job.total(), 400);
    let (job, commands) = job.step(Report::Progress(100));
    assert_eq!(commands, vec![Command::Emit(AppEvent::UpdateProgressValue(normalize(100, 400)))]);
    assert_eq!(job.progress().map(|f| (f.numerator(), f.denominator())), Some((100, 400)));
    let (job, commands) = job.step(Report::Progress(400));
    assert_eq!(commands, vec![Command::Emit(AppEvent::UpdateProgressValue(normalize(400, 400)))]);
    let (job, commands) = job.step(Report::Done);
    assert_eq!(commands, vec![Command::Emit(AppEvent::DownloadDone), Command::LoadCollection]);
    assert_eq!(job.state(), DownloadState::Exporting);
    let (job, commands) = job.step(Report::Loaded(vec![entry("a.txt", 1)]));
    assert_eq!(commands, vec![Command::Export { name: "a.txt".to_string(), hash: address(1) }]);
    let (job, commands) = job.step(Report::Exported);
    assert_eq!(commands, vec![Command::DeleteTags]);
    assert_eq!(job.progress().map(|f| (f.numerator(), f.denominator())), Some((400, 400)));
    let (job, commands) = job.step(Report::TagsDeleted);
    assert_eq!(commands, vec![done()]);
    assert_eq!(job.state(), DownloadState::Complete);
    assert_eq!(job.progress(), None);
}

#[test]
fn failures_before_fetching_fail_the_job() {
    let (job, _) = fresh_job().start();
    let (failed, commands) = job.step(Report::LocalInfoFailed("disk".to_string()));
    assert_eq!(commands, vec![fatal("Failed to get local info", "disk"), done()]);
    assert_eq!(failed.state(), DownloadState::Failed);
    assert!(failed.is_finished());

    let (job, _) = fresh_job().start();
    let (job, _) = job.step(Report::LocalInfo { complete: false });
    let (failed, commands) = job.step(Report::ConnectFailed("timeout".to_string()));
    assert_eq!(commands, vec![fatal("Failed to connect to sender", "timeout"), done()]);
    assert_eq!(failed.state(), DownloadState::Failed);

    let (job, _) = fresh_job().start();
    let (job, _) = job.step(Report::LocalInfo { complete: false });
    let (job, _) = job.step(Report::Connected);
    let (failed, commands) = job.step(Report::SizesFailed("refused".to_string()));
    assert_eq!(commands, vec![fatal("Failed to get file(s) size", "refused"), done()]);
    assert_eq!(failed.state(), DownloadState::Failed);
    let (failed, commands) = failed.step(Report::Progress(5));
    assert_eq!(commands, vec![]);
    assert_eq!(failed.state(), DownloadState::Failed);
}

#[test]
fn a_stream_error_is_reported_and_the_fetch_goes_on() {
    let job = fetching_job(vec![10, 50]);
    let (job, commands) = job.step(Report::StreamError("chunk".to_string()));
    assert_eq!(commands, vec![fatal("Error downloading one of the files", "chunk")]);
    assert_eq!(job.state(), DownloadState::Fetching);
    let (job, commands) = job.step(Report::Progress(50));
    assert_eq!(commands, vec![Command::Emit(AppEvent::UpdateProgressValue(normalize(50, 50)))]);
    assert_eq!(job.state(), DownloadState::Fetching);
}

#[test]
fn a_stream_that_ends_without_done_moves_on_to_export() {
    let job = fetching_job(vec![10, 50]);
    let (job, commands) = job.step(Report::StreamEnded);
    assert_eq!(commands, vec![shows(50, 50), done(), Command::LoadCollection]);
    assert_eq!(job.state(), DownloadState::Exporting);
}

#[test]
fn the_last_fraction_is_one_even_if_the_stream_counted_less() {
    let job = fetching_job(vec![64, 100]);
    let (job, commands) = job.step(Report::Progress(50));
    assert_eq!(commands, vec![shows(50, 100)]);
    let (job, commands) = job.step(Report::Done);
    assert_eq!(commands, vec![shows(100, 100), done(), Command::LoadCollection]);
    assert_eq!(job.progress().map(|f| (f.numerator(), f.denominator())), Some((100, 100)));
    assert_eq!(job.state(), DownloadState::Exporting);
}

#[test]
fn the_last_fraction_is_one_even_if_the_stream_counted_nothing() {
    let job = fetching_job(vec![64, 30, 70]);
    let (_, commands) = job.step(Report::Done);
    assert_eq!(commands, vec![shows(100, 100), done(), Command::LoadCollection]);
}

#[test]
fn a_fraction_of_one_is_not_shown_twice() {
    let job = fetching_job(vec![100, 30, 70]);
    assert_eq!(job.total(), 100);
    let mut events = vec![Command::Emit(AppEvent::DownloadStart)];
    let (job, commands) = job.step(Report::Progress(50));
    events.extend(commands);
    let (job, commands) = job.step(Report::Progress(100));
    events.extend(commands);
    let (_, commands) = job.step(Report::Done);
    events.extend(commands);
    assert_eq!(
        events,
        vec![
            Command::Emit(AppEvent::DownloadStart),
            shows(50, 100),
            shows(100, 100),
            done(),
            Command::LoadCollection,
        ]
    );
}

#[test]
fn with_nothing_expected_the_fetch_ends_without_a_fraction() {
    let job = fetching_job(vec![7]);
    let (job, commands) = job.step(Report::Done);
    assert_eq!(commands, vec![done(), Command::LoadCollection]);
    assert_eq!(job.progress(), None);
}

#[test]
fn progress_fractions_never_decrease_and_end_at_one() {
    let mut job = fetching_job(vec![7, 100, 200, 700]);
    let mut last = (0u64, 1u64);
    for bytes in [0u64, 10, 10, 250, 999, 1000] {
        let (next, commands) = job.step(Report::Progress(bytes));
        job = next;
        match &commands[..] {
            [Command::Emit(AppEvent::UpdateProgressValue(fraction))] => {
                let now = (fraction.numerator(), fraction.denominator());
                assert!(now.0 <= now.1);
                assert!((last.0 as u128) * (now.1 as u128) <= (now.0 as u128) * (last.1 as u128));
                last = now;
            }
            other => panic!("unexpected commands: {:?}", other),
        }
    }
    assert_eq!(last, (1000, 1000));
}

#[test]
fn progress_beyond_the_total_is_held_at_one() {
    let job = fetching_job(vec![7, 100]);
    let (_, commands) = job.step(Report::Progress(250));
    assert_eq!(commands, vec![Command::Emit(AppEvent::UpdateProgressValue(normalize(100, 100)))]);
}

#[test]
fn with_nothing_expected_the_fraction_is_zero() {
    let job = fetching_job(vec![7]);
    assert_eq!(job.total(), 0);
    let (_, commands) = job.step(Report::Progress(5));
    assert_eq!(commands, vec![Command::Emit(AppEvent::UpdateProgressValue(normalize(0, 0)))]);
    let zero = normalize(0, 0);
    assert_eq!((zero.numerator(), zero.denominator()), (0, 1));
}

#[test]
fn a_failed_export_is_reported_and_the_others_still_run() {
    let (job, _) = fresh_job().start();
    let (job, _) = job.step(Report::LocalInfo { complete: true });
    let (job, _) = job.step(Report::Loaded(vec![entry("a.txt", 1), entry("b.txt", 2), entry("c.txt", 3)]));
    let (job, commands) = job.step(Report::Exported);
    assert_eq!(commands, vec![Command::Export { name: "b.txt".to_string(), hash: address(2) }]);
    let (job, commands) = job.step(Report::ExportFailed("read only".to_string()));
    assert_eq!(
        commands,
        vec![
            fatal("Error downloading file b.txt", "read only"),
            Command::Export { name: "c.txt".to_string(), hash: address(3) },
        ]
    );
    let (job, commands) = job.step(Report::ExportFailed("full".to_string()));
    assert_eq!(commands, vec![fatal("Error downloading file c.txt", "full"), Command::DeleteTags]);
    let (job, commands) = job.step(Report::TagsFailed("busy".to_string()));
    assert_eq!(commands, vec![fatal("Failed to delete tags", "busy"), done()]);
    assert_eq!(job.state(), DownloadState::Complete);
}

#[test]
fn an_empty_collection_is_cleaned_up_at_once() {
    let (job, _) = fresh_job().start();
    let (job, _) = job.step(Report::LocalInfo { complete: true });
    let (job, commands) = job.step(Report::Loaded(vec![]));
    assert_eq!(commands, vec![Command::DeleteTags]);
    let (job, commands) = job.step(Report::Exported);
    assert_eq!(commands, vec![]);
    let (job, _) = job.step(Report::TagsDeleted);
    assert_eq!(job.state(), DownloadState::Complete);
}

#[test]
fn a_collection_that_cannot_be_loaded_fails_the_job() {
    let (job, _) = fresh_job().start();
    let (job, _) = job.step(Report::LocalInfo { complete: true });
    let (job, commands) = job.step(Report::LoadFailed("corrupt".to_string()));
    assert_eq!(commands, vec![fatal("Error loading collection", "corrupt"), done()]);
    assert_eq!(job.state(), DownloadState::Failed);
}

#[test]
fn a_job_that_fails_after_the_fetch_shows_no_progress_any_more() {
    let job = fetching_job(vec![64, 100]);
    let (job, _) = job.step(Report::Progress(97));
    let (job, _) = job.step(Report::StreamEnded);
    assert_eq!(job.progress().map(|f| (f.numerator(), f.denominator())), Some((100, 100)));
    let (job, commands) = job.step(Report::LoadFailed("corrupt".to_string()));
    assert_eq!(commands, vec![fatal("Error loading collection", "corrupt"), done()]);
    assert_eq!(job.state(), DownloadState::Failed);
    assert_eq!(job.progress(), None);
}

#[test]
fn reports_out_of_turn_change_nothing() {
    let (job, _) = fresh_job().start();
    let (job, commands) = job.step(Report::Connected);
    assert_eq!(commands, vec![]);
    assert_eq!(job.state(), DownloadState::LocalCompletenessCheck);
    let (job, commands) = job.step(Report::Exported);
    assert_eq!(commands, vec![]);
    let (job, _) = job.step(Report::LocalInfo { complete: true });
    let (job, commands) = job.step(Report::TagsDeleted);
    assert_eq!(commands, vec![]);
    assert_eq!(job.state(), DownloadState::Exporting);
    let (job, commands) = job.step(Report::Exported);
    assert_eq!(commands, vec![]);
    assert_eq!(job.state(), DownloadState::Exporting);
}

#[test]
fn export_of_a_collection_names_the_files_it_was_built_from() {
    let (job, _) = fresh_job().start();
    let (job, _) = job.step(Report::LocalInfo { complete: true });
    let (job, first) = job.step(Report::Loaded(vec![entry("a.txt", 0xa), entry("b.txt", 0xb)]));
    let (_, second) = job.step(Report::Exported);
    assert_eq!(first, vec![Command::Export { name: "a.txt".to_string(), hash: address(0xa) }]);
    assert_eq!(second, vec![Command::Export { name: "b.txt".to_string(), hash: address(0xb) }]);
}

#[test]
fn payload_skips_the_descriptor() {
    assert_eq!(payload_total(&vec![]), 0);
    assert_eq!(payload_total(&vec![500]), 0);
    assert_eq!(payload_total(&vec![500, 1]), 1);
    assert_eq!(payload_total(&vec![500, 1, 2, 3]), 6);
}

#[test]
fn payload_beyond_64_bits_is_held_at_the_largest_value() {
    assert_eq!(payload_total(&vec![0, u64::MAX, 1]), u64::MAX);
    assert_eq!(payload_total(&vec![0, u64::MAX - 1, 1]), u64::MAX);
    assert_eq!(payload_total(&vec![0, 1 << 63, 1 << 63, 5]), u64::MAX);
}

#[test]
fn ticket_for_a_single_blob_is_not_recursive() {
    let ticket = Ticket { hash: address(1), format: BlobFormat::Raw, origin: "peer".to_string() };
    assert!(!ticket.recursive());
    assert_eq!(ticket.duplicate(), ticket);
}

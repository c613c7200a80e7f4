//! The receiving side of a transfer: from a ticket to files on disk.
//!
//! A [`DownloadJob`] never touches the content store or the network. It is
//! told what the store reported and answers with the commands to carry out
//! next and the events to show. The caller performs each command and feeds the
//! outcome back in.

use vstd::prelude::*;
use crate::collection::{entries_view, ContentAddress, Entries, Entry};
use crate::events::{AppEvent, AppEventView, Fault, FaultView};
use crate::progress::{normalize, normalized, Fraction};
use crate::text::concat;
use crate::ticket::{Ticket, TicketView};

verus! {

/// Where a download stands.
#[derive(Clone, Copy, Debug, PartialEq, Eq, Structural)]
pub enum DownloadState {
    /// Created, nothing asked of the store yet.
    Requested,
    /// Waiting to hear whether the content is already present locally.
    LocalCompletenessCheck,
    /// Waiting for the connection to the ticket's origin.
    Connecting,
    /// Waiting for the sizes of the collection's blobs.
    SizeDiscovery,
    /// Consuming the stream of fetched bytes.
    Fetching,
    /// Resolving the collection and writing its files out, then cleaning up.
    Exporting,
    Complete,
    Failed,
}

/// The three things that happen, in order, while a job is `Exporting`.
#[derive(Clone, Copy, Debug, PartialEq, Eq, Structural)]
pub enum ExportPhase {
    /// Waiting for the collection's entries.
    Loading,
    /// Waiting for the export of one entry.
    Files,
    /// Waiting for the store's temporary tags to be deleted.
    Tags,
}

/// What the content store, or the connection to the remote peer, reported.
#[derive(Debug, PartialEq, Eq)]
pub enum Report {
    /// The local store holds everything the ticket refers to, or not.
    LocalInfo { complete: bool },
    LocalInfoFailed(String),
    Connected,
    ConnectFailed(String),
    /// Sizes of every blob of the hash sequence; the first is the collection
    /// descriptor itself.
    Sizes(Vec<u64>),
    SizesFailed(String),
    /// Bytes of payload received so far.
    Progress(u64),
    /// The fetch stream finished.
    Done,
    /// One item of the fetch stream failed.
    StreamError(String),
    /// The fetch stream ended without saying that it finished.
    StreamEnded,
    /// The collection's entries, as resolved from the local store.
    Loaded(Vec<Entry>),
    LoadFailed(String),
    /// The export that was asked for succeeded.
    Exported,
    /// The export that was asked for failed.
    ExportFailed(String),
    TagsDeleted,
    TagsFailed(String),
}

/// A report as mathematical values.
pub enum ReportView {
    LocalInfo { complete: bool },
    LocalInfoFailed(Seq<char>),
    Connected,
    ConnectFailed(Seq<char>),
    Sizes(Seq<u64>),
    SizesFailed(Seq<char>),
    Progress(u64),
    Done,
    StreamError(Seq<char>),
    StreamEnded,
    Loaded(Entries),
    LoadFailed(Seq<char>),
    Exported,
    ExportFailed(Seq<char>),
    TagsDeleted,
    TagsFailed(Seq<char>),
}

impl View for Report {
    type V = ReportView;

    open spec fn view(&self) -> ReportView {
        match self {
            Report::LocalInfo { complete } => ReportView::LocalInfo { complete: *complete },
            Report::LocalInfoFailed(cause) => ReportView::LocalInfoFailed(cause@),
            Report::Connected => ReportView::Connected,
            Report::ConnectFailed(cause) => ReportView::ConnectFailed(cause@),
            Report::Sizes(sizes) => ReportView::Sizes(sizes@),
            Report::SizesFailed(cause) => ReportView::SizesFailed(cause@),
            Report::Progress(bytes) => ReportView::Progress(*bytes),
            Report::Done => ReportView::Done,
            Report::StreamError(cause) => ReportView::StreamError(cause@),
            Report::StreamEnded => ReportView::StreamEnded,
            Report::Loaded(entries) => ReportView::Loaded(entries_view(entries@)),
            Report::LoadFailed(cause) => ReportView::LoadFailed(cause@),
            Report::Exported => ReportView::Exported,
            Report::ExportFailed(cause) => ReportView::ExportFailed(cause@),
            Report::TagsDeleted => ReportView::TagsDeleted,
            Report::TagsFailed(cause) => ReportView::TagsFailed(cause@),
        }
    }
}

/// What the caller is to do next. Everything but `Export` and `Emit` takes its
/// arguments from the job's ticket.
#[derive(Debug, PartialEq, Eq)]
pub enum Command {
    /// Ask the store whether the ticket's content is complete locally.
    QueryLocal,
    /// Open a connection to the ticket's origin.
    Connect,
    /// Ask the origin for the sizes of the collection's blobs.
    QuerySizes,
    /// Fetch what is missing locally and stream the progress back.
    Fetch,
    /// Resolve the collection's entries from the local store.
    LoadCollection,
    /// Write the blob at `hash` to the file `name` in the destination
    /// directory.
    Export { name: String, hash: ContentAddress },
    /// Delete the store's temporary tags.
    DeleteTags,
    /// Hand the event to the user interface.
    Emit(AppEvent),
}

/// A command as mathematical values.
pub enum CommandView {
    QueryLocal,
    Connect,
    QuerySizes,
    Fetch,
    LoadCollection,
    Export { name: Seq<char>, hash: Seq<u8> },
    DeleteTags,
    Emit(AppEventView),
}

impl View for Command {
    type V = CommandView;

    open spec fn view(&self) -> CommandView {
        match self {
            Command::QueryLocal => CommandView::QueryLocal,
            Command::Connect => CommandView::Connect,
            Command::QuerySizes => CommandView::QuerySizes,
            Command::Fetch => CommandView::Fetch,
            Command::LoadCollection => CommandView::LoadCollection,
            Command::Export { name, hash } => CommandView::Export { name: name@, hash: hash@ },
            Command::DeleteTags => CommandView::DeleteTags,
            Command::Emit(event) => CommandView::Emit(event@),
        }
    }
}

/// The views of a vector of commands, in order.
pub open spec fn commands_view(commands: Seq<Command>) -> Seq<CommandView> {
    Seq::new(commands.len(), |i: int| commands[i]@)
}

/// Sum of a sequence of sizes.
pub open spec fn total_of(sizes: Seq<u64>) -> int
    decreases sizes.len(),
{
    if sizes.len() == 0 {
        0
    } else {
        total_of(sizes.drop_last()) + sizes.last()
    }
}

/// The expected payload: the sizes of all blobs but the first, which is the
/// collection descriptor and no payload.
pub open spec fn payload_sum(sizes: Seq<u64>) -> int {
    if sizes.len() <= 1 {
        0
    } else {
        total_of(sizes.subrange(1, sizes.len() as int))
    }
}

/// A byte count as it fits in 64 bits: counts beyond that are held at the
/// largest value.
pub open spec fn capped(bytes: int) -> int {
    if bytes > u64::MAX {
        u64::MAX as int
    } else {
        bytes
    }
}

proof fn lemma_total_nonnegative(sizes: Seq<u64>)
    ensures
        0 <= total_of(sizes),
    decreases sizes.len(),
{
    if sizes.len() > 0 {
        lemma_total_nonnegative(sizes.drop_last());
    }
}

/// The expected payload of a fetch, from the sizes that the origin reported.
pub fn payload_total(sizes: &Vec<u64>) -> (total: u64)
    ensures
        total == capped(payload_sum(sizes@)),
{
    let mut total: u64 = 0;
    let mut i: usize = 1;
    if sizes.len() <= 1 {
        return 0;
    }
    assert(sizes@.subrange(1, 1) =~= Seq::<u64>::empty());
    while i < sizes.len()
        invariant
            1 <= i <= sizes.len(),
            total == capped(total_of(sizes@.subrange(1, i as int))),
        decreases sizes.len() - i,
    {
        let size = sizes[i];
        proof {
            assert(sizes@.subrange(1, i + 1).drop_last() =~= sizes@.subrange(1, i as int));
            lemma_total_nonnegative(sizes@.subrange(1, i as int));
        }
        total = total.saturating_add(size);
        i = i + 1;
    }
    total
}

/// One download: a ticket, where its files go, and how far it has come.
#[derive(Debug, PartialEq, Eq)]
pub struct DownloadJob {
    ticket: Ticket,
    destination: String,
    state: DownloadState,
    phase: ExportPhase,
    total: u64,
    progress: Option<Fraction>,
    pending: Vec<Entry>,
    next: usize,
}

/// A job as mathematical values.
pub struct JobView {
    pub ticket: TicketView,
    pub destination: Seq<char>,
    pub state: DownloadState,
    /// Meaningful while `state` is `Exporting`.
    pub phase: ExportPhase,
    /// Expected payload in bytes; set when the sizes arrive.
    pub total: int,
    /// Numerator and denominator of the last fraction reported, while there
    /// is one.
    pub progress: Option<(int, int)>,
    /// The entries to export; set when the collection is loaded.
    pub pending: Entries,
    /// While exporting files: the index in `pending` of the export awaited.
    pub next: int,
}

impl View for DownloadJob {
    type V = JobView;

    closed spec fn view(&self) -> JobView {
        JobView {
            ticket: self.ticket@,
            destination: self.destination@,
            state: self.state,
            phase: self.phase,
            total: self.total as int,
            progress: match self.progress {
                Some(fraction) => Some((fraction.num(), fraction.den())),
                None => None,
            },
            pending: entries_view(self.pending@),
            next: self.next as int,
        }
    }
}

/// The job has not begun to fetch.
pub open spec fn before_fetch(state: DownloadState) -> bool {
    state == DownloadState::Requested || state == DownloadState::LocalCompletenessCheck || state
        == DownloadState::Connecting || state == DownloadState::SizeDiscovery
}

/// The job has come to its end, one way or the other.
pub open spec fn is_over(state: DownloadState) -> bool {
    state == DownloadState::Complete || state == DownloadState::Failed
}

/// A fatal-error command with the given context and cause.
pub open spec fn failure(context: Seq<char>, cause: Seq<char>) -> CommandView {
    CommandView::Emit(AppEventView::FatalError(FaultView { context, cause: Some(cause) }))
}

/// The job after the export that was awaited has settled, and the command
/// that follows: the next export, or the cleanup once every entry was tried.
pub open spec fn advanced(job: JobView) -> (JobView, Seq<CommandView>) {
    if job.next + 1 < job.pending.len() {
        let entry = job.pending[job.next + 1];
        (
            JobView { next: job.next + 1, ..job },
            seq![CommandView::Export { name: entry.0, hash: entry.1 }],
        )
    } else {
        (
            JobView { next: job.next + 1, phase: ExportPhase::Tags, ..job },
            seq![CommandView::DeleteTags],
        )
    }
}

/// The job at its end, in `state`, and what it says then: first `said`, and
/// last that the download is done. On that, whoever shows the transfer goes
/// back to showing none, so no job ends with its progress still on display.
pub open spec fn ended(job: JobView, state: DownloadState, said: Seq<CommandView>) -> (
    JobView,
    Seq<CommandView>,
) {
    (
        JobView { state, progress: None, ..job },
        said + seq![CommandView::Emit(AppEventView::DownloadDone)],
    )
}

/// The fraction one is still to be shown: something was expected, and the
/// last fraction shown, if any, was not one.
pub open spec fn short_of_one(job: JobView) -> bool {
    job.total > 0 && job.progress != Some((job.total, job.total))
}

/// The job after the stream of the fetch has come to its end, and what it
/// says then: the fraction one where that is still to be shown, that the
/// download is done, and that the collection is to be loaded.
pub open spec fn fetched(job: JobView) -> (JobView, Seq<CommandView>) {
    let after = JobView {
        state: DownloadState::Exporting,
        phase: ExportPhase::Loading,
        progress: if job.total > 0 {
            Some((job.total, job.total))
        } else {
            job.progress
        },
        ..job
    };
    let rest = seq![CommandView::Emit(AppEventView::DownloadDone), CommandView::LoadCollection];
    if short_of_one(job) {
        (
            after,
            seq![CommandView::Emit(AppEventView::UpdateProgressValue(job.total, job.total))] + rest,
        )
    } else {
        (after, rest)
    }
}

/// The job after `report`, and the commands that it calls for, in order.
///
/// A report that does not belong to the job's state changes nothing and calls
/// for nothing.
pub open spec fn stepped(job: JobView, report: ReportView) -> (JobView, Seq<CommandView>) {
    match (job.state, report) {
        (DownloadState::LocalCompletenessCheck, ReportView::LocalInfo { complete }) => {
            if complete {
                (
                    JobView {
                        state: DownloadState::Exporting,
                        phase: ExportPhase::Loading,
                        ..job
                    },
                    seq![CommandView::LoadCollection],
                )
            } else {
                (JobView { state: DownloadState::Connecting, ..job }, seq![CommandView::Connect])
            }
        },
        (DownloadState::LocalCompletenessCheck, ReportView::LocalInfoFailed(cause)) => ended(
            job,
            DownloadState::Failed,
            seq![failure("Failed to get local info"@, cause)],
        ),
        (DownloadState::Connecting, ReportView::Connected) => (
            JobView { state: DownloadState::SizeDiscovery, ..job },
            seq![CommandView::QuerySizes],
        ),
        (DownloadState::Connecting, ReportView::ConnectFailed(cause)) => ended(
            job,
            DownloadState::Failed,
            seq![failure("Failed to connect to sender"@, cause)],
        ),
        (DownloadState::SizeDiscovery, ReportView::Sizes(sizes)) => (
            JobView { state: DownloadState::Fetching, total: capped(payload_sum(sizes)), ..job },
            seq![CommandView::Emit(AppEventView::DownloadStart), CommandView::Fetch],
        ),
        (DownloadState::SizeDiscovery, ReportView::SizesFailed(cause)) => ended(
            job,
            DownloadState::Failed,
            seq![failure("Failed to get file(s) size"@, cause)],
        ),
        (DownloadState::Fetching, ReportView::Progress(bytes)) => {
            let fraction = normalized(bytes as int, job.total);
            (
                JobView { progress: Some(fraction), ..job },
                seq![CommandView::Emit(AppEventView::UpdateProgressValue(fraction.0, fraction.1))],
            )
        },
        (DownloadState::Fetching, ReportView::Done) => fetched(job),
        (DownloadState::Fetching, ReportView::StreamError(cause)) => (
            job,
            seq![failure("Error downloading one of the files"@, cause)],
        ),
        (DownloadState::Fetching, ReportView::StreamEnded) => fetched(job),
        (DownloadState::Exporting, ReportView::Loaded(entries)) => {
            if job.phase != ExportPhase::Loading {
                (job, seq![])
            } else if entries.len() == 0 {
                (
                    JobView { phase: ExportPhase::Tags, pending: entries, next: 0, ..job },
                    seq![CommandView::DeleteTags],
                )
            } else {
                (
                    JobView { phase: ExportPhase::Files, pending: entries, next: 0, ..job },
                    seq![CommandView::Export { name: entries[0].0, hash: entries[0].1 }],
                )
            }
        },
        (DownloadState::Exporting, ReportView::LoadFailed(cause)) => {
            if job.phase != ExportPhase::Loading {
                (job, seq![])
            } else {
                ended(job, DownloadState::Failed, seq![failure("Error loading collection"@, cause)])
            }
        },
        (DownloadState::Exporting, ReportView::Exported) => {
            if job.phase != ExportPhase::Files {
                (job, seq![])
            } else {
                advanced(job)
            }
        },
        (DownloadState::Exporting, ReportView::ExportFailed(cause)) => {
            if job.phase != ExportPhase::Files {
                (job, seq![])
            } else {
                (
                    advanced(job).0,
                    seq![
                        failure("Error downloading file "@ + job.pending[job.next].0, cause),
                    ] + advanced(job).1,
                )
            }
        },
        (DownloadState::Exporting, ReportView::TagsDeleted) => {
            if job.phase != ExportPhase::Tags {
                (job, seq![])
            } else {
                ended(job, DownloadState::Complete, seq![])
            }
        },
        (DownloadState::Exporting, ReportView::TagsFailed(cause)) => {
            if job.phase != ExportPhase::Tags {
                (job, seq![])
            } else {
                ended(job, DownloadState::Complete, seq![failure("Failed to delete tags"@, cause)])
            }
        },
        _ => (job, seq![]),
    }
}

impl DownloadJob {
    #[verifier::type_invariant]
    spec fn valid(&self) -> bool {
        &&& self.state == DownloadState::Exporting && self.phase == ExportPhase::Files
            ==> self.next < self.pending@.len()
        &&& before_fetch(self.state) ==> self.progress is None
    }

    /// What holds of every job: while the export of a file is awaited, that
    /// file is one of the pending entries; and before the fetch has begun, no
    /// fraction was shown.
    pub open spec fn coherent(job: JobView) -> bool {
        &&& job.state == DownloadState::Exporting && job.phase == ExportPhase::Files ==> 0
            <= job.next < job.pending.len()
        &&& before_fetch(job.state) ==> job.progress is None
    }

    /// A job for `ticket` whose files go to `destination`.
    pub fn new(ticket: Ticket, destination: String) -> (job: DownloadJob)
        ensures
            job@ == (JobView {
                ticket: ticket@,
                destination: destination@,
                state: DownloadState::Requested,
                phase: ExportPhase::Loading,
                total: 0,
                progress: None,
                pending: Entries::empty(),
                next: 0,
            }),
    {
        let job = DownloadJob {
            ticket,
            destination,
            state: DownloadState::Requested,
            phase: ExportPhase::Loading,
            total: 0,
            progress: None,
            pending: Vec::new(),
            next: 0,
        };
        assert(job@.pending =~= Entries::empty());
        job
    }

    /// Where the job stands.
    pub fn state(&self) -> (state: DownloadState)
        ensures
            state == self@.state,
            Self::coherent(self@),
    {
        proof {
            use_type_invariant(self);
        }
        self.state
    }

    /// The ticket being downloaded.
    pub fn ticket(&self) -> (ticket: &Ticket)
        ensures
            ticket@ == self@.ticket,
    {
        &self.ticket
    }

    /// The directory that exported files go to.
    pub fn destination(&self) -> (directory: &String)
        ensures
            directory@ == self@.destination,
    {
        &self.destination
    }

    /// The expected payload in bytes, once the sizes are known.
    pub fn total(&self) -> (total: u64)
        ensures
            total == self@.total,
    {
        self.total
    }

    /// The last fraction reported, or `None` while no transfer is in progress.
    pub fn progress(&self) -> (progress: Option<Fraction>)
        ensures
            match progress {
                Some(fraction) => self@.progress == Some((fraction.num(), fraction.den()))
                    && fraction.in_unit_interval(),
                None => self@.progress is None,
            },
    {
        match self.progress {
            Some(fraction) => {
                let _ = fraction.numerator();
                Some(fraction)
            },
            None => None,
        }
    }

    /// Whether the job has ended, one way or the other.
    pub fn is_finished(&self) -> (finished: bool)
        ensures
            finished == (self@.state == DownloadState::Complete || self@.state
                == DownloadState::Failed),
    {
        self.state == DownloadState::Complete || self.state == DownloadState::Failed
    }

    /// Starts a job that was only requested: the first thing to find out is
    /// whether the content is already here. A job that was started before is
    /// left as it is.
    pub fn start(self) -> (next: (DownloadJob, Vec<Command>))
        ensures
            self@.state == DownloadState::Requested ==> next.0@ == (JobView {
                state: DownloadState::LocalCompletenessCheck,
                ..self@
            }) && commands_view(next.1@) == seq![CommandView::QueryLocal],
            self@.state != DownloadState::Requested ==> next.0@ == self@ && commands_view(next.1@)
                == Seq::<CommandView>::empty(),
    {
        proof {
            use_type_invariant(&self);
        }
        if self.state == DownloadState::Requested {
            let job = DownloadJob { state: DownloadState::LocalCompletenessCheck, ..self };
            let commands = vec![Command::QueryLocal];
            assert(commands_view(commands@) =~= seq![CommandView::QueryLocal]);
            (job, commands)
        } else {
            let commands: Vec<Command> = Vec::new();
            assert(commands_view(commands@) =~= Seq::<CommandView>::empty());
            (self, commands)
        }
    }

    /// Takes in one report and answers with the job's next state and the
    /// commands to carry out, in order.
    pub fn step(self, report: Report) -> (next: (DownloadJob, Vec<Command>))
        ensures
            next.0@ == stepped(self@, report@).0,
            commands_view(next.1@) == stepped(self@, report@).1,
            Self::coherent(self@),
            Self::coherent(next.0@),
    {
        proof {
            use_type_invariant(&self);
        }
        let ghost before = self@;
        let ghost seen = report@;
        match (self.state, report) {
            (DownloadState::LocalCompletenessCheck, Report::LocalInfo { complete }) => {
                if complete {
                    let job = DownloadJob {
                        state: DownloadState::Exporting,
                        phase: ExportPhase::Loading,
                        ..self
                    };
                    let commands = vec![Command::LoadCollection];
                    assert(commands_view(commands@) =~= stepped(before, seen).1);
                    (job, commands)
                } else {
                    let job = DownloadJob { state: DownloadState::Connecting, ..self };
                    let commands = vec![Command::Connect];
                    assert(commands_view(commands@) =~= stepped(before, seen).1);
                    (job, commands)
                }
            },
            (DownloadState::LocalCompletenessCheck, Report::LocalInfoFailed(cause)) => {
                self.fail("Failed to get local info", cause)
            },
            (DownloadState::Connecting, Report::Connected) => {
                let job = DownloadJob { state: DownloadState::SizeDiscovery, ..self };
                let commands = vec![Command::QuerySizes];
                assert(commands_view(commands@) =~= stepped(before, seen).1);
                (job, commands)
            },
            (DownloadState::Connecting, Report::ConnectFailed(cause)) => {
                self.fail("Failed to connect to sender", cause)
            },
            (DownloadState::SizeDiscovery, Report::Sizes(sizes)) => {
                let total = payload_total(&sizes);
                let job = DownloadJob { state: DownloadState::Fetching, total, ..self };
                let commands = vec![Command::Emit(AppEvent::DownloadStart), Command::Fetch];
                assert(commands_view(commands@) =~= stepped(before, seen).1);
                (job, commands)
            },
            (DownloadState::SizeDiscovery, Report::SizesFailed(cause)) => {
                self.fail("Failed to get file(s) size", cause)
            },
            (DownloadState::Fetching, Report::Progress(bytes)) => {
                let fraction = normalize(bytes, self.total);
                let job = DownloadJob { progress: Some(fraction), ..self };
                let commands = vec![Command::Emit(AppEvent::UpdateProgressValue(fraction))];
                assert(commands_view(commands@) =~= stepped(before, seen).1);
                (job, commands)
            },
            (DownloadState::Fetching, Report::Done) => self.finish_fetch(),
            (DownloadState::Fetching, Report::StreamError(cause)) => {
                let commands = vec![
                    Command::Emit(
                        AppEvent::FatalError(
                            Fault::caused("Error downloading one of the files", cause),
                        ),
                    ),
                ];
                assert(commands_view(commands@) =~= stepped(before, seen).1);
                (self, commands)
            },
            (DownloadState::Fetching, Report::StreamEnded) => self.finish_fetch(),
            (DownloadState::Exporting, Report::Loaded(entries)) => {
                if self.phase != ExportPhase::Loading {
                    self.ignore()
                } else if entries.len() == 0 {
                    let job = DownloadJob {
                        phase: ExportPhase::Tags,
                        pending: entries,
                        next: 0,
                        ..self
                    };
                    let commands = vec![Command::DeleteTags];
                    assert(commands_view(commands@) =~= stepped(before, seen).1);
                    (job, commands)
                } else {
                    let first = entries[0].duplicate();
                    let job = DownloadJob {
                        phase: ExportPhase::Files,
                        pending: entries,
                        next: 0,
                        ..self
                    };
                    let commands = vec![Command::Export { name: first.name, hash: first.hash }];
                    assert(commands_view(commands@) =~= stepped(before, seen).1);
                    (job, commands)
                }
            },
            (DownloadState::Exporting, Report::LoadFailed(cause)) => {
                if self.phase != ExportPhase::Loading {
                    self.ignore()
                } else {
                    self.fail("Error loading collection", cause)
                }
            },
            (DownloadState::Exporting, Report::Exported) => {
                if self.phase != ExportPhase::Files {
                    self.ignore()
                } else {
                    self.advance(Vec::new())
                }
            },
            (DownloadState::Exporting, Report::ExportFailed(cause)) => {
                if self.phase != ExportPhase::Files {
                    self.ignore()
                } else {
                    let context = concat(
                        "Error downloading file ",
                        self.pending[self.next].name.as_str(),
                    );
                    let commands = vec![
                        Command::Emit(AppEvent::FatalError(Fault::caused(context.as_str(), cause))),
                    ];
                    assert(commands_view(commands@) =~= seq![
                        failure("Error downloading file "@ + before.pending[before.next].0, seen->ExportFailed_0),
                    ]);
                    self.advance(commands)
                }
            },
            (DownloadState::Exporting, Report::TagsDeleted) => {
                if self.phase != ExportPhase::Tags {
                    self.ignore()
                } else {
                    self.end(DownloadState::Complete, Vec::new())
                }
            },
            (DownloadState::Exporting, Report::TagsFailed(cause)) => {
                if self.phase != ExportPhase::Tags {
                    self.ignore()
                } else {
                    let said = vec![
                        Command::Emit(
                            AppEvent::FatalError(Fault::caused("Failed to delete tags", cause)),
                        ),
                    ];
                    assert(commands_view(said@) =~= seq![failure("Failed to delete tags"@, cause@)]);
                    self.end(DownloadState::Complete, said)
                }
            },
            _ => self.ignore(),
        }
    }

    /// The job as it is, with nothing to do.
    fn ignore(self) -> (next: (DownloadJob, Vec<Command>))
        ensures
            next.0@ == self@,
            commands_view(next.1@) == Seq::<CommandView>::empty(),
            Self::coherent(self@),
    {
        proof {
            use_type_invariant(&self);
        }
        let commands: Vec<Command> = Vec::new();
        assert(commands_view(commands@) =~= Seq::<CommandView>::empty());
        (self, commands)
    }

    /// The job at its end, in `state`, after `said`.
    fn end(self, state: DownloadState, said: Vec<Command>) -> (next: (DownloadJob, Vec<Command>))
        requires
            is_over(state),
        ensures
            next.0@ == ended(self@, state, commands_view(said@)).0,
            commands_view(next.1@) == ended(self@, state, commands_view(said@)).1,
            Self::coherent(next.0@),
    {
        let ghost spoken = commands_view(said@);
        let job = DownloadJob { state, progress: None, ..self };
        let mut commands = said;
        commands.push(Command::Emit(AppEvent::DownloadDone));
        assert(commands_view(commands@) =~= spoken + seq![
            CommandView::Emit(AppEventView::DownloadDone),
        ]);
        (job, commands)
    }

    /// The job marked as failed, with the fault to show.
    fn fail(self, context: &str, cause: String) -> (next: (DownloadJob, Vec<Command>))
        ensures
            next.0@ == ended(self@, DownloadState::Failed, seq![failure(context@, cause@)]).0,
            commands_view(next.1@) == ended(
                self@,
                DownloadState::Failed,
                seq![failure(context@, cause@)],
            ).1,
            Self::coherent(next.0@),
    {
        let said = vec![Command::Emit(AppEvent::FatalError(Fault::caused(context, cause)))];
        assert(commands_view(said@) =~= seq![failure(context@, cause@)]);
        self.end(DownloadState::Failed, said)
    }

    /// Leaves the fetch for the export, now that the stream has ended.
    fn finish_fetch(self) -> (next: (DownloadJob, Vec<Command>))
        ensures
            next.0@ == fetched(self@).0,
            commands_view(next.1@) == fetched(self@).1,
            Self::coherent(next.0@),
    {
        let ghost before = self@;
        let total = self.total;
        let at_one = match self.progress {
            Some(fraction) => fraction.numerator() == total && fraction.denominator() == total,
            None => false,
        };
        let mut commands: Vec<Command> = Vec::new();
        if total > 0 {
            let one = normalize(total, total);
            if !at_one {
                commands.push(Command::Emit(AppEvent::UpdateProgressValue(one)));
            }
            commands.push(Command::Emit(AppEvent::DownloadDone));
            commands.push(Command::LoadCollection);
            assert(commands_view(commands@) =~= fetched(before).1);
            let job = DownloadJob {
                state: DownloadState::Exporting,
                phase: ExportPhase::Loading,
                progress: Some(one),
                ..self
            };
            (job, commands)
        } else {
            commands.push(Command::Emit(AppEvent::DownloadDone));
            commands.push(Command::LoadCollection);
            assert(commands_view(commands@) =~= fetched(before).1);
            let job = DownloadJob {
                state: DownloadState::Exporting,
                phase: ExportPhase::Loading,
                ..self
            };
            (job, commands)
        }
    }

    /// Moves on from the export that has settled, after `said`.
    fn advance(self, said: Vec<Command>) -> (next: (DownloadJob, Vec<Command>))
        requires
            self@.state == DownloadState::Exporting,
            self@.phase == ExportPhase::Files,
        ensures
            next.0@ == advanced(self@).0,
            commands_view(next.1@) == commands_view(said@) + advanced(self@).1,
            Self::coherent(next.0@),
            Self::coherent(self@),
    {
        proof {
            use_type_invariant(&self);
        }
        let ghost before = self@;
        let ghost spoken = commands_view(said@);
        let mut commands = said;
        let count = self.pending.len();
        let following = self.next + 1;
        if following < count {
            let entry = self.pending[following].duplicate();
            commands.push(Command::Export { name: entry.name, hash: entry.hash });
            assert(commands_view(commands@) =~= spoken + advanced(before).1);
            (DownloadJob { next: following, ..self }, commands)
        } else {
            commands.push(Command::DeleteTags);
            assert(commands_view(commands@) =~= spoken + advanced(before).1);
            (DownloadJob { next: following, phase: ExportPhase::Tags, ..self }, commands)
        }
    }
}

/// The job after a sequence of reports, and every command that they called
/// for, in order.
pub open spec fn ran(job: JobView, reports: Seq<ReportView>) -> (JobView, Seq<CommandView>)
    decreases reports.len(),
{
    if reports.len() == 0 {
        (job, seq![])
    } else {
        let before = ran(job, reports.drop_last());
        let last = stepped(before.0, reports.last());
        (last.0, before.1 + last.1)
    }
}

/// The command reaches out to the remote peer.
pub open spec fn uses_network(command: CommandView) -> bool {
    command is Connect || command is QuerySizes || command is Fetch
}

/// The job is past every step that needs the remote peer.
pub open spec fn past_network(job: JobView) -> bool {
    job.state == DownloadState::Exporting || job.state == DownloadState::Complete || job.state
        == DownloadState::Failed
}

proof fn lemma_past_network_stays(job: JobView, reports: Seq<ReportView>)
    requires
        past_network(job),
    ensures
        past_network(ran(job, reports).0),
        forall|i: int|
            0 <= i < ran(job, reports).1.len() ==> !uses_network(#[trigger] ran(job, reports).1[i]),
    decreases reports.len(),
{
    if reports.len() > 0 {
        lemma_past_network_stays(job, reports.drop_last());
    }
}

proof fn lemma_ran_after_first(job: JobView, first: ReportView, later: Seq<ReportView>)
    ensures
        ran(job, seq![first] + later).0 == ran(stepped(job, first).0, later).0,
        ran(job, seq![first] + later).1 == stepped(job, first).1 + ran(
            stepped(job, first).0,
            later,
        ).1,
    decreases later.len(),
{
    let all = seq![first] + later;
    if later.len() == 0 {
        assert(all.drop_last() =~= Seq::<ReportView>::empty());
        assert(ran(job, all.drop_last()).1 =~= Seq::<CommandView>::empty());
        assert(ran(job, all).1 =~= stepped(job, first).1);
        assert(stepped(job, first).1 + ran(stepped(job, first).0, later).1 =~= stepped(
            job,
            first,
        ).1);
    } else {
        lemma_ran_after_first(job, first, later.drop_last());
        assert(all.drop_last() =~= seq![first] + later.drop_last());
        assert(all.last() == later.last());
        let head = stepped(job, first);
        let middle = ran(head.0, later.drop_last());
        let tail = stepped(middle.0, later.last());
        assert(ran(job, all).1 =~= head.1 + (middle.1 + tail.1));
    }
}

/// A job that learns that the content is already complete locally goes
/// straight to exporting; whatever is reported to it afterwards, it never
/// asks to connect, to query sizes or to fetch.
pub proof fn lemma_complete_content_skips_network(job: JobView, later: Seq<ReportView>)
    requires
        job.state == DownloadState::LocalCompletenessCheck,
    ensures
        stepped(job, ReportView::LocalInfo { complete: true }).0.state == DownloadState::Exporting,
        stepped(job, ReportView::LocalInfo { complete: true }).1 == seq![
            CommandView::LoadCollection,
        ],
        forall|i: int|
            #![trigger ran(job, seq![ReportView::LocalInfo { complete: true }] + later).1[i]]
            0 <= i < ran(job, seq![ReportView::LocalInfo { complete: true }] + later).1.len()
                ==> !uses_network(
                ran(job, seq![ReportView::LocalInfo { complete: true }] + later).1[i],
            ),
{
    let first = ReportView::LocalInfo { complete: true };
    lemma_ran_after_first(job, first, later);
    lemma_past_network_stays(stepped(job, first).0, later);
}

/// The reports `Progress(c)` for the byte counts `c` of a fetch stream.
pub open spec fn progress_reports(counts: Seq<u64>) -> Seq<ReportView> {
    Seq::new(counts.len(), |i: int| ReportView::Progress(counts[i]))
}

/// The command that shows the fraction for `bytes` received of `total`.
pub open spec fn shown(bytes: int, total: int) -> CommandView {
    CommandView::Emit(
        AppEventView::UpdateProgressValue(normalized(bytes, total).0, normalized(bytes, total).1),
    )
}

proof fn lemma_progress_run(job: JobView, counts: Seq<u64>)
    requires
        job.state == DownloadState::Fetching,
    ensures
        ran(job, progress_reports(counts)).0.state == DownloadState::Fetching,
        ran(job, progress_reports(counts)).0.total == job.total,
        ran(job, progress_reports(counts)).0.progress == if counts.len() > 0 {
            Some(normalized(counts.last() as int, job.total))
        } else {
            job.progress
        },
        ran(job, progress_reports(counts)).1.len() == counts.len(),
        forall|i: int|
            0 <= i < counts.len() ==> #[trigger] ran(job, progress_reports(counts)).1[i] == shown(
                counts[i] as int,
                job.total,
            ),
    decreases counts.len(),
{
    if counts.len() > 0 {
        lemma_progress_run(job, counts.drop_last());
        assert(progress_reports(counts).drop_last() =~= progress_reports(counts.drop_last()));
    }
}

/// While a job fetches, every byte count that the stream reports is answered
/// by exactly one fraction, in order. If the counts never decrease, neither do
/// the fractions, which share one denominator and lie within `[0, 1]`; and
/// when the last count reaches an expected total above zero, the last
/// fraction is one.
pub proof fn lemma_progress_fractions(job: JobView, counts: Seq<u64>)
    requires
        job.state == DownloadState::Fetching,
        forall|i: int, j: int| 0 <= i <= j < counts.len() ==> counts[i] <= counts[j],
    ensures
        ran(job, progress_reports(counts)).1.len() == counts.len(),
        forall|i: int|
            0 <= i < counts.len() ==> #[trigger] ran(job, progress_reports(counts)).1[i] == shown(
                counts[i] as int,
                job.total,
            ),
        forall|i: int|
            #![trigger counts[i]]
            0 <= i < counts.len() ==> 0 <= normalized(counts[i] as int, job.total).0 <= normalized(
                counts[i] as int,
                job.total,
            ).1 && 0 < normalized(counts[i] as int, job.total).1,
        forall|i: int, j: int|
            #![trigger counts[i], counts[j]]
            0 <= i <= j < counts.len() ==> normalized(counts[i] as int, job.total).0 <= normalized(
                counts[j] as int,
                job.total,
            ).0 && normalized(counts[i] as int, job.total).1 == normalized(
                counts[j] as int,
                job.total,
            ).1,
        counts.len() > 0 && 0 < job.total <= counts.last() ==> normalized(
            counts.last() as int,
            job.total,
        ).0 == normalized(counts.last() as int, job.total).1,
{
    lemma_progress_run(job, counts);
}

/// The fractions that `commands` show, in order.
pub open spec fn fractions_among(commands: Seq<CommandView>) -> Seq<(int, int)>
    decreases commands.len(),
{
    if commands.len() == 0 {
        seq![]
    } else {
        match commands.last() {
            CommandView::Emit(AppEventView::UpdateProgressValue(numerator, denominator)) => {
                fractions_among(commands.drop_last()).push((numerator, denominator))
            },
            _ => fractions_among(commands.drop_last()),
        }
    }
}

proof fn lemma_fractions_among_concat(left: Seq<CommandView>, right: Seq<CommandView>)
    ensures
        fractions_among(left + right) == fractions_among(left) + fractions_among(right),
    decreases right.len(),
{
    if right.len() == 0 {
        assert(left + right =~= left);
        assert(fractions_among(left) + fractions_among(right) =~= fractions_among(left));
    } else {
        lemma_fractions_among_concat(left, right.drop_last());
        assert((left + right).drop_last() =~= left + right.drop_last());
        assert((left + right).last() == right.last());
        assert(fractions_among(left + right) =~= fractions_among(left) + fractions_among(right));
    }
}

/// The fractions for the byte counts `counts` of `total`, in order.
pub open spec fn fractions_of(counts: Seq<u64>, total: int) -> Seq<(int, int)> {
    Seq::new(counts.len(), |i: int| normalized(counts[i] as int, total))
}

proof fn lemma_fractions_of_progress(job: JobView, counts: Seq<u64>)
    requires
        job.state == DownloadState::Fetching,
    ensures
        fractions_among(ran(job, progress_reports(counts)).1) == fractions_of(counts, job.total),
    decreases counts.len(),
{
    reveal_with_fuel(fractions_among, 2);
    if counts.len() == 0 {
        assert(fractions_of(counts, job.total) =~= Seq::<(int, int)>::empty());
    } else {
        let earlier = counts.drop_last();
        lemma_fractions_of_progress(job, earlier);
        lemma_progress_run(job, earlier);
        assert(progress_reports(counts).drop_last() =~= progress_reports(earlier));
        let before = ran(job, progress_reports(earlier));
        let last = stepped(before.0, progress_reports(counts).last());
        lemma_fractions_among_concat(before.1, last.1);
        assert(last.1.drop_last() =~= Seq::<CommandView>::empty());
        assert(fractions_among(last.1) =~= seq![normalized(counts.last() as int, job.total)]);
        assert(fractions_of(earlier, job.total) + seq![
            normalized(counts.last() as int, job.total),
        ] =~= fractions_of(counts, job.total));
    }
}

/// How the stream of a fetch came to its end: with its last item, or without.
pub open spec fn stream_end(clean: bool) -> ReportView {
    if clean {
        ReportView::Done
    } else {
        ReportView::StreamEnded
    }
}

/// The reports of one whole fetch: the sizes, the byte counts of the stream
/// in turn, and the end of the stream.
pub open spec fn fetch_reports(sizes: Seq<u64>, counts: Seq<u64>, clean: bool) -> Seq<ReportView> {
    seq![ReportView::Sizes(sizes)] + progress_reports(counts).push(stream_end(clean))
}

/// The fractions that a job shows in the course of one whole fetch.
pub open spec fn fetch_fractions(job: JobView, sizes: Seq<u64>, counts: Seq<u64>, clean: bool)
    -> Seq<(int, int)> {
    fractions_among(ran(job, fetch_reports(sizes, counts, clean)).1)
}

/// The fractions that a job shows from the moment the sizes arrive until the
/// stream has ended lie within `[0, 1]` and share one denominator. If the
/// byte counts of the stream never decrease, neither do the fractions. And
/// when anything was expected at all, there is a last fraction and it is one,
/// whatever the stream counted, and even if it counted nothing.
pub proof fn lemma_fetch_ends_at_one(job: JobView, sizes: Seq<u64>, counts: Seq<u64>, clean: bool)
    requires
        job.state == DownloadState::SizeDiscovery,
        DownloadJob::coherent(job),
    ensures
        ran(job, fetch_reports(sizes, counts, clean)).0.state == DownloadState::Exporting,
        forall|i: int|
            0 <= i < fetch_fractions(job, sizes, counts, clean).len() ==> {
                let fraction = #[trigger] fetch_fractions(job, sizes, counts, clean)[i];
                0 <= fraction.0 <= fraction.1 && 0 < fraction.1
            },
        forall|i: int, j: int|
            0 <= i <= j < fetch_fractions(job, sizes, counts, clean).len() ==> (
            #[trigger] fetch_fractions(job, sizes, counts, clean)[i]).1 == (#[trigger] fetch_fractions(
                job,
                sizes,
                counts,
                clean,
            )[j]).1,
        (forall|i: int, j: int| 0 <= i <= j < counts.len() ==> counts[i] <= counts[j]) ==> forall|
            i: int,
            j: int,
        |
            0 <= i <= j < fetch_fractions(job, sizes, counts, clean).len() ==> (
            #[trigger] fetch_fractions(job, sizes, counts, clean)[i]).0 <= (#[trigger] fetch_fractions(
                job,
                sizes,
                counts,
                clean,
            )[j]).0,
        capped(payload_sum(sizes)) > 0 ==> fetch_fractions(job, sizes, counts, clean).len() > 0
            && fetch_fractions(job, sizes, counts, clean).last() == (
            capped(payload_sum(sizes)),
            capped(payload_sum(sizes)),
        ),
{
    reveal_with_fuel(fractions_among, 4);
    let total = capped(payload_sum(sizes));
    let first = ReportView::Sizes(sizes);
    let end = stream_end(clean);
    let later = progress_reports(counts).push(end);
    let sized = stepped(job, first);
    lemma_ran_after_first(job, first, later);
    assert(later.drop_last() =~= progress_reports(counts));
    assert(later.last() == end);
    lemma_progress_run(sized.0, counts);
    lemma_fractions_of_progress(sized.0, counts);
    let streamed = ran(sized.0, progress_reports(counts));
    let left = stepped(streamed.0, end);
    assert(left == fetched(streamed.0));
    assert(ran(sized.0, later).1 == streamed.1 + left.1);
    lemma_fractions_among_concat(streamed.1, left.1);
    lemma_fractions_among_concat(sized.1, streamed.1 + left.1);
    assert(sized.1.drop_last().drop_last() =~= Seq::<CommandView>::empty());
    assert(fractions_among(sized.1) =~= Seq::<(int, int)>::empty());
    let rest = seq![CommandView::Emit(AppEventView::DownloadDone), CommandView::LoadCollection];
    assert(rest.drop_last().drop_last() =~= Seq::<CommandView>::empty());
    assert(fractions_among(rest) =~= Seq::<(int, int)>::empty());
    let closing = if short_of_one(streamed.0) {
        seq![(total, total)]
    } else {
        Seq::<(int, int)>::empty()
    };
    assert(fractions_among(left.1) =~= closing) by {
        if short_of_one(streamed.0) {
            let one = seq![CommandView::Emit(AppEventView::UpdateProgressValue(total, total))];
            lemma_fractions_among_concat(one, rest);
            assert(one.drop_last() =~= Seq::<CommandView>::empty());
        }
    }
    let all = fetch_fractions(job, sizes, counts, clean);
    assert(all =~= fractions_of(counts, total) + closing);
    assert forall|i: int| 0 <= i < all.len() implies (#[trigger] all[i]).1 == (if total > 0 {
        total
    } else {
        1
    }) && 0 <= all[i].0 <= all[i].1 by {
        if i < counts.len() {
            assert(all[i] == normalized(counts[i] as int, total));
        }
    }
    if forall|i: int, j: int| 0 <= i <= j < counts.len() ==> counts[i] <= counts[j] {
        assert forall|i: int, j: int| 0 <= i <= j < all.len() implies (#[trigger] all[i]).0 <= (
        #[trigger] all[j]).0 by {
            if j < counts.len() {
                assert(all[i] == normalized(counts[i] as int, total));
                assert(all[j] == normalized(counts[j] as int, total));
                assert(counts[i] <= counts[j]);
            }
        }
    }
}

/// The report of how the export of one entry went: well, or not, with the
/// cause.
pub open spec fn export_report(failure: Option<Seq<char>>) -> ReportView {
    match failure {
        None => ReportView::Exported,
        Some(cause) => ReportView::ExportFailed(cause),
    }
}

/// The reports of how the exports went, one for each entry in turn.
pub open spec fn export_reports(outcomes: Seq<Option<Seq<char>>>) -> Seq<ReportView> {
    Seq::new(outcomes.len(), |i: int| export_report(outcomes[i]))
}

/// The export commands among `commands`, in order.
pub open spec fn exports_among(commands: Seq<CommandView>) -> Seq<CommandView>
    decreases commands.len(),
{
    if commands.len() == 0 {
        seq![]
    } else if commands.last() is Export {
        exports_among(commands.drop_last()).push(commands.last())
    } else {
        exports_among(commands.drop_last())
    }
}

/// The export commands for the first `count` of `entries`, in order.
pub open spec fn exports_of(entries: Entries, count: int) -> Seq<CommandView> {
    Seq::new(
        count as nat,
        |i: int| CommandView::Export { name: entries[i].0, hash: entries[i].1 },
    )
}

proof fn lemma_exports_among_concat(left: Seq<CommandView>, right: Seq<CommandView>)
    ensures
        exports_among(left + right) == exports_among(left) + exports_among(right),
    decreases right.len(),
{
    if right.len() == 0 {
        assert(left + right =~= left);
        assert(exports_among(left) + exports_among(right) =~= exports_among(left));
    } else {
        lemma_exports_among_concat(left, right.drop_last());
        assert((left + right).drop_last() =~= left + right.drop_last());
        assert((left + right).last() == right.last());
        if right.last() is Export {
            assert(exports_among(left + right) =~= exports_among(left) + exports_among(right));
        }
    }
}

proof fn lemma_exports_in_step(job: JobView, failure: Option<Seq<char>>)
    requires
        job.state == DownloadState::Exporting,
        job.phase == ExportPhase::Files,
        0 <= job.next < job.pending.len(),
    ensures
        exports_among(stepped(job, export_report(failure)).1) == if job.next + 1
            < job.pending.len() {
            seq![
                CommandView::Export {
                    name: job.pending[job.next + 1].0,
                    hash: job.pending[job.next + 1].1,
                },
            ]
        } else {
            seq![]
        },
{
    reveal_with_fuel(exports_among, 3);
    let commands = stepped(job, export_report(failure)).1;
    match failure {
        None => {
            assert(commands.drop_last() =~= Seq::<CommandView>::empty());
        },
        Some(cause) => {
            assert(commands.len() == 2);
            assert(commands.drop_last().drop_last() =~= Seq::<CommandView>::empty());
        },
    }
}

proof fn lemma_export_run(job: JobView, entries: Entries, outcomes: Seq<Option<Seq<char>>>)
    requires
        job.state == DownloadState::Exporting,
        job.phase == ExportPhase::Files,
        job.pending == entries,
        job.next == 0,
        0 < entries.len(),
        outcomes.len() <= entries.len(),
    ensures
        ran(job, export_reports(outcomes)).0.state == DownloadState::Exporting,
        ran(job, export_reports(outcomes)).0.pending == entries,
        ran(job, export_reports(outcomes)).0.next == outcomes.len(),
        ran(job, export_reports(outcomes)).0.phase == if outcomes.len() < entries.len() {
            ExportPhase::Files
        } else {
            ExportPhase::Tags
        },
        exports_among(ran(job, export_reports(outcomes)).1) == if outcomes.len() < entries.len() {
            exports_of(entries, outcomes.len() as int + 1).skip(1)
        } else {
            exports_of(entries, entries.len() as int).skip(1)
        },
        outcomes.len() == entries.len() ==> ran(job, export_reports(outcomes)).1.len() > 0 && ran(
            job,
            export_reports(outcomes),
        ).1.last() == CommandView::DeleteTags,
    decreases outcomes.len(),
{
    if outcomes.len() == 0 {
        assert(exports_of(entries, 1).skip(1) =~= Seq::<CommandView>::empty());
    } else {
        let earlier = outcomes.drop_last();
        lemma_export_run(job, entries, earlier);
        assert(export_reports(outcomes).drop_last() =~= export_reports(earlier));
        let before = ran(job, export_reports(earlier));
        let last = stepped(before.0, export_report(outcomes.last()));
        lemma_exports_in_step(before.0, outcomes.last());
        lemma_exports_among_concat(before.1, last.1);
        let k = earlier.len() as int;
        if outcomes.len() < entries.len() {
            assert(exports_of(entries, k + 1).skip(1) + seq![
                CommandView::Export { name: entries[k + 1].0, hash: entries[k + 1].1 },
            ] =~= exports_of(entries, k + 2).skip(1));
        } else {
            assert(exports_of(entries, k + 1).skip(1) + Seq::<CommandView>::empty()
                =~= exports_of(entries, entries.len() as int).skip(1));
        }
    }
}

/// Once the collection is loaded, every one of its entries is exported, in
/// order and under its own name and address, however the exports before it
/// went; after the last of them the store is asked to clean up.
pub proof fn lemma_every_entry_is_exported(
    job: JobView,
    entries: Entries,
    outcomes: Seq<Option<Seq<char>>>,
)
    requires
        job.state == DownloadState::Exporting,
        job.phase == ExportPhase::Loading,
        0 < entries.len(),
        outcomes.len() == entries.len(),
    ensures
        exports_among(
            ran(job, seq![ReportView::Loaded(entries)] + export_reports(outcomes)).1,
        ) == exports_of(entries, entries.len() as int),
        ran(job, seq![ReportView::Loaded(entries)] + export_reports(outcomes)).1.last()
            == CommandView::DeleteTags,
        ran(job, seq![ReportView::Loaded(entries)] + export_reports(outcomes)).0.phase
            == ExportPhase::Tags,
{
    let first = ReportView::Loaded(entries);
    let loaded = stepped(job, first);
    lemma_ran_after_first(job, first, export_reports(outcomes));
    lemma_export_run(loaded.0, entries, outcomes);
    let rest = ran(loaded.0, export_reports(outcomes));
    lemma_exports_among_concat(loaded.1, rest.1);
    reveal_with_fuel(exports_among, 2);
    assert(loaded.1.drop_last() =~= Seq::<CommandView>::empty());
    assert(exports_among(loaded.1) =~= exports_of(entries, 1));
    assert(exports_of(entries, 1) + exports_of(entries, entries.len() as int).skip(1)
        =~= exports_of(entries, entries.len() as int));
    assert((loaded.1 + rest.1).last() == rest.1.last());
}

} // verus!

//! The sending side of a transfer: from a selection of files to one committed
//! collection.
//!
//! An [`ImportJob`] decides which file is imported when, keeps the number of
//! imports under way within its bound, and gathers the files that succeeded
//! into a collection, in the order in which they finished. Reading the files
//! and talking to the content store is the caller's part.

use vstd::prelude::*;
use crate::collection::{recorded, Collection, ContentAddress, Entries};
use crate::events::{AppEvent, AppEventView, Fault, FaultView};
use crate::text::concat;

verus! {

/// How many imports run side by side unless the caller says otherwise.
pub const DEFAULT_CONCURRENCY: usize = 8;

/// One file to import: the name it will carry in the collection, and where
/// its bytes come from.
#[derive(Debug, PartialEq, Eq)]
pub struct FileRequest {
    pub name: String,
    pub source: String,
}

impl View for FileRequest {
    type V = (Seq<char>, Seq<char>);

    open spec fn view(&self) -> (Seq<char>, Seq<char>) {
        (self.name@, self.source@)
    }
}

/// The last component of a path: what follows its last `/`, or the whole
/// path if it has none.
pub open spec fn last_component(path: Seq<char>) -> Seq<char>
    decreases path.len(),
{
    if path.len() == 0 {
        path
    } else if path.last() == '/' {
        Seq::empty()
    } else {
        last_component(path.drop_last()).push(path.last())
    }
}

proof fn lemma_last_component(path: Seq<char>, start: int)
    requires
        0 <= start <= path.len(),
        forall|k: int| start <= k < path.len() ==> path[k] != '/',
        start == 0 || path[start - 1] == '/',
    ensures
        last_component(path) == path.skip(start),
    decreases path.len(),
{
    if path.len() == start {
        assert(path.skip(start) =~= Seq::<char>::empty());
        if start == 0 {
            assert(path =~= Seq::<char>::empty());
        }
    } else {
        lemma_last_component(path.drop_last(), start);
        assert(path.drop_last().skip(start).push(path.last()) =~= path.skip(start));
    }
}

/// The name that a file carries in a collection: the last component of the
/// path that its bytes are read from.
pub fn file_name(source: &str) -> (name: String)
    ensures
        name@ == last_component(source@),
{
    let length = source.unicode_len();
    let mut start: usize = length;
    let mut found = false;
    while start > 0 && !found
        invariant
            start <= length,
            length == source@.len(),
            forall|k: int| start <= k < length ==> source@[k] != '/',
            found ==> start > 0 && source@[start - 1] == '/',
        decreases (if found { 0 } else { start }),
    {
        if source.get_char(start - 1) == '/' {
            found = true;
        } else {
            start = start - 1;
        }
    }
    proof {
        lemma_last_component(source@, start as int);
        assert(source@.subrange(start as int, length as int) =~= source@.skip(start as int));
    }
    source.substring_char(start, length).to_owned()
}

/// The views of a vector of file requests, in order.
pub open spec fn requests_view(files: Seq<FileRequest>) -> Seq<(Seq<char>, Seq<char>)> {
    Seq::new(files.len(), |i: int| files[i]@)
}

/// Where an import stands.
#[derive(Clone, Copy, Debug, PartialEq, Eq, Structural)]
pub enum ImportState {
    /// Created, nothing started.
    Idle,
    /// Files are being imported.
    Importing,
    /// Every file has settled; the collection is being committed.
    Committing,
    /// The collection is committed.
    Done,
    /// The collection could not be committed.
    Failed,
}

/// What the content store reported about an import.
#[derive(Debug, PartialEq, Eq)]
pub enum ImportReport {
    /// The file at `index` is in the store under `hash`.
    Imported { index: usize, hash: ContentAddress },
    /// The file at `index` could not be imported.
    ImportFailed { index: usize, cause: String },
    /// The collection is in the store under this address.
    Committed(ContentAddress),
    CommitFailed(String),
}

/// An import report as mathematical values.
pub enum ImportReportView {
    Imported { index: int, hash: Seq<u8> },
    ImportFailed { index: int, cause: Seq<char> },
    Committed(Seq<u8>),
    CommitFailed(Seq<char>),
}

impl View for ImportReport {
    type V = ImportReportView;

    open spec fn view(&self) -> ImportReportView {
        match self {
            ImportReport::Imported { index, hash } => ImportReportView::Imported {
                index: *index as int,
                hash: hash@,
            },
            ImportReport::ImportFailed { index, cause } => ImportReportView::ImportFailed {
                index: *index as int,
                cause: cause@,
            },
            ImportReport::Committed(hash) => ImportReportView::Committed(hash@),
            ImportReport::CommitFailed(cause) => ImportReportView::CommitFailed(cause@),
        }
    }
}

/// What the caller is to do next.
#[derive(Debug, PartialEq, Eq)]
pub enum ImportCommand {
    /// Stream the bytes at `source` into the store, for the file at `index`.
    Import { index: usize, source: String },
    /// Commit the job's collection to the store.
    Commit,
    /// Hand the event to the user interface.
    Emit(AppEvent),
}

/// An import command as mathematical values.
pub enum ImportCommandView {
    Import { index: int, source: Seq<char> },
    Commit,
    Emit(AppEventView),
}

impl View for ImportCommand {
    type V = ImportCommandView;

    open spec fn view(&self) -> ImportCommandView {
        match self {
            ImportCommand::Import { index, source } => ImportCommandView::Import {
                index: *index as int,
                source: source@,
            },
            ImportCommand::Commit => ImportCommandView::Commit,
            ImportCommand::Emit(event) => ImportCommandView::Emit(event@),
        }
    }
}

/// The views of a vector of import commands, in order.
pub open spec fn import_commands_view(commands: Seq<ImportCommand>) -> Seq<ImportCommandView> {
    Seq::new(commands.len(), |i: int| commands[i]@)
}

/// One import: the files asked for, and what has become of them so far.
#[derive(Debug, PartialEq, Eq)]
pub struct ImportJob {
    files: Vec<FileRequest>,
    limit: usize,
    started: usize,
    outstanding: Vec<usize>,
    collection: Collection,
    state: ImportState,
    reference: Option<ContentAddress>,
}

/// An import job as mathematical values.
pub struct ImportView {
    /// Name and source of each file, by position in the request.
    pub files: Seq<(Seq<char>, Seq<char>)>,
    /// The most imports that may be under way at once.
    pub limit: int,
    /// How many files have been started; they are the first `started` ones.
    pub started: int,
    /// Positions of the files whose import is under way.
    pub outstanding: Seq<int>,
    /// The files imported so far, in the order in which they finished.
    pub collection: Entries,
    pub state: ImportState,
    /// The address of the committed collection, once there is one.
    pub reference: Option<Seq<u8>>,
}

impl View for ImportJob {
    type V = ImportView;

    closed spec fn view(&self) -> ImportView {
        ImportView {
            files: requests_view(self.files@),
            limit: self.limit as int,
            started: self.started as int,
            outstanding: Seq::new(self.outstanding@.len(), |i: int| self.outstanding@[i] as int),
            collection: self.collection@,
            state: self.state,
            reference: match self.reference {
                Some(hash) => Some(hash@),
                None => None,
            },
        }
    }
}

/// What holds of every import job: no more imports are under way than the
/// bound allows, and each of them is a file that was started.
pub open spec fn within_bound(job: ImportView) -> bool {
    &&& 1 <= job.limit
    &&& 0 <= job.started <= job.files.len()
    &&& job.outstanding.len() <= job.limit
    &&& forall|k: int|
        0 <= k < job.outstanding.len() ==> 0 <= #[trigger] job.outstanding[k] < job.started
    &&& job.state != ImportState::Importing ==> job.outstanding.len() == 0
}

/// The import commands for the files at positions `from` up to `to`.
pub open spec fn import_batch(files: Seq<(Seq<char>, Seq<char>)>, from: int, to: int) -> Seq<
    ImportCommandView,
> {
    Seq::new(
        (to - from) as nat,
        |i: int| ImportCommandView::Import { index: from + i, source: files[from + i].1 },
    )
}

/// The positions `from` up to `to`, in order.
pub open spec fn positions(from: int, to: int) -> Seq<int> {
    Seq::new((to - from) as nat, |i: int| from + i)
}

/// How many files the first batch holds.
pub open spec fn first_batch(job: ImportView) -> int {
    if job.files.len() <= job.limit {
        job.files.len() as int
    } else {
        job.limit
    }
}

/// The job after it has begun, and the commands that this calls for: the
/// start marker, then either the first batch of imports or, with no file at
/// all, the commit of the empty collection.
pub open spec fn begun(job: ImportView) -> (ImportView, Seq<ImportCommandView>) {
    if job.state != ImportState::Idle {
        (job, seq![])
    } else if job.files.len() == 0 {
        (
            ImportView { state: ImportState::Committing, ..job },
            seq![ImportCommandView::Emit(AppEventView::ImportStart), ImportCommandView::Commit],
        )
    } else {
        (
            ImportView {
                state: ImportState::Importing,
                started: first_batch(job),
                outstanding: positions(0, first_batch(job)),
                ..job
            },
            seq![ImportCommandView::Emit(AppEventView::ImportStart)] + import_batch(
                job.files,
                0,
                first_batch(job),
            ),
        )
    }
}

/// `index` is the position of a file whose import is under way.
pub open spec fn is_outstanding(job: ImportView, index: int) -> bool {
    exists|k: int| 0 <= k < job.outstanding.len() && #[trigger] job.outstanding[k] == index
}

/// Where `index` stands among the imports under way; meaningful when
/// `is_outstanding` holds.
pub open spec fn slot_of(job: ImportView, index: int) -> int {
    choose|k: int| 0 <= k < job.outstanding.len() && #[trigger] job.outstanding[k] == index
}

/// The job after the import at `index` has settled, and the command that
/// follows: the next file takes the free slot, or, when no file is left and
/// none is under way, the collection is committed.
pub open spec fn refilled(job: ImportView, index: int) -> (ImportView, Seq<ImportCommandView>) {
    let rest = job.outstanding.remove(slot_of(job, index));
    if job.started < job.files.len() {
        (
            ImportView { outstanding: rest.push(job.started), started: job.started + 1, ..job },
            seq![
                ImportCommandView::Import {
                    index: job.started,
                    source: job.files[job.started].1,
                },
            ],
        )
    } else if rest.len() == 0 {
        (
            ImportView { outstanding: rest, state: ImportState::Committing, ..job },
            seq![ImportCommandView::Commit],
        )
    } else {
        (ImportView { outstanding: rest, ..job }, seq![])
    }
}

/// An import-failure command with the given context and cause.
pub open spec fn import_failure(context: Seq<char>, cause: Seq<char>) -> ImportCommandView {
    ImportCommandView::Emit(AppEventView::FatalError(FaultView { context, cause: Some(cause) }))
}

/// The job after `report`, and the commands that it calls for, in order.
///
/// A report about a file that is not under way, or one that does not belong
/// to the job's state, changes nothing and calls for nothing.
pub open spec fn import_stepped(job: ImportView, report: ImportReportView) -> (
    ImportView,
    Seq<ImportCommandView>,
) {
    match (job.state, report) {
        (ImportState::Importing, ImportReportView::Imported { index, hash }) => {
            if is_outstanding(job, index) {
                refilled(
                    ImportView {
                        collection: recorded(job.collection, job.files[index].0, hash),
                        ..job
                    },
                    index,
                )
            } else {
                (job, seq![])
            }
        },
        (ImportState::Importing, ImportReportView::ImportFailed { index, cause }) => {
            if is_outstanding(job, index) {
                (
                    refilled(job, index).0,
                    seq![import_failure("Error importing "@ + job.files[index].0, cause)]
                        + refilled(job, index).1,
                )
            } else {
                (job, seq![])
            }
        },
        (ImportState::Committing, ImportReportView::Committed(hash)) => (
            ImportView { state: ImportState::Done, reference: Some(hash), ..job },
            seq![ImportCommandView::Emit(AppEventView::ImportDone)],
        ),
        (ImportState::Committing, ImportReportView::CommitFailed(cause)) => (
            ImportView { state: ImportState::Failed, ..job },
            seq![import_failure("Failed to import file(s)"@, cause)],
        ),
        _ => (job, seq![]),
    }
}

impl ImportJob {
    #[verifier::type_invariant]
    spec fn valid(&self) -> bool {
        &&& 1 <= self.limit
        &&& self.started <= self.files@.len()
        &&& self.outstanding@.len() <= self.limit
        &&& forall|k: int|
            0 <= k < self.outstanding@.len() ==> #[trigger] self.outstanding@[k] < self.started
        &&& forall|k: int, l: int|
            0 <= k < l < self.outstanding@.len() ==> self.outstanding@[k] != self.outstanding@[l]
        &&& self.state != ImportState::Importing ==> self.outstanding@.len() == 0
        &&& self.collection.wf()
    }

    /// A job for `files` with at most `limit` imports under way at once. A
    /// bound of zero is taken as one.
    pub fn new(files: Vec<FileRequest>, limit: usize) -> (job: ImportJob)
        ensures
            job@ == (ImportView {
                files: requests_view(files@),
                limit: if limit == 0 {
                    1
                } else {
                    limit as int
                },
                started: 0,
                outstanding: Seq::<int>::empty(),
                collection: Entries::empty(),
                state: ImportState::Idle,
                reference: None,
            }),
            within_bound(job@),
    {
        let job = ImportJob {
            files,
            limit: if limit == 0 {
                1
            } else {
                limit
            },
            started: 0,
            outstanding: Vec::new(),
            collection: Collection::new(),
            state: ImportState::Idle,
            reference: None,
        };
        assert(job@.outstanding =~= Seq::<int>::empty());
        job
    }

    /// A job for `files` with the default bound on concurrency.
    pub fn with_default_limit(files: Vec<FileRequest>) -> (job: ImportJob)
        ensures
            job@.files == requests_view(files@),
            job@.limit == DEFAULT_CONCURRENCY,
            job@.started == 0,
            job@.outstanding == Seq::<int>::empty(),
            job@.collection == Entries::empty(),
            job@.state == ImportState::Idle,
            job@.reference is None,
            within_bound(job@),
    {
        ImportJob::new(files, DEFAULT_CONCURRENCY)
    }

    /// Where the job stands.
    pub fn state(&self) -> (state: ImportState)
        ensures
            state == self@.state,
            within_bound(self@),
    {
        proof {
            use_type_invariant(self);
        }
        self.state
    }

    /// How many imports are under way.
    pub fn in_flight(&self) -> (count: usize)
        ensures
            count == self@.outstanding.len(),
            count <= self@.limit,
    {
        proof {
            use_type_invariant(self);
        }
        self.outstanding.len()
    }

    /// The files imported so far, in the order in which they finished.
    pub fn collection(&self) -> (collection: &Collection)
        ensures
            collection@ == self@.collection,
            collection.wf(),
    {
        proof {
            use_type_invariant(self);
        }
        &self.collection
    }

    /// The address of the committed collection, once the job is done.
    pub fn reference(&self) -> (reference: Option<ContentAddress>)
        ensures
            match reference {
                Some(hash) => self@.reference == Some(hash@),
                None => self@.reference is None,
            },
    {
        self.reference
    }

    /// Whether the committed collection holds nothing, so that there is
    /// nothing to send.
    pub fn nothing_to_send(&self) -> (nothing: bool)
        ensures
            nothing == (self@.collection.len() == 0),
    {
        self.collection.is_empty()
    }

    /// Begins an idle job. A job that has begun already is left as it is.
    pub fn begin(self) -> (next: (ImportJob, Vec<ImportCommand>))
        ensures
            next.0@ == begun(self@).0,
            import_commands_view(next.1@) == begun(self@).1,
            within_bound(self@),
            within_bound(next.0@),
    {
        proof {
            use_type_invariant(&self);
        }
        let ghost before = self@;
        let mut commands: Vec<ImportCommand> = Vec::new();
        if self.state != ImportState::Idle {
            assert(import_commands_view(commands@) =~= begun(before).1);
            return (self, commands);
        }
        commands.push(ImportCommand::Emit(AppEvent::ImportStart));
        if self.files.len() == 0 {
            commands.push(ImportCommand::Commit);
            assert(import_commands_view(commands@) =~= begun(before).1);
            return (ImportJob { state: ImportState::Committing, ..self }, commands);
        }
        let ImportJob { files, limit, started: _, outstanding: _, collection, state: _, reference } =
            self;
        let count = if files.len() <= limit {
            files.len()
        } else {
            limit
        };
        let mut outstanding: Vec<usize> = Vec::new();
        let mut i: usize = 0;
        while i < count
            invariant
                i <= count <= files@.len(),
                outstanding@.len() == i,
                forall|k: int| 0 <= k < i ==> outstanding@[k] == k,
                commands@.len() == i + 1,
                commands@[0]@ == ImportCommandView::Emit(AppEventView::ImportStart),
                forall|k: int|
                    0 <= k < i ==> (#[trigger] commands@[k + 1])@ == (ImportCommandView::Import {
                        index: k,
                        source: files@[k].source@,
                    }),
            decreases count - i,
        {
            commands.push(ImportCommand::Import { index: i, source: files[i].source.clone() });
            outstanding.push(i);
            i = i + 1;
        }
        let job = ImportJob {
            files,
            limit,
            started: count,
            outstanding,
            collection,
            state: ImportState::Importing,
            reference,
        };
        assert(job@.outstanding =~= positions(0, first_batch(before)));
        assert(job@ == begun(before).0);
        assert(import_commands_view(commands@) =~= begun(before).1) by {
            let expected = begun(before).1;
            assert(expected.len() == count + 1);
            assert forall|k: int| 0 <= k < expected.len() implies import_commands_view(
                commands@,
            )[k] == expected[k] by {
                if k > 0 {
                    assert(commands@[(k - 1) + 1]@ == expected[k]);
                }
            }
        }
        (job, commands)
    }

    /// Takes in one report and answers with the job's next state and the
    /// commands to carry out, in order.
    pub fn step(self, report: ImportReport) -> (next: (ImportJob, Vec<ImportCommand>))
        ensures
            next.0@ == import_stepped(self@, report@).0,
            import_commands_view(next.1@) == import_stepped(self@, report@).1,
            within_bound(self@),
            within_bound(next.0@),
    {
        proof {
            use_type_invariant(&self);
        }
        let ghost before = self@;
        let ghost seen = report@;
        match (self.state, report) {
            (ImportState::Importing, ImportReport::Imported { index, hash }) => {
                match self.slot(index) {
                    Some(slot) => {
                        let ImportJob {
                            files,
                            limit,
                            started,
                            outstanding,
                            mut collection,
                            state,
                            reference,
                        } = self;
                        collection.insert(files[index].name.clone(), hash);
                        let job = ImportJob {
                            files,
                            limit,
                            started,
                            outstanding,
                            collection,
                            state,
                            reference,
                        };
                        assert(job@ == (ImportView {
                            collection: recorded(
                                before.collection,
                                before.files[index as int].0,
                                hash@,
                            ),
                            ..before
                        }));
                        job.refill(index, slot, Vec::new())
                    },
                    None => self.ignore(),
                }
            },
            (ImportState::Importing, ImportReport::ImportFailed { index, cause }) => {
                match self.slot(index) {
                    Some(slot) => {
                        let context = concat("Error importing ", self.files[index].name.as_str());
                        let commands = vec![
                            ImportCommand::Emit(
                                AppEvent::FatalError(Fault::caused(context.as_str(), cause)),
                            ),
                        ];
                        assert(import_commands_view(commands@) =~= seq![
                            import_failure(
                                "Error importing "@ + before.files[index as int].0,
                                seen->ImportFailed_cause,
                            ),
                        ]);
                        self.refill(index, slot, commands)
                    },
                    None => self.ignore(),
                }
            },
            (ImportState::Committing, ImportReport::Committed(hash)) => {
                let job = ImportJob { state: ImportState::Done, reference: Some(hash), ..self };
                let commands = vec![ImportCommand::Emit(AppEvent::ImportDone)];
                assert(import_commands_view(commands@) =~= import_stepped(before, seen).1);
                (job, commands)
            },
            (ImportState::Committing, ImportReport::CommitFailed(cause)) => {
                let job = ImportJob { state: ImportState::Failed, ..self };
                let commands = vec![
                    ImportCommand::Emit(
                        AppEvent::FatalError(Fault::caused("Failed to import file(s)", cause)),
                    ),
                ];
                assert(import_commands_view(commands@) =~= import_stepped(before, seen).1);
                (job, commands)
            },
            _ => self.ignore(),
        }
    }

    /// Where `index` stands among the imports under way.
    fn slot(&self, index: usize) -> (found: Option<usize>)
        ensures
            found is Some <==> is_outstanding(self@, index as int),
            found matches Some(k) ==> k == slot_of(self@, index as int) && k
                < self@.outstanding.len() && index < self@.started,
            within_bound(self@),
    {
        proof {
            use_type_invariant(self);
        }
        let mut k: usize = 0;
        while k < self.outstanding.len()
            invariant
                k <= self.outstanding@.len(),
                self.valid(),
                within_bound(self@),
                forall|l: int| 0 <= l < k ==> self@.outstanding[l] != index,
                self@.outstanding.len() == self.outstanding@.len(),
                forall|l: int|
                    0 <= l < self.outstanding@.len() ==> #[trigger] self@.outstanding[l]
                        == self.outstanding@[l],
            decreases self.outstanding@.len() - k,
        {
            if self.outstanding[k] == index {
                proof {
                    assert(self@.outstanding[k as int] == index);
                    let chosen = slot_of(self@, index as int);
                    assert(self@.outstanding[chosen] == index);
                    if chosen < k {
                        assert(self.outstanding@[chosen] != self.outstanding@[k as int]);
                    }
                    if k < chosen {
                        assert(self.outstanding@[k as int] != self.outstanding@[chosen]);
                    }
                }
                return Some(k);
            }
            k = k + 1;
        }
        None
    }

    /// The job as it is, with nothing to do.
    fn ignore(self) -> (next: (ImportJob, Vec<ImportCommand>))
        ensures
            next.0@ == self@,
            import_commands_view(next.1@) == Seq::<ImportCommandView>::empty(),
            within_bound(self@),
    {
        proof {
            use_type_invariant(&self);
        }
        let commands: Vec<ImportCommand> = Vec::new();
        assert(import_commands_view(commands@) =~= Seq::<ImportCommandView>::empty());
        (self, commands)
    }

    /// Frees the slot of the import that has settled and decides what
    /// follows, after `said`.
    fn refill(self, index: usize, slot: usize, said: Vec<ImportCommand>) -> (next: (
        ImportJob,
        Vec<ImportCommand>,
    ))
        requires
            self@.state == ImportState::Importing,
            is_outstanding(self@, index as int),
            slot == slot_of(self@, index as int),
            slot < self@.outstanding.len(),
        ensures
            next.0@ == refilled(self@, index as int).0,
            import_commands_view(next.1@) == import_commands_view(said@) + refilled(
                self@,
                index as int,
            ).1,
            within_bound(self@),
            within_bound(next.0@),
    {
        proof {
            use_type_invariant(&self);
        }
        let ghost before = self@;
        let ghost spoken = import_commands_view(said@);
        let mut commands = said;
        let ImportJob { files, limit, started, mut outstanding, collection, state, reference } =
            self;
        let ghost waiting = outstanding@;
        outstanding.remove(slot);
        assert(Seq::new(outstanding@.len(), |i: int| outstanding@[i] as int)
            =~= before.outstanding.remove(slot as int));
        if started < files.len() {
            commands.push(ImportCommand::Import { index: started, source: files[started].source.clone() });
            outstanding.push(started);
            assert(Seq::new(outstanding@.len(), |i: int| outstanding@[i] as int)
                =~= before.outstanding.remove(slot as int).push(started as int));
            assert(import_commands_view(commands@) =~= spoken + refilled(before, index as int).1);
            let job = ImportJob {
                files,
                limit,
                started: started + 1,
                outstanding,
                collection,
                state,
                reference,
            };
            (job, commands)
        } else if outstanding.len() == 0 {
            commands.push(ImportCommand::Commit);
            assert(import_commands_view(commands@) =~= spoken + refilled(before, index as int).1);
            let job = ImportJob {
                files,
                limit,
                started,
                outstanding,
                collection,
                state: ImportState::Committing,
                reference,
            };
            (job, commands)
        } else {
            assert(import_commands_view(commands@) =~= spoken + refilled(before, index as int).1);
            let job = ImportJob { files, limit, started, outstanding, collection, state, reference };
            (job, commands)
        }
    }
}

} // verus!

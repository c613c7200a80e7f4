//! The vocabulary exchanged between the transfer coordinator and whoever
//! presents it to the user.

use vstd::prelude::*;
use crate::progress::Fraction;
use crate::text::{concat, texts};

verus! {

/// An error fit for showing to the user: what was being attempted, and the
/// underlying cause where one is known.
#[derive(Debug, PartialEq, Eq)]
pub struct Fault {
    pub context: String,
    pub cause: Option<String>,
}

/// A fault as mathematical values.
pub struct FaultView {
    pub context: Seq<char>,
    pub cause: Option<Seq<char>>,
}

impl View for Fault {
    type V = FaultView;

    open spec fn view(&self) -> FaultView {
        FaultView {
            context: self.context@,
            cause: match self.cause {
                Some(text) => Some(text@),
                None => None,
            },
        }
    }
}

/// The one-line rendering of a fault: the context, then a colon, a space and
/// the cause if there is one.
pub open spec fn described(fault: FaultView) -> Seq<char> {
    match fault.cause {
        Some(cause) => fault.context + ": "@ + cause,
        None => fault.context,
    }
}

impl Fault {
    /// A fault with no further cause.
    pub fn new(context: &str) -> (fault: Fault)
        ensures
            fault@ == (FaultView { context: context@, cause: None }),
    {
        Fault { context: context.to_owned(), cause: None }
    }

    /// A fault that wraps an underlying cause.
    pub fn caused(context: &str, cause: String) -> (fault: Fault)
        ensures
            fault@ == (FaultView { context: context@, cause: Some(cause@) }),
    {
        Fault { context: context.to_owned(), cause: Some(cause) }
    }

    /// The text shown to the user.
    pub fn describe(&self) -> (line: String)
        ensures
            line@ == described(self@),
    {
        match &self.cause {
            Some(cause) => {
                let head = concat(self.context.as_str(), ": ");
                concat(head.as_str(), cause.as_str())
            },
            None => self.context.clone(),
        }
    }

    /// A copy of the fault.
    pub fn duplicate(&self) -> (copy: Fault)
        ensures
            copy@ == self@,
    {
        Fault {
            context: self.context.clone(),
            cause: match &self.cause {
                Some(text) => Some(text.clone()),
                None => None,
            },
        }
    }
}

/// What the coordinator tells the user interface.
#[derive(Debug, PartialEq, Eq)]
pub enum AppEvent {
    /// Both the signalling socket and the content store are up.
    ReadyToPublishUser,
    /// The server accepted the registration; these peers were already online.
    RegisterSuccess(Vec<String>),
    /// A peer came online.
    AddNewUser(String),
    /// A peer went offline.
    RemoveUser(String),
    /// The user picked these files.
    ReceivedFile(Vec<String>),
    /// Share of the expected payload received so far.
    UpdateProgressValue(Fraction),
    ImportStart,
    ImportDone,
    /// Bytes are about to be fetched from a peer.
    DownloadStart,
    /// A peer offers the content behind this ticket.
    DownloadFile(String),
    /// No download is under way any more: the fetch has ended, or the job
    /// has, one way or the other. There is no progress to show after this.
    DownloadDone,
    /// Something went wrong; the process carries on.
    FatalError(Fault),
}

/// An event as mathematical values.
pub enum AppEventView {
    ReadyToPublishUser,
    RegisterSuccess(Seq<Seq<char>>),
    AddNewUser(Seq<char>),
    RemoveUser(Seq<char>),
    ReceivedFile(Seq<Seq<char>>),
    /// Numerator and denominator.
    UpdateProgressValue(int, int),
    ImportStart,
    ImportDone,
    DownloadStart,
    DownloadFile(Seq<char>),
    DownloadDone,
    FatalError(FaultView),
}

impl View for AppEvent {
    type V = AppEventView;

    open spec fn view(&self) -> AppEventView {
        match self {
            AppEvent::ReadyToPublishUser => AppEventView::ReadyToPublishUser,
            AppEvent::RegisterSuccess(users) => AppEventView::RegisterSuccess(texts(users@)),
            AppEvent::AddNewUser(name) => AppEventView::AddNewUser(name@),
            AppEvent::RemoveUser(name) => AppEventView::RemoveUser(name@),
            AppEvent::ReceivedFile(files) => AppEventView::ReceivedFile(texts(files@)),
            AppEvent::UpdateProgressValue(fraction) => AppEventView::UpdateProgressValue(
                fraction.num(),
                fraction.den(),
            ),
            AppEvent::ImportStart => AppEventView::ImportStart,
            AppEvent::ImportDone => AppEventView::ImportDone,
            AppEvent::DownloadStart => AppEventView::DownloadStart,
            AppEvent::DownloadFile(ticket) => AppEventView::DownloadFile(ticket@),
            AppEvent::DownloadDone => AppEventView::DownloadDone,
            AppEvent::FatalError(fault) => AppEventView::FatalError(fault@),
        }
    }
}

} // verus!

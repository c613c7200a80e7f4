//! The reference that lets a remote peer locate and fetch one collection.

use vstd::prelude::*;
use crate::collection::ContentAddress;

verus! {

/// How the content behind an address is to be read.
#[derive(Clone, Copy, Debug, PartialEq, Eq, Structural)]
pub enum BlobFormat {
    /// A single raw blob.
    Raw,
    /// A sequence of addresses: the descriptor of a collection.
    HashSeq,
}

/// A fetchable reference: the address of a collection, the format tag, and the
/// network identity of the peer that holds it.
#[derive(Debug, PartialEq, Eq)]
pub struct Ticket {
    pub hash: ContentAddress,
    pub format: BlobFormat,
    pub origin: String,
}

/// A ticket as mathematical values.
pub struct TicketView {
    pub hash: Seq<u8>,
    pub format: BlobFormat,
    pub origin: Seq<char>,
}

impl View for Ticket {
    type V = TicketView;

    open spec fn view(&self) -> TicketView {
        TicketView { hash: self.hash@, format: self.format, origin: self.origin@ }
    }
}

impl Ticket {
    /// The ticket that a peer at `origin` issues for the collection it has
    /// committed under `hash`.
    pub fn for_collection(origin: String, hash: ContentAddress) -> (ticket: Ticket)
        ensures
            ticket@ == (TicketView { hash: hash@, format: BlobFormat::HashSeq, origin: origin@ }),
    {
        Ticket { hash, format: BlobFormat::HashSeq, origin }
    }

    /// Whether the ticket addresses a collection rather than a single blob.
    pub fn recursive(&self) -> (is_collection: bool)
        ensures
            is_collection == (self@.format == BlobFormat::HashSeq),
    {
        self.format == BlobFormat::HashSeq
    }

    /// A copy of the ticket.
    pub fn duplicate(&self) -> (copy: Ticket)
        ensures
            copy@ == self@,
    {
        Ticket { hash: self.hash, format: self.format, origin: self.origin.clone() }
    }
}

} // verus!

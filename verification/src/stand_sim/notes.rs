//! What the simulator reports while it works: one note per line that the
//! stand prints to its operator.
use crate::interface::proto::gamestand::v1::{AbsClientPaymentId, PaymentKey};
use vstd::prelude::*;

verus! {

/// A report of the simulator.
#[derive(Debug)]
pub enum SimNote {
    /// The first payment request switched the card reader on.
    ReaderTurningOn,
    /// A payment request named a payment that is still held; it is sent again.
    AskMatchesPrevious,
    /// A payment request consumed a card tap and made a new payment.
    AskNewPayment,
    /// A release named a held payment, which is forgotten.
    ReleaseFound,
    /// A release named no known payment; nothing happens.
    ReleaseUnknown,
    /// A commit named a payment that was already released.
    CommitReleased(AbsClientPaymentId),
    /// A commit named a payment that was already committed.
    CommitAlreadyCommitted(AbsClientPaymentId),
    /// A commit named no known payment.
    CommitUnknown(AbsClientPaymentId),
    /// After a commit, this payment was not committed and is released.
    ReleasingUncommitted(AbsClientPaymentId),
    /// A card was tapped while the reader was off; the tap is ignored.
    ReaderNotOn,
    /// The reader timed out and is switched off.
    ReaderDeactivating,
}

/// The model of a [`SimNote`].
pub enum SimNoteView {
    ReaderTurningOn,
    AskMatchesPrevious,
    AskNewPayment,
    ReleaseFound,
    ReleaseUnknown,
    CommitReleased(PaymentKey),
    CommitAlreadyCommitted(PaymentKey),
    CommitUnknown(PaymentKey),
    ReleasingUncommitted(PaymentKey),
    ReaderNotOn,
    ReaderDeactivating,
}

impl View for SimNote {
    type V = SimNoteView;

    open spec fn view(&self) -> SimNoteView {
        match self {
            SimNote::ReaderTurningOn => SimNoteView::ReaderTurningOn,
            SimNote::AskMatchesPrevious => SimNoteView::AskMatchesPrevious,
            SimNote::AskNewPayment => SimNoteView::AskNewPayment,
            SimNote::ReleaseFound => SimNoteView::ReleaseFound,
            SimNote::ReleaseUnknown => SimNoteView::ReleaseUnknown,
            SimNote::CommitReleased(id) => SimNoteView::CommitReleased(id@),
            SimNote::CommitAlreadyCommitted(id) => SimNoteView::CommitAlreadyCommitted(id@),
            SimNote::CommitUnknown(id) => SimNoteView::CommitUnknown(id@),
            SimNote::ReleasingUncommitted(id) => SimNoteView::ReleasingUncommitted(id@),
            SimNote::ReaderNotOn => SimNoteView::ReaderNotOn,
            SimNote::ReaderDeactivating => SimNoteView::ReaderDeactivating,
        }
    }
}

/// The models of a list of notes.
pub open spec fn notes_view(notes: Seq<SimNote>) -> Seq<SimNoteView> {
    notes.map_values(|n: SimNote| n@)
}

/// Appending a note appends its model.
pub proof fn lemma_notes_push(notes: Seq<SimNote>, n: SimNote)
    ensures
        notes_view(notes.push(n)) == notes_view(notes).push(n@),
{
    assert(notes_view(notes.push(n)) =~= notes_view(notes).push(n@));
}

} // verus!

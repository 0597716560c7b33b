//! The mathematical model of the stand simulator: its state, and what each
//! event does to it.
use super::notes::SimNoteView;
use super::table::PaymentStateView;
use crate::interface::general::PlayerMetaView;
use crate::interface::proto::gamestand::v1::{PaymentKey, PaymentView};
use vstd::prelude::*;

verus! {

/// How long, in nanoseconds, the card reader may stay on ahead of the clock
/// before a tick switches it off.
pub const READER_TIMEOUT_NANOS: u64 = 2_000_000_000;

/// The model of the simulator.
pub struct StandSimView {
    /// A card was tapped and not yet used for a payment.
    pub tapped: bool,
    /// When the reader was last switched on (nanoseconds on the caller's
    /// monotonic clock), or `None` while it is off.
    pub reader_on: Option<u64>,
    /// Every payment the stand remembers, by id.
    pub payments: Map<PaymentKey, PaymentStateView>,
}

/// The player that every simulated payment is made by.
pub open spec fn anonymous_player_view() -> PlayerMetaView {
    PlayerMetaView {
        name: "名無し"@,
        three_letter_name: "nns"@,
        color_bits: seq![0x3f80_0000u32, 0u32, 0u32],
    }
}

/// The payment that the simulator makes for id `k`.
pub open spec fn new_payment_view(k: PaymentKey) -> PaymentView {
    PaymentView { client_payment_id: k, player_meta: anonymous_player_view() }
}

/// A payment just made for id `k`: neither released nor committed.
pub open spec fn fresh_state_view(k: PaymentKey) -> PaymentStateView {
    PaymentStateView { released: false, committed: false, payment: new_payment_view(k) }
}

/// Every remembered payment is the payment made for its own id.
pub open spec fn payments_canonical(m: Map<PaymentKey, PaymentStateView>) -> bool {
    forall|k: PaymentKey| #[trigger] m.contains_key(k) ==> m[k].payment == new_payment_view(k)
}

/// The stand holds a payment for `k` that was not released.
pub open spec fn holds_live(s: StandSimView, k: PaymentKey) -> bool {
    s.payments.contains_key(k) && !s.payments[k].released
}

// Ask payment

/// The state after a payment request for `k` at time `now`: the reader is
/// (re)started; a held payment is left as it is; otherwise a pending tap is
/// used up for a new payment under `k`.
pub open spec fn ask_next(s: StandSimView, k: PaymentKey, now: u64) -> StandSimView {
    if holds_live(s, k) {
        StandSimView { reader_on: Some(now), ..s }
    } else if s.tapped {
        StandSimView {
            tapped: false,
            reader_on: Some(now),
            payments: s.payments.insert(k, fresh_state_view(k)),
        }
    } else {
        StandSimView { reader_on: Some(now), ..s }
    }
}

/// The payment sent back for a payment request for `k`.
pub open spec fn ask_reply(s: StandSimView, k: PaymentKey) -> Option<PaymentView> {
    if holds_live(s, k) {
        Some(s.payments[k].payment)
    } else if s.tapped {
        Some(new_payment_view(k))
    } else {
        None
    }
}

/// The notes of a payment request for `k`.
pub open spec fn ask_notes(s: StandSimView, k: PaymentKey) -> Seq<SimNoteView> {
    (if s.reader_on is None {
        seq![SimNoteView::ReaderTurningOn]
    } else {
        Seq::empty()
    }) + (if holds_live(s, k) {
        seq![SimNoteView::AskMatchesPrevious]
    } else if s.tapped {
        seq![SimNoteView::AskNewPayment]
    } else {
        Seq::empty()
    })
}

// Release payment

/// The state after a release of `k`: the payment is forgotten.
pub open spec fn release_next(s: StandSimView, k: PaymentKey) -> StandSimView {
    StandSimView { payments: s.payments.remove(k), ..s }
}

/// The notes of a release of `k`.
pub open spec fn release_notes(s: StandSimView, k: PaymentKey) -> Seq<SimNoteView> {
    if s.payments.contains_key(k) {
        seq![SimNoteView::ReleaseFound]
    } else {
        seq![SimNoteView::ReleaseUnknown]
    }
}

// Commit/clear

/// Marks the payment under `k`, if there is one, committed.
pub open spec fn commit_one(m: Map<PaymentKey, PaymentStateView>, k: PaymentKey) -> Map<
    PaymentKey,
    PaymentStateView,
> {
    if m.contains_key(k) {
        m.insert(k, PaymentStateView { committed: true, ..m[k] })
    } else {
        m
    }
}

/// Marks each listed payment committed, in order.
pub open spec fn commit_all(m: Map<PaymentKey, PaymentStateView>, ks: Seq<PaymentKey>) -> Map<
    PaymentKey,
    PaymentStateView,
>
    decreases ks.len(),
{
    if ks.len() == 0 {
        m
    } else {
        commit_one(commit_all(m, ks.drop_last()), ks.last())
    }
}

/// The notes of committing `k` in table `m`.
pub open spec fn commit_one_notes(m: Map<PaymentKey, PaymentStateView>, k: PaymentKey) -> Seq<
    SimNoteView,
> {
    if m.contains_key(k) {
        (if m[k].released {
            seq![SimNoteView::CommitReleased(k)]
        } else {
            Seq::empty()
        }) + (if m[k].committed {
            seq![SimNoteView::CommitAlreadyCommitted(k)]
        } else {
            Seq::empty()
        })
    } else {
        seq![SimNoteView::CommitUnknown(k)]
    }
}

/// The notes of committing the listed payments, in order.
pub open spec fn commit_notes(m: Map<PaymentKey, PaymentStateView>, ks: Seq<PaymentKey>) -> Seq<
    SimNoteView,
>
    decreases ks.len(),
{
    if ks.len() == 0 {
        Seq::empty()
    } else {
        commit_notes(m, ks.drop_last()) + commit_one_notes(commit_all(m, ks.drop_last()), ks.last())
    }
}

/// A payment after the clearing step: released unless committed.
pub open spec fn clear_state(v: PaymentStateView) -> PaymentStateView {
    if v.committed {
        v
    } else {
        PaymentStateView { released: true, ..v }
    }
}

/// Releases every payment that is not committed.
pub open spec fn clear_uncommitted(m: Map<PaymentKey, PaymentStateView>) -> Map<
    PaymentKey,
    PaymentStateView,
> {
    m.map_values(|v: PaymentStateView| clear_state(v))
}

/// The state after a commit/clear request that lists `ks`.
pub open spec fn commit_clear_next(s: StandSimView, ks: Seq<PaymentKey>) -> StandSimView {
    StandSimView { payments: clear_uncommitted(commit_all(s.payments, ks)), ..s }
}

/// `notes` names, each exactly once, the payments of `m` that are not
/// committed, as being released.
pub open spec fn lists_uncommitted_once(
    notes: Seq<SimNoteView>,
    m: Map<PaymentKey, PaymentStateView>,
) -> bool {
    &&& forall|i: int|
        #![trigger notes[i]]
        0 <= i < notes.len() ==> (notes[i] matches SimNoteView::ReleasingUncommitted(k)
            && m.contains_key(k) && !m[k].committed)
    &&& forall|k: PaymentKey|
        #![trigger m[k]]
        m.contains_key(k) && !m[k].committed ==> exists|i: int|
            0 <= i < notes.len() && notes[i] == SimNoteView::ReleasingUncommitted(k)
    &&& forall|i: int, j: int|
        0 <= i < notes.len() && 0 <= j < notes.len() && i != j ==> notes[i] != notes[j]
}

// Card reader

/// The state after a card tap: remembered only while the reader is on.
pub open spec fn tap_next(s: StandSimView) -> StandSimView {
    if s.reader_on is None {
        s
    } else {
        StandSimView { tapped: true, ..s }
    }
}

/// The notes of a card tap.
pub open spec fn tap_notes(s: StandSimView) -> Seq<SimNoteView> {
    if s.reader_on is None {
        seq![SimNoteView::ReaderNotOn]
    } else {
        Seq::empty()
    }
}

/// The reader is due to switch off at time `now`: the time it was switched
/// on lies more than [`READER_TIMEOUT_NANOS`] after `now`.
pub open spec fn reader_expired(s: StandSimView, now: u64) -> bool {
    match s.reader_on {
        Some(t) => t - now > READER_TIMEOUT_NANOS,
        None => false,
    }
}

/// The state after a clock tick at `now`.
pub open spec fn tick_next(s: StandSimView, now: u64) -> StandSimView {
    if reader_expired(s, now) {
        StandSimView { tapped: false, reader_on: None, ..s }
    } else {
        s
    }
}

/// The notes of a clock tick at `now`.
pub open spec fn tick_notes(s: StandSimView, now: u64) -> Seq<SimNoteView> {
    if reader_expired(s, now) {
        seq![SimNoteView::ReaderDeactivating]
    } else {
        Seq::empty()
    }
}

// Events

/// One event of the simulator: a request of the stand protocol, a card tap,
/// or a clock tick.
pub enum SimEvent {
    /// A payment request for an id at a time.
    Ask(PaymentKey, u64),
    /// A release of an id.
    Release(PaymentKey),
    /// A commit/clear request listing ids.
    CommitClear(Seq<PaymentKey>),
    /// A card tap.
    Tap,
    /// A clock tick at a time.
    Tick(u64),
}

/// The state after one event.
pub open spec fn step(s: StandSimView, e: SimEvent) -> StandSimView {
    match e {
        SimEvent::Ask(k, now) => ask_next(s, k, now),
        SimEvent::Release(k) => release_next(s, k),
        SimEvent::CommitClear(ks) => commit_clear_next(s, ks),
        SimEvent::Tap => tap_next(s),
        SimEvent::Tick(now) => tick_next(s, now),
    }
}

/// The state after a sequence of events, in order.
pub open spec fn run(s: StandSimView, es: Seq<SimEvent>) -> StandSimView
    decreases es.len(),
{
    if es.len() == 0 {
        s
    } else {
        step(run(s, es.drop_last()), es.last())
    }
}

/// The event neither releases `k` nor is a commit/clear request.
pub open spec fn leaves_held(e: SimEvent, k: PaymentKey) -> bool {
    match e {
        SimEvent::Release(r) => r != k,
        SimEvent::CommitClear(_) => false,
        _ => true,
    }
}

} // verus!

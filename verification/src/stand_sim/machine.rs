//! The simulator's executable state machine.
use super::commit::{
    commit_clear_notes_ok, lemma_clear_canonical, lemma_commit_one_canonical, lemma_table_cleared,
    lemma_uncommitted_notes, uncommitted_notes,
};
use super::model::{
    clear_state, commit_all, commit_clear_next, commit_notes, commit_one, commit_one_notes,
    anonymous_player_view, ask_next, ask_notes, ask_reply, new_payment_view, payments_canonical,
    release_next, release_notes, tap_next, tap_notes, tick_next, tick_notes, StandSimView,
    step, SimEvent, READER_TIMEOUT_NANOS,
};
use super::notes::{lemma_notes_push, notes_view, SimNote, SimNoteView};
use super::table::{
    distinct_keys, find_row, key_at, lemma_table_at, lemma_table_push, lemma_table_remove,
    lemma_table_update, table_map, PaymentState, SeenPayment,
};
use crate::interface::general::PlayerMeta;
use crate::interface::proto::gamestand::GameStandReq;
use crate::interface::proto::gamestand::v1::{
    AbsClientPaymentId, Payment, PaymentKey, PaymentView, ReqAskPayment, ReqCommitClearPayments,
    ReqReleasePayment, Request, RespAskPayment,
};
use vstd::prelude::*;

verus! {

/// The models of an optional payment.
pub open spec fn opt_payment_view(p: Option<Payment>) -> Option<PaymentView> {
    match p {
        Some(p) => Some(p@),
        None => None,
    }
}

/// The models of a list of payment ids.
pub open spec fn keys_of(ids: Seq<AbsClientPaymentId>) -> Seq<PaymentKey> {
    ids.map_values(|id: AbsClientPaymentId| id@)
}

/// The event that a request of the stand protocol at time `now` is.
pub open spec fn request_event(req: GameStandReq, now: u64) -> SimEvent {
    match req {
        GameStandReq::V1(Request::AskPayment(q)) => SimEvent::Ask(q.client_payment_id@, now),
        GameStandReq::V1(Request::ReleasePayment(q)) => SimEvent::Release(q.client_payment_id@),
        GameStandReq::V1(Request::CommitClearPayments(q)) => SimEvent::CommitClear(
            keys_of(q.commit_payment_ids@),
        ),
    }
}

/// The player that every simulated payment is made by.
pub fn anonymous_player() -> (m: PlayerMeta)
    ensures
        m@ == anonymous_player_view(),
{
    let m = PlayerMeta {
        name: String::from_str("名無し"),
        three_letter_name: String::from_str("nns"),
        color_bits: [0x3f80_0000u32, 0u32, 0u32],
    };
    assert(m.color_bits@ =~= seq![0x3f80_0000u32, 0u32, 0u32]);
    m
}

/// The payment that the simulator makes for `id`.
pub fn new_payment(id: &AbsClientPaymentId) -> (p: Payment)
    ensures
        p@ == new_payment_view(id@),
{
    Payment { client_payment_id: id.duplicate(), player_meta: anonymous_player() }
}

/// What the stand sends back for a request (inside a successful
/// `gamestand::Response`).
pub enum StandReply {
    /// The reply to a payment request.
    AskPayment(RespAskPayment),
    /// The empty reply to a release or a commit/clear request.
    Unit,
}

/// The state of the stand simulator.
pub struct StandSim {
    tapped: bool,
    reader_on: Option<u64>,
    seen: Vec<SeenPayment>,
}

impl View for StandSim {
    type V = StandSimView;

    closed spec fn view(&self) -> StandSimView {
        StandSimView { tapped: self.tapped, reader_on: self.reader_on, payments: table_map(self.seen@) }
    }
}

impl StandSim {
    #[verifier::type_invariant]
    spec fn table_ok(&self) -> bool {
        &&& distinct_keys(self.seen@)
        &&& payments_canonical(table_map(self.seen@))
    }

    /// A stand with the reader off, no tap and no payments.
    pub fn new() -> (r: StandSim)
        ensures
            r@ == (StandSimView { tapped: false, reader_on: None, payments: Map::empty() }),
            payments_canonical(r@.payments),
    {
        let r = StandSim { tapped: false, reader_on: None, seen: Vec::new() };
        assert(table_map(r.seen@) =~= Map::empty());
        r
    }

    /// Takes the table out, leaving an empty one behind.
    fn take_rows(&mut self) -> (rows: Vec<SeenPayment>)
        ensures
            rows@ == old(self).seen@,
            final(self).seen@.len() == 0,
            final(self).tapped == old(self).tapped,
            final(self).reader_on == old(self).reader_on,
            distinct_keys(rows@),
            payments_canonical(table_map(rows@)),
    {
        proof {
            use_type_invariant(&*self);
        }
        let mut rows: Vec<SeenPayment> = Vec::new();
        proof {
            assert(distinct_keys(rows@));
            assert(table_map(rows@) =~= Map::empty());
        }
        std::mem::swap(&mut rows, &mut self.seen);
        rows
    }

    /// A payment request for `req.client_payment_id` at time `now`
    /// (nanoseconds on the caller's monotonic clock).
    pub fn ask_payment(&mut self, req: ReqAskPayment, now: u64) -> (r: (RespAskPayment, Vec<SimNote>))
        ensures
            final(self)@ == ask_next(old(self)@, req.client_payment_id@, now),
            opt_payment_view(r.0.payment) == ask_reply(old(self)@, req.client_payment_id@),
            notes_view(r.1@) == ask_notes(old(self)@, req.client_payment_id@),
            payments_canonical(final(self)@.payments),
    {
        let ghost s0 = self@;
        let id = req.client_payment_id;
        let ghost k = id@;
        let mut notes: Vec<SimNote> = Vec::new();
        if self.reader_on.is_none() {
            notes.push(SimNote::ReaderTurningOn);
        }
        let mut rows = self.take_rows();
        self.reader_on = Some(now);
        proof {
            assert(notes_view(notes@) =~= (if s0.reader_on is None {
                seq![SimNoteView::ReaderTurningOn]
            } else {
                Seq::empty()
            }));
        }
        match find_row(&rows, &id) {
            Some(i) => {
                proof {
                    lemma_table_at(rows@, i as int);
                }
                if !rows[i].state.released {
                    let p = rows[i].state.payment.duplicate();
                    proof {
                        lemma_notes_push(notes@, SimNote::AskMatchesPrevious);
                    }
                    notes.push(SimNote::AskMatchesPrevious);
                    self.seen = rows;
                    return (RespAskPayment { payment: Some(p) }, notes);
                }
            },
            None => {},
        }
        let got_payment = self.tapped;
        self.tapped = false;
        if got_payment {
            let payment = new_payment(&id);
            let state = PaymentState { released: false, committed: false, payment: new_payment(&id) };
            match find_row(&rows, &id) {
                Some(j) => {
                    let e = SeenPayment { id, state };
                    proof {
                        lemma_table_update(rows@, j as int, e);
                    }
                    rows.set(j, e);
                },
                None => {
                    let e = SeenPayment { id, state };
                    proof {
                        lemma_table_push(rows@, e);
                    }
                    rows.push(e);
                },
            }
            proof {
                lemma_notes_push(notes@, SimNote::AskNewPayment);
            }
            notes.push(SimNote::AskNewPayment);
            self.seen = rows;
            (RespAskPayment { payment: Some(payment) }, notes)
        } else {
            proof {
                assert(notes_view(notes@) =~= ask_notes(s0, k));
            }
            self.seen = rows;
            (RespAskPayment { payment: None }, notes)
        }
    }

    /// A release of `req.client_payment_id`.
    pub fn release_payment(&mut self, req: ReqReleasePayment) -> (notes: Vec<SimNote>)
        ensures
            final(self)@ == release_next(old(self)@, req.client_payment_id@),
            notes_view(notes@) == release_notes(old(self)@, req.client_payment_id@),
            payments_canonical(final(self)@.payments),
    {
        let mut rows = self.take_rows();
        match find_row(&rows, &req.client_payment_id) {
            Some(j) => {
                proof {
                    lemma_table_at(rows@, j as int);
                    lemma_table_remove(rows@, j as int);
                }
                rows.remove(j);
                self.seen = rows;
                let notes = vec![SimNote::ReleaseFound];
                proof {
                    assert(notes_view(notes@) =~= seq![SimNoteView::ReleaseFound]);
                }
                notes
            },
            None => {
                proof {
                    assert(table_map(rows@).remove(req.client_payment_id@) =~= table_map(rows@));
                }
                self.seen = rows;
                let notes = vec![SimNote::ReleaseUnknown];
                proof {
                    assert(notes_view(notes@) =~= seq![SimNoteView::ReleaseUnknown]);
                }
                notes
            },
        }
    }

    /// A commit/clear request: each listed payment is marked committed, then
    /// every payment not committed is released.
    pub fn commit_clear_payments(&mut self, req: ReqCommitClearPayments) -> (notes: Vec<SimNote>)
        ensures
            final(self)@ == commit_clear_next(old(self)@, keys_of(req.commit_payment_ids@)),
            commit_clear_notes_ok(
                notes_view(notes@),
                old(self)@.payments,
                keys_of(req.commit_payment_ids@),
            ),
            payments_canonical(final(self)@.payments),
    {
        let ghost s0 = self@;
        let ids = &req.commit_payment_ids;
        let ghost ks = keys_of(ids@);
        let ghost m0 = s0.payments;
        let mut rows = self.take_rows();
        let mut notes: Vec<SimNote> = Vec::new();
        let n_ids = ids.len();
        proof {
            assert(ks.take(0) =~= Seq::<PaymentKey>::empty());
            assert(notes_view(notes@) =~= Seq::empty());
        }
        for i in 0..n_ids
            invariant
                n_ids == ids.len(),
                ks == keys_of(ids@),
                distinct_keys(rows@),
                payments_canonical(table_map(rows@)),
                table_map(rows@) == commit_all(m0, ks.take(i as int)),
                notes_view(notes@) == commit_notes(m0, ks.take(i as int)),
        {
            let id = &ids[i];
            let ghost m = table_map(rows@);
            let ghost before = notes_view(notes@);
            proof {
                assert(ks.take(i + 1).drop_last() =~= ks.take(i as int));
                assert(ks.take(i + 1).last() == id@);
            }
            match find_row(&rows, id) {
                Some(j) => {
                    proof {
                        lemma_table_at(rows@, j as int);
                    }
                    let released = rows[j].state.released;
                    let committed = rows[j].state.committed;
                    if released {
                        let note = SimNote::CommitReleased(id.duplicate());
                        proof {
                            lemma_notes_push(notes@, note);
                        }
                        notes.push(note);
                    }
                    let ghost mid = notes_view(notes@);
                    if committed {
                        let note = SimNote::CommitAlreadyCommitted(id.duplicate());
                        proof {
                            lemma_notes_push(notes@, note);
                        }
                        notes.push(note);
                    }
                    proof {
                        assert(notes_view(notes@) =~= before + commit_one_notes(m, id@));
                    }
                    let e = SeenPayment {
                        id: rows[j].id.duplicate(),
                        state: PaymentState {
                            released,
                            committed: true,
                            payment: rows[j].state.payment.duplicate(),
                        },
                    };
                    proof {
                        lemma_table_update(rows@, j as int, e);
                        lemma_commit_one_canonical(m, id@);
                        assert(m.insert(id@, e.state@) =~= commit_one(m, id@));
                    }
                    rows.set(j, e);
                },
                None => {
                    let note = SimNote::CommitUnknown(id.duplicate());
                    proof {
                        lemma_notes_push(notes@, note);
                    }
                    notes.push(note);
                    proof {
                        assert(notes_view(notes@) =~= before + commit_one_notes(m, id@));
                    }
                },
            }
        }
        proof {
            assert(ks.take(n_ids as int) =~= ks);
        }
        let ghost s1 = rows@;
        let ghost base = notes_view(notes@);
        let n = rows.len();
        proof {
            assert(s1.take(0) =~= Seq::<SeenPayment>::empty());
            assert(base + uncommitted_notes(s1.take(0)) =~= base);
        }
        for j in 0..n
            invariant
                n == rows.len(),
                s1.len() == n,
                distinct_keys(s1),
                forall|t: int| 0 <= t < n ==> #[trigger] key_at(rows@, t) == key_at(s1, t),
                forall|t: int| 0 <= t < j ==> #[trigger] rows@[t].state@ == clear_state(s1[t].state@),
                forall|t: int| j <= t < n ==> #[trigger] rows@[t].state@ == s1[t].state@,
                notes_view(notes@) == base + uncommitted_notes(s1.take(j as int)),
        {
            proof {
                assert(s1.take(j + 1).drop_last() =~= s1.take(j as int));
                assert(s1.take(j + 1).last() == s1[j as int]);
                assert(key_at(rows@, j as int) == key_at(s1, j as int));
                assert(rows@[j as int].state@ == s1[j as int].state@);
            }
            if !rows[j].state.committed {
                let e = SeenPayment {
                    id: rows[j].id.duplicate(),
                    state: PaymentState {
                        released: true,
                        committed: false,
                        payment: rows[j].state.payment.duplicate(),
                    },
                };
                let note = SimNote::ReleasingUncommitted(rows[j].id.duplicate());
                proof {
                    lemma_notes_push(notes@, note);
                }
                notes.push(note);
                let ghost r0 = rows@;
                rows.set(j, e);
                proof {
                    assert forall|t: int| 0 <= t < n implies #[trigger] key_at(rows@, t) == key_at(
                        s1,
                        t,
                    ) by {
                        assert(key_at(r0, t) == key_at(s1, t));
                    }
                    assert forall|t: int| 0 <= t < j + 1 implies #[trigger] rows@[t].state@
                        == clear_state(s1[t].state@) by {
                        if t < j {
                            assert(r0[t].state@ == clear_state(s1[t].state@));
                        }
                    }
                    assert forall|t: int| j + 1 <= t < n implies #[trigger] rows@[t].state@
                        == s1[t].state@ by {
                        assert(r0[t].state@ == s1[t].state@);
                    }
                    assert(notes_view(notes@) =~= base + uncommitted_notes(s1.take(j + 1)));
                }
            } else {
                proof {
                    assert(uncommitted_notes(s1.take(j + 1)) =~= uncommitted_notes(s1.take(j as int)));
                    assert(clear_state(s1[j as int].state@) == s1[j as int].state@);
                }
            }
        }
        proof {
            assert(s1.take(n as int) =~= s1);
            lemma_table_cleared(s1, rows@);
            lemma_clear_canonical(table_map(s1));
            lemma_uncommitted_notes(s1);
            let all = notes_view(notes@);
            let c = commit_notes(m0, ks);
            assert(all.subrange(0, c.len() as int) =~= c);
            assert(all.subrange(c.len() as int, all.len() as int) =~= uncommitted_notes(s1));
        }
        self.seen = rows;
        notes
    }

    /// Serves one request of the stand protocol at time `now`
    /// (nanoseconds on the caller's monotonic clock).
    pub fn handle(&mut self, req: GameStandReq, now: u64) -> (r: (StandReply, Vec<SimNote>))
        ensures
            match req {
                GameStandReq::V1(Request::AskPayment(q)) => {
                    &&& final(self)@ == ask_next(old(self)@, q.client_payment_id@, now)
                    &&& r.0 matches StandReply::AskPayment(resp) && opt_payment_view(resp.payment)
                        == ask_reply(old(self)@, q.client_payment_id@)
                    &&& notes_view(r.1@) == ask_notes(old(self)@, q.client_payment_id@)
                },
                GameStandReq::V1(Request::ReleasePayment(q)) => {
                    &&& final(self)@ == release_next(old(self)@, q.client_payment_id@)
                    &&& r.0 is Unit
                    &&& notes_view(r.1@) == release_notes(old(self)@, q.client_payment_id@)
                },
                GameStandReq::V1(Request::CommitClearPayments(q)) => {
                    &&& final(self)@ == commit_clear_next(old(self)@, keys_of(q.commit_payment_ids@))
                    &&& r.0 is Unit
                    &&& commit_clear_notes_ok(
                        notes_view(r.1@),
                        old(self)@.payments,
                        keys_of(q.commit_payment_ids@),
                    )
                },
            },
            final(self)@ == step(old(self)@, request_event(req, now)),
            payments_canonical(final(self)@.payments),
    {
        match req {
            GameStandReq::V1(r) => match r {
                Request::AskPayment(q) => {
                    let (resp, notes) = self.ask_payment(q, now);
                    (StandReply::AskPayment(resp), notes)
                },
                Request::ReleasePayment(q) => {
                    let notes = self.release_payment(q);
                    (StandReply::Unit, notes)
                },
                Request::CommitClearPayments(q) => {
                    let notes = self.commit_clear_payments(q);
                    (StandReply::Unit, notes)
                },
            },
        }
    }

    /// A card tap by the operator.
    pub fn tap(&mut self) -> (notes: Vec<SimNote>)
        ensures
            final(self)@ == tap_next(old(self)@),
            final(self)@ == step(old(self)@, SimEvent::Tap),
            notes_view(notes@) == tap_notes(old(self)@),
            payments_canonical(final(self)@.payments),
    {
        proof {
            use_type_invariant(&*self);
        }
        if self.reader_on.is_none() {
            let notes = vec![SimNote::ReaderNotOn];
            proof {
                assert(notes_view(notes@) =~= seq![SimNoteView::ReaderNotOn]);
            }
            notes
        } else {
            self.tapped = true;
            let notes: Vec<SimNote> = Vec::new();
            proof {
                assert(notes_view(notes@) =~= Seq::empty());
            }
            notes
        }
    }

    /// A clock tick at `now` (nanoseconds on the caller's monotonic clock).
    pub fn tick(&mut self, now: u64) -> (notes: Vec<SimNote>)
        ensures
            final(self)@ == tick_next(old(self)@, now),
            final(self)@ == step(old(self)@, SimEvent::Tick(now)),
            notes_view(notes@) == tick_notes(old(self)@, now),
            payments_canonical(final(self)@.payments),
    {
        proof {
            use_type_invariant(&*self);
        }
        let expired = match self.reader_on {
            Some(t) => t > now && t - now > READER_TIMEOUT_NANOS,
            None => false,
        };
        if expired {
            self.reader_on = None;
            self.tapped = false;
            let notes = vec![SimNote::ReaderDeactivating];
            proof {
                assert(notes_view(notes@) =~= seq![SimNoteView::ReaderDeactivating]);
            }
            notes
        } else {
            let notes: Vec<SimNote> = Vec::new();
            proof {
                assert(notes_view(notes@) =~= Seq::empty());
            }
            notes
        }
    }
}

} // verus!

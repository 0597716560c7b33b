//! What holds of the simulator over sequences of events.
use super::model::{
    ask_next, ask_reply, clear_uncommitted, commit_all, commit_clear_next, commit_one,
    fresh_state_view, holds_live, leaves_held, new_payment_view, payments_canonical, release_next,
    run, step, tap_next, tick_next, SimEvent, StandSimView,
};
use super::table::PaymentStateView;
use crate::interface::proto::gamestand::v1::PaymentKey;
use vstd::prelude::*;

verus! {

/// Committing a list of ids marks committed exactly the listed payments that
/// the table holds, and changes nothing else.
pub proof fn lemma_commit_all_direct(m: Map<PaymentKey, PaymentStateView>, ks: Seq<PaymentKey>)
    ensures
        commit_all(m, ks).dom() == m.dom(),
        forall|k: PaymentKey|
            #[trigger] m.contains_key(k) ==> commit_all(m, ks)[k] == (PaymentStateView {
                committed: m[k].committed || ks.contains(k),
                ..m[k]
            }),
    decreases ks.len(),
{
    if ks.len() > 0 {
        let p = ks.drop_last();
        let last = ks.last();
        lemma_commit_all_direct(m, p);
        let c = commit_all(m, p);
        assert(commit_all(m, ks) == commit_one(c, last));
        assert forall|k: PaymentKey| #[trigger] ks.contains(k) == (p.contains(k) || k == last) by {
            if ks.contains(k) {
                let i = choose|i: int| 0 <= i < ks.len() && ks[i] == k;
                if i < ks.len() - 1 {
                    assert(p[i] == k);
                }
            }
            if p.contains(k) {
                let i = choose|i: int| 0 <= i < p.len() && p[i] == k;
                assert(ks[i] == k);
            }
            if k == last {
                assert(ks[ks.len() - 1] == k);
            }
        }
        if c.contains_key(last) {
            assert(commit_one(c, last).dom() =~= m.dom());
        }
    }
}

/// Asking twice in a row under an id that gets a payment gives the same
/// payment back and uses up no second card tap.
pub proof fn law_ask_again_same_payment(s: StandSimView, k: PaymentKey, first: u64, second: u64)
    requires
        ask_reply(s, k) is Some,
    ensures
        ask_reply(ask_next(s, k, first), k) == ask_reply(s, k),
        ask_next(ask_next(s, k, first), k, second).payments == ask_next(s, k, first).payments,
        ask_next(ask_next(s, k, first), k, second).tapped == ask_next(s, k, first).tapped,
{
    let s1 = ask_next(s, k, first);
    if !holds_live(s, k) {
        assert(s1.payments.contains_key(k));
        assert(s1.payments[k] == fresh_state_view(k));
    }
}

/// An event that neither releases `k` nor commits/clears leaves a held
/// payment under `k` held and unchanged.
pub proof fn lemma_step_keeps_held(s: StandSimView, e: SimEvent, k: PaymentKey)
    requires
        holds_live(s, k),
        leaves_held(e, k),
    ensures
        holds_live(step(s, e), k),
        step(s, e).payments[k] == s.payments[k],
{
}

/// Events that neither release `k` nor commit/clear leave a held payment
/// under `k` held and unchanged.
pub proof fn lemma_run_keeps_held(s: StandSimView, es: Seq<SimEvent>, k: PaymentKey)
    requires
        holds_live(s, k),
        forall|i: int| 0 <= i < es.len() ==> leaves_held(#[trigger] es[i], k),
    ensures
        holds_live(run(s, es), k),
        run(s, es).payments[k] == s.payments[k],
    decreases es.len(),
{
    if es.len() > 0 {
        let p = es.drop_last();
        assert forall|i: int| 0 <= i < p.len() implies leaves_held(#[trigger] p[i], k) by {
            assert(p[i] == es[i]);
        }
        lemma_run_keeps_held(s, p, k);
        assert(leaves_held(es[es.len() - 1], k));
        lemma_step_keeps_held(run(s, p), es.last(), k);
    }
}

/// Retrying a payment request gives back the payment of the first answer
/// and uses up no card tap, whatever card taps, clock ticks, requests for
/// this or other ids and releases of other ids came in between (as long as
/// no release of this id and no commit/clear did).
pub proof fn law_retry_same_payment(
    s: StandSimView,
    k: PaymentKey,
    first: u64,
    between: Seq<SimEvent>,
    again: u64,
)
    requires
        ask_reply(s, k) is Some,
        forall|i: int| 0 <= i < between.len() ==> leaves_held(#[trigger] between[i], k),
    ensures
        ask_reply(run(ask_next(s, k, first), between), k) == ask_reply(s, k),
        ask_next(run(ask_next(s, k, first), between), k, again).payments == run(
            ask_next(s, k, first),
            between,
        ).payments,
        ask_next(run(ask_next(s, k, first), between), k, again).tapped == run(
            ask_next(s, k, first),
            between,
        ).tapped,
{
    let s1 = ask_next(s, k, first);
    if !holds_live(s, k) {
        assert(s1.payments.contains_key(k));
        assert(s1.payments[k] == fresh_state_view(k));
    }
    assert(holds_live(s1, k));
    lemma_run_keeps_held(s1, between, k);
}

/// Every payment sent back is the payment made for the id that was asked for.
pub proof fn law_reply_names_request(s: StandSimView, k: PaymentKey)
    requires
        payments_canonical(s.payments),
    ensures
        ask_reply(s, k) matches Some(p) ==> p == new_payment_view(k) && p.client_payment_id == k,
{
}

/// A card tap pays for at most one new payment: after a payment request the
/// tap is used up, unless the request was answered with a payment already held.
pub proof fn law_one_tap_one_payment(s: StandSimView, k: PaymentKey, now: u64)
    ensures
        ask_next(s, k, now).tapped == (s.tapped && holds_live(s, k)),
        ask_next(s, k, now).reader_on == Some(now),
{
}

/// Every event keeps each remembered payment the payment made for its own id.
pub proof fn law_events_keep_payments_canonical(
    s: StandSimView,
    k: PaymentKey,
    ks: Seq<PaymentKey>,
    now: u64,
)
    requires
        payments_canonical(s.payments),
    ensures
        payments_canonical(ask_next(s, k, now).payments),
        payments_canonical(release_next(s, k).payments),
        payments_canonical(commit_clear_next(s, ks).payments),
        payments_canonical(tap_next(s).payments),
        payments_canonical(tick_next(s, now).payments),
{
    lemma_commit_all_direct(s.payments, ks);
    let m = commit_all(s.payments, ks);
    assert forall|q: PaymentKey| #[trigger] m.contains_key(q) implies m[q].payment
        == new_payment_view(q) by {
        assert(s.payments.contains_key(q));
    }
}

/// After a release, the stand no longer holds the payment: asking again
/// gives a new payment if a card is tapped, and nothing otherwise.
pub proof fn law_release_forgets(s: StandSimView, k: PaymentKey)
    ensures
        !release_next(s, k).payments.contains_key(k),
        ask_reply(release_next(s, k), k) == (if s.tapped {
            Some(new_payment_view(k))
        } else {
            None
        }),
{
}

/// After a commit/clear, every payment is committed or released: committed
/// exactly when it was committed before or is listed, released when it was
/// released before or is not committed. No payment appears or disappears.
pub proof fn law_commit_clear_settles(s: StandSimView, ks: Seq<PaymentKey>)
    ensures
        commit_clear_next(s, ks).payments.dom() == s.payments.dom(),
        forall|k: PaymentKey| #[trigger]
            commit_clear_next(s, ks).payments.contains_key(k) ==> {
                let v = commit_clear_next(s, ks).payments[k];
                &&& v.committed == (s.payments[k].committed || ks.contains(k))
                &&& v.released == (s.payments[k].released || !v.committed)
                &&& v.payment == s.payments[k].payment
                &&& v.committed || v.released
            },
{
    lemma_commit_all_direct(s.payments, ks);
    let m = commit_all(s.payments, ks);
    assert(clear_uncommitted(m).dom() =~= m.dom());
}

/// A card tap while the reader is off changes nothing.
pub proof fn law_tap_needs_reader(s: StandSimView)
    ensures
        s.reader_on is None ==> tap_next(s) == s,
        s.reader_on is Some ==> tap_next(s).tapped,
{
}

/// A clock tick never switches off a reader that was switched on at or before
/// the tick's time: only a switch-on time lying more than the timeout after
/// the tick does.
pub proof fn law_tick_keeps_reader_started_earlier(s: StandSimView, now: u64)
    requires
        s.reader_on matches Some(t) && t <= now,
    ensures
        tick_next(s, now) == s,
{
}

} // verus!

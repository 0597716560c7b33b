//! Facts about the commit/clear step on the table of payments.
use super::model::{
    clear_state, clear_uncommitted, commit_all, commit_notes, commit_one, lists_uncommitted_once,
    payments_canonical,
};
use super::notes::SimNoteView;
use super::table::{
    distinct_keys, holds_key, key_at, lemma_distinct_from_rows, lemma_table_at, table_map,
    SeenPayment,
};
use crate::interface::proto::gamestand::v1::PaymentKey;
use super::table::PaymentStateView;
use vstd::prelude::*;

verus! {

/// The release notes of the clearing step, in row order.
pub open spec fn uncommitted_notes(s: Seq<SeenPayment>) -> Seq<SimNoteView>
    decreases s.len(),
{
    if s.len() == 0 {
        Seq::empty()
    } else {
        uncommitted_notes(s.drop_last()) + (if !s.last().state.committed {
            seq![SimNoteView::ReleasingUncommitted(s.last().id@)]
        } else {
            Seq::empty()
        })
    }
}

/// The notes of a commit/clear request that lists `ks` in table `m`: first
/// the notes of committing each listed id, in order, then one release note
/// for each payment left uncommitted, in an order that is not fixed.
pub open spec fn commit_clear_notes_ok(
    notes: Seq<SimNoteView>,
    m: Map<PaymentKey, PaymentStateView>,
    ks: Seq<PaymentKey>,
) -> bool {
    let c = commit_notes(m, ks);
    &&& c.len() <= notes.len()
    &&& notes.subrange(0, c.len() as int) == c
    &&& lists_uncommitted_once(notes.subrange(c.len() as int, notes.len() as int), commit_all(m, ks))
}

/// The release notes name each uncommitted row once, by its key.
proof fn lemma_uncommitted_notes_rows(s: Seq<SeenPayment>)
    requires
        distinct_keys(s),
    ensures
        forall|i: int|
            #![trigger uncommitted_notes(s)[i]]
            0 <= i < uncommitted_notes(s).len() ==> exists|t: int|
                0 <= t < s.len() && !s[t].state.committed && uncommitted_notes(s)[i]
                    == SimNoteView::ReleasingUncommitted(#[trigger] key_at(s, t)),
        forall|t: int|
            #![trigger key_at(s, t)]
            0 <= t < s.len() && !s[t].state.committed ==> exists|i: int|
                0 <= i < uncommitted_notes(s).len() && uncommitted_notes(s)[i]
                    == SimNoteView::ReleasingUncommitted(key_at(s, t)),
        forall|i: int, j: int|
            0 <= i < uncommitted_notes(s).len() && 0 <= j < uncommitted_notes(s).len() && i != j
                ==> uncommitted_notes(s)[i] != uncommitted_notes(s)[j],
    decreases s.len(),
{
    if s.len() > 0 {
        let p = s.drop_last();
        let n = s.len() - 1;
        assert forall|t: int| 0 <= t < p.len() implies key_at(p, t) == key_at(s, t) by {}
        lemma_distinct_from_rows(s, p, |a: int| a);
        lemma_uncommitted_notes_rows(p);
        let up = uncommitted_notes(p);
        let u = uncommitted_notes(s);
        let tail = if !s.last().state.committed {
            seq![SimNoteView::ReleasingUncommitted(s.last().id@)]
        } else {
            Seq::empty()
        };
        assert(u == up + tail);
        assert(key_at(s, n) == s.last().id@);
        assert forall|i: int| #![trigger u[i]] 0 <= i < u.len() implies exists|t: int|
            0 <= t < s.len() && !s[t].state.committed && u[i]
                == SimNoteView::ReleasingUncommitted(#[trigger] key_at(s, t)) by {
            if i < up.len() {
                assert(u[i] == up[i]);
                let t = choose|t: int|
                    0 <= t < p.len() && !p[t].state.committed && up[i]
                        == SimNoteView::ReleasingUncommitted(#[trigger] key_at(p, t));
                assert(key_at(p, t) == key_at(s, t));
                assert(p[t] == s[t]);
            } else {
                assert(u[i] == tail[0]);
                assert(key_at(s, n) == s.last().id@);
            }
        }
        assert forall|t: int|
            #![trigger key_at(s, t)]
            0 <= t < s.len() && !s[t].state.committed implies exists|i: int|
                0 <= i < u.len() && u[i] == SimNoteView::ReleasingUncommitted(key_at(s, t)) by {
            if t < n {
                assert(key_at(p, t) == key_at(s, t));
                assert(p[t] == s[t]);
                let i = choose|i: int|
                    0 <= i < up.len() && up[i] == SimNoteView::ReleasingUncommitted(key_at(p, t));
                assert(u[i] == up[i]);
            } else {
                assert(u[up.len() as int] == tail[0]);
            }
        }
        assert forall|i: int, j: int|
            0 <= i < u.len() && 0 <= j < u.len() && i != j implies u[i] != u[j] by {
            if i < up.len() && j < up.len() {
                assert(u[i] == up[i]);
                assert(u[j] == up[j]);
            } else if i < up.len() {
                assert(u[i] == up[i]);
                let t = choose|t: int|
                    0 <= t < p.len() && !p[t].state.committed && up[i]
                        == SimNoteView::ReleasingUncommitted(#[trigger] key_at(p, t));
                assert(key_at(p, t) == key_at(s, t));
                assert(key_at(s, t) != key_at(s, n));
            } else if j < up.len() {
                assert(u[j] == up[j]);
                let t = choose|t: int|
                    0 <= t < p.len() && !p[t].state.committed && up[j]
                        == SimNoteView::ReleasingUncommitted(#[trigger] key_at(p, t));
                assert(key_at(p, t) == key_at(s, t));
                assert(key_at(s, t) != key_at(s, n));
            }
        }
    }
}

/// The release notes of the clearing step name, once each, the payments of
/// the table that are not committed.
pub proof fn lemma_uncommitted_notes(s: Seq<SeenPayment>)
    requires
        distinct_keys(s),
    ensures
        lists_uncommitted_once(uncommitted_notes(s), table_map(s)),
{
    lemma_uncommitted_notes_rows(s);
    let u = uncommitted_notes(s);
    let m = table_map(s);
    assert forall|i: int| #![trigger u[i]] 0 <= i < u.len() implies (u[i] matches SimNoteView::ReleasingUncommitted(k)
        && m.contains_key(k) && !m[k].committed) by {
        let t = choose|t: int|
            0 <= t < s.len() && !s[t].state.committed && u[i]
                == SimNoteView::ReleasingUncommitted(#[trigger] key_at(s, t));
        lemma_table_at(s, t);
    }
    assert forall|k: PaymentKey| #![trigger m[k]] m.contains_key(k) && !m[k].committed implies exists|i: int|
        0 <= i < u.len() && u[i] == SimNoteView::ReleasingUncommitted(k) by {
        assert(holds_key(s, k));
        let t = choose|t: int| 0 <= t < s.len() && #[trigger] key_at(s, t) == k;
        lemma_table_at(s, t);
    }
}

/// Rows with the same keys whose states were each cleared read as the
/// cleared table.
pub proof fn lemma_table_cleared(s1: Seq<SeenPayment>, s2: Seq<SeenPayment>)
    requires
        distinct_keys(s1),
        s2.len() == s1.len(),
        forall|t: int| 0 <= t < s1.len() ==> #[trigger] key_at(s2, t) == key_at(s1, t),
        forall|t: int| 0 <= t < s1.len() ==> #[trigger] s2[t].state@ == clear_state(s1[t].state@),
    ensures
        distinct_keys(s2),
        table_map(s2) == clear_uncommitted(table_map(s1)),
{
    lemma_distinct_from_rows(s1, s2, |a: int| a);
    let m = clear_uncommitted(table_map(s1));
    assert forall|k: PaymentKey| #[trigger] table_map(s2).contains_key(k) == m.contains_key(k) by {
        if holds_key(s2, k) {
            let i = choose|i: int| 0 <= i < s2.len() && #[trigger] key_at(s2, i) == k;
            assert(key_at(s1, i) == k);
        }
        if holds_key(s1, k) {
            let i = choose|i: int| 0 <= i < s1.len() && #[trigger] key_at(s1, i) == k;
            assert(key_at(s2, i) == k);
        }
    }
    assert forall|k: PaymentKey| #[trigger] table_map(s2).contains_key(k) implies table_map(s2)[k]
        == m[k] by {
        let i = choose|i: int| 0 <= i < s2.len() && #[trigger] key_at(s2, i) == k;
        lemma_table_at(s2, i);
        assert(key_at(s1, i) == k);
        lemma_table_at(s1, i);
        assert(s2[i].state@ == clear_state(s1[i].state@));
    }
    assert(table_map(s2) =~= m);
}

/// Committing keeps every payment the one made for its id.
pub proof fn lemma_commit_one_canonical(m: Map<PaymentKey, PaymentStateView>, k: PaymentKey)
    requires
        payments_canonical(m),
    ensures
        payments_canonical(commit_one(m, k)),
{
}

/// Clearing keeps every payment the one made for its id.
pub proof fn lemma_clear_canonical(m: Map<PaymentKey, PaymentStateView>)
    requires
        payments_canonical(m),
    ensures
        payments_canonical(clear_uncommitted(m)),
{
}

} // verus!

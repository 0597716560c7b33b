//! The table of payments that the stand has seen, kept as a vector of
//! entries whose keys are pairwise distinct, and read as a map.
use crate::interface::proto::gamestand::v1::{AbsClientPaymentId, Payment, PaymentKey, PaymentView};
use vstd::prelude::*;

verus! {

/// What the stand remembers of one payment.
#[derive(Clone)]
pub struct PaymentState {
    pub released: bool,
    pub committed: bool,
    pub payment: Payment,
}

/// The model of a [`PaymentState`].
pub struct PaymentStateView {
    pub released: bool,
    pub committed: bool,
    pub payment: PaymentView,
}

impl View for PaymentState {
    type V = PaymentStateView;

    open spec fn view(&self) -> PaymentStateView {
        PaymentStateView {
            released: self.released,
            committed: self.committed,
            payment: self.payment@,
        }
    }
}

impl PaymentState {
    /// A field-by-field copy.
    pub fn duplicate(&self) -> (r: PaymentState)
        ensures
            r@ == self@,
    {
        PaymentState {
            released: self.released,
            committed: self.committed,
            payment: self.payment.duplicate(),
        }
    }
}

/// One row of the table: a payment id and what is remembered of it.
pub struct SeenPayment {
    pub id: AbsClientPaymentId,
    pub state: PaymentState,
}

/// The key of row `i`.
pub open spec fn key_at(s: Seq<SeenPayment>, i: int) -> PaymentKey {
    s[i].id@
}

/// Whether some row has key `k`.
pub open spec fn holds_key(s: Seq<SeenPayment>, k: PaymentKey) -> bool {
    exists|i: int| 0 <= i < s.len() && #[trigger] key_at(s, i) == k
}

/// No two rows share a key.
pub open spec fn distinct_keys(s: Seq<SeenPayment>) -> bool {
    forall|i: int, j: int|
        0 <= i < s.len() && 0 <= j < s.len() && i != j ==> #[trigger] key_at(s, i) != #[trigger] key_at(
            s,
            j,
        )
}

/// The rows read as a map from key to remembered state.
pub open spec fn table_map(s: Seq<SeenPayment>) -> Map<PaymentKey, PaymentStateView> {
    Map::new(
        |k: PaymentKey| holds_key(s, k),
        |k: PaymentKey| s[choose|i: int| 0 <= i < s.len() && #[trigger] key_at(s, i) == k].state@,
    )
}

/// With distinct keys, the map gives row `i`'s state at row `i`'s key.
pub proof fn lemma_table_at(s: Seq<SeenPayment>, i: int)
    requires
        distinct_keys(s),
        0 <= i < s.len(),
    ensures
        table_map(s).contains_key(key_at(s, i)),
        table_map(s)[key_at(s, i)] == s[i].state@,
{
    let k = key_at(s, i);
    assert(holds_key(s, k));
    let j = choose|j: int| 0 <= j < s.len() && #[trigger] key_at(s, j) == k;
    assert(j == i);
}

/// Rows that repeat the keys of distinct rows of a table with distinct keys
/// have distinct keys too: row `a` of `s2` has the key of row `from(a)` of `s`.
pub proof fn lemma_distinct_from_rows(
    s: Seq<SeenPayment>,
    s2: Seq<SeenPayment>,
    from: spec_fn(int) -> int,
)
    requires
        distinct_keys(s),
        forall|a: int|
            0 <= a < s2.len() ==> 0 <= #[trigger] from(a) < s.len() && key_at(s2, a) == key_at(
                s,
                from(a),
            ),
        forall|a: int, b: int|
            0 <= a < s2.len() && 0 <= b < s2.len() && a != b ==> #[trigger] from(a) != #[trigger] from(
                b,
            ),
    ensures
        distinct_keys(s2),
{
    assert forall|a: int, b: int|
        0 <= a < s2.len() && 0 <= b < s2.len() && a != b implies #[trigger] key_at(s2, a)
        != #[trigger] key_at(s2, b) by {
        assert(from(a) != from(b));
        assert(key_at(s2, a) == key_at(s, from(a)));
        assert(key_at(s2, b) == key_at(s, from(b)));
    }
}

/// Replacing a row's state (same key) writes that state into the map.
pub proof fn lemma_table_update(s: Seq<SeenPayment>, j: int, e: SeenPayment)
    requires
        distinct_keys(s),
        0 <= j < s.len(),
        e.id@ == key_at(s, j),
    ensures
        distinct_keys(s.update(j, e)),
        table_map(s.update(j, e)) == table_map(s).insert(e.id@, e.state@),
{
    let s2 = s.update(j, e);
    assert forall|i: int| 0 <= i < s.len() implies key_at(s2, i) == key_at(s, i) by {}
    lemma_distinct_from_rows(s, s2, |a: int| a);
    let m = table_map(s).insert(e.id@, e.state@);
    assert forall|k: PaymentKey| #[trigger] table_map(s2).contains_key(k) == m.contains_key(k) by {
        if holds_key(s2, k) {
            let i = choose|i: int| 0 <= i < s2.len() && #[trigger] key_at(s2, i) == k;
            assert(key_at(s, i) == k);
        }
        if holds_key(s, k) {
            let i = choose|i: int| 0 <= i < s.len() && #[trigger] key_at(s, i) == k;
            assert(key_at(s2, i) == k);
        }
        if k == e.id@ {
            assert(key_at(s2, j) == k);
        }
    }
    assert forall|k: PaymentKey| #[trigger] table_map(s2).contains_key(k) implies table_map(s2)[k]
        == m[k] by {
        let i = choose|i: int| 0 <= i < s2.len() && #[trigger] key_at(s2, i) == k;
        lemma_table_at(s2, i);
        if i == j {
        } else {
            assert(key_at(s, i) == k);
            lemma_table_at(s, i);
        }
    }
    assert(table_map(s2) =~= m);
}

/// Appending a row with a new key inserts it into the map.
pub proof fn lemma_table_push(s: Seq<SeenPayment>, e: SeenPayment)
    requires
        distinct_keys(s),
        !holds_key(s, e.id@),
    ensures
        distinct_keys(s.push(e)),
        table_map(s.push(e)) == table_map(s).insert(e.id@, e.state@),
{
    let s2 = s.push(e);
    let n = s.len() as int;
    assert forall|i: int| 0 <= i < s.len() implies key_at(s2, i) == key_at(s, i) by {}
    assert(key_at(s2, n) == e.id@);
    assert(distinct_keys(s2)) by {
        assert forall|a: int, b: int|
            0 <= a < s2.len() && 0 <= b < s2.len() && a != b implies #[trigger] key_at(s2, a)
            != #[trigger] key_at(s2, b) by {
            if a < n && b < n {
                assert(key_at(s2, a) == key_at(s, a));
                assert(key_at(s2, b) == key_at(s, b));
            } else if a < n {
                assert(key_at(s2, a) == key_at(s, a));
            } else {
                assert(key_at(s2, b) == key_at(s, b));
            }
        }
    }
    let m = table_map(s).insert(e.id@, e.state@);
    assert forall|k: PaymentKey| #[trigger] table_map(s2).contains_key(k) == m.contains_key(k) by {
        if holds_key(s2, k) {
            let i = choose|i: int| 0 <= i < s2.len() && #[trigger] key_at(s2, i) == k;
            if i < n {
                assert(key_at(s, i) == k);
            }
        }
        if holds_key(s, k) {
            let i = choose|i: int| 0 <= i < s.len() && #[trigger] key_at(s, i) == k;
            assert(key_at(s2, i) == k);
        }
    }
    assert forall|k: PaymentKey| #[trigger] table_map(s2).contains_key(k) implies table_map(s2)[k]
        == m[k] by {
        let i = choose|i: int| 0 <= i < s2.len() && #[trigger] key_at(s2, i) == k;
        lemma_table_at(s2, i);
        if i < n {
            assert(key_at(s, i) == k);
            lemma_table_at(s, i);
        }
    }
    assert(table_map(s2) =~= m);
}

/// Removing a row removes its key from the map.
pub proof fn lemma_table_remove(s: Seq<SeenPayment>, j: int)
    requires
        distinct_keys(s),
        0 <= j < s.len(),
    ensures
        distinct_keys(s.remove(j)),
        table_map(s.remove(j)) == table_map(s).remove(key_at(s, j)),
{
    let s2 = s.remove(j);
    s.remove_ensures(j);
    let kj = key_at(s, j);
    assert forall|i: int| 0 <= i < s2.len() implies #[trigger] key_at(s2, i) == key_at(
        s,
        if i < j {
            i
        } else {
            i + 1
        },
    ) by {}
    lemma_distinct_from_rows(
        s,
        s2,
        |a: int|
            if a < j {
                a
            } else {
                a + 1
            },
    );
    let m = table_map(s).remove(kj);
    assert forall|k: PaymentKey| #[trigger] table_map(s2).contains_key(k) == m.contains_key(k) by {
        if holds_key(s2, k) {
            let i = choose|i: int| 0 <= i < s2.len() && #[trigger] key_at(s2, i) == k;
            let i1 = if i < j {
                i
            } else {
                i + 1
            };
            assert(key_at(s, i1) == k);
            assert(i1 != j);
        }
        if holds_key(s, k) && k != kj {
            let i = choose|i: int| 0 <= i < s.len() && #[trigger] key_at(s, i) == k;
            assert(i != j);
            if i < j {
                assert(key_at(s2, i) == k);
            } else {
                assert(key_at(s2, i - 1) == k);
            }
        }
    }
    assert forall|k: PaymentKey| #[trigger] table_map(s2).contains_key(k) implies table_map(s2)[k]
        == m[k] by {
        let i = choose|i: int| 0 <= i < s2.len() && #[trigger] key_at(s2, i) == k;
        let i1 = if i < j {
            i
        } else {
            i + 1
        };
        lemma_table_at(s2, i);
        assert(key_at(s, i1) == k);
        lemma_table_at(s, i1);
    }
    assert(table_map(s2) =~= m);
}

/// The row whose key is `id`, if there is one.
pub fn find_row(rows: &Vec<SeenPayment>, id: &AbsClientPaymentId) -> (r: Option<usize>)
    ensures
        match r {
            Some(i) => i < rows.len() && key_at(rows@, i as int) == id@,
            None => !holds_key(rows@, id@),
        },
{
    let n = rows.len();
    for i in 0..n
        invariant
            n == rows.len(),
            forall|j: int| 0 <= j < i ==> key_at(rows@, j) != id@,
    {
        if rows[i].id.same_as(id) {
            return Some(i);
        }
    }
    None
}

} // verus!

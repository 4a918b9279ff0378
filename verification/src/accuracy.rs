use vstd::prelude::*;

use crate::ternary::Ternary;

verus! {

/// How many `(predicted, actual)` pairs of `h` are hits (`predicted == actual`).
pub open spec fn hits(h: Seq<(Ternary, Ternary)>) -> nat
    decreases h.len(),
{
    if h.len() == 0 {
        0
    } else {
        hits(h.drop_last()) + if h.last().0 == h.last().1 {
            1nat
        } else {
            0nat
        }
    }
}

/// How many pairs of `h` are exactly `(predicted, actual)`.
pub open spec fn pair_count(h: Seq<(Ternary, Ternary)>, predicted: Ternary, actual: Ternary) -> nat
    decreases h.len(),
{
    if h.len() == 0 {
        0
    } else {
        pair_count(h.drop_last(), predicted, actual) + if h.last() == (predicted, actual) {
            1nat
        } else {
            0nat
        }
    }
}

/// The ternary value whose row and column a confusion matrix gives at
/// index `i`: the value `i - 1`.
pub open spec fn ternary_at(i: int) -> Ternary {
    if i == 0 {
        Ternary::Negative
    } else if i == 1 {
        Ternary::Zero
    } else {
        Ternary::Positive
    }
}

/// The first of the last `n` of `total` records.
pub open spec fn recent_start(total: nat, n: nat) -> nat {
    if total > n {
        (total - n) as nat
    } else {
        0
    }
}

/// Tracks prediction accuracy over time.
#[derive(Debug, Clone)]
pub struct AccuracyTracker {
    history: Vec<(Ternary, Ternary)>,
    correct: usize,
    total: usize,
}

impl View for AccuracyTracker {
    type V = Seq<(Ternary, Ternary)>;

    /// The `(predicted, actual)` pairs recorded, oldest first.
    closed spec fn view(&self) -> Seq<(Ternary, Ternary)> {
        self.history@
    }
}

/// Index of `t` in a confusion matrix's rows and columns.
fn index_of(t: Ternary) -> (i: usize)
    ensures
        i < 3,
        ternary_at(i as int) == t,
        i == t.spec_value() + 1,
{
    match t {
        Ternary::Negative => 0,
        Ternary::Zero => 1,
        Ternary::Positive => 2,
    }
}

impl AccuracyTracker {
    /// The running counts agree with the history.
    pub closed spec fn wf(self) -> bool {
        &&& self.total == self.history@.len()
        &&& self.correct == hits(self.history@)
    }

    pub fn new() -> (t: Self)
        ensures
            t.wf(),
            t@ == Seq::<(Ternary, Ternary)>::empty(),
    {
        AccuracyTracker { history: Vec::new(), correct: 0, total: 0 }
    }

    /// Record a prediction vs actual outcome.
    pub fn record(&mut self, predicted: Ternary, actual: Ternary)
        requires
            old(self).wf(),
            old(self)@.len() < usize::MAX,
        ensures
            final(self).wf(),
            final(self)@ == old(self)@.push((predicted, actual)),
    {
        proof {
            lemma_hits_at_most_len(self.history@);
            assert(self.history@.push((predicted, actual)).drop_last() =~= self.history@);
        }
        if predicted == actual {
            self.correct = self.correct + 1;
        }
        self.total = self.total + 1;
        self.history.push((predicted, actual));
    }

    /// Number of hits among all predictions recorded.
    pub fn correct(&self) -> (c: usize)
        requires
            self.wf(),
        ensures
            c == hits(self@),
    {
        self.correct
    }

    /// Hits within the last `n` predictions, and how many predictions that
    /// window holds (all of them when fewer than `n` were recorded).
    pub fn recent_hits(&self, n: usize) -> (r: (usize, usize))
        requires
            self.wf(),
        ensures
            r.1 == self@.len() - recent_start(self@.len(), n as nat),
            r.0 == hits(self@.subrange(recent_start(self@.len(), n as nat) as int, self@.len() as int)),
            r.1 == if (n as int) < self@.len() {
                n as int
            } else {
                self@.len() as int
            },
            r.0 <= r.1,
            n >= self@.len() ==> r.0 == hits(self@),
    {
        proof {
            if n as int >= self@.len() {
                lemma_recent_covers_all(self@, n as nat);
            }
        }
        let start: usize = if self.total > n {
            self.total - n
        } else {
            0
        };
        let mut count: usize = 0;
        let mut i: usize = start;
        while i < self.total
            invariant
                start <= i <= self.total,
                self.total == self.history@.len(),
                count == hits(self.history@.subrange(start as int, i as int)),
                count <= i - start,
            decreases self.total - i,
        {
            let pair = self.history[i];
            assert(self.history@.subrange(start as int, i + 1).drop_last() =~= self.history@.subrange(
                start as int,
                i as int,
            ));
            if pair.0 == pair.1 {
                count = count + 1;
            }
            i = i + 1;
        }
        (count, self.total - start)
    }

    /// Confusion matrix: `matrix[p][a]` counts the predictions of value
    /// `p - 1` whose actual outcome was `a - 1`.
    pub fn confusion_matrix(&self) -> (matrix: [[usize; 3]; 3])
        requires
            self.wf(),
        ensures
            forall|p: int, a: int|
                0 <= p < 3 && 0 <= a < 3 ==> #[trigger] matrix@[p]@[a] == pair_count(
                    self@,
                    ternary_at(p),
                    ternary_at(a),
                ),
    {
        let mut counts: [usize; 9] = [0, 0, 0, 0, 0, 0, 0, 0, 0];
        let mut i: usize = 0;
        while i < self.history.len()
            invariant
                i <= self.history@.len(),
                forall|k: int|
                    0 <= k < 9 ==> #[trigger] counts@[k] == pair_count(
                        self.history@.take(i as int),
                        ternary_at(k / 3),
                        ternary_at(k % 3),
                    ),
                forall|k: int| 0 <= k < 9 ==> #[trigger] counts@[k] <= i,
            decreases self.history@.len() - i,
        {
            let (pred, actual) = self.history[i];
            let pi = index_of(pred);
            let ai = index_of(actual);
            let k = 3 * pi + ai;
            assert(self.history@.take(i + 1).drop_last() =~= self.history@.take(i as int));
            assert(self.history@.take(i + 1).last() == (pred, actual));
            assert forall|j: int| 0 <= j < 9 implies (#[trigger] ternary_at(j / 3) == pred
                && ternary_at(j % 3) == actual) <==> j == k by {}
            counts[k] = counts[k] + 1;
            i = i + 1;
        }
        assert(self.history@.take(self.history@.len() as int) =~= self.history@);
        [
            [counts[0], counts[1], counts[2]],
            [counts[3], counts[4], counts[5]],
            [counts[6], counts[7], counts[8]],
        ]
    }

    /// Total predictions recorded.
    pub fn total(&self) -> (n: usize)
        requires
            self.wf(),
        ensures
            n == self@.len(),
    {
        self.total
    }
}

impl Default for AccuracyTracker {
    fn default() -> (t: Self)
        ensures
            t.wf(),
            t@ == Seq::<(Ternary, Ternary)>::empty(),
    {
        Self::new()
    }
}

/// There are never more hits than predictions.
pub proof fn lemma_hits_at_most_len(h: Seq<(Ternary, Ternary)>)
    ensures
        hits(h) <= h.len(),
    decreases h.len(),
{
    if h.len() > 0 {
        lemma_hits_at_most_len(h.drop_last());
    }
}

/// A window at least as long as the history covers all of it, so that its
/// hits are all the hits.
pub proof fn lemma_recent_covers_all(h: Seq<(Ternary, Ternary)>, n: nat)
    requires
        n >= h.len(),
    ensures
        recent_start(h.len(), n) == 0,
        h.subrange(recent_start(h.len(), n) as int, h.len() as int) == h,
{
    assert(h.subrange(0, h.len() as int) =~= h);
}

/// The order in which two outcomes are recorded changes neither the total,
/// the hits nor any count of the confusion matrix.
pub proof fn lemma_record_order(
    h: Seq<(Ternary, Ternary)>,
    first: (Ternary, Ternary),
    second: (Ternary, Ternary),
)
    ensures
        h.push(first).push(second).len() == h.push(second).push(first).len(),
        hits(h.push(first).push(second)) == hits(h.push(second).push(first)),
        forall|p: Ternary, a: Ternary|
            pair_count(h.push(first).push(second), p, a) == pair_count(
                h.push(second).push(first),
                p,
                a,
            ),
{
    assert(h.push(first).push(second).drop_last() =~= h.push(first));
    assert(h.push(second).push(first).drop_last() =~= h.push(second));
    assert(h.push(first).drop_last() =~= h);
    assert(h.push(second).drop_last() =~= h);
    assert(h.push(first).push(second).last() == second);
    assert(h.push(second).push(first).last() == first);
    assert(h.push(first).last() == first);
    assert(h.push(second).last() == second);
    assert(hits(h.push(first)) == hits(h) + if first.0 == first.1 {
        1nat
    } else {
        0nat
    });
    assert(hits(h.push(second)) == hits(h) + if second.0 == second.1 {
        1nat
    } else {
        0nat
    });
    assert forall|p: Ternary, a: Ternary|
        pair_count(h.push(first).push(second), p, a) == pair_count(
            h.push(second).push(first),
            p,
            a,
        ) by {
        assert(pair_count(h.push(first), p, a) == pair_count(h, p, a) + if first == (p, a) {
            1nat
        } else {
            0nat
        });
        assert(pair_count(h.push(second), p, a) == pair_count(h, p, a) + if second == (p, a) {
            1nat
        } else {
            0nat
        });
    }
}

/// Row and column `i` of a confusion matrix stand for the value `i - 1`.
pub proof fn lemma_matrix_indices()
    ensures
        forall|i: int| 0 <= i < 3 ==> #[trigger] ternary_at(i).spec_value() == i - 1,
{
}

/// The confusion matrix accounts for every prediction once, and its
/// diagonal for every hit.
pub proof fn lemma_confusion_totals(h: Seq<(Ternary, Ternary)>)
    ensures
        pair_count(h, Ternary::Negative, Ternary::Negative) + pair_count(
            h,
            Ternary::Negative,
            Ternary::Zero,
        ) + pair_count(h, Ternary::Negative, Ternary::Positive) + pair_count(
            h,
            Ternary::Zero,
            Ternary::Negative,
        ) + pair_count(h, Ternary::Zero, Ternary::Zero) + pair_count(
            h,
            Ternary::Zero,
            Ternary::Positive,
        ) + pair_count(h, Ternary::Positive, Ternary::Negative) + pair_count(
            h,
            Ternary::Positive,
            Ternary::Zero,
        ) + pair_count(h, Ternary::Positive, Ternary::Positive) == h.len(),
        pair_count(h, Ternary::Negative, Ternary::Negative) + pair_count(
            h,
            Ternary::Zero,
            Ternary::Zero,
        ) + pair_count(h, Ternary::Positive, Ternary::Positive) == hits(h),
    decreases h.len(),
{
    if h.len() > 0 {
        lemma_confusion_totals(h.drop_last());
        let l = h.last();
        assert(l == (l.0, l.1));
        match l.0 {
            Ternary::Negative => match l.1 {
                Ternary::Negative => {},
                Ternary::Zero => {},
                Ternary::Positive => {},
            },
            Ternary::Zero => match l.1 {
                Ternary::Negative => {},
                Ternary::Zero => {},
                Ternary::Positive => {},
            },
            Ternary::Positive => match l.1 {
                Ternary::Negative => {},
                Ternary::Zero => {},
                Ternary::Positive => {},
            },
        }
    }
}

} // verus!

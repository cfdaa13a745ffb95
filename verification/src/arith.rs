//! Sums of sequences of fixed-point values, and the inequalities that bound
//! the participation-ratio computation.

use vstd::prelude::*;

verus! {

/// Sum of a sequence of unsigned fixed-point values, as a mathematical
/// integer.
pub open spec fn seq_sum(s: Seq<u64>) -> int
    decreases s.len(),
{
    if s.len() == 0 {
        0
    } else {
        seq_sum(s.drop_last()) + s.last()
    }
}

/// Sum of the squares of a sequence of unsigned fixed-point values.
pub open spec fn seq_sum_sq(s: Seq<u64>) -> int
    decreases s.len(),
{
    if s.len() == 0 {
        0
    } else {
        seq_sum_sq(s.drop_last()) + s.last() * s.last()
    }
}

/// Both sums are non-negative.
pub proof fn lemma_sums_nonneg(s: Seq<u64>)
    ensures
        seq_sum(s) >= 0,
        seq_sum_sq(s) >= 0,
    decreases s.len(),
{
    if s.len() > 0 {
        lemma_sums_nonneg(s.drop_last());
        assert(s.last() * s.last() >= 0) by (nonlinear_arith);
    }
}

/// Helper for the Cauchy-Schwarz bound: `2 a (v_1 + ... + v_n)` is at most
/// `(v_1^2 + ... + v_n^2) + n a^2`, because each `2 a v_i <= a^2 + v_i^2`.
proof fn lemma_twice_prod_bound(s: Seq<u64>, a: int)
    requires
        a >= 0,
    ensures
        2 * a * seq_sum(s) <= seq_sum_sq(s) + s.len() * (a * a),
    decreases s.len(),
{
    if s.len() == 0 {
        assert(2 * a * 0 == 0 && s.len() * (a * a) == 0) by (nonlinear_arith)
            requires s.len() == 0;
    } else {
        let t = s.drop_last();
        let b = s.last() as int;
        lemma_twice_prod_bound(t, a);
        assert(2 * a * b <= a * a + b * b) by (nonlinear_arith)
            requires a >= 0, b >= 0;
        assert(2 * a * seq_sum(s) == 2 * a * seq_sum(t) + 2 * a * b) by (nonlinear_arith)
            requires seq_sum(s) == seq_sum(t) + b;
        assert(s.len() * (a * a) == t.len() * (a * a) + a * a) by (nonlinear_arith)
            requires t.len() + 1 == s.len();
    }
}

/// Cauchy-Schwarz, specialised to the participation ratio: the square of the
/// sum is at most the length times the sum of squares. This is what makes
/// the participation ratio of `n` singular values at most `n` (scaled).
pub proof fn lemma_sum_sq_le_len_times_sum_sq(s: Seq<u64>)
    ensures
        seq_sum(s) * seq_sum(s) <= s.len() * seq_sum_sq(s),
    decreases s.len(),
{
    if s.len() == 0 {
        assert(s.len() * seq_sum_sq(s) == 0) by (nonlinear_arith)
            requires s.len() == 0;
    } else {
        let t = s.drop_last();
        let a = s.last() as int;
        let n = t.len() as int;
        lemma_sum_sq_le_len_times_sum_sq(t);
        lemma_twice_prod_bound(t, a);
        lemma_sums_nonneg(t);
        assert(seq_sum(s) * seq_sum(s) <= (n + 1) * seq_sum_sq(s)) by (nonlinear_arith)
            requires
                seq_sum(s) == seq_sum(t) + a,
                seq_sum_sq(s) == seq_sum_sq(t) + a * a,
                seq_sum(t) * seq_sum(t) <= n * seq_sum_sq(t),
                2 * a * seq_sum(t) <= seq_sum_sq(t) + n * (a * a),
                seq_sum_sq(t) >= 0,
                n >= 0;
    }
}

/// Extending a prefix by one element extends its sums accordingly.
pub proof fn lemma_sum_push(s: Seq<u64>, v: u64)
    ensures
        seq_sum(s.push(v)) == seq_sum(s) + v,
        seq_sum_sq(s.push(v)) == seq_sum_sq(s) + v * v,
{
    assert(s.push(v).drop_last() =~= s);
}

/// A pointwise strictly smaller sequence has a strictly smaller sum.
pub proof fn lemma_seq_sum_lt(a: Seq<u64>, b: Seq<u64>)
    requires
        a.len() == b.len(),
        a.len() >= 1,
        forall|i: int| 0 <= i < a.len() ==> a[i] < b[i],
    ensures
        seq_sum(a) < seq_sum(b),
    decreases a.len(),
{
    if a.len() == 1 {
        assert(a.drop_last() =~= Seq::<u64>::empty());
        assert(b.drop_last() =~= Seq::<u64>::empty());
        assert(a[0] < b[0]);
    } else {
        let ta = a.drop_last();
        let tb = b.drop_last();
        assert(forall|i: int| 0 <= i < ta.len() ==> ta[i] < tb[i]);
        assert(a[a.len() - 1] < b[a.len() - 1]);
        lemma_seq_sum_lt(ta, tb);
    }
}

/// A constant sequence sums to its length times the value.
pub proof fn lemma_seq_sum_constant(s: Seq<u64>, v: u64)
    requires
        forall|i: int| 0 <= i < s.len() ==> s[i] == v,
    ensures
        seq_sum(s) == s.len() * v,
    decreases s.len(),
{
    if s.len() == 0 {
        assert(s.len() * v == 0) by (nonlinear_arith)
            requires s.len() == 0;
    } else {
        let t = s.drop_last();
        lemma_seq_sum_constant(t, v);
        assert(t.len() * v + v == s.len() * v) by (nonlinear_arith)
            requires t.len() + 1 == s.len();
    }
}

/// Append to a bounded FIFO queue, evicting the oldest element when the
/// capacity would be exceeded.
pub open spec fn bounded_push<T>(q: Seq<T>, v: T, cap: nat) -> Seq<T> {
    let grown = q.push(v);
    if grown.len() <= cap {
        grown
    } else {
        grown.drop_first()
    }
}

/// Append a whole sequence of values to a bounded FIFO queue, one by one,
/// evicting the oldest element whenever the capacity would be exceeded.
pub open spec fn bounded_push_all<T>(q: Seq<T>, vs: Seq<T>, cap: nat) -> Seq<T>
    decreases vs.len(),
{
    if vs.len() == 0 {
        q
    } else {
        bounded_push_all(bounded_push(q, vs[0], cap), vs.drop_first(), cap)
    }
}

/// The most recent `cap` elements of `s`, or all of `s` if it is shorter.
pub open spec fn latest<T>(s: Seq<T>, cap: nat) -> Seq<T> {
    if s.len() <= cap {
        s
    } else {
        s.subrange(s.len() - cap, s.len() as int)
    }
}

/// A bounded FIFO queue within its capacity that absorbs a burst of values
/// without being drained holds exactly the most recent `cap` of the queue's
/// prior contents followed by the burst: the oldest items are the ones
/// lost, and never more than the capacity forces.
pub proof fn lemma_bounded_push_all_keeps_latest<T>(q: Seq<T>, vs: Seq<T>, cap: nat)
    requires
        cap >= 1,
        q.len() <= cap,
    ensures
        bounded_push_all(q, vs, cap) == latest(q + vs, cap),
    decreases vs.len(),
{
    let all = q + vs;
    if vs.len() == 0 {
        assert(all =~= q);
    } else {
        let v = vs[0];
        let vs2 = vs.drop_first();
        let q2 = bounded_push(q, v, cap);
        lemma_bounded_push_all_keeps_latest(q2, vs2, cap);
        if q.len() + 1 <= cap {
            assert(q2 + vs2 =~= all);
        } else {
            // The queue was full: the oldest element is evicted, which is
            // the same as dropping the first element of the combined
            // sequence.
            assert(q2 + vs2 =~= all.drop_first());
            assert(latest(all.drop_first(), cap) =~= latest(all, cap));
        }
    }
}

/// A subscriber that starts with an empty queue and absorbs `vs` without
/// reading holds exactly the most recent `cap` published values.
pub proof fn lemma_fresh_queue_keeps_latest<T>(vs: Seq<T>, cap: nat)
    requires
        cap >= 1,
    ensures
        bounded_push_all(Seq::<T>::empty(), vs, cap) == latest(vs, cap),
{
    lemma_bounded_push_all_keeps_latest(Seq::<T>::empty(), vs, cap);
    assert(Seq::<T>::empty() + vs =~= vs);
}

} // verus!

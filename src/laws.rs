use vstd::prelude::*;
use crate::relay::{Sample, SILENCE, pushed, popped, pop_result, push_all, pop_outputs, played};

verus! {

/// The contents after applying `ops` in order to a relay holding `q`: `Some(s)`
/// offers `s`, `None` pops.
pub open spec fn after_ops(q: Seq<Sample>, cap: nat, ops: Seq<Option<Sample>>) -> Seq<Sample>
    decreases ops.len(),
{
    if ops.len() == 0 {
        q
    } else {
        let next = match ops[0] {
            Some(s) => pushed(q, cap, s),
            None => popped(q),
        };
        after_ops(next, cap, ops.drop_first())
    }
}

/// Whether each of `vals`, offered in turn to a relay holding `q`, is taken.
pub open spec fn push_accepts(q: Seq<Sample>, cap: nat, vals: Seq<Sample>) -> Seq<bool>
    decreases vals.len(),
{
    if vals.len() == 0 {
        Seq::empty()
    } else {
        push_accepts(q, cap, vals.drop_last()).push(push_all(q, cap, vals.drop_last()).len() < cap)
    }
}

/// The contents after `n` pops in a row from a relay holding `q`.
pub open spec fn pop_n(q: Seq<Sample>, n: nat) -> Seq<Sample>
    decreases n,
{
    if n == 0 {
        q
    } else {
        pop_n(popped(q), (n - 1) as nat)
    }
}

/// Whatever pushes and pops are applied, a relay never holds more samples than
/// its capacity (nor, being a sequence, fewer than none).
pub proof fn lemma_count_within_capacity(q: Seq<Sample>, cap: nat, ops: Seq<Option<Sample>>)
    requires
        q.len() <= cap,
    ensures
        after_ops(q, cap, ops).len() <= cap,
    decreases ops.len(),
{
    if ops.len() > 0 {
        let next = match ops[0] {
            Some(s) => pushed(q, cap, s),
            None => popped(q),
        };
        lemma_count_within_capacity(next, cap, ops.drop_first());
    }
}

/// Offering samples appends, in order, exactly those that fit: the first
/// `cap - q.len()` of them.
pub proof fn lemma_push_all_keeps_what_fits(q: Seq<Sample>, cap: nat, vals: Seq<Sample>)
    requires
        q.len() <= cap,
    ensures
        push_all(q, cap, vals) == q + vals.take(
            if vals.len() <= cap - q.len() { vals.len() as int } else { cap - q.len() },
        ),
    decreases vals.len(),
{
    if vals.len() > 0 {
        lemma_push_all_keeps_what_fits(q, cap, vals.drop_last());
        let n = vals.len() - 1;
        if n < cap - q.len() {
            assert(vals.drop_last().take(n) =~= vals.take(n));
            assert(q + vals.take(n + 1) =~= (q + vals.take(n)).push(vals.last()));
        } else {
            assert(vals.drop_last().take(cap - q.len()) =~= vals.take(cap - q.len()));
        }
    }
}

/// `n` pops from a relay holding at least `n` samples hand out its first `n`
/// samples, oldest first.
proof fn lemma_pops_in_order(q: Seq<Sample>, n: nat)
    requires
        n <= q.len(),
    ensures
        pop_outputs(q, n) == Seq::new(n, |i: int| Some(q[i])),
    decreases n,
{
    if n > 0 {
        lemma_pops_in_order(q.drop_first(), (n - 1) as nat);
        assert(pop_outputs(q, n) =~= Seq::new(n, |i: int| Some(q[i])));
    }
}

/// First in, first out: offering up to `cap` samples to an empty relay and then
/// popping as many times hands the same samples back in the same order.
pub proof fn lemma_fifo(cap: nat, vals: Seq<Sample>)
    requires
        vals.len() <= cap,
    ensures
        pop_outputs(push_all(Seq::empty(), cap, vals), vals.len()) == vals.map_values(
            |v: Sample| Some(v),
        ),
{
    lemma_push_all_keeps_what_fits(Seq::empty(), cap, vals);
    assert(Seq::<Sample>::empty() + vals.take(vals.len() as int) =~= vals);
    lemma_pops_in_order(vals, vals.len());
    assert(Seq::new(vals.len(), |i: int| Some(vals[i])) =~= vals.map_values(|v: Sample| Some(v)));
}

proof fn lemma_push_accepts_len(q: Seq<Sample>, cap: nat, vals: Seq<Sample>)
    ensures
        push_accepts(q, cap, vals).len() == vals.len(),
    decreases vals.len(),
{
    if vals.len() > 0 {
        lemma_push_accepts_len(q, cap, vals.drop_last());
    }
}

/// The `i`-th offer is taken exactly when the relay is not yet full after the
/// earlier ones.
proof fn lemma_push_accepts_index(q: Seq<Sample>, cap: nat, vals: Seq<Sample>, i: int)
    requires
        0 <= i < vals.len(),
    ensures
        push_accepts(q, cap, vals).len() == vals.len(),
        push_accepts(q, cap, vals)[i] == (push_all(q, cap, vals.take(i)).len() < cap),
    decreases vals.len(),
{
    lemma_push_accepts_len(q, cap, vals);
    lemma_push_accepts_len(q, cap, vals.drop_last());
    if i < vals.len() - 1 {
        lemma_push_accepts_index(q, cap, vals.drop_last(), i);
        assert(vals.drop_last().take(i) =~= vals.take(i));
    } else {
        assert(vals.drop_last() =~= vals.take(i));
    }
}

/// Backpressure: offering `cap + 1` samples to an empty relay of capacity `cap`
/// with no pop between them, every offer but the last is taken, and the last is
/// refused.
pub proof fn lemma_backpressure(cap: nat, vals: Seq<Sample>)
    requires
        vals.len() == cap + 1,
    ensures
        push_accepts(Seq::empty(), cap, vals).len() == cap + 1,
        forall|i: int| 0 <= i < cap ==> push_accepts(Seq::empty(), cap, vals)[i],
        !push_accepts(Seq::empty(), cap, vals)[cap as int],
{
    assert forall|i: int| 0 <= i <= cap implies push_accepts(Seq::empty(), cap, vals)[i] == (i
        < cap) by {
        lemma_push_accepts_index(Seq::empty(), cap, vals, i);
        lemma_push_all_keeps_what_fits(Seq::empty(), cap, vals.take(i));
    }
    lemma_push_accepts_index(Seq::empty(), cap, vals, 0);
}

/// Underflow: a pop from an empty relay hands out nothing and leaves it empty,
/// and every playback slot past the samples held gets silence, never an older
/// sample.
pub proof fn lemma_underflow_gives_silence(q: Seq<Sample>, n: nat)
    ensures
        pop_result(Seq::empty()) is None,
        popped(Seq::empty()) == Seq::<Sample>::empty(),
        forall|i: int| q.len() <= i < n ==> played(q, n)[i] == SILENCE,
{
}

/// No sample is read twice: once every sample held has been popped, any
/// number of further pops hand out nothing, until a push; after a push the
/// next pop hands out just that sample.
pub proof fn lemma_no_double_read(q: Seq<Sample>, cap: nat, m: nat, s: Sample)
    requires
        cap > 0,
    ensures
        pop_n(q, q.len()) == Seq::<Sample>::empty(),
        pop_outputs(pop_n(q, q.len()), m) == Seq::new(m, |i: int| None::<Sample>),
        pop_result(pushed(pop_n(q, q.len()), cap, s)) == Some(s),
{
    lemma_pop_n_empties(q);
    lemma_empty_pops(m);
}

proof fn lemma_pop_n_empties(q: Seq<Sample>)
    ensures
        pop_n(q, q.len()) == Seq::<Sample>::empty(),
    decreases q.len(),
{
    if q.len() > 0 {
        lemma_pop_n_empties(q.drop_first());
    }
}

proof fn lemma_empty_pops(m: nat)
    ensures
        pop_outputs(Seq::empty(), m) == Seq::new(m, |i: int| None::<Sample>),
    decreases m,
{
    if m > 0 {
        lemma_empty_pops((m - 1) as nat);
        assert(pop_outputs(Seq::empty(), m) =~= Seq::new(m, |i: int| None::<Sample>));
    }
}

} // verus!

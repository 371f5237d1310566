use vstd::prelude::*;

verus! {

/// An ordering of values for sorting: `outranks(a, b)` says that `a` belongs
/// strictly before `b`. It is a strict weak order, so values that neither
/// outranks the other are tied.
pub trait Ranked: Sized {
    spec fn outranks(&self, other: &Self) -> bool;

    proof fn lemma_irreflexive(a: &Self)
        ensures
            !a.outranks(a),
    ;

    proof fn lemma_transitive(a: &Self, b: &Self, c: &Self)
        requires
            a.outranks(b),
            b.outranks(c),
        ensures
            a.outranks(c),
    ;

    /// If `a` does not outrank `b` and `b` does not outrank `c`, then `a` does not outrank `c`.
    proof fn lemma_negative_transitive(a: &Self, b: &Self, c: &Self)
        requires
            !a.outranks(b),
            !b.outranks(c),
        ensures
            !a.outranks(c),
    ;

    fn ranks_before(&self, other: &Self) -> (r: bool)
        ensures
            r == self.outranks(other),
    ;
}

/// The values tied with `t`.
pub open spec fn tied_with<T: Ranked>(t: T) -> spec_fn(T) -> bool {
    |x: T| !x.outranks(&t) && !t.outranks(&x)
}

/// No value in `s` outranks one that comes before it.
pub open spec fn ranked_in_order<T: Ranked>(s: Seq<T>) -> bool {
    forall|i: int, j: int| #![trigger s[i], s[j]] 0 <= i < j < s.len() ==> !s[j].outranks(&s[i])
}

/// `out` is `input` sorted stably: in rank order, and with each group of tied
/// values in the order that they had in `input`.
pub open spec fn stably_sorted<T: Ranked>(input: Seq<T>, out: Seq<T>) -> bool {
    &&& out.len() == input.len()
    &&& ranked_in_order(out)
    &&& forall|t: T| #[trigger] out.filter(tied_with(t)) == input.filter(tied_with(t))
}

proof fn lemma_tie_transitive<T: Ranked>(x: T, e: T, t: T)
    requires
        tied_with(t)(x),
        tied_with(t)(e),
    ensures
        !x.outranks(&e),
        !e.outranks(&x),
{
    T::lemma_negative_transitive(&x, &t, &e);
    T::lemma_negative_transitive(&e, &t, &x);
}

/// Sorts `items` stably by rank: a value that outranks another comes first,
/// and tied values keep their order.
pub fn stable_sort<T: Ranked>(items: Vec<T>) -> (r: Vec<T>)
    ensures
        stably_sorted(items@, r@),
{
    let ghost input = items@;
    let mut rest = items;
    let mut out: Vec<T> = Vec::new();
    let mut k: usize = 0;
    let n = rest.len();
    while rest.len() > 0
        invariant
            n == input.len(),
            k + rest@.len() == n,
            rest@ == input.subrange(k as int, n as int),
            out@.len() == k,
            ranked_in_order(out@),
            forall|t: T| #[trigger] out@.filter(tied_with(t)) == input.take(k as int).filter(tied_with(t)),
        decreases rest@.len(),
    {
        let x = rest.remove(0);
        assert(x == input[k as int]);
        let mut p: usize = 0;
        while p < out.len() && !x.ranks_before(&out[p])
            invariant
                p <= out@.len(),
                forall|i: int| #![trigger out@[i]] 0 <= i < p ==> !x.outranks(&out@[i]),
            decreases out@.len() - p,
        {
            p += 1;
        }
        let ghost old_out = out@;
        proof {
            assert forall|j: int| #![trigger old_out[j]] p <= j < old_out.len() implies x.outranks(&old_out[j]) by {
                if !x.outranks(&old_out[j]) {
                    assert(!old_out[j].outranks(&old_out[p as int]));
                    T::lemma_negative_transitive(&x, &old_out[j], &old_out[p as int]);
                }
            }
        }
        out.insert(p, x);
        let ghost pre = old_out.take(p as int);
        let ghost suf = old_out.skip(p as int);
        assert(old_out =~= pre + suf);
        assert(out@ =~= pre + seq![x] + suf);
        proof {
            assert forall|i: int, j: int| #![trigger out@[i], out@[j]] 0 <= i < j < out@.len() implies !out@[j].outranks(&out@[i]) by {
                if i < p && j == p {
                } else if i == p && j > p {
                    if out@[j].outranks(&x) {
                        T::lemma_transitive(&x, &out@[j], &x);
                        T::lemma_irreflexive(&x);
                    }
                } else if i < p && j > p {
                    assert(out@[i] == old_out[i]);
                    assert(out@[j] == old_out[j - 1]);
                } else if j < p {
                    assert(out@[i] == old_out[i]);
                    assert(out@[j] == old_out[j]);
                } else {
                    assert(out@[i] == old_out[i - 1]);
                    assert(out@[j] == old_out[j - 1]);
                }
            }
            assert(input.take(k + 1) =~= input.take(k as int).push(x));
            assert forall|t: T| #[trigger] out@.filter(tied_with(t)) == input.take(k + 1).filter(tied_with(t)) by {
                let f = tied_with(t);
                Seq::filter_distributes_over_add(pre + seq![x], suf, f);
                Seq::filter_distributes_over_add(pre, seq![x], f);
                Seq::filter_distributes_over_add(pre, suf, f);
                input.take(k as int).lemma_filter_push(x, f);
                reveal_with_fuel(Seq::filter, 2);
                assert(seq![x].drop_last() =~= Seq::<T>::empty());
                if f(x) {
                    assert forall|j: int| 0 <= j < suf.len() implies !f(#[trigger] suf[j]) by {
                        assert(suf[j] == old_out[p + j]);
                        if f(suf[j]) {
                            lemma_tie_transitive(x, suf[j], t);
                        }
                    }
                    suf.lemma_all_neg_filter_empty(f);
                    assert(seq![x].filter(f) =~= seq![x]);
                    assert(pre.filter(f) + suf.filter(f) =~= pre.filter(f));
                    assert(out@.filter(f) =~= old_out.filter(f).push(x));
                } else {
                    assert(seq![x].filter(f) =~= Seq::<T>::empty());
                    assert(out@.filter(f) =~= old_out.filter(f));
                }
            }
        }
        k += 1;
        assert(rest@ =~= input.subrange(k as int, n as int));
    }
    assert(input.take(n as int) =~= input);
    out
}

} // verus!

//! Stable sorting under a strict weak order, and what it means for a
//! sequence to be the stable sort of another.

use vstd::prelude::*;

verus! {

/// `lt` never holds in both directions.
pub open spec fn asymmetric<T>(lt: spec_fn(T, T) -> bool) -> bool {
    forall|a: T, b: T| #[trigger] lt(a, b) ==> !lt(b, a)
}

/// Whenever `a` comes before `c`, any `b` is after `a` or before `c`.
pub open spec fn negatively_transitive<T>(lt: spec_fn(T, T) -> bool) -> bool {
    forall|a: T, b: T, c: T| #![trigger lt(a, b), lt(b, c)] lt(a, c) ==> lt(a, b) || lt(b, c)
}

/// `lt` ranks values: it is asymmetric and negatively transitive, so that
/// "neither before the other" is an equivalence.
pub open spec fn strict_weak_order<T>(lt: spec_fn(T, T) -> bool) -> bool {
    asymmetric(lt) && negatively_transitive(lt)
}

/// Neither value comes before the other.
pub open spec fn tied<T>(lt: spec_fn(T, T) -> bool, a: T, b: T) -> bool {
    !lt(a, b) && !lt(b, a)
}

/// No element comes before one that stands earlier in the sequence.
pub open spec fn sorted_by<T>(s: Seq<T>, lt: spec_fn(T, T) -> bool) -> bool {
    forall|i: int, j: int| 0 <= i < j < s.len() ==> !lt(#[trigger] s[j], #[trigger] s[i])
}

/// The elements of `s` that tie with `e`, in the order they have in `s`.
pub open spec fn ties_of<T>(s: Seq<T>, lt: spec_fn(T, T) -> bool, e: T) -> Seq<T> {
    s.filter(|y: T| tied(lt, e, y))
}

/// `out` holds the elements of `input`, ordered by `lt`, with tied elements
/// in the order they had in `input`.
pub open spec fn is_stable_sort<T>(out: Seq<T>, input: Seq<T>, lt: spec_fn(T, T) -> bool) -> bool {
    &&& sorted_by(out, lt)
    &&& out.to_multiset() == input.to_multiset()
    &&& forall|e: T| #[trigger] ties_of(out, lt, e) == ties_of(input, lt, e)
}

/// A sequence of fewer than two elements is its own stable sort.
pub proof fn lemma_short_is_sorted<T>(s: Seq<T>, lt: spec_fn(T, T) -> bool)
    requires
        s.len() < 2,
    ensures
        is_stable_sort(s, s, lt),
{
}

/// Taking `x` from the front of `input` and placing it in `out` behind
/// everything that comes before it, and nowhere else, keeps a stable sort.
proof fn lemma_insert_keeps_stable_sort<T>(
    out: Seq<T>,
    input: Seq<T>,
    lt: spec_fn(T, T) -> bool,
    x: T,
    k: int,
)
    requires
        strict_weak_order(lt),
        is_stable_sort(out, input, lt),
        0 <= k <= out.len(),
        forall|i: int| 0 <= i < k ==> lt(#[trigger] out[i], x),
        k < out.len() ==> !lt(out[k], x),
    ensures
        is_stable_sort(out.insert(k, x), seq![x] + input, lt),
{
    broadcast use vstd::seq_lib::to_multiset_insert;

    let grown = out.insert(k, x);
    let longer = seq![x] + input;
    out.insert_ensures(k, x);
    assert forall|j: int| k <= j < out.len() implies !lt(#[trigger] out[j], x) by {
        if lt(out[j], x) {
            assert(lt(out[j], out[k]) || lt(out[k], x));
        }
    }
    assert forall|i: int, j: int| 0 <= i < j < grown.len() implies !lt(
        #[trigger] grown[j],
        #[trigger] grown[i],
    ) by {
        if j < k {
            assert(grown[j] == out[j] && grown[i] == out[i]);
        } else if j == k {
            assert(grown[i] == out[i]);
        } else if i < k {
            assert(grown[j] == out[j - 1] && grown[i] == out[i]);
        } else if i == k {
            assert(grown[j] == out[j - 1]);
        } else {
            assert(grown[j] == out[j - 1] && grown[i] == out[i - 1]);
        }
    }
    assert(longer =~= input.insert(0, x));
    assert(grown.to_multiset() == longer.to_multiset());
    assert forall|e: T| #[trigger] ties_of(grown, lt, e) == ties_of(longer, lt, e) by {
        let pred = |y: T| tied(lt, e, y);
        let head = out.subrange(0, k);
        let tail = out.subrange(k, out.len() as int);
        assert(out =~= head + tail);
        assert(grown =~= head + seq![x] + tail);
        assert(ties_of(out, lt, e) == ties_of(input, lt, e));
        Seq::filter_distributes_over_add(head, tail, pred);
        Seq::filter_distributes_over_add(head + seq![x], tail, pred);
        Seq::filter_distributes_over_add(head, seq![x], pred);
        Seq::filter_distributes_over_add(seq![x], input, pred);
        if tied(lt, e, x) {
            assert forall|i: int| 0 <= i < head.len() implies !pred(#[trigger] head[i]) by {
                assert(lt(out[i], x));
                assert(lt(out[i], e) || lt(e, x));
            }
            head.lemma_all_neg_filter_empty(pred);
            assert(head.filter(pred) =~= Seq::<T>::empty());
            assert(grown.filter(pred) =~= seq![x].filter(pred) + tail.filter(pred));
            assert(out.filter(pred) =~= tail.filter(pred));
        } else {
            assert(seq![x].filter(pred) =~= Seq::<T>::empty()) by {
                assert forall|i: int| 0 <= i < seq![x].len() implies !pred(
                    #[trigger] seq![x][i],
                ) by {}
                seq![x].lemma_all_neg_filter_empty(pred);
            }
            assert(grown.filter(pred) =~= head.filter(pred) + tail.filter(pred));
        }
    }
}

/// Sorts `items` by `before`, keeping tied elements in their given order.
pub(crate) fn stable_sort<T, F: Fn(&T, &T) -> bool>(
    items: Vec<T>,
    before: F,
    Ghost(lt): Ghost<spec_fn(T, T) -> bool>,
) -> (out: Vec<T>)
    requires
        strict_weak_order(lt),
        forall|a: &T, b: &T| call_requires(before, (a, b)),
        forall|a: &T, b: &T, r: bool| call_ensures(before, (a, b), r) ==> r == lt(*a, *b),
    ensures
        is_stable_sort(out@, items@, lt),
{
    let ghost all = items@;
    let mut rest = items;
    let mut out: Vec<T> = Vec::new();
    proof {
        assert(all.subrange(all.len() as int, all.len() as int) =~= Seq::<T>::empty());
        assert forall|e: T| #[trigger] ties_of(out@, lt, e) == ties_of(Seq::<T>::empty(), lt, e) by {}
    }
    while rest.len() > 0
        invariant
            strict_weak_order(lt),
            forall|a: &T, b: &T| call_requires(before, (a, b)),
            forall|a: &T, b: &T, r: bool| call_ensures(before, (a, b), r) ==> r == lt(*a, *b),
            rest@.len() <= all.len(),
            rest@ == all.subrange(0, rest@.len() as int),
            is_stable_sort(out@, all.subrange(rest@.len() as int, all.len() as int), lt),
        decreases rest.len(),
    {
        let ghost done = all.subrange(rest@.len() as int, all.len() as int);
        let x = rest.pop().unwrap();
        let mut k: usize = 0;
        proof {
            vstd::seq_lib::to_multiset_len(out@);
            vstd::seq_lib::to_multiset_len(done);
        }
        loop
            invariant_except_break
                k <= out.len(),
                forall|i: int| 0 <= i < k ==> lt(#[trigger] out@[i], x),
            invariant
                forall|a: &T, b: &T| call_requires(before, (a, b)),
                forall|a: &T, b: &T, r: bool| call_ensures(before, (a, b), r) ==> r == lt(*a, *b),
            ensures
                k <= out.len(),
                forall|i: int| 0 <= i < k ==> lt(#[trigger] out@[i], x),
                k < out.len() ==> !lt(out@[k as int], x),
            decreases out.len() - k,
        {
            if k >= out.len() {
                break ;
            }
            if !before(&out[k], &x) {
                break ;
            }
            k += 1;
        }
        proof {
            lemma_insert_keeps_stable_sort(out@, done, lt, x, k as int);
            assert(seq![x] + done =~= all.subrange(rest@.len() as int, all.len() as int));
        }
        out.insert(k, x);
    }
    proof {
        assert(all.subrange(0, all.len() as int) =~= all);
    }
    out
}

} // verus!

//! Lists of strings: sorting, removing repetitions, selecting and joining.

use crate::record::texts;
use crate::sorting::{is_stable_sort, stable_sort, strict_weak_order};
use crate::text::{compare_text, lemma_lex_chain, lemma_lex_flip, lex_before, Order};
use vstd::prelude::*;
use vstd::string::StringExecFns;

verus! {

/// Lexicographic precedence on strings.
pub open spec fn label_rank() -> spec_fn(String, String) -> bool {
    |a: String, b: String| lex_before(a@, b@)
}

/// Lexicographic precedence ranks all strings.
pub proof fn lemma_label_rank_is_strict_weak_order()
    ensures
        strict_weak_order(label_rank()),
{
    let lt = label_rank();
    assert forall|a: String, b: String| #[trigger] lt(a, b) implies !lt(b, a) by {
        lemma_lex_flip(a@, b@);
    }
    assert forall|a: String, b: String, c: String|
        #![trigger lt(a, b), lt(b, c)]
        lt(a, c) implies lt(a, b) || lt(b, c) by {
        if !lt(a, b) && !lt(b, c) {
            lemma_lex_flip(a@, b@);
            lemma_lex_flip(b@, c@);
            lemma_lex_flip(a@, c@);
            lemma_lex_chain(c@, b@, a@);
        }
    }
}

/// Whether `a` comes before `b` in lexicographic order.
fn label_goes_first(a: &String, b: &String) -> (r: bool)
    ensures
        r == lex_before(a@, b@),
{
    match compare_text(a.as_str(), b.as_str()) {
        Order::Less => true,
        _ => false,
    }
}

/// Sorts strings into ascending lexicographic order.
pub fn sort_labels(labels: Vec<String>) -> (out: Vec<String>)
    ensures
        is_stable_sort(out@, labels@, label_rank()),
{
    proof {
        lemma_label_rank_is_strict_weak_order();
    }
    stable_sort(labels, label_goes_first, Ghost(label_rank()))
}

/// Each text comes strictly before the next in lexicographic order.
pub open spec fn strictly_ascending(s: Seq<Seq<char>>) -> bool {
    forall|i: int, j: int| 0 <= i < j < s.len() ==> lex_before(#[trigger] s[i], #[trigger] s[j])
}

/// A sorted list of strings whose texts were all different before the sort
/// is in strictly ascending order.
pub proof fn lemma_sorted_distinct_is_strictly_ascending(out: Seq<String>, input: Seq<String>)
    requires
        is_stable_sort(out, input, label_rank()),
        texts(input).no_duplicates(),
    ensures
        strictly_ascending(texts(out)),
{
    assert forall|p: int, q: int|
        0 <= p < input.len() && 0 <= q < input.len() && p != q implies #[trigger] input[p]
        != #[trigger] input[q] by {
        assert(texts(input)[p] != texts(input)[q]);
    }
    input.lemma_multiset_has_no_duplicates();
    out.lemma_multiset_has_no_duplicates_conv();
    assert forall|i: int, j: int| 0 <= i < j < texts(out).len() implies lex_before(
        #[trigger] texts(out)[i],
        #[trigger] texts(out)[j],
    ) by {
        assert(out[i] != out[j]);
        assert(out.contains(out[i]) && out.contains(out[j]));
        vstd::seq_lib::to_multiset_contains(out, out[i]);
        vstd::seq_lib::to_multiset_contains(out, out[j]);
        vstd::seq_lib::to_multiset_contains(input, out[i]);
        vstd::seq_lib::to_multiset_contains(input, out[j]);
        assert(input.contains(out[i]) && input.contains(out[j]));
        let p = choose|p: int| 0 <= p < input.len() && input[p] == out[i];
        let q = choose|q: int| 0 <= q < input.len() && input[q] == out[j];
        assert(texts(input)[p] != texts(input)[q]);
        assert(!label_rank()(out[j], out[i]));
        lemma_lex_flip(out[i]@, out[j]@);
        crate::text::lemma_lex_equal_iff_same(out[i]@, out[j]@);
    }
}

/// The first position at or after `from` whose string does not come before
/// `text`, or the length of `set` if there is none.
pub open spec fn place_from(set: Seq<String>, text: Seq<char>, from: int) -> int
    decreases set.len() - from,
{
    if from >= set.len() || !lex_before(set[from]@, text) {
        from
    } else {
        place_from(set, text, from + 1)
    }
}

/// `set` with `label` put in at its place in ascending order, unless a
/// string with the same text stands there already.
pub open spec fn inserted(set: Seq<String>, label: String) -> Seq<String> {
    let place = place_from(set, label@, 0);
    if place < set.len() && set[place]@ == label@ {
        set
    } else {
        set.insert(place, label)
    }
}

/// The strings of `items` as a set in ascending order: of strings with the
/// same text the first is kept.
pub open spec fn label_set(items: Seq<String>) -> Seq<String>
    decreases items.len(),
{
    if items.len() == 0 {
        items
    } else {
        inserted(label_set(items.drop_last()), items.last())
    }
}

proof fn lemma_place_from(set: Seq<String>, text: Seq<char>, from: int)
    requires
        0 <= from <= set.len(),
    ensures
        from <= place_from(set, text, from) <= set.len(),
        forall|i: int| from <= i < place_from(set, text, from) ==> lex_before(set[i]@, text),
        place_from(set, text, from) < set.len() ==> !lex_before(
            set[place_from(set, text, from)]@,
            text,
        ),
    decreases set.len() - from,
{
    if from < set.len() && lex_before(set[from]@, text) {
        lemma_place_from(set, text, from + 1);
    }
}

/// Putting a string into an ascending set keeps it ascending and adds the
/// text of the string to its texts, and nothing else.
pub proof fn lemma_inserted(set: Seq<String>, label: String)
    requires
        strictly_ascending(texts(set)),
    ensures
        strictly_ascending(texts(inserted(set, label))),
        forall|t: Seq<char>|
            texts(inserted(set, label)).contains(t) <==> (texts(set).contains(t) || t == label@),
{
    let place = place_from(set, label@, 0);
    let grown = inserted(set, label);
    lemma_place_from(set, label@, 0);
    if place < set.len() && set[place]@ == label@ {
        assert(texts(set)[place] == label@);
    } else {
        set.insert_ensures(place, label);
        assert forall|j: int| place <= j < set.len() implies lex_before(
            label@,
            #[trigger] set[j]@,
        ) by {
            lemma_lex_flip(set[place]@, label@);
            crate::text::lemma_lex_equal_iff_same(set[place]@, label@);
            if j > place {
                assert(lex_before(texts(set)[place], texts(set)[j]));
                lemma_lex_flip(set[place]@, set[j]@);
                lemma_lex_flip(label@, set[j]@);
                lemma_lex_chain(label@, set[place]@, set[j]@);
            }
        }
        assert forall|i: int, j: int| 0 <= i < j < texts(grown).len() implies lex_before(
            #[trigger] texts(grown)[i],
            #[trigger] texts(grown)[j],
        ) by {
            if j < place {
                assert(lex_before(texts(set)[i], texts(set)[j]));
            } else if j == place {
                assert(grown[i] == set[i]);
            } else if i < place {
                assert(lex_before(texts(set)[i], texts(set)[j - 1]));
            } else if i == place {
                assert(grown[j] == set[j - 1]);
            } else {
                assert(lex_before(texts(set)[i - 1], texts(set)[j - 1]));
            }
        }
        assert forall|t: Seq<char>|
            texts(grown).contains(t) <==> (texts(set).contains(t) || t == label@) by {
            if texts(set).contains(t) {
                let i = choose|i: int| 0 <= i < texts(set).len() && texts(set)[i] == t;
                if i < place {
                    assert(texts(grown)[i] == t);
                } else {
                    assert(texts(grown)[i + 1] == t);
                }
            }
            if t == label@ {
                assert(texts(grown)[place] == t);
            }
            if texts(grown).contains(t) {
                let i = choose|i: int| 0 <= i < texts(grown).len() && texts(grown)[i] == t;
                if i < place {
                    assert(texts(set)[i] == t);
                } else if i > place {
                    assert(texts(set)[i - 1] == t);
                }
            }
        }
    }
}

/// `label_set` is in strictly ascending order and holds the texts of the
/// list, each once.
pub proof fn lemma_label_set(items: Seq<String>)
    ensures
        strictly_ascending(texts(label_set(items))),
        forall|t: Seq<char>| texts(label_set(items)).contains(t) <==> texts(items).contains(t),
    decreases items.len(),
{
    if items.len() > 0 {
        let front = items.drop_last();
        lemma_label_set(front);
        lemma_inserted(label_set(front), items.last());
        assert forall|t: Seq<char>|
            texts(label_set(items)).contains(t) <==> texts(items).contains(t) by {
            assert(texts(label_set(front)).contains(t) <==> texts(front).contains(t));
            if texts(front).contains(t) {
                let i = choose|i: int| 0 <= i < texts(front).len() && texts(front)[i] == t;
                assert(texts(items)[i] == t);
            }
            if t == items.last()@ {
                assert(texts(items)[items.len() - 1] == t);
            }
            if texts(items).contains(t) {
                let i = choose|i: int| 0 <= i < texts(items).len() && texts(items)[i] == t;
                if i < items.len() - 1 {
                    assert(texts(front)[i] == t);
                }
            }
        }
    }
}

/// Puts `label` into the ascending set at its place, unless a string with
/// the same text stands there already.
pub fn insert_label(set: &mut Vec<String>, label: String)
    ensures
        final(set)@ == inserted(old(set)@, label),
{
    let mut place: usize = 0;
    loop
        invariant_except_break
            place <= set.len(),
            place_from(set@, label@, 0) == place_from(set@, label@, place as int),
            *set == *old(set),
        ensures
            *set == *old(set),
            place <= set.len(),
            place == place_from(set@, label@, 0),
            place < set.len() ==> set@[place as int]@ != label@,
        decreases set.len() - place,
    {
        if place >= set.len() {
            break ;
        }
        match compare_text(set[place].as_str(), label.as_str()) {
            Order::Less => {
                place += 1;
            },
            Order::Equal => {
                proof {
                    crate::text::lemma_lex_equal_iff_same(set@[place as int]@, label@);
                }
                return ;
            },
            Order::Greater => {
                proof {
                    crate::text::lemma_lex_equal_iff_same(set@[place as int]@, label@);
                }
                break ;
            },
        }
    }
    set.insert(place, label);
}

/// Gathers strings into a set in ascending order.
pub fn collect_labels(items: Vec<String>) -> (out: Vec<String>)
    ensures
        out@ == label_set(items@),
        strictly_ascending(texts(out@)),
        forall|t: Seq<char>| texts(out@).contains(t) <==> texts(items@).contains(t),
{
    proof {
        lemma_label_set(items@);
    }
    let mut out: Vec<String> = Vec::new();
    proof {
        assert(items@.subrange(0, 0) =~= Seq::<String>::empty());
    }
    for label in it: items
        invariant
            it.seq() == items@,
            out@ == label_set(items@.subrange(0, it.index())),
    {
        proof {
            assert(items@.subrange(0, it.index() + 1).drop_last() =~= items@.subrange(
                0,
                it.index(),
            ));
        }
        insert_label(&mut out, label);
    }
    proof {
        assert(items@.subrange(0, items@.len() as int) =~= items@);
    }
    out
}

/// The items of `items` whose mark is set.
pub open spec fn marked<T>(items: Seq<T>, marks: Seq<bool>) -> Seq<T>
    decreases items.len(),
{
    if items.len() == 0 || marks.len() < items.len() {
        items
    } else {
        let before = marked(items.drop_last(), marks);
        if marks[items.len() - 1] {
            before.push(items.last())
        } else {
            before
        }
    }
}

/// Keeps the strings whose mark is set, in their order. With fewer marks
/// than strings nothing is dropped.
pub fn retain_marked(items: Vec<String>, marks: &Vec<bool>) -> (out: Vec<String>)
    ensures
        out@ == marked(items@, marks@),
{
    if marks.len() < items.len() {
        return items;
    }
    let mut out: Vec<String> = Vec::new();
    let mut i: usize = 0;
    proof {
        assert(items@.subrange(0, 0) =~= Seq::<String>::empty());
    }
    for item in it: items
        invariant
            it.seq() == items@,
            i == it.index(),
            items@.len() <= marks@.len() <= usize::MAX,
            out@ == marked(items@.subrange(0, it.index()), marks@),
    {
        proof {
            assert(items@.subrange(0, i + 1).drop_last() =~= items@.subrange(0, i as int));
        }
        if marks[i] {
            out.push(item);
        }
        i += 1;
    }
    proof {
        assert(items@.subrange(0, items@.len() as int) =~= items@);
    }
    out
}

/// The texts of `parts` in a row, with `separator` between neighbours.
pub open spec fn joined(parts: Seq<Seq<char>>, separator: Seq<char>) -> Seq<char>
    decreases parts.len(),
{
    if parts.len() == 0 {
        Seq::empty()
    } else if parts.len() == 1 {
        parts[0]
    } else {
        joined(parts.drop_last(), separator) + separator + parts.last()
    }
}

/// Writes the strings in a row, with `separator` between neighbours.
pub fn join(parts: &Vec<String>, separator: &str) -> (out: String)
    ensures
        out@ == joined(texts(parts@), separator@),
{
    let mut out = String::new();
    let mut i: usize = 0;
    while i < parts.len()
        invariant
            i <= parts.len(),
            out@ == joined(texts(parts@).subrange(0, i as int), separator@),
        decreases parts.len() - i,
    {
        let ghost done = texts(parts@).subrange(0, i as int);
        let ghost next = texts(parts@).subrange(0, i + 1);
        proof {
            assert(next.drop_last() =~= done);
            assert(next.last() == parts@[i as int]@);
        }
        if i > 0 {
            out.append(separator);
        }
        out.append(parts[i].as_str());
        proof {
            if i == 0 {
                assert(out@ =~= next[0]);
            }
        }
        i += 1;
    }
    proof {
        assert(texts(parts@).subrange(0, parts@.len() as int) =~= texts(parts@));
    }
    out
}

} // verus!

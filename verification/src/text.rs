//! Text primitives on which the rest of the crate is built: the characters
//! of a string, lexicographic order, prefixes and suffixes.

use vstd::prelude::*;
use vstd::std_specs::iter::IteratorSpec;

verus! {

/// Result of a three-way comparison.
#[derive(Clone, Copy, Debug, PartialEq, Eq, Structural)]
pub enum Order {
    Less,
    Equal,
    Greater,
}

/// Lexicographic comparison of `a` and `b` by code point, given that they
/// agree on their first `i` characters.
pub open spec fn lex_order_from(a: Seq<char>, b: Seq<char>, i: int) -> Order
    decreases a.len() - i,
{
    if i >= a.len() {
        if i >= b.len() {
            Order::Equal
        } else {
            Order::Less
        }
    } else if i >= b.len() {
        Order::Greater
    } else if a[i] < b[i] {
        Order::Less
    } else if b[i] < a[i] {
        Order::Greater
    } else {
        lex_order_from(a, b, i + 1)
    }
}

/// Lexicographic comparison by code point: the first position at which the
/// two differ decides, and a proper prefix comes first.
pub open spec fn lex_order(a: Seq<char>, b: Seq<char>) -> Order {
    lex_order_from(a, b, 0)
}

/// `a` comes strictly before `b` in lexicographic order.
pub open spec fn lex_before(a: Seq<char>, b: Seq<char>) -> bool {
    lex_order(a, b) == Order::Less
}

/// `s` begins with `prefix`.
pub open spec fn has_prefix(s: Seq<char>, prefix: Seq<char>) -> bool {
    prefix.len() <= s.len() && s.subrange(0, prefix.len() as int) == prefix
}

/// `s` ends with `suffix`.
pub open spec fn has_suffix(s: Seq<char>, suffix: Seq<char>) -> bool {
    suffix.len() <= s.len() && s.subrange(s.len() - suffix.len(), s.len() as int) == suffix
}

proof fn lemma_lex_equal_from(a: Seq<char>, b: Seq<char>, i: int)
    requires
        0 <= i <= a.len(),
        i <= b.len(),
        lex_order_from(a, b, i) == Order::Equal,
    ensures
        a.len() == b.len(),
        forall|k: int| i <= k < a.len() ==> a[k] == b[k],
    decreases a.len() - i,
{
    if i < a.len() && i < b.len() {
        lemma_lex_equal_from(a, b, i + 1);
    }
}

proof fn lemma_lex_same_from(a: Seq<char>, i: int)
    requires
        0 <= i,
    ensures
        lex_order_from(a, a, i) == Order::Equal,
    decreases a.len() - i,
{
    if i < a.len() {
        lemma_lex_same_from(a, i + 1);
    }
}

proof fn lemma_lex_flip_from(a: Seq<char>, b: Seq<char>, i: int)
    requires
        0 <= i,
    ensures
        lex_order_from(a, b, i) == Order::Less <==> lex_order_from(b, a, i) == Order::Greater,
        lex_order_from(a, b, i) == Order::Equal <==> lex_order_from(b, a, i) == Order::Equal,
    decreases a.len() - i,
{
    if i < a.len() && i < b.len() {
        lemma_lex_flip_from(a, b, i + 1);
    }
}

proof fn lemma_lex_chain_from(a: Seq<char>, b: Seq<char>, c: Seq<char>, i: int)
    requires
        0 <= i,
        lex_order_from(a, b, i) != Order::Greater,
        lex_order_from(b, c, i) != Order::Greater,
    ensures
        lex_order_from(a, c, i) != Order::Greater,
        lex_order_from(a, c, i) == Order::Equal ==> lex_order_from(a, b, i) == Order::Equal
            && lex_order_from(b, c, i) == Order::Equal,
    decreases a.len() - i,
{
    if i < a.len() && i < b.len() && i < c.len() && a[i] == b[i] && b[i] == c[i] {
        lemma_lex_chain_from(a, b, c, i + 1);
    }
}

/// Two texts compare equal exactly when they are the same text.
pub proof fn lemma_lex_equal_iff_same(a: Seq<char>, b: Seq<char>)
    ensures
        lex_order(a, b) == Order::Equal <==> a == b,
{
    if lex_order(a, b) == Order::Equal {
        lemma_lex_equal_from(a, b, 0);
        assert(a =~= b);
    }
    if a == b {
        lemma_lex_same_from(a, 0);
    }
}

/// Swapping the arguments mirrors the result.
pub proof fn lemma_lex_flip(a: Seq<char>, b: Seq<char>)
    ensures
        lex_order(a, b) == Order::Less <==> lex_order(b, a) == Order::Greater,
        lex_order(a, b) == Order::Equal <==> lex_order(b, a) == Order::Equal,
        lex_order(a, b) == Order::Greater <==> lex_order(b, a) == Order::Less,
{
    lemma_lex_flip_from(a, b, 0);
    lemma_lex_flip_from(b, a, 0);
}

/// "Not after" is transitive, and strict as soon as one link is strict.
pub proof fn lemma_lex_chain(a: Seq<char>, b: Seq<char>, c: Seq<char>)
    requires
        lex_order(a, b) != Order::Greater,
        lex_order(b, c) != Order::Greater,
    ensures
        lex_order(a, c) != Order::Greater,
        lex_order(a, c) == Order::Equal ==> lex_order(a, b) == Order::Equal && lex_order(b, c)
            == Order::Equal,
{
    lemma_lex_chain_from(a, b, c, 0);
}

/// The characters of `s`, in order.
pub fn chars_of(s: &str) -> (v: Vec<char>)
    ensures
        v@ == s@,
{
    broadcast use vstd::string::group_string_axioms;

    let mut v: Vec<char> = Vec::new();
    for c in it: s.chars()
        invariant
            it.seq() == s@,
            v@ == it.seq().subrange(0, it.index()),
    {
        v.push(c);
    }
    assert(v@ == s@);
    v
}

/// Compares two strings lexicographically by code point.
pub fn compare_text(a: &str, b: &str) -> (r: Order)
    ensures
        r == lex_order(a@, b@),
{
    broadcast use vstd::string::group_string_axioms;

    let mut x = a.chars();
    let mut y = b.chars();
    let ghost mut i: int = 0;
    proof {
        assert(a@.subrange(0, a@.len() as int) =~= a@);
        assert(b@.subrange(0, b@.len() as int) =~= b@);
    }
    loop
        invariant
            0 <= i <= a@.len(),
            i <= b@.len(),
            x.remaining() == a@.subrange(i, a@.len() as int),
            y.remaining() == b@.subrange(i, b@.len() as int),
            lex_order(a@, b@) == lex_order_from(a@, b@, i),
        decreases a@.len() - i,
    {
        let p = x.next();
        let q = y.next();
        match p {
            None => {
                return match q {
                    None => Order::Equal,
                    Some(_) => Order::Less,
                };
            },
            Some(c) => {
                match q {
                    None => {
                        return Order::Greater;
                    },
                    Some(d) => {
                        assert(c == a@[i] && d == b@[i]);
                        if c < d {
                            return Order::Less;
                        }
                        if d < c {
                            return Order::Greater;
                        }
                        proof {
                            assert(a@.subrange(i, a@.len() as int).drop_first() =~= a@.subrange(
                                i + 1,
                                a@.len() as int,
                            ));
                            assert(b@.subrange(i, b@.len() as int).drop_first() =~= b@.subrange(
                                i + 1,
                                b@.len() as int,
                            ));
                            i = i + 1;
                        }
                    },
                }
            },
        }
    }
}

/// Whether two strings hold the same text.
pub fn same_text(a: &str, b: &str) -> (r: bool)
    ensures
        r == (a@ == b@),
{
    proof {
        lemma_lex_equal_iff_same(a@, b@);
    }
    match compare_text(a, b) {
        Order::Equal => true,
        _ => false,
    }
}

/// Whether `s` begins with `prefix`.
pub fn starts_with(s: &str, prefix: &str) -> (r: bool)
    ensures
        r == has_prefix(s@, prefix@),
{
    let text = chars_of(s);
    let head = chars_of(prefix);
    if head.len() > text.len() {
        return false;
    }
    let mut i: usize = 0;
    while i < head.len()
        invariant
            text@ == s@,
            head@ == prefix@,
            i <= head.len() <= text.len(),
            forall|k: int| 0 <= k < i ==> text@[k] == head@[k],
        decreases head.len() - i,
    {
        if text[i] != head[i] {
            assert(s@.subrange(0, prefix@.len() as int)[i as int] != prefix@[i as int]);
            return false;
        }
        i += 1;
    }
    assert(s@.subrange(0, prefix@.len() as int) =~= prefix@);
    true
}

/// Whether `s` ends with `suffix`.
pub fn ends_with(s: &str, suffix: &str) -> (r: bool)
    ensures
        r == has_suffix(s@, suffix@),
{
    let text = chars_of(s);
    let tail = chars_of(suffix);
    if tail.len() > text.len() {
        return false;
    }
    let offset = text.len() - tail.len();
    let mut i: usize = 0;
    while i < tail.len()
        invariant
            text@ == s@,
            tail@ == suffix@,
            i <= tail.len() <= text.len(),
            offset == text.len() - tail.len(),
            forall|k: int| 0 <= k < i ==> text@[offset + k] == tail@[k],
        decreases tail.len() - i,
    {
        if text[offset + i] != tail[i] {
            assert(s@.subrange(s@.len() - suffix@.len(), s@.len() as int)[i as int]
                != suffix@[i as int]);
            return false;
        }
        i += 1;
    }
    assert(s@.subrange(s@.len() - suffix@.len(), s@.len() as int) =~= suffix@);
    true
}

} // verus!

//! Game version strings of the form `major.minor[.patch]` and their order,
//! newest first.

use crate::error::ModpackError;
use crate::sorting::{is_stable_sort, stable_sort, strict_weak_order};
use crate::text::{chars_of, Order};
use vstd::prelude::*;

verus! {

/// What a version string is ordered by.
#[derive(Clone, Copy, Debug, PartialEq, Eq, Structural)]
pub struct VersionKey {
    pub minor: u32,
    pub patch: u32,
}

/// `c` is one of the ten decimal digits.
pub open spec fn is_digit(c: char) -> bool {
    '0' <= c && c <= '9'
}

/// The number that a decimal digit stands for.
pub open spec fn digit_value(c: char) -> int {
    c as u32 - '0' as u32
}

/// Every character of `s` is a decimal digit.
pub open spec fn all_digits(s: Seq<char>) -> bool {
    forall|i: int| 0 <= i < s.len() ==> is_digit(#[trigger] s[i])
}

/// The number that a run of decimal digits denotes.
pub open spec fn decimal_value(s: Seq<char>) -> int
    decreases s.len(),
{
    if s.len() == 0 {
        0
    } else {
        decimal_value(s.drop_last()) * 10 + digit_value(s.last())
    }
}

/// The number that a run of digits denotes as an unsigned 32-bit decimal:
/// there must be a digit, nothing but digits, and the value must fit.
pub open spec fn parse_digits(digits: Seq<char>) -> Option<u32> {
    if digits.len() > 0 && all_digits(digits) && decimal_value(digits) <= u32::MAX {
        Some(decimal_value(digits) as u32)
    } else {
        None
    }
}

/// The number that `s` denotes as an unsigned 32-bit decimal: an optional
/// `+`, then one or more digits whose value fits. Anything else is no number.
pub open spec fn parse_u32(s: Seq<char>) -> Option<u32> {
    if s.len() > 0 && s[0] == '+' {
        parse_digits(s.drop_first())
    } else {
        parse_digits(s)
    }
}

/// The position of the first `.` in `s` at or after `from`, or the length
/// of `s` if there is none.
pub open spec fn next_dot(s: Seq<char>, from: int) -> int
    decreases s.len() - from,
{
    if from >= s.len() {
        s.len() as int
    } else if s[from] == '.' {
        from
    } else {
        next_dot(s, from + 1)
    }
}

/// The key of a version string. The minor version is the text between the
/// first and the second `.`; the patch version is the text between the
/// second and the third, and counts as 0 where there is no second `.`.
/// Both must be numbers; the major version is not looked at.
pub open spec fn version_key(s: Seq<char>) -> Option<VersionKey> {
    let first = next_dot(s, 0);
    if first >= s.len() {
        None
    } else {
        let second = next_dot(s, first + 1);
        match parse_u32(s.subrange(first + 1, second)) {
            None => None,
            Some(minor) => {
                if second >= s.len() {
                    Some(VersionKey { minor, patch: 0 })
                } else {
                    let third = next_dot(s, second + 1);
                    match parse_u32(s.subrange(second + 1, third)) {
                        None => None,
                        Some(patch) => Some(VersionKey { minor, patch }),
                    }
                }
            },
        }
    }
}

/// Newest first: the higher minor version comes first, then the higher
/// patch version.
pub open spec fn key_order(a: VersionKey, b: VersionKey) -> Order {
    if a.minor > b.minor {
        Order::Less
    } else if a.minor < b.minor {
        Order::Greater
    } else if a.patch > b.patch {
        Order::Less
    } else if a.patch < b.patch {
        Order::Greater
    } else {
        Order::Equal
    }
}

/// How two version strings compare, where both have a key.
pub open spec fn version_order(a: Seq<char>, b: Seq<char>) -> Option<Order> {
    match (version_key(a), version_key(b)) {
        (Some(x), Some(y)) => Some(key_order(x, y)),
        _ => None,
    }
}

/// The order that a list of versions is sorted by: as `version_order` says
/// where both strings have a key, and a string without a key after any
/// that has one.
pub open spec fn ranks_before(a: Seq<char>, b: Seq<char>) -> bool {
    match (version_key(a), version_key(b)) {
        (Some(x), Some(y)) => key_order(x, y) == Order::Less,
        (Some(_), None) => true,
        (None, _) => false,
    }
}

/// `ranks_before` on strings.
pub open spec fn version_rank() -> spec_fn(String, String) -> bool {
    |a: String, b: String| ranks_before(a@, b@)
}

/// Any two entries at different positions can be compared.
pub open spec fn comparable(versions: Seq<String>) -> bool {
    forall|i: int, j: int|
        0 <= i < versions.len() && 0 <= j < versions.len() && i != j ==> version_order(
            #[trigger] versions[i]@,
            #[trigger] versions[j]@,
        ) is Some
}

/// On strings that have a key the comparison is a total order that follows
/// (minor descending, patch descending): a string compares equal to itself,
/// two strings compare equal exactly when their keys are equal, swapping
/// the arguments mirrors the result, and the order is transitive.
pub proof fn lemma_version_order_is_total(a: Seq<char>, b: Seq<char>, c: Seq<char>)
    requires
        version_key(a) is Some,
        version_key(b) is Some,
        version_key(c) is Some,
    ensures
        version_order(a, a) == Some(Order::Equal),
        version_order(a, b) is Some,
        version_order(a, b) == Some(Order::Equal) <==> version_key(a) == version_key(b),
        version_order(a, b) == Some(Order::Less) <==> version_order(b, a) == Some(Order::Greater),
        version_order(a, b) == Some(Order::Less) <==> {
            let x = version_key(a)->0;
            let y = version_key(b)->0;
            x.minor > y.minor || (x.minor == y.minor && x.patch > y.patch)
        },
        version_order(a, b) != Some(Order::Greater) && version_order(b, c) != Some(Order::Greater)
            ==> version_order(a, c) != Some(Order::Greater),
        version_order(a, b) == Some(Order::Less) && version_order(b, c) != Some(Order::Greater)
            ==> version_order(a, c) == Some(Order::Less),
        version_order(a, b) != Some(Order::Greater) && version_order(b, c) == Some(Order::Less)
            ==> version_order(a, c) == Some(Order::Less),
{
}

/// The order that versions are sorted by ranks all strings.
pub proof fn lemma_version_rank_is_strict_weak_order()
    ensures
        strict_weak_order(version_rank()),
{
    let lt = version_rank();
    assert forall|a: String, b: String| #[trigger] lt(a, b) implies !lt(b, a) by {}
    assert forall|a: String, b: String, c: String|
        #![trigger lt(a, b), lt(b, c)]
        lt(a, c) implies lt(a, b) || lt(b, c) by {}
}

proof fn lemma_decimal_value_push(s: Seq<char>, c: char)
    ensures
        decimal_value(s.push(c)) == decimal_value(s) * 10 + digit_value(c),
        is_digit(c) ==> 0 <= digit_value(c) <= 9,
{
    assert(s.push(c).drop_last() =~= s);
}

proof fn lemma_decimal_value_is_natural(s: Seq<char>)
    requires
        all_digits(s),
    ensures
        0 <= decimal_value(s),
    decreases s.len(),
{
    if s.len() > 0 {
        lemma_decimal_value_is_natural(s.drop_last());
        assert(is_digit(s[s.len() - 1]));
    }
}

proof fn lemma_decimal_value_grows(s: Seq<char>, k: int)
    requires
        0 <= k <= s.len(),
        all_digits(s),
    ensures
        decimal_value(s.subrange(0, k)) <= decimal_value(s),
    decreases s.len() - k,
{
    if k < s.len() {
        lemma_decimal_value_grows(s, k + 1);
        assert(s.subrange(0, k + 1) =~= s.subrange(0, k).push(s[k]));
        lemma_decimal_value_push(s.subrange(0, k), s[k]);
        lemma_decimal_value_is_natural(s.subrange(0, k));
    } else {
        assert(s.subrange(0, k) =~= s);
    }
}

/// Reads the characters of `cs` from `lo` up to `hi` as a number.
fn parse_number(cs: &Vec<char>, lo: usize, hi: usize) -> (r: Option<u32>)
    requires
        lo <= hi <= cs.len(),
    ensures
        r == parse_u32(cs@.subrange(lo as int, hi as int)),
{
    let ghost whole = cs@.subrange(lo as int, hi as int);
    let mut i: usize = lo;
    if i < hi && cs[i] == '+' {
        i += 1;
    }
    let start = i;
    let ghost digits = cs@.subrange(start as int, hi as int);
    proof {
        if start > lo {
            assert(whole.drop_first() =~= digits);
        } else {
            assert(whole =~= digits);
        }
    }
    if start == hi {
        return None;
    }
    let mut value: u64 = 0;
    while i < hi
        invariant
            lo <= start <= i <= hi <= cs.len(),
            digits == cs@.subrange(start as int, hi as int),
            whole == cs@.subrange(lo as int, hi as int),
            parse_u32(whole) == parse_digits(digits),
            all_digits(digits.subrange(0, i - start)),
            value == decimal_value(digits.subrange(0, i - start)),
            value <= u32::MAX,
        decreases hi - i,
    {
        let c = cs[i];
        proof {
            assert(digits[i - start] == c);
            assert(digits.subrange(0, i - start + 1) =~= digits.subrange(0, i - start).push(c));
            lemma_decimal_value_push(digits.subrange(0, i - start), c);
        }
        if c < '0' || '9' < c {
            return None;
        }
        value = value * 10 + (c as u64 - '0' as u64);
        i += 1;
        if value > 0xffff_ffff {
            proof {
                if all_digits(digits) {
                    lemma_decimal_value_grows(digits, i - start);
                }
            }
            return None;
        }
    }
    proof {
        assert(digits.subrange(0, i - start) =~= digits);
    }
    Some(value as u32)
}

/// The position of the first `.` at or after `from`, or the length of `cs`.
fn find_dot(cs: &Vec<char>, from: usize) -> (r: usize)
    requires
        from <= cs.len(),
    ensures
        r == next_dot(cs@, from as int),
        from <= r <= cs.len(),
{
    let mut i: usize = from;
    while i < cs.len() && cs[i] != '.'
        invariant
            from <= i <= cs.len(),
            next_dot(cs@, from as int) == next_dot(cs@, i as int),
        decreases cs.len() - i,
    {
        i += 1;
    }
    i
}

/// The key of a version string, if it has one.
pub fn parse_version(text: &str) -> (r: Option<VersionKey>)
    ensures
        r == version_key(text@),
{
    let cs = chars_of(text);
    let first = find_dot(&cs, 0);
    if first >= cs.len() {
        return None;
    }
    let second = find_dot(&cs, first + 1);
    let minor = match parse_number(&cs, first + 1, second) {
        None => {
            return None;
        },
        Some(n) => n,
    };
    if second >= cs.len() {
        return Some(VersionKey { minor, patch: 0 });
    }
    let third = find_dot(&cs, second + 1);
    match parse_number(&cs, second + 1, third) {
        None => None,
        Some(patch) => Some(VersionKey { minor, patch }),
    }
}

/// Compares two keys, newest first.
pub fn compare_keys(a: VersionKey, b: VersionKey) -> (r: Order)
    ensures
        r == key_order(a, b),
{
    if a.minor > b.minor {
        Order::Less
    } else if a.minor < b.minor {
        Order::Greater
    } else if a.patch > b.patch {
        Order::Less
    } else if a.patch < b.patch {
        Order::Greater
    } else {
        Order::Equal
    }
}

/// Compares two version strings, newest first. A string without a key
/// cannot be compared.
pub fn compare_versions(a: &str, b: &str) -> (r: Result<Order, ModpackError>)
    ensures
        match version_order(a@, b@) {
            Some(order) => r == Ok::<Order, ModpackError>(order),
            None => r == Err::<Order, ModpackError>(ModpackError::MalformedVersion),
        },
{
    match parse_version(a) {
        None => Err(ModpackError::MalformedVersion),
        Some(x) => match parse_version(b) {
            None => Err(ModpackError::MalformedVersion),
            Some(y) => Ok(compare_keys(x, y)),
        },
    }
}

/// Whether `a` goes before `b` when versions are sorted.
fn version_goes_first(a: &String, b: &String) -> (r: bool)
    ensures
        r == ranks_before(a@, b@),
{
    match parse_version(a.as_str()) {
        None => false,
        Some(x) => match parse_version(b.as_str()) {
            None => true,
            Some(y) => match compare_keys(x, y) {
                Order::Less => true,
                _ => false,
            },
        },
    }
}

/// Sorts versions newest first, keeping entries with equal keys in their
/// given order. The sort fails where two entries cannot be compared; a list
/// of fewer than two entries has nothing to compare and comes back as it is.
pub fn sort_game_versions(versions: Vec<String>) -> (r: Result<Vec<String>, ModpackError>)
    ensures
        comparable(versions@) ==> r is Ok && is_stable_sort(r->Ok_0@, versions@, version_rank()),
        !comparable(versions@) ==> r == Err::<Vec<String>, ModpackError>(
            ModpackError::MalformedVersion,
        ),
        versions.len() < 2 ==> r == Ok::<Vec<String>, ModpackError>(versions),
{
    if versions.len() < 2 {
        proof {
            lemma_version_rank_is_strict_weak_order();
            crate::sorting::lemma_short_is_sorted(versions@, version_rank());
        }
        return Ok(versions);
    }
    let mut i: usize = 0;
    while i < versions.len()
        invariant
            2 <= versions.len(),
            i <= versions.len(),
            forall|k: int| 0 <= k < i ==> version_key(#[trigger] versions@[k]@) is Some,
        decreases versions.len() - i,
    {
        if parse_version(versions[i].as_str()).is_none() {
            proof {
                let other = if i == 0 {
                    1int
                } else {
                    0int
                };
                assert(version_order(versions@[i as int]@, versions@[other]@) is None);
            }
            return Err(ModpackError::MalformedVersion);
        }
        i += 1;
    }
    proof {
        lemma_version_rank_is_strict_weak_order();
    }
    Ok(stable_sort(versions, version_goes_first, Ghost(version_rank())))
}

} // verus!

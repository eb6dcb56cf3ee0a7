//! The pattern that a released game version has, and the selection of the
//! versions that have it.

use crate::error::ModpackError;
use crate::labels::{marked, retain_marked};
use crate::sorting::is_stable_sort;
use crate::version::{comparable, sort_game_versions, version_rank};
use regex::Regex;
use vstd::prelude::*;

verus! {

#[verifier::external_type_specification]
#[verifier::external_body]
pub struct ExPatternError(regex::Error);

/// Whether the regular expression `pattern` matches somewhere in `text`,
/// or `None` where `pattern` is not accepted as a regular expression.
pub uninterp spec fn pattern_match(pattern: Seq<char>, text: Seq<char>) -> Option<bool>;

/// `regex::Regex::new` on `pattern`, then `Regex::is_match` on `text`.
/// Both depend on their arguments alone, so the outcome has a name: an
/// `Ok` carries what `pattern_match` gives, and an error comes exactly
/// where `pattern_match` gives nothing.
#[verifier::external_body]
fn is_match(pattern: &str, text: &str) -> (r: Result<bool, regex::Error>)
    ensures
        r matches Ok(found) ==> pattern_match(pattern@, text@) == Some(found),
        r is Err ==> pattern_match(pattern@, text@) is None,
{
    match Regex::new(pattern) {
        Ok(compiled) => Ok(compiled.is_match(text)),
        Err(e) => Err(e),
    }
}

/// For every text, whether `pattern` matches it.
pub open spec fn pattern_marks(pattern: Seq<char>, items: Seq<String>) -> Seq<bool> {
    items.map_values(|item: String| pattern_match(pattern, item@) == Some(true))
}

/// The pattern engine gives an answer for `pattern` on every text.
pub open spec fn all_answered(pattern: Seq<char>, items: Seq<String>) -> bool {
    forall|i: int| 0 <= i < items.len() ==> pattern_match(pattern, #[trigger] items[i]@) is Some
}

/// Matches every text against `pattern`. It fails where the pattern engine
/// does not accept the pattern.
pub fn match_all(pattern: &str, items: &Vec<String>) -> (r: Result<Vec<bool>, ModpackError>)
    ensures
        all_answered(pattern@, items@) ==> r is Ok && r->Ok_0@ == pattern_marks(
            pattern@,
            items@,
        ),
        !all_answered(pattern@, items@) ==> r == Err::<Vec<bool>, ModpackError>(
            ModpackError::Pattern,
        ),
{
    let mut marks: Vec<bool> = Vec::new();
    let mut i: usize = 0;
    while i < items.len()
        invariant
            i <= items.len(),
            all_answered(pattern@, items@.subrange(0, i as int)),
            marks@ == pattern_marks(pattern@, items@.subrange(0, i as int)),
        decreases items.len() - i,
    {
        let ghost done = items@.subrange(0, i as int);
        let ghost next = items@.subrange(0, i + 1);
        match is_match(pattern, items[i].as_str()) {
            Err(_) => {
                return Err(ModpackError::Pattern);
            },
            Ok(found) => {
                marks.push(found);
                proof {
                    assert forall|k: int| 0 <= k < next.len() implies pattern_match(
                        pattern@,
                        #[trigger] next[k]@,
                    ) is Some by {
                        if k < i {
                            assert(next[k] == done[k]);
                        }
                    }
                    assert(marks@ =~= pattern_marks(pattern@, next));
                }
            },
        }
        i += 1;
    }
    proof {
        assert(items@.subrange(0, items@.len() as int) =~= items@);
    }
    Ok(marks)
}

/// The pattern of a released version: `1.x` or `1.x.y`, in digits.
pub open spec fn version_pattern() -> Seq<char> {
    "^1\\.[0-9]+(\\.[0-9]+)?$"@
}

/// For every version, whether the version pattern matches it.
pub open spec fn release_marks(versions: Seq<String>) -> Seq<bool> {
    pattern_marks(version_pattern(), versions)
}

/// The pattern engine gives an answer for every version.
pub open spec fn all_matched(versions: Seq<String>) -> bool {
    all_answered(version_pattern(), versions)
}

/// Matches every version against the version pattern.
pub fn match_releases(versions: &Vec<String>) -> (r: Result<Vec<bool>, ModpackError>)
    ensures
        all_matched(versions@) ==> r is Ok && r->Ok_0@ == release_marks(versions@),
        !all_matched(versions@) ==> r == Err::<Vec<bool>, ModpackError>(ModpackError::Pattern),
{
    match_all("^1\\.[0-9]+(\\.[0-9]+)?$", versions)
}

/// Keeps the versions that the version pattern matches, in their order.
pub fn filter_game_versions(versions: Vec<String>) -> (r: Result<Vec<String>, ModpackError>)
    ensures
        all_matched(versions@) ==> r is Ok && r->Ok_0@ == marked(
            versions@,
            release_marks(versions@),
        ),
        !all_matched(versions@) ==> r == Err::<Vec<String>, ModpackError>(ModpackError::Pattern),
{
    match match_releases(&versions) {
        Err(e) => Err(e),
        Ok(marks) => Ok(retain_marked(versions, &marks)),
    }
}

/// The versions whose mark is set, newest first: what becomes of a list of
/// declared versions once each has been matched against the version
/// pattern. The sort fails where two of the kept versions cannot be compared.
pub fn release_versions(versions: Vec<String>, marks: &Vec<bool>) -> (r: Result<
    Vec<String>,
    ModpackError,
>)
    ensures
        comparable(marked(versions@, marks@)) ==> r is Ok && is_stable_sort(
            r->Ok_0@,
            marked(versions@, marks@),
            version_rank(),
        ),
        !comparable(marked(versions@, marks@)) ==> r == Err::<Vec<String>, ModpackError>(
            ModpackError::MalformedVersion,
        ),
{
    sort_game_versions(retain_marked(versions, marks))
}

} // verus!

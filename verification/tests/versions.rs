use modpack::error::ModpackError;
use modpack::pattern::{filter_game_versions, match_all, release_versions};
use modpack::text::Order;
use modpack::version::{compare_keys, compare_versions, parse_version, sort_game_versions, VersionKey};

fn strings(items: &[&str]) -> Vec<String> {
    items.iter().map(|s| s.to_string()).collect()
}

#[test]
fn key_of_three_part_version() {
    assert_eq!(parse_version("1.20.1"), Some(VersionKey { minor: 20, patch: 1 }));
}

#[test]
fn patch_defaults_to_zero() {
    assert_eq!(parse_version("1.19"), Some(VersionKey { minor: 19, patch: 0 }));
}

#[test]
fn major_version_is_not_looked_at() {
    assert_eq!(parse_version("2.0"), Some(VersionKey { minor: 0, patch: 0 }));
    assert_eq!(parse_version("abc.7.3"), Some(VersionKey { minor: 7, patch: 3 }));
    assert_eq!(parse_version(".7"), Some(VersionKey { minor: 7, patch: 0 }));
}

#[test]
fn text_after_the_patch_is_not_looked_at() {
    assert_eq!(parse_version("1.20.1.x"), Some(VersionKey { minor: 20, patch: 1 }));
}

#[test]
fn version_without_a_dot_has_no_key() {
    assert_eq!(parse_version("abc"), None);
    assert_eq!(parse_version(""), None);
    assert_eq!(parse_version("120"), None);
}

#[test]
fn non_numeric_parts_have_no_key() {
    assert_eq!(parse_version("1.x"), None);
    assert_eq!(parse_version("1.14-Snapshot"), None);
    assert_eq!(parse_version("1.20.x"), None);
    assert_eq!(parse_version("1.20."), None);
    assert_eq!(parse_version("1."), None);
    assert_eq!(parse_version("1..2"), None);
    assert_eq!(parse_version("1.-2"), None);
    assert_eq!(parse_version("1. 2"), None);
    assert_eq!(parse_version("1.٣"), None);
}

#[test]
fn a_plus_sign_may_lead_a_number() {
    assert_eq!(parse_version("1.+20.+1"), Some(VersionKey { minor: 20, patch: 1 }));
    assert_eq!(parse_version("1.+"), None);
    assert_eq!(parse_version("1.++2"), None);
}

#[test]
fn leading_zeros_do_not_count() {
    assert_eq!(parse_version("1.020.001"), Some(VersionKey { minor: 20, patch: 1 }));
    assert_eq!(
        parse_version("1.00000000000000000000007"),
        Some(VersionKey { minor: 7, patch: 0 })
    );
}

#[test]
fn numbers_must_fit_in_32_bits() {
    assert_eq!(
        parse_version("1.4294967295.4294967295"),
        Some(VersionKey { minor: 4294967295, patch: 4294967295 })
    );
    assert_eq!(parse_version("1.4294967296"), None);
    assert_eq!(parse_version("1.2.4294967296"), None);
    assert_eq!(parse_version("1.99999999999999999999"), None);
}

#[test]
fn keys_agree_with_the_standard_parser() {
    for text in ["1.20.1", "1.19", "1.+3", "1.007", "1.4294967295", "1.4294967296", "1.x", "1."] {
        let minor = text.split('.').nth(1).and_then(|s| s.parse::<u32>().ok());
        assert_eq!(parse_version(text).map(|k| k.minor), minor, "{}", text);
    }
}

#[test]
fn higher_minor_comes_first() {
    assert_eq!(compare_versions("1.20.1", "1.19"), Ok(Order::Less));
    assert_eq!(compare_versions("1.19", "1.20.1"), Ok(Order::Greater));
}

#[test]
fn higher_patch_breaks_the_tie() {
    assert_eq!(compare_versions("1.20.4", "1.20.1"), Ok(Order::Less));
    assert_eq!(compare_versions("1.20", "1.20.1"), Ok(Order::Greater));
}

#[test]
fn equal_keys_compare_equal() {
    assert_eq!(compare_versions("1.20", "1.20.0"), Ok(Order::Equal));
    assert_eq!(compare_versions("1.20.1", "1.20.1"), Ok(Order::Equal));
    assert_eq!(compare_versions("1.020", "2.20"), Ok(Order::Equal));
}

#[test]
fn malformed_version_cannot_be_compared() {
    assert_eq!(compare_versions("abc", "1.19"), Err(ModpackError::MalformedVersion));
    assert_eq!(compare_versions("1.19", "1.x"), Err(ModpackError::MalformedVersion));
    assert_eq!(compare_versions("1.20.x", "1.19"), Err(ModpackError::MalformedVersion));
}

#[test]
fn comparison_is_a_total_order_on_samples() {
    let samples = ["1.20.1", "1.19", "1.20", "1.20.0", "1.7.10", "1.21", "2.0", "1.19.4"];
    for a in samples {
        assert_eq!(compare_versions(a, a), Ok(Order::Equal));
        for b in samples {
            let ab = compare_versions(a, b).unwrap();
            let ba = compare_versions(b, a).unwrap();
            match ab {
                Order::Less => assert_eq!(ba, Order::Greater),
                Order::Equal => {
                    assert_eq!(ba, Order::Equal);
                    assert_eq!(parse_version(a), parse_version(b));
                }
                Order::Greater => assert_eq!(ba, Order::Less),
            }
            for c in samples {
                let bc = compare_versions(b, c).unwrap();
                let ac = compare_versions(a, c).unwrap();
                if ab != Order::Greater && bc != Order::Greater {
                    assert_ne!(ac, Order::Greater);
                }
            }
        }
    }
}

#[test]
fn keys_order_by_minor_then_patch() {
    let a = VersionKey { minor: 20, patch: 1 };
    let b = VersionKey { minor: 20, patch: 4 };
    let c = VersionKey { minor: 21, patch: 0 };
    assert_eq!(compare_keys(a, b), Order::Greater);
    assert_eq!(compare_keys(c, b), Order::Less);
    assert_eq!(compare_keys(a, a), Order::Equal);
}

#[test]
fn versions_sort_newest_first() {
    let sorted = sort_game_versions(strings(&["1.19", "1.20.1", "1.7.10", "1.20.4", "1.20"]));
    assert_eq!(sorted, Ok(strings(&["1.20.4", "1.20.1", "1.20", "1.19", "1.7.10"])));
}

#[test]
fn versions_with_equal_keys_keep_their_order() {
    let sorted = sort_game_versions(strings(&["1.19", "1.20", "1.20.0", "1.020"]));
    assert_eq!(sorted, Ok(strings(&["1.20", "1.20.0", "1.020", "1.19"])));
    let sorted = sort_game_versions(strings(&["1.020", "1.20.0", "1.21", "1.20"]));
    assert_eq!(sorted, Ok(strings(&["1.21", "1.020", "1.20.0", "1.20"])));
}

#[test]
fn empty_list_of_versions_sorts_to_itself() {
    assert_eq!(sort_game_versions(Vec::new()), Ok(Vec::new()));
}

#[test]
fn a_single_version_is_never_compared() {
    assert_eq!(sort_game_versions(strings(&["abc"])), Ok(strings(&["abc"])));
    assert_eq!(sort_game_versions(strings(&["1.20.1"])), Ok(strings(&["1.20.1"])));
}

#[test]
fn a_malformed_version_among_others_fails_the_sort() {
    assert_eq!(
        sort_game_versions(strings(&["1.20.1", "abc"])),
        Err(ModpackError::MalformedVersion)
    );
    assert_eq!(
        sort_game_versions(strings(&["abc", "1.20.1", "1.19"])),
        Err(ModpackError::MalformedVersion)
    );
    assert_eq!(
        sort_game_versions(strings(&["1.20.x", "1.19"])),
        Err(ModpackError::MalformedVersion)
    );
    assert_eq!(sort_game_versions(strings(&["abc", "abc"])), Err(ModpackError::MalformedVersion));
}

#[test]
fn declared_versions_are_filtered_and_sorted() {
    let kept = filter_game_versions(strings(&["1.20.1", "1.19", "abc", "2.0"])).unwrap();
    assert_eq!(kept, strings(&["1.20.1", "1.19"]));
    assert_eq!(sort_game_versions(kept), Ok(strings(&["1.20.1", "1.19"])));
}

#[test]
fn the_version_pattern_is_strict() {
    let declared = strings(&[
        "1.19", "1.19.2", "1.19.2.1", "1.19-pre1", "21w13a", "1.", "1", "1.x", "11.2", "1.19 ",
        " 1.19", "1.19\n", "1.٣", "1.007", "",
    ]);
    let kept = filter_game_versions(declared).unwrap();
    assert_eq!(kept, strings(&["1.19", "1.19.2", "1.007"]));
}

#[test]
fn filtered_versions_keep_their_order() {
    let kept = filter_game_versions(strings(&["1.7", "x", "1.21", "1.7", "y", "1.8.9"])).unwrap();
    assert_eq!(kept, strings(&["1.7", "1.21", "1.7", "1.8.9"]));
}

#[test]
fn marks_come_from_the_pattern() {
    let texts = strings(&["abc", "xabcx", "ab", ""]);
    assert_eq!(match_all("abc", &texts), Ok(vec![true, true, false, false]));
    assert_eq!(match_all("^abc$", &texts), Ok(vec![true, false, false, false]));
    assert_eq!(match_all("^$", &texts), Ok(vec![false, false, false, true]));
}

#[test]
fn a_pattern_that_is_not_accepted_fails() {
    let texts = strings(&["abc"]);
    assert_eq!(match_all("(", &texts), Err(ModpackError::Pattern));
    assert_eq!(match_all("[0-", &texts), Err(ModpackError::Pattern));
}

#[test]
fn a_pattern_is_not_asked_about_nothing() {
    assert_eq!(match_all("(", &Vec::new()), Ok(Vec::new()));
}

#[test]
fn kept_versions_are_sorted() {
    let declared = strings(&["1.20.1", "1.19", "abc", "2.0"]);
    let marks = vec![true, true, false, false];
    assert_eq!(release_versions(declared, &marks), Ok(strings(&["1.20.1", "1.19"])));
}

#[test]
fn kept_versions_must_be_comparable() {
    let declared = strings(&["1.20.1", "1.19", "abc"]);
    assert_eq!(
        release_versions(declared, &vec![true, false, true]),
        Err(ModpackError::MalformedVersion)
    );
    let declared = strings(&["1.20.1", "1.19", "abc"]);
    assert_eq!(release_versions(declared, &vec![false, false, true]), Ok(strings(&["abc"])));
}

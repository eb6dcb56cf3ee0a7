use modpack::labels::{collect_labels, insert_label, join, retain_marked, sort_labels};
use modpack::text::{chars_of, compare_text, ends_with, same_text, starts_with, Order};
use modpack::zips::get_prism_zips;

fn owned(items: &[&str]) -> Vec<String> {
    items.iter().map(|s| s.to_string()).collect()
}

#[test]
fn characters_of_a_string() {
    assert_eq!(chars_of("aé𝄞"), vec!['a', 'é', '𝄞']);
    assert_eq!(chars_of(""), Vec::<char>::new());
}

#[test]
fn text_compares_by_first_difference() {
    assert_eq!(compare_text("Alpha", "Zeta"), Order::Less);
    assert_eq!(compare_text("both", "client"), Order::Less);
    assert_eq!(compare_text("server", "client"), Order::Greater);
    assert_eq!(compare_text("abc", "abd"), Order::Less);
}

#[test]
fn a_proper_prefix_comes_first() {
    assert_eq!(compare_text("forge", "forgery"), Order::Less);
    assert_eq!(compare_text("forgery", "forge"), Order::Greater);
    assert_eq!(compare_text("", "a"), Order::Less);
    assert_eq!(compare_text("", ""), Order::Equal);
}

#[test]
fn capitals_come_before_small_letters() {
    assert_eq!(compare_text("Zeta", "alpha"), Order::Less);
}

#[test]
fn text_compares_like_the_standard_order() {
    let samples = ["", "a", "ab", "b", "B", "é", "e", "z", "𝄞", "日本", "日", "￿", "𐀀"];
    for a in samples {
        for b in samples {
            let expected = match a.cmp(b) {
                std::cmp::Ordering::Less => Order::Less,
                std::cmp::Ordering::Equal => Order::Equal,
                std::cmp::Ordering::Greater => Order::Greater,
            };
            assert_eq!(compare_text(a, b), expected, "{:?} {:?}", a, b);
        }
    }
}

#[test]
fn same_text_means_equal_strings() {
    assert!(same_text("required", "required"));
    assert!(!same_text("required", "Required"));
    assert!(!same_text("required", "require"));
}

#[test]
fn prefixes_and_suffixes() {
    assert!(starts_with("prism-1.zip", "prism"));
    assert!(!starts_with("pris", "prism"));
    assert!(starts_with("prism", ""));
    assert!(ends_with("prism-1.zip", ".zip"));
    assert!(!ends_with("zip", ".zip"));
    assert!(!ends_with("prism.zip.sha", ".zip"));
}

#[test]
fn labels_sort_ascending() {
    assert_eq!(sort_labels(owned(&["quilt", "fabric", "forge"])), owned(&["fabric", "forge", "quilt"]));
    assert_eq!(sort_labels(Vec::new()), Vec::<String>::new());
}

#[test]
fn sorting_labels_keeps_repetitions() {
    assert_eq!(sort_labels(owned(&["forge", "fabric", "forge"])), owned(&["fabric", "forge", "forge"]));
}

#[test]
fn labels_gather_into_an_ascending_set() {
    assert_eq!(
        collect_labels(owned(&["forge", "fabric", "fabric", "unknown"])),
        owned(&["fabric", "forge", "unknown"])
    );
    assert_eq!(collect_labels(owned(&["b", "a", "c", "a", "b"])), owned(&["a", "b", "c"]));
    assert_eq!(collect_labels(Vec::new()), Vec::<String>::new());
}

#[test]
fn a_label_is_inserted_at_its_place() {
    let mut set = owned(&["a", "c"]);
    insert_label(&mut set, "b".to_string());
    assert_eq!(set, owned(&["a", "b", "c"]));
    insert_label(&mut set, "d".to_string());
    assert_eq!(set, owned(&["a", "b", "c", "d"]));
    insert_label(&mut set, "a".to_string());
    assert_eq!(set, owned(&["a", "b", "c", "d"]));
    insert_label(&mut set, "".to_string());
    assert_eq!(set, owned(&["", "a", "b", "c", "d"]));
}

#[test]
fn marked_strings_are_kept_in_order() {
    let kept = retain_marked(owned(&["a", "b", "c", "d"]), &vec![true, false, false, true]);
    assert_eq!(kept, owned(&["a", "d"]));
    let kept = retain_marked(owned(&["a", "b"]), &vec![false, false]);
    assert_eq!(kept, Vec::<String>::new());
}

#[test]
fn too_few_marks_drop_nothing() {
    let kept = retain_marked(owned(&["a", "b", "c"]), &vec![false]);
    assert_eq!(kept, owned(&["a", "b", "c"]));
}

#[test]
fn strings_join_with_a_separator() {
    assert_eq!(join(&owned(&["a", "b", "c"]), "\",\""), "a\",\"b\",\"c");
    assert_eq!(join(&owned(&["a"]), ", "), "a");
    assert_eq!(join(&Vec::new(), ", "), "");
    assert_eq!(join(&owned(&["", ""]), "-"), "-");
}

#[test]
fn launcher_archives_are_picked_by_name() {
    let names = owned(&[
        "prism-fabric.zip",
        "index.toml",
        "prism.zip",
        "prism-notes.txt",
        "other.zip",
        "Prism.zip",
        "prism-forge.zip",
    ]);
    assert_eq!(get_prism_zips(names), owned(&["prism-fabric.zip", "prism.zip", "prism-forge.zip"]));
}

#[test]
fn a_short_name_is_no_launcher_archive() {
    assert_eq!(get_prism_zips(owned(&["prism", ".zip", "pris.zip", ""])), Vec::<String>::new());
}

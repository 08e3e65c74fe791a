use raur::mirror::{matching_branches, search_branches};
use raur::order::{at_most, sort_names};
use raur::text::has_text;

fn chars(s: &str) -> Vec<char> {
    s.chars().collect()
}

fn strings(list: &[&str]) -> Vec<String> {
    list.iter().map(|s| s.to_string()).collect()
}

#[test]
fn texts_are_ordered_as_in_a_dictionary() {
    assert!(at_most(&chars(""), &chars("")));
    assert!(at_most(&chars(""), &chars("a")));
    assert!(!at_most(&chars("a"), &chars("")));
    assert!(at_most(&chars("abc"), &chars("abd")));
    assert!(!at_most(&chars("abd"), &chars("abc")));
    assert!(at_most(&chars("ab"), &chars("abc")));
    assert!(!at_most(&chars("abc"), &chars("ab")));
    assert!(at_most(&chars("abc"), &chars("abc")));
    assert!(at_most(&chars("Z"), &chars("a")));
    assert!(at_most(&chars("z"), &chars("é")));
}

#[test]
fn order_agrees_with_the_order_of_strings() {
    let words = ["", "a", "A", "ab", "b", "a-b", "a_b", "é", "z", "zz", "10", "9", "\u{10000}", "\u{ffff}"];
    for a in words {
        for b in words {
            assert_eq!(at_most(&chars(a), &chars(b)), a <= b);
        }
    }
}

#[test]
fn names_are_sorted() {
    assert_eq!(
        sort_names(&strings(&["pear", "apple", "fig", "apple-git", "Apple", "fig"])),
        strings(&["Apple", "apple", "apple-git", "fig", "fig", "pear"])
    );
    assert_eq!(sort_names(&[]), Vec::<String>::new());
    let mut expected = strings(&["b", "é", "a", "", "ab", "B"]);
    let sorted = sort_names(&expected);
    expected.sort();
    assert_eq!(sorted, expected);
}

#[test]
fn parts_of_texts_are_found() {
    assert!(has_text(&chars("firefox-git"), &chars("fox")));
    assert!(has_text(&chars("firefox-git"), &chars("")));
    assert!(has_text(&chars("firefox-git"), &chars("firefox-git")));
    assert!(has_text(&chars("aab"), &chars("ab")));
    assert!(!has_text(&chars("firefox-git"), &chars("fax")));
    assert!(!has_text(&chars("fox"), &chars("foxy")));
    assert!(!has_text(&chars(""), &chars("a")));
    assert!(has_text(&chars(""), &chars("")));
}

#[test]
fn search_filters_and_sorts() {
    let branches = strings(&["zfox", "firefox", "chromium", "fox", "Fox", "firefox"]);
    assert_eq!(
        matching_branches(&branches, "fox"),
        strings(&["zfox", "firefox", "fox", "firefox"])
    );
    assert_eq!(
        search_branches(&branches, "fox"),
        strings(&["firefox", "firefox", "fox", "zfox"])
    );
    assert_eq!(search_branches(&branches, "nothing"), Vec::<String>::new());
    assert_eq!(search_branches(&branches, "").len(), 6);
}

use bevy_make_human::filter::{contains_chars, label_contains_filter, matches_filter};

#[test]
fn empty_filter_keeps_everything() {
    assert!(matches_filter("Anything", ""));
    assert!(label_contains_filter("Anything", ""));
}

#[test]
fn terms_must_all_occur_ignoring_case() {
    assert!(matches_filter("Female Old Casual", "old"));
    assert!(matches_filter("Female Old Casual", "OLD fem"));
    assert!(!matches_filter("Female Old Casual", "old young"));
    assert!(matches_filter("Female Old Casual", "   "));
}

#[test]
fn minus_terms_exclude() {
    assert!(!matches_filter("Female Old Casual", "old -female"));
    assert!(matches_filter("Male Old Casual", "old -female"));
    // A lone "-" keeps nothing.
    assert!(!matches_filter("Male", "-"));
    assert!(!matches_filter("none", "-"));
}

#[test]
fn label_contains_filter_is_a_substring_test() {
    assert!(label_contains_filter("TorsoMuscleIncr", "muscle"));
    assert!(!label_contains_filter("TorsoMuscleIncr", "muscle decr"));
}

#[test]
fn contains_chars_finds_runs() {
    let hay: Vec<char> = "abcabd".chars().collect();
    assert!(contains_chars(&hay, &['a', 'b', 'd']));
    assert!(!contains_chars(&hay, &['b', 'd', 'x']));
    assert!(contains_chars(&hay, &[]));
    assert!(!contains_chars(&['a'], &['a', 'a']));
}

#[test]
fn joined_filters_keep_what_both_keep() {
    let labels = ["Female Old Casual", "Male Old Casual", "Male Young Suit", "Old"];
    let parts = ["old", "-female", "", "suit", "ca -x", "-"];
    for label in labels {
        for a in parts {
            for b in parts {
                let joined = format!("{} {}", a, b);
                assert_eq!(
                    matches_filter(label, &joined),
                    matches_filter(label, a) && matches_filter(label, b),
                    "label {:?}, filters {:?} and {:?}",
                    label,
                    a,
                    b
                );
                let swapped = format!("{} {}", b, a);
                assert_eq!(matches_filter(label, &joined), matches_filter(label, &swapped));
            }
        }
    }
}

#[test]
fn filters_ignore_ascii_case() {
    assert!(matches_filter("Male Old Casual", "OLD -FEMALE"));
    assert!(matches_filter("mALE oLD cASUAL", "old -female"));
    assert!(!matches_filter("FEMALE old", "Old -Female"));
    assert!(label_contains_filter("TORSOMUSCLEINCR", "MuscleIncr"));
    assert!(!label_contains_filter("torso", "TORSOS"));
}

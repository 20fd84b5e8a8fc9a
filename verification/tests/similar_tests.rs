use npushell::similar::{edit_distance, find_similar, find_similar_lowered};

const SUBCOMMANDS: [&str; 7] = ["fix", "explain", "suggest", "ask", "doctor", "config", "init"];

#[test]
fn edit_distance_known_values() {
    assert_eq!(edit_distance("kitten", "sitting"), 3);
    assert_eq!(edit_distance("", "abc"), 3);
    assert_eq!(edit_distance("abc", ""), 3);
    assert_eq!(edit_distance("", ""), 0);
    assert_eq!(edit_distance("fxi", "fix"), 2);
    assert_eq!(edit_distance("héllo", "hello"), 1);
}

#[test]
fn edit_distance_is_symmetric_on_examples() {
    for (a, b) in [("doctor", "doctr"), ("suggest", "sugest"), ("init", "config"), ("", "x")] {
        assert_eq!(edit_distance(a, b), edit_distance(b, a));
    }
}

#[test]
fn edit_distance_zero_only_for_equal_words() {
    assert_eq!(edit_distance("explain", "explain"), 0);
    assert_ne!(edit_distance("explain", "explaim"), 0);
}

#[test]
fn find_similar_suggests_near_miss() {
    assert_eq!(find_similar("confg", &SUBCOMMANDS), Some("config"));
    assert_eq!(find_similar("doctr", &SUBCOMMANDS), Some("doctor"));
    assert_eq!(find_similar("Explian", &SUBCOMMANDS), Some("explain"));
}

#[test]
fn find_similar_none_on_exact_match_after_lowercase() {
    assert_eq!(find_similar("FIX", &SUBCOMMANDS), None);
    assert_eq!(find_similar("ask", &SUBCOMMANDS), None);
}

#[test]
fn find_similar_none_when_far() {
    assert_eq!(find_similar("how", &SUBCOMMANDS), None);
    assert_eq!(find_similar("list all usb devices", &SUBCOMMANDS), None);
}

#[test]
fn find_similar_prefers_first_of_closest() {
    assert_eq!(find_similar_lowered("ab", &["xy", "ac", "ad"]), Some("ac"));
    assert_eq!(find_similar_lowered("ab", &["abcd", "a"]), Some("a"));
}

#[test]
fn find_similar_exact_match_wins_even_after_near_miss() {
    assert_eq!(find_similar_lowered("fix", &["fox", "fix"]), None);
}

#[test]
fn edit_distance_triangle_on_examples() {
    let words = ["fix", "fxi", "explain", "", "config", "confg"];
    for a in words {
        for b in words {
            for c in words {
                assert!(edit_distance(a, c) <= edit_distance(a, b) + edit_distance(b, c));
            }
        }
    }
}

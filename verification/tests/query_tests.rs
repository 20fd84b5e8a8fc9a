use npushell::query::{route_free_query, FreeQuery};

fn words(ws: &[&str]) -> Vec<String> {
    ws.iter().map(|w| w.to_string()).collect()
}

#[test]
fn empty_query_shows_help() {
    assert!(matches!(route_free_query(&Vec::new()), FreeQuery::Help));
}

#[test]
fn near_miss_is_a_typo() {
    match route_free_query(&words(&["explian", "ls"])) {
        FreeQuery::Typo { word, suggestion, question } => {
            assert_eq!(word, "explian");
            assert_eq!(suggestion, "explain");
            assert_eq!(question, "explian ls");
        }
        _ => panic!("expected a typo"),
    }
}

#[test]
fn other_words_are_a_question() {
    match route_free_query(&words(&["how", "to", "list", "usb", "devices"])) {
        FreeQuery::Ask(q) => assert_eq!(q, "how to list usb devices"),
        _ => panic!("expected a question"),
    }
    match route_free_query(&words(&["Ask"])) {
        FreeQuery::Ask(q) => assert_eq!(q, "Ask"),
        _ => panic!("expected a question"),
    }
}

use mwlint_web::tokens::{precedes, sort_tokens};

fn strings(items: &[&str]) -> Vec<String> {
    items.iter().map(|item| item.to_string()).collect()
}

#[test]
fn tokens_compare_by_their_bytes() {
    assert!(precedes("", ""));
    assert!(precedes("", "a"));
    assert!(!precedes("a", ""));
    assert!(precedes("a", "a"));
    assert!(precedes("a", "b"));
    assert!(!precedes("b", "a"));
    assert!(precedes("a", "ab"));
    assert!(!precedes("ab", "a"));
    assert!(precedes("ab", "b"));
    assert!(precedes("Z", "a"));
    assert!(precedes("z", "ä"));
    assert!(precedes("ä", "日"));
    assert!(!precedes("日", "ä"));
    assert!(precedes("[", "[["));
    assert!(precedes("<", "<!--"));
}

#[test]
fn order_of_tokens_agrees_with_the_order_of_strings() {
    let samples = ["", " ", "\t", "a", "A", "ab", "b", "{{", "}}", "|", "ß", "ſ", "日本", "<character>"];
    for a in samples {
        for b in samples {
            assert_eq!(precedes(a, b), a <= b, "{:?} {:?}", a, b);
        }
    }
}

#[test]
fn sorting_puts_tokens_in_order() {
    assert_eq!(sort_tokens(vec![]), strings(&[]));
    assert_eq!(sort_tokens(strings(&["b"])), strings(&["b"]));
    assert_eq!(sort_tokens(strings(&["b", "a"])), strings(&["a", "b"]));
    assert_eq!(
        sort_tokens(strings(&["}}", "''", "\t", "|", "[", "'''", "[[", "<", "{{", " "])),
        strings(&["\t", " ", "''", "'''", "<", "[", "[[", "{{", "|", "}}"])
    );
}

#[test]
fn sorting_keeps_every_token() {
    assert_eq!(sort_tokens(strings(&["a", "b", "a", "", "a"])), strings(&["", "a", "a", "a", "b"]));
}

#[test]
fn every_order_of_the_same_tokens_sorts_the_same() {
    let orders = [
        ["<", "{{", "[["],
        ["<", "[[", "{{"],
        ["{{", "<", "[["],
        ["{{", "[[", "<"],
        ["[[", "<", "{{"],
        ["[[", "{{", "<"],
    ];
    for order in orders {
        assert_eq!(sort_tokens(strings(&order)), strings(&["<", "[[", "{{"]));
    }
}

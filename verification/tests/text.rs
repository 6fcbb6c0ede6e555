use gregory::text::{chars_of, contains, lex_le_chars, sort_lex, string_from_chars};

fn v(s: &str) -> Vec<char> {
    s.chars().collect()
}

#[test]
fn chars_round_trip() {
    assert_eq!(chars_of("héllo"), vec!['h', 'é', 'l', 'l', 'o']);
    assert_eq!(string_from_chars(&['a', 'ß']), "aß");
}

#[test]
fn contains_finds_runs() {
    assert!(contains(&v("keystep pro"), &v("step")));
    assert!(contains(&v("abc"), &v("")));
    assert!(contains(&v(""), &v("")));
    assert!(!contains(&v("abc"), &v("abcd")));
    assert!(!contains(&v("abc"), &v("ac")));
    assert!(contains(&v("aab"), &v("ab")));
}

#[test]
fn lexicographic_order() {
    assert!(lex_le_chars(&v("a"), &v("b")));
    assert!(!lex_le_chars(&v("b"), &v("a")));
    assert!(lex_le_chars(&v("pad"), &v("pad 2")));
    assert!(!lex_le_chars(&v("pad 2"), &v("pad")));
    assert!(lex_le_chars(&v("Z"), &v("a")));
    assert!(lex_le_chars(&v("same"), &v("same")));
    assert!(lex_le_chars(&v(""), &v("")));
}

#[test]
fn sort_orders_like_strings() {
    let words = ["pad 2", "b", "Z", "", "pad", "a", "b"];
    let items: Vec<Vec<char>> = words.iter().map(|w| v(w)).collect();
    let sorted: Vec<String> = sort_lex(&items).iter().map(|c| c.iter().collect()).collect();
    let mut expected: Vec<String> = words.iter().map(|w| w.to_string()).collect();
    expected.sort();
    assert_eq!(sorted, expected);
}

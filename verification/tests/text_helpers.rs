use artfetch::text::{
    cat, chars_of, decimal_chars, eq_ignore_case, find_first, find_last, lex_less, lower_contains,
    replace_chars, same_text, strip_prefix_chars, take_after_last, take_before_first,
    take_before_last_or_all, trim_chars,
};

fn v(s: &str) -> Vec<char> {
    chars_of(s)
}

fn s(v: &Vec<char>) -> String {
    v.iter().collect()
}

#[test]
fn searching() {
    assert_eq!(find_first(&v("a - b - c"), &v(" - ")), Some(1));
    assert_eq!(find_last(&v("a - b - c"), &v(" - ")), Some(5));
    assert_eq!(find_first(&v("abc"), &v("x")), None);
    assert_eq!(find_last(&v("ab"), &v("abc")), None);
    assert!(lower_contains("Oil ON Canvas", "on can"));
    assert!(!lower_contains("Oil", "oils"));
}

#[test]
fn slicing_and_trimming() {
    assert_eq!(s(&trim_chars(&v("\u{3000} x y \n"))), "x y");
    assert_eq!(s(&trim_chars(&v("   "))), "");
    assert_eq!(s(&take_before_first(&v("2020T10"), 'T')), "2020");
    assert_eq!(s(&take_after_last(&v("a/b/c"), '/')), "c");
    assert_eq!(s(&take_after_last(&v("abc"), '/')), "abc");
    assert_eq!(s(&take_before_last_or_all(&v("a.b.c"), '.')), "a.b");
    assert_eq!(s(&strip_prefix_chars(&v("File:x"), &v("File:"))), "x");
    assert_eq!(s(&strip_prefix_chars(&v("file:x"), &v("File:"))), "file:x");
    assert_eq!(s(&replace_chars(&v("a_b_c"), '_', ' ')), "a b c");
}

#[test]
fn comparing() {
    assert!(same_text("met", "met"));
    assert!(!same_text("met", "Met"));
    assert!(eq_ignore_case(&v("Canvas"), &v("cANVAS")));
    assert!(!eq_ignore_case(&v("Canvas"), &v("Canva")));
    assert!(lex_less(&v("apple"), &v("banana")));
    assert!(lex_less(&v("app"), &v("apple")));
    assert!(!lex_less(&v("apple"), &v("apple")));
    assert!(lex_less(&v("zebra"), &v("éclair")));
}

#[test]
fn building() {
    assert_eq!(cat("ab", "cd"), "abcd");
    assert_eq!(s(&decimal_chars(0)), "0");
    assert_eq!(s(&decimal_chars(1203)), "1203");
}

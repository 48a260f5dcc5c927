use task_relations::text::{join, text_eq, text_lt, text_matches, trim_end, trim_start};

#[test]
fn texts_are_compared_by_their_characters() {
    assert!(text_eq("", ""));
    assert!(text_eq("abc", "abc"));
    assert!(!text_eq("abc", "abd"));
    assert!(!text_eq("abc", "ab"));
    assert!(text_eq("né", "né"));
}

#[test]
fn text_order_is_by_code_point() {
    assert!(text_lt("", "a"));
    assert!(!text_lt("", ""));
    assert!(!text_lt("a", ""));
    assert!(text_lt("a", "b"));
    assert!(!text_lt("b", "a"));
    assert!(text_lt("ab", "abc"));
    assert!(!text_lt("abc", "ab"));
    assert!(!text_lt("abc", "abc"));
    // Upper case stands before lower case, and ASCII before the rest.
    assert!(text_lt("Z", "a"));
    assert!(text_lt("z", "é"));
    assert!(text_lt("é", "日"));
    for (a, b) in [("apple", "apricot"), ("Mid", "alp"), ("x", "xé"), ("日本", "日本語")] {
        assert_eq!(text_lt(a, b), a < b);
        assert_eq!(text_lt(b, a), b < a);
    }
}

#[test]
fn joining_puts_the_separator_between() {
    let items = |list: &[&str]| -> Vec<String> { list.iter().map(|s| s.to_string()).collect() };
    assert_eq!(join(&items(&[]), ", "), "");
    assert_eq!(join(&items(&["a"]), ", "), "a");
    assert_eq!(join(&items(&["a", "b"]), ", "), "a, b");
    assert_eq!(join(&items(&["a", "", "c"]), "-"), "a--c");
    assert_eq!(join(&items(&["x", "y", "z"]), ""), "xyz");
}

#[test]
fn trimming_takes_the_character_from_one_end() {
    assert_eq!(trim_end("a/b//", '/'), "a/b");
    assert_eq!(trim_end("///", '/'), "");
    assert_eq!(trim_end("", '/'), "");
    assert_eq!(trim_end("/a", '/'), "/a");
    assert_eq!(trim_start("//a/b/", '/'), "a/b/");
    assert_eq!(trim_start("///", '/'), "");
    assert_eq!(trim_start("a/", '/'), "a/");
    assert_eq!(trim_start("é/é", 'é'), "/é");
}

#[test]
fn search_ignores_the_case_of_letters() {
    assert!(text_matches("Blocks", "block"));
    assert!(text_matches("blocks", "LOCK"));
    assert!(text_matches("anything", ""));
    assert!(text_matches("", ""));
    assert!(!text_matches("", "a"));
    assert!(!text_matches("blocks", "blocked"));
    assert!(text_matches("ÄRGER", "ärg"));
}

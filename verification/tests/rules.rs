use tower_proxy::rewrite::{
    join_path_and_query, AppendPrefix, AppendSuffix, Identity, PathRegex, PathRewriter, RegexAll,
    RegexN, ReplaceAll, ReplaceN, Static, TrimPrefix, TrimSuffix,
};
use std::borrow::Cow;

use tower_proxy::text::{contains_text, ends_with_text, replace_text, starts_with_text};

#[test]
fn identity_keeps_the_path() {
    assert_eq!(Identity.rewrite("foo"), "foo");
    assert_eq!(Identity.rewrite(""), "");
}

#[test]
fn documented_examples() {
    assert_eq!(Static("bar").rewrite("foo"), "bar");
    assert_eq!(ReplaceAll("foo", "bar").rewrite("foofoo"), "barbar");
    assert_eq!(ReplaceN("foo", "bar", 1).rewrite("foofoo"), "barfoo");
    assert_eq!(ReplaceN("foo", "bar", 3).rewrite("foofoo"), "barbar");
    assert_eq!(TrimPrefix("foo").rewrite("foobarfoo"), "barfoo");
    assert_eq!(TrimPrefix("bar").rewrite("foobarfoo"), "foobarfoo");
    assert_eq!(TrimSuffix("foo").rewrite("foobarfoo"), "foobar");
    assert_eq!(TrimSuffix("bar").rewrite("foobarfoo"), "foobarfoo");
    assert_eq!(AppendPrefix("foo").rewrite("bar"), "foobar");
    assert_eq!(AppendSuffix("foo").rewrite("bar"), "barfoo");
}

#[test]
fn documented_regex_examples() {
    let re = PathRegex::new(r"(?P<y>\d{4})/(?P<m>\d{2})").unwrap();
    assert_eq!(
        RegexAll(re.clone(), "$m-$y").rewrite("2021/10/2022/12"),
        "10-2021/12-2022"
    );
    assert_eq!(
        RegexN(re.clone(), "$m-$y", 1).rewrite("2021/10/2022/12"),
        "10-2021/2022/12"
    );
    assert_eq!(
        RegexN(re, "$m-$y", 3).rewrite("2021/10/2022/12"),
        "10-2021/12-2022"
    );
}

#[test]
fn regex_limit_zero_replaces_none() {
    let re = PathRegex::new("o").unwrap();
    assert_eq!(RegexN(re.clone(), "0", 0).rewrite("/foo/boo"), "/foo/boo");
    assert_eq!(RegexN(re.clone(), "0", 3).rewrite("/foo/boo"), "/f00/b0o");
    assert_eq!(RegexAll(re, "0").rewrite("/foo/boo"), "/f00/b00");
}

#[test]
fn regex_with_owned_replacement_and_no_match() {
    let re = PathRegex::new(r"\d+").unwrap();
    assert_eq!(RegexAll(re.clone(), String::from("N")).rewrite("/a1/b22"), "/aN/bN");
    assert_eq!(RegexAll(re, "N").rewrite("/a/b"), "/a/b");
}

#[test]
fn regex_pattern_is_kept() {
    let re = PathRegex::new(r"a+b").unwrap();
    assert_eq!(re.as_str(), "a+b");
}

#[test]
fn invalid_regex_is_refused() {
    let err = PathRegex::new("foo(bar").unwrap_err();
    assert!(!err.message.is_empty());
}

#[test]
fn replace_n_zero_replaces_nothing() {
    assert_eq!(ReplaceN("foo", "bar", 0).rewrite("/foo/foo"), "/foo/foo");
}

#[test]
fn replace_empty_pattern_inserts_between_characters() {
    assert_eq!(ReplaceAll("", "-").rewrite("abc"), "-a-b-c-");
    assert_eq!(ReplaceN("", "-", 2).rewrite("abc"), "-a-bc");
    assert_eq!(ReplaceAll("", "-").rewrite(""), "-");
    assert_eq!("abc".replace("", "-"), replace_text("abc", "", "-", None));
    assert_eq!("abc".replacen("", "-", 2), replace_text("abc", "", "-", Some(2)));
}

#[test]
fn replace_is_leftmost_and_non_overlapping() {
    assert_eq!(ReplaceAll("aa", "b").rewrite("aaaaa"), "bba");
    assert_eq!(ReplaceN("aa", "b", 1).rewrite("aaaaa"), "baaa");
    assert_eq!(ReplaceAll("aba", "X").rewrite("ababa"), "Xba");
}

#[test]
fn replace_agrees_with_std_on_unicode() {
    let cases = [
        ("/ä/öä/ä", "ä", "ae"),
        ("/日本/日本語", "日本", "jp"),
        ("/x/y", "é", "e"),
        ("ééé", "éé", "E"),
    ];
    for (s, from, to) in cases {
        assert_eq!(replace_text(s, from, to, None), s.replace(from, to));
        for n in 0..4 {
            assert_eq!(replace_text(s, from, to, Some(n)), s.replacen(from, to, n));
        }
        assert_eq!(contains_text(s, from), s.contains(from));
    }
}

#[test]
fn replace_by_itself_keeps_the_path() {
    assert_eq!(ReplaceAll("foo", "foo").rewrite("/foo/foofoo"), "/foo/foofoo");
    assert_eq!(ReplaceAll("", "").rewrite("/foo"), "/foo");
}

#[test]
fn enough_replacements_are_all_replacements() {
    let path = "/a/a/a";
    let mut rw = ReplaceAll("a", "b");
    let all = rw.rewrite(path).into_owned();
    assert_eq!(ReplaceN("a", "b", 3).rewrite(path), all);
    assert_eq!(ReplaceN("a", "b", 10).rewrite(path), all);
    assert_ne!(ReplaceN("a", "b", 2).rewrite(path), all);
}

#[test]
fn trim_undoes_append() {
    let path = "/x/y";
    let prefixed = AppendPrefix("/api").rewrite(path).into_owned();
    assert_eq!(TrimPrefix("/api").rewrite(&prefixed), path);
    let suffixed = AppendSuffix(".json").rewrite(path).into_owned();
    assert_eq!(TrimSuffix(".json").rewrite(&suffixed), path);
}

#[test]
fn borrowed_where_nothing_changes() {
    assert!(matches!(Identity.rewrite("/a"), Cow::Borrowed("/a")));
    assert!(matches!(ReplaceAll("x", "y").rewrite("/a"), Cow::Borrowed("/a")));
    assert!(matches!(ReplaceAll("a", "y").rewrite("/a"), Cow::Owned(_)));
    assert!(matches!(ReplaceN("x", "y", 2).rewrite("/a"), Cow::Borrowed("/a")));
    assert!(matches!(TrimPrefix("/a").rewrite("/a/b"), Cow::Borrowed("/b")));
    assert!(matches!(TrimSuffix("/b").rewrite("/a/b"), Cow::Borrowed("/a")));
    assert!(matches!(Static("/s").rewrite("/a"), Cow::Borrowed("/s")));
    assert!(matches!(AppendPrefix("/p").rewrite("/a"), Cow::Owned(_)));
    let re = PathRegex::new("x").unwrap();
    assert!(matches!(RegexAll(re.clone(), "y").rewrite("/a"), Cow::Borrowed("/a")));
    assert!(matches!(RegexN(re, "y", 0).rewrite("/x"), Cow::Borrowed("/x")));
}

#[test]
fn rules_are_unchanged_by_rewriting() {
    let mut rw = ReplaceN(String::from("a"), String::from("b"), 1);
    let first = rw.rewrite("/a/a").into_owned();
    let second = rw.rewrite("/a/a").into_owned();
    assert_eq!(first, "/b/a");
    assert_eq!(first, second);
    assert_eq!(rw, ReplaceN(String::from("a"), String::from("b"), 1));
}

#[test]
fn clones_rewrite_alike() {
    let mut rw = ReplaceAll(String::from("/v1"), String::from("/v2"));
    let mut copy = rw.clone();
    assert_eq!(rw.rewrite("/v1/x"), copy.rewrite("/v1/x"));
    let mut re = RegexN(PathRegex::new("[0-9]").unwrap(), String::from("#"), 1);
    let mut re_copy = re.clone();
    assert_eq!(re.rewrite("/a1/b2"), "/a#/b2");
    assert_eq!(re_copy.rewrite("/a1/b2"), "/a#/b2");
}

#[test]
fn trim_longer_than_path() {
    assert_eq!(TrimPrefix("/foo/bar/baz").rewrite("/foo"), "/foo");
    assert_eq!(TrimSuffix("/foo/bar/baz").rewrite("baz"), "baz");
    assert_eq!(TrimPrefix("").rewrite("/foo"), "/foo");
    assert_eq!(TrimSuffix("/foo").rewrite("/foo"), "");
}

#[test]
fn prefix_and_suffix_tests() {
    assert!(starts_with_text("/ab/c", "/ab"));
    assert!(!starts_with_text("/ab/c", "ab"));
    assert!(ends_with_text("/ab/c", "/c"));
    assert!(!ends_with_text("/ab/c", "/ab"));
    assert!(starts_with_text("/ab", ""));
    assert!(!ends_with_text("c", "abc"));
}

#[test]
fn trim_unicode_paths() {
    assert_eq!(TrimPrefix("/ä").rewrite("/ä/ö"), "/ö");
    assert_eq!(TrimSuffix("ö").rewrite("/ä/ö"), "/ä/");
}

#[test]
fn path_and_query_joined() {
    assert_eq!(join_path_and_query("/a/b", Some("x=1&y=2")), "/a/b?x=1&y=2");
    assert_eq!(join_path_and_query("/a/b", None), "/a/b");
    assert_eq!(join_path_and_query("/a", Some("")), "/a?");
}

use tower_proxy::rewrite::{
    AppendPrefix, AppendSuffix, Func, PathRegex as LibRegex, PathRewriter, RegexAll, RegexN,
    ReplaceAll, ReplaceN, Static, TrimPrefix, TrimSuffix,
};

#[test]
fn rewrite_static() {
    let path = "/foo/bar";
    let mut rw = Static("/baz");
    assert_eq!(rw.rewrite(path), "/baz");
}

#[test]
fn replace() {
    let path = "/foo/bar/foo/baz/foo";
    let mut rw = ReplaceAll("foo", "FOO");
    assert_eq!(rw.rewrite(path), "/FOO/bar/FOO/baz/FOO");

    let path = "/foo/bar/foo/baz/foo";
    let mut rw = ReplaceAll("/foo", "");
    assert_eq!(rw.rewrite(path), "/bar/baz");

    let path = "/foo/bar/foo/baz/foo";
    let mut rw = ReplaceN("foo", "FOO", 2);
    assert_eq!(rw.rewrite(path), "/FOO/bar/FOO/baz/foo");
}

#[test]
fn trim() {
    let path = "/foo/foo/bar";
    let mut rw = TrimPrefix("/foo");
    assert_eq!(rw.rewrite(path), "/foo/bar");

    let path = "/foo/foo/bar";
    let mut rw = TrimPrefix("foo");
    assert_eq!(rw.rewrite(path), "/foo/foo/bar");

    let path = "/bar/foo/foo";
    let mut rw = TrimSuffix("foo");
    assert_eq!(rw.rewrite(path), "/bar/foo/");

    let path = "/bar/foo/foo";
    let mut rw = TrimSuffix("foo/");
    assert_eq!(rw.rewrite(path), "/bar/foo/foo");
}

#[test]
fn append() {
    let path = "/foo/bar";
    let mut rw = AppendPrefix("/baz");
    assert_eq!(rw.rewrite(path), "/baz/foo/bar");

    let path = "/foo/bar";
    let mut rw = AppendSuffix("/baz");
    assert_eq!(rw.rewrite(path), "/foo/bar/baz");

    let path = "/foo/bar";
    let mut rw = AppendPrefix("/baz".to_owned());
    assert_eq!(rw.rewrite(path), "/baz/foo/bar");
}

#[test]
fn regex() {
    let path = "/2021/10/21/2021/12/02/2022/01/13";
    let mut rw = RegexAll(
        LibRegex::new(r"(?P<y>\d{4})/(?P<m>\d{2})/(?P<d>\d{2})").unwrap(),
        "$m-$d-$y",
    );
    assert_eq!(rw.rewrite(path), "/10-21-2021/12-02-2021/01-13-2022");

    let path = "/2021/10/21/2021/12/02/2022/01/13";
    let mut rw = RegexN(
        LibRegex::new(r"(?P<y>\d{4})/(?P<m>\d{2})/(?P<d>\d{2})").unwrap(),
        "$m-$d-$y",
        2,
    );
    assert_eq!(rw.rewrite(path), "/10-21-2021/12-02-2021/2022/01/13");
}

#[test]
fn owned_strings() {
    let mut rw = AppendPrefix(String::from("/baz"));
    let mut clone = rw.clone();
    assert_eq!(rw.rewrite("/foo/bar"), "/baz/foo/bar");
    assert_eq!(clone.rewrite("/foo/bar"), "/baz/foo/bar");
}

#[test]
fn func() {
    let path = "/abcdefg";
    let mut rw = Func(|path: &str| path.len().to_string());
    assert_eq!(rw.rewrite(path), "8");
}

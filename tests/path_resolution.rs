use jdbhttpd::resolve::resolve;

fn res(root: &str, target: &str) -> String {
    String::from_utf8(resolve(&root.as_bytes().to_vec(), &target.as_bytes().to_vec())).unwrap()
}

#[test]
fn root_target_serves_index() {
    assert_eq!(res("htdocs", "/"), "htdocs/index.html");
    assert_eq!(res("/srv/www", "/"), "/srv/www/index.html");
}

#[test]
fn empty_target_serves_index() {
    assert_eq!(res("htdocs", ""), "htdocs/index.html");
}

#[test]
fn directory_target_appends_index() {
    assert_eq!(res("htdocs", "/docs/"), "htdocs/docs/index.html");
    assert_eq!(res("htdocs", "docs/"), "htdocs/docs/index.html");
    assert_eq!(res("htdocs", "//"), "htdocs//index.html");
}

#[test]
fn file_target_is_verbatim() {
    assert_eq!(res("htdocs", "/missing.html"), "htdocs/missing.html");
    assert_eq!(res("htdocs", "/a/b.txt"), "htdocs/a/b.txt");
    assert_eq!(res("htdocs", "a.txt"), "htdocs/a.txt");
    assert_eq!(res("htdocs", "/docs"), "htdocs/docs");
}

#[test]
fn parent_segments_are_not_removed() {
    assert_eq!(res("htdocs", "/../secret"), "htdocs/../secret");
}

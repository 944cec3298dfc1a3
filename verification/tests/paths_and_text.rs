use tape::path::TapePath;
use tape::text::{contains_text, starts_with, text_equals, trim};

fn p(s: &str) -> TapePath {
    TapePath::parse(s)
}

fn parts(t: &TapePath) -> Vec<String> {
    (0..t.len()).map(|i| t.component(i)).collect()
}

#[test]
fn parse_splits_rooted_path_into_components() {
    let t = p("/home/user/.config");
    assert!(t.is_absolute());
    assert_eq!(parts(&t), vec!["home", "user", ".config"]);
}

#[test]
fn parse_drops_empty_and_inner_dot_components() {
    let t = p("a//b/./c/");
    assert!(!t.is_absolute());
    assert_eq!(parts(&t), vec!["a", "b", "c"]);
}

#[test]
fn parse_keeps_leading_dot() {
    assert_eq!(parts(&p("./x")), vec![".", "x"]);
    assert_eq!(parts(&p(".")), vec!["."]);
    assert_eq!(parts(&p("./.")), vec!["."]);
    assert_eq!(parts(&p("")).len(), 0);
    assert_eq!(parts(&p("..")), vec![".."]);
}

#[test]
fn render_reads_back() {
    for s in ["/home/user/.config", "a/b", "./x", ".", "", "/", "../up"] {
        let t = p(s);
        assert!(TapePath::parse(&t.render()).same_as(&t), "{s}");
    }
    assert_eq!(p("a//b/./c/").render(), "a/b/c");
    assert_eq!(p("/").render(), "/");
}

#[test]
fn join_appends_relative_and_replaces_with_rooted() {
    assert_eq!(p("/home/u").join(&p("x/y")).render(), "/home/u/x/y");
    assert_eq!(p("/home/u").join(&p("/etc")).render(), "/etc");
    assert_eq!(p("/home/u").join(&p("./x")).render(), "/home/u/x");
    assert_eq!(p("").join(&p("./x")).render(), "./x");
    assert_eq!(p("a").join(&p(".")).render(), "a");
}

#[test]
fn parent_and_file_name() {
    assert_eq!(p("/a/b").parent().unwrap().render(), "/a");
    assert_eq!(p("a").parent().unwrap().render(), "");
    assert!(p("/").parent().is_none());
    assert!(p("").parent().is_none());
    assert_eq!(p("/a/b").file_name().unwrap(), "b");
    assert!(p("/a/..").file_name().is_none());
    assert!(p(".").file_name().is_none());
    assert!(p("/").file_name().is_none());
}

#[test]
fn with_file_name_replaces_last_component() {
    assert_eq!(p("/a/b").with_file_name(".b.bak").render(), "/a/.b.bak");
    assert_eq!(p("/a/..").with_file_name("x").render(), "/a/../x");
    assert_eq!(p("/").with_file_name("x").render(), "/x");
}

#[test]
fn strip_prefix_is_componentwise() {
    assert_eq!(p("/home/u/x/y").strip_prefix(&p("/home/u")).unwrap().render(), "x/y");
    assert!(p("/home/uu/x").strip_prefix(&p("/home/u")).is_none());
    assert!(p("/home/u").strip_prefix(&p("home")).is_none());
    assert_eq!(p("/home/u").strip_prefix(&p("")).unwrap().render(), "/home/u");
    assert_eq!(p("/home/u").strip_prefix(&p("/home/u")).unwrap().render(), "");
    let base = p("/lib/tapes");
    let more = p("rice/hypr");
    assert!(base.join(&more).strip_prefix(&base).unwrap().same_as(&more));
}

#[test]
fn same_as_compares_components() {
    assert!(p("/a/b/").same_as(&p("/a//b")));
    assert!(!p("/a/b").same_as(&p("a/b")));
    assert!(!p("/a/b").same_as(&p("/a/c")));
    assert!(p("/lib/tapes").join(&p(".")).same_as(&p("/lib/tapes")));
}

#[test]
fn trim_removes_unicode_whitespace() {
    assert_eq!(trim("  rice \t\r\n"), "rice");
    assert_eq!(trim("\u{3000}x y\u{00A0}"), "x y");
    assert_eq!(trim("   "), "");
    assert_eq!(trim(""), "");
}

#[test]
fn prefix_infix_and_equality() {
    assert!(starts_with("FILENAME: x", "FILENAME: "));
    assert!(!starts_with("FILENAME", "FILENAME: "));
    assert!(contains_text("/home/u/.local/share/tapes", ".local/share/tapes"));
    assert!(!contains_text("/home/u/.local/share/tape", ".local/share/tapes"));
    assert!(contains_text("abc", ""));
    assert!(text_equals("tape.toml", "tape.toml"));
    assert!(!text_equals("tape.toml", "tape.tom"));
}

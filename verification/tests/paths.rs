use cargo_generate::path::{PathStyle, TemplatePath};
use cargo_generate::text::{is_separator, split, strip_suffix, words, Separator};
use std::path::{Component, Path};

const TEXTS: [&str; 18] = [
    "", ".", "..", "/", "//", "a", "a/b", "/a/b", "a//b/", "./a", "a/./b", "/./a", "././a", "../a",
    "a/..", "/a/", "a/.", "sub/ünï/名",
];

fn names_of(path: &Path) -> (String, Vec<String>) {
    let mut root = String::new();
    let mut names = Vec::new();
    for component in path.components() {
        let text = component.as_os_str().to_str().unwrap().to_string();
        match component {
            Component::RootDir => root.push_str(&text),
            _ => names.push(text),
        }
    }
    (root, names)
}

fn parts(path: &TemplatePath) -> (String, Vec<String>) {
    (path.root.clone(), path.names.clone())
}

#[test]
fn paths_are_read_as_by_the_standard_library() {
    for text in TEXTS {
        assert_eq!(parts(&TemplatePath::parse(text, PathStyle::Unix)), names_of(Path::new(text)), "{:?}", text);
    }
}

#[test]
fn paths_are_joined_as_by_the_standard_library() {
    for one in TEXTS {
        for other in TEXTS {
            let joined = TemplatePath::parse(one, PathStyle::Unix).join(&TemplatePath::parse(other, PathStyle::Unix));
            let expected = Path::new(one).join(other);
            assert_eq!(parts(&joined), names_of(&expected), "{:?} {:?}", one, other);
        }
    }
}

#[test]
fn parents_and_prefixes_are_those_of_the_standard_library() {
    for one in TEXTS {
        let parent = TemplatePath::parse(one, PathStyle::Unix).parent().map(|p| parts(&p));
        assert_eq!(parent, Path::new(one).parent().map(names_of), "{:?}", one);
        for other in TEXTS {
            let (a, b) = (TemplatePath::parse(one, PathStyle::Unix), TemplatePath::parse(other, PathStyle::Unix));
            let (p, q) = (Path::new(one), Path::new(other));
            assert_eq!(a.starts_with(&b), p.starts_with(q), "{:?} {:?}", one, other);
            assert_eq!(a.same(&b), p == q, "{:?} {:?}", one, other);
        }
    }
}

#[test]
fn the_text_of_a_path_denotes_it() {
    for text in ["a", "a/b", "dir2/dir2_2", "x/../y"] {
        let path = TemplatePath::parse(text, PathStyle::Unix);
        assert_eq!(path.to_text(PathStyle::Unix), text);
        assert!(TemplatePath::parse(&path.to_text(PathStyle::Unix), PathStyle::Unix).same(&path));
    }
    assert_eq!(TemplatePath::parse("/a//b/", PathStyle::Unix).to_text(PathStyle::Unix), "/a/b");
}

#[test]
fn a_plain_name_is_undone_by_its_parent() {
    let base = TemplatePath::parse("/t/a", PathStyle::Unix);
    let joined = base.join(&TemplatePath::parse("name", PathStyle::Unix));
    assert_eq!(joined.to_text(PathStyle::Unix), "/t/a/name");
    assert!(joined.starts_with(&base));
    assert!(joined.parent().unwrap().same(&base));
}

#[test]
fn paths_are_read_and_written_with_backslashes_on_windows() {
    let read = |text: &str| parts(&TemplatePath::parse(text, PathStyle::Windows));
    let path = |root: &str, names: &[&str]| {
        (root.to_string(), names.iter().map(|name| name.to_string()).collect::<Vec<String>>())
    };
    assert_eq!(read("a\\b/c"), path("", &["a", "b", "c"]));
    assert_eq!(read(".\\a\\.\\b\\"), path("", &[".", "a", "b"]));
    assert_eq!(read("/a"), path("\\", &["a"]));
    assert_eq!(read("c:\\a\\b"), path("c:\\", &["a", "b"]));
    assert_eq!(read("C:a"), path("C:", &["a"]));
    assert_eq!(read("1:\\a"), path("", &["1:", "a"]));
    assert_eq!(read("\\\\server\\share\\a"), path("\\\\server\\share\\a", &[]));
    assert_eq!(read("\\\\a"), path("\\", &["a"]));
    let (root, names) = parts(&TemplatePath::parse("C:\\a", PathStyle::Unix));
    assert_eq!((root.as_str(), names.len()), ("", 1));

    let text = |one: &str, other: &str| {
        let one = TemplatePath::parse(one, PathStyle::Windows);
        one.join(&TemplatePath::parse(other, PathStyle::Windows)).to_text(PathStyle::Windows)
    };
    assert_eq!(text("C:\\a", "b/c"), "C:\\a\\b\\c");
    assert_eq!(text("C:\\a", "\\b"), "C:\\b");
    assert_eq!(text("C:a", "\\b"), "C:\\b");
    assert_eq!(text("C:\\a", "D:b"), "D:b");
    assert_eq!(text("\\a", "\\b"), "\\b");
    assert_eq!(text("a", "\\b"), "\\b");
}

#[test]
fn white_space_is_that_of_the_standard_library() {
    for c in '\0'..=char::MAX {
        assert_eq!(is_separator(Separator::WhiteSpace, c), c.is_whitespace(), "{:?}", c);
        assert_eq!(is_separator(Separator::Slash, c), c == '/');
        assert_eq!(is_separator(Separator::AnySlash, c), c == '/' || c == '\\');
    }
}

#[test]
fn words_are_those_of_the_standard_library() {
    for text in ["", " ", "cargo", "cargo test", "  a\tb\n c\u{3000}d ", "é ü"] {
        let expected: Vec<&str> = text.split_whitespace().collect();
        assert_eq!(words(text), expected);
    }
}

#[test]
fn pieces_between_slashes_lose_nothing() {
    for text in ["", "/", "a", "a/b", "//", "/a//b/", "名/前"] {
        let pieces = split(text, Separator::Slash);
        let expected: Vec<&str> = text.split('/').collect();
        assert_eq!(pieces, expected);
        assert_eq!(pieces.join("/"), text);
    }
}

#[test]
fn suffixes_are_taken_off() {
    for (text, suffix) in [
        ("a.liquid", ".liquid"),
        (".liquid", ".liquid"),
        ("liquid", ".liquid"),
        ("a.liquid.rs", ".liquid"),
        ("ä.liquid", ".liquid"),
        ("a", ""),
    ] {
        let expected = text.strip_suffix(suffix).map(str::to_string);
        assert_eq!(strip_suffix(text, suffix), expected);
    }
}

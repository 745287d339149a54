use app_update::path::{file_name, join, parent, with_extension, PathStyle};
use app_update::unix_path::extension;
use std::path::Path;

const PATHS: [&str; 24] = [
    "", "/", ".", "..", "a", "a/", "a/b", "a/b/", "a//b", "a/./b", "a/b/.", "a/b/./", "/a", "/a/",
    "/a/b.c", "a/..", "a.app", "x/.app", "x/a.", "x/a.b.c", "./a", "/.", "//", "/a/My.app",
];

fn text(path: Option<&Path>) -> Option<String> {
    path.map(|path| path.to_str().unwrap().to_string())
}

#[test]
fn paths_are_taken_apart_as_the_standard_library_does() {
    for path in PATHS {
        let std_path = Path::new(path);
        assert_eq!(parent(PathStyle::Unix, path), text(std_path.parent()), "{path}");
        assert_eq!(
            file_name(PathStyle::Unix, path),
            text(std_path.file_name().map(Path::new)),
            "{path}",
        );
        assert_eq!(extension(path), text(std_path.extension().map(Path::new)), "{path}");
    }
}

#[test]
fn paths_are_joined_as_the_standard_library_does() {
    for base in PATHS {
        for rel in PATHS {
            assert_eq!(
                join(PathStyle::Unix, base, rel),
                Path::new(base).join(rel).to_str().unwrap(),
            );
        }
    }
}

#[test]
fn extensions_are_replaced() {
    assert_eq!(with_extension(PathStyle::Unix, "/x/My.app", "temp.zip"), "/x/My.temp.zip");
    assert_eq!(with_extension(PathStyle::Unix, "/x/My", "temp.zip"), "/x/My.temp.zip");
    assert_eq!(with_extension(PathStyle::Unix, "/x/My.app/", "temp.zip"), "/x/My.temp.zip");
    assert_eq!(with_extension(PathStyle::Unix, "/x/.app", "temp.zip"), "/x/.app.temp.zip");
    assert_eq!(with_extension(PathStyle::Unix, "/", "temp.zip"), "/");
    for path in ["a/b.c", "b.c.d", "x/..", "name."] {
        assert_eq!(
            with_extension(PathStyle::Unix, path, "z"),
            Path::new(path).with_extension("z").to_str().unwrap()
        );
    }
}

fn windows_parent(path: &str) -> Option<String> {
    parent(PathStyle::Windows, path)
}

fn windows_name(path: &str) -> Option<String> {
    file_name(PathStyle::Windows, path)
}

fn windows_join(base: &str, rel: &str) -> String {
    join(PathStyle::Windows, base, rel)
}

#[test]
fn windows_paths_are_joined() {
    for (base, rel, path) in [
        ("C:\\p", "target", "C:\\p\\target"),
        ("C:/p/", "target", "C:/p/target"),
        ("C:\\p", "a/b", "C:\\p\\a/b"),
        ("C:", "a", "C:a"),
        ("", "a", "a"),
        ("p", "", "p\\"),
        ("C:\\p", "D:\\a.ico", "D:\\a.ico"),
        ("C:\\p", "D:a.ico", "D:a.ico"),
        ("C:\\p", "\\a.ico", "C:\\a.ico"),
        ("C:\\p", "/a.ico", "C:/a.ico"),
        ("\\\\srv\\share\\p", "\\a", "\\\\srv\\share\\a"),
        ("\\\\srv\\share", "a", "\\\\srv\\share\\a"),
        ("C:\\p", "\\\\srv\\share\\a", "\\\\srv\\share\\a"),
        ("C:\\p", "1:\\a", "C:\\p\\1:\\a"),
    ] {
        assert_eq!(windows_join(base, rel), path);
    }
}

#[test]
fn windows_paths_are_resolved_behind_a_verbatim_prefix() {
    for (base, rel, path) in [
        ("\\\\?\\C:\\p", "target", "\\\\?\\C:\\p\\target"),
        ("\\\\?\\C:\\p", "a/./b/../c", "\\\\?\\C:\\p\\a\\c"),
        ("\\\\?\\C:\\p", "../../..", "\\\\?\\C:\\"),
        ("\\\\?\\C:\\p", "/a", "\\\\?\\C:\\a"),
        ("\\\\?\\C:\\p", "\\", "\\\\?\\C:\\"),
        ("\\\\?\\C:\\p", "D:\\a.ico", "D:\\a.ico"),
        ("\\\\?\\C:\\p", "", "\\\\?\\C:\\p\\"),
        ("\\\\?\\UNC\\srv\\share\\p", "..", "\\\\?\\UNC\\srv\\share\\"),
        ("\\\\?\\UNC\\srv\\share", "a", "\\\\?\\UNC\\srv\\share\\a"),
        ("\\\\?\\pics", "a", "\\\\?\\pics\\a"),
        ("\\\\?\\C:\\a/b", "..", "\\\\?\\C:\\"),
    ] {
        assert_eq!(windows_join(base, rel), path);
    }
}

#[test]
fn windows_paths_are_taken_apart() {
    for (path, up, name) in [
        ("C:\\p\\a.exe", Some("C:\\p"), Some("a.exe")),
        ("C:/p/a.exe", Some("C:/p"), Some("a.exe")),
        ("C:\\p\\.\\a\\.\\", Some("C:\\p"), Some("a")),
        ("C:\\a", Some("C:\\"), Some("a")),
        ("C:a", Some("C:"), Some("a")),
        ("C:\\", None, None),
        ("C:", None, None),
        ("C:.", Some("C:"), None),
        ("\\a", Some("\\"), Some("a")),
        ("\\", None, None),
        (".", Some(""), None),
        ("", None, None),
        ("a\\..", Some("a"), None),
        ("\\\\srv\\share\\a", Some("\\\\srv\\share\\"), Some("a")),
        ("\\\\srv\\share", None, None),
        ("\\\\.\\COM42", None, None),
        ("\\\\?\\C:\\p\\a", Some("\\\\?\\C:\\p"), Some("a")),
        ("\\\\?\\C:\\a/b", Some("\\\\?\\C:\\"), Some("a/b")),
        ("\\\\?\\C:\\a\\.", Some("\\\\?\\C:\\a"), None),
        ("\\\\?\\UNC\\srv\\share\\a", Some("\\\\?\\UNC\\srv\\share\\"), Some("a")),
        ("\\\\srv", Some("\\"), Some("srv")),
    ] {
        assert_eq!(windows_parent(path).as_deref(), up, "{path}");
        assert_eq!(windows_name(path).as_deref(), name, "{path}");
    }
}

#[test]
fn extensions_of_windows_paths_are_replaced() {
    let replaced = |path: &str| with_extension(PathStyle::Windows, path, "temp.zip");
    assert_eq!(replaced("C:\\x\\My.app"), "C:\\x\\My.temp.zip");
    assert_eq!(replaced("C:\\x\\My.app/"), "C:\\x\\My.temp.zip");
    assert_eq!(replaced("C:\\x.y\\My"), "C:\\x.y\\My.temp.zip");
    assert_eq!(replaced("C:\\"), "C:\\");
}

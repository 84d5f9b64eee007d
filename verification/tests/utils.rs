use gemini_server::error::GeminiError;
use gemini_server::path::{locate_in, normalise_path};
use gemini_server::uri::{is_uri_gemini, Uri};
use std::path::PathBuf;

#[test]
fn normalise() {
    assert_eq!(PathBuf::from(normalise_path("a/b/c")), PathBuf::from("a/b/c"));
    assert_eq!(PathBuf::from(normalise_path("a/b/c/../d")), PathBuf::from("a/b/d"));
    assert_eq!(PathBuf::from(normalise_path("/../b/c")), PathBuf::from("b/c"));
    assert_eq!(PathBuf::from(normalise_path("/a/b/c/../d")), PathBuf::from("a/b/d"));
    assert_eq!(PathBuf::from(normalise_path("/../foo/bar/../../a")), PathBuf::from("a"));
    assert_eq!(PathBuf::from(normalise_path("a/b/c/")), PathBuf::from("a/b/c"));
}

#[test]
fn uri_parse() {
    assert_eq!(
        Uri::new("gemini://example.com"),
        Ok(Uri { hostname: "example.com", path: "/", query: "" })
    );
    assert_eq!(
        Uri::new("gemini://example.com/path/to/content"),
        Ok(Uri { hostname: "example.com", path: "/path/to/content", query: "" })
    );
    assert_eq!(
        Uri::new("gemini://example.com/path?query"),
        Ok(Uri { hostname: "example.com", path: "/path", query: "query" })
    );
}

#[test]
fn normalise_gives_exact_text() {
    assert_eq!(normalise_path("a/b/c"), "a/b/c");
    assert_eq!(normalise_path("/../foo/bar/../../a"), "a");
    assert_eq!(normalise_path("a/b/c/"), "a/b/c");
    assert_eq!(normalise_path("a//b/./c"), "a/b/c");
    assert_eq!(normalise_path("./a"), "a");
    assert_eq!(normalise_path(""), "");
    assert_eq!(normalise_path("/"), "");
    assert_eq!(normalise_path("."), "");
    assert_eq!(normalise_path(".."), "");
    assert_eq!(normalise_path("..."), "...");
    assert_eq!(normalise_path("a/..b/c"), "a/..b/c");
    assert_eq!(normalise_path("/\u{e9}t\u{e9}/../\u{4e2d}"), "\u{4e2d}");
}

#[test]
fn normalise_clamps_at_the_root() {
    assert_eq!(normalise_path("/../../../etc/passwd"), "etc/passwd");
    assert_eq!(normalise_path("/a/../../.."), "");
    assert_eq!(normalise_path("a/../../b"), "b");
    assert_eq!(locate_in("content", &normalise_path("/../../../etc/passwd")), "content/etc/passwd");
}

#[test]
fn normalise_leaves_no_parent_and_no_root() {
    let inputs = ["/../foo/bar/../../a", "a/b/c/../d", "//..//x/./../y/z/", "../..", "/a/b/../../../c"];
    for input in inputs {
        let normal = normalise_path(input);
        assert!(!normal.starts_with('/'));
        for piece in normal.split('/') {
            assert_ne!(piece, "..");
            assert_ne!(piece, ".");
            assert!(normal.is_empty() || !piece.is_empty());
        }
    }
}

#[test]
fn normalise_is_idempotent() {
    let inputs = ["", "/", "a/b/c", "/../foo/bar/../../a", "a/b/c/", "x/../../y//z/.", "..."];
    for input in inputs {
        let once = normalise_path(input);
        assert_eq!(normalise_path(&once), once);
    }
}

#[test]
fn locate_joins_with_one_separator() {
    assert_eq!(locate_in("content", "a/b"), "content/a/b");
    assert_eq!(locate_in("content/", "a/b"), "content/a/b");
    assert_eq!(locate_in("", "a/b"), "a/b");
    assert_eq!(locate_in("content", ""), "content/");
    assert_eq!(locate_in("content/", ""), "content/");
}

#[test]
fn uri_is_trimmed_before_parsing() {
    assert_eq!(
        Uri::new("  gemini://example.com/a\r\n"),
        Ok(Uri { hostname: "example.com", path: "/a", query: "" })
    );
    assert_eq!(
        Uri::new("\u{3000}gemini://example.com\u{85}"),
        Ok(Uri { hostname: "example.com", path: "/", query: "" })
    );
}

#[test]
fn uri_splits_at_first_slash_and_first_question_mark() {
    assert_eq!(
        Uri::new("gemini://h/a/b?x?y/z"),
        Ok(Uri { hostname: "h", path: "/a/b", query: "x?y/z" })
    );
    assert_eq!(Uri::new("gemini://h/?"), Ok(Uri { hostname: "h", path: "/", query: "" }));
    assert_eq!(Uri::new("gemini://h?q"), Ok(Uri { hostname: "h?q", path: "/", query: "" }));
    assert_eq!(
        Uri::new("gemini://h/%2e%2e/x"),
        Ok(Uri { hostname: "h", path: "/%2e%2e/x", query: "" })
    );
}

#[test]
fn uri_without_scheme_is_bad_request() {
    assert_eq!(Uri::new("http://example.com/"), Err(GeminiError::bad_request("")));
    assert_eq!(Uri::new("gemini:/example.com"), Err(GeminiError::bad_request("")));
    assert_eq!(Uri::new("GEMINI://example.com"), Err(GeminiError::bad_request("")));
    assert_eq!(Uri::new(""), Err(GeminiError::bad_request("")));
    assert_eq!(Uri::new("x gemini://example.com"), Err(GeminiError::bad_request("")));
}

#[test]
fn uri_without_hostname_is_bad_request() {
    assert_eq!(Uri::new("gemini://"), Err(GeminiError::bad_request("")));
    assert_eq!(Uri::new("gemini:///path"), Err(GeminiError::bad_request("")));
}

#[test]
fn scheme_prefix_is_stripped() {
    assert_eq!(is_uri_gemini("gemini://example.com/x"), Some("example.com/x"));
    assert_eq!(is_uri_gemini("gemini://"), Some(""));
    assert_eq!(is_uri_gemini("gemini:/"), None);
    assert_eq!(is_uri_gemini(" gemini://a"), None);
}

use sgdkx::commands::web_server::{
    content_type, into_response, lies_under, missing_dir_message, outcome, resolve, respond, Args,
    FoundFile, Outcome, Response, DEFAULT_ADDR, DEFAULT_DIR, DEFAULT_PORT,
};

const ROOT: &str = "/srv/web-export";

fn header<'a>(r: &'a Response, name: &str) -> Option<&'a str> {
    r.headers.iter().find(|h| h.name == name).map(|h| h.value.as_str())
}

fn has_isolation_headers(r: &Response) -> bool {
    header(r, "Cross-Origin-Opener-Policy") == Some("same-origin")
        && header(r, "Cross-Origin-Embedder-Policy") == Some("require-corp")
}

/// The file that a server rooted at `ROOT` finds for `target`, with `bytes`.
fn file_at(target: &Option<String>, bytes: &[u8]) -> Option<FoundFile> {
    target.as_ref().map(|t| FoundFile { canonical: format!("{}/{}", ROOT, t), contents: bytes.to_vec() })
}

/// The response on Unix to `uri_path` where its target holds `bytes`.
fn serve(uri_path: &str, bytes: Option<&[u8]>) -> Response {
    let target = resolve(uri_path, false);
    let file = bytes.and_then(|b| file_at(&target, b));
    respond(&target, file, ROOT, false)
}

#[test]
fn scenario_index_rom_and_missing() {
    let index = b"<html>A</html>".to_vec();
    let rom = vec![0xFFu8; 10];

    assert_eq!(resolve("/", false).as_deref(), Some("index.html"));
    let r = serve("/", Some(&index));
    assert_eq!(r.status, 200);
    assert_eq!(r.body, index);
    assert_eq!(header(&r, "Content-Type"), Some("text/html"));

    assert_eq!(resolve("/rom.bin", false).as_deref(), Some("rom.bin"));
    let r = serve("/rom.bin", Some(&rom));
    assert_eq!(r.status, 200);
    assert_eq!(r.body, rom);
    assert!(header(&r, "Content-Type").unwrap().contains("octet-stream"));

    assert_eq!(resolve("/missing.txt", false).as_deref(), Some("missing.txt"));
    let r = serve("/missing.txt", None);
    assert_eq!(r.status, 404);
    assert_eq!(r.body, b"404 Not Found".to_vec());
    assert_eq!(header(&r, "Content-Type"), Some("text/plain"));
}

#[test]
fn nested_file_is_served_byte_for_byte() {
    let bytes = vec![0u8, 1, 2, 255, 10, 13];
    assert_eq!(resolve("/js/lib/core.js", false).as_deref(), Some("js/lib/core.js"));
    let r = serve("/js/lib/core.js", Some(&bytes));
    assert_eq!(r.status, 200);
    assert_eq!(r.body, bytes);
    assert_eq!(header(&r, "Content-Type"), Some("text/javascript"));
}

#[test]
fn empty_file_is_served_empty() {
    let r = serve("/empty.css", Some(&[]));
    assert_eq!(r.status, 200);
    assert!(r.body.is_empty());
    assert_eq!(header(&r, "Content-Type"), Some("text/css"));
}

#[test]
fn missing_or_directory_is_not_found() {
    for path in ["/nothing.here", "/assets", "/assets/", "/a/b/c"] {
        let r = serve(path, None);
        assert_eq!(r.status, 404);
        assert_eq!(r.body, b"404 Not Found".to_vec());
        assert!(has_isolation_headers(&r));
    }
}

#[test]
fn every_response_is_cross_origin_isolated() {
    let found = serve("/index.html", Some(b"x"));
    let missing = serve("/index.html", None);
    let refused = serve("/../secret", Some(b"x"));
    for r in [&found, &missing, &refused] {
        assert!(has_isolation_headers(r));
        assert_eq!(r.headers.len(), 3);
        assert_eq!(r.headers[0].name, "Content-Type");
    }
}

#[test]
fn isolation_headers_come_last() {
    let r = into_response(Outcome::Found { body: vec![1, 2, 3], mime: "image/png".to_string() });
    assert_eq!(r.status, 200);
    assert_eq!(r.body, vec![1, 2, 3]);
    assert_eq!(r.headers[0].value, "image/png");
    assert_eq!(r.headers[1].name, "Cross-Origin-Opener-Policy");
    assert_eq!(r.headers[1].value, "same-origin");
    assert_eq!(r.headers[2].name, "Cross-Origin-Embedder-Policy");
    assert_eq!(r.headers[2].value, "require-corp");
}

#[test]
fn root_is_index() {
    assert_eq!(resolve("/", false), resolve("/index.html", false));
    assert_eq!(resolve("/", true), resolve("/index.html", true));
    let page = b"<html>A</html>";
    let a = serve("/", Some(page));
    let b = serve("/index.html", Some(page));
    assert_eq!(a.status, b.status);
    assert_eq!(a.body, b.body);
    assert_eq!(header(&a, "Content-Type"), header(&b, "Content-Type"));
}

#[test]
fn leading_slashes_are_dropped() {
    assert_eq!(resolve("//a.txt", false).as_deref(), Some("a.txt"));
    assert_eq!(resolve("///", false).as_deref(), Some("index.html"));
    assert_eq!(resolve("", false).as_deref(), Some("index.html"));
    assert_eq!(resolve("/a//b", false).as_deref(), Some("a//b"));
}

#[test]
fn parent_segments_are_refused() {
    for backslash in [false, true] {
        assert_eq!(resolve("/..", backslash), None);
        assert_eq!(resolve("/../etc/passwd", backslash), None);
        assert_eq!(resolve("/a/../../b", backslash), None);
        assert_eq!(resolve("/a/..", backslash), None);
    }
    let r = serve("/../x", Some(b"outside"));
    assert_eq!(r.status, 404);
    assert_eq!(r.body, b"404 Not Found".to_vec());
}

#[test]
fn backslash_is_a_name_character_on_unix() {
    assert_eq!(resolve("/a\\..\\b", false).as_deref(), Some("a\\..\\b"));
    assert_eq!(resolve("/\\a", false).as_deref(), Some("\\a"));
    assert_eq!(resolve("/..\\x", false).as_deref(), Some("..\\x"));
    let r = serve("/\\a", Some(b"bytes"));
    assert_eq!(r.status, 200);
    assert_eq!(r.body, b"bytes".to_vec());
    let r = serve("/\\x.wasm", Some(b"\0asm"));
    assert_eq!(r.status, 200);
    assert_eq!(header(&r, "Content-Type"), Some("application/wasm"));
    let r = serve("/\\x.html", Some(b"<p>"));
    assert_eq!(r.status, 200);
    assert_eq!(header(&r, "Content-Type"), Some("text/html"));
}

#[test]
fn backslash_separates_on_windows() {
    assert_eq!(resolve("/a\\..\\b", true), None);
    assert_eq!(resolve("/\\server\\share", true), None);
    assert_eq!(resolve("/..\\x", true), None);
    assert_eq!(resolve("/a\\b.js", true).as_deref(), Some("a\\b.js"));
}

#[test]
fn drive_paths_are_refused_on_windows() {
    assert_eq!(resolve("/C:/x", true), None);
    assert_eq!(resolve("/C:x", true), None);
    assert_eq!(resolve("/c:\\windows\\win.ini", true), None);
    assert_eq!(resolve("/dir/C:x", true).as_deref(), Some("dir/C:x"));
    assert_eq!(resolve("/dir\\a:b", true).as_deref(), Some("dir\\a:b"));
    assert_eq!(resolve("/C:/x", false).as_deref(), Some("C:/x"));
}

#[test]
fn dots_that_are_no_parent_segment_are_kept() {
    assert_eq!(resolve("/...", false).as_deref(), Some("..."));
    assert_eq!(resolve("/a..b/c", false).as_deref(), Some("a..b/c"));
    assert_eq!(resolve("/./x", false).as_deref(), Some("./x"));
    assert_eq!(resolve("/..x", false).as_deref(), Some("..x"));
}

#[test]
fn file_outside_canonical_root_is_not_served() {
    let target = resolve("/link.js", false);
    let outside = FoundFile { canonical: "/etc/passwd".to_string(), contents: b"root:x".to_vec() };
    let r = respond(&target, Some(outside), ROOT, false);
    assert_eq!(r.status, 404);
    assert_eq!(r.body, b"404 Not Found".to_vec());
    let sibling = FoundFile { canonical: "/srv/web-export2/a.js".to_string(), contents: vec![1] };
    assert_eq!(respond(&target, Some(sibling), ROOT, false).status, 404);
    let inside = FoundFile { canonical: "/srv/web-export/real/a.js".to_string(), contents: vec![1] };
    assert_eq!(respond(&target, Some(inside), ROOT, false).status, 200);
}

#[test]
fn lies_under_compares_whole_segments() {
    assert!(lies_under("/srv/web-export/a.js", "/srv/web-export", false));
    assert!(lies_under("/srv/web-export/a.js", "/srv/web-export/", false));
    assert!(lies_under("/srv/web-export", "/srv/web-export", false));
    assert!(lies_under("/etc/passwd", "/", false));
    assert!(!lies_under("/srv/web-export2/a.js", "/srv/web-export", false));
    assert!(!lies_under("/srv/web", "/srv/web-export", false));
    assert!(!lies_under("/etc/passwd", "/srv/web-export", false));
    assert!(lies_under("C:\\site\\a.js", "C:\\site", true));
    assert!(!lies_under("C:\\site\\a.js", "C:\\site", false));
    assert!(!lies_under("C:\\sites\\a.js", "C:\\site", true));
}

#[test]
fn content_type_of_wasm_and_html() {
    assert_eq!(content_type("emulator.wasm", false), "application/wasm");
    assert_eq!(content_type("pkg/emulator.wasm", false), "application/wasm");
    assert_eq!(content_type("index.html", false), "text/html");
    assert_eq!(content_type("page.htm", false), "text/html");
    assert_eq!(content_type("INDEX.HTML", false), "text/html");
}

#[test]
fn content_type_without_known_extension() {
    assert_eq!(content_type("rom.bin", false), "application/octet-stream");
    assert_eq!(content_type("README", false), "application/octet-stream");
    assert_eq!(content_type(".hidden", false), "application/octet-stream");
    assert_eq!(content_type("dir.d/file", false), "application/octet-stream");
    assert_eq!(content_type("trailing.", false), "application/octet-stream");
    assert_eq!(content_type("x.unknownext", false), "application/octet-stream");
}

#[test]
fn content_type_file_name_follows_separators() {
    assert_eq!(content_type("a\\.html", false), "text/html");
    assert_eq!(content_type("a\\.html", true), "application/octet-stream");
    assert_eq!(content_type("x.d\\file", true), "application/octet-stream");
    assert_eq!(content_type("d\\x.wasm", true), "application/wasm");
}

#[test]
fn content_type_uses_last_extension() {
    assert_eq!(content_type("archive.tar.gz", false), "application/gzip");
    assert_eq!(content_type("v1.2/app.js", false), "text/javascript");
}

#[test]
fn outcome_needs_target_and_contents() {
    let file = |bytes: Vec<u8>| FoundFile { canonical: format!("{}/a", ROOT), contents: bytes };
    assert!(matches!(outcome(&None, Some(file(vec![1])), ROOT, false), Outcome::NotFound));
    assert!(matches!(outcome(&Some("a.js".to_string()), None, ROOT, false), Outcome::NotFound));
    match outcome(&Some("a.wasm".to_string()), Some(file(vec![0, 97, 115, 109])), ROOT, false) {
        Outcome::Found { body, mime } => {
            assert_eq!(body, vec![0, 97, 115, 109]);
            assert_eq!(mime, "application/wasm");
        }
        Outcome::NotFound => panic!("a readable file was not found"),
    }
}

#[test]
fn missing_directory_messages() {
    assert_eq!(
        missing_dir_message(DEFAULT_DIR),
        "\u{274c} 'web-export' directory not found. Please run 'sgdktool web-export' first."
    );
    assert_eq!(missing_dir_message("out/site"), "\u{274c} Directory 'out/site' does not exist.");
    assert_eq!(missing_dir_message(""), "\u{274c} Directory '' does not exist.");
}

#[test]
fn server_defaults() {
    assert_eq!(DEFAULT_DIR, "web-export");
    assert_eq!(DEFAULT_ADDR, "127.0.0.1");
    assert_eq!(DEFAULT_PORT, 8080);
    let args = Args { dir: DEFAULT_DIR.to_string(), port: DEFAULT_PORT };
    assert_eq!(args.dir, "web-export");
    assert_eq!(args.port, 8080);
}

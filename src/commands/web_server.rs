//! The `web-server` subcommand: a static file server for an exported browser
//! build. Everything that decides what a request gets is here and verified;
//! the listener, the connections and the file reads stay with the caller,
//! which hands this module the request path and the file's bytes.
//!
//! A request path is mapped to a target relative to the served root: leading
//! slashes are dropped, and an empty path means `index.html`. A target that
//! could leave the root is refused: one that begins with a separator or has
//! a `..` segment and, where a backslash separates segments as on Windows,
//! one with a drive prefix. Whether a backslash separates segments is an
//! argument: on other systems it is an ordinary character of a file name.
//! The caller then hands over the canonical path of the file it found, and
//! a file whose canonical path does not lie under the canonical root (one
//! reached through a link that leads out) is not served either.
//!
//! A found file is answered with `200` and a content type from its
//! extension; anything else with `404` and the text `404 Not Found`. Every
//! answer carries the two cross-origin isolation headers.

use vstd::prelude::*;
use crate::strings::{chars_from, chars_of, same_chars, string_from};

verus! {

/// The directory served when none is given.
pub const DEFAULT_DIR: &'static str = "web-export";

/// The only address the server listens on.
pub const DEFAULT_ADDR: &'static str = "127.0.0.1";

/// The port listened on when none is given.
pub const DEFAULT_PORT: u16 = 8080;

/// Arguments of `web-server`: the directory to serve and the port.
pub struct Args {
    pub dir: String,
    pub port: u16,
}

/// What is reported when the directory to serve does not exist: a hint to
/// export first where it is the default one.
pub open spec fn missing_dir_message_of(dir: Seq<char>) -> Seq<char> {
    if dir == DEFAULT_DIR@ {
        "\u{274c} 'web-export' directory not found. Please run 'sgdktool web-export' first."@
    } else {
        "\u{274c} Directory '"@ + dir + "' does not exist."@
    }
}

/// The report for a directory to serve, `dir`, that does not exist.
pub fn missing_dir_message(dir: &str) -> (r: String)
    ensures
        r@ == missing_dir_message_of(dir@),
{
    if same_chars(&chars_of(dir), &chars_of(DEFAULT_DIR)) {
        String::from_str(
            "\u{274c} 'web-export' directory not found. Please run 'sgdktool web-export' first.",
        )
    } else {
        String::from_str("\u{274c} Directory '").concat(dir).concat("' does not exist.")
    }
}

/// The file served for an empty request path.
pub open spec fn index_page() -> Seq<char> {
    seq!['i', 'n', 'd', 'e', 'x', '.', 'h', 't', 'm', 'l']
}

/// `p` without the slashes it begins with.
pub open spec fn trim_leading_slashes(p: Seq<char>) -> Seq<char>
    decreases p.len(),
{
    if p.len() > 0 && p[0] == '/' {
        trim_leading_slashes(p.drop_first())
    } else {
        p
    }
}

/// The path, relative to the root, that a request path names.
pub open spec fn request_target(p: Seq<char>) -> Seq<char> {
    let t = trim_leading_slashes(p);
    if t.len() == 0 {
        index_page()
    } else {
        t
    }
}

/// Whether `c` separates the segments of a path: `/` always, and `\\` where
/// `backslash` holds (as on Windows).
pub open spec fn is_separator(c: char, backslash: bool) -> bool {
    c == '/' || (backslash && c == '\\')
}

/// Whether a segment `..` begins at index `i` of `t`.
pub open spec fn parent_segment_at(t: Seq<char>, i: int, backslash: bool) -> bool {
    &&& 0 <= i
    &&& i + 2 <= t.len()
    &&& t[i] == '.'
    &&& t[i + 1] == '.'
    &&& (i == 0 || is_separator(t[i - 1], backslash))
    &&& (i + 2 == t.len() || is_separator(t[i + 2], backslash))
}

/// Whether the first segment of `t` holds a `:`, which makes `t` name a
/// drive (`C:x`, `C:/x`) where a backslash separates segments.
pub open spec fn has_drive_prefix(t: Seq<char>) -> bool {
    exists|i: int|
        0 <= i < t.len() && #[trigger] t[i] == ':' && forall|j: int|
            0 <= j < i ==> !is_separator(#[trigger] t[j], true)
}

/// Whether the relative path `t`, joined onto the root, names a descendant of
/// the root: it does not begin with a separator, has no `..` segment and,
/// where a backslash separates segments, names no drive.
pub open spec fn stays_under_root(t: Seq<char>, backslash: bool) -> bool {
    &&& !(t.len() > 0 && is_separator(t[0], backslash))
    &&& forall|i: int| !#[trigger] parent_segment_at(t, i, backslash)
    &&& !(backslash && has_drive_prefix(t))
}

/// What a request path resolves to: the target, where it stays under the
/// root; nothing otherwise.
pub open spec fn resolve_spec(p: Seq<char>, backslash: bool) -> Option<Seq<char>> {
    if stays_under_root(request_target(p), backslash) {
        Some(request_target(p))
    } else {
        None
    }
}

fn separator(c: char, backslash: bool) -> (r: bool)
    ensures
        r == is_separator(c, backslash),
{
    c == '/' || (backslash && c == '\\')
}

/// Whether the first segment of `t` holds a `:`.
fn drive_prefix(t: &Vec<char>) -> (r: bool)
    ensures
        r == has_drive_prefix(t@),
{
    let mut i: usize = 0;
    while i < t.len()
        invariant
            i <= t@.len(),
            forall|j: int| 0 <= j < i ==> !is_separator(#[trigger] t@[j], true) && t@[j] != ':',
        decreases t@.len() - i,
    {
        if t[i] == ':' {
            return true;
        }
        if separator(t[i], true) {
            assert forall|k: int| 0 <= k < t@.len() && #[trigger] t@[k] == ':' implies exists|j: int|
                0 <= j < k && is_separator(#[trigger] t@[j], true) by {
                assert(k > i);
                assert(is_separator(t@[i as int], true));
            }
            return false;
        }
        i = i + 1;
    }
    false
}

/// The characters of the target that the request path `p` names.
fn target_chars(p: &str) -> (t: Vec<char>)
    ensures
        t@ == request_target(p@),
{
    let chars = chars_of(p);
    let mut k: usize = 0;
    assert(p@.skip(0) == p@);
    while k < chars.len() && chars[k] == '/'
        invariant
            chars@ == p@,
            k <= chars@.len(),
            trim_leading_slashes(p@) == trim_leading_slashes(p@.skip(k as int)),
        decreases chars@.len() - k,
    {
        assert(p@.skip(k as int).drop_first() == p@.skip(k + 1));
        k = k + 1;
    }
    if k == chars.len() {
        vec!['i', 'n', 'd', 'e', 'x', '.', 'h', 't', 'm', 'l']
    } else {
        chars_from(&chars, k)
    }
}

/// Whether the relative path `t` stays under the root.
fn under_root(t: &Vec<char>, backslash: bool) -> (r: bool)
    ensures
        r == stays_under_root(t@, backslash),
{
    let n = t.len();
    if n > 0 && separator(t[0], backslash) {
        return false;
    }
    if backslash && drive_prefix(t) {
        return false;
    }
    let mut i: usize = 0;
    while i < n
        invariant
            n == t@.len(),
            !(backslash && has_drive_prefix(t@)),
            forall|j: int| 0 <= j < i ==> !#[trigger] parent_segment_at(t@, j, backslash),
        decreases n - i,
    {
        let starts_segment = i == 0 || separator(t[i - 1], backslash);
        if starts_segment && i + 1 < n && t[i] == '.' && t[i + 1] == '.' && (i + 2 == n
            || separator(t[i + 2], backslash)) {
            assert(parent_segment_at(t@, i as int, backslash));
            return false;
        }
        i = i + 1;
    }
    true
}

/// Resolves a request path to the target under the root that it names, or
/// to nothing where that target would leave the root. `backslash_separates`
/// says whether a backslash separates path segments, as on Windows.
pub fn resolve(uri_path: &str, backslash_separates: bool) -> (r: Option<String>)
    ensures
        r matches Some(t) ==> resolve_spec(uri_path@, backslash_separates) == Some(t@),
        r is None ==> resolve_spec(uri_path@, backslash_separates) is None,
{
    let t = target_chars(uri_path);
    if under_root(&t, backslash_separates) {
        Some(string_from(&t, 0))
    } else {
        None
    }
}

/// Index of the last separator in `t`, or `-1` where it has none.
pub open spec fn last_separator(t: Seq<char>, backslash: bool) -> int
    decreases t.len(),
{
    if t.len() == 0 {
        -1
    } else if is_separator(t.last(), backslash) {
        t.len() - 1
    } else {
        last_separator(t.drop_last(), backslash)
    }
}

/// Index of the last `.` in `t`, or `-1` where it has none.
pub open spec fn last_dot(t: Seq<char>) -> int
    decreases t.len(),
{
    if t.len() == 0 {
        -1
    } else if t.last() == '.' {
        t.len() - 1
    } else {
        last_dot(t.drop_last())
    }
}

/// The last segment of the path `t`.
pub open spec fn file_name(t: Seq<char>, backslash: bool) -> Seq<char> {
    t.skip(last_separator(t, backslash) + 1)
}

/// The extension of the path `t`: what follows the last `.` of its file
/// name, where that `.` is not the name's first character.
pub open spec fn extension_of(t: Seq<char>, backslash: bool) -> Option<Seq<char>> {
    let name = file_name(t, backslash);
    let d = last_dot(name);
    if d > 0 {
        Some(name.skip(d + 1))
    } else {
        None
    }
}

/// The MIME type that mime_guess gives first for a file extension, or
/// `application/octet-stream` where it knows none.
pub uninterp spec fn mime_of_extension(ext: Seq<char>) -> Seq<char>;

/// The content type a file at the path `t` is served with.
pub open spec fn content_type_of(t: Seq<char>, backslash: bool) -> Seq<char> {
    match extension_of(t, backslash) {
        Some(e) => mime_of_extension(e),
        None => "application/octet-stream"@,
    }
}

/// Relies on `mime_guess::from_ext` and `MimeGuess::first_or_octet_stream`:
/// the first type that mime_guess's table lists for the extension, or
/// `application/octet-stream` where it lists none (as for an empty one). The
/// table maps `html` to `text/html` and `wasm` to `application/wasm`.
#[verifier::external_body]
fn mime_for_extension(ext: &str) -> (r: String)
    ensures
        r@ == mime_of_extension(ext@),
        ext@.len() == 0 ==> r@ == "application/octet-stream"@,
        ext@ == "html"@ ==> r@ == "text/html"@,
        ext@ == "wasm"@ ==> r@ == "application/wasm"@,
{
    mime_guess::from_ext(ext).first_or_octet_stream().as_ref().to_string()
}

/// Where the last segment of `v` begins.
fn file_name_start(v: &Vec<char>, backslash: bool) -> (r: usize)
    ensures
        r == last_separator(v@, backslash) + 1,
        r <= v@.len(),
{
    let mut i: usize = v.len();
    assert(v@.take(i as int) == v@);
    while i > 0 && !separator(v[i - 1], backslash)
        invariant
            i <= v@.len(),
            last_separator(v@, backslash) == last_separator(v@.take(i as int), backslash),
        decreases i,
    {
        assert(v@.take(i as int).drop_last() == v@.take(i - 1));
        i = i - 1;
    }
    i
}

/// Index of the last `.` in `v`, or `-1` where it has none.
fn last_dot_index(v: &Vec<char>) -> (r: Option<usize>)
    ensures
        r matches Some(d) ==> d == last_dot(v@) && d < v@.len(),
        r is None ==> last_dot(v@) == -1,
{
    let mut i: usize = v.len();
    assert(v@.take(i as int) == v@);
    while i > 0 && v[i - 1] != '.'
        invariant
            i <= v@.len(),
            last_dot(v@) == last_dot(v@.take(i as int)),
        decreases i,
    {
        assert(v@.take(i as int).drop_last() == v@.take(i - 1));
        i = i - 1;
    }
    if i == 0 {
        None
    } else {
        Some(i - 1)
    }
}

/// The content type that a file at the path `target` is served with, from
/// its extension: `application/octet-stream` where it has none or mime_guess
/// knows none, `text/html` for `.html`, `application/wasm` for `.wasm`.
/// `backslash_separates` says whether a backslash separates path segments.
pub fn content_type(target: &str, backslash_separates: bool) -> (r: String)
    ensures
        r@ == content_type_of(target@, backslash_separates),
        extension_of(target@, backslash_separates) == Some("html"@) ==> r@ == "text/html"@,
        extension_of(target@, backslash_separates) == Some("wasm"@) ==> r@ == "application/wasm"@,
{
    let t = chars_of(target);
    let name = chars_from(&t, file_name_start(&t, backslash_separates));
    match last_dot_index(&name) {
        Some(d) if 0 < d && d < name.len() => {
            let ext = string_from(&name, d + 1);
            mime_for_extension(ext.as_str())
        },
        _ => String::from_str("application/octet-stream"),
    }
}

/// One header line of a response.
pub struct Header {
    pub name: String,
    pub value: String,
}

impl View for Header {
    type V = (Seq<char>, Seq<char>);

    open spec fn view(&self) -> (Seq<char>, Seq<char>) {
        (self.name@, self.value@)
    }
}

/// What a request came to: a file's bytes and their content type, or nothing.
pub enum Outcome {
    Found { body: Vec<u8>, mime: String },
    NotFound,
}

/// The mathematical value of an [`Outcome`].
pub enum OutcomeView {
    Found { body: Seq<u8>, mime: Seq<char> },
    NotFound,
}

impl View for Outcome {
    type V = OutcomeView;

    open spec fn view(&self) -> OutcomeView {
        match self {
            Outcome::Found { body, mime } => OutcomeView::Found { body: body@, mime: mime@ },
            Outcome::NotFound => OutcomeView::NotFound,
        }
    }
}

/// An HTTP response: status code, header lines in order, and body.
pub struct Response {
    pub status: u16,
    pub headers: Vec<Header>,
    pub body: Vec<u8>,
}

/// The mathematical value of a [`Response`].
pub struct ResponseView {
    pub status: u16,
    pub headers: Seq<(Seq<char>, Seq<char>)>,
    pub body: Seq<u8>,
}

impl View for Response {
    type V = ResponseView;

    open spec fn view(&self) -> ResponseView {
        ResponseView {
            status: self.status,
            headers: self.headers@.map_values(|h: Header| h@),
            body: self.body@,
        }
    }
}

/// The header that makes a page cross-origin isolated on the opener side.
pub open spec fn opener_policy() -> (Seq<char>, Seq<char>) {
    ("Cross-Origin-Opener-Policy"@, "same-origin"@)
}

/// The header that makes a page cross-origin isolated on the embedder side.
pub open spec fn embedder_policy() -> (Seq<char>, Seq<char>) {
    ("Cross-Origin-Embedder-Policy"@, "require-corp"@)
}

/// The ASCII bytes of `404 Not Found`.
pub open spec fn not_found_body() -> Seq<u8> {
    seq![0x34u8, 0x30, 0x34, 0x20, 0x4e, 0x6f, 0x74, 0x20, 0x46, 0x6f, 0x75, 0x6e, 0x64]
}

/// The response to an outcome: `200` with the file's type and bytes, or
/// `404` with a plain-text notice; the two isolation headers come last.
pub open spec fn response_of(o: OutcomeView) -> ResponseView {
    match o {
        OutcomeView::Found { body, mime } => ResponseView {
            status: 200,
            headers: seq![("Content-Type"@, mime), opener_policy(), embedder_policy()],
            body,
        },
        OutcomeView::NotFound => ResponseView {
            status: 404,
            headers: seq![("Content-Type"@, "text/plain"@), opener_policy(), embedder_policy()],
            body: not_found_body(),
        },
    }
}

/// `p` without the separators it ends with.
pub open spec fn trim_trailing_separators(p: Seq<char>, backslash: bool) -> Seq<char>
    decreases p.len(),
{
    if p.len() > 0 && is_separator(p.last(), backslash) {
        trim_trailing_separators(p.drop_last(), backslash)
    } else {
        p
    }
}

/// Whether `path` is the directory `root` or lies below it, segment by
/// segment: `path` begins with the root's text, and a separator follows it
/// there. For canonical paths, which hold no empty, `.` or `..` segment and
/// no link, this is the root's segments being the first ones of `path`.
pub open spec fn lies_under_spec(path: Seq<char>, root: Seq<char>, backslash: bool) -> bool {
    let r = trim_trailing_separators(root, backslash);
    &&& r.len() <= path.len()
    &&& path.take(r.len() as int) == r
    &&& (path.len() == r.len() || is_separator(path[r.len() as int], backslash))
}

/// A regular file found for a request: its canonical path and its bytes.
pub struct FoundFile {
    pub canonical: String,
    pub contents: Vec<u8>,
}

impl View for FoundFile {
    type V = (Seq<char>, Seq<u8>);

    open spec fn view(&self) -> (Seq<char>, Seq<u8>) {
        (self.canonical@, self.contents@)
    }
}

/// The outcome for a resolved target, given the regular file found for it
/// (its canonical path and bytes), if there is one and it could be read, and
/// the canonical root: the file is served only where it lies under the root.
pub open spec fn outcome_of(
    target: Option<Seq<char>>,
    file: Option<(Seq<char>, Seq<u8>)>,
    root: Seq<char>,
    backslash: bool,
) -> OutcomeView {
    match (target, file) {
        (Some(t), Some((path, body))) => if lies_under_spec(path, root, backslash) {
            OutcomeView::Found { body, mime: content_type_of(t, backslash) }
        } else {
            OutcomeView::NotFound
        },
        _ => OutcomeView::NotFound,
    }
}

/// The response to the request path `p`, given the regular file found for
/// its target, if there is one and it could be read, and the canonical root.
pub open spec fn response_for(
    p: Seq<char>,
    file: Option<(Seq<char>, Seq<u8>)>,
    root: Seq<char>,
    backslash: bool,
) -> ResponseView {
    response_of(outcome_of(resolve_spec(p, backslash), file, root, backslash))
}

/// Whether the canonical path `path` is the canonical directory `root` or
/// lies below it. `backslash_separates` says whether a backslash separates
/// path segments.
pub fn lies_under(path: &str, root: &str, backslash_separates: bool) -> (r: bool)
    ensures
        r == lies_under_spec(path@, root@, backslash_separates),
{
    let p = chars_of(path);
    let rt = chars_of(root);
    let mut n: usize = rt.len();
    assert(root@.take(n as int) == root@);
    while n > 0 && separator(rt[n - 1], backslash_separates)
        invariant
            rt@ == root@,
            n <= rt@.len(),
            trim_trailing_separators(root@, backslash_separates) == trim_trailing_separators(
                root@.take(n as int),
                backslash_separates,
            ),
        decreases n,
    {
        assert(root@.take(n as int).drop_last() == root@.take(n - 1));
        n = n - 1;
    }
    let ghost r = trim_trailing_separators(root@, backslash_separates);
    assert(r == root@.take(n as int));
    if n > p.len() {
        return false;
    }
    let mut i: usize = 0;
    while i < n
        invariant
            rt@ == root@,
            p@ == path@,
            n <= rt@.len(),
            n <= p@.len(),
            i <= n,
            r == root@.take(n as int),
            r == trim_trailing_separators(root@, backslash_separates),
            forall|j: int| 0 <= j < i ==> p@[j] == rt@[j],
        decreases n - i,
    {
        if p[i] != rt[i] {
            assert(path@.take(n as int)[i as int] != r[i as int]);
            return false;
        }
        i = i + 1;
    }
    assert(path@.take(n as int) =~= r);
    n == p.len() || separator(p[n], backslash_separates)
}

/// The view of what an `Option` holds.
pub open spec fn option_view<T: View>(o: Option<T>) -> Option<T::V> {
    match o {
        Some(x) => Some(x@),
        None => None,
    }
}

fn header(name: &str, value: String) -> (h: Header)
    ensures
        h@ == (name@, value@),
{
    Header { name: String::from_str(name), value }
}

/// Turns an outcome into its response, adding the isolation headers last.
pub fn into_response(o: Outcome) -> (r: Response)
    ensures
        r@ == response_of(o@),
{
    let (status, content_type, body) = match o {
        Outcome::Found { body, mime } => (200u16, mime, body),
        Outcome::NotFound => (
            404u16,
            String::from_str("text/plain"),
            vec![0x34u8, 0x30, 0x34, 0x20, 0x4e, 0x6f, 0x74, 0x20, 0x46, 0x6f, 0x75, 0x6e, 0x64],
        ),
    };
    let mut headers: Vec<Header> = Vec::new();
    headers.push(header("Content-Type", content_type));
    headers.push(header("Cross-Origin-Opener-Policy", String::from_str("same-origin")));
    headers.push(header("Cross-Origin-Embedder-Policy", String::from_str("require-corp")));
    let r = Response { status, headers, body };
    assert(r@.headers =~= response_of(o@).headers);
    r
}

/// The outcome for a resolved target (as [`resolve`] gives it), given the
/// regular file found for it, if there is one and it could be read, and the
/// canonical root: the file's bytes with their content type where the file
/// lies under the root; nothing otherwise.
pub fn outcome(
    target: &Option<String>,
    file: Option<FoundFile>,
    canonical_root: &str,
    backslash_separates: bool,
) -> (o: Outcome)
    ensures
        o@ == outcome_of(option_view(*target), option_view(file), canonical_root@, backslash_separates),
{
    match (target, file) {
        (Some(t), Some(f)) => {
            if lies_under(f.canonical.as_str(), canonical_root, backslash_separates) {
                Outcome::Found {
                    body: f.contents,
                    mime: content_type(t.as_str(), backslash_separates),
                }
            } else {
                Outcome::NotFound
            }
        },
        _ => Outcome::NotFound,
    }
}

/// The response for a resolved target (as [`resolve`] gives it), given the
/// regular file found for it, if there is one and it could be read, and the
/// canonical root.
pub fn respond(
    target: &Option<String>,
    file: Option<FoundFile>,
    canonical_root: &str,
    backslash_separates: bool,
) -> (r: Response)
    ensures
        r@ == response_of(
            outcome_of(option_view(*target), option_view(file), canonical_root@, backslash_separates),
        ),
{
    into_response(outcome(target, file, canonical_root, backslash_separates))
}

/// A request for `/` followed by the relative path of a regular file under
/// the root is answered with `200` and exactly the file's bytes.
pub proof fn lemma_file_is_served(
    rel: Seq<char>,
    path: Seq<char>,
    contents: Seq<u8>,
    root: Seq<char>,
    backslash: bool,
)
    requires
        rel.len() > 0,
        stays_under_root(rel, backslash),
        lies_under_spec(path, root, backslash),
    ensures
        response_for(seq!['/'] + rel, Some((path, contents)), root, backslash).status == 200,
        response_for(seq!['/'] + rel, Some((path, contents)), root, backslash).body == contents,
{
    let p = seq!['/'] + rel;
    assert(p.drop_first() == rel);
    assert(rel[0] != '/');
    assert(trim_leading_slashes(rel) == rel);
    assert(trim_leading_slashes(p) == rel);
    assert(resolve_spec(p, backslash) == Some(rel));
}

/// A request whose target is no regular file that could be read is answered
/// with `404` and the body `404 Not Found`.
pub proof fn lemma_missing_is_not_found(p: Seq<char>, root: Seq<char>, backslash: bool)
    ensures
        response_for(p, None, root, backslash).status == 404,
        response_for(p, None, root, backslash).body == not_found_body(),
{
}

/// A request whose target would leave the root is answered with `404` and
/// the body `404 Not Found`, whatever lies at that path.
pub proof fn lemma_escape_is_not_found(
    p: Seq<char>,
    file: Option<(Seq<char>, Seq<u8>)>,
    root: Seq<char>,
    backslash: bool,
)
    requires
        !stays_under_root(request_target(p), backslash),
    ensures
        response_for(p, file, root, backslash).status == 404,
        response_for(p, file, root, backslash).body == not_found_body(),
{
}

/// A file whose canonical path does not lie under the canonical root is
/// answered with `404` and the body `404 Not Found`, whatever it holds.
pub proof fn lemma_outside_root_is_not_found(
    p: Seq<char>,
    path: Seq<char>,
    contents: Seq<u8>,
    root: Seq<char>,
    backslash: bool,
)
    requires
        !lies_under_spec(path, root, backslash),
    ensures
        response_for(p, Some((path, contents)), root, backslash).status == 404,
        response_for(p, Some((path, contents)), root, backslash).body == not_found_body(),
{
}

/// Every response, found or not, carries both cross-origin isolation headers.
pub proof fn lemma_isolation_headers(o: OutcomeView)
    ensures
        response_of(o).headers.contains(opener_policy()),
        response_of(o).headers.contains(embedder_policy()),
{
    assert(response_of(o).headers[1] == opener_policy());
    assert(response_of(o).headers[2] == embedder_policy());
}

/// A request for `/` is answered as a request for `/index.html`.
pub proof fn lemma_root_is_index(
    file: Option<(Seq<char>, Seq<u8>)>,
    root: Seq<char>,
    backslash: bool,
)
    ensures
        response_for(seq!['/'], file, root, backslash) == response_for(
            seq!['/'] + index_page(),
            file,
            root,
            backslash,
        ),
{
    let slash = seq!['/'];
    let index = seq!['/'] + index_page();
    assert(slash.drop_first() == Seq::<char>::empty());
    assert(trim_leading_slashes(Seq::<char>::empty()) == Seq::<char>::empty());
    assert(trim_leading_slashes(slash) == Seq::<char>::empty());
    assert(index.drop_first() == index_page());
    assert(trim_leading_slashes(index_page()) == index_page());
    assert(trim_leading_slashes(index) == index_page());
    assert(request_target(slash) == request_target(index));
}

} // verus!

//! The asset server: resolves request paths against an immutable table of
//! bundled files, chooses a cache policy per path class, and serves the entry
//! document, with the runtime configuration injected, for client-side routes.
use vstd::prelude::*;
use vstd::utf8::{decode_utf8, valid_utf8};
use crate::text::{
    contains, ends_with, has_prefix, has_substring, has_suffix, occurs_at, replace, replace_all, starts_with,
    str_eq, strip_leading, trim_start_char,
};

verus! {

/// The MIME type that `mime_guess` assigns to a path, by its extension.
pub uninterp spec fn mime_for_path(path: Seq<char>) -> Seq<char>;

/// The text that lossy UTF-8 decoding makes of some bytes.
pub uninterp spec fn utf8_lossy(bytes: Seq<u8>) -> Seq<char>;

/// Relies on mime_guess::from_path and MimeGuess::first_or_octet_stream: the
/// first MIME type known for the path's extension, or `application/octet-stream`;
/// the guess depends on the path alone and reads no file.
#[verifier::external_body]
fn guess_mime(path: &str) -> (r: String)
    ensures
        r@ == mime_for_path(path@),
{
    mime_guess::from_path(path).first_or_octet_stream().to_string()
}

/// Relies on String::from_utf8_lossy: the bytes decoded, with each invalid
/// sequence replaced; valid UTF-8 is decoded as it stands.
#[verifier::external_body]
fn decode_utf8_lossy(bytes: &[u8]) -> (r: String)
    ensures
        r@ == utf8_lossy(bytes@),
        valid_utf8(bytes@) ==> r@ == decode_utf8(bytes@),
{
    String::from_utf8_lossy(bytes).into_owned()
}

/// The file stored under `path`; a later entry hides an earlier one.
pub open spec fn lookup_file(files: Seq<(String, Vec<u8>)>, path: Seq<char>) -> Option<Seq<u8>>
    decreases files.len(),
{
    if files.len() == 0 {
        None
    } else if files.last().0@ == path {
        Some(files.last().1@)
    } else {
        lookup_file(files.drop_last(), path)
    }
}

/// The bundled files, by path. Built once at start-up and only read afterwards.
pub struct AssetTable {
    files: Vec<(String, Vec<u8>)>,
}

impl AssetTable {
    /// The contents of the file at `path`, if the table holds one.
    pub closed spec fn file(&self, path: Seq<char>) -> Option<Seq<u8>> {
        lookup_file(self.files@, path)
    }

    /// A table without files.
    pub fn new() -> (r: AssetTable)
        ensures
            forall|p: Seq<char>| r.file(p) is None,
    {
        AssetTable { files: Vec::new() }
    }

    /// Stores `data` under `path`, replacing any earlier file there.
    pub fn insert(&mut self, path: String, data: Vec<u8>)
        ensures
            forall|p: Seq<char>|
                #[trigger] final(self).file(p) == if p == path@ {
                    Some(data@)
                } else {
                    old(self).file(p)
                },
    {
        self.files.push((path, data));
        proof {
            assert(self.files@.drop_last() =~= old(self).files@);
        }
    }

    /// The file at `path`, if any.
    pub fn get(&self, path: &str) -> (r: Option<&Vec<u8>>)
        ensures
            match r {
                Some(d) => self.file(path@) == Some(d@),
                None => self.file(path@) is None,
            },
    {
        let mut i: usize = self.files.len();
        proof {
            assert(self.files@.take(i as int) =~= self.files@);
        }
        while i > 0
            invariant
                i <= self.files@.len(),
                lookup_file(self.files@, path@) == lookup_file(self.files@.take(i as int), path@),
            decreases i,
        {
            proof {
                assert(self.files@.take(i as int).drop_last() =~= self.files@.take(i - 1));
            }
            i = i - 1;
            if str_eq(self.files[i].0.as_str(), path) {
                return Some(&self.files[i].1);
            }
        }
        proof {
            assert(self.files@.take(0) =~= Seq::<(String, Vec<u8>)>::empty());
        }
        None
    }
}

/// The body of a response: text, or the bytes of a file.
pub enum ResponseBody {
    Text(String),
    Bytes(Vec<u8>),
}

/// A response of the asset server, ready to be written by the HTTP layer.
pub struct AssetResponse {
    pub status: u16,
    pub content_type: Option<String>,
    pub cache_control: Option<String>,
    pub body: ResponseBody,
}

pub enum BodyView {
    Text(Seq<char>),
    Bytes(Seq<u8>),
}

/// The mathematical content of an [`AssetResponse`].
pub struct ResponseView {
    pub status: u16,
    pub content_type: Option<Seq<char>>,
    pub cache_control: Option<Seq<char>>,
    pub body: BodyView,
}

pub open spec fn opt_view(o: Option<String>) -> Option<Seq<char>> {
    match o {
        Some(s) => Some(s@),
        None => None,
    }
}

impl View for AssetResponse {
    type V = ResponseView;

    open spec fn view(&self) -> ResponseView {
        ResponseView {
            status: self.status,
            content_type: opt_view(self.content_type),
            cache_control: opt_view(self.cache_control),
            body: match self.body {
                ResponseBody::Text(t) => BodyView::Text(t@),
                ResponseBody::Bytes(b) => BodyView::Bytes(b@),
            },
        }
    }
}

/// The cache policy of a bundled file: HTML is always revalidated, files under
/// `assets/` carry a content hash and are cached for a year, the rest for an hour.
pub open spec fn cache_policy(path: Seq<char>) -> Seq<char> {
    if has_suffix(path, ".html"@) {
        "no-cache"@
    } else if has_prefix(path, "assets/"@) {
        "public, max-age=31536000, immutable"@
    } else {
        "public, max-age=3600"@
    }
}

/// The last segment of `path` holds a `.`, so the path names a file rather than
/// a client-side route.
pub open spec fn names_file(path: Seq<char>) -> bool {
    exists|i: int|
        0 <= i < path.len() && path[i] == '.' && forall|j: int|
            i < j < path.len() ==> #[trigger] path[j] != '/'
}

/// The script that hands the base path to the user interface.
pub open spec fn config_script(base_path: Seq<char>) -> Seq<char> {
    "<script>window.__KIRO_CONFIG__={basePath:\""@ + base_path + "\"}</script>"@
}

/// The entry document with the configuration script put before each `</head>`.
pub open spec fn injected_html(html: Seq<char>, base_path: Seq<char>) -> Seq<char> {
    replace_all(html, "</head>"@, config_script(base_path) + "</head>"@)
}

pub open spec fn text_response(status: u16, text: Seq<char>) -> ResponseView {
    ResponseView { status, content_type: None, cache_control: None, body: BodyView::Text(text) }
}

/// The entry document, served with the configuration injected.
pub open spec fn index_view(html: Seq<char>, base_path: Seq<char>) -> ResponseView {
    ResponseView {
        status: 200,
        content_type: Some("text/html; charset=utf-8"@),
        cache_control: Some("no-cache"@),
        body: BodyView::Text(injected_html(html, base_path)),
    }
}

/// What is served for the entry document, given what the table holds under
/// `index.html`.
pub open spec fn serve_index_view(index: Option<Seq<u8>>, base_path: Seq<char>) -> ResponseView {
    match index {
        Some(d) => index_view(utf8_lossy(d), base_path),
        None => text_response(404, "Admin UI not built. Run 'pnpm build' in admin-ui directory."@),
    }
}

/// A bundled file, served with its MIME type and the cache policy of its path.
pub open spec fn file_view(path: Seq<char>, data: Seq<u8>, mime: Seq<char>) -> ResponseView {
    ResponseView {
        status: 200,
        content_type: Some(mime),
        cache_control: Some(cache_policy(path)),
        body: BodyView::Bytes(data),
    }
}

/// What is served for a request path: a path that could climb out of the
/// bundle is refused; a bundled file is served; a path that does not name a
/// file falls back to the entry document; anything else is not found.
pub open spec fn static_view(table: AssetTable, base_path: Seq<char>, uri_path: Seq<char>) -> ResponseView {
    let path = strip_leading(uri_path, '/');
    if has_substring(path, ".."@) {
        text_response(400, "Invalid path"@)
    } else {
        match table.file(path) {
            Some(d) => file_view(path, d, mime_for_path(path)),
            None => if !names_file(path) {
                serve_index_view(table.file("index.html"@), base_path)
            } else {
                text_response(404, "Not found"@)
            },
        }
    }
}

/// The cache policy for the bundled file at `path`.
pub fn get_cache_control(path: &str) -> (r: &'static str)
    ensures
        r@ == cache_policy(path@),
{
    if ends_with(path, ".html") {
        "no-cache"
    } else if starts_with(path, "assets/") {
        "public, max-age=31536000, immutable"
    } else {
        "public, max-age=3600"
    }
}

/// Whether the last segment of `path` has an extension.
pub fn is_asset_path(path: &str) -> (r: bool)
    ensures
        r == names_file(path@),
{
    let pc = crate::text::chars_of(path);
    let mut i: usize = pc.len();
    while i > 0
        invariant
            pc@ == path@,
            i <= pc.len(),
            forall|j: int| i <= j < pc.len() ==> pc@[j] != '/' && pc@[j] != '.',
        decreases i,
    {
        i = i - 1;
        if pc[i] == '.' {
            return true;
        }
        if pc[i] == '/' {
            proof {
                assert forall|k: int| 0 <= k < path@.len() && path@[k] == '.' implies !(
                forall|j: int| k < j < path@.len() ==> #[trigger] path@[j] != '/') by {
                    assert(k < i);
                    assert(path@[i as int] == '/');
                }
            }
            return false;
        }
    }
    false
}

/// The entry document `html` with the configuration script for `base_path`
/// put before each `</head>`.
pub fn inject_config(html: &str, base_path: &str) -> (r: String)
    ensures
        r@ == injected_html(html@, base_path@),
{
    let mut script = String::from_str("<script>window.__KIRO_CONFIG__={basePath:\"");
    script.append(base_path);
    script.append("\"}</script>");
    script.append("</head>");
    proof {
        assert(script@ =~= config_script(base_path@) + "</head>"@);
    }
    replace(html, "</head>", script.as_str())
}

/// The response that serves the decoded entry document `html`.
pub fn index_response(html: &str, base_path: &str) -> (r: AssetResponse)
    ensures
        r@ == index_view(html@, base_path@),
{
    let body = inject_config(html, base_path);
    AssetResponse {
        status: 200,
        content_type: Some(String::from_str("text/html; charset=utf-8")),
        cache_control: Some(String::from_str("no-cache")),
        body: ResponseBody::Text(body),
    }
}

/// Serves the entry document of the bundle, with the configuration injected.
pub fn serve_index(table: &AssetTable, base_path: &str) -> (r: AssetResponse)
    ensures
        r@ == serve_index_view(table.file("index.html"@), base_path@),
{
    match table.get("index.html") {
        Some(data) => {
            let html = decode_utf8_lossy(data.as_slice());
            index_response(html.as_str(), base_path)
        },
        None => AssetResponse {
            status: 404,
            content_type: None,
            cache_control: None,
            body: ResponseBody::Text(
                String::from_str("Admin UI not built. Run 'pnpm build' in admin-ui directory."),
            ),
        },
    }
}

/// The response that serves the bundled file `data` found at `path`, whose
/// MIME type is `mime`.
pub fn file_response(path: &str, data: &Vec<u8>, mime: String) -> (r: AssetResponse)
    ensures
        r@ == file_view(path@, data@, mime@),
{
    let cache = get_cache_control(path);
    AssetResponse {
        status: 200,
        content_type: Some(mime),
        cache_control: Some(String::from_str(cache)),
        body: ResponseBody::Bytes(data.clone()),
    }
}

/// Serves the request path `uri_path` from the bundle.
pub fn static_handler(table: &AssetTable, base_path: &str, uri_path: &str) -> (r: AssetResponse)
    ensures
        r@ == static_view(*table, base_path@, uri_path@),
{
    let path = trim_start_char(uri_path, '/');
    if contains(path, "..") {
        return AssetResponse {
            status: 400,
            content_type: None,
            cache_control: None,
            body: ResponseBody::Text(String::from_str("Invalid path")),
        };
    }
    match table.get(path) {
        Some(data) => {
            let mime = guess_mime(path);
            file_response(path, data, mime)
        },
        None => {
            if !is_asset_path(path) {
                serve_index(table, base_path)
            } else {
                AssetResponse {
                    status: 404,
                    content_type: None,
                    cache_control: None,
                    body: ResponseBody::Text(String::from_str("Not found")),
                }
            }
        },
    }
}

proof fn lemma_strip_keeps_dots(s: Seq<char>)
    requires
        has_substring(s, ".."@),
    ensures
        has_substring(strip_leading(s, '/'), ".."@),
    decreases s.len(),
{
    reveal_strlit("..");
    if s.len() > 0 && s[0] == '/' {
        let i = choose|i: int| occurs_at(s, ".."@, i);
        assert(s.subrange(i, i + 2)[0] == '.');
        assert(i >= 1);
        assert(s.drop_first().subrange(i - 1, i + 1) =~= s.subrange(i, i + 2));
        assert(occurs_at(s.drop_first(), ".."@, i - 1));
        lemma_strip_keeps_dots(s.drop_first());
    }
}

/// A request path that holds `..` is refused as a bad request, whatever the
/// bundle holds: the table is never consulted for it.
pub proof fn lemma_traversal_refused(table: AssetTable, base_path: Seq<char>, uri_path: Seq<char>)
    requires
        has_substring(uri_path, ".."@),
    ensures
        static_view(table, base_path, uri_path) == text_response(400, "Invalid path"@),
{
    lemma_strip_keeps_dots(uri_path);
}

/// A request path that names no bundled file and whose last segment has no
/// extension is a client-side route: it is answered with the entry document,
/// with status 200 when the bundle holds one.
pub proof fn lemma_route_fallback(table: AssetTable, base_path: Seq<char>, uri_path: Seq<char>)
    requires
        !has_substring(strip_leading(uri_path, '/'), ".."@),
        table.file(strip_leading(uri_path, '/')) is None,
        !names_file(strip_leading(uri_path, '/')),
    ensures
        static_view(table, base_path, uri_path) == serve_index_view(
            table.file("index.html"@),
            base_path,
        ),
        table.file("index.html"@) is Some ==> static_view(table, base_path, uri_path).status == 200,
{
}

} // verus!

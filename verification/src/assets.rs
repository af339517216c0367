//! Serving the embedded front end.
//!
//! Caching follows the SvelteKit output layout: files under
//! `_app/immutable/` carry a content hash in their name and may be cached
//! for a year; `index.html` must be revalidated every time, or users keep
//! an old shell after a release. The embedded files themselves are looked
//! up by the web layer; which file, which headers and which status are
//! decided here.

use vstd::prelude::*;
use vstd::slice::slice_subrange;

use crate::text::{
    chars_eq, chars_of, contains, hex, hex_of, split_all, split_chars, starts_with, str_contains,
    str_starts_with, string_of, trim, trim_bounds,
};

verus! {

/// Where SvelteKit (adapter-static) puts its content-hashed output.
pub const IMMUTABLE_PREFIX: &'static str = "_app/immutable/";

/// The body of a missing asset.
pub const NOT_FOUND_BODY: &'static str = "404 Not Found";

/// `path.trim_start_matches('/')`.
pub open spec fn trim_leading_slashes(s: Seq<char>) -> Seq<char>
    decreases s.len(),
{
    if s.len() > 0 && s[0] == '/' {
        trim_leading_slashes(s.drop_first())
    } else {
        s
    }
}

/// The embedded file a request path names: the path without its leading
/// slashes, `index.html` for the root.
pub open spec fn asset_key_spec(path: Seq<char>) -> Seq<char> {
    let p = trim_leading_slashes(path);
    if p.len() == 0 {
        "index.html"@
    } else {
        p
    }
}

pub fn asset_key(path: &str) -> (key: String)
    ensures
        key@ == asset_key_spec(path@),
{
    let chars = chars_of(path);
    let n = chars.len();
    let mut i: usize = 0;
    assert(chars@.skip(0) =~= chars@);
    while i < n && chars[i] == '/'
        invariant
            n == chars@.len(),
            chars@ == path@,
            i <= n,
            trim_leading_slashes(path@) == trim_leading_slashes(chars@.skip(i as int)),
        decreases n - i,
    {
        assert(chars@.skip(i as int).drop_first() =~= chars@.skip(i + 1));
        i += 1;
    }
    if i == n {
        assert(chars@.skip(i as int) =~= Seq::<char>::empty());
        String::from_str("index.html")
    } else {
        let rest = slice_subrange(chars.as_slice(), i, n);
        assert(rest@ =~= chars@.skip(i as int));
        string_of(rest)
    }
}

/// The last `/`-separated segment of the path contains a dot.
pub open spec fn has_extension_spec(path: Seq<char>) -> bool {
    split_all(path, '/').last().contains('.')
}

/// An asset with an extension that is not embedded is a real 404; a path
/// without one is a front-end route.
pub fn has_extension(path: &str) -> (b: bool)
    ensures
        b == has_extension_spec(path@),
{
    let chars = chars_of(path);
    let parts = split_chars(chars.as_slice(), '/');
    proof {
        crate::text::lemma_split_all_nonempty(path@, '/');
    }
    let last = &parts[parts.len() - 1];
    assert(last@ == split_all(path@, '/').last());
    match crate::text::find_char(last.as_slice(), '.') {
        Some(i) => {
            assert(last@[i as int] == '.');
            true
        },
        None => false,
    }
}

/// What a request for an asset key is answered with.
#[derive(Debug, Clone, Copy, PartialEq, Eq, Structural)]
pub enum Route {
    /// The embedded file itself.
    Asset,
    /// The SPA entry point.
    Index,
    /// A 404.
    Missing,
}

/// A found file is served; a missing file with an extension is a 404 (a
/// missing `.js` must not look like a success); anything else goes to the
/// SPA entry point, if that is embedded.
pub fn route(key: &str, found: bool, index_found: bool) -> (r: Route)
    ensures
        r == (if found {
            Route::Asset
        } else if has_extension_spec(key@) || !index_found {
            Route::Missing
        } else {
            Route::Index
        }),
{
    if found {
        Route::Asset
    } else if has_extension(key) || !index_found {
        Route::Missing
    } else {
        Route::Index
    }
}

/// The precompressed sidecars, best first.
#[derive(Debug, Clone, Copy, PartialEq, Eq, Structural)]
pub enum Encoding {
    Brotli,
    Gzip,
}

pub open spec fn encoding_name(e: Encoding) -> Seq<char> {
    match e {
        Encoding::Brotli => "br"@,
        Encoding::Gzip => "gzip"@,
    }
}

pub open spec fn encoding_suffix(e: Encoding) -> Seq<char> {
    match e {
        Encoding::Brotli => ".br"@,
        Encoding::Gzip => ".gz"@,
    }
}

impl Encoding {
    /// The `content-encoding` value.
    pub fn name(&self) -> (s: &'static str)
        ensures
            s@ == encoding_name(*self),
    {
        match self {
            Encoding::Brotli => "br",
            Encoding::Gzip => "gzip",
        }
    }

    /// The suffix of the sidecar file.
    pub fn suffix(&self) -> (s: &'static str)
        ensures
            s@ == encoding_suffix(*self),
    {
        match self {
            Encoding::Brotli => ".br",
            Encoding::Gzip => ".gz",
        }
    }
}

/// The sidecars worth looking for, in the order to try them: those whose
/// encoding the `Accept-Encoding` header mentions, brotli first.
pub open spec fn sidecar_order(accept: Seq<char>) -> Seq<Encoding> {
    (if contains(accept, "br"@) {
        seq![Encoding::Brotli]
    } else {
        Seq::empty()
    }) + (if contains(accept, "gzip"@) {
        seq![Encoding::Gzip]
    } else {
        Seq::empty()
    })
}

pub fn sidecar_candidates(accept_encoding: Option<&str>) -> (v: Vec<Encoding>)
    ensures
        v@ == sidecar_order(match accept_encoding {
            Some(a) => a@,
            None => ""@,
        }),
{
    let accept = match accept_encoding {
        Some(a) => a,
        None => "",
    };
    let mut v: Vec<Encoding> = Vec::new();
    if str_contains(accept, "br") {
        v.push(Encoding::Brotli);
    }
    if str_contains(accept, "gzip") {
        v.push(Encoding::Gzip);
    }
    assert(v@ =~= sidecar_order(accept@));
    v
}

/// The name of a sidecar file.
pub fn sidecar_key(key: &str, encoding: Encoding) -> (s: String)
    ensures
        s@ == key@ + encoding_suffix(encoding),
{
    let mut s = String::from_str(key);
    s.append(encoding.suffix());
    s
}

/// The ETag of a file: its SHA-256 in hex, quoted. It always comes from
/// the uncompressed file, so one content has one tag whatever the
/// encoding.
pub open spec fn etag_spec(sha256: Seq<u8>) -> Seq<char> {
    "\""@ + hex(sha256) + "\""@
}

pub fn etag(sha256: &[u8]) -> (s: String)
    ensures
        s@ == etag_spec(sha256@),
{
    let mut s = String::from_str("\"");
    let h = hex_of(sha256);
    s.append(h.as_str());
    s.append("\"");
    s
}

/// Whether the client already has this version: one of the
/// comma-separated entries of `If-None-Match`, trimmed, is the ETag.
pub open spec fn fresh_spec(if_none_match: Option<Seq<char>>, tag: Seq<char>) -> bool {
    match if_none_match {
        Some(h) => lists_tag(h, tag),
        None => false,
    }
}

/// One of the comma-separated entries of `h`, trimmed, is `tag`.
pub open spec fn lists_tag(h: Seq<char>, tag: Seq<char>) -> bool {
    exists|i: int| 0 <= i < split_all(h, ',').len() && trim(#[trigger] split_all(h, ',')[i]) == tag
}

pub fn is_fresh(if_none_match: Option<&str>, etag: &str) -> (b: bool)
    ensures
        b == fresh_spec(
            match if_none_match {
                Some(h) => Some(h@),
                None => None,
            },
            etag@,
        ),
{
    let h = match if_none_match {
        Some(h) => h,
        None => return false,
    };
    let chars = chars_of(h);
    let parts = split_chars(chars.as_slice(), ',');
    let ghost views = parts@.map_values(|v: Vec<char>| v@);
    let tag = chars_of(etag);
    let n = parts.len();
    let mut i: usize = 0;
    while i < n
        invariant
            n == parts@.len(),
            if_none_match == Some(h),
            views == parts@.map_values(|v: Vec<char>| v@),
            views == split_all(h@, ','),
            tag@ == etag@,
            i <= n,
            forall|j: int| 0 <= j < i ==> trim(#[trigger] views[j]) != etag@,
        decreases n - i,
    {
        let part = &parts[i];
        assert(views[i as int] == part@);
        let (a, b) = trim_bounds(part.as_slice());
        let t = slice_subrange(part.as_slice(), a, b);
        if chars_eq(t, tag.as_slice()) {
            assert(trim(split_all(h@, ',')[i as int]) == etag@);
            assert(0 <= i < split_all(h@, ',').len());
            assert(lists_tag(h@, etag@));
            return true;
        }
        i += 1;
    }
    false
}

/// `Cache-Control`: a year for content-hashed files, revalidation for
/// everything else.
pub open spec fn cache_control_spec(path: Seq<char>) -> Seq<char> {
    if starts_with(path, "_app/immutable/"@) {
        "public, max-age=31536000, immutable"@
    } else {
        "no-cache"@
    }
}

pub fn cache_control(path: &str) -> (s: &'static str)
    ensures
        s@ == cache_control_spec(path@),
{
    if str_starts_with(path, IMMUTABLE_PREFIX) {
        proof {
            reveal_strlit("_app/immutable/");
        }
        "public, max-age=31536000, immutable"
    } else {
        proof {
            reveal_strlit("_app/immutable/");
        }
        "no-cache"
    }
}

/// The media type `mime_guess` gives a path, `application/octet-stream`
/// when it knows none.
pub uninterp spec fn guessed_mime(path: Seq<char>) -> Seq<char>;

/// `mime_guess::from_path(path).first_or_octet_stream()`, as text.
#[verifier::external_body]
fn guess_mime(path: &str) -> (s: String)
    ensures
        s@ == guessed_mime(path@),
{
    mime_guess::from_path(path).first_or_octet_stream().as_ref().to_string()
}

/// The headers and status of an asset response.
pub struct AssetHeaders {
    pub status: u16,
    pub etag: String,
    pub content_encoding: Option<&'static str>,
    /// `Vary: accept-encoding`: one URL, different bytes per encoding.
    pub vary_accept_encoding: bool,
    pub content_type: Option<String>,
    pub cache_control: Option<&'static str>,
}

/// How an embedded file is answered. A matching `If-None-Match` is a 304
/// with only the ETag; otherwise a 200 with the sidecar's encoding (if one
/// is served), the media type of the file and its caching rule.
pub fn asset_headers(path: &str, sha256: &[u8], if_none_match: Option<&str>, sidecar: Option<Encoding>) -> (h:
    AssetHeaders)
    ensures
        h.etag@ == etag_spec(sha256@),
        fresh_spec(
            match if_none_match {
                Some(x) => Some(x@),
                None => None,
            },
            etag_spec(sha256@),
        ) ==> h.status == 304 && h.content_encoding is None && !h.vary_accept_encoding
            && h.content_type is None && h.cache_control is None,
        !fresh_spec(
            match if_none_match {
                Some(x) => Some(x@),
                None => None,
            },
            etag_spec(sha256@),
        ) ==> h.status == 200 && (match sidecar {
            Some(e) => h.content_encoding matches Some(n) && n@ == encoding_name(e)
                && h.vary_accept_encoding,
            None => h.content_encoding is None && !h.vary_accept_encoding,
        }) && (h.content_type matches Some(t) && t@ == guessed_mime(path@)) && (
        h.cache_control matches Some(c) && c@ == cache_control_spec(path@)),
{
    let tag = etag(sha256);
    if is_fresh(if_none_match, tag.as_str()) {
        return AssetHeaders {
            status: 304,
            etag: tag,
            content_encoding: None,
            vary_accept_encoding: false,
            content_type: None,
            cache_control: None,
        };
    }
    let (content_encoding, vary) = match sidecar {
        Some(e) => (Some(e.name()), true),
        None => (None, false),
    };
    AssetHeaders {
        status: 200,
        etag: tag,
        content_encoding,
        vary_accept_encoding: vary,
        content_type: Some(guess_mime(path)),
        cache_control: Some(cache_control(path)),
    }
}

} // verus!

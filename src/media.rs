//! Telling images and videos apart by their content type or file extension.

use regex::Regex;
use vstd::prelude::*;
use crate::events::{compile, opt_view};
use crate::text::{
    before_first, contains_ci, contains_ignore_ascii_case, eq_ascii_case, eq_ignore_ascii_case,
    find_char, is_char, lemma_find_from_bounds, starts_with, trim_str, trimmed,
};

verus! {

pub open spec fn has_prefix(s: Seq<char>, p: Seq<char>) -> bool {
    p.len() <= s.len() && s.take(p.len() as int) == p
}

/// Media kind named by a content type: its part before any `;`, trimmed,
/// must start with `image/` or `video/`.
pub open spec fn content_type_kind(content_type: Seq<char>) -> Option<Seq<char>> {
    let n = trimmed(before_first(content_type, ';'));
    if has_prefix(n, "image/"@) {
        Some("image"@)
    } else if has_prefix(n, "video/"@) {
        Some("video"@)
    } else {
        None
    }
}

pub open spec fn str_view(r: Option<&str>) -> Option<Seq<char>> {
    match r {
        Some(s) => Some(s@),
        None => None,
    }
}

/// `image` or `video` for a content type such as `image/png; charset=utf-8`.
pub fn classify_media_from_content_type(content_type: &str) -> (r: Option<&'static str>)
    ensures
        str_view(r) == content_type_kind(content_type@),
{
    let cut = find_char(content_type, ';');
    proof {
        lemma_find_from_bounds(content_type@, is_char(';'), 0);
    }
    let normalized = trim_str(content_type.substring_char(0, cut));
    if starts_with(normalized, "image/") {
        return Some("image");
    }
    if starts_with(normalized, "video/") {
        return Some("video");
    }
    None
}

/// Index of the last `c` in `s` before position `i`, or -1.
pub open spec fn last_before(s: Seq<char>, c: char, i: int) -> int
    decreases i,
{
    if i <= 0 || i > s.len() {
        -1
    } else if s[i - 1] == c {
        i - 1
    } else {
        last_before(s, c, i - 1)
    }
}

/// What follows the last `c` in `s` (all of `s` when there is none).
pub open spec fn after_last(s: Seq<char>, c: char) -> Seq<char> {
    s.skip(last_before(s, c, s.len() as int) + 1)
}

proof fn lemma_last_before_bounds(s: Seq<char>, c: char, i: int)
    requires
        0 <= i <= s.len(),
    ensures
        -1 <= last_before(s, c, i) < i,
    decreases i,
{
    if i > 0 && s[i - 1] != c {
        lemma_last_before_bounds(s, c, i - 1);
    }
}

/// Index of the last `c` in `s`, if any.
fn rfind_char(s: &str, c: char) -> (r: Option<usize>)
    ensures
        match r {
            Some(j) => j as int == last_before(s@, c, s@.len() as int),
            None => last_before(s@, c, s@.len() as int) == -1,
        },
{
    let n = s.unicode_len();
    let mut i: usize = n;
    while i > 0
        invariant
            n == s@.len(),
            i <= n,
            last_before(s@, c, n as int) == last_before(s@, c, i as int),
        decreases i,
    {
        if s.get_char(i - 1) == c {
            return Some(i - 1);
        }
        i = i - 1;
    }
    None
}

pub open spec fn is_image_ext(e: Seq<char>) -> bool {
    eq_ascii_case(e, "png"@) || eq_ascii_case(e, "jpg"@) || eq_ascii_case(e, "jpeg"@)
        || eq_ascii_case(e, "gif"@) || eq_ascii_case(e, "webp"@) || eq_ascii_case(e, "bmp"@)
        || eq_ascii_case(e, "svg"@) || eq_ascii_case(e, "avif"@) || eq_ascii_case(e, "apng"@)
}

pub open spec fn is_video_ext(e: Seq<char>) -> bool {
    eq_ascii_case(e, "mp4"@) || eq_ascii_case(e, "webm"@) || eq_ascii_case(e, "mov"@)
        || eq_ascii_case(e, "gifv"@)
}

/// Media kind named by the extension of a URL path's last segment, compared
/// without regard to ASCII case; nothing when the segment has no `.`.
pub open spec fn path_kind(path: Seq<char>) -> Option<Seq<char>> {
    let file_name = after_last(path, '/');
    let ext = after_last(file_name, '.');
    if last_before(file_name, '.', file_name.len() as int) < 0 {
        None
    } else if is_image_ext(ext) {
        Some("image"@)
    } else if is_video_ext(ext) {
        Some("video"@)
    } else {
        None
    }
}

/// `image` or `video` from the extension of a URL path such as `/a/b.PNG`.
pub fn classify_media_from_path(path: &str) -> (r: Option<&'static str>)
    ensures
        str_view(r) == path_kind(path@),
{
    let n = path.unicode_len();
    proof {
        lemma_last_before_bounds(path@, '/', n as int);
    }
    let start = match rfind_char(path, '/') {
        Some(j) => j + 1,
        None => 0,
    };
    let file_name = path.substring_char(start, n);
    let m = file_name.unicode_len();
    proof {
        lemma_last_before_bounds(file_name@, '.', m as int);
    }
    let dot = match rfind_char(file_name, '.') {
        Some(j) => j,
        None => return None,
    };
    let ext = file_name.substring_char((dot + 1) as usize, m);
    if eq_ignore_ascii_case(ext, "png") || eq_ignore_ascii_case(ext, "jpg")
        || eq_ignore_ascii_case(ext, "jpeg") || eq_ignore_ascii_case(ext, "gif")
        || eq_ignore_ascii_case(ext, "webp") || eq_ignore_ascii_case(ext, "bmp")
        || eq_ignore_ascii_case(ext, "svg") || eq_ignore_ascii_case(ext, "avif")
        || eq_ignore_ascii_case(ext, "apng") {
        return Some("image");
    }
    if eq_ignore_ascii_case(ext, "mp4") || eq_ignore_ascii_case(ext, "webm")
        || eq_ignore_ascii_case(ext, "mov") || eq_ignore_ascii_case(ext, "gifv") {
        return Some("video");
    }
    None
}

/// Path component of an absolute URL; nothing when the text is not one.
pub uninterp spec fn url_path_of(url: Seq<char>) -> Option<Seq<char>>;

/// Relies on url::Url::parse (re-exported by reqwest) and `Url::path`: the
/// parsed URL's path, percent-encoded as serialised.
#[verifier::external_body]
fn url_path(url: &str) -> (r: Option<String>)
    ensures
        opt_view(r) == url_path_of(url@),
{
    reqwest::Url::parse(url).ok().map(|u| u.path().to_string())
}

/// `image` or `video` from the extension in a URL's path; nothing when the
/// URL does not parse or its path names no known media extension.
pub fn classify_media_from_url_path(url: &str) -> (r: Option<&'static str>)
    ensures
        str_view(r) == match url_path_of(url@) {
            None => None,
            Some(p) => path_kind(p),
        },
{
    match url_path(url) {
        None => None,
        Some(p) => classify_media_from_path(p.as_str()),
    }
}

/// Pattern of an HTML `<meta ...>` tag, across lines and in any case.
pub const META_TAG_PATTERN: &'static str = r"(?is)<meta\s+[^>]*>";

/// Pattern of a quoted `content=` attribute; group 1 is its value.
pub const META_CONTENT_PATTERN: &'static str = r#"(?i)\bcontent\s*=\s*["']([^"']+)["']"#;

/// The text of every match of the meta-tag pattern in `html`, in order.
pub uninterp spec fn meta_tags_of(html: Seq<char>) -> Seq<Seq<char>>;

/// Group 1 of the first match of the content-attribute pattern in `tag`.
pub uninterp spec fn meta_content_of(tag: Seq<char>) -> Option<Seq<char>>;

/// `url` parsed as an absolute URL and serialised; nothing when it is not one.
pub uninterp spec fn absolute_url_of(url: Seq<char>) -> Option<Seq<char>>;

/// `reference` resolved against the absolute URL `base` and serialised;
/// nothing when either does not parse.
pub uninterp spec fn joined_url_of(base: Seq<char>, reference: Seq<char>) -> Option<Seq<char>>;

/// The two patterns used to find media addresses in an HTML page.
pub struct MetaPatterns {
    tag: Regex,
    content: Regex,
}

/// Relies on regex::Regex::find_iter with the meta-tag pattern: the text of
/// each successive non-overlapping match.
#[verifier::external_body]
fn finds_of_meta_tag(p: &MetaPatterns, html: &str) -> (r: Vec<String>)
    ensures
        r@.map_values(|t: String| t@) == meta_tags_of(html@),
{
    p.tag.find_iter(html).map(|m| m.as_str().to_string()).collect()
}

/// Relies on regex::Regex::captures with the content-attribute pattern:
/// group 1 of the leftmost match.
#[verifier::external_body]
fn capture_of_content(p: &MetaPatterns, tag: &str) -> (r: Option<String>)
    ensures
        opt_view(r) == meta_content_of(tag@),
{
    p.content.captures(tag).and_then(|caps| caps.get(1)).map(|m| m.as_str().to_string())
}

/// Relies on url::Url::parse (re-exported by reqwest) and its `to_string`.
#[verifier::external_body]
fn absolute_url(url: &str) -> (r: Option<String>)
    ensures
        opt_view(r) == absolute_url_of(url@),
{
    reqwest::Url::parse(url).ok().map(|u| u.to_string())
}

/// Relies on url::Url::parse for `base`, then `Url::join` and `to_string`.
#[verifier::external_body]
fn joined_url(base: &str, reference: &str) -> (r: Option<String>)
    ensures
        opt_view(r) == joined_url_of(base@, reference@),
{
    reqwest::Url::parse(base).ok().and_then(|b| b.join(reference).ok()).map(|u| u.to_string())
}

impl MetaPatterns {
    /// Compiles the two patterns.
    pub fn new() -> (r: Result<MetaPatterns, regex::Error>) {
        let tag = match compile(META_TAG_PATTERN) {
            Ok(re) => re,
            Err(e) => return Err(e),
        };
        let content = match compile(META_CONTENT_PATTERN) {
            Ok(re) => re,
            Err(e) => return Err(e),
        };
        Ok(MetaPatterns { tag, content })
    }
}

/// Whether a tag names one of the media properties (Open Graph or Twitter
/// card), ignoring ASCII case.
pub open spec fn has_media_key(tag: Seq<char>) -> bool {
    contains_ci(tag, "og:video"@) || contains_ci(tag, "og:video:url"@) || contains_ci(
        tag,
        "og:image"@,
    ) || contains_ci(tag, "og:image:url"@) || contains_ci(tag, "twitter:image"@) || contains_ci(
        tag,
        "twitter:image:src"@,
    ) || contains_ci(tag, "twitter:player:stream"@)
}

/// The address a media tag carries: its trimmed `content` value, unless empty
/// or a `data:` address.
pub open spec fn meta_candidate(tag: Seq<char>) -> Option<Seq<char>> {
    if !has_media_key(tag) {
        None
    } else {
        match meta_content_of(tag) {
            None => None,
            Some(c) => if trimmed(c).len() == 0 || has_prefix(trimmed(c), "data:"@) {
                None
            } else {
                Some(trimmed(c))
            },
        }
    }
}

/// A tag's address made absolute: as it stands when it parses, else resolved
/// against `base`.
pub open spec fn meta_tag_url(tag: Seq<char>, base: Seq<char>) -> Option<Seq<char>> {
    match meta_candidate(tag) {
        None => None,
        Some(t) => match absolute_url_of(t) {
            Some(u) => Some(u),
            None => joined_url_of(base, t),
        },
    }
}

/// The first tag from position `i` on that yields an address.
pub open spec fn first_meta_url(tags: Seq<Seq<char>>, base: Seq<char>, i: int) -> Option<Seq<char>>
    decreases tags.len() - i,
{
    if i < 0 || i >= tags.len() {
        None
    } else {
        match meta_tag_url(tags[i], base) {
            Some(u) => Some(u),
            None => first_meta_url(tags, base, i + 1),
        }
    }
}

fn has_media_key_exec(tag: &str) -> (r: bool)
    ensures
        r == has_media_key(tag@),
{
    contains_ignore_ascii_case(tag, "og:video") || contains_ignore_ascii_case(tag, "og:video:url")
        || contains_ignore_ascii_case(tag, "og:image") || contains_ignore_ascii_case(
        tag,
        "og:image:url",
    ) || contains_ignore_ascii_case(tag, "twitter:image") || contains_ignore_ascii_case(
        tag,
        "twitter:image:src",
    ) || contains_ignore_ascii_case(tag, "twitter:player:stream")
}

fn meta_tag_url_exec(patterns: &MetaPatterns, tag: &str, base_url: &str) -> (r: Option<String>)
    ensures
        opt_view(r) == meta_tag_url(tag@, base_url@),
{
    if !has_media_key_exec(tag) {
        return None;
    }
    let content = match capture_of_content(patterns, tag) {
        Some(c) => c,
        None => return None,
    };
    let value = trim_str(content.as_str());
    if value.unicode_len() == 0 || starts_with(value, "data:") {
        return None;
    }
    match absolute_url(value) {
        Some(u) => Some(u),
        None => joined_url(base_url, value),
    }
}

/// The address of the first media tag (Open Graph or Twitter card image or
/// video) of an HTML page, made absolute against the page's own address.
pub fn extract_media_url_from_meta_tags(patterns: &MetaPatterns, html: &str, base_url: &str) -> (r:
    Option<String>)
    ensures
        opt_view(r) == first_meta_url(meta_tags_of(html@), base_url@, 0),
{
    let tags = finds_of_meta_tag(patterns, html);
    let ghost views = tags@.map_values(|t: String| t@);
    let mut i: usize = 0;
    while i < tags.len()
        invariant
            i <= tags@.len(),
            views == tags@.map_values(|t: String| t@),
            views == meta_tags_of(html@),
            first_meta_url(views, base_url@, 0) == first_meta_url(views, base_url@, i as int),
        decreases tags@.len() - i,
    {
        let found = meta_tag_url_exec(patterns, tags[i].as_str(), base_url);
        if found.is_some() {
            return found;
        }
        i = i + 1;
    }
    None
}

} // verus!

use vstd::prelude::*;

use sha2::{Digest, Sha256};
use vstd::string::StringSliceAdditionalSpecFns;
use vstd::utf8::encode_utf8;

use crate::text::{
    collapsed, is_ws, lemma_collapse_of_collapsed, lemma_collapse_shape, after_last, all_chars, ascii_lower, byte_prefix, collapse_whitespace, collapse_ws, concat,
    first_chars, has_prefix, hex_lower, hex_string, leading_alnum, lemma_collapse_keeps,
    lemma_trims_keep, owned, prefix_of_bytes, same_text, starts_with, take_chars,
    take_leading_alnum, text_after_last, to_ascii_lower, trim, trim_dots, trim_dots_and_spaces,
    trim_whitespace,
};

verus! {

// ---------------------------------------------------------------------------
// Titles
// ---------------------------------------------------------------------------

/// A title with its whitespace collapsed; a blank title reads "Untitled".
pub open spec fn normalized_title(s: Seq<char>) -> Seq<char> {
    let c = collapse_ws(s);
    if c.len() == 0 {
        "Untitled"@
    } else {
        c
    }
}

/// A normalized title is never empty, has no whitespace at its ends nor two whitespace
/// characters in a row, and normalizing it again changes nothing.
pub proof fn lemma_normalized_title_shape(s: Seq<char>)
    ensures
        normalized_title(s).len() > 0,
        collapsed(normalized_title(s)),
        normalized_title(normalized_title(s)) == normalized_title(s),
{
    lemma_collapse_shape(s);
    let c = collapse_ws(s);
    if c.len() == 0 {
        reveal_strlit("Untitled");
        let u = "Untitled"@;
        assert forall|i: int| 0 <= i < u.len() implies !is_ws(#[trigger] u[i]) by {}
        assert(collapsed(u));
        lemma_collapse_of_collapsed(u);
    }
}

pub fn normalize_title(value: &str) -> (r: String)
    ensures
        r@ == normalized_title(value@),
{
    let compact = collapse_whitespace(value);
    if compact.as_str().is_empty() {
        owned("Untitled")
    } else {
        compact
    }
}

// ---------------------------------------------------------------------------
// File names
// ---------------------------------------------------------------------------

/// Characters that `sanitize_filename` removes on every platform.
pub open spec fn is_illegal_filename_char(c: char) -> bool {
    c == '/' || c == '?' || c == '<' || c == '>' || c == '\\' || c == ':' || c == '*' || c == '|'
        || c == '"'
}

/// Control characters that `sanitize_filename` removes.
pub open spec fn is_control_char(c: char) -> bool {
    c <= '\u{1f}' || ('\u{80}' <= c && c <= '\u{9f}')
}

/// A character that may stand in a file name component.
pub open spec fn filename_safe(c: char) -> bool {
    !is_illegal_filename_char(c) && !is_control_char(c)
}

/// What `sanitize_filename` leaves of a name on every platform: its characters that are
/// neither illegal in a file name nor control characters.
pub open spec fn sanitized_text(s: Seq<char>) -> Seq<char> {
    s.filter(|c: char| filename_safe(c))
}

/// Only dots, at least one.
pub open spec fn all_dots(s: Seq<char>) -> bool {
    s.len() > 0 && forall|i: int| 0 <= i < s.len() ==> s[i] == '.'
}

/// Starts like a reserved Windows device name (`con`, `prn`, `aux`, `nul`, `com` or `lpt`
/// and a digit, in any case) followed by the end or a dot.
pub open spec fn reserved_device_prefix(s: Seq<char>) -> bool {
    let l = ascii_lower(s);
    ||| (l.len() >= 3 && (l.take(3) == "con"@ || l.take(3) == "prn"@ || l.take(3) == "aux"@
        || l.take(3) == "nul"@) && (l.len() == 3 || l[3] == '.'))
    ||| (l.len() >= 4 && (l.take(3) == "com"@ || l.take(3) == "lpt"@) && '0' <= l[3] <= '9'
        && (l.len() == 4 || l[4] == '.'))
}

/// A text that `sanitize_filename` keeps on every platform, but for its 255-byte limit,
/// once its illegal and control characters are gone: not only dots, no trailing dot or
/// space, no reserved device name.
pub open spec fn sanitize_keeps(s: Seq<char>) -> bool {
    &&& !all_dots(s)
    &&& !(s.len() > 0 && (s.last() == '.' || s.last() == ' '))
    &&& !reserved_device_prefix(s)
}

/// The longest start of `s` that takes at most `n` bytes in UTF-8.
pub open spec fn within_bytes(s: Seq<char>, n: nat) -> Seq<char>
    decreases s.len(),
{
    if s.len() == 0 || encode_utf8(s).len() <= n {
        s
    } else {
        within_bytes(s.drop_last(), n)
    }
}

/// What `sanitize_filename` makes of a name on every platform when what is left of it
/// keeps the platform rules (`sanitize_keeps`): its safe characters, cut to 255 bytes at a
/// character boundary.
pub open spec fn sanitized_name(name: Seq<char>) -> Seq<char> {
    within_bytes(sanitized_text(name), 255)
}

/// `sanitize_filename::sanitize`. Its result keeps only characters of `name`, and none
/// that are illegal in a file name or control characters. Those it removes on every
/// platform, and it cuts what is left to its longest start of at most 255 bytes; where what
/// is left keeps the platform rules (`sanitize_keeps`), the result is exactly that.
/// Otherwise which characters go (reserved Windows names, trailing dots and spaces)
/// depends on the platform and is left unsaid.
#[verifier::external_body]
fn sanitize(name: &str) -> (r: String)
    ensures
        forall|i: int| 0 <= i < r@.len() ==> filename_safe(#[trigger] r@[i]),
        forall|i: int| 0 <= i < r@.len() ==> name@.contains(#[trigger] r@[i]),
        sanitize_keeps(sanitized_text(name@)) ==> r@ == sanitized_name(name@),
{
    sanitize_filename::sanitize(name)
}

/// The file name component made from an already sanitized text: whitespace collapsed,
/// dots and spaces trimmed, "Untitled" when nothing is left, cut to `max` characters.
pub open spec fn component_of_sanitized(s: Seq<char>, max: nat) -> Seq<char> {
    let safe = trim(trim_dots(collapse_ws(s)));
    first_chars(
        if safe.len() == 0 {
            "Untitled"@
        } else {
            safe
        },
        max,
    )
}

/// The component for a text that `sanitize_filename` has already cleaned.
pub fn component_from_sanitized(sanitized: &str, max_chars: usize) -> (r: String)
    ensures
        r@ == component_of_sanitized(sanitized@, max_chars as nat),
{
    let compact = collapse_whitespace(sanitized);
    let dotless = trim_dots_and_spaces(compact.as_str());
    let safe = trim_whitespace(dotless.as_str());
    if safe.as_str().is_empty() {
        truncate_chars("Untitled", max_chars)
    } else {
        truncate_chars(safe.as_str(), max_chars)
    }
}

proof fn lemma_component_safe(s: Seq<char>, max: nat)
    requires
        all_chars(s, |c: char| filename_safe(c)),
    ensures
        all_chars(component_of_sanitized(s, max), |c: char| filename_safe(c)),
        component_of_sanitized(s, max).len() <= max,
{
    let p = |c: char| filename_safe(c);
    lemma_collapse_keeps(s, p);
    let c = collapse_ws(s);
    lemma_trims_keep(c, p);
    let d = trim_dots(c);
    lemma_trims_keep(d, p);
    let safe = trim(d);
    reveal_strlit("Untitled");
    let f = if safe.len() == 0 {
        "Untitled"@
    } else {
        safe
    };
    assert(all_chars(f, p));
    let r = first_chars(f, max);
    assert forall|i: int| 0 <= i < r.len() implies p(#[trigger] r[i]) by {
        assert(r[i] == f[i]);
    }
}

/// A file name component for `value`: normalized, sanitized, whitespace collapsed, dots
/// and spaces trimmed, at most `max_chars` characters, "Untitled" when nothing is left.
pub fn filename_component(value: &str, max_chars: usize) -> (r: String)
    ensures
        r@.len() <= max_chars,
        forall|i: int| 0 <= i < r@.len() ==> filename_safe(#[trigger] r@[i]),
        exists|s: Seq<char>|
            #![trigger component_of_sanitized(s, max_chars as nat)]
            chars_from(s, normalized_title(value@)) && r@ == component_of_sanitized(
                s,
                max_chars as nat,
            ),
        sanitize_keeps(sanitized_text(normalized_title(value@))) ==> r@ == component_of_sanitized(
            sanitized_name(normalized_title(value@)),
            max_chars as nat,
        ),
{
    let normalized = normalize_title(value);
    let sanitized = sanitize(normalized.as_str());
    proof {
        lemma_component_safe(sanitized@, max_chars as nat);
    }
    component_from_sanitized(sanitized.as_str(), max_chars)
}

/// Every character of `t` is a character of `s` that may stand in a file name.
pub open spec fn chars_from(t: Seq<char>, s: Seq<char>) -> bool {
    forall|i: int| 0 <= i < t.len() ==> s.contains(#[trigger] t[i]) && filename_safe(t[i])
}

/// At most the first `max_chars` characters.
pub fn truncate_chars(value: &str, max_chars: usize) -> (r: String)
    ensures
        r@ == first_chars(value@, max_chars as nat),
{
    take_chars(value, max_chars)
}

// ---------------------------------------------------------------------------
// Hashes and keys
// ---------------------------------------------------------------------------

/// The SHA-256 digest of a byte sequence.
pub uninterp spec fn sha256_digest(data: Seq<u8>) -> Seq<u8>;

/// `sha2::Sha256::digest`: the 32-byte SHA-256 digest of `data`.
#[verifier::external_body]
fn sha256(data: &[u8]) -> (r: Vec<u8>)
    ensures
        r@ == sha256_digest(data@),
        r@.len() == 32,
{
    Sha256::digest(data).to_vec()
}

/// The first eight lower-case hex digits of the SHA-256 digest of the UTF-8 encoding of `s`.
pub open spec fn short_hash_of(s: Seq<char>) -> Seq<char> {
    hex_lower(sha256_digest(encode_utf8(s)).take(4))
}

/// The first eight hex digits of the SHA-256 digest of the UTF-8 bytes of `value`.
pub fn short_hash(value: &str) -> (r: String)
    ensures
        r@ == short_hash_of(value@),
        r@.len() == 8,
{
    let digest = sha256(value.as_bytes());
    let first = vec![digest[0], digest[1], digest[2], digest[3]];
    assert(first@ == sha256_digest(value.spec_bytes()).take(4));
    let r = hex_string(first.as_slice());
    proof {
        lemma_hex_len(first@);
    }
    r
}

proof fn lemma_hex_len(b: Seq<u8>)
    ensures
        hex_lower(b).len() == 2 * b.len(),
    decreases b.len(),
{
    if b.len() > 0 {
        lemma_hex_len(b.drop_last());
    }
}

/// The key of an episode: its trimmed guid when that is not blank, otherwise "media:"
/// and the short hash of its media URL.
pub open spec fn episode_key_of(guid: Option<Seq<char>>, media_url: Seq<char>) -> Seq<char> {
    if guid is Some && trim(guid->0).len() > 0 {
        trim(guid->0)
    } else {
        "media:"@ + short_hash_of(media_url)
    }
}

pub open spec fn opt_text(o: Option<&str>) -> Option<Seq<char>> {
    match o {
        Some(s) => Some(s@),
        None => None,
    }
}

pub fn episode_key(guid: Option<&str>, media_url: &str) -> (r: String)
    ensures
        r@ == episode_key_of(opt_text(guid), media_url@),
{
    if let Some(g) = guid {
        let trimmed = trim_whitespace(g);
        if !trimmed.as_str().is_empty() {
            return trimmed;
        }
    }
    let hash = short_hash(media_url);
    concat("media:", hash.as_str())
}

// ---------------------------------------------------------------------------
// Dates
// ---------------------------------------------------------------------------

/// The first ten bytes of a publication date (its `YYYY-MM-DD` part) when a character
/// boundary falls there, otherwise "unknown-date".
pub open spec fn date_prefix_of(published_at: Option<Seq<char>>) -> Seq<char> {
    if published_at is Some && byte_prefix(published_at->0, 10) is Some && byte_prefix(
        published_at->0,
        10,
    )->0.len() > 0 {
        byte_prefix(published_at->0, 10)->0
    } else {
        "unknown-date"@
    }
}

pub fn date_prefix(published_at: Option<&str>) -> (r: String)
    ensures
        r@ == date_prefix_of(opt_text(published_at)),
{
    if let Some(value) = published_at {
        if let Some(prefix) = prefix_of_bytes(value, 10) {
            if !prefix.as_str().is_empty() {
                return prefix;
            }
        }
    }
    owned("unknown-date")
}

// ---------------------------------------------------------------------------
// Media extensions
// ---------------------------------------------------------------------------

/// The path of a URL as `url::Url` parses it, or `None` when the text is no URL.
pub uninterp spec fn parsed_url_path(url: Seq<char>) -> Option<Seq<char>>;

/// `url::Url::parse` followed by `Url::path`: the parsed URL's path, or `None` when
/// parsing fails.
#[verifier::external_body]
fn url_path(url: &str) -> (r: Option<String>)
    ensures
        r.deep_view() == parsed_url_path(url@),
{
    url::Url::parse(url).ok().map(|u| u.path().to_string())
}

/// Extensions that are taken from a URL as they stand.
pub open spec fn is_known_media_extension(e: Seq<char>) -> bool {
    e == "mp3"@ || e == "m4a"@ || e == "mp4"@ || e == "aac"@ || e == "ogg"@ || e == "wav"@
}

/// The cleaned extension of the last segment of a URL path: the letters and digits after
/// its last dot, in lower case.
pub open spec fn path_extension(path: Option<Seq<char>>) -> Option<Seq<char>> {
    if path is Some && has_prefix(path->0, "/"@) && after_last(path->0, '/') is Some
        && after_last(after_last(path->0, '/')->0, '.') is Some {
        Some(ascii_lower(leading_alnum(after_last(after_last(path->0, '/')->0, '.')->0)))
    } else {
        None
    }
}

/// The extension a content type stands for.
pub open spec fn content_type_extension(ct: Seq<char>) -> Seq<char> {
    let l = ascii_lower(ct);
    if l == "audio/mp4"@ || l == "audio/x-m4a"@ {
        "m4a"@
    } else if l == "video/mp4"@ {
        "mp4"@
    } else if l == "audio/aac"@ {
        "aac"@
    } else if l == "audio/ogg"@ || l == "application/ogg"@ {
        "ogg"@
    } else if l == "audio/wav"@ || l == "audio/x-wav"@ {
        "wav"@
    } else {
        "unknown"@
    }
}

/// The extension for a media file: a known one from the URL path, otherwise the one its
/// content type stands for, otherwise "unknown".
pub open spec fn media_extension_of(path: Option<Seq<char>>, content_type: Option<Seq<char>>) -> Seq<
    char,
> {
    if path_extension(path) is Some && is_known_media_extension(path_extension(path)->0) {
        path_extension(path)->0
    } else {
        content_type_extension(
            match content_type {
                Some(c) => c,
                None => Seq::empty(),
            },
        )
    }
}

fn is_known_extension(e: &str) -> (r: bool)
    ensures
        r == is_known_media_extension(e@),
{
    same_text(e, "mp3") || same_text(e, "m4a") || same_text(e, "mp4") || same_text(e, "aac")
        || same_text(e, "ogg") || same_text(e, "wav")
}

fn extension_from_path(path: &Option<String>) -> (r: Option<String>)
    ensures
        r.deep_view() == path_extension(path.deep_view()),
{
    match path {
        Some(p) => {
            if !starts_with(p.as_str(), "/") {
                return None;
            }
            match text_after_last(p.as_str(), '/') {
                Some(segment) => match text_after_last(segment.as_str(), '.') {
                    Some(ext) => {
                        let clean = take_leading_alnum(ext.as_str());
                        Some(to_ascii_lower(clean.as_str()))
                    },
                    None => None,
                },
                None => None,
            }
        },
        None => None,
    }
}

fn extension_from_content_type(content_type: &str) -> (r: String)
    ensures
        r@ == content_type_extension(content_type@),
{
    let l = to_ascii_lower(content_type);
    let l = l.as_str();
    if same_text(l, "audio/mp4") || same_text(l, "audio/x-m4a") {
        owned("m4a")
    } else if same_text(l, "video/mp4") {
        owned("mp4")
    } else if same_text(l, "audio/aac") {
        owned("aac")
    } else if same_text(l, "audio/ogg") || same_text(l, "application/ogg") {
        owned("ogg")
    } else if same_text(l, "audio/wav") || same_text(l, "audio/x-wav") {
        owned("wav")
    } else {
        owned("unknown")
    }
}

/// The media extension once the URL's path is known (`None` when the URL did not parse).
pub fn media_extension_from_path(url_path: Option<String>, content_type: Option<&str>) -> (r:
    String)
    ensures
        r@ == media_extension_of(url_path.deep_view(), opt_text(content_type)),
{
    let found = extension_from_path(&url_path);
    if let Some(ext) = found {
        if is_known_extension(ext.as_str()) {
            return ext;
        }
    }
    assert(!(path_extension(url_path.deep_view()) is Some && is_known_media_extension(
        path_extension(url_path.deep_view())->0,
    )));
    match content_type {
        Some(ct) => extension_from_content_type(ct),
        None => {
            proof {
                reveal_strlit("");
                assert(""@ =~= Seq::<char>::empty());
            }
            extension_from_content_type("")
        },
    }
}

/// The extension for a media file, from its URL and content type.
pub fn media_extension(media_url: &str, content_type: Option<&str>) -> (r: String)
    ensures
        r@ == media_extension_of(parsed_url_path(media_url@), opt_text(content_type)),
{
    let path = url_path(media_url);
    media_extension_from_path(path, content_type)
}

} // verus!

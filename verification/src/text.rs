use vstd::prelude::*;

verus! {

// ---------------------------------------------------------------------------
// Whitespace
// ---------------------------------------------------------------------------

/// Characters with the Unicode `White_Space` property (what `char::is_whitespace` accepts).
pub open spec fn is_ws(c: char) -> bool {
    ||| c == ' '
    ||| ('\t' <= c && c <= '\r')
    ||| c == '\u{85}'
    ||| c == '\u{a0}'
    ||| c == '\u{1680}'
    ||| ('\u{2000}' <= c && c <= '\u{200a}')
    ||| c == '\u{2028}'
    ||| c == '\u{2029}'
    ||| c == '\u{202f}'
    ||| c == '\u{205f}'
    ||| c == '\u{3000}'
}

pub fn is_whitespace(c: char) -> (r: bool)
    ensures
        r == is_ws(c),
{
    c == ' ' || ('\t' <= c && c <= '\r') || c == '\u{85}' || c == '\u{a0}' || c == '\u{1680}'
        || ('\u{2000}' <= c && c <= '\u{200a}') || c == '\u{2028}' || c == '\u{2029}' || c
        == '\u{202f}' || c == '\u{205f}' || c == '\u{3000}'
}

/// State after scanning a prefix while collapsing whitespace: the output so far, and
/// whether a separator is owed before the next word.
pub open spec fn squeeze(s: Seq<char>) -> (Seq<char>, bool)
    decreases s.len(),
{
    if s.len() == 0 {
        (Seq::empty(), false)
    } else {
        let prev = squeeze(s.drop_last());
        let c = s.last();
        if is_ws(c) {
            (prev.0, prev.0.len() > 0)
        } else {
            ((if prev.1 {
                prev.0.push(' ')
            } else {
                prev.0
            }).push(c), false)
        }
    }
}

/// The words of `s` (maximal runs of non-whitespace) joined by single spaces.
pub open spec fn collapse_ws(s: Seq<char>) -> Seq<char> {
    squeeze(s).0
}

/// Drops leading whitespace.
pub open spec fn trim_start(s: Seq<char>) -> Seq<char>
    decreases s.len(),
{
    if s.len() > 0 && is_ws(s[0]) {
        trim_start(s.drop_first())
    } else {
        s
    }
}

/// Drops trailing whitespace.
pub open spec fn trim_end(s: Seq<char>) -> Seq<char>
    decreases s.len(),
{
    if s.len() > 0 && is_ws(s.last()) {
        trim_end(s.drop_last())
    } else {
        s
    }
}

/// `str::trim`: whitespace dropped from both ends.
pub open spec fn trim(s: Seq<char>) -> Seq<char> {
    trim_end(trim_start(s))
}

// ---------------------------------------------------------------------------
// Building strings
// ---------------------------------------------------------------------------

/// Appends one character to a string (`String::push`).
#[verifier::external_body]
pub(crate) fn push_char(s: &mut String, c: char)
    ensures
        final(s)@ == old(s)@.push(c),
{
    s.push(c);
}

/// The characters of a string, in order.
pub fn chars_of(s: &str) -> (v: Vec<char>)
    ensures
        v@ == s@,
{
    let mut v: Vec<char> = Vec::new();
    for c in it: s.chars()
        invariant
            v@ == it.seq().take(it.index() as int),
            it.seq() == s@,
    {
        v.push(c);
    }
    v
}

/// A string made of the characters `v[from..to]`.
pub fn string_of_range(v: &[char], from: usize, to: usize) -> (s: String)
    requires
        from <= to <= v@.len(),
    ensures
        s@ == v@.subrange(from as int, to as int),
{
    let mut s = String::new();
    let mut i: usize = from;
    while i < to
        invariant
            from <= i <= to <= v@.len(),
            s@ == v@.subrange(from as int, i as int),
        decreases to - i,
    {
        push_char(&mut s, v[i]);
        assert(v@.subrange(from as int, i + 1) == v@.subrange(from as int, i as int).push(
            v@[i as int],
        ));
        i = i + 1;
    }
    s
}

/// A string made of the characters of `v`.
pub fn string_of(v: &[char]) -> (s: String)
    ensures
        s@ == v@,
{
    let s = string_of_range(v, 0, v.len());
    assert(v@.subrange(0, v@.len() as int) == v@);
    s
}

/// An owned copy of a string slice.
pub fn owned(s: &str) -> (r: String)
    ensures
        r@ == s@,
{
    s.to_owned()
}

/// `a` followed by `b`.
pub fn concat(a: &str, b: &str) -> (r: String)
    ensures
        r@ == a@ + b@,
{
    let mut r = a.to_owned();
    r.append(b);
    r
}

/// `a`, `b` and `c` one after another.
pub fn concat3(a: &str, b: &str, c: &str) -> (r: String)
    ensures
        r@ == a@ + b@ + c@,
{
    let ab = concat(a, b);
    concat(ab.as_str(), c)
}

/// Whether two strings hold the same characters.
pub fn same_text(a: &str, b: &str) -> (r: bool)
    ensures
        r == (a@ == b@),
{
    let x = a.to_owned();
    let y = b.to_owned();
    x == y
}

// ---------------------------------------------------------------------------
// Whitespace operations
// ---------------------------------------------------------------------------

/// Collapses every run of whitespace to one space and drops it at both ends
/// (`split_whitespace` joined by `" "`).
pub fn collapse_whitespace(s: &str) -> (r: String)
    ensures
        r@ == collapse_ws(s@),
{
    let cs = chars_of(s);
    let mut out: Vec<char> = Vec::new();
    let mut pending = false;
    let mut i: usize = 0;
    while i < cs.len()
        invariant
            i <= cs@.len(),
            cs@ == s@,
            (out@, pending) == squeeze(s@.take(i as int)),
        decreases cs@.len() - i,
    {
        let c = cs[i];
        assert(s@.take(i + 1).drop_last() == s@.take(i as int));
        assert(s@.take(i + 1).last() == c);
        if is_whitespace(c) {
            pending = out.len() > 0;
        } else {
            if pending {
                out.push(' ');
            }
            out.push(c);
            pending = false;
        }
        i = i + 1;
    }
    assert(s@.take(s@.len() as int) == s@);
    string_of(&out)
}

proof fn lemma_trim_start_skip(s: Seq<char>, i: int)
    requires
        0 <= i <= s.len(),
        forall|k: int| 0 <= k < i ==> is_ws(#[trigger] s[k]),
    ensures
        trim_start(s) == trim_start(s.subrange(i, s.len() as int)),
    decreases i,
{
    if i > 0 {
        assert(is_ws(s[0]));
        let t = s.drop_first();
        assert forall|k: int| 0 <= k < i - 1 implies is_ws(#[trigger] t[k]) by {
            assert(t[k] == s[k + 1]);
        }
        lemma_trim_start_skip(t, i - 1);
        assert(t.subrange(i - 1, t.len() as int) == s.subrange(i, s.len() as int));
    } else {
        assert(s.subrange(0, s.len() as int) == s);
    }
}

proof fn lemma_trim_end_cut(s: Seq<char>, j: int)
    requires
        0 <= j <= s.len(),
        forall|k: int| j <= k < s.len() ==> is_ws(#[trigger] s[k]),
    ensures
        trim_end(s) == trim_end(s.subrange(0, j)),
    decreases s.len() - j,
{
    if j < s.len() {
        assert(is_ws(s.last()));
        let t = s.drop_last();
        assert forall|k: int| j <= k < t.len() implies is_ws(#[trigger] t[k]) by {
            assert(t[k] == s[k]);
        }
        lemma_trim_end_cut(t, j);
        assert(t.subrange(0, j) == s.subrange(0, j));
    } else {
        assert(s.subrange(0, j) == s);
    }
}

/// Whitespace dropped from both ends (`str::trim`).
pub fn trim_whitespace(s: &str) -> (r: String)
    ensures
        r@ == trim(s@),
{
    let cs = chars_of(s);
    let n = cs.len();
    let mut a: usize = 0;
    while a < n && is_whitespace(cs[a])
        invariant
            a <= n == cs@.len(),
            cs@ == s@,
            forall|k: int| 0 <= k < a ==> is_ws(#[trigger] cs@[k]),
        decreases n - a,
    {
        a = a + 1;
    }
    proof {
        lemma_trim_start_skip(s@, a as int);
        if a < n {
            assert(!is_ws(s@.subrange(a as int, n as int)[0]));
        }
    }
    let ghost t = s@.subrange(a as int, n as int);
    assert(trim_start(s@) == t);
    let mut b: usize = n;
    while b > a && is_whitespace(cs[b - 1])
        invariant
            a <= b <= n == cs@.len(),
            cs@ == s@,
            t == s@.subrange(a as int, n as int),
            forall|k: int| b <= k < n ==> is_ws(#[trigger] cs@[k]),
        decreases b - a,
    {
        b = b - 1;
    }
    proof {
        assert forall|k: int| (b - a) <= k < t.len() implies is_ws(#[trigger] t[k]) by {
            assert(t[k] == cs@[k + a]);
        }
        lemma_trim_end_cut(t, (b - a) as int);
        assert(t.subrange(0, (b - a) as int) == s@.subrange(a as int, b as int));
        if b > a {
            assert(s@.subrange(a as int, b as int).last() == cs@[b - 1]);
        }
    }
    string_of_range(&cs, a, b)
}

// ---------------------------------------------------------------------------
// Case and prefixes
// ---------------------------------------------------------------------------

/// `char::to_ascii_lowercase`.
pub open spec fn lower_char(c: char) -> char {
    if 'A' <= c && c <= 'Z' {
        ((c as u32) + 32) as char
    } else {
        c
    }
}

/// `str::to_ascii_lowercase`.
pub open spec fn ascii_lower(s: Seq<char>) -> Seq<char> {
    s.map_values(|c: char| lower_char(c))
}

pub fn lower_char_exec(c: char) -> (r: char)
    ensures
        r == lower_char(c),
{
    if 'A' <= c && c <= 'Z' {
        let b = (c as u8) + 32;
        b as char
    } else {
        c
    }
}

/// ASCII letters mapped to lower case; every other character kept.
pub fn to_ascii_lower(s: &str) -> (r: String)
    ensures
        r@ == ascii_lower(s@),
{
    let cs = chars_of(s);
    let mut out: Vec<char> = Vec::new();
    let mut i: usize = 0;
    while i < cs.len()
        invariant
            i <= cs@.len(),
            cs@ == s@,
            out@ == ascii_lower(s@.take(i as int)),
        decreases cs@.len() - i,
    {
        out.push(lower_char_exec(cs[i]));
        assert(ascii_lower(s@.take(i + 1)) == ascii_lower(s@.take(i as int)).push(
            lower_char(cs@[i as int]),
        ));
        i = i + 1;
    }
    assert(s@.take(s@.len() as int) == s@);
    string_of(&out)
}

/// `s` begins with `p`.
pub open spec fn has_prefix(s: Seq<char>, p: Seq<char>) -> bool {
    p.len() <= s.len() && s.take(p.len() as int) == p
}

/// `s` ends with `p`.
pub open spec fn has_suffix(s: Seq<char>, p: Seq<char>) -> bool {
    p.len() <= s.len() && s.skip(s.len() - p.len()) == p
}

pub fn starts_with(s: &str, p: &str) -> (r: bool)
    ensures
        r == has_prefix(s@, p@),
{
    let cs = chars_of(s);
    let ps = chars_of(p);
    if ps.len() > cs.len() {
        return false;
    }
    let mut i: usize = 0;
    while i < ps.len()
        invariant
            i <= ps@.len() <= cs@.len(),
            cs@ == s@,
            ps@ == p@,
            forall|k: int| 0 <= k < i ==> cs@[k] == ps@[k],
        decreases ps@.len() - i,
    {
        if cs[i] != ps[i] {
            assert(s@.take(p@.len() as int)[i as int] != p@[i as int]);
            return false;
        }
        i = i + 1;
    }
    assert(s@.take(p@.len() as int) == p@);
    true
}

pub fn ends_with(s: &str, p: &str) -> (r: bool)
    ensures
        r == has_suffix(s@, p@),
{
    let cs = chars_of(s);
    let ps = chars_of(p);
    if ps.len() > cs.len() {
        return false;
    }
    let off = cs.len() - ps.len();
    let mut i: usize = 0;
    while i < ps.len()
        invariant
            i <= ps@.len() <= cs@.len(),
            off == cs@.len() - ps@.len(),
            off + ps.len() == cs.len(),
            cs@ == s@,
            ps@ == p@,
            forall|k: int| 0 <= k < i ==> cs@[off + k] == ps@[k],
        decreases ps@.len() - i,
    {
        if cs[off + i] != ps[i] {
            assert(s@.skip(off as int)[i as int] != p@[i as int]);
            return false;
        }
        i = i + 1;
    }
    assert(s@.skip(off as int) == p@);
    true
}

// ---------------------------------------------------------------------------
// Trimming dots and spaces
// ---------------------------------------------------------------------------

pub open spec fn is_dot_or_space(c: char) -> bool {
    c == '.' || c == ' '
}

/// Drops leading dots and spaces.
pub open spec fn trim_dots_start(s: Seq<char>) -> Seq<char>
    decreases s.len(),
{
    if s.len() > 0 && is_dot_or_space(s[0]) {
        trim_dots_start(s.drop_first())
    } else {
        s
    }
}

/// Drops trailing dots and spaces.
pub open spec fn trim_dots_end(s: Seq<char>) -> Seq<char>
    decreases s.len(),
{
    if s.len() > 0 && is_dot_or_space(s.last()) {
        trim_dots_end(s.drop_last())
    } else {
        s
    }
}

/// `str::trim_matches(['.', ' '])`.
pub open spec fn trim_dots(s: Seq<char>) -> Seq<char> {
    trim_dots_end(trim_dots_start(s))
}

proof fn lemma_trim_dots_start_skip(s: Seq<char>, i: int)
    requires
        0 <= i <= s.len(),
        forall|k: int| 0 <= k < i ==> is_dot_or_space(#[trigger] s[k]),
    ensures
        trim_dots_start(s) == trim_dots_start(s.subrange(i, s.len() as int)),
    decreases i,
{
    if i > 0 {
        let t = s.drop_first();
        assert forall|k: int| 0 <= k < i - 1 implies is_dot_or_space(#[trigger] t[k]) by {
            assert(t[k] == s[k + 1]);
        }
        lemma_trim_dots_start_skip(t, i - 1);
        assert(t.subrange(i - 1, t.len() as int) == s.subrange(i, s.len() as int));
    } else {
        assert(s.subrange(0, s.len() as int) == s);
    }
}

proof fn lemma_trim_dots_end_cut(s: Seq<char>, j: int)
    requires
        0 <= j <= s.len(),
        forall|k: int| j <= k < s.len() ==> is_dot_or_space(#[trigger] s[k]),
    ensures
        trim_dots_end(s) == trim_dots_end(s.subrange(0, j)),
    decreases s.len() - j,
{
    if j < s.len() {
        let t = s.drop_last();
        assert forall|k: int| j <= k < t.len() implies is_dot_or_space(#[trigger] t[k]) by {
            assert(t[k] == s[k]);
        }
        lemma_trim_dots_end_cut(t, j);
        assert(t.subrange(0, j) == s.subrange(0, j));
    } else {
        assert(s.subrange(0, j) == s);
    }
}

/// Dots and spaces dropped from both ends.
pub fn trim_dots_and_spaces(s: &str) -> (r: String)
    ensures
        r@ == trim_dots(s@),
{
    let cs = chars_of(s);
    let n = cs.len();
    let mut a: usize = 0;
    while a < n && (cs[a] == '.' || cs[a] == ' ')
        invariant
            a <= n == cs@.len(),
            cs@ == s@,
            forall|k: int| 0 <= k < a ==> is_dot_or_space(#[trigger] cs@[k]),
        decreases n - a,
    {
        a = a + 1;
    }
    proof {
        lemma_trim_dots_start_skip(s@, a as int);
        if a < n {
            assert(!is_dot_or_space(s@.subrange(a as int, n as int)[0]));
        }
    }
    let ghost t = s@.subrange(a as int, n as int);
    assert(trim_dots_start(s@) == t);
    let mut b: usize = n;
    while b > a && (cs[b - 1] == '.' || cs[b - 1] == ' ')
        invariant
            a <= b <= n == cs@.len(),
            cs@ == s@,
            t == s@.subrange(a as int, n as int),
            forall|k: int| b <= k < n ==> is_dot_or_space(#[trigger] cs@[k]),
        decreases b - a,
    {
        b = b - 1;
    }
    proof {
        assert forall|k: int| (b - a) <= k < t.len() implies is_dot_or_space(#[trigger] t[k]) by {
            assert(t[k] == cs@[k + a]);
        }
        lemma_trim_dots_end_cut(t, (b - a) as int);
        assert(t.subrange(0, (b - a) as int) == s@.subrange(a as int, b as int));
        if b > a {
            assert(s@.subrange(a as int, b as int).last() == cs@[b - 1]);
        }
    }
    string_of_range(&cs, a, b)
}

// ---------------------------------------------------------------------------
// Pieces of text
// ---------------------------------------------------------------------------

/// At most the first `n` characters.
pub open spec fn first_chars(s: Seq<char>, n: nat) -> Seq<char> {
    if n < s.len() {
        s.take(n as int)
    } else {
        s
    }
}

/// The first `n` characters (all of them when there are fewer).
pub fn take_chars(s: &str, n: usize) -> (r: String)
    ensures
        r@ == first_chars(s@, n as nat),
{
    let cs = chars_of(s);
    if n < cs.len() {
        string_of_range(&cs, 0, n)
    } else {
        assert(s@.subrange(0, s@.len() as int) == s@);
        string_of_range(&cs, 0, cs.len())
    }
}

/// The text after the last occurrence of `c`, if `c` occurs.
pub open spec fn after_last(s: Seq<char>, c: char) -> Option<Seq<char>>
    decreases s.len(),
{
    if s.len() == 0 {
        None
    } else if s.last() == c {
        Some(Seq::empty())
    } else {
        match after_last(s.drop_last(), c) {
            Some(t) => Some(t.push(s.last())),
            None => None,
        }
    }
}

proof fn lemma_after_last_at(s: Seq<char>, c: char, j: int)
    requires
        0 <= j < s.len(),
        s[j] == c,
        forall|k: int| j < k < s.len() ==> s[k] != c,
    ensures
        after_last(s, c) == Some(s.subrange(j + 1, s.len() as int)),
    decreases s.len(),
{
    if j < s.len() - 1 {
        let t = s.drop_last();
        lemma_after_last_at(t, c, j);
        assert(s.subrange(j + 1, s.len() as int) == t.subrange(j + 1, t.len() as int).push(
            s.last(),
        ));
    } else {
        assert(s.subrange(j + 1, s.len() as int) == Seq::<char>::empty());
    }
}

proof fn lemma_after_last_none(s: Seq<char>, c: char)
    requires
        forall|k: int| 0 <= k < s.len() ==> s[k] != c,
    ensures
        after_last(s, c) is None,
    decreases s.len(),
{
    if s.len() > 0 {
        lemma_after_last_none(s.drop_last(), c);
    }
}

/// The text after the last `c` (the second half of `rsplit_once(c)`), if `c` occurs.
pub fn text_after_last(s: &str, c: char) -> (r: Option<String>)
    ensures
        r.deep_view() == after_last(s@, c),
{
    let cs = chars_of(s);
    let n = cs.len();
    let mut j: usize = n;
    while j > 0 && cs[j - 1] != c
        invariant
            j <= n == cs@.len(),
            cs@ == s@,
            forall|k: int| j <= k < n ==> cs@[k] != c,
        decreases j,
    {
        j = j - 1;
    }
    if j == 0 {
        proof {
            lemma_after_last_none(s@, c);
        }
        None
    } else {
        proof {
            lemma_after_last_at(s@, c, j - 1);
        }
        Some(string_of_range(&cs, j, n))
    }
}

pub open spec fn is_ascii_alnum(c: char) -> bool {
    ('0' <= c && c <= '9') || ('a' <= c && c <= 'z') || ('A' <= c && c <= 'Z')
}

/// The leading run of ASCII letters and digits.
pub open spec fn leading_alnum(s: Seq<char>) -> Seq<char>
    decreases s.len(),
{
    if s.len() > 0 && is_ascii_alnum(s[0]) {
        seq![s[0]] + leading_alnum(s.drop_first())
    } else {
        Seq::empty()
    }
}

proof fn lemma_leading_alnum(s: Seq<char>, i: int)
    requires
        0 <= i <= s.len(),
        forall|k: int| 0 <= k < i ==> is_ascii_alnum(#[trigger] s[k]),
        i == s.len() || !is_ascii_alnum(s[i]),
    ensures
        leading_alnum(s) == s.take(i),
    decreases i,
{
    if i > 0 {
        let t = s.drop_first();
        assert forall|k: int| 0 <= k < i - 1 implies is_ascii_alnum(#[trigger] t[k]) by {
            assert(t[k] == s[k + 1]);
        }
        lemma_leading_alnum(t, i - 1);
        assert(s.take(i) == seq![s[0]] + t.take(i - 1));
    } else {
        assert(s.take(0) == Seq::<char>::empty());
    }
}

/// The leading run of ASCII letters and digits.
pub fn take_leading_alnum(s: &str) -> (r: String)
    ensures
        r@ == leading_alnum(s@),
{
    let cs = chars_of(s);
    let mut i: usize = 0;
    while i < cs.len() && (('0' <= cs[i] && cs[i] <= '9') || ('a' <= cs[i] && cs[i] <= 'z') || (
    'A' <= cs[i] && cs[i] <= 'Z'))
        invariant
            i <= cs@.len(),
            cs@ == s@,
            forall|k: int| 0 <= k < i ==> is_ascii_alnum(#[trigger] cs@[k]),
        decreases cs@.len() - i,
    {
        i = i + 1;
    }
    proof {
        lemma_leading_alnum(s@, i as int);
    }
    string_of_range(&cs, 0, i)
}

/// The number of bytes UTF-8 uses for a character.
pub open spec fn utf8_width(c: char) -> nat {
    if '\u{80}' > c {
        1
    } else if '\u{800}' > c {
        2
    } else if '\u{10000}' > c {
        3
    } else {
        4
    }
}

/// The number of bytes UTF-8 uses for a text.
pub open spec fn utf8_size(s: Seq<char>) -> nat
    decreases s.len(),
{
    if s.len() == 0 {
        0
    } else {
        utf8_size(s.drop_last()) + utf8_width(s.last())
    }
}

/// `str::get(0..n)`: the leading characters that take exactly `n` bytes, if there are such.
pub open spec fn byte_prefix(s: Seq<char>, n: nat) -> Option<Seq<char>> {
    if exists|k: int| 0 <= k <= s.len() && #[trigger] utf8_size(s.take(k)) == n {
        Some(s.take(choose|k: int| 0 <= k <= s.len() && #[trigger] utf8_size(s.take(k)) == n))
    } else {
        None
    }
}

proof fn lemma_utf8_size_step(s: Seq<char>, k: int)
    requires
        0 <= k < s.len(),
    ensures
        utf8_size(s.take(k + 1)) == utf8_size(s.take(k)) + utf8_width(s[k]),
{
    assert(s.take(k + 1).drop_last() == s.take(k));
}

proof fn lemma_utf8_size_strict(s: Seq<char>, a: int, b: int)
    requires
        0 <= a < b <= s.len(),
    ensures
        utf8_size(s.take(a)) < utf8_size(s.take(b)),
    decreases b - a,
{
    lemma_utf8_size_step(s, b - 1);
    if a < b - 1 {
        lemma_utf8_size_strict(s, a, b - 1);
    }
}

pub fn utf8_width_exec(c: char) -> (w: u64)
    ensures
        w == utf8_width(c),
{
    if '\u{80}' > c {
        1
    } else if '\u{800}' > c {
        2
    } else if '\u{10000}' > c {
        3
    } else {
        4
    }
}

/// The leading characters of `s` that take exactly `n` bytes, if a character boundary
/// falls there.
pub fn prefix_of_bytes(s: &str, n: u64) -> (r: Option<String>)
    ensures
        r.deep_view() == byte_prefix(s@, n as nat),
{
    let cs = chars_of(s);
    let mut i: usize = 0;
    let mut b: u64 = 0;
    while i < cs.len() && b < n
        invariant
            i <= cs@.len(),
            cs@ == s@,
            b == utf8_size(s@.take(i as int)),
            b <= n,
            forall|k: int| 0 <= k < i ==> utf8_size(#[trigger] s@.take(k)) < n,
        decreases cs@.len() - i,
    {
        proof {
            lemma_utf8_size_step(s@, i as int);
        }
        let w = utf8_width_exec(cs[i]);
        if w > n - b {
            proof {
                assert forall|k: int| 0 <= k <= s@.len() implies #[trigger] utf8_size(s@.take(k))
                    != n by {
                    if k > i {
                        if k > i + 1 {
                            lemma_utf8_size_strict(s@, i + 1, k);
                        }
                    }
                }
            }
            return None;
        }
        b = b + w;
        i = i + 1;
    }
    proof {
        assert(s@.take(0) == Seq::<char>::empty());
    }
    if b == n {
        assert(utf8_size(s@.take(i as int)) == n);
        proof {
            let k = choose|k: int| 0 <= k <= s@.len() && #[trigger] utf8_size(s@.take(k)) == n;
            if k < i {
                lemma_utf8_size_strict(s@, k, i as int);
            } else if k > i {
                lemma_utf8_size_strict(s@, i as int, k);
            }
        }
        Some(string_of_range(&cs, 0, i))
    } else {
        proof {
            assert forall|k: int| 0 <= k <= s@.len() implies #[trigger] utf8_size(s@.take(k))
                != n by {
                if k > i {
                    lemma_utf8_size_strict(s@, i as int, k);
                }
                if k == i {
                    assert(i == cs@.len());
                }
            }
        }
        None
    }
}

// ---------------------------------------------------------------------------
// Where the characters of a result come from
// ---------------------------------------------------------------------------

/// Every character of `t` satisfies `p`.
pub open spec fn all_chars(t: Seq<char>, p: spec_fn(char) -> bool) -> bool {
    forall|i: int| 0 <= i < t.len() ==> p(#[trigger] t[i])
}

/// Collapsing whitespace keeps characters of the input, plus single spaces.
pub proof fn lemma_collapse_keeps(s: Seq<char>, p: spec_fn(char) -> bool)
    requires
        all_chars(s, p),
        p(' '),
    ensures
        all_chars(collapse_ws(s), p),
        all_chars(squeeze(s).0, p),
    decreases s.len(),
{
    if s.len() > 0 {
        let t = s.drop_last();
        assert forall|i: int| 0 <= i < t.len() implies p(#[trigger] t[i]) by {
            assert(t[i] == s[i]);
        }
        lemma_collapse_keeps(t, p);
        assert(p(s[s.len() - 1]));
    }
}

/// Text in collapsed shape: it neither starts nor ends with whitespace, and its only
/// whitespace is single spaces between other characters.
pub open spec fn collapsed(o: Seq<char>) -> bool {
    &&& o.len() > 0 ==> !is_ws(o[0]) && !is_ws(o.last())
    &&& forall|i: int|
        0 <= i < o.len() && is_ws(#[trigger] o[i]) ==> o[i] == ' ' && 0 < i < o.len() - 1
            && !is_ws(o[i - 1]) && !is_ws(o[i + 1])
}

proof fn lemma_squeeze_shape(s: Seq<char>)
    ensures
        collapsed(squeeze(s).0),
        squeeze(s).1 ==> squeeze(s).0.len() > 0,
    decreases s.len(),
{
    if s.len() > 0 {
        lemma_squeeze_shape(s.drop_last());
        let prev = squeeze(s.drop_last());
        let c = s.last();
        let o = squeeze(s).0;
        if !is_ws(c) {
            if prev.1 {
                assert(o == prev.0.push(' ').push(c));
                assert(o[prev.0.len() as int] == ' ');
                assert forall|i: int| 0 <= i < o.len() && is_ws(#[trigger] o[i]) implies o[i]
                    == ' ' && 0 < i < o.len() - 1 && !is_ws(o[i - 1]) && !is_ws(o[i + 1]) by {
                    if i < prev.0.len() {
                        assert(o[i] == prev.0[i]);
                        if i + 1 < prev.0.len() {
                            assert(o[i + 1] == prev.0[i + 1]);
                        }
                        assert(o[i - 1] == prev.0[i - 1]);
                    }
                }
            } else {
                assert(o == prev.0.push(c));
                assert forall|i: int| 0 <= i < o.len() && is_ws(#[trigger] o[i]) implies o[i]
                    == ' ' && 0 < i < o.len() - 1 && !is_ws(o[i - 1]) && !is_ws(o[i + 1]) by {
                    assert(o[i] == prev.0[i]);
                    assert(o[i - 1] == prev.0[i - 1]);
                    if i + 1 < prev.0.len() {
                        assert(o[i + 1] == prev.0[i + 1]);
                    }
                }
            }
        }
    }
}

proof fn lemma_squeeze_collapsed_prefix(o: Seq<char>, k: int)
    requires
        collapsed(o),
        0 <= k <= o.len(),
    ensures
        squeeze(o.take(k)) == (if k > 0 && is_ws(o[k - 1]) {
            (o.take(k - 1), true)
        } else {
            (o.take(k), false)
        }),
    decreases k,
{
    if k > 0 {
        lemma_squeeze_collapsed_prefix(o, k - 1);
        assert(o.take(k).drop_last() =~= o.take(k - 1));
        assert(o.take(k).last() == o[k - 1]);
        if is_ws(o[k - 1]) {
            assert(!is_ws(o[k - 2]));
        } else if k > 1 && is_ws(o[k - 2]) {
            assert(o[k - 2] == ' ');
            assert(o.take(k - 2).push(' ').push(o[k - 1]) =~= o.take(k));
        } else {
            assert(o.take(k - 1).push(o[k - 1]) =~= o.take(k));
        }
    } else {
        assert(o.take(0) =~= Seq::<char>::empty());
    }
}

/// Collapsing whitespace leaves text in collapsed shape, and collapsing it again changes
/// nothing.
pub proof fn lemma_collapse_shape(s: Seq<char>)
    ensures
        collapsed(collapse_ws(s)),
        collapse_ws(collapse_ws(s)) == collapse_ws(s),
{
    lemma_squeeze_shape(s);
    lemma_collapse_of_collapsed(collapse_ws(s));
}

/// Text already in collapsed shape is left as it is.
pub proof fn lemma_collapse_of_collapsed(o: Seq<char>)
    requires
        collapsed(o),
    ensures
        collapse_ws(o) == o,
{
    lemma_squeeze_collapsed_prefix(o, o.len() as int);
    assert(o.take(o.len() as int) =~= o);
}

proof fn lemma_trim_start_suffix(s: Seq<char>)
    ensures
        exists|k: int| 0 <= k <= s.len() && trim_start(s) == #[trigger] s.skip(k),
    decreases s.len(),
{
    if s.len() > 0 && is_ws(s[0]) {
        lemma_trim_start_suffix(s.drop_first());
        let k = choose|k: int|
            0 <= k <= s.drop_first().len() && trim_start(s.drop_first()) == #[trigger] s.drop_first().skip(k);
        assert(s.drop_first().skip(k) == s.skip(k + 1));
    } else {
        assert(s.skip(0) == s);
    }
}

proof fn lemma_trim_end_prefix(s: Seq<char>)
    ensures
        exists|k: int| 0 <= k <= s.len() && trim_end(s) == #[trigger] s.take(k),
    decreases s.len(),
{
    if s.len() > 0 && is_ws(s.last()) {
        lemma_trim_end_prefix(s.drop_last());
        let k = choose|k: int|
            0 <= k <= s.drop_last().len() && trim_end(s.drop_last()) == #[trigger] s.drop_last().take(k);
        assert(s.drop_last().take(k) == s.take(k));
    } else {
        assert(s.take(s.len() as int) == s);
    }
}

proof fn lemma_trim_dots_start_suffix(s: Seq<char>)
    ensures
        exists|k: int| 0 <= k <= s.len() && trim_dots_start(s) == #[trigger] s.skip(k),
    decreases s.len(),
{
    if s.len() > 0 && is_dot_or_space(s[0]) {
        lemma_trim_dots_start_suffix(s.drop_first());
        let k = choose|k: int|
            0 <= k <= s.drop_first().len() && trim_dots_start(s.drop_first()) == #[trigger] s.drop_first().skip(k);
        assert(s.drop_first().skip(k) == s.skip(k + 1));
    } else {
        assert(s.skip(0) == s);
    }
}

proof fn lemma_trim_dots_end_prefix(s: Seq<char>)
    ensures
        exists|k: int| 0 <= k <= s.len() && trim_dots_end(s) == #[trigger] s.take(k),
    decreases s.len(),
{
    if s.len() > 0 && is_dot_or_space(s.last()) {
        lemma_trim_dots_end_prefix(s.drop_last());
        let k = choose|k: int|
            0 <= k <= s.drop_last().len() && trim_dots_end(s.drop_last()) == #[trigger] s.drop_last().take(k);
        assert(s.drop_last().take(k) == s.take(k));
    } else {
        assert(s.take(s.len() as int) == s);
    }
}

/// Trimming keeps characters of the input.
pub proof fn lemma_trims_keep(s: Seq<char>, p: spec_fn(char) -> bool)
    requires
        all_chars(s, p),
    ensures
        all_chars(trim(s), p),
        all_chars(trim_dots(s), p),
{
    lemma_trim_start_suffix(s);
    let k1 = choose|k: int| 0 <= k <= s.len() && trim_start(s) == #[trigger] s.skip(k);
    let a = s.skip(k1);
    assert(all_chars(a, p)) by {
        assert forall|i: int| 0 <= i < a.len() implies p(#[trigger] a[i]) by {
            assert(a[i] == s[i + k1]);
        }
    }
    lemma_trim_end_prefix(a);
    let k2 = choose|k: int| 0 <= k <= a.len() && trim_end(a) == #[trigger] a.take(k);
    assert(all_chars(trim(s), p)) by {
        assert forall|i: int| 0 <= i < a.take(k2).len() implies p(#[trigger] a.take(k2)[i]) by {
            assert(a.take(k2)[i] == a[i]);
        }
    }
    lemma_trim_dots_start_suffix(s);
    let k3 = choose|k: int| 0 <= k <= s.len() && trim_dots_start(s) == #[trigger] s.skip(k);
    let b = s.skip(k3);
    assert(all_chars(b, p)) by {
        assert forall|i: int| 0 <= i < b.len() implies p(#[trigger] b[i]) by {
            assert(b[i] == s[i + k3]);
        }
    }
    lemma_trim_dots_end_prefix(b);
    let k4 = choose|k: int| 0 <= k <= b.len() && trim_dots_end(b) == #[trigger] b.take(k);
    assert(all_chars(trim_dots(s), p)) by {
        assert forall|i: int| 0 <= i < b.take(k4).len() implies p(#[trigger] b.take(k4)[i]) by {
            assert(b.take(k4)[i] == b[i]);
        }
    }
}

// ---------------------------------------------------------------------------
// Numbers
// ---------------------------------------------------------------------------

pub open spec fn digit_char(d: nat) -> char {
    if d == 0 {
        '0'
    } else if d == 1 {
        '1'
    } else if d == 2 {
        '2'
    } else if d == 3 {
        '3'
    } else if d == 4 {
        '4'
    } else if d == 5 {
        '5'
    } else if d == 6 {
        '6'
    } else if d == 7 {
        '7'
    } else if d == 8 {
        '8'
    } else if d == 9 {
        '9'
    } else if d == 10 {
        'a'
    } else if d == 11 {
        'b'
    } else if d == 12 {
        'c'
    } else if d == 13 {
        'd'
    } else if d == 14 {
        'e'
    } else {
        'f'
    }
}

pub fn digit_char_exec(d: u64) -> (c: char)
    requires
        d < 16,
    ensures
        c == digit_char(d as nat),
{
    if d == 0 {
        '0'
    } else if d == 1 {
        '1'
    } else if d == 2 {
        '2'
    } else if d == 3 {
        '3'
    } else if d == 4 {
        '4'
    } else if d == 5 {
        '5'
    } else if d == 6 {
        '6'
    } else if d == 7 {
        '7'
    } else if d == 8 {
        '8'
    } else if d == 9 {
        '9'
    } else if d == 10 {
        'a'
    } else if d == 11 {
        'b'
    } else if d == 12 {
        'c'
    } else if d == 13 {
        'd'
    } else if d == 14 {
        'e'
    } else {
        'f'
    }
}

/// The decimal digits of `n` (what `{}` prints for an unsigned integer).
pub open spec fn decimal(n: nat) -> Seq<char>
    decreases n,
{
    if n < 10 {
        seq![digit_char(n)]
    } else {
        decimal(n / 10).push(digit_char(n % 10))
    }
}

/// `n.to_string()` for an unsigned integer.
pub fn decimal_string(n: u64) -> (s: String)
    ensures
        s@ == decimal(n as nat),
    decreases n,
{
    if n < 10 {
        let mut s = String::new();
        push_char(&mut s, digit_char_exec(n));
        s
    } else {
        let mut s = decimal_string(n / 10);
        push_char(&mut s, digit_char_exec(n % 10));
        s
    }
}

/// Lower-case hexadecimal, two digits per byte (`{:x}` of a digest).
pub open spec fn hex_lower(b: Seq<u8>) -> Seq<char>
    decreases b.len(),
{
    if b.len() == 0 {
        Seq::empty()
    } else {
        hex_lower(b.drop_last()).push(digit_char((b.last() / 16) as nat)).push(
            digit_char((b.last() % 16) as nat),
        )
    }
}

pub fn hex_string(b: &[u8]) -> (s: String)
    ensures
        s@ == hex_lower(b@),
{
    let mut s = String::new();
    let mut i: usize = 0;
    while i < b.len()
        invariant
            i <= b@.len(),
            s@ == hex_lower(b@.take(i as int)),
        decreases b@.len() - i,
    {
        let x = b[i];
        assert(b@.take(i + 1).drop_last() == b@.take(i as int));
        push_char(&mut s, digit_char_exec((x / 16) as u64));
        push_char(&mut s, digit_char_exec((x % 16) as u64));
        i = i + 1;
    }
    assert(b@.take(b@.len() as int) == b@);
    s
}

// ---------------------------------------------------------------------------
// Ordering of text
// ---------------------------------------------------------------------------

/// Three-way comparison result.
#[derive(Debug, Clone, Copy, PartialEq, Eq, Structural)]
pub enum Order {
    Less,
    Equal,
    Greater,
}

/// `a` sorts strictly before `b`, comparing characters by code point
/// (the order of `String`'s `Ord`).
pub open spec fn text_lt(a: Seq<char>, b: Seq<char>) -> bool
    decreases a.len(),
{
    if a.len() == 0 {
        b.len() > 0
    } else if b.len() == 0 {
        false
    } else if a[0] != b[0] {
        a[0] < b[0]
    } else {
        text_lt(a.drop_first(), b.drop_first())
    }
}

pub proof fn lemma_text_lt_irreflexive(a: Seq<char>)
    ensures
        !text_lt(a, a),
    decreases a.len(),
{
    if a.len() > 0 {
        lemma_text_lt_irreflexive(a.drop_first());
    }
}

pub proof fn lemma_text_lt_asymmetric(a: Seq<char>, b: Seq<char>)
    ensures
        text_lt(a, b) ==> !text_lt(b, a),
    decreases a.len(),
{
    if a.len() > 0 && b.len() > 0 && a[0] == b[0] {
        lemma_text_lt_asymmetric(a.drop_first(), b.drop_first());
    }
}

pub proof fn lemma_text_lt_total(a: Seq<char>, b: Seq<char>)
    ensures
        text_lt(a, b) || text_lt(b, a) || a == b,
    decreases a.len(),
{
    if a.len() > 0 && b.len() > 0 && a[0] == b[0] {
        lemma_text_lt_total(a.drop_first(), b.drop_first());
        if a.drop_first() == b.drop_first() {
            assert(a == seq![a[0]] + a.drop_first());
            assert(b == seq![b[0]] + b.drop_first());
        }
    } else if a.len() == 0 && b.len() == 0 {
        assert(a == b);
    } else if a.len() > 0 && b.len() > 0 {
    }
}

pub proof fn lemma_text_lt_transitive(a: Seq<char>, b: Seq<char>, c: Seq<char>)
    requires
        text_lt(a, b),
        text_lt(b, c),
    ensures
        text_lt(a, c),
    decreases a.len(),
{
    if a.len() > 0 && b.len() > 0 && c.len() > 0 && a[0] == b[0] && b[0] == c[0] {
        lemma_text_lt_transitive(a.drop_first(), b.drop_first(), c.drop_first());
    }
}

/// Order of two character sequences.
pub open spec fn text_order(a: Seq<char>, b: Seq<char>) -> Order {
    if text_lt(a, b) {
        Order::Less
    } else if a == b {
        Order::Equal
    } else {
        Order::Greater
    }
}

/// Compares two strings as `String`'s `Ord` does.
pub fn compare_text(a: &str, b: &str) -> (r: Order)
    ensures
        r == text_order(a@, b@),
        r == Order::Greater ==> text_lt(b@, a@),
{
    let x = chars_of(a);
    let y = chars_of(b);
    let mut i: usize = 0;
    while i < x.len() && i < y.len() && x[i] == y[i]
        invariant
            i <= x@.len(),
            i <= y@.len(),
            x@ == a@,
            y@ == b@,
            x@.take(i as int) == y@.take(i as int),
        decreases x@.len() - i,
    {
        assert(x@.take(i + 1) == x@.take(i as int).push(x@[i as int]));
        assert(y@.take(i + 1) == y@.take(i as int).push(y@[i as int]));
        i = i + 1;
    }
    proof {
        lemma_text_lt_skip_common(a@, b@, i as int);
        lemma_text_lt_total(a@, b@);
        lemma_text_lt_asymmetric(a@, b@);
    }
    if i == x.len() && i == y.len() {
        assert(a@ == x@.take(i as int));
        assert(b@ == y@.take(i as int));
        proof {
            lemma_text_lt_irreflexive(a@);
        }
        Order::Equal
    } else if i == x.len() {
        assert(a@ != b@);
        Order::Less
    } else if i == y.len() {
        assert(a@ != b@) by {
            assert(a@.len() > b@.len());
        }
        Order::Greater
    } else if x[i] < y[i] {
        assert(a@ != b@) by {
            assert(a@[i as int] != b@[i as int]);
        }
        Order::Less
    } else {
        assert(a@ != b@) by {
            assert(a@[i as int] != b@[i as int]);
        }
        Order::Greater
    }
}

proof fn lemma_text_lt_skip_common(a: Seq<char>, b: Seq<char>, i: int)
    requires
        0 <= i <= a.len(),
        i <= b.len(),
        a.take(i) == b.take(i),
    ensures
        text_lt(a, b) == text_lt(a.skip(i), b.skip(i)),
    decreases i,
{
    if i > 0 {
        assert(a[0] == a.take(i)[0]);
        assert(b[0] == b.take(i)[0]);
        assert(a.drop_first().take(i - 1) == a.take(i).drop_first());
        assert(b.drop_first().take(i - 1) == b.take(i).drop_first());
        lemma_text_lt_skip_common(a.drop_first(), b.drop_first(), i - 1);
        assert(a.drop_first().skip(i - 1) == a.skip(i));
        assert(b.drop_first().skip(i - 1) == b.skip(i));
    } else {
        assert(a.skip(0) == a);
        assert(b.skip(0) == b);
    }
}

} // verus!

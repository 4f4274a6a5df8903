use vstd::prelude::*;

verus! {

// ---------------------------------------------------------------------------
// Feed bytes that the feed parser reads without failing hard
//
// The feed parser reads the text of a `duration` element (iTunes) and the values of
// `start`, `end` and `time` attributes (Media RSS) as play times, and it stops the
// program on a run of digits that does not fit in 64 bits or on a decimal digit outside
// ASCII. The rules below hold exactly those places of the raw bytes to a shape under
// which no such text can reach it, and keep the decoder on one where an ASCII byte after
// an ASCII byte reads as itself:
// - the body does not start with a UTF-16 byte order mark or the UTF-16 form of `<?`;
// - an `encoding` attribute of an XML declaration names no UTF-16 and no ISO-2022-JP
//   encoding, and holds no white space;
// - the text that follows the start tag of a `duration` element, up to the next `<`,
//   which opens a tag, and a quoted `start`, `end` or `time` value are ASCII, hold no
//   character reference that is not plainly written or that names a decimal digit, and
//   hold no run of sixteen digits.
// Bytes outside these rules are refused though the parser may read some of them: UTF-16
// and ISO-2022-JP documents, and play times with other than ASCII bytes or that run on
// across a comment, a CDATA section or a processing instruction.
// ---------------------------------------------------------------------------

pub const LT: u8 = 60;
pub const GT: u8 = 62;
pub const BANG: u8 = 33;
pub const QUESTION: u8 = 63;
pub const AMPERSAND: u8 = 38;
pub const HASH: u8 = 35;
pub const SEMICOLON: u8 = 59;
pub const COLON: u8 = 58;
pub const SLASH: u8 = 47;
pub const EQUALS: u8 = 61;
pub const DOUBLE_QUOTE: u8 = 34;
pub const SINGLE_QUOTE: u8 = 39;

/// An ASCII digit.
pub open spec fn is_digit_byte(b: u8) -> bool {
    48 <= b <= 57
}

/// An ASCII hexadecimal digit, in either case.
pub open spec fn is_hex_byte(b: u8) -> bool {
    is_digit_byte(b) || (97 <= b <= 102) || (65 <= b <= 70)
}

pub open spec fn hex_digit_value(b: u8) -> int {
    if is_digit_byte(b) {
        b - 48
    } else if 97 <= b <= 102 {
        b - 87
    } else {
        b - 55
    }
}

/// A decimal digit of Unicode 16 (general category Nd) other than the ASCII ones.
pub open spec fn is_other_decimal(c: int) -> bool {
    ||| 0x660 <= c <= 0x669
    ||| 0x6f0 <= c <= 0x6f9
    ||| 0x7c0 <= c <= 0x7c9
    ||| 0x966 <= c <= 0x96f
    ||| 0x9e6 <= c <= 0x9ef
    ||| 0xa66 <= c <= 0xa6f
    ||| 0xae6 <= c <= 0xaef
    ||| 0xb66 <= c <= 0xb6f
    ||| 0xbe6 <= c <= 0xbef
    ||| 0xc66 <= c <= 0xc6f
    ||| 0xce6 <= c <= 0xcef
    ||| 0xd66 <= c <= 0xd6f
    ||| 0xde6 <= c <= 0xdef
    ||| 0xe50 <= c <= 0xe59
    ||| 0xed0 <= c <= 0xed9
    ||| 0xf20 <= c <= 0xf29
    ||| 0x1040 <= c <= 0x1049
    ||| 0x1090 <= c <= 0x1099
    ||| 0x17e0 <= c <= 0x17e9
    ||| 0x1810 <= c <= 0x1819
    ||| 0x1946 <= c <= 0x194f
    ||| 0x19d0 <= c <= 0x19d9
    ||| 0x1a80 <= c <= 0x1a89
    ||| 0x1a90 <= c <= 0x1a99
    ||| 0x1b50 <= c <= 0x1b59
    ||| 0x1bb0 <= c <= 0x1bb9
    ||| 0x1c40 <= c <= 0x1c49
    ||| 0x1c50 <= c <= 0x1c59
    ||| 0xa620 <= c <= 0xa629
    ||| 0xa8d0 <= c <= 0xa8d9
    ||| 0xa900 <= c <= 0xa909
    ||| 0xa9d0 <= c <= 0xa9d9
    ||| 0xa9f0 <= c <= 0xa9f9
    ||| 0xaa50 <= c <= 0xaa59
    ||| 0xabf0 <= c <= 0xabf9
    ||| 0xff10 <= c <= 0xff19
    ||| 0x104a0 <= c <= 0x104a9
    ||| 0x10d30 <= c <= 0x10d39
    ||| 0x10d40 <= c <= 0x10d49
    ||| 0x11066 <= c <= 0x1106f
    ||| 0x110f0 <= c <= 0x110f9
    ||| 0x11136 <= c <= 0x1113f
    ||| 0x111d0 <= c <= 0x111d9
    ||| 0x112f0 <= c <= 0x112f9
    ||| 0x11450 <= c <= 0x11459
    ||| 0x114d0 <= c <= 0x114d9
    ||| 0x11650 <= c <= 0x11659
    ||| 0x116c0 <= c <= 0x116c9
    ||| 0x116d0 <= c <= 0x116e3
    ||| 0x11730 <= c <= 0x11739
    ||| 0x118e0 <= c <= 0x118e9
    ||| 0x11950 <= c <= 0x11959
    ||| 0x11bf0 <= c <= 0x11bf9
    ||| 0x11c50 <= c <= 0x11c59
    ||| 0x11d50 <= c <= 0x11d59
    ||| 0x11da0 <= c <= 0x11da9
    ||| 0x11f50 <= c <= 0x11f59
    ||| 0x16130 <= c <= 0x16139
    ||| 0x16a60 <= c <= 0x16a69
    ||| 0x16ac0 <= c <= 0x16ac9
    ||| 0x16b50 <= c <= 0x16b59
    ||| 0x16d70 <= c <= 0x16d79
    ||| 0x1ccf0 <= c <= 0x1ccf9
    ||| 0x1d7ce <= c <= 0x1d7ff
    ||| 0x1e140 <= c <= 0x1e149
    ||| 0x1e2f0 <= c <= 0x1e2f9
    ||| 0x1e4f0 <= c <= 0x1e4f9
    ||| 0x1e5f1 <= c <= 0x1e5fa
    ||| 0x1e950 <= c <= 0x1e959
    ||| 0x1fbf0 <= c <= 0x1fbf9
}

/// A decimal digit of Unicode 16, ASCII or not.
pub open spec fn is_decimal_code(c: int) -> bool {
    (48 <= c <= 57) || is_other_decimal(c)
}

fn other_decimal(c: u64) -> (r: bool)
    ensures
        r == is_other_decimal(c as int),
{
    (0x660 <= c && c <= 0x669) ||
    (0x6f0 <= c && c <= 0x6f9) ||
    (0x7c0 <= c && c <= 0x7c9) ||
    (0x966 <= c && c <= 0x96f) ||
    (0x9e6 <= c && c <= 0x9ef) ||
    (0xa66 <= c && c <= 0xa6f) ||
    (0xae6 <= c && c <= 0xaef) ||
    (0xb66 <= c && c <= 0xb6f) ||
    (0xbe6 <= c && c <= 0xbef) ||
    (0xc66 <= c && c <= 0xc6f) ||
    (0xce6 <= c && c <= 0xcef) ||
    (0xd66 <= c && c <= 0xd6f) ||
    (0xde6 <= c && c <= 0xdef) ||
    (0xe50 <= c && c <= 0xe59) ||
    (0xed0 <= c && c <= 0xed9) ||
    (0xf20 <= c && c <= 0xf29) ||
    (0x1040 <= c && c <= 0x1049) ||
    (0x1090 <= c && c <= 0x1099) ||
    (0x17e0 <= c && c <= 0x17e9) ||
    (0x1810 <= c && c <= 0x1819) ||
    (0x1946 <= c && c <= 0x194f) ||
    (0x19d0 <= c && c <= 0x19d9) ||
    (0x1a80 <= c && c <= 0x1a89) ||
    (0x1a90 <= c && c <= 0x1a99) ||
    (0x1b50 <= c && c <= 0x1b59) ||
    (0x1bb0 <= c && c <= 0x1bb9) ||
    (0x1c40 <= c && c <= 0x1c49) ||
    (0x1c50 <= c && c <= 0x1c59) ||
    (0xa620 <= c && c <= 0xa629) ||
    (0xa8d0 <= c && c <= 0xa8d9) ||
    (0xa900 <= c && c <= 0xa909) ||
    (0xa9d0 <= c && c <= 0xa9d9) ||
    (0xa9f0 <= c && c <= 0xa9f9) ||
    (0xaa50 <= c && c <= 0xaa59) ||
    (0xabf0 <= c && c <= 0xabf9) ||
    (0xff10 <= c && c <= 0xff19) ||
    (0x104a0 <= c && c <= 0x104a9) ||
    (0x10d30 <= c && c <= 0x10d39) ||
    (0x10d40 <= c && c <= 0x10d49) ||
    (0x11066 <= c && c <= 0x1106f) ||
    (0x110f0 <= c && c <= 0x110f9) ||
    (0x11136 <= c && c <= 0x1113f) ||
    (0x111d0 <= c && c <= 0x111d9) ||
    (0x112f0 <= c && c <= 0x112f9) ||
    (0x11450 <= c && c <= 0x11459) ||
    (0x114d0 <= c && c <= 0x114d9) ||
    (0x11650 <= c && c <= 0x11659) ||
    (0x116c0 <= c && c <= 0x116c9) ||
    (0x116d0 <= c && c <= 0x116e3) ||
    (0x11730 <= c && c <= 0x11739) ||
    (0x118e0 <= c && c <= 0x118e9) ||
    (0x11950 <= c && c <= 0x11959) ||
    (0x11bf0 <= c && c <= 0x11bf9) ||
    (0x11c50 <= c && c <= 0x11c59) ||
    (0x11d50 <= c && c <= 0x11d59) ||
    (0x11da0 <= c && c <= 0x11da9) ||
    (0x11f50 <= c && c <= 0x11f59) ||
    (0x16130 <= c && c <= 0x16139) ||
    (0x16a60 <= c && c <= 0x16a69) ||
    (0x16ac0 <= c && c <= 0x16ac9) ||
    (0x16b50 <= c && c <= 0x16b59) ||
    (0x16d70 <= c && c <= 0x16d79) ||
    (0x1ccf0 <= c && c <= 0x1ccf9) ||
    (0x1d7ce <= c && c <= 0x1d7ff) ||
    (0x1e140 <= c && c <= 0x1e149) ||
    (0x1e2f0 <= c && c <= 0x1e2f9) ||
    (0x1e4f0 <= c && c <= 0x1e4f9) ||
    (0x1e5f1 <= c && c <= 0x1e5fa) ||
    (0x1e950 <= c && c <= 0x1e959) ||
    (0x1fbf0 <= c && c <= 0x1fbf9)
}

fn decimal_code(c: u64) -> (r: bool)
    ensures
        r == is_decimal_code(c as int),
{
    (48 <= c && c <= 57) || other_decimal(c)
}

fn digit_byte(b: u8) -> (r: bool)
    ensures
        r == is_digit_byte(b),
{
    48 <= b && b <= 57
}

fn hex_byte(b: u8) -> (r: bool)
    ensures
        r == is_hex_byte(b),
{
    digit_byte(b) || (97 <= b && b <= 102) || (65 <= b && b <= 70)
}

// ---------------------------------------------------------------------------
// Character references
// ---------------------------------------------------------------------------

/// All of `s[p..q]` are ASCII digits.
pub open spec fn all_digits(s: Seq<u8>, p: int, q: int) -> bool {
    forall|k: int| p <= k < q ==> is_digit_byte(#[trigger] s[k])
}

/// All of `s[p..q]` are hexadecimal digits.
pub open spec fn all_hex(s: Seq<u8>, p: int, q: int) -> bool {
    forall|k: int| p <= k < q ==> is_hex_byte(#[trigger] s[k])
}

/// The number the decimal digits `s[p..q]` write.
pub open spec fn decimal_value(s: Seq<u8>, p: int, q: int) -> int
    decreases q - p,
{
    if q <= p {
        0
    } else {
        decimal_value(s, p, q - 1) * 10 + (s[q - 1] - 48)
    }
}

/// The number the hexadecimal digits `s[p..q]` write.
pub open spec fn hex_value(s: Seq<u8>, p: int, q: int) -> int
    decreases q - p,
{
    if q <= p {
        0
    } else {
        hex_value(s, p, q - 1) * 16 + hex_digit_value(s[q - 1])
    }
}

/// The character reference whose number starts at `p` (just after `&#`) is written
/// plainly, up to seven decimal digits, or `x` and up to six hexadecimal digits, then `;`,
/// and names no decimal digit.
pub open spec fn char_ref_ok(s: Seq<u8>, p: int) -> bool {
    if p < s.len() && (s[p] == 120 || s[p] == 88) {
        exists|q: int|
            p + 2 <= q <= p + 7 && q < s.len() && #[trigger] all_hex(s, p + 1, q) && s[q]
                == SEMICOLON && !is_decimal_code(hex_value(s, p + 1, q))
    } else {
        exists|q: int|
            p + 1 <= q <= p + 7 && q < s.len() && #[trigger] all_digits(s, p, q) && s[q]
                == SEMICOLON && !is_decimal_code(decimal_value(s, p, q))
    }
}

/// The powers of ten and sixteen up to the seventh, as bounds on numbers read so far.
pub open spec fn power_bound(base: int, n: int) -> int {
    if n <= 0 {
        1
    } else if n == 1 {
        base
    } else if n == 2 {
        base * base
    } else if n == 3 {
        base * base * base
    } else if n == 4 {
        base * base * base * base
    } else if n == 5 {
        base * base * base * base * base
    } else if n == 6 {
        base * base * base * base * base * base
    } else {
        base * base * base * base * base * base * base
    }
}

/// The run of at most `cap` decimal digits from `start`, and the number it writes.
fn decimal_run(s: &[u8], start: usize, cap: usize) -> (r: (usize, u64))
    requires
        start <= s@.len(),
        cap <= 7,
    ensures
        start <= r.0 <= s@.len(),
        r.0 <= start + cap,
        all_digits(s@, start as int, r.0 as int),
        r.0 == s@.len() || r.0 == start + cap || !is_digit_byte(s@[r.0 as int]),
        r.1 == decimal_value(s@, start as int, r.0 as int),
{
    let mut j: usize = start;
    let mut v: u64 = 0;
    while j < s.len() && j - start < cap && digit_byte(s[j])
        invariant
            start <= j <= s@.len(),
            j <= start + cap,
            cap <= 7,
            all_digits(s@, start as int, j as int),
            v == decimal_value(s@, start as int, j as int),
            v < power_bound(10, (j - start) as int),
        decreases start + cap - j,
    {
        assert(power_bound(10, (j + 1 - start) as int) == power_bound(10, (j - start) as int) * 10);
        v = v * 10 + (s[j] - 48) as u64;
        j = j + 1;
    }
    (j, v)
}

/// The run of at most `cap` hexadecimal digits from `start`, and the number it writes.
fn hex_run(s: &[u8], start: usize, cap: usize) -> (r: (usize, u64))
    requires
        start <= s@.len(),
        cap <= 7,
    ensures
        start <= r.0 <= s@.len(),
        r.0 <= start + cap,
        all_hex(s@, start as int, r.0 as int),
        r.0 == s@.len() || r.0 == start + cap || !is_hex_byte(s@[r.0 as int]),
        r.1 == hex_value(s@, start as int, r.0 as int),
{
    let mut j: usize = start;
    let mut v: u64 = 0;
    while j < s.len() && j - start < cap && hex_byte(s[j])
        invariant
            start <= j <= s@.len(),
            j <= start + cap,
            cap <= 7,
            all_hex(s@, start as int, j as int),
            v == hex_value(s@, start as int, j as int),
            v < power_bound(16, (j - start) as int),
        decreases start + cap - j,
    {
        assert(power_bound(16, (j + 1 - start) as int) == power_bound(16, (j - start) as int) * 16);
        let b = s[j];
        let d: u64 = if 48 <= b && b <= 57 {
            (b - 48) as u64
        } else if 97 <= b && b <= 102 {
            (b - 87) as u64
        } else {
            (b - 55) as u64
        };
        v = v * 16 + d;
        j = j + 1;
    }
    (j, v)
}

fn char_ref_fine(s: &[u8], p: usize) -> (r: bool)
    requires
        p <= s@.len(),
    ensures
        r == char_ref_ok(s@, p as int),
{
    if p < s.len() && (s[p] == 120 || s[p] == 88) {
        let (j, v) = hex_run(s, p + 1, 6);
        let r = j > p && j - p >= 2 && j < s.len() && s[j] == SEMICOLON && !decimal_code(v);
        proof {
            if r {
                assert(all_hex(s@, p + 1, j as int));
            }
            if !r {
                assert forall|q: int|
                    p + 2 <= q <= p + 7 && q < s@.len() && #[trigger] all_hex(s@, p + 1, q)
                        && s@[q] == SEMICOLON implies q == j by {
                    if q < j {
                        assert(is_hex_byte(s@[q]));
                    }
                    if q > j {
                        assert(is_hex_byte(s@[j as int]));
                    }
                }
            }
        }
        r
    } else {
        let (j, v) = decimal_run(s, p, 7);
        let r = j > p && j < s.len() && s[j] == SEMICOLON && !decimal_code(v);
        proof {
            if r {
                assert(all_digits(s@, p as int, j as int));
            }
            if !r {
                assert forall|q: int|
                    p + 1 <= q <= p + 7 && q < s@.len() && #[trigger] all_digits(s@, p as int, q)
                        && s@[q] == SEMICOLON implies q == j by {
                    if q < j {
                        assert(is_digit_byte(s@[q]));
                    }
                    if q > j {
                        assert(is_digit_byte(s@[j as int]));
                    }
                }
            }
        }
        r
    }
}

// ---------------------------------------------------------------------------
// Scanning
// ---------------------------------------------------------------------------

/// XML white space.
pub open spec fn is_xml_space(b: u8) -> bool {
    b == 32 || b == 9 || b == 10 || b == 13
}

pub open spec fn is_quote(b: u8) -> bool {
    b == DOUBLE_QUOTE || b == SINGLE_QUOTE
}

/// A byte that may stand in an XML name.
pub open spec fn is_name_byte(b: u8) -> bool {
    (48 <= b <= 57) || (65 <= b <= 90) || (97 <= b <= 122) || b == 45 || b == 95 || b == 46
        || b == COLON || b >= 128
}

/// The first position from `p` on that holds no white space.
pub open spec fn skip_space(s: Seq<u8>, p: int) -> int
    decreases s.len() - p,
{
    if 0 <= p < s.len() && is_xml_space(s[p]) {
        skip_space(s, p + 1)
    } else {
        p
    }
}

/// The first position from `p` on that holds `b`, or the end.
pub open spec fn next_of(s: Seq<u8>, p: int, b: u8) -> int
    decreases s.len() - p,
{
    if p >= s.len() {
        s.len() as int
    } else if 0 <= p && s[p] == b {
        p
    } else {
        next_of(s, p + 1, b)
    }
}

fn skip_spaces(s: &[u8], p: usize) -> (r: usize)
    requires
        p <= s@.len(),
    ensures
        r == skip_space(s@, p as int),
        p <= r <= s@.len(),
{
    let mut j: usize = p;
    while j < s.len() && (s[j] == 32 || s[j] == 9 || s[j] == 10 || s[j] == 13)
        invariant
            p <= j <= s@.len(),
            skip_space(s@, j as int) == skip_space(s@, p as int),
        decreases s@.len() - j,
    {
        j = j + 1;
    }
    j
}

fn find_byte(s: &[u8], p: usize, b: u8) -> (r: usize)
    requires
        p <= s@.len(),
    ensures
        r == next_of(s@, p as int, b),
        p <= r <= s@.len(),
{
    let mut j: usize = p;
    while j < s.len() && s[j] != b
        invariant
            p <= j <= s@.len(),
            next_of(s@, j as int, b) == next_of(s@, p as int, b),
        decreases s@.len() - j,
    {
        j = j + 1;
    }
    j
}

// ---------------------------------------------------------------------------
// Text that the parser reads as a play time
// ---------------------------------------------------------------------------

/// Sixteen ASCII digits in a row start at `i`.
pub open spec fn long_digit_run_at(s: Seq<u8>, i: int) -> bool {
    0 <= i && i + 16 <= s.len() && all_digits(s, i, i + 16)
}

/// At `k` stands an ASCII byte, and starts no reference that is not plainly written or
/// that names a decimal digit, and no run of sixteen digits.
pub open spec fn play_time_safe_at(s: Seq<u8>, k: int) -> bool {
    &&& s[k] < 128
    &&& (k + 1 < s.len() && s[k] == AMPERSAND && s[k + 1] == HASH) ==> char_ref_ok(s, k + 2)
    &&& !long_digit_run_at(s, k)
}

/// `s[a..b]` can be read as a play time without harm.
pub open spec fn play_time_safe(s: Seq<u8>, a: int, b: int) -> bool {
    forall|k: int| a <= k < b ==> #[trigger] play_time_safe_at(s, k)
}

fn long_digit_run(s: &[u8], i: usize) -> (r: bool)
    requires
        i < s@.len(),
    ensures
        r == long_digit_run_at(s@, i as int),
{
    if s.len() - i < 16 {
        return false;
    }
    let mut k: usize = i;
    while k - i < 16
        invariant
            i <= k <= i + 16,
            i + 16 <= s@.len(),
            all_digits(s@, i as int, k as int),
        decreases i + 16 - k,
    {
        if !digit_byte(s[k]) {
            return false;
        }
        k = k + 1;
    }
    true
}

fn play_time_position(s: &[u8], k: usize) -> (r: bool)
    requires
        k < s@.len(),
    ensures
        r == play_time_safe_at(s@, k as int),
{
    if s[k] >= 128 {
        return false;
    }
    if s.len() - k > 1 && s[k] == AMPERSAND && s[k + 1] == HASH {
        if !char_ref_fine(s, k + 2) {
            return false;
        }
    }
    !long_digit_run(s, k)
}

fn play_time_span(s: &[u8], a: usize, b: usize) -> (r: bool)
    requires
        a <= b <= s@.len(),
    ensures
        r == play_time_safe(s@, a as int, b as int),
{
    let mut k: usize = a;
    while k < b
        invariant
            a <= k <= b <= s@.len(),
            forall|j: int| a <= j < k ==> #[trigger] play_time_safe_at(s@, j),
        decreases b - k,
    {
        if !play_time_position(s, k) {
            return false;
        }
        k = k + 1;
    }
    true
}

// ---------------------------------------------------------------------------
// The places the rules look at
// ---------------------------------------------------------------------------

/// The bytes of `duration` start at `j`, as the local name of a tag: after `<` or a prefix's
/// `:`, and followed by white space, `>` or `/`.
pub open spec fn duration_name_at(s: Seq<u8>, j: int) -> bool {
    &&& 0 < j && j + 8 < s.len()
    &&& (s[j - 1] == LT || s[j - 1] == COLON)
    &&& s[j] == 100 && s[j + 1] == 117 && s[j + 2] == 114 && s[j + 3] == 97 && s[j + 4] == 116
        && s[j + 5] == 105 && s[j + 6] == 111 && s[j + 7] == 110
    &&& (is_xml_space(s[j + 8]) || s[j + 8] == GT || s[j + 8] == SLASH)
}

/// `<!` or `<?` at `j`: markup that text would run on across.
pub open spec fn hidden_markup_at(s: Seq<u8>, j: int) -> bool {
    0 <= j && j + 1 < s.len() && s[j] == LT && (s[j + 1] == BANG || s[j + 1] == QUESTION)
}

/// Going back from `k`, the first position that holds white space, `<` or `>` (or -1):
/// where the tag name that `k` lies in starts, if it is one.
pub open spec fn name_start(s: Seq<u8>, k: int) -> int
    decreases k + 1,
{
    if k < 0 || k >= s.len() {
        -1
    } else if is_xml_space(s[k]) || s[k] == LT || s[k] == GT {
        k
    } else {
        name_start(s, k - 1)
    }
}

/// From `p` inside a tag, where `quote` is the quote open there (0 for none), the position
/// of the `>` that closes the tag, quotes taken into account (or the end).
pub open spec fn tag_end(s: Seq<u8>, p: int, quote: u8) -> int
    decreases s.len() - p,
{
    if p < 0 || p >= s.len() {
        s.len() as int
    } else if quote == 0 {
        if s[p] == GT {
            p
        } else if is_quote(s[p]) {
            tag_end(s, p + 1, s[p])
        } else {
            tag_end(s, p + 1, 0)
        }
    } else if s[p] == quote {
        tag_end(s, p + 1, 0)
    } else {
        tag_end(s, p + 1, quote)
    }
}

/// For the `duration` name at `j`: when it ends the name of a tag, the text after that
/// tag, up to the next `<`, can be read as a play time, and that `<` opens a tag (the text
/// does not run on across a comment, a CDATA section or a processing instruction).
pub open spec fn duration_text_ok(s: Seq<u8>, j: int) -> bool {
    let q = name_start(s, j - 1);
    let g = tag_end(s, q + 1, 0);
    let e = next_of(s, g + 1, LT);
    (0 <= q && s[q] == LT && g < s.len()) ==> (!hidden_markup_at(s, e) && play_time_safe(
        s,
        g + 1,
        e,
    ))
}

/// The length of the attribute name `start`, `end` or `time` at `j`, when one stands
/// there on its own (no name byte before it); 0 otherwise.
pub open spec fn play_time_key_len(s: Seq<u8>, j: int) -> int {
    if !(0 <= j < s.len()) || (j > 0 && is_name_byte(s[j - 1])) {
        0
    } else if j + 5 <= s.len() && s[j] == 115 && s[j + 1] == 116 && s[j + 2] == 97 && s[j + 3]
        == 114 && s[j + 4] == 116 {
        5
    } else if j + 3 <= s.len() && s[j] == 101 && s[j + 1] == 110 && s[j + 2] == 100 {
        3
    } else if j + 4 <= s.len() && s[j] == 116 && s[j + 1] == 105 && s[j + 2] == 109 && s[j + 3]
        == 101 {
        4
    } else {
        0
    }
}

/// After an attribute name ending at `p`: when `=` and a quote follow, the quoted value
/// can be read as a play time.
pub open spec fn play_time_value_ok(s: Seq<u8>, p: int) -> bool {
    let a = skip_space(s, p);
    let b = skip_space(s, a + 1);
    (a < s.len() && s[a] == EQUALS && b < s.len() && is_quote(s[b])) ==> play_time_safe(
        s,
        b + 1,
        next_of(s, b + 1, s[b]),
    )
}

/// `<?xml` at `j`.
pub open spec fn decl_start_at(s: Seq<u8>, j: int) -> bool {
    0 <= j && j + 5 <= s.len() && s[j] == LT && s[j + 1] == QUESTION && s[j + 2] == 120 && s[j
        + 3] == 109 && s[j + 4] == 108
}

/// Position `j` lies inside an XML declaration: one opened before it and not closed by
/// `?>` since.
pub open spec fn in_decl(s: Seq<u8>, j: int) -> bool
    decreases j,
{
    if j <= 0 || j > s.len() {
        false
    } else if decl_start_at(s, j - 1) {
        true
    } else if j >= 2 && s[j - 2] == QUESTION && s[j - 1] == GT {
        false
    } else {
        in_decl(s, j - 1)
    }
}

/// The attribute name `encoding` at `j`, with no name byte before it.
pub open spec fn encoding_key_at(s: Seq<u8>, j: int) -> bool {
    &&& 0 <= j && j + 8 <= s.len()
    &&& (j == 0 || !is_name_byte(s[j - 1]))
    &&& s[j] == 101 && s[j + 1] == 110 && s[j + 2] == 99 && s[j + 3] == 111 && s[j + 4] == 100
        && s[j + 5] == 105 && s[j + 6] == 110 && s[j + 7] == 103
}

/// An ASCII byte in lower case.
pub open spec fn lower_byte(b: u8) -> u8 {
    if 65 <= b <= 90 {
        (b + 32) as u8
    } else {
        b
    }
}

/// `s[a..e]` is `label`, in any case.
pub open spec fn label_matches(s: Seq<u8>, a: int, e: int, label: Seq<u8>) -> bool {
    0 <= a && e <= s.len() && e - a == label.len() && forall|k: int|
        0 <= k < label.len() ==> lower_byte(#[trigger] s[a + k]) == label[k]
}

/// The encoding labels that move the decoder off ASCII: UTF-16 in either byte order, and
/// ISO-2022-JP, whose escapes make later ASCII bytes read as other characters. Under any
/// other encoding an ASCII byte that follows an ASCII byte reads as itself.
pub open spec fn unsafe_encoding_labels() -> Seq<Seq<u8>> {
    seq![
        seq![117u8, 99, 115, 45, 50],
        seq![117u8, 116, 102, 45, 49, 54],
        seq![117u8, 110, 105, 99, 111, 100, 101],
        seq![117u8, 116, 102, 45, 49, 54, 98, 101],
        seq![117u8, 116, 102, 45, 49, 54, 108, 101],
        seq![99u8, 115, 117, 110, 105, 99, 111, 100, 101],
        seq![117u8, 110, 105, 99, 111, 100, 101, 102, 102, 102, 101],
        seq![117u8, 110, 105, 99, 111, 100, 101, 102, 101, 102, 102],
        seq![105u8, 115, 111, 45, 50, 48, 50, 50, 45, 106, 112],
        seq![99u8, 115, 105, 115, 111, 50, 48, 50, 50, 106, 112],
        seq![105u8, 115, 111, 45, 49, 48, 54, 52, 54, 45, 117, 99, 115, 45, 50],
    ]
}

/// White space that the encoding lookup would trim from a label.
pub open spec fn is_label_space(b: u8) -> bool {
    b == 9 || b == 10 || b == 12 || b == 13 || b == 32
}

/// The label `s[a..e]` keeps the decoder on ASCII: it holds no white space and, in any
/// case, is none of the unsafe labels.
pub open spec fn label_safe(s: Seq<u8>, a: int, e: int) -> bool {
    &&& forall|k: int| a <= k < e ==> !is_label_space(#[trigger] s[k])
    &&& forall|n: int|
        0 <= n < unsafe_encoding_labels().len() ==> !#[trigger] label_matches(
            s,
            a,
            e,
            unsafe_encoding_labels()[n],
        )
}

/// After the name `encoding` ending at `p`: when `=` and a quote follow, the quoted label
/// is a safe one.
pub open spec fn encoding_value_ok(s: Seq<u8>, p: int) -> bool {
    let a = skip_space(s, p);
    let b = skip_space(s, a + 1);
    (a < s.len() && s[a] == EQUALS && b < s.len() && is_quote(s[b])) ==> label_safe(
        s,
        b + 1,
        next_of(s, b + 1, s[b]),
    )
}

/// The body starts like UTF-16: a byte order mark, or `<?` with zero bytes between.
pub open spec fn utf16_start(s: Seq<u8>) -> bool {
    ||| s.len() >= 2 && s[0] == 0xfe && s[1] == 0xff
    ||| s.len() >= 2 && s[0] == 0xff && s[1] == 0xfe
    ||| s.len() >= 4 && s[0] == 0 && s[1] == LT && s[2] == 0 && s[3] == QUESTION
    ||| s.len() >= 4 && s[0] == LT && s[1] == 0 && s[2] == QUESTION && s[3] == 0
}

/// The rules at position `i` of the bytes.
pub open spec fn safe_at(s: Seq<u8>, i: int) -> bool {
    &&& (in_decl(s, i) && encoding_key_at(s, i)) ==> encoding_value_ok(s, i + 8)
    &&& duration_name_at(s, i) ==> duration_text_ok(s, i)
    &&& play_time_key_len(s, i) > 0 ==> play_time_value_ok(s, i + play_time_key_len(s, i))
}

/// Bytes that `feed_rs::parser::parse` reads to an end, a feed or an error: they do not
/// start like UTF-16 and every position keeps the rules. A body without them may make
/// the parser stop the program.
pub open spec fn parser_safe_input(s: Seq<u8>) -> bool {
    &&& !utf16_start(s)
    &&& forall|i: int| 0 <= i < s.len() ==> #[trigger] safe_at(s, i)
}

// ---------------------------------------------------------------------------
// Checking the rules
// ---------------------------------------------------------------------------

fn hidden_markup(s: &[u8], j: usize) -> (r: bool)
    ensures
        r == hidden_markup_at(s@, j as int),
{
    j < s.len() && s.len() - j > 1 && s[j] == LT && (s[j + 1] == BANG || s[j + 1] == QUESTION)
}

fn find_name_start(s: &[u8], k: usize) -> (r: Option<usize>)
    requires
        k < s@.len(),
    ensures
        match r {
            Some(q) => q as int == name_start(s@, k as int) && q <= k,
            None => name_start(s@, k as int) == -1,
        },
{
    let mut i: usize = k;
    loop
        invariant
            i <= k < s@.len(),
            name_start(s@, i as int) == name_start(s@, k as int),
        decreases i,
    {
        let b = s[i];
        if b == 32 || b == 9 || b == 10 || b == 13 || b == LT || b == GT {
            return Some(i);
        }
        if i == 0 {
            assert(name_start(s@, -1) == -1);
            return None;
        }
        i = i - 1;
    }
}

fn find_tag_end(s: &[u8], p: usize) -> (r: usize)
    requires
        p <= s@.len(),
    ensures
        r == tag_end(s@, p as int, 0),
        r <= s@.len(),
{
    let mut i: usize = p;
    let mut quote: u8 = 0;
    while i < s.len()
        invariant
            p <= i <= s@.len(),
            tag_end(s@, i as int, quote) == tag_end(s@, p as int, 0),
        decreases s@.len() - i,
    {
        let b = s[i];
        if quote == 0 {
            if b == GT {
                return i;
            }
            if b == DOUBLE_QUOTE || b == SINGLE_QUOTE {
                quote = b;
            }
        } else if b == quote {
            quote = 0;
        }
        i = i + 1;
    }
    s.len()
}

fn duration_text_fine(s: &[u8], j: usize) -> (r: bool)
    requires
        0 < j < s@.len(),
    ensures
        r == duration_text_ok(s@, j as int),
{
    let qu = match find_name_start(s, j - 1) {
        Some(q) => q,
        None => {
            return true;
        },
    };
    if s[qu] != LT {
        return true;
    }
    let g = find_tag_end(s, qu + 1);
    if g >= s.len() {
        return true;
    }
    let e = find_byte(s, g + 1, LT);
    !hidden_markup(s, e) && play_time_span(s, g + 1, e)
}

fn play_time_key(s: &[u8], j: usize) -> (r: usize)
    requires
        j < s@.len(),
    ensures
        r == play_time_key_len(s@, j as int),
{
    if j > 0 {
        let b = s[j - 1];
        if (48 <= b && b <= 57) || (65 <= b && b <= 90) || (97 <= b && b <= 122) || b == 45 || b
            == 95 || b == 46 || b == COLON || b >= 128 {
            return 0;
        }
    }
    let n = s.len() - j;
    if n >= 5 && s[j] == 115 && s[j + 1] == 116 && s[j + 2] == 97 && s[j + 3] == 114 && s[j + 4]
        == 116 {
        5
    } else if n >= 3 && s[j] == 101 && s[j + 1] == 110 && s[j + 2] == 100 {
        3
    } else if n >= 4 && s[j] == 116 && s[j + 1] == 105 && s[j + 2] == 109 && s[j + 3] == 101 {
        4
    } else {
        0
    }
}

/// The quoted value after `=` past an attribute name ending at `p`, if there is one: the
/// positions of its first byte and of its closing quote (or the end).
fn quoted_value(s: &[u8], p: usize) -> (r: Option<(usize, usize)>)
    requires
        p <= s@.len(),
    ensures
        ({
            let a = skip_space(s@, p as int);
            let b = skip_space(s@, a + 1);
            let present = a < s@.len() && s@[a] == EQUALS && b < s@.len() && is_quote(s@[b]);
            match r {
                Some((v, e)) => present && v == b + 1 && e == next_of(s@, b + 1, s@[b]) && v <= e
                    <= s@.len(),
                None => !present,
            }
        }),
{
    let a = skip_spaces(s, p);
    if a >= s.len() || s[a] != EQUALS {
        return None;
    }
    let b = skip_spaces(s, a + 1);
    if b >= s.len() || !(s[b] == DOUBLE_QUOTE || s[b] == SINGLE_QUOTE) {
        return None;
    }
    let e = find_byte(s, b + 1, s[b]);
    Some((b + 1, e))
}

fn label_is(s: &[u8], a: usize, e: usize, label: &Vec<u8>) -> (r: bool)
    requires
        a <= e <= s@.len(),
    ensures
        r == label_matches(s@, a as int, e as int, label@),
{
    if e - a != label.len() {
        return false;
    }
    let mut k: usize = 0;
    while k < label.len()
        invariant
            k <= label@.len(),
            e - a == label@.len(),
            e <= s@.len(),
            forall|j: int| 0 <= j < k ==> lower_byte(#[trigger] s@[a + j]) == label@[j],
        decreases label@.len() - k,
    {
        let b = s[a + k];
        let l = if 65 <= b && b <= 90 {
            b + 32
        } else {
            b
        };
        if l != label[k] {
            assert(lower_byte(s@[a + k]) != label@[k as int]);
            return false;
        }
        k = k + 1;
    }
    true
}

fn safe_label(s: &[u8], a: usize, e: usize) -> (r: bool)
    requires
        a <= e <= s@.len(),
    ensures
        r == label_safe(s@, a as int, e as int),
{
    let mut k: usize = a;
    while k < e
        invariant
            a <= k <= e <= s@.len(),
            forall|j: int| a <= j < k ==> !is_label_space(#[trigger] s@[j]),
        decreases e - k,
    {
        let b = s[k];
        if b == 9 || b == 10 || b == 12 || b == 13 || b == 32 {
            assert(is_label_space(s@[k as int]));
            return false;
        }
        k = k + 1;
    }
    let labels: Vec<Vec<u8>> = vec![
        vec![117u8, 99, 115, 45, 50],
        vec![117u8, 116, 102, 45, 49, 54],
        vec![117u8, 110, 105, 99, 111, 100, 101],
        vec![117u8, 116, 102, 45, 49, 54, 98, 101],
        vec![117u8, 116, 102, 45, 49, 54, 108, 101],
        vec![99u8, 115, 117, 110, 105, 99, 111, 100, 101],
        vec![117u8, 110, 105, 99, 111, 100, 101, 102, 102, 102, 101],
        vec![117u8, 110, 105, 99, 111, 100, 101, 102, 101, 102, 102],
        vec![105u8, 115, 111, 45, 50, 48, 50, 50, 45, 106, 112],
        vec![99u8, 115, 105, 115, 111, 50, 48, 50, 50, 106, 112],
        vec![105u8, 115, 111, 45, 49, 48, 54, 52, 54, 45, 117, 99, 115, 45, 50],
    ];
    assert(labels@.len() == unsafe_encoding_labels().len());
    assert forall|n: int| 0 <= n < labels@.len() implies #[trigger] labels@[n]@
        == unsafe_encoding_labels()[n] by {
        assert(labels@[0]@ == unsafe_encoding_labels()[0]);
        assert(labels@[1]@ == unsafe_encoding_labels()[1]);
        assert(labels@[2]@ == unsafe_encoding_labels()[2]);
        assert(labels@[3]@ == unsafe_encoding_labels()[3]);
        assert(labels@[4]@ == unsafe_encoding_labels()[4]);
        assert(labels@[5]@ == unsafe_encoding_labels()[5]);
        assert(labels@[6]@ == unsafe_encoding_labels()[6]);
        assert(labels@[7]@ == unsafe_encoding_labels()[7]);
        assert(labels@[8]@ == unsafe_encoding_labels()[8]);
        assert(labels@[9]@ == unsafe_encoding_labels()[9]);
        assert(labels@[10]@ == unsafe_encoding_labels()[10]);
    }
    let mut n: usize = 0;
    while n < labels.len()
        invariant
            n <= labels@.len(),
            labels@.len() == unsafe_encoding_labels().len(),
            a <= e <= s@.len(),
            forall|j: int| a <= j < e ==> !is_label_space(#[trigger] s@[j]),
            forall|m: int| 0 <= m < labels@.len() ==> #[trigger] labels@[m]@
                == unsafe_encoding_labels()[m],
            forall|m: int|
                0 <= m < n ==> !#[trigger] label_matches(
                    s@,
                    a as int,
                    e as int,
                    unsafe_encoding_labels()[m],
                ),
        decreases labels@.len() - n,
    {
        assert(labels@[n as int]@ == unsafe_encoding_labels()[n as int]);
        if label_is(s, a, e, &labels[n]) {
            return false;
        }
        n = n + 1;
    }
    true
}

fn encoding_key(s: &[u8], j: usize) -> (r: bool)
    ensures
        r == encoding_key_at(s@, j as int),
{
    if j >= s.len() || s.len() - j < 8 {
        return false;
    }
    if j > 0 {
        let b = s[j - 1];
        if (48 <= b && b <= 57) || (65 <= b && b <= 90) || (97 <= b && b <= 122) || b == 45 || b
            == 95 || b == 46 || b == COLON || b >= 128 {
            return false;
        }
    }
    s[j] == 101 && s[j + 1] == 110 && s[j + 2] == 99 && s[j + 3] == 111 && s[j + 4] == 100 && s[j
        + 5] == 105 && s[j + 6] == 110 && s[j + 7] == 103
}

fn duration_name(s: &[u8], j: usize) -> (r: bool)
    ensures
        r == duration_name_at(s@, j as int),
{
    if j == 0 || j >= s.len() || s.len() - j <= 8 {
        return false;
    }
    let before = s[j - 1];
    let after = s[j + 8];
    (before == LT || before == COLON) && s[j] == 100 && s[j + 1] == 117 && s[j + 2] == 114 && s[j
        + 3] == 97 && s[j + 4] == 116 && s[j + 5] == 105 && s[j + 6] == 111 && s[j + 7] == 110
        && (after == 32 || after == 9 || after == 10 || after == 13 || after == GT || after
        == SLASH)
}

fn safe_position(s: &[u8], i: usize, inside_decl: bool) -> (r: bool)
    requires
        i < s@.len(),
        inside_decl == in_decl(s@, i as int),
    ensures
        r == safe_at(s@, i as int),
{
    let n = s.len();
    if inside_decl && encoding_key(s, i) {
        assert(i + 8 <= s@.len());
        match quoted_value(s, i + 8) {
            Some((v, e)) => {
                if !safe_label(s, v, e) {
                    return false;
                }
            },
            None => {},
        }
    }
    if duration_name(s, i) {
        if !duration_text_fine(s, i) {
            return false;
        }
    }
    let k = play_time_key(s, i);
    if k > 0 {
        assert(i + k <= s@.len());
        match quoted_value(s, i + k) {
            Some((v, e)) => {
                if !play_time_span(s, v, e) {
                    return false;
                }
            },
            None => {},
        }
    }
    true
}

/// Whether `feed_rs::parser::parse` can be handed these bytes: they keep the rules above.
pub fn check_feed_input(body: &[u8]) -> (r: bool)
    ensures
        r == parser_safe_input(body@),
{
    let n = body.len();
    if n >= 2 && ((body[0] == 0xfe && body[1] == 0xff) || (body[0] == 0xff && body[1] == 0xfe)) {
        return false;
    }
    if n >= 4 && ((body[0] == 0 && body[1] == LT && body[2] == 0 && body[3] == QUESTION) || (
    body[0] == LT && body[1] == 0 && body[2] == QUESTION && body[3] == 0)) {
        return false;
    }
    let mut inside: bool = false;
    let mut i: usize = 0;
    while i < n
        invariant
            n == body@.len(),
            i <= n,
            !utf16_start(body@),
            inside == in_decl(body@, i as int),
            forall|k: int| 0 <= k < i ==> #[trigger] safe_at(body@, k),
        decreases n - i,
    {
        if !safe_position(body, i, inside) {
            return false;
        }
        let opens = n - i >= 5 && body[i] == LT && body[i + 1] == QUESTION && body[i + 2] == 120
            && body[i + 3] == 109 && body[i + 4] == 108;
        if opens {
            inside = true;
        } else if i >= 1 && body[i - 1] == QUESTION && body[i] == GT {
            inside = false;
        }
        i = i + 1;
    }
    true
}

} // verus!

//! Character-level text helpers: conversion between strings and character
//! sequences, Unicode whitespace trimming, decimal numbers (read and written),
//! shortening, splitting, masking and joining texts.
use vstd::prelude::*;

verus! {

// ==================== strings and characters ====================

/// The characters of a string, in order.
pub fn chars_of(s: &str) -> (v: Vec<char>)
    ensures
        v@ == s@,
{
    let mut v: Vec<char> = Vec::new();
    for c in it: s.chars()
        invariant
            v@ == it.seq().take(it.index() as int),
    {
        v.push(c);
    }
    v
}

/// `String::push`: appends one character at the end.
#[verifier::external_body]
pub(crate) fn push_char(s: &mut String, c: char)
    ensures
        final(s)@ == old(s)@.push(c),
{
    s.push(c);
}

/// The string made of `chars[from..to]`.
pub fn string_of(chars: &[char], from: usize, to: usize) -> (s: String)
    requires
        from <= to <= chars@.len(),
    ensures
        s@ == chars@.subrange(from as int, to as int),
{
    let mut s = String::new();
    let mut i = from;
    while i < to
        invariant
            from <= i <= to <= chars@.len(),
            s@ == chars@.subrange(from as int, i as int),
        decreases to - i,
    {
        push_char(&mut s, chars[i]);
        i = i + 1;
    }
    s
}

// ==================== whitespace ====================

/// Unicode `White_Space`, the set that `char::is_whitespace` and `str::trim` use.
pub open spec fn is_ws(c: char) -> bool {
    ||| ('\u{9}' <= c && c <= '\u{d}')
    ||| c == ' '
    ||| c == '\u{85}'
    ||| c == '\u{a0}'
    ||| c == '\u{1680}'
    ||| ('\u{2000}' <= c && c <= '\u{200a}')
    ||| c == '\u{2028}'
    ||| c == '\u{2029}'
    ||| c == '\u{202f}'
    ||| c == '\u{205f}'
    ||| c == '\u{3000}'
}

/// Whether a character is Unicode whitespace.
pub fn is_whitespace(c: char) -> (r: bool)
    ensures
        r == is_ws(c),
{
    ('\u{9}' <= c && c <= '\u{d}') || c == ' ' || c == '\u{85}' || c == '\u{a0}' || c
        == '\u{1680}' || ('\u{2000}' <= c && c <= '\u{200a}') || c == '\u{2028}' || c
        == '\u{2029}' || c == '\u{202f}' || c == '\u{205f}' || c == '\u{3000}'
}

/// `s` without its leading whitespace.
pub open spec fn trim_start(s: Seq<char>) -> Seq<char>
    decreases s.len(),
{
    if s.len() > 0 && is_ws(s[0]) {
        trim_start(s.drop_first())
    } else {
        s
    }
}

/// `s` without its trailing whitespace.
pub open spec fn trim_end(s: Seq<char>) -> Seq<char>
    decreases s.len(),
{
    if s.len() > 0 && is_ws(s.last()) {
        trim_end(s.drop_last())
    } else {
        s
    }
}

/// `s` without leading and trailing whitespace (what `str::trim` gives).
pub open spec fn trim(s: Seq<char>) -> Seq<char> {
    trim_end(trim_start(s))
}

/// Every character of `s` is whitespace.
pub open spec fn all_ws(s: Seq<char>) -> bool {
    forall|i: int| 0 <= i < s.len() ==> is_ws(#[trigger] s[i])
}

proof fn lemma_trim_start_skip(s: Seq<char>, i: int)
    requires
        0 <= i <= s.len(),
        all_ws(s.subrange(0, i)),
    ensures
        trim_start(s) == trim_start(s.subrange(i, s.len() as int)),
    decreases i,
{
    if i > 0 {
        assert(is_ws(s.subrange(0, i)[0]));
        let t = s.drop_first();
        assert(s.subrange(1, i) =~= t.subrange(0, i - 1));
        assert(all_ws(t.subrange(0, i - 1))) by {
            assert forall|k: int| 0 <= k < i - 1 implies is_ws(#[trigger] t.subrange(0, i - 1)[k]) by {
                assert(t.subrange(0, i - 1)[k] == s.subrange(0, i)[k + 1]);
            }
        }
        lemma_trim_start_skip(t, i - 1);
        assert(t.subrange(i - 1, t.len() as int) =~= s.subrange(i, s.len() as int));
    } else {
        assert(s.subrange(0, s.len() as int) =~= s);
    }
}

proof fn lemma_trim_end_skip(s: Seq<char>, j: int)
    requires
        0 <= j <= s.len(),
        all_ws(s.subrange(j, s.len() as int)),
    ensures
        trim_end(s) == trim_end(s.subrange(0, j)),
    decreases s.len() - j,
{
    if j < s.len() {
        assert(is_ws(s.subrange(j, s.len() as int)[s.len() - 1 - j]));
        let t = s.drop_last();
        assert(all_ws(t.subrange(j, t.len() as int))) by {
            assert forall|k: int| 0 <= k < t.len() - j implies is_ws(
                #[trigger] t.subrange(j, t.len() as int)[k],
            ) by {
                assert(t.subrange(j, t.len() as int)[k] == s.subrange(j, s.len() as int)[k]);
            }
        }
        lemma_trim_end_skip(t, j);
        assert(t.subrange(0, j) =~= s.subrange(0, j));
    } else {
        assert(s.subrange(0, j) =~= s);
    }
}

/// Bounds `(a, b)` such that `trim(s[from..to]) == s[a..b]`.
pub fn trim_bounds(s: &[char], from: usize, to: usize) -> (r: (usize, usize))
    requires
        from <= to <= s@.len(),
    ensures
        from <= r.0 <= r.1 <= to,
        trim(s@.subrange(from as int, to as int)) == s@.subrange(r.0 as int, r.1 as int),
{
    let ghost w = s@.subrange(from as int, to as int);
    let mut a = from;
    while a < to && is_whitespace(s[a])
        invariant
            from <= a <= to <= s@.len(),
            w == s@.subrange(from as int, to as int),
            all_ws(w.subrange(0, a - from)),
        decreases to - a,
    {
        proof {
            assert forall|k: int| 0 <= k < a + 1 - from implies is_ws(
                #[trigger] w.subrange(0, a + 1 - from)[k],
            ) by {
                if k < a - from {
                    assert(w.subrange(0, a + 1 - from)[k] == w.subrange(0, a - from)[k]);
                }
            }
        }
        a = a + 1;
    }
    proof {
        lemma_trim_start_skip(w, a - from);
        let u = w.subrange(a - from, w.len() as int);
        assert(u =~= s@.subrange(a as int, to as int));
        if u.len() > 0 {
            assert(!is_ws(u[0]));
        }
        assert(trim_start(u) == u);
    }
    let mut b = to;
    while b > a && is_whitespace(s[b - 1])
        invariant
            from <= a <= b <= to <= s@.len(),
            all_ws(s@.subrange(a as int, to as int).subrange(b - a, to - a)),
        decreases b - a,
    {
        proof {
            let u = s@.subrange(a as int, to as int);
            assert forall|k: int| 0 <= k < to - b + 1 implies is_ws(
                #[trigger] u.subrange(b - 1 - a, to - a)[k],
            ) by {
                if k > 0 {
                    assert(u.subrange(b - 1 - a, to - a)[k] == u.subrange(b - a, to - a)[k - 1]);
                }
            }
        }
        b = b - 1;
    }
    proof {
        let u = s@.subrange(a as int, to as int);
        lemma_trim_end_skip(u, b - a);
        let v = u.subrange(0, b - a);
        assert(v =~= s@.subrange(a as int, b as int));
        if v.len() > 0 {
            assert(!is_ws(v.last()));
        }
        assert(trim_end(v) == v);
    }
    (a, b)
}

/// `str::trim` as a new string.
pub fn trimmed(s: &str) -> (r: String)
    ensures
        r@ == trim(s@),
{
    let cs = chars_of(s);
    let (a, b) = trim_bounds(cs.as_slice(), 0, cs.len());
    proof {
        assert(cs@.subrange(0, cs@.len() as int) =~= cs@);
    }
    string_of(cs.as_slice(), a, b)
}

/// Whether a string is empty or made only of whitespace.
pub fn is_blank(s: &str) -> (r: bool)
    ensures
        r == (trim(s@).len() == 0),
{
    let cs = chars_of(s);
    let (a, b) = trim_bounds(cs.as_slice(), 0, cs.len());
    proof {
        assert(cs@.subrange(0, cs@.len() as int) =~= cs@);
    }
    a == b
}

} // verus!

verus! {

// ==================== decimal numbers ====================

/// An ASCII decimal digit.
pub open spec fn is_digit(c: char) -> bool {
    '0' <= c && c <= '9'
}

/// The value of an ASCII decimal digit.
pub open spec fn digit_value(c: char) -> int {
    (c as int) - ('0' as int)
}

/// Every character of `s` is an ASCII decimal digit.
pub open spec fn all_digits(s: Seq<char>) -> bool {
    forall|i: int| 0 <= i < s.len() ==> is_digit(#[trigger] s[i])
}

/// The value of a string of decimal digits.
pub open spec fn decimal_value(s: Seq<char>) -> int
    decreases s.len(),
{
    if s.len() == 0 {
        0
    } else {
        decimal_value(s.drop_last()) * 10 + digit_value(s.last())
    }
}

/// The digits of an unsigned number: an optional leading `+` is dropped.
pub open spec fn unsigned_digits(s: Seq<char>) -> Seq<char> {
    if s.len() > 0 && s[0] == '+' {
        s.drop_first()
    } else {
        s
    }
}

/// What the standard library's `FromStr` for an unsigned integer type whose
/// largest value is `max` makes of `s`: an optional `+`, then at least one
/// ASCII digit, and a value that fits.
pub open spec fn parse_unsigned(s: Seq<char>, max: int) -> Option<int> {
    let d = unsigned_digits(s);
    if d.len() > 0 && all_digits(d) && decimal_value(d) <= max {
        Some(decimal_value(d))
    } else {
        None
    }
}

/// What the standard library's `FromStr` for a signed integer type with range
/// `min..=max` makes of `s`: an optional sign, then at least one ASCII digit,
/// and a value that fits.
pub open spec fn parse_signed(s: Seq<char>, min: int, max: int) -> Option<int> {
    if s.len() > 0 && s[0] == '-' {
        let d = s.drop_first();
        if d.len() > 0 && all_digits(d) && -decimal_value(d) >= min {
            Some(-decimal_value(d))
        } else {
            None
        }
    } else {
        parse_unsigned(s, max)
    }
}

proof fn lemma_decimal_nonneg(s: Seq<char>)
    requires
        all_digits(s),
    ensures
        decimal_value(s) >= 0,
    decreases s.len(),
{
    if s.len() > 0 {
        assert(all_digits(s.drop_last())) by {
            assert forall|i: int| 0 <= i < s.len() - 1 implies is_digit(#[trigger] s.drop_last()[i]) by {
                assert(s.drop_last()[i] == s[i]);
            }
        }
        lemma_decimal_nonneg(s.drop_last());
        assert(is_digit(s[s.len() - 1]));
    }
}

/// A prefix of a digit string never has a larger value than the whole string.
proof fn lemma_decimal_prefix_le(s: Seq<char>, k: int)
    requires
        all_digits(s),
        0 <= k <= s.len(),
    ensures
        decimal_value(s.subrange(0, k)) <= decimal_value(s),
    decreases s.len() - k,
{
    if k < s.len() {
        let t = s.subrange(0, k + 1);
        assert(all_digits(t)) by {
            assert forall|i: int| 0 <= i < t.len() implies is_digit(#[trigger] t[i]) by {
                assert(t[i] == s[i]);
            }
        }
        assert(t.drop_last() =~= s.subrange(0, k));
        lemma_decimal_nonneg(t.drop_last());
        assert(is_digit(t.last()));
        lemma_decimal_prefix_le(s, k + 1);
    } else {
        assert(s.subrange(0, k) =~= s);
    }
}

/// The value of the digits `s[from..to]` when they are all ASCII digits, at
/// least one, and the value fits in a `u64`; `None` otherwise.
pub fn parse_digits(s: &[char], from: usize, to: usize) -> (r: Option<u64>)
    requires
        from <= to <= s@.len(),
    ensures
        ({
            let d = s@.subrange(from as int, to as int);
            r == if d.len() > 0 && all_digits(d) && decimal_value(d) <= u64::MAX {
                Some(decimal_value(d) as u64)
            } else {
                None::<u64>
            }
        }),
{
    let ghost d = s@.subrange(from as int, to as int);
    if from == to {
        return None;
    }
    let mut acc: u64 = 0;
    let mut i = from;
    while i < to
        invariant
            from <= i <= to <= s@.len(),
            d == s@.subrange(from as int, to as int),
            all_digits(d.subrange(0, i - from)),
            acc as int == decimal_value(d.subrange(0, i - from)),
        decreases to - i,
    {
        let c = s[i];
        if !('0' <= c && c <= '9') {
            proof {
                assert(d[i - from] == c);
            }
            return None;
        }
        let dv: u32 = c as u32 - '0' as u32;
        proof {
            let p = d.subrange(0, i + 1 - from);
            assert(p.drop_last() =~= d.subrange(0, i - from));
            assert(p.last() == c);
            assert(all_digits(p)) by {
                assert forall|j: int| 0 <= j < p.len() implies is_digit(#[trigger] p[j]) by {
                    if j < i - from {
                        assert(p[j] == d.subrange(0, i - from)[j]);
                    }
                }
            }
        }
        if acc > (u64::MAX - dv as u64) / 10 {
            proof {
                let p = d.subrange(0, i + 1 - from);
                assert(decimal_value(p) == acc * 10 + dv);
                assert(acc * 10 + dv > u64::MAX) by (nonlinear_arith)
                    requires
                        acc > (u64::MAX - dv) / 10,
                        dv <= 9,
                ;
                if all_digits(d) {
                    lemma_decimal_prefix_le(d, i + 1 - from);
                }
            }
            return None;
        }
        proof {
            assert(acc * 10 + dv <= u64::MAX) by (nonlinear_arith)
                requires
                    acc <= (u64::MAX - dv) / 10,
                    dv <= 9,
            ;
        }
        acc = acc * 10 + dv as u64;
        i = i + 1;
    }
    proof {
        assert(d.subrange(0, to - from) =~= d);
    }
    Some(acc)
}

/// `str::parse::<u64>` on the characters `s[from..to]`.
pub fn parse_u64_chars(s: &[char], from: usize, to: usize) -> (r: Option<u64>)
    requires
        from <= to <= s@.len(),
    ensures
        opt_u64_int(r) == parse_unsigned(s@.subrange(from as int, to as int), u64::MAX as int),
{
    let ghost w = s@.subrange(from as int, to as int);
    proof {
        if all_digits(unsigned_digits(w)) {
            lemma_decimal_nonneg(unsigned_digits(w));
        }
    }
    if from < to && s[from] == '+' {
        proof {
            assert(w.drop_first() =~= s@.subrange(from + 1, to as int));
        }
        parse_digits(s, from + 1, to)
    } else {
        proof {
            if from < to {
                assert(w[0] == s@[from as int]);
            }
            assert(unsigned_digits(w) == w);
        }
        parse_digits(s, from, to)
    }
}

/// An optional `u64` as an optional integer.
pub open spec fn opt_u64_int(r: Option<u64>) -> Option<int> {
    match r {
        Some(v) => Some(v as int),
        None => None,
    }
}

} // verus!

verus! {

// ==================== comparisons ====================

/// Whether two strings hold the same characters.
pub fn str_eq(a: &str, b: &str) -> (r: bool)
    ensures
        r == (a@ == b@),
{
    let x = chars_of(a);
    let y = chars_of(b);
    if x.len() != y.len() {
        return false;
    }
    let mut i: usize = 0;
    while i < x.len()
        invariant
            x@ == a@,
            y@ == b@,
            x@.len() == y@.len(),
            i <= x@.len(),
            forall|j: int| 0 <= j < i ==> x@[j] == y@[j],
        decreases x.len() - i,
    {
        if x[i] != y[i] {
            proof {
                assert(a@[i as int] != b@[i as int]);
            }
            return false;
        }
        i = i + 1;
    }
    proof {
        assert(x@ =~= y@);
    }
    true
}

// ==================== file names ====================

/// Characters that file systems and WebDAV servers refuse in a name are
/// replaced by `_`.
pub open spec fn safe_name_char(c: char) -> char {
    if c == '\\' || c == '/' || c == ':' || c == '*' || c == '?' || c == '"' || c == '<' || c
        == '>' || c == '|' {
        '_'
    } else {
        c
    }
}

/// A name with every refused character replaced by `_`.
pub open spec fn safe_name(s: Seq<char>) -> Seq<char> {
    s.map_values(|c: char| safe_name_char(c))
}

/// Replaces the characters `\ / : * ? " < > |` of a name by `_`.
pub fn sanitize_filename(name: &str) -> (r: String)
    ensures
        r@ == safe_name(name@),
{
    let cs = chars_of(name);
    let mut r = String::new();
    let mut i: usize = 0;
    while i < cs.len()
        invariant
            cs@ == name@,
            i <= cs@.len(),
            r@ == safe_name(cs@.subrange(0, i as int)),
        decreases cs.len() - i,
    {
        let c = cs[i];
        let d = if c == '\\' || c == '/' || c == ':' || c == '*' || c == '?' || c == '"' || c
            == '<' || c == '>' || c == '|' {
            '_'
        } else {
            c
        };
        push_char(&mut r, d);
        proof {
            assert(safe_name(cs@.subrange(0, i + 1)) =~= safe_name(cs@.subrange(0, i as int)).push(
                d,
            ));
        }
        i = i + 1;
    }
    proof {
        assert(cs@.subrange(0, cs@.len() as int) =~= cs@);
    }
    r
}

// ==================== shortening ====================

/// `text` cut to its first `max_chars` characters followed by `...` when it
/// is longer than that, unchanged otherwise.
pub open spec fn truncated(text: Seq<char>, max_chars: int) -> Seq<char> {
    if text.len() > max_chars {
        text.subrange(0, max_chars) + seq!['.', '.', '.']
    } else {
        text
    }
}

fn push_dots(r: &mut String)
    ensures
        final(r)@ == old(r)@ + seq!['.', '.', '.'],
{
    push_char(r, '.');
    push_char(r, '.');
    push_char(r, '.');
    proof {
        assert(final(r)@ =~= old(r)@ + seq!['.', '.', '.']);
    }
}

/// Shortens a text to `max_chars` characters, marking the cut with `...`.
pub fn truncate_text(text: &str, max_chars: usize) -> (r: String)
    ensures
        r@ == truncated(text@, max_chars as int),
{
    let cs = chars_of(text);
    if cs.len() > max_chars {
        let mut r = string_of(cs.as_slice(), 0, max_chars);
        push_dots(&mut r);
        r
    } else {
        let r = string_of(cs.as_slice(), 0, cs.len());
        proof {
            assert(cs@.subrange(0, cs@.len() as int) =~= cs@);
        }
        r
    }
}

/// A path shown in at most `max_chars` characters: a longer one is replaced
/// by `...` and its last `max_chars - 3` characters (none when `max_chars`
/// is below 3).
pub open spec fn path_tail(path: Seq<char>, max_chars: int) -> Seq<char> {
    if path.len() <= max_chars {
        path
    } else {
        let tail_len = if max_chars >= 3 {
            max_chars - 3
        } else {
            0
        };
        seq!['.', '.', '.'] + path.subrange(path.len() - tail_len, path.len() as int)
    }
}

/// Shortens a path by keeping its end, counting characters (not bytes).
pub fn truncate_path(path: &str, max_chars: usize) -> (r: String)
    ensures
        r@ == path_tail(path@, max_chars as int),
{
    let cs = chars_of(path);
    let total = cs.len();
    if total <= max_chars {
        proof {
            assert(cs@.subrange(0, cs@.len() as int) =~= cs@);
        }
        return string_of(cs.as_slice(), 0, total);
    }
    let tail_len = if max_chars >= 3 {
        max_chars - 3
    } else {
        0
    };
    let mut r = String::new();
    push_dots(&mut r);
    let mut i = total - tail_len;
    let ghost head = r@;
    while i < total
        invariant
            total == cs@.len(),
            tail_len <= total,
            total - tail_len <= i <= total,
            r@ == head + cs@.subrange(total - tail_len, i as int),
        decreases total - i,
    {
        push_char(&mut r, cs[i]);
        proof {
            assert(cs@.subrange(total - tail_len, i + 1) =~= cs@.subrange(
                total - tail_len,
                i as int,
            ).push(cs@[i as int]));
        }
        i = i + 1;
    }
    proof {
        assert(head =~= seq!['.', '.', '.']);
    }
    r
}

/// The date part of an ISO 8601 time: everything before the first `T`.
pub open spec fn date_part(iso: Seq<char>) -> Seq<char>
    decreases iso.len(),
{
    if iso.len() == 0 {
        iso
    } else if iso[0] == 'T' {
        Seq::empty()
    } else {
        seq![iso[0]] + date_part(iso.drop_first())
    }
}

proof fn lemma_date_part_prefix(iso: Seq<char>, i: int)
    requires
        0 <= i <= iso.len(),
        forall|j: int| 0 <= j < i ==> iso[j] != 'T',
        i == iso.len() || iso[i] == 'T',
    ensures
        date_part(iso) == iso.subrange(0, i),
    decreases i,
{
    if i == 0 {
        assert(iso.subrange(0, 0) =~= Seq::<char>::empty());
    } else {
        lemma_date_part_prefix(iso.drop_first(), i - 1);
        assert(seq![iso[0]] + iso.drop_first().subrange(0, i - 1) =~= iso.subrange(0, i));
    }
}

/// `"2023-01-01T12:00:00.000Z"` gives `"2023-01-01"`: the text before the
/// first `T`, or all of it when there is none.
pub fn format_api_date(iso_str: &str) -> (r: &str)
    ensures
        r@ == date_part(iso_str@),
{
    let cs = chars_of(iso_str);
    let mut i: usize = 0;
    while i < cs.len() && cs[i] != 'T'
        invariant
            cs@ == iso_str@,
            i <= cs@.len(),
            forall|j: int| 0 <= j < i ==> cs@[j] != 'T',
        decreases cs.len() - i,
    {
        i = i + 1;
    }
    proof {
        lemma_date_part_prefix(cs@, i as int);
    }
    iso_str.substring_char(0, i)
}

/// `s` itself, or `fallback` when `s` is blank.
pub fn non_empty(s: &str, fallback: &str) -> (r: String)
    ensures
        r@ == if trim(s@).len() == 0 {
            fallback@
        } else {
            s@
        },
{
    if is_blank(s) {
        String::from_str(fallback)
    } else {
        String::from_str(s)
    }
}

// ==================== numbers as text ====================

/// The decimal digits of a natural number, most significant first, without
/// leading zeros ("0" for zero).
pub open spec fn decimal_digits(n: nat) -> Seq<char>
    decreases n,
{
    if n < 10 {
        seq![digit_char(n)]
    } else {
        decimal_digits(n / 10).push(digit_char(n % 10))
    }
}

/// The ASCII digit of a value below ten.
pub open spec fn digit_char(d: nat) -> char {
    (('0' as int) + d) as char
}

fn digit_of(d: u64) -> (c: char)
    requires
        d < 10,
    ensures
        c == digit_char(d as nat),
{
    let b: u8 = (48 + d) as u8;
    b as char
}

/// The decimal representation of an unsigned number (what `to_string` gives).
pub fn u64_to_string(n: u64) -> (r: String)
    ensures
        r@ == decimal_digits(n as nat),
    decreases n,
{
    if n < 10 {
        let mut r = String::new();
        push_char(&mut r, digit_of(n));
        proof {
            assert(r@ =~= seq![digit_char(n as nat)]);
        }
        r
    } else {
        let mut r = u64_to_string(n / 10);
        push_char(&mut r, digit_of(n % 10));
        r
    }
}

} // verus!

verus! {

// ==================== splitting, masking ====================

/// The pieces of `s` between the occurrences of `sep` (what `str::split`
/// with a character gives): one more piece than there are separators.
pub open spec fn split_on(s: Seq<char>, sep: char) -> Seq<Seq<char>>
    decreases s.len(),
{
    if s.len() == 0 {
        seq![Seq::empty()]
    } else {
        let p = split_on(s.drop_last(), sep);
        if s.last() == sep {
            p.push(Seq::empty())
        } else {
            p.update(p.len() - 1, p.last().push(s.last()))
        }
    }
}

/// The characters of each vector of a list.
pub open spec fn char_vecs_view(v: Seq<Vec<char>>) -> Seq<Seq<char>> {
    v.map_values(|x: Vec<char>| x@)
}

/// Splits the characters of a text at each `sep`.
pub fn split_chars(s: &str, sep: char) -> (r: Vec<Vec<char>>)
    ensures
        char_vecs_view(r@) == split_on(s@, sep),
{
    let cs = chars_of(s);
    let mut parts: Vec<Vec<char>> = Vec::new();
    let mut cur: Vec<char> = Vec::new();
    let mut i: usize = 0;
    while i < cs.len()
        invariant
            i <= cs@.len(),
            cs@ == s@,
            char_vecs_view(parts@).push(cur@) == split_on(cs@.take(i as int), sep),
        decreases cs.len() - i,
    {
        let c = cs[i];
        let ghost before = char_vecs_view(parts@).push(cur@);
        proof {
            assert(cs@.take(i + 1).drop_last() =~= cs@.take(i as int));
            assert(cs@.take(i + 1).last() == c);
        }
        if c == sep {
            let done = cur;
            parts.push(done);
            cur = Vec::new();
            proof {
                assert(char_vecs_view(parts@) =~= before);
                assert(char_vecs_view(parts@).push(cur@) =~= before.push(Seq::empty()));
            }
        } else {
            cur.push(c);
            proof {
                assert(char_vecs_view(parts@).push(cur@) =~= before.update(
                    before.len() - 1,
                    before.last().push(c),
                ));
            }
        }
        i = i + 1;
    }
    parts.push(cur);
    proof {
        assert(cs@.take(cs@.len() as int) =~= cs@);
    }
    parts
}

/// `str::parse::<i32>` on the characters `s[from..to]`.
pub fn parse_i32_chars(s: &[char], from: usize, to: usize) -> (r: Option<i32>)
    requires
        from <= to <= s@.len(),
    ensures
        match r {
            Some(v) => parse_signed(s@.subrange(from as int, to as int), i32::MIN as int, i32::MAX as int)
                == Some(v as int),
            None => parse_signed(s@.subrange(from as int, to as int), i32::MIN as int, i32::MAX as int)
                is None,
        },
{
    let ghost w = s@.subrange(from as int, to as int);
    if from < to && s[from] == '-' {
        proof {
            if all_digits(w.drop_first()) {
                lemma_decimal_nonneg(w.drop_first());
            }
            assert(w[0] == '-');
            assert(w.drop_first() =~= s@.subrange(from + 1, to as int));
        }
        match parse_digits(s, from + 1, to) {
            Some(v) => {
                if v <= 2147483648 {
                    let n: i64 = 0i64 - (v as i64);
                    proof {
                        assert(w.len() > 0 && w[0] == '-');
                        assert(n as int == -(v as int));
                        assert((n as i32) as int == n as int);
                    }
                    Some(n as i32)
                } else {
                    None
                }
            },
            None => None,
        }
    } else {
        proof {
            if from < to {
                assert(w[0] == s@[from as int]);
            }
        }
        match parse_u64_chars(s, from, to) {
            Some(v) => {
                if v <= 2147483647 {
                    Some(v as i32)
                } else {
                    None
                }
            },
            None => None,
        }
    }
}

/// `str::parse::<u32>` on the characters `s[from..to]`.
pub fn parse_u32_chars(s: &[char], from: usize, to: usize) -> (r: Option<u32>)
    requires
        from <= to <= s@.len(),
    ensures
        match r {
            Some(v) => parse_unsigned(s@.subrange(from as int, to as int), u32::MAX as int) == Some(
                v as int,
            ),
            None => parse_unsigned(s@.subrange(from as int, to as int), u32::MAX as int) is None,
        },
{
    match parse_u64_chars(s, from, to) {
        Some(v) => {
            if v <= 4294967295 {
                Some(v as u32)
            } else {
                None
            }
        },
        None => None,
    }
}

/// What an input box shows of a value: one `*` per character for a password,
/// the value itself otherwise.
pub open spec fn masked(value: Seq<char>, is_password: bool) -> Seq<char> {
    if is_password && value.len() > 0 {
        Seq::new(value.len(), |i: int| '*')
    } else {
        value
    }
}

/// The text an input box shows: the (masked) value, or the placeholder when
/// there is nothing to show (second result `true`).
pub fn input_display(value: &str, placeholder: &str, is_password: bool) -> (r: (String, bool))
    ensures
        r.1 == (value@.len() == 0),
        r.0@ == if value@.len() == 0 {
            placeholder@
        } else {
            masked(value@, is_password)
        },
{
    let n = value.unicode_len();
    if n == 0 {
        return (String::from_str(placeholder), true);
    }
    if !is_password {
        return (String::from_str(value), false);
    }
    let mut s = String::new();
    let mut i: usize = 0;
    while i < n
        invariant
            i <= n,
            n == value@.len(),
            s@ == Seq::new(i as nat, |k: int| '*'),
        decreases n - i,
    {
        push_char(&mut s, '*');
        proof {
            assert(s@ =~= Seq::new((i + 1) as nat, |k: int| '*'));
        }
        i = i + 1;
    }
    (s, false)
}

} // verus!

verus! {

/// The concatenation of two texts.
pub fn concat_str(a: &str, b: &str) -> (r: String)
    ensures
        r@ == a@ + b@,
{
    let mut r = String::from_str(a);
    let cs = chars_of(b);
    let mut i: usize = 0;
    while i < cs.len()
        invariant
            i <= cs@.len(),
            cs@ == b@,
            r@ == a@ + cs@.take(i as int),
        decreases cs.len() - i,
    {
        push_char(&mut r, cs[i]);
        proof {
            assert(a@ + cs@.take(i + 1) =~= (a@ + cs@.take(i as int)).push(cs@[i as int]));
        }
        i = i + 1;
    }
    proof {
        assert(cs@.take(cs@.len() as int) =~= cs@);
    }
    r
}

} // verus!

verus! {

/// The decimal representation of a signed number (what `to_string` gives).
pub open spec fn signed_decimal(n: int) -> Seq<char> {
    if n < 0 {
        seq!['-'] + decimal_digits((-n) as nat)
    } else {
        decimal_digits(n as nat)
    }
}

/// The decimal representation of a signed number.
pub fn i64_to_string(n: i64) -> (r: String)
    ensures
        r@ == signed_decimal(n as int),
{
    if n < 0 {
        let m: u64 = if n == i64::MIN {
            9223372036854775808u64
        } else {
            (0i64 - n) as u64
        };
        let mut head = String::new();
        push_char(&mut head, '-');
        proof {
            assert(head@ =~= seq!['-']);
            assert(m as int == -(n as int));
        }
        concat_str(head.as_str(), u64_to_string(m).as_str())
    } else {
        u64_to_string(n as u64)
    }
}

/// The first `n` characters of a text (all of it when shorter).
pub fn take_chars(s: &str, n: usize) -> (r: String)
    ensures
        r@ == if s@.len() <= n {
            s@
        } else {
            s@.take(n as int)
        },
{
    let cs = chars_of(s);
    let k = if cs.len() <= n {
        cs.len()
    } else {
        n
    };
    proof {
        assert(cs@.subrange(0, cs@.len() as int) =~= cs@);
        assert(cs@.subrange(0, n as int) =~= cs@.take(n as int));
    }
    string_of(cs.as_slice(), 0, k)
}

} // verus!

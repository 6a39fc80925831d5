//! Search in the UTF-8 bytes of a text, and the character boundaries of
//! those bytes.
use vstd::prelude::*;

use vstd::utf8::{
    encode_utf8, encode_utf8_valid_utf8, is_char_boundary, is_char_boundary_iff_not_is_continuation_byte,
    is_char_boundary_start_end_of_seq, is_continuation_byte, valid_utf8,
};

verus! {

/// ASCII lower case of a character; other characters are left as they are.
pub open spec fn ascii_lower(c: char) -> char {
    if 'A' <= c && c <= 'Z' {
        ((c as u32) + 32) as char
    } else {
        c
    }
}

/// ASCII lower case of a character.
pub fn to_lower(c: char) -> (r: char)
    ensures
        r == ascii_lower(c),
{
    if 'A' <= c && c <= 'Z' {
        let b: u8 = (c as u32 + 32) as u8;
        b as char
    } else {
        c
    }
}

/// `needle` occurs in `hay` at byte position `i`.
pub open spec fn bytes_at(hay: Seq<u8>, needle: Seq<u8>, i: int) -> bool {
    &&& 0 <= i
    &&& i + needle.len() <= hay.len()
    &&& forall|k: int| 0 <= k < needle.len() ==> #[trigger] hay[i + k] == needle[k]
}

/// The first byte position at or after `from` where `needle` occurs in
/// `hay` (what `str::find` gives on `hay[from..]`, counted from the start).
pub open spec fn find_b(hay: Seq<u8>, needle: Seq<u8>, from: int) -> Option<int>
    decreases hay.len() - from,
{
    if from < 0 || from + needle.len() > hay.len() {
        None
    } else if bytes_at(hay, needle, from) {
        Some(from)
    } else {
        find_b(hay, needle, from + 1)
    }
}

/// The smaller of two optional positions.
pub open spec fn min_pos(a: Option<int>, b: Option<int>) -> Option<int> {
    match (a, b) {
        (Some(x), Some(y)) => Some(if x <= y { x } else { y }),
        (Some(x), None) => Some(x),
        (None, Some(y)) => Some(y),
        (None, None) => None,
    }
}

/// An optional index as an optional integer.
pub open spec fn opt_int(r: Option<usize>) -> Option<int> {
    match r {
        Some(i) => Some(i as int),
        None => None,
    }
}

/// Every position reported by `find_b` is an occurrence at or after `from`.
pub proof fn lemma_find_b_occurs(hay: Seq<u8>, needle: Seq<u8>, from: int)
    ensures
        find_b(hay, needle, from) matches Some(i) ==> from <= i && bytes_at(hay, needle, i),
    decreases hay.len() - from,
{
    if from < 0 || from + needle.len() > hay.len() {
    } else if bytes_at(hay, needle, from) {
    } else {
        lemma_find_b_occurs(hay, needle, from + 1);
    }
}

/// Whether `needle` occurs at byte position `i` of `hay`.
pub fn bytes_at_exec(hay: &[u8], needle: &[u8], i: usize) -> (r: bool)
    ensures
        r == bytes_at(hay@, needle@, i as int),
{
    if needle.len() > hay.len() || i > hay.len() - needle.len() {
        return false;
    }
    let mut k: usize = 0;
    while k < needle.len()
        invariant
            i + needle@.len() <= hay@.len(),
            hay@.len() == hay.len(),
            k <= needle@.len(),
            forall|j: int| 0 <= j < k ==> #[trigger] hay@[i + j] == needle@[j],
        decreases needle.len() - k,
    {
        if hay[i + k] != needle[k] {
            return false;
        }
        k = k + 1;
    }
    true
}

/// The first byte position at or after `from` where `needle` occurs in `hay`.
pub fn find_bytes(hay: &[u8], needle: &[u8], from: usize) -> (r: Option<usize>)
    ensures
        opt_int(r) == find_b(hay@, needle@, from as int),
{
    let mut i = from;
    while i <= hay.len() && needle.len() <= hay.len() - i
        invariant
            from <= i,
            find_b(hay@, needle@, from as int) == find_b(hay@, needle@, i as int),
        decreases hay.len() + 1 - i,
    {
        if bytes_at_exec(hay, needle, i) {
            return Some(i);
        }
        i = i + 1;
    }
    None
}

/// The first byte position at or after `from` where either of two needles
/// occurs.
pub fn find_either(hay: &[u8], from: usize, a: &[u8], b: &[u8]) -> (r: Option<usize>)
    ensures
        opt_int(r) == min_pos(find_b(hay@, a@, from as int), find_b(hay@, b@, from as int)),
{
    let x = find_bytes(hay, a, from);
    let y = find_bytes(hay, b, from);
    match (x, y) {
        (Some(p), Some(q)) => Some(if p <= q { p } else { q }),
        (Some(p), None) => Some(p),
        (None, Some(q)) => Some(q),
        (None, None) => None,
    }
}

/// Byte position `i` starts a character of the UTF-8 text `b`, or is its
/// end: where a string may be cut.
pub open spec fn byte_boundary(b: Seq<u8>, i: int) -> bool {
    &&& 0 <= i <= b.len()
    &&& (i == b.len() || !is_continuation_byte(b[i]))
}

/// Whether a string may be cut at byte position `i`.
pub fn boundary_exec(b: &[u8], i: usize) -> (r: bool)
    ensures
        r == byte_boundary(b@, i as int),
{
    i <= b.len() && (i == b.len() || !(0x80 <= b[i] && b[i] <= 0xbf))
}

/// On UTF-8 bytes, `byte_boundary` is the standard library's character
/// boundary.
pub proof fn lemma_byte_boundary(b: Seq<u8>, i: int)
    requires
        valid_utf8(b),
    ensures
        byte_boundary(b, i) <==> is_char_boundary(b, i),
{
    is_char_boundary_start_end_of_seq(b);
    if 0 <= i < b.len() {
        is_char_boundary_iff_not_is_continuation_byte(b, i);
    }
}

/// The bytes of a text are UTF-8.
pub proof fn lemma_encoded_valid(s: Seq<char>)
    ensures
        valid_utf8(encode_utf8(s)),
{
    encode_utf8_valid_utf8(s);
}

} // verus!

//! WebDAV (NAS) support: reading PROPFIND responses, building request URLs
//! and judging the status of a reply.
use vstd::prelude::*;

use vstd::string::StringSliceAdditionalSpecFns;
use vstd::utf8::{decode_utf8, encode_utf8, encode_utf8_decode_utf8, is_ascii_chars};

use crate::scan::{
    ascii_lower, boundary_exec, byte_boundary, find_b, find_bytes, find_either, lemma_byte_boundary,
    lemma_encoded_valid, lemma_find_b_occurs, min_pos,
};
use crate::text::{
    chars_of, concat_str, decimal_digits, parse_u64_chars, parse_unsigned, push_char, string_of, trim,
    trimmed, u64_to_string,
};

verus! {

// ==================== percent decoding (urlencoding crate) ====================

/// What `urlencoding::decode` gives for a string: `None` when the decoded
/// bytes are not UTF-8.
pub uninterp spec fn percent_decoded(s: Seq<char>) -> Option<Seq<char>>;

/// The characters of an optional string.
pub open spec fn opt_string_view(o: Option<String>) -> Option<Seq<char>> {
    match o {
        Some(s) => Some(s@),
        None => None,
    }
}

/// `urlencoding::decode`. Its result is a function of its argument alone
/// (named `percent_decoded`); the source also shows that a string without
/// `%` comes back unchanged. Nothing else about the decoding is claimed.
#[verifier::external_body]
fn url_decode(s: &str) -> (r: Option<String>)
    ensures
        opt_string_view(r) == percent_decoded(s@),
        opt_string_view(r) == Some(s@) || s@.contains('%'),
{
    match urlencoding::decode(s) {
        Ok(d) => Some(d.into_owned()),
        Err(_) => None,
    }
}

// ==================== letter case (standard library) ====================

/// What `str::to_lowercase` gives for a text (Unicode lower case; a
/// character may become several, of another UTF-8 length).
pub uninterp spec fn lowercased(s: Seq<char>) -> Seq<char>;

/// `str::to_lowercase`. Its result depends on the text alone, named
/// `lowercased`; for an ASCII text it is the text with `A`..`Z` made
/// `a`..`z` (the lower case of an ASCII letter is that letter's ASCII lower
/// case, and other ASCII characters have none). Nothing more of Unicode's
/// case mapping is claimed.
#[verifier::external_body]
fn lowercase(s: &str) -> (r: String)
    ensures
        r@ == lowercased(s@),
        is_ascii_chars(s@) ==> r@ == s@.map_values(|c: char| ascii_lower(c)),
{
    s.to_lowercase()
}

/// The lower case of a text: an ASCII text with its letters made lower
/// case, any other text as `str::to_lowercase` gives it.
pub open spec fn lower_text(s: Seq<char>) -> Seq<char> {
    if is_ascii_chars(s) {
        s.map_values(|c: char| ascii_lower(c))
    } else {
        lowercased(s)
    }
}

/// The UTF-8 bytes of the lower case of the text whose bytes are `b`.
pub open spec fn lower_bytes(b: Seq<u8>) -> Seq<u8> {
    encode_utf8(lower_text(decode_utf8(b)))
}

// ==================== tags ====================

/// `<d:TAG>`
pub open spec fn open_tag_ns(t: Seq<u8>) -> Seq<u8> {
    seq![60u8, 100u8, 58u8] + t + seq![62u8]
}

/// `<TAG>`
pub open spec fn open_tag_plain(t: Seq<u8>) -> Seq<u8> {
    seq![60u8] + t + seq![62u8]
}

/// `<d:TAG ` (a tag with attributes)
pub open spec fn open_tag_ns_attr(t: Seq<u8>) -> Seq<u8> {
    seq![60u8, 100u8, 58u8] + t + seq![32u8]
}

/// `<TAG ` (a tag with attributes)
pub open spec fn open_tag_plain_attr(t: Seq<u8>) -> Seq<u8> {
    seq![60u8] + t + seq![32u8]
}

/// `</d:TAG>`
pub open spec fn close_tag_ns(t: Seq<u8>) -> Seq<u8> {
    seq![60u8, 47u8, 100u8, 58u8] + t + seq![62u8]
}

/// `</TAG>`
pub open spec fn close_tag_plain(t: Seq<u8>) -> Seq<u8> {
    seq![60u8, 47u8] + t + seq![62u8]
}

/// The opening patterns tried in turn for a tag.
pub open spec fn open_patterns(t: Seq<u8>) -> Seq<Seq<u8>> {
    seq![open_tag_ns(t), open_tag_plain(t), open_tag_ns_attr(t), open_tag_plain_attr(t)]
}

/// What looking for one opening pattern of a tag in a block finds.
pub enum TagProbe {
    /// The pattern does not occur.
    Absent,
    /// The pattern occurs but no `>` follows it: the search stops.
    Cut,
    /// The pattern occurs but no closing tag follows it.
    Unclosed,
    /// The trimmed text between the opening and the closing tag.
    Content(Seq<char>),
}

/// The trimmed text of the block's bytes `cs..e`, or `None` where the
/// standard library refuses that cut (it panics there).
pub open spec fn content_at(bb: Seq<u8>, cs: int, e: int) -> Option<TagProbe> {
    if cs <= e && byte_boundary(bb, cs) && byte_boundary(bb, e) {
        Some(TagProbe::Content(trim(decode_utf8(bb.subrange(cs, e)))))
    } else {
        None
    }
}

/// One opening pattern looked for in a block whose bytes are `bb` and whose
/// lower case has the bytes `lb`: the pattern and the closing tags are
/// found in `lb`, and their byte positions cut `bb` (and `lb`), as
/// `str` indexing does. `None` where such a cut falls inside a character
/// or past the end (the standard library panics there).
pub open spec fn probe(bb: Seq<u8>, lb: Seq<u8>, pattern: Seq<u8>, t: Seq<u8>) -> Option<TagProbe> {
    match find_b(lb, pattern, 0) {
        None => Some(TagProbe::Absent),
        Some(si) => if !byte_boundary(bb, si) {
            None
        } else {
            match find_b(bb, seq![62u8], si) {
                None => Some(TagProbe::Cut),
                Some(g) => {
                    let cs = g + 1;
                    if !byte_boundary(lb, cs) {
                        None
                    } else {
                        match find_b(lb, close_tag_ns(t), cs) {
                            Some(e) => content_at(bb, cs, e),
                            None => match find_b(lb, close_tag_plain(t), cs) {
                                Some(e) => content_at(bb, cs, e),
                                None => Some(TagProbe::Unclosed),
                            },
                        }
                    }
                },
            }
        },
    }
}

/// The content of tag `t` found with the first of `patterns` that yields
/// one (`Some(None)`: none does); `None` where a cut panics.
pub open spec fn content_by_patterns(
    bb: Seq<u8>,
    lb: Seq<u8>,
    t: Seq<u8>,
    patterns: Seq<Seq<u8>>,
) -> Option<Option<Seq<char>>>
    decreases patterns.len(),
{
    if patterns.len() == 0 {
        Some(None)
    } else {
        match probe(bb, lb, patterns[0], t) {
            None => None,
            Some(TagProbe::Content(c)) => Some(Some(c)),
            Some(TagProbe::Cut) => Some(None),
            Some(_) => content_by_patterns(bb, lb, t, patterns.drop_first()),
        }
    }
}

/// The trimmed content of tag `t` (lower case) in a block given by its
/// bytes and the bytes of its lower case, the prefix `d:` being optional.
pub open spec fn tag_content(bb: Seq<u8>, lb: Seq<u8>, t: Seq<u8>) -> Option<Option<Seq<char>>> {
    content_by_patterns(bb, lb, t, open_patterns(t))
}

/// The tag names looked for, in lower case.
pub open spec fn href_tag() -> Seq<u8> {
    seq![104u8, 114u8, 101u8, 102u8]
}

pub open spec fn displayname_tag() -> Seq<u8> {
    seq![100u8, 105u8, 115u8, 112u8, 108u8, 97u8, 121u8, 110u8, 97u8, 109u8, 101u8]
}

pub open spec fn contentlength_tag() -> Seq<u8> {
    seq![103u8, 101u8, 116u8, 99u8, 111u8, 110u8, 116u8, 101u8, 110u8, 116u8, 108u8, 101u8, 110u8, 103u8, 116u8, 104u8]
}

/// The opening of a `<collection/>` element, with and without the `d:` prefix.
pub open spec fn collection_open_ns() -> Seq<u8> {
    seq![60u8, 100u8, 58u8, 99u8, 111u8, 108u8, 108u8, 101u8, 99u8, 116u8, 105u8, 111u8, 110u8]
}

pub open spec fn collection_open_plain() -> Seq<u8> {
    seq![60u8, 99u8, 111u8, 108u8, 108u8, 101u8, 99u8, 116u8, 105u8, 111u8, 110u8]
}

pub open spec fn response_open_ns() -> Seq<u8> {
    seq![60u8, 100u8, 58u8, 114u8, 101u8, 115u8, 112u8, 111u8, 110u8, 115u8, 101u8]
}

pub open spec fn response_open_plain() -> Seq<u8> {
    seq![60u8, 114u8, 101u8, 115u8, 112u8, 111u8, 110u8, 115u8, 101u8]
}

pub open spec fn response_close_ns() -> Seq<u8> {
    seq![60u8, 47u8, 100u8, 58u8, 114u8, 101u8, 115u8, 112u8, 111u8, 110u8, 115u8, 101u8, 62u8]
}

pub open spec fn response_close_plain() -> Seq<u8> {
    seq![60u8, 47u8, 114u8, 101u8, 115u8, 112u8, 111u8, 110u8, 115u8, 101u8, 62u8]
}

/// One entry of a directory listing: name, href, whether it is a directory,
/// and its size in bytes.
pub type EntryView = (Seq<char>, Seq<char>, bool, int);

/// The text of an optional tag content: empty when the tag is missing.
pub open spec fn or_empty(c: Option<Seq<char>>) -> Seq<char> {
    match c {
        Some(x) => x,
        None => Seq::empty(),
    }
}

/// The entry described by one `<response>` block, given by its bytes;
/// `None` where reading it panics.
#[verifier::opaque]
pub open spec fn entry_of(bb: Seq<u8>) -> Option<EntryView> {
    let lb = lower_bytes(bb);
    match (
        tag_content(bb, lb, href_tag()),
        tag_content(bb, lb, displayname_tag()),
        tag_content(bb, lb, contentlength_tag()),
    ) {
        (Some(h), Some(d), Some(z)) => {
            let href = or_empty(h);
            let size = match parse_unsigned(or_empty(z), u64::MAX as int) {
                Some(v) => v,
                None => 0,
            };
            let is_dir = find_b(lb, collection_open_ns(), 0) is Some || find_b(
                lb,
                collection_open_plain(),
                0,
            ) is Some;
            Some((entry_name(or_empty(d), href), href, is_dir, size))
        },
        _ => None,
    }
}

/// The end of the block handed to the entry reading: 20 bytes past the
/// start of the closing tag, or the end of the text.
pub open spec fn block_end(xb: Seq<u8>, end: int) -> int {
    if xb.len() - end < 20 {
        xb.len() as int
    } else {
        end + 20
    }
}

/// The next `<response>` block at or after byte `from`: its start, the
/// start of its closing tag and the end of the bytes handed to the entry
/// reading. The tags are found in the lower case `lx` of the text and cut
/// the text's own bytes `xb`. `Some(None)` when no further block is found;
/// `None` where a cut falls inside a character or past the end (the
/// standard library panics there).
pub open spec fn next_block(xb: Seq<u8>, lx: Seq<u8>, from: int) -> Option<Option<(int, int, int)>> {
    if !byte_boundary(lx, from) {
        None
    } else {
        match min_pos(find_b(lx, response_open_ns(), from), find_b(lx, response_open_plain(), from)) {
            None => Some(None),
            Some(start) => if !byte_boundary(lx, start + 1) {
                None
            } else {
                match min_pos(
                    find_b(lx, response_close_ns(), start + 1),
                    find_b(lx, response_close_plain(), start + 1),
                ) {
                    None => Some(None),
                    Some(end) => if end > xb.len() {
                        None
                    } else {
                        let be = block_end(xb, end);
                        if !(byte_boundary(xb, start) && byte_boundary(xb, be)) {
                            None
                        } else {
                            Some(Some((start, end, be)))
                        }
                    },
                }
            }
        }
    }
}

/// A block found from `from` on starts there or later, its closing tag
/// comes after its start and inside the lower-case text, and the block is
/// a range of the text.
pub proof fn lemma_next_block(xb: Seq<u8>, lx: Seq<u8>, from: int)
    ensures
        next_block(xb, lx, from) matches Some(Some((start, end, be))) ==> from <= start < end
            && end < lx.len() && start <= be <= xb.len(),
{
    lemma_find_b_occurs(lx, response_open_ns(), from);
    lemma_find_b_occurs(lx, response_open_plain(), from);
    if byte_boundary(lx, from) {
        match min_pos(find_b(lx, response_open_ns(), from), find_b(lx, response_open_plain(), from)) {
            None => {},
            Some(start) => {
                lemma_find_b_occurs(lx, response_close_ns(), start + 1);
                lemma_find_b_occurs(lx, response_close_plain(), start + 1);
            },
        }
    }
}

/// The entries of a PROPFIND response, read from byte `from` on (see
/// `next_block`); entries without a name are skipped, and `None` where a
/// cut panics.
pub open spec fn propfind_entries(xb: Seq<u8>, lx: Seq<u8>, from: int) -> Option<Seq<EntryView>>
    decreases lx.len() - from,
{
    match next_block(xb, lx, from) {
        None => None,
        Some(None) => Some(Seq::empty()),
        Some(Some((start, end, be))) => {
            proof {
                lemma_next_block(xb, lx, from);
            }
            match (entry_of(xb.subrange(start, be)), propfind_entries(xb, lx, end + 1)) {
                (Some(e), Some(rest)) => Some(
                    if e.0.len() > 0 {
                        seq![e] + rest
                    } else {
                        rest
                    },
                ),
                _ => None,
            }
        },
    }
}

/// What reading a PROPFIND response gives: its entries, or `None` where
/// the reading panics (a position found in the lower-case text cuts the
/// text inside a character or past its end).
pub open spec fn propfind_result(xml: Seq<char>) -> Option<Seq<EntryView>> {
    propfind_entries(encode_utf8(xml), encode_utf8(lower_text(xml)), 0)
}


// ==================== PROPFIND responses ====================

/// `s` without its trailing `c` characters.
pub open spec fn strip_trailing(s: Seq<char>, c: char) -> Seq<char>
    decreases s.len(),
{
    if s.len() > 0 && s.last() == c {
        strip_trailing(s.drop_last(), c)
    } else {
        s
    }
}

/// The part of `s` after its last `c` (all of `s` when there is none).
pub open spec fn after_last(s: Seq<char>, c: char) -> Seq<char>
    decreases s.len(),
{
    if s.len() == 0 {
        s
    } else if s.last() == c {
        Seq::empty()
    } else {
        after_last(s.drop_last(), c).push(s.last())
    }
}

/// The last path segment of an href: `/a/b/` and `/a/b` both give `b`.
pub open spec fn last_segment(href: Seq<char>) -> Seq<char> {
    after_last(strip_trailing(href, '/'), '/')
}

/// The name shown for an entry: its display name, or else the last segment
/// of its href; percent-decoded when that decodes. A name without `%` is
/// kept as it is.
pub open spec fn entry_name(display_name: Seq<char>, href: Seq<char>) -> Seq<char> {
    let raw = if display_name.len() == 0 {
        last_segment(href)
    } else {
        display_name
    };
    if !raw.contains('%') {
        raw
    } else {
        match percent_decoded(raw) {
            Some(d) => d,
            None => raw,
        }
    }
}

/// The part after the last `/` of a text that ends in a `/` and then a
/// piece without `/` is that piece.
proof fn lemma_after_last_slash(p: Seq<char>, seg: Seq<char>)
    requires
        forall|i: int| 0 <= i < seg.len() ==> #[trigger] seg[i] != '/',
    ensures
        after_last(p + seq!['/'] + seg, '/') == seg,
    decreases seg.len(),
{
    let h = p + seq!['/'] + seg;
    if seg.len() == 0 {
        assert(h.last() == '/');
    } else {
        assert(h.drop_last() =~= p + seq!['/'] + seg.drop_last());
        assert(h.last() == seg.last());
        lemma_after_last_slash(p, seg.drop_last());
        assert(seg.drop_last().push(seg.last()) =~= seg);
    }
}

/// The last segment of an href `…/SEG` or `…/SEG/`, where `SEG` is not
/// empty and holds no `/`, is `SEG`.
pub proof fn lemma_last_segment(p: Seq<char>, seg: Seq<char>, trailing_slash: bool)
    requires
        seg.len() > 0,
        forall|i: int| 0 <= i < seg.len() ==> #[trigger] seg[i] != '/',
    ensures
        last_segment(
            p + seq!['/'] + seg + if trailing_slash {
                seq!['/']
            } else {
                Seq::<char>::empty()
            },
        ) == seg,
{
    let core = p + seq!['/'] + seg;
    let h = core + if trailing_slash {
        seq!['/']
    } else {
        Seq::<char>::empty()
    };
    assert(core.last() == seg.last());
    assert(seg[seg.len() - 1] != '/');
    if trailing_slash {
        assert(h.drop_last() =~= core);
        assert(strip_trailing(core, '/') == core);
    } else {
        assert(h =~= core);
    }
    assert(strip_trailing(h, '/') == core);
    lemma_after_last_slash(p, seg);
}

/// An entry is named by its display name whenever the server gives a
/// non-empty one, whatever its href (percent-decoded when it holds `%`);
/// only without a display name does the last segment of the href name it.
pub proof fn lemma_display_name_wins(display_name: Seq<char>, href: Seq<char>)
    ensures
        display_name.len() > 0 && !display_name.contains('%') ==> entry_name(display_name, href)
            == display_name,
        display_name.len() > 0 && display_name.contains('%') ==> entry_name(display_name, href)
            == match percent_decoded(display_name) {
            Some(d) => d,
            None => display_name,
        },
        display_name.len() > 0 ==> entry_name(display_name, href) == entry_name(
            display_name,
            Seq::empty(),
        ),
        display_name.len() == 0 && !last_segment(href).contains('%') ==> entry_name(
            display_name,
            href,
        ) == last_segment(href),
{
}

/// The entry read from a block is named by the block's non-empty display
/// name (one without `%`), and carries the block's href as it is.
pub proof fn lemma_entry_takes_display_name(bb: Seq<u8>, d: Seq<char>)
    requires
        tag_content(bb, lower_bytes(bb), displayname_tag()) == Some(Some(d)),
        d.len() > 0,
        !d.contains('%'),
    ensures
        entry_of(bb) matches Some(e) ==> e.0 == d,
        entry_of(bb) matches Some(e) ==> (tag_content(bb, lower_bytes(bb), href_tag()) matches Some(
            h,
        ) && e.1 == or_empty(h)),
{
    reveal(entry_of);
    lemma_display_name_wins(d, or_empty(tag_content(bb, lower_bytes(bb), href_tag())->0));
}

/// Every byte is ASCII.
pub open spec fn ascii_bytes(b: Seq<u8>) -> bool {
    forall|i: int| 0 <= i < b.len() ==> #[trigger] b[i] < 128
}

/// An ASCII letter's lower case is ASCII.
proof fn lemma_ascii_lower_is_ascii(c: char)
    requires
        c <= '\u{7f}',
    ensures
        ascii_lower(c) <= '\u{7f}',
{
    if 'A' <= c && c <= 'Z' {
        let u = (c as u32) + 32;
        assert(97 <= u <= 122);
        assert((u as char) as u32 == u);
    }
}

/// The bytes of an ASCII text are its characters, one byte each.
proof fn lemma_ascii_encoding(c: Seq<char>)
    requires
        is_ascii_chars(c),
    ensures
        encode_utf8(c).len() == c.len(),
        ascii_bytes(encode_utf8(c)),
        forall|i: int| 0 <= i < c.len() ==> #[trigger] encode_utf8(c)[i] == c[i] as u8,
{
    vstd::utf8::is_ascii_chars_encode_utf8(c);
    assert forall|i: int| 0 <= i < c.len() implies #[trigger] encode_utf8(c)[i] < 128 by {
        assert(c[i] <= '\u{7f}');
    }
}

/// The lower case of an ASCII text is ASCII, as long as the text.
proof fn lemma_ascii_lower_text(c: Seq<char>)
    requires
        is_ascii_chars(c),
    ensures
        is_ascii_chars(lower_text(c)),
        lower_text(c).len() == c.len(),
{
    let l = c.map_values(|x: char| ascii_lower(x));
    assert forall|i: int| 0 <= i < l.len() implies '\0' <= #[trigger] l[i] <= '\u{7f}' by {
        assert(c[i] <= '\u{7f}');
        lemma_ascii_lower_is_ascii(c[i]);
    }
}

/// Where all bytes are ASCII, every position up to the end is a boundary.
proof fn lemma_ascii_boundary(b: Seq<u8>, i: int)
    requires
        ascii_bytes(b),
        0 <= i <= b.len(),
    ensures
        byte_boundary(b, i),
{
    if i < b.len() {
        assert(b[i] < 128);
    }
}

/// In an ASCII block with an ASCII lower case of the same length, looking
/// for a pattern never cuts inside a character.
proof fn lemma_ascii_probe(bb: Seq<u8>, lb: Seq<u8>, p: Seq<u8>, t: Seq<u8>)
    requires
        ascii_bytes(bb),
        ascii_bytes(lb),
        bb.len() == lb.len(),
    ensures
        probe(bb, lb, p, t) is Some,
{
    lemma_find_b_occurs(lb, p, 0);
    match find_b(lb, p, 0) {
        None => {},
        Some(si) => {
            lemma_ascii_boundary(bb, si);
            lemma_find_b_occurs(bb, seq![62u8], si);
            match find_b(bb, seq![62u8], si) {
                None => {},
                Some(g) => {
                    let cs = g + 1;
                    lemma_ascii_boundary(lb, cs);
                    lemma_ascii_boundary(bb, cs);
                    lemma_find_b_occurs(lb, close_tag_ns(t), cs);
                    lemma_find_b_occurs(lb, close_tag_plain(t), cs);
                    match find_b(lb, close_tag_ns(t), cs) {
                        Some(e) => {
                            lemma_ascii_boundary(bb, e);
                        },
                        None => match find_b(lb, close_tag_plain(t), cs) {
                            Some(e) => {
                                lemma_ascii_boundary(bb, e);
                            },
                            None => {},
                        },
                    }
                },
            }
        },
    }
}

proof fn lemma_ascii_patterns(bb: Seq<u8>, lb: Seq<u8>, t: Seq<u8>, pats: Seq<Seq<u8>>)
    requires
        ascii_bytes(bb),
        ascii_bytes(lb),
        bb.len() == lb.len(),
    ensures
        content_by_patterns(bb, lb, t, pats) is Some,
    decreases pats.len(),
{
    if pats.len() > 0 {
        lemma_ascii_probe(bb, lb, pats[0], t);
        lemma_ascii_patterns(bb, lb, t, pats.drop_first());
    }
}

/// The entry of a block written in ASCII is always read.
proof fn lemma_ascii_entry(c: Seq<char>)
    requires
        is_ascii_chars(c),
    ensures
        entry_of(encode_utf8(c)) is Some,
{
    reveal(entry_of);
    let bb = encode_utf8(c);
    vstd::utf8::encode_utf8_decode_utf8(c);
    lemma_ascii_encoding(c);
    lemma_ascii_lower_text(c);
    lemma_ascii_encoding(lower_text(c));
    let lb = lower_bytes(bb);
    assert(lb == encode_utf8(lower_text(c)));
    lemma_ascii_patterns(bb, lb, href_tag(), open_patterns(href_tag()));
    lemma_ascii_patterns(bb, lb, displayname_tag(), open_patterns(displayname_tag()));
    lemma_ascii_patterns(bb, lb, contentlength_tag(), open_patterns(contentlength_tag()));
}

proof fn lemma_ascii_entries(xml: Seq<char>, from: int)
    requires
        is_ascii_chars(xml),
        0 <= from <= xml.len(),
    ensures
        propfind_entries(encode_utf8(xml), encode_utf8(lower_text(xml)), from) is Some,
    decreases xml.len() - from,
{
    let xb = encode_utf8(xml);
    let lx = encode_utf8(lower_text(xml));
    lemma_ascii_encoding(xml);
    lemma_ascii_lower_text(xml);
    lemma_ascii_encoding(lower_text(xml));
    lemma_ascii_boundary(lx, from);
    lemma_next_block(xb, lx, from);
    lemma_find_b_occurs(lx, response_open_ns(), from);
    lemma_find_b_occurs(lx, response_open_plain(), from);
    match min_pos(find_b(lx, response_open_ns(), from), find_b(lx, response_open_plain(), from)) {
        None => {},
        Some(start) => {
            lemma_ascii_boundary(lx, start + 1);
            lemma_find_b_occurs(lx, response_close_ns(), start + 1);
            lemma_find_b_occurs(lx, response_close_plain(), start + 1);
            match min_pos(
                find_b(lx, response_close_ns(), start + 1),
                find_b(lx, response_close_plain(), start + 1),
            ) {
                None => {},
                Some(end) => {
                    let be = block_end(xb, end);
                    lemma_ascii_boundary(xb, start);
                    lemma_ascii_boundary(xb, be);
                    let sub = xml.subrange(start, be);
                    assert(is_ascii_chars(sub)) by {
                        assert forall|i: int| 0 <= i < sub.len() implies '\0' <= #[trigger] sub[i]
                            <= '\u{7f}' by {
                            assert(sub[i] == xml[start + i]);
                        }
                    }
                    lemma_ascii_encoding(sub);
                    assert(xb.subrange(start, be) =~= encode_utf8(sub));
                    lemma_ascii_entry(sub);
                    lemma_ascii_entries(xml, end + 1);
                },
            }
        },
    }
}

/// A response written in ASCII is always read: none of the cuts made while
/// reading it falls inside a character.
pub proof fn lemma_ascii_response_reads(xml: Seq<char>)
    requires
        is_ascii_chars(xml),
    ensures
        propfind_result(xml) is Some,
{
    lemma_ascii_entries(xml, 0);
}

/// The view of an entry as returned.
pub open spec fn entry_view(e: (String, String, bool, u64)) -> EntryView {
    (e.0@, e.1@, e.2, e.3 as int)
}

/// The views of a list of entries.
pub open spec fn entries_view(v: Seq<(String, String, bool, u64)>) -> Seq<EntryView> {
    v.map_values(|e: (String, String, bool, u64)| entry_view(e))
}

/// Position just past the last `c` in `s[..to]`, or 0 when there is none.
fn after_last_pos(s: &[char], to: usize, c: char) -> (p: usize)
    requires
        to <= s@.len(),
    ensures
        p <= to,
        after_last(s@.subrange(0, to as int), c) == s@.subrange(p as int, to as int),
    decreases to,
{
    if to == 0 {
        0
    } else if s[to - 1] == c {
        proof {
            assert(s@.subrange(0, to as int).last() == c);
        }
        to
    } else {
        let p = after_last_pos(s, to - 1, c);
        proof {
            let w = s@.subrange(0, to as int);
            assert(w.drop_last() =~= s@.subrange(0, to - 1));
            assert(s@.subrange(p as int, to - 1).push(s@[to - 1]) =~= s@.subrange(
                p as int,
                to as int,
            ));
        }
        p
    }
}

/// Length of `s[..to]` once its trailing `c` characters are removed.
fn strip_trailing_len(s: &[char], to: usize, c: char) -> (n: usize)
    requires
        to <= s@.len(),
    ensures
        n <= to,
        strip_trailing(s@.subrange(0, to as int), c) == s@.subrange(0, n as int),
    decreases to,
{
    if to > 0 && s[to - 1] == c {
        proof {
            assert(s@.subrange(0, to as int).drop_last() =~= s@.subrange(0, to - 1));
        }
        strip_trailing_len(s, to - 1, c)
    } else {
        to
    }
}

/// The last segment of an href, as characters.
fn last_segment_chars(h: &[char]) -> (r: Vec<char>)
    ensures
        r@ == last_segment(h@),
{
    let n = strip_trailing_len(h, h.len(), '/');
    proof {
        assert(h@.subrange(0, h@.len() as int) =~= h@);
    }
    let p = after_last_pos(h, n, '/');
    let mut r: Vec<char> = Vec::new();
    let mut i = p;
    while i < n
        invariant
            p <= i <= n <= h@.len(),
            r@ == h@.subrange(p as int, i as int),
        decreases n - i,
    {
        r.push(h[i]);
        i = i + 1;
    }
    r
}

/// The bytes `a..e` of a string, as a string (cut where `str` allows).
fn str_slice<'a>(s: &'a str, a: usize, e: usize) -> (r: &'a str)
    requires
        a <= e,
        byte_boundary(s.spec_bytes(), a as int),
        byte_boundary(s.spec_bytes(), e as int),
    ensures
        r.spec_bytes() == s.spec_bytes().subrange(a as int, e as int),
        r@ == decode_utf8(s.spec_bytes().subrange(a as int, e as int)),
{
    proof {
        lemma_encoded_valid(s@);
        lemma_byte_boundary(s.spec_bytes(), a as int);
    }
    let (_, rest) = s.split_at(a);
    proof {
        lemma_encoded_valid(rest@);
        assert(rest.spec_bytes() =~= s.spec_bytes().subrange(a as int, s.spec_bytes().len() as int));
        assert(byte_boundary(rest.spec_bytes(), (e - a) as int));
        lemma_byte_boundary(rest.spec_bytes(), (e - a) as int);
    }
    let (mid, _) = rest.split_at(e - a);
    proof {
        assert(mid.spec_bytes() =~= s.spec_bytes().subrange(a as int, e as int));
        encode_utf8_decode_utf8(mid@);
    }
    mid
}

fn tag_pattern(prefix_ns: bool, closing: bool, t: &[u8], last: u8) -> (p: Vec<u8>)
    ensures
        p@ == seq![60u8] + (if closing { seq![47u8] } else { Seq::<u8>::empty() }) + (if prefix_ns {
            seq![100u8, 58u8]
        } else {
            Seq::<u8>::empty()
        }) + t@ + seq![last],
{
    let mut p: Vec<u8> = Vec::new();
    p.push(60u8);
    if closing {
        p.push(47u8);
    }
    if prefix_ns {
        p.push(100u8);
        p.push(58u8);
    }
    let mut i: usize = 0;
    let ghost head = p@;
    while i < t.len()
        invariant
            i <= t@.len(),
            p@ == head + t@.subrange(0, i as int),
        decreases t.len() - i,
    {
        p.push(t[i]);
        i = i + 1;
    }
    p.push(last);
    proof {
        assert(t@.subrange(0, t@.len() as int) =~= t@);
    }
    p
}

/// An optional tag content as plain values.
pub open spec fn content_view(r: Option<Option<String>>) -> Option<Option<Seq<char>>> {
    match r {
        None => None,
        Some(None) => Some(None),
        Some(Some(s)) => Some(Some(s@)),
    }
}

/// Extracts the trimmed content of tag `t` (in lower case) from `block`,
/// whose bytes are `bb`; `lb` holds the bytes its lower case is searched
/// in. `None` where a cut falls inside a character or past the end.
fn extract_tag(block: &str, bb: &[u8], lb: &[u8], t: &[u8]) -> (r: Option<Option<String>>)
    requires
        bb@ == block.spec_bytes(),
    ensures
        content_view(r) == tag_content(bb@, lb@, t@),
{
    let p0 = tag_pattern(true, false, t, 62u8);
    let p1 = tag_pattern(false, false, t, 62u8);
    let p2 = tag_pattern(true, false, t, 32u8);
    let p3 = tag_pattern(false, false, t, 32u8);
    let e0 = tag_pattern(true, true, t, 62u8);
    let e1 = tag_pattern(false, true, t, 62u8);
    let gt: Vec<u8> = vec![62u8];
    proof {
        assert(p0@ =~= open_tag_ns(t@));
        assert(p1@ =~= open_tag_plain(t@));
        assert(p2@ =~= open_tag_ns_attr(t@));
        assert(p3@ =~= open_tag_plain_attr(t@));
        assert(e0@ =~= close_tag_ns(t@));
        assert(e1@ =~= close_tag_plain(t@));
        assert(gt@ =~= seq![62u8]);
    }
    let patterns = vec![p0, p1, p2, p3];
    let ghost pats = open_patterns(t@);
    let mut k: usize = 0;
    proof {
        assert(pats.subrange(0, 4) =~= pats);
    }
    while k < 4
        invariant
            k <= 4,
            bb@ == block.spec_bytes(),
            patterns@.len() == 4,
            pats.len() == 4,
            forall|j: int| 0 <= j < 4 ==> (#[trigger] patterns@[j])@ == pats[j],
            e0@ == close_tag_ns(t@),
            e1@ == close_tag_plain(t@),
            gt@ == seq![62u8],
            tag_content(bb@, lb@, t@) == content_by_patterns(bb@, lb@, t@, pats.subrange(k as int, 4)),
        decreases 4 - k,
    {
        let ghost rest = pats.subrange(k as int, 4);
        proof {
            assert(rest[0] == pats[k as int]);
            assert(rest.drop_first() =~= pats.subrange(k + 1, 4));
        }
        let pat = &patterns[k];
        match find_bytes(lb, pat.as_slice(), 0) {
            None => {},
            Some(si) => {
                if !boundary_exec(bb, si) {
                    return None;
                }
                match find_bytes(bb, gt.as_slice(), si) {
                    None => {
                        return Some(None);
                    },
                    Some(g) => {
                        proof {
                            lemma_find_b_occurs(bb@, gt@, si as int);
                            assert(g + 1 <= bb@.len());
                            assert(bb@.len() == bb.len());
                        }
                        let cs = g + 1;
                        if !boundary_exec(lb, cs) {
                            return None;
                        }
                        let end = match find_bytes(lb, e0.as_slice(), cs) {
                            Some(e) => Some(e),
                            None => find_bytes(lb, e1.as_slice(), cs),
                        };
                        match end {
                            Some(e) => {
                                proof {
                                    lemma_find_b_occurs(lb@, e0@, cs as int);
                                    lemma_find_b_occurs(lb@, e1@, cs as int);
                                }
                                if !(boundary_exec(bb, cs) && boundary_exec(bb, e)) {
                                    return None;
                                }
                                let c = str_slice(block, cs, e);
                                return Some(Some(trimmed(c)));
                            },
                            None => {},
                        }
                    },
                }
            },
        }
        k = k + 1;
    }
    Some(None)
}

/// An optional entry as plain values.
pub open spec fn opt_entry_view(r: Option<(String, String, bool, u64)>) -> Option<EntryView> {
    match r {
        Some(e) => Some(entry_view(e)),
        None => None,
    }
}

/// Reads the entry of one `<response>` block; `None` where that panics.
fn read_entry(block: &str) -> (r: Option<(String, String, bool, u64)>)
    ensures
        opt_entry_view(r) == entry_of(block.spec_bytes()),
{
    proof {
        reveal(entry_of);
    }
    let bb = block.as_bytes();
    let lower = lowercase(block);
    let lb = lower.as_str().as_bytes();
    proof {
        encode_utf8_decode_utf8(block@);
        assert(lb@ == lower_bytes(bb@));
    }
    let href_t: Vec<u8> = vec![104u8, 114u8, 101u8, 102u8];
    let dn_t: Vec<u8> = vec![100u8, 105u8, 115u8, 112u8, 108u8, 97u8, 121u8, 110u8, 97u8, 109u8, 101u8];
    let len_t: Vec<u8> = vec![
        103u8, 101u8, 116u8, 99u8, 111u8, 110u8, 116u8, 101u8, 110u8, 116u8, 108u8, 101u8, 110u8, 103u8, 116u8, 104u8,
    ];
    let coll_ns: Vec<u8> = vec![
        60u8, 100u8, 58u8, 99u8, 111u8, 108u8, 108u8, 101u8, 99u8, 116u8, 105u8, 111u8, 110u8,
    ];
    let coll_plain: Vec<u8> = vec![60u8, 99u8, 111u8, 108u8, 108u8, 101u8, 99u8, 116u8, 105u8, 111u8, 110u8];
    proof {
        assert(href_t@ =~= href_tag());
        assert(dn_t@ =~= displayname_tag());
        assert(len_t@ =~= contentlength_tag());
        assert(coll_ns@ =~= collection_open_ns());
        assert(coll_plain@ =~= collection_open_plain());
    }
    let h = match extract_tag(block, bb, lb, href_t.as_slice()) {
        Some(x) => x,
        None => {
            return None;
        },
    };
    let d = match extract_tag(block, bb, lb, dn_t.as_slice()) {
        Some(x) => x,
        None => {
            return None;
        },
    };
    let z = match extract_tag(block, bb, lb, len_t.as_slice()) {
        Some(x) => x,
        None => {
            return None;
        },
    };
    let href_s: String = match h {
        Some(x) => x,
        None => String::new(),
    };
    let dn_s: String = match d {
        Some(x) => x,
        None => String::new(),
    };
    let z_s: String = match z {
        Some(x) => x,
        None => String::new(),
    };
    let zc = chars_of(z_s.as_str());
    proof {
        assert(zc@.subrange(0, zc@.len() as int) =~= zc@);
    }
    let size: u64 = match parse_u64_chars(zc.as_slice(), 0, zc.len()) {
        Some(v) => v,
        None => 0,
    };
    let is_dir = find_bytes(lb, coll_ns.as_slice(), 0).is_some() || find_bytes(
        lb,
        coll_plain.as_slice(),
        0,
    ).is_some();
    let href = chars_of(href_s.as_str());
    let dn = chars_of(dn_s.as_str());
    let raw: Vec<char> = if dn.len() == 0 {
        last_segment_chars(href.as_slice())
    } else {
        dn
    };
    let raw_s = string_of(raw.as_slice(), 0, raw.len());
    proof {
        assert(raw@.subrange(0, raw@.len() as int) =~= raw@);
    }
    let name = match url_decode(raw_s.as_str()) {
        Some(x) => x,
        None => raw_s,
    };
    Some((name, href_s, is_dir, size))
}

/// The bounds of the next `<response>` block at or after `from`; see
/// `next_block`.
fn find_block(
    xb: &[u8],
    lx: &[u8],
    from: usize,
    open_ns: &Vec<u8>,
    open_plain: &Vec<u8>,
    close_ns: &Vec<u8>,
    close_plain: &Vec<u8>,
) -> (r: Option<Option<(usize, usize, usize)>>)
    requires
        open_ns@ == response_open_ns(),
        open_plain@ == response_open_plain(),
        close_ns@ == response_close_ns(),
        close_plain@ == response_close_plain(),
    ensures
        match r {
            None => next_block(xb@, lx@, from as int) is None,
            Some(None) => next_block(xb@, lx@, from as int) == Some(None::<(int, int, int)>),
            Some(Some((a, b, c))) => next_block(xb@, lx@, from as int) == Some(
                Some((a as int, b as int, c as int)),
            ),
        },
{
    if !boundary_exec(lx, from) {
        return None;
    }
    let start = match find_either(lx, from, open_ns.as_slice(), open_plain.as_slice()) {
        Some(s) => s,
        None => {
            return Some(None);
        },
    };
    proof {
        lemma_find_b_occurs(lx@, response_open_ns(), from as int);
        lemma_find_b_occurs(lx@, response_open_plain(), from as int);
        assert(start < lx@.len());
        assert(lx@.len() == lx.len());
    }
    if !boundary_exec(lx, start + 1) {
        return None;
    }
    let end = match find_either(lx, start + 1, close_ns.as_slice(), close_plain.as_slice()) {
        Some(e) => e,
        None => {
            return Some(None);
        },
    };
    if end > xb.len() {
        return None;
    }
    let tail = if xb.len() - end < 20 {
        xb.len() - end
    } else {
        20
    };
    let be = end + tail;
    if !(boundary_exec(xb, start) && boundary_exec(xb, be)) {
        return None;
    }
    Some(Some((start, end, be)))
}

/// Reads a PROPFIND response, giving `None` where the reading panics.
fn read_propfind(xml: &str) -> (r: Option<Vec<(String, String, bool, u64)>>)
    ensures
        match r {
            Some(v) => propfind_result(xml@) == Some(entries_view(v@)),
            None => propfind_result(xml@) is None,
        },
{
    let lower = lowercase(xml);
    read_propfind_lowered(xml, lower.as_str())
}

/// Reads a PROPFIND response `xml` whose lower case is `lower`: the
/// `<response>` blocks are found in `lower` and their byte positions cut
/// `xml` (see `propfind_entries`). `None` where a cut falls inside a
/// character or past the end, where `str` indexing panics.
#[verifier::rlimit(40)]
pub fn read_propfind_lowered(xml: &str, lower: &str) -> (r: Option<Vec<(String, String, bool, u64)>>)
    ensures
        match r {
            Some(v) => propfind_entries(xml.spec_bytes(), lower.spec_bytes(), 0) == Some(
                entries_view(v@),
            ),
            None => propfind_entries(xml.spec_bytes(), lower.spec_bytes(), 0) is None,
        },
{
    let xb = xml.as_bytes();
    let lx = lower.as_bytes();
    let open_ns: Vec<u8> = vec![60u8, 100u8, 58u8, 114u8, 101u8, 115u8, 112u8, 111u8, 110u8, 115u8, 101u8];
    let open_plain: Vec<u8> = vec![60u8, 114u8, 101u8, 115u8, 112u8, 111u8, 110u8, 115u8, 101u8];
    let close_ns: Vec<u8> = vec![
        60u8, 47u8, 100u8, 58u8, 114u8, 101u8, 115u8, 112u8, 111u8, 110u8, 115u8, 101u8, 62u8,
    ];
    let close_plain: Vec<u8> = vec![60u8, 47u8, 114u8, 101u8, 115u8, 112u8, 111u8, 110u8, 115u8, 101u8, 62u8];
    proof {
        assert(open_ns@ =~= response_open_ns());
        assert(open_plain@ =~= response_open_plain());
        assert(close_ns@ =~= response_close_ns());
        assert(close_plain@ =~= response_close_plain());
    }
    let ghost total = propfind_entries(xb@, lx@, 0);
    let mut entries: Vec<(String, String, bool, u64)> = Vec::new();
    let mut search_start: usize = 0;
    loop
        invariant
            xb@ == xml.spec_bytes(),
            lx@ == lower.spec_bytes(),
            total == propfind_entries(xml.spec_bytes(), lower.spec_bytes(), 0),
            open_ns@ == response_open_ns(),
            open_plain@ == response_open_plain(),
            close_ns@ == response_close_ns(),
            close_plain@ == response_close_plain(),
            search_start <= lx@.len() + 1,
            total == match propfind_entries(xb@, lx@, search_start as int) {
                Some(rest) => Some(entries_view(entries@) + rest),
                None => None::<Seq<EntryView>>,
            },
        decreases lx@.len() + 1 - search_start,
    {
        let ghost before = entries@;
        proof {
            lemma_next_block(xb@, lx@, search_start as int);
        }
        let (start, end, be) = match find_block(xb, lx, search_start, &open_ns, &open_plain, &close_ns, &close_plain) {
            None => {
                return None;
            },
            Some(None) => {
                proof {
                    assert(entries_view(entries@) + Seq::<EntryView>::empty() =~= entries_view(
                        entries@,
                    ));
                }
                return Some(entries);
            },
            Some(Some(b)) => b,
        };
        proof {
            assert(lx@.len() == lx.len());
            assert(search_start <= start < end < lx@.len());
        }
        let block = str_slice(xml, start, be);
        let e = match read_entry(block) {
            Some(e) => e,
            None => {
                return None;
            },
        };
        let ghost ev = entry_view(e);
        let ghost rest = propfind_entries(xb@, lx@, end + 1);
        if e.0.unicode_len() > 0 {
            entries.push(e);
            proof {
                assert(entries_view(entries@) =~= entries_view(before).push(ev));
                if rest is Some {
                    assert(entries_view(before).push(ev) + rest->0 =~= entries_view(before) + (seq![ev]
                        + rest->0));
                }
            }
        }
        search_start = end + 1;
    }
}

/// Reads the entries of a WebDAV PROPFIND multistatus response: one per
/// `<response>` block, with its display name (or the last segment of its
/// href, percent-decoded), href, whether it holds a `<collection>`
/// element, and its `getcontentlength` (0 when absent or not a number).
/// Tags are found in the text's lower case, with or without the `d:`
/// prefix, and their byte positions there cut the text itself; entries
/// whose name is empty are left out. Never fails, on a text whose cuts all
/// fall between characters (`try_parse_propfind_response` tells).
pub fn parse_propfind_response(xml: &str) -> (r: Result<Vec<(String, String, bool, u64)>, String>)
    requires
        propfind_result(xml@) is Some,
    ensures
        r matches Ok(v) && propfind_result(xml@) == Some(entries_view(v@)),
{
    match read_propfind(xml) {
        Some(v) => Ok(v),
        None => Ok(Vec::new()),
    }
}

/// Reads a PROPFIND response when its reading cuts the text only between
/// characters (`None` otherwise, where the reading would panic).
pub fn try_parse_propfind_response(xml: &str) -> (r: Option<Result<Vec<(String, String, bool, u64)>, String>>)
    ensures
        r is Some <==> propfind_result(xml@) is Some,
        r matches Some(x) ==> (x matches Ok(v) && propfind_result(xml@) == Some(entries_view(v@))),
{
    if read_propfind(xml).is_some() {
        Some(parse_propfind_response(xml))
    } else {
        None
    }
}

} // verus!

verus! {

// ==================== request URLs and replies ====================

/// `s` without all of its trailing `c` (what `str::trim_end_matches` with a
/// character gives).
pub open spec fn trim_end_char(s: Seq<char>, c: char) -> Seq<char>
    decreases s.len(),
{
    if s.len() > 0 && s.last() == c {
        trim_end_char(s.drop_last(), c)
    } else {
        s
    }
}

/// The full address of `path` on the server: the server address without its
/// trailing slashes, then the path with a leading slash.
pub open spec fn webdav_url(server_url: Seq<char>, path: Seq<char>) -> Seq<char> {
    trim_end_char(server_url, '/') + (if path.len() > 0 && path[0] == '/' {
        path
    } else {
        seq!['/'] + path
    })
}

/// Builds the full address of `path` on the server.
pub fn build_webdav_url(server_url: &str, path: &str) -> (r: String)
    ensures
        r@ == webdav_url(server_url@, path@),
{
    let cs = chars_of(server_url);
    let mut end = cs.len();
    proof {
        assert(cs@.take(cs@.len() as int) =~= cs@);
    }
    while end > 0 && cs[end - 1] == '/'
        invariant
            end <= cs@.len(),
            trim_end_char(cs@.take(end as int), '/') == trim_end_char(cs@, '/'),
        decreases end,
    {
        proof {
            assert(cs@.take(end as int).drop_last() =~= cs@.take(end - 1));
        }
        end = end - 1;
    }
    proof {
        assert(cs@.take(cs@.len() as int) =~= cs@);
        assert(trim_end_char(cs@.take(end as int), '/') == cs@.take(end as int));
        assert(cs@.take(end as int) =~= cs@.subrange(0, end as int));
    }
    let mut r = string_of(cs.as_slice(), 0, end);
    let ps = chars_of(path);
    if ps.len() == 0 || ps[0] != '/' {
        push_char(&mut r, '/');
    }
    let mut i: usize = 0;
    let ghost base = r@;
    while i < ps.len()
        invariant
            i <= ps@.len(),
            r@ == base + ps@.take(i as int),
        decreases ps.len() - i,
    {
        push_char(&mut r, ps[i]);
        proof {
            assert(base + ps@.take(i + 1) =~= (base + ps@.take(i as int)).push(ps@[i as int]));
        }
        i = i + 1;
    }
    proof {
        assert(ps@.take(ps@.len() as int) =~= ps@);
        assert(ps@ == path@);
        if !(path@.len() > 0 && path@[0] == '/') {
            assert(base == cs@.subrange(0, end as int).push('/'));
            assert(base + path@ =~= cs@.subrange(0, end as int) + (seq!['/'] + path@));
        }
    }
    r
}

/// A name made safe for the server: each of `/ \ : * ? " < > |` becomes `_`
/// (the same rule as for local file names).
pub fn sanitize_remote_name(name: &str) -> (r: String)
    ensures
        r@ == crate::text::safe_name(name@),
{
    crate::text::sanitize_filename(name)
}

/// A listing request (PROPFIND) succeeded: any 2xx status (207 among them).
pub fn propfind_status_ok(status: u16) -> (r: bool)
    ensures
        r == (200 <= status <= 299),
{
    200 <= status && status <= 299
}

/// The error of a listing request the server refused: its status and the
/// status's reason phrase.
pub fn propfind_status_error(status: u16, reason: &str) -> (r: String)
    ensures
        r@ == "服务器返回错误: "@ + decimal_digits(status as nat) + " "@ + reason@,
{
    let a = concat_str("服务器返回错误: ", u64_to_string(status as u64).as_str());
    let b = concat_str(a.as_str(), " ");
    concat_str(b.as_str(), reason)
}

/// A folder creation (MKCOL) is taken as done: created (201), already there
/// (405) or redirected (301).
pub fn mkcol_status_ok(status: u16) -> (r: bool)
    ensures
        r == (status == 201 || status == 405 || status == 301),
{
    status == 201 || status == 405 || status == 301
}

/// A file upload (PUT) succeeded: created (201), replaced (204) or OK (200).
pub fn put_status_ok(status: u16) -> (r: bool)
    ensures
        r == (status == 201 || status == 204 || status == 200),
{
    status == 201 || status == 204 || status == 200
}

} // verus!

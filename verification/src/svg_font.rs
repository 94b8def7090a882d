//! SVG 1.1 single-line font files: the cheap sniffing test, attribute
//! lookup inside a tag, glyph code points and the header tag scan.

use vstd::prelude::*;
use vstd::slice::slice_subrange;
use vstd::utf8::{decode_utf8, valid_utf8};
use crate::errors::{Error, ErrorKind, ErrorView, hinted, plain};
use crate::scan::{
    all_digits, digits_value, find_from, first_occurrence, is_digit, occurs_at, occurs_in,
    parse_unsigned, parse_unsigned_in, skip_ws, starts_with,
};
use crate::strs::{chars_of, string_from_chars, trim_start};

verus! {

/// `std::str::from_utf8`, with the error dropped: `Some` exactly when the
/// bytes are well-formed UTF-8, and then the text they decode to.
#[verifier::external_body]
fn str_from_utf8(bytes: &[u8]) -> (r: Option<&str>)
    ensures
        r is Some <==> valid_utf8(bytes@),
        r matches Some(s) ==> s@ == decode_utf8(bytes@),
{
    std::str::from_utf8(bytes).ok()
}

/// `char::from_u32`: the character with code point `cp`, or `None` for a
/// surrogate or a value past U+10FFFF.
#[verifier::external_body]
fn char_from_u32(cp: u32) -> (r: Option<char>)
    ensures
        r == scalar(cp as nat),
{
    char::from_u32(cp)
}

/// The character with code point `cp`, if `cp` is a Unicode scalar value.
pub open spec fn scalar(cp: nat) -> Option<char> {
    if cp <= 0x10FFFF && !(0xD800 <= cp && cp <= 0xDFFF) {
        Some(cp as char)
    } else {
        None
    }
}

/// The first `k` bytes decoded as UTF-8, when they are well-formed.
pub open spec fn decoded_prefix(bytes: Seq<u8>, k: int) -> Option<Seq<char>> {
    let p = bytes.subrange(0, k);
    if valid_utf8(p) {
        Some(decode_utf8(p))
    } else {
        None
    }
}

/// The text the sniffing test looks at: the first 512 bytes (or all of a
/// shorter input) decoded as UTF-8. Where the 512-byte cut splits a
/// character, the head ends before that character: the longest of the
/// prefixes 511, 510 and 509 bytes long that decodes is taken. Nothing
/// when no such prefix decodes (binary data).
pub open spec fn sniff_head(bytes: Seq<u8>) -> Seq<char> {
    if bytes.len() <= 512 {
        match decoded_prefix(bytes, bytes.len() as int) {
            Some(t) => t,
            None => Seq::empty(),
        }
    } else {
        match decoded_prefix(bytes, 512) {
            Some(t) => t,
            None => match decoded_prefix(bytes, 511) {
                Some(t) => t,
                None => match decoded_prefix(bytes, 510) {
                    Some(t) => t,
                    None => match decoded_prefix(bytes, 509) {
                        Some(t) => t,
                        None => Seq::empty(),
                    },
                },
            },
        }
    }
}

/// The first `k` bytes of `bytes` as characters, when they are UTF-8.
fn decode_prefix(bytes: &[u8], k: usize) -> (r: Option<Vec<char>>)
    requires
        k <= bytes@.len(),
    ensures
        match decoded_prefix(bytes@, k as int) {
            Some(t) => r matches Some(cs) && cs@ == t,
            None => r is None,
        },
{
    let head = slice_subrange(bytes, 0, k);
    match str_from_utf8(head) {
        Some(s) => Some(chars_of(s)),
        None => None,
    }
}

/// The bytes open like an SVG / XML file: after leading whitespace the
/// head starts with `<?xml`, `<!DOCTYPE svg` or `<svg`.
pub open spec fn svg_sniff(bytes: Seq<u8>) -> bool {
    let t = trim_start(sniff_head(bytes));
    starts_with(t, "<?xml"@) || starts_with(t, "<!DOCTYPE svg"@) || starts_with(t, "<svg"@)
}

/// Whether `cs[at..]` begins with `p`.
fn has_prefix_at(cs: &[char], at: usize, p: &str) -> (b: bool)
    requires
        at <= cs@.len(),
    ensures
        b == starts_with(cs@.subrange(at as int, cs@.len() as int), p@),
{
    let pc = chars_of(p);
    let b = occurs_in(cs, &pc, at);
    let ghost t = cs@.subrange(at as int, cs@.len() as int);
    assert(at + pc@.len() <= cs@.len() ==> t.subrange(0, pc@.len() as int) =~= cs@.subrange(
        at as int,
        at + pc@.len(),
    ));
    b
}

/// Heuristic: the bytes look like an SVG file (an XML or SVG header
/// before anything else, binary noise included). Cheap enough to call
/// before the real parser: it reads at most the first 512 bytes.
pub fn looks_like_svg(bytes: &[u8]) -> (b: bool)
    ensures
        b == svg_sniff(bytes@),
        starts_with(trim_start(sniff_head(bytes@)), "<svg"@) ==> b,
        starts_with(trim_start(sniff_head(bytes@)), "<?xml"@) ==> b,
        starts_with(trim_start(sniff_head(bytes@)), "<!DOCTYPE svg"@) ==> b,
        b ==> starts_with(trim_start(sniff_head(bytes@)), "<svg"@) || starts_with(trim_start(sniff_head(bytes@)), "<?xml"@)
            || starts_with(trim_start(sniff_head(bytes@)), "<!DOCTYPE svg"@),
{
    let cs: Vec<char> = if bytes.len() <= 512 {
        match decode_prefix(bytes, bytes.len()) {
            Some(c) => c,
            None => Vec::new(),
        }
    } else {
        match decode_prefix(bytes, 512) {
            Some(c) => c,
            None => match decode_prefix(bytes, 511) {
                Some(c) => c,
                None => match decode_prefix(bytes, 510) {
                    Some(c) => c,
                    None => match decode_prefix(bytes, 509) {
                        Some(c) => c,
                        None => Vec::new(),
                    },
                },
            },
        }
    };
    assert(cs@ == sniff_head(bytes@));
    let a = skip_ws(&cs, 0, cs.len());
    assert(cs@.subrange(0, cs@.len() as int) =~= cs@);
    has_prefix_at(&cs, a, "<?xml") || has_prefix_at(&cs, a, "<!DOCTYPE svg") || has_prefix_at(
        &cs,
        a,
        "<svg",
    )
}

/// The value of `name="…"` in an attribute string: the text after the
/// first `name="` up to the next `"` (verbatim, entities not decoded).
pub open spec fn attr_value(attrs: Seq<char>, name: Seq<char>) -> Option<Seq<char>> {
    let needle = name + seq!['=', '"'];
    match first_occurrence(attrs, needle, 0) {
        Some(i) => {
            let rest = attrs.subrange(i + needle.len(), attrs.len() as int);
            match first_occurrence(rest, seq!['"'], 0) {
                Some(j) => Some(rest.subrange(0, j)),
                None => None,
            }
        },
        None => None,
    }
}

/// Pulls `name="value"` out of an attribute string.
pub fn attr(attrs: &str, name: &str) -> (r: Option<String>)
    ensures
        match attr_value(attrs@, name@) {
            Some(v) => r matches Some(s) && s@ == v,
            None => r is None,
        },
{
    let cs = chars_of(attrs);
    let mut needle = chars_of(name);
    needle.push('=');
    needle.push('"');
    assert(needle@ =~= name@ + seq!['=', '"']);
    proof {
        crate::scan::lemma_first_occurrence(cs@, needle@, 0);
    }
    match find_from(&cs, &needle, 0) {
        Some(i) => {
            assert(i + needle.len() <= cs.len());
            let start = i + needle.len();
            let rest = slice_subrange(&cs, start, cs.len());
            let quote = vec!['"'];
            assert(quote@ =~= seq!['"']);
            match find_from(rest, &quote, 0) {
                Some(j) => {
                    proof {
                        crate::scan::lemma_first_occurrence(rest@, quote@, 0);
                    }
                    Some(string_from_chars(slice_subrange(rest, 0, j)))
                },
                None => None,
            }
        },
        None => None,
    }
}

/// `c` is a hexadecimal digit.
pub open spec fn is_hex_digit(c: char) -> bool {
    ('0' <= c && c <= '9') || ('a' <= c && c <= 'f') || ('A' <= c && c <= 'F')
}

/// The value of a hexadecimal digit.
pub open spec fn hex_digit_value(c: char) -> nat {
    if '0' <= c && c <= '9' {
        ((c as u32) - 48) as nat
    } else if 'a' <= c && c <= 'f' {
        ((c as u32) - 87) as nat
    } else {
        ((c as u32) - 55) as nat
    }
}

/// Every character of `s` is a hexadecimal digit.
pub open spec fn all_hex_digits(s: Seq<char>) -> bool {
    forall|i: int| 0 <= i < s.len() ==> is_hex_digit(#[trigger] s[i])
}

/// The value of a hexadecimal digit string.
pub open spec fn hex_value(s: Seq<char>) -> nat
    decreases s.len(),
{
    if s.len() == 0 {
        0
    } else {
        hex_value(s.drop_last()) * 16 + hex_digit_value(s.last())
    }
}

/// The number `s` spells in base 16 (`u32::from_str_radix(s, 16)` for a
/// maximum of `max`): an optional `+`, then one or more hex digits.
pub open spec fn parse_hex(s: Seq<char>, max: nat) -> Option<nat> {
    let d = if s.len() > 0 && s[0] == '+' { s.drop_first() } else { s };
    if d.len() == 0 || !all_hex_digits(d) || hex_value(d) > max {
        None
    } else {
        Some(hex_value(d))
    }
}

/// `parse_hex` over `cs[lo..hi]` with the `u32` range.
#[verifier::loop_isolation(false)]
fn parse_hex_in(cs: &[char], lo: usize, hi: usize) -> (r: Option<u32>)
    requires
        lo <= hi <= cs@.len(),
    ensures
        match parse_hex(cs@.subrange(lo as int, hi as int), u32::MAX as nat) {
            Some(v) => r == Some(v as u32),
            None => r is None,
        },
{
    let ghost s = cs@.subrange(lo as int, hi as int);
    let start = if lo < hi && cs[lo] == '+' { lo + 1 } else { lo };
    let ghost d = cs@.subrange(start as int, hi as int);
    assert(s.len() > 0 && s[0] == '+' ==> s.drop_first() =~= d);
    assert(!(s.len() > 0 && s[0] == '+') ==> s =~= d);
    if start == hi {
        return None;
    }
    let mut v: u64 = 0;
    let mut i = start;
    while i < hi
        invariant
            start <= i <= hi <= cs@.len(),
            d == cs@.subrange(start as int, hi as int),
            all_hex_digits(cs@.subrange(start as int, i as int)),
            v == hex_value(cs@.subrange(start as int, i as int)),
            v <= u32::MAX,
        decreases hi - i,
    {
        let c = cs[i];
        let ghost pre = cs@.subrange(start as int, i as int);
        let ghost next = cs@.subrange(start as int, i + 1);
        assert(next.drop_last() =~= pre);
        let dv: u64 = if '0' <= c && c <= '9' {
            (c as u64) - 48
        } else if 'a' <= c && c <= 'f' {
            (c as u64) - 87
        } else if 'A' <= c && c <= 'F' {
            (c as u64) - 55
        } else {
            assert(!is_hex_digit(d[i - start]));
            return None;
        };
        assert(hex_value(next) == v * 16 + dv);
        if v > (u32::MAX as u64 - dv) / 16 {
            proof {
                if all_hex_digits(d) {
                    lemma_hex_value_prefix(d, i - start + 1);
                    assert(d.subrange(0, i - start + 1) =~= next);
                }
            }
            return None;
        }
        v = v * 16 + dv;
        i += 1;
    }
    assert(cs@.subrange(start as int, hi as int) =~= d);
    Some(v as u32)
}

/// A prefix of a hex digit string is worth at most the whole.
proof fn lemma_hex_value_prefix(s: Seq<char>, k: int)
    requires
        0 <= k <= s.len(),
        all_hex_digits(s),
    ensures
        hex_value(s.subrange(0, k)) <= hex_value(s),
    decreases s.len() - k,
{
    if k < s.len() {
        let t = s.subrange(0, k + 1);
        assert(t.drop_last() =~= s.subrange(0, k));
        lemma_hex_value_prefix(s, k + 1);
    } else {
        assert(s.subrange(0, k) =~= s);
    }
}

/// The code point a glyph's `unicode` attribute names: a hexadecimal
/// (`&#xNN;`) or decimal (`&#NN;`) character reference, or a single
/// literal character. Anything else (or a number that is no Unicode
/// scalar) names none.
pub open spec fn unicode_attr(attrs: Seq<char>) -> Option<char> {
    match attr_value(attrs, "unicode"@) {
        None => None,
        Some(v) => if v.len() >= 4 && starts_with(v, "&#x"@) && v.last() == ';' {
            match parse_hex(v.subrange(3, v.len() - 1), u32::MAX as nat) {
                Some(cp) => scalar(cp),
                None => None,
            }
        } else if v.len() >= 3 && starts_with(v, "&#"@) && v.last() == ';' {
            match parse_unsigned(v.subrange(2, v.len() - 1), u32::MAX as nat) {
                Some(cp) => scalar(cp),
                None => None,
            }
        } else if v.len() == 1 {
            Some(v[0])
        } else {
            None
        },
    }
}

/// Parses a glyph tag's `unicode` attribute.
pub fn parse_unicode_attr(attrs: &str) -> (r: Option<char>)
    ensures
        r == unicode_attr(attrs@),
{
    let v = match attr(attrs, "unicode") {
        Some(v) => v,
        None => return None,
    };
    let cs = chars_of(v.as_str());
    let n = cs.len();
    if n >= 4 && has_prefix_at(&cs, 0, "&#x") && cs[n - 1] == ';' {
        assert(cs@.subrange(0, n as int) =~= cs@);
        return match parse_hex_in(&cs, 3, n - 1) {
            Some(cp) => char_from_u32(cp),
            None => None,
        };
    }
    assert(cs@.subrange(0, n as int) =~= cs@);
    if n >= 3 && has_prefix_at(&cs, 0, "&#") && cs[n - 1] == ';' {
        return match parse_unsigned_in(&cs, 2, n - 1, 0xFFFF_FFFF) {
            Some(cp) => char_from_u32(cp as u32),
            None => None,
        };
    }
    if n == 1 {
        Some(cs[0])
    } else {
        None
    }
}

/// The error for a file without a `<font-face>` tag.
pub open spec fn missing_font_face_error() -> ErrorView {
    hinted(
        plain(ErrorKind::Misconfigured, "SVG font: missing <font-face> tag"@),
        "This file isn't an SVG 1.1 font."@,
    )
}

/// The error for a file without a `<font-face>` tag.
pub fn missing_font_face() -> (e: Error)
    ensures
        e@ == missing_font_face_error(),
{
    Error::misconfigured(String::from_str("SVG font: missing <font-face> tag")).with_hint(
        "This file isn't an SVG 1.1 font.",
    )
}

/// A `<glyph …>` tag of a font file: the code point its `unicode`
/// attribute names and its whole attribute text (`d`, `horiz-adv-x`, …).
#[derive(Clone, Debug)]
pub struct GlyphTag {
    pub unicode: char,
    pub attrs: String,
}

/// The header of an SVG font: the `<font-face>` attribute text, the
/// family name, and the glyph tags in source order.
#[derive(Clone, Debug)]
pub struct FontTags {
    pub face_attrs: String,
    pub family_name: String,
    pub glyphs: Vec<GlyphTag>,
}

/// Glyph tags as (code point, attribute text) pairs.
pub open spec fn glyph_views(g: Seq<GlyphTag>) -> Seq<(char, Seq<char>)> {
    g.map_values(|t: GlyphTag| (t.unicode, t.attrs@))
}

/// Appending a tag appends its view.
proof fn lemma_glyph_views_push(g: Seq<GlyphTag>, t: GlyphTag)
    ensures
        glyph_views(g.push(t)) == glyph_views(g) + seq![(t.unicode, t.attrs@)],
{
    let l = glyph_views(g.push(t));
    let r = glyph_views(g) + seq![(t.unicode, t.attrs@)];
    assert forall|k: int| 0 <= k < l.len() implies l[k] == r[k] by {
        if k < g.len() {
            assert(g.push(t)[k] == g[k]);
        }
    }
    assert(l =~= r);
}

/// The `<glyph …>` tags of `s` from position `cursor` on: each runs from
/// `<glyph` to the next `>`; the scan stops at a `<glyph` without a
/// closing `>`, and tags whose `unicode` names no character are skipped.
pub open spec fn glyph_tags(s: Seq<char>, cursor: int) -> Seq<(char, Seq<char>)>
    decreases s.len() + 1 - cursor,
{
    if cursor < 0 {
        Seq::empty()
    } else {
        match first_occurrence(s, "<glyph"@, cursor) {
            None => Seq::empty(),
            Some(a) => match first_occurrence(s, seq!['>'], a) {
                None => Seq::empty(),
                Some(c) => {
                    let attrs = s.subrange(a + 6, c);
                    if cursor <= c && c < s.len() {
                        let rest = glyph_tags(s, c + 1);
                        match unicode_attr(attrs) {
                            Some(ch) => seq![(ch, attrs)] + rest,
                            None => rest,
                        }
                    } else {
                        Seq::empty()
                    }
                },
            },
        }
    }
}

/// The header scan of an SVG font: the attribute text of the first
/// `<font-face` tag (up to its `>`), its `font-family` (or `SVG font`),
/// and the glyph tags after it; the missing-font-face error when there is
/// no such tag.
pub open spec fn font_tags(s: Seq<char>) -> Result<(Seq<char>, Seq<char>, Seq<(char, Seq<char>)>), ErrorView> {
    match first_occurrence(s, "<font-face"@, 0) {
        None => Err(missing_font_face_error()),
        Some(o) => match first_occurrence(s, seq!['>'], o) {
            None => Err(missing_font_face_error()),
            Some(c) => {
                let face = s.subrange(o + 10, c);
                let family = match attr_value(face, "font-family"@) {
                    Some(f) => f,
                    None => "SVG font"@,
                };
                Ok((face, family, glyph_tags(s, c)))
            },
        },
    }
}

/// Scans an SVG font's text for its `<font-face>` tag, family name and
/// glyph tags (the parts of the file that are not numbers).
pub fn scan_font_tags(src: &str) -> (r: Result<FontTags, Error>)
    ensures
        match font_tags(src@) {
            Ok((face, family, glyphs)) => r matches Ok(t) && t.face_attrs@ == face && t.family_name@ == family
                && glyph_views(t.glyphs@) == glyphs,
            Err(e) => r matches Err(err) && err@ == e,
        },
{
    let cs = chars_of(src);
    let face_tag = chars_of("<font-face");
    let close = vec!['>'];
    assert(close@ =~= seq!['>']);
    let o = match find_from(&cs, &face_tag, 0) {
        Some(o) => o,
        None => return Err(missing_font_face()),
    };
    proof {
        crate::scan::lemma_first_occurrence(cs@, face_tag@, 0);
        reveal_strlit("<font-face");
    }
    let c = match find_from(&cs, &close, o) {
        Some(c) => c,
        None => return Err(missing_font_face()),
    };
    proof {
        crate::scan::lemma_first_occurrence(cs@, close@, o as int);
        crate::scan::lemma_char_not_inside(cs@, face_tag@, o as int, '>');
    }
    assert(o + 10 <= c);
    let face_attrs = string_from_chars(slice_subrange(&cs, o + 10, c));
    let family_name = match attr(face_attrs.as_str(), "font-family") {
        Some(f) => f,
        None => String::from_str("SVG font"),
    };
    let glyphs = scan_glyph_tags(&cs, c);
    Ok(FontTags { face_attrs, family_name, glyphs })
}

/// The glyph tags of `cs` from `cursor` on.
fn scan_glyph_tags(cs: &[char], cursor: usize) -> (g: Vec<GlyphTag>)
    requires
        cursor <= cs@.len(),
    ensures
        glyph_views(g@) == glyph_tags(cs@, cursor as int),
{
    let glyph_tag = chars_of("<glyph");
    let close = vec!['>'];
    assert(close@ =~= seq!['>']);
    let mut out: Vec<GlyphTag> = Vec::new();
    let mut cur = cursor;
    proof {
        reveal_strlit("<glyph");
        assert(glyph_views(out@) + glyph_tags(cs@, cur as int) =~= glyph_tags(cs@, cursor as int));
    }
    loop
        invariant
            cur <= cs@.len(),
            glyph_tag@ == "<glyph"@,
            glyph_tag@.len() == 6,
            close@ == seq!['>'],
            glyph_views(out@) + glyph_tags(cs@, cur as int) == glyph_tags(cs@, cursor as int),
        decreases cs@.len() + 1 - cur,
    {
        let a = match find_from(cs, &glyph_tag, cur) {
            Some(a) => a,
            None => {
                assert(glyph_views(out@) + Seq::<(char, Seq<char>)>::empty() =~= glyph_views(out@));
                return out;
            },
        };
        proof {
            crate::scan::lemma_first_occurrence(cs@, glyph_tag@, cur as int);
            reveal_strlit("<glyph");
        }
        let c = match find_from(cs, &close, a) {
            Some(c) => c,
            None => {
                assert(glyph_views(out@) + Seq::<(char, Seq<char>)>::empty() =~= glyph_views(out@));
                return out;
            },
        };
        proof {
            crate::scan::lemma_first_occurrence(cs@, close@, a as int);
            crate::scan::lemma_char_not_inside(cs@, glyph_tag@, a as int, '>');
        }
        assert(a + 6 <= c < cs@.len());
        assert(c < cs.len());
        let attrs = string_from_chars(slice_subrange(cs, a + 6, c));
        let ghost rest = glyph_tags(cs@, c + 1);
        let ghost before = glyph_views(out@);
        match parse_unicode_attr(attrs.as_str()) {
            Some(ch) => {
                let tag = GlyphTag { unicode: ch, attrs };
                assert(tag.attrs@ == cs@.subrange(a + 6, c as int));
                let ghost old_out = out@;
                out.push(tag);
                assert(out@ == old_out.push(tag));
                proof {
                    lemma_glyph_views_push(old_out, tag);
                }
                assert(glyph_views(out@) + rest =~= before + (seq![(ch, cs@.subrange(a + 6, c as int))] + rest));
            },
            None => {},
        }
        cur = c + 1;
    }
}

} // verus!

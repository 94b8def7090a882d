//! Font classification from a font's name table: reading the table out of
//! the font's bytes, whether the font names itself a single-line
//! (engraving) font, and its family name.

use vstd::prelude::*;
use crate::errors::{Error, ErrorKind, ErrorView, hinted, plain};
use crate::scan::{find_from, first_occurrence};
use crate::strs::{chars_of, lower, lower_chars};

verus! {

/// Name-table id of the font family name.
pub const NAME_FAMILY: u16 = 1;
/// Name-table id of the full font name.
pub const NAME_FULL_NAME: u16 = 4;
/// Name-table id of the PostScript name.
pub const NAME_POST_SCRIPT_NAME: u16 = 6;
/// Name-table id of the typographic family name.
pub const NAME_TYPOGRAPHIC_FAMILY: u16 = 16;

/// Fragments that mark a single-line / stick / engraving font name
/// (matched against the ASCII-lower-cased name).
pub open spec fn single_line_needles() -> Seq<Seq<char>> {
    seq![
        "single line"@, "single-line"@, "singleline"@, "single stroke"@, "single-stroke"@,
        "singlestroke"@, "engrav"@, "stick font"@, "stickfont"@, "hershey"@, "rhss"@,
        "osifont"@, "1-line"@, "one-line"@,
    ]
}

/// `needle` occurs somewhere in `hay` (`str::contains`).
pub open spec fn contains(hay: Seq<char>, needle: Seq<char>) -> bool {
    first_occurrence(hay, needle, 0) is Some
}

/// The name, lower-cased, contains one of the single-line fragments.
pub open spec fn name_says_single_line(name: Seq<char>) -> bool {
    exists|k: int| 0 <= k < single_line_needles().len() && contains(lower(name), #[trigger] single_line_needles()[k])
}

/// The name-table ids whose names are checked.
pub open spec fn checked_name_id(id: u16) -> bool {
    id == NAME_FAMILY || id == NAME_FULL_NAME || id == NAME_POST_SCRIPT_NAME || id == NAME_TYPOGRAPHIC_FAMILY
}

/// Name-table entries as (id, text).
pub open spec fn name_views(names: Seq<(u16, String)>) -> Seq<(u16, Seq<char>)> {
    names.map_values(|e: (u16, String)| (e.0, e.1@))
}

/// Some family / full / PostScript / typographic-family name of the font
/// says it is a single-line font.
pub open spec fn names_say_single_line(names: Seq<(u16, Seq<char>)>) -> bool {
    exists|j: int| 0 <= j < names.len() && checked_name_id(#[trigger] names[j].0) && name_says_single_line(names[j].1)
}

/// Each of the single-line markers, found anywhere in the lower-cased
/// name, makes the name a single-line font's: `single line`,
/// `single-line`, `singleline`, `single stroke`, `single-stroke`,
/// `singlestroke`, `engrav`, `stick font`, `stickfont`, `hershey`, `rhss`,
/// `osifont`, `1-line`, `one-line`.
pub proof fn lemma_markers_say_single_line(name: Seq<char>)
    ensures
        contains(lower(name), "single line"@) ==> name_says_single_line(name),
        contains(lower(name), "single-line"@) ==> name_says_single_line(name),
        contains(lower(name), "singleline"@) ==> name_says_single_line(name),
        contains(lower(name), "single stroke"@) ==> name_says_single_line(name),
        contains(lower(name), "single-stroke"@) ==> name_says_single_line(name),
        contains(lower(name), "singlestroke"@) ==> name_says_single_line(name),
        contains(lower(name), "engrav"@) ==> name_says_single_line(name),
        contains(lower(name), "stick font"@) ==> name_says_single_line(name),
        contains(lower(name), "stickfont"@) ==> name_says_single_line(name),
        contains(lower(name), "hershey"@) ==> name_says_single_line(name),
        contains(lower(name), "rhss"@) ==> name_says_single_line(name),
        contains(lower(name), "osifont"@) ==> name_says_single_line(name),
        contains(lower(name), "1-line"@) ==> name_says_single_line(name),
        contains(lower(name), "one-line"@) ==> name_says_single_line(name),
{
    assert(single_line_needles()[0] == "single line"@);
    assert(single_line_needles()[1] == "single-line"@);
    assert(single_line_needles()[2] == "singleline"@);
    assert(single_line_needles()[3] == "single stroke"@);
    assert(single_line_needles()[4] == "single-stroke"@);
    assert(single_line_needles()[5] == "singlestroke"@);
    assert(single_line_needles()[6] == "engrav"@);
    assert(single_line_needles()[7] == "stick font"@);
    assert(single_line_needles()[8] == "stickfont"@);
    assert(single_line_needles()[9] == "hershey"@);
    assert(single_line_needles()[10] == "rhss"@);
    assert(single_line_needles()[11] == "osifont"@);
    assert(single_line_needles()[12] == "1-line"@);
    assert(single_line_needles()[13] == "one-line"@);
}

/// Whether one name says single-line.
pub fn name_is_single_line(name: &str) -> (b: bool)
    ensures
        b == name_says_single_line(name@),
        contains(lower(name@), "single line"@) ==> b,
        contains(lower(name@), "single-line"@) ==> b,
        contains(lower(name@), "singleline"@) ==> b,
        contains(lower(name@), "single stroke"@) ==> b,
        contains(lower(name@), "single-stroke"@) ==> b,
        contains(lower(name@), "singlestroke"@) ==> b,
        contains(lower(name@), "engrav"@) ==> b,
        contains(lower(name@), "stick font"@) ==> b,
        contains(lower(name@), "stickfont"@) ==> b,
        contains(lower(name@), "hershey"@) ==> b,
        contains(lower(name@), "rhss"@) ==> b,
        contains(lower(name@), "osifont"@) ==> b,
        contains(lower(name@), "1-line"@) ==> b,
        contains(lower(name@), "one-line"@) ==> b,
{
    proof {
        lemma_markers_say_single_line(name@);
    }
    let lc = lower_chars(name);
    let needles: [&str; 14] = [
        "single line", "single-line", "singleline", "single stroke", "single-stroke",
        "singlestroke", "engrav", "stick font", "stickfont", "hershey", "rhss", "osifont",
        "1-line", "one-line",
    ];
    assert(forall|k: int| 0 <= k < 14 ==> (#[trigger] needles@[k])@ == single_line_needles()[k]);
    let mut k: usize = 0;
    while k < 14
        invariant
            k <= 14,
            lc@ == lower(name@),
            forall|m: int| 0 <= m < 14 ==> (#[trigger] needles@[m])@ == single_line_needles()[m],
            forall|m: int| 0 <= m < k ==> !contains(lc@, #[trigger] single_line_needles()[m]),
        decreases 14 - k,
    {
        let n = chars_of(needles[k]);
        assert(n@ == single_line_needles()[k as int]);
        if find_from(&lc, &n, 0).is_some() {
            return true;
        }
        k += 1;
    }
    false
}

/// Whether the font's family, full, PostScript or typographic-family name
/// marks it as a single-line font.
pub fn family_name_says_single_line(names: &[(u16, String)]) -> (b: bool)
    ensures
        b == names_say_single_line(name_views(names@)),
        forall|j: int| 0 <= j < names@.len() && (names@[j].0 == 1 || names@[j].0 == 4 || names@[j].0 == 6 || names@[j].0 == 16)
            && name_says_single_line(#[trigger] names@[j].1@) ==> b,
        b ==> exists|j: int| 0 <= j < names@.len() && (names@[j].0 == 1 || names@[j].0 == 4 || names@[j].0 == 6 || names@[j].0 == 16)
            && name_says_single_line(#[trigger] names@[j].1@),
{
    let mut j: usize = 0;
    while j < names.len()
        invariant
            j <= names@.len(),
            forall|m: int| 0 <= m < j ==> !(checked_name_id(#[trigger] name_views(names@)[m].0)
                && name_says_single_line(name_views(names@)[m].1)),
            forall|m: int| 0 <= m < j ==> !((names@[m].0 == 1 || names@[m].0 == 4 || names@[m].0 == 6 || names@[m].0 == 16)
                && name_says_single_line(#[trigger] names@[m].1@)),
        decreases names@.len() - j,
    {
        let id = names[j].0;
        assert(name_views(names@)[j as int] == (id, names@[j as int].1@));
        if (id == NAME_FAMILY || id == NAME_FULL_NAME || id == NAME_POST_SCRIPT_NAME || id == NAME_TYPOGRAPHIC_FAMILY)
            && name_is_single_line(names[j].1.as_str()) {
            assert(checked_name_id(name_views(names@)[j as int].0));
            assert(name_says_single_line(name_views(names@)[j as int].1));
            assert(name_says_single_line(names@[j as int].1@));
            return true;
        }
        j += 1;
    }
    false
}

/// The first family name in the name table.
pub open spec fn first_family_name(names: Seq<(u16, Seq<char>)>) -> Option<Seq<char>>
    decreases names.len(),
{
    if names.len() == 0 {
        None
    } else if names[0].0 == NAME_FAMILY {
        Some(names[0].1)
    } else {
        first_family_name(names.drop_first())
    }
}

/// The font's family name: the first family entry of its name table.
pub fn face_family_name(names: &[(u16, String)]) -> (r: Option<String>)
    ensures
        match first_family_name(name_views(names@)) {
            Some(n) => r matches Some(s) && s@ == n,
            None => r is None,
        },
        r matches Some(s) ==> exists|j: int| 0 <= j < names@.len() && names@[j].0 == 1 && #[trigger] names@[j].1@ == s@
            && forall|k: int| 0 <= k < j ==> (#[trigger] names@[k]).0 != 1,
        r is None ==> forall|k: int| 0 <= k < names@.len() ==> (#[trigger] names@[k]).0 != 1,
{
    let ghost v = name_views(names@);
    let mut j: usize = 0;
    assert(v.subrange(0, v.len() as int) =~= v);
    while j < names.len()
        invariant
            j <= names@.len(),
            v == name_views(names@),
            v.len() == names@.len(),
            first_family_name(v) == first_family_name(v.subrange(j as int, v.len() as int)),
            forall|k: int| 0 <= k < j ==> (#[trigger] names@[k]).0 != 1,
        decreases names@.len() - j,
    {
        let ghost rest = v.subrange(j as int, v.len() as int);
        assert(rest[0] == (names@[j as int].0, names@[j as int].1@));
        if names[j].0 == NAME_FAMILY {
            let found = names[j].1.clone();
            assert(names@[j as int].0 == 1 && names@[j as int].1@ == found@);
            return Some(found);
        }
        assert(rest.drop_first() =~= v.subrange(j + 1, v.len() as int));
        j += 1;
    }
    None
}

/// What `ttf_parser` reads out of a font's bytes (face 0): its name
/// table, each entry as its name id and its text (`None` where the entry
/// is not in a Unicode encoding or not valid UTF-16), or the parse error's
/// text when the bytes are not a font.
pub uninterp spec fn ttf_name_table(bytes: Seq<u8>) -> Result<Seq<(u16, Option<Seq<char>>)>, Seq<char>>;

/// A name table read from a font, by views.
pub open spec fn table_view(t: Result<Vec<(u16, Option<String>)>, String>) -> Result<Seq<(u16, Option<Seq<char>>)>, Seq<char>> {
    match t {
        Ok(v) => Ok(v@.map_values(|e: (u16, Option<String>)| (e.0, match e.1 {
            Some(s) => Some(s@),
            None => None,
        }))),
        Err(e) => Err(e@),
    }
}

/// `ttf_parser::Face::parse(bytes, 0)`, then `Face::names` with
/// `Name::to_string` on each entry (the error as its `Display` text). The
/// contract names the result: the table is a function of the bytes
/// alone, and how the font format is decoded is not stated.
#[verifier::external_body]
fn font_name_table(font_bytes: &[u8]) -> (r: Result<Vec<(u16, Option<String>)>, String>)
    ensures
        table_view(r) == ttf_name_table(font_bytes@),
{
    match ttf_parser::Face::parse(font_bytes, 0) {
        Ok(face) => {
            let mut out = Vec::new();
            for entry in face.names() {
                out.push((entry.name_id, entry.to_string()));
            }
            Ok(out)
        },
        Err(e) => Err(format!("{e}")),
    }
}

/// The entries of a name table that have a text, in order.
pub open spec fn decoded_names(entries: Seq<(u16, Option<Seq<char>>)>) -> Seq<(u16, Seq<char>)>
    decreases entries.len(),
{
    if entries.len() == 0 {
        Seq::empty()
    } else {
        let rest = decoded_names(entries.drop_last());
        match entries.last().1 {
            Some(t) => rest.push((entries.last().0, t)),
            None => rest,
        }
    }
}

/// What a font's name table says: whether its names mark a single-line
/// font and its first family name; for a font that does not parse, the
/// misconfiguration error `ttf parse: …` with `hint`.
pub open spec fn name_info(table: Result<Seq<(u16, Option<Seq<char>>)>, Seq<char>>, hint: Seq<char>) -> Result<(bool, Option<Seq<char>>), ErrorView> {
    match table {
        Ok(entries) => Ok((
            names_say_single_line(decoded_names(entries)),
            first_family_name(decoded_names(entries)),
        )),
        Err(t) => Err(hinted(plain(ErrorKind::Misconfigured, "ttf parse: "@ + t), hint)),
    }
}

/// The name information of a name table already read from a font: the
/// single-line marker and the family name over its decodable entries, or
/// the `ttf parse` error (with `hint`) when the font did not parse.
pub fn name_info_from_table(table: Result<Vec<(u16, Option<String>)>, String>, hint: &str) -> (r: Result<(bool, Option<String>), Error>)
    ensures
        match name_info(table_view(table), hint@) {
            Ok((sl, fam)) => r matches Ok((b, f)) && b == sl && match fam {
                Some(n) => f matches Some(s) && s@ == n,
                None => f is None,
            },
            Err(e) => r matches Err(err) && err@ == e,
        },
{
    match table {
        Err(text) => {
            let mut m = String::from_str("ttf parse: ");
            m.append(text.as_str());
            Err(Error::misconfigured(m).with_hint(hint))
        },
        Ok(entries) => {
            let ghost ev = match table_view(Ok::<Vec<(u16, Option<String>)>, String>(entries)) {
                Ok(x) => x,
                Err(_) => Seq::empty(),
            };
            let mut decoded: Vec<(u16, String)> = Vec::new();
            let mut i: usize = 0;
            while i < entries.len()
                invariant
                    i <= entries@.len(),
                    ev.len() == entries@.len(),
                    forall|k: int| 0 <= k < entries@.len() ==> #[trigger] ev[k] == (entries@[k].0, match entries@[k].1 {
                        Some(s) => Some(s@),
                        None => None,
                    }),
                    name_views(decoded@) == decoded_names(ev.take(i as int)),
                decreases entries@.len() - i,
            {
                assert(ev.take(i + 1).drop_last() =~= ev.take(i as int));
                let ghost before = decoded@;
                match &entries[i].1 {
                    Some(t) => {
                        decoded.push((entries[i].0, t.clone()));
                        assert(name_views(decoded@) =~= name_views(before).push((entries@[i as int].0, t@)));
                    },
                    None => {},
                }
                i += 1;
            }
            assert(ev.take(entries@.len() as int) =~= ev);
            let sl = family_name_says_single_line(decoded.as_slice());
            let fam = face_family_name(decoded.as_slice());
            Ok((sl, fam))
        },
    }
}

/// Reads a font's name table from its bytes and says whether its names
/// mark a single-line font and what its family name is; a misconfiguration
/// error `ttf parse: …` with `hint` when the bytes are not a font.
pub fn font_name_info(font_bytes: &[u8], hint: &str) -> (r: Result<(bool, Option<String>), Error>)
    ensures
        match name_info(ttf_name_table(font_bytes@), hint@) {
            Ok((sl, fam)) => r matches Ok((b, f)) && b == sl && match fam {
                Some(n) => f matches Some(s) && s@ == n,
                None => f is None,
            },
            Err(e) => r matches Err(err) && err@ == e,
        },
{
    let table = font_name_table(font_bytes);
    name_info_from_table(table, hint)
}

} // verus!

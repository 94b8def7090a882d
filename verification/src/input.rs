//! Importer choice by file extension, the editable-text kind of DXF
//! entities, and the source position a DXF read error points at.

use vstd::prelude::*;
use crate::errors::{Error, ErrorKind, ErrorView, hinted, plain};
use crate::scan::{all_digits, digits_in, digits_value, is_digit, parse_unsigned};
use crate::strs::{chars_of, lower, lower_chars, same_chars, string_from_chars};

verus! {

/// The importers a drawing can go to.
#[derive(Clone, Copy, Debug, PartialEq, Eq, Structural)]
pub enum ImportFormat {
    Dxf,
    Svg,
}

/// The text of `p` after its last `c` (all of `p` when it holds none).
pub open spec fn after_last(p: Seq<char>, c: char) -> Seq<char>
    decreases p.len(),
{
    if p.len() == 0 {
        p
    } else if p.last() == c {
        Seq::empty()
    } else {
        after_last(p.drop_last(), c).push(p.last())
    }
}

/// The text of `p` before its last `c` (empty when it holds none).
pub open spec fn before_last(p: Seq<char>, c: char) -> Seq<char>
    decreases p.len(),
{
    if p.len() == 0 {
        p
    } else if p.last() == c {
        p.drop_last()
    } else {
        before_last(p.drop_last(), c)
    }
}

/// A path whose file name is plainly the text after its last `/` on
/// every platform: no `\` and no `:` (so no Windows prefix and no second
/// kind of separator), no leading `//`, and a last piece that is neither
/// empty nor `.` nor `..`.
pub open spec fn plain_path(p: Seq<char>) -> bool {
    let name = after_last(p, '/');
    &&& !p.contains('\\')
    &&& !p.contains(':')
    &&& !(p.len() >= 2 && p[0] == '/' && p[1] == '/')
    &&& name.len() > 0
    &&& name != seq!['.']
    &&& name != seq!['.', '.']
}

/// The extension of a file name: none without a `.`, none when the only
/// `.` is the leading one, otherwise the text after the last `.`.
pub open spec fn name_extension(name: Seq<char>) -> Option<Seq<char>> {
    if !name.contains('.') {
        None
    } else if before_last(name, '.').len() == 0 {
        None
    } else {
        Some(after_last(name, '.'))
    }
}

/// The extension of a plain path's file name, empty when it has none.
pub open spec fn path_extension_text(p: Seq<char>) -> Seq<char> {
    match name_extension(after_last(p, '/')) {
        Some(e) => e,
        None => Seq::empty(),
    }
}

/// `Path::extension` of a path given as text, converted to a `String`
/// (the extension is a slice of valid UTF-8, so the conversion keeps it).
/// The contract holds what the documentation of `Path::extension` and
/// `Path::file_name` says: the extension is the part of the final
/// component after its last `.`, absent when that component has no `.`
/// or only a leading one. Which text is the final component depends on
/// the platform's path syntax, so it is stated for plain paths only; for
/// any path, only that the extension holds no `.`.
#[verifier::external_body]
fn path_extension(path: &str) -> (r: Option<String>)
    ensures
        r matches Some(e) ==> !e@.contains('.'),
        plain_path(path@) ==> match name_extension(after_last(path@, '/')) {
            Some(e) => r matches Some(x) && x@ == e,
            None => r is None,
        },
{
    std::path::Path::new(path).extension().map(|e| e.to_string_lossy().into_owned())
}

/// The importer for a lower-cased extension: `dxf` and `svg` are
/// supported, anything else (an absent extension reads as empty) is an
/// unsupported-format error naming it.
pub open spec fn format_for(ext: Seq<char>) -> Result<ImportFormat, ErrorView> {
    let l = lower(ext);
    if l == "dxf"@ {
        Ok(ImportFormat::Dxf)
    } else if l == "svg"@ {
        Ok(ImportFormat::Svg)
    } else {
        Err(hinted(
            plain(ErrorKind::Unsupported, "file format '"@ + l + "'"@),
            "Supported import formats: DXF, SVG."@,
        ))
    }
}

/// The importer for a file extension (`None` when the file has none).
pub fn format_for_extension(ext: Option<&str>) -> (r: Result<ImportFormat, Error>)
    ensures
        match format_for(match ext { Some(e) => e@, None => Seq::empty() }) {
            Ok(f) => r == Ok::<ImportFormat, Error>(f),
            Err(e) => r matches Err(err) && err@ == e,
        },
        ext matches Some(e) && lower(e@) == "dxf"@ ==> r == Ok::<ImportFormat, Error>(ImportFormat::Dxf),
        ext matches Some(e) && lower(e@) == "svg"@ ==> r == Ok::<ImportFormat, Error>(ImportFormat::Svg),
        (match ext {
            Some(e) => lower(e@) != "dxf"@ && lower(e@) != "svg"@,
            None => true,
        }) ==> (r matches Err(err) && err@.kind == ErrorKind::Unsupported),
{
    let l = match ext {
        Some(e) => lower_chars(e),
        None => Vec::new(),
    };
    proof {
        reveal_strlit("dxf");
        reveal_strlit("svg");
        assert("dxf"@ != "svg"@) by {
            assert("dxf"@[0] != "svg"@[0]);
        }
        if ext is None {
            assert(lower(Seq::<char>::empty()) =~= Seq::<char>::empty());
        }
    }
    let dxf = chars_of("dxf");
    let svg = chars_of("svg");
    if same_chars(&l, &dxf) {
        return Ok(ImportFormat::Dxf);
    }
    if same_chars(&l, &svg) {
        return Ok(ImportFormat::Svg);
    }
    let mut msg = String::from_str("file format '");
    let name = string_from_chars(&l);
    msg.append(name.as_str());
    msg.append("'");
    Err(Error::unsupported(msg).with_hint("Supported import formats: DXF, SVG."))
}

/// The importer for a file name, by its extension (case-insensitive).
/// For a plain path the result is exactly that of its extension (an
/// absent one reads as empty); for any path, success names the importer
/// of some extension without a `.`.
pub fn import_format(filename: &str) -> (r: Result<ImportFormat, Error>)
    ensures
        r matches Ok(f) ==> exists|e: Seq<char>| !e.contains('.') && format_for(e) == Ok::<ImportFormat, ErrorView>(f),
        plain_path(filename@) ==> match format_for(path_extension_text(filename@)) {
            Ok(f) => r == Ok::<ImportFormat, Error>(f),
            Err(e) => r matches Err(err) && err@ == e,
        },
{
    let ext = path_extension(filename);
    match ext {
        Some(e) => format_for_extension(Some(e.as_str())),
        None => format_for_extension(None),
    }
}

/// The kind of a DXF text entity kept as editable text.
#[derive(Clone, Copy, Debug, PartialEq, Eq, Structural)]
pub enum ImportedTextKind {
    Text,
    Mtext,
}

/// A position in a source file (1-based line; column 0 when unknown).
#[derive(Clone, Debug)]
pub struct SourceSpan {
    pub file: String,
    pub line: u32,
    pub column: u32,
}

/// One past the end of the run of digits that starts at `k` in `s`.
pub open spec fn digit_run_end(s: Seq<char>, k: int) -> int
    decreases s.len() - k,
{
    if 0 <= k < s.len() && is_digit(s[k]) {
        digit_run_end(s, k + 1)
    } else {
        k
    }
}

/// The first maximal run of digits at or after `k` in `s` that spells a
/// positive `u32`.
pub open spec fn first_positive_number(s: Seq<char>, k: int) -> Option<u32>
    decreases s.len() - k, 1int,
{
    if k < 0 || k >= s.len() {
        None
    } else if !is_digit(s[k]) {
        first_positive_number(s, k + 1)
    } else {
        let e = digit_run_end(s, k);
        if k < e <= s.len() {
            match parse_unsigned(s.subrange(k, e), 0xFFFF_FFFF) {
                Some(n) => if n > 0 { Some(n as u32) } else { first_positive_number(s, e) },
                None => first_positive_number(s, e),
            }
        } else {
            None
        }
    }
}

proof fn lemma_digit_run_end(s: Seq<char>, k: int)
    requires
        0 <= k <= s.len(),
    ensures
        k <= digit_run_end(s, k) <= s.len(),
        all_digits(s.subrange(k, digit_run_end(s, k))),
        digit_run_end(s, k) < s.len() ==> !is_digit(s[digit_run_end(s, k)]),
    decreases s.len() - k,
{
    if k < s.len() && is_digit(s[k]) {
        lemma_digit_run_end(s, k + 1);
        let e = digit_run_end(s, k);
        assert forall|i: int| 0 <= i < e - k implies is_digit(#[trigger] s.subrange(k, e)[i]) by {
            if i > 0 {
                assert(s.subrange(k, e)[i] == s.subrange(k + 1, e)[i - 1]);
            }
        }
    }
}

/// The line number a DXF reader's error message mentions: its first
/// positive number.
pub fn error_line_number(message: &str) -> (r: Option<u32>)
    ensures
        r == first_positive_number(message@, 0),
{
    let cs = chars_of(message);
    let n = cs.len();
    let mut k: usize = 0;
    while k < n
        invariant
            k <= n,
            n == cs@.len(),
            cs@ == message@,
            first_positive_number(cs@, 0) == first_positive_number(cs@, k as int),
        decreases n - k,
    {
        if !('0' <= cs[k] && cs[k] <= '9') {
            k += 1;
        } else {
            let mut e = k;
            while e < n && '0' <= cs[e] && cs[e] <= '9'
                invariant
                    k <= e <= n,
                    n == cs@.len(),
                    digit_run_end(cs@, k as int) == digit_run_end(cs@, e as int),
                decreases n - e,
            {
                e += 1;
            }
            proof {
                lemma_digit_run_end(cs@, k as int);
            }
            assert(e as int == digit_run_end(cs@, k as int));
            let v = digits_in(&cs, k, e, 0xFFFF_FFFF);
            assert(cs@.subrange(k as int, e as int)[0] != '+');
            match v {
                Some(x) => {
                    if x > 0 {
                        return Some(x as u32);
                    }
                },
                None => {},
            }
            k = e;
        }
    }
    None
}

/// Where a DXF read error points: the file and the first positive number
/// of the reader's message as the line.
pub fn parse_error_span(filename: &str, message: &str) -> (r: Option<SourceSpan>)
    ensures
        match first_positive_number(message@, 0) {
            Some(line) => r matches Some(sp) && sp.file@ == filename@ && sp.line == line && sp.column == 0,
            None => r is None,
        },
{
    match error_line_number(message) {
        Some(line) => Some(SourceSpan { file: String::from_str(filename), line, column: 0 }),
        None => None,
    }
}

} // verus!

use wiac_core::errors::ErrorKind;
use wiac_core::geometry::{PointNm, Segment, SegmentKind};
use wiac_core::hatch::{pairs_from_text, text_lines};
use wiac_core::input::{ImportFormat, error_line_number, format_for_extension, import_format, parse_error_span};
use wiac_core::layers::summarize_layers;
use wiac_core::svg_font::{attr, looks_like_svg, missing_font_face, parse_unicode_attr, scan_font_tags};
use wiac_core::text::{face_family_name, family_name_says_single_line, name_is_single_line};

#[test]
fn looks_like_svg_sniff() {
    assert!(looks_like_svg(b"<?xml version=\"1.0\"?>\n<svg></svg>"));
    assert!(looks_like_svg(b"<svg></svg>"));
    assert!(looks_like_svg(b"  \n<?xml ?>"));
    assert!(!looks_like_svg(b"\x00\x01OTTO"));
    assert!(!looks_like_svg(b"\x00\x01\x00\x00"));
}

#[test]
fn looks_like_svg_ignores_a_character_cut_by_the_512_byte_limit() {
    let cut = [b"<svg>".as_slice(), &[b' '; 506], "\u{e9}".as_bytes()].concat();
    assert_eq!(cut.len(), 513);
    assert!(looks_like_svg(&cut));
    let binary = [b"<svg>".as_slice(), &[0xffu8; 600]].concat();
    assert!(!looks_like_svg(&binary));
}

#[test]
fn looks_like_svg_only_reads_the_first_512_bytes() {
    let mut late = vec![b' '; 600];
    late.extend_from_slice(b"<svg></svg>");
    assert!(!looks_like_svg(&late));
    assert!(looks_like_svg(b"<!DOCTYPE svg PUBLIC>"));
    assert!(!looks_like_svg(b"\xff<svg>"));
}

#[test]
fn parser_rejects_non_svg_bytes() {
    let bytes = b"not svg bytes\n";
    let text = std::str::from_utf8(bytes).unwrap();
    let err = scan_font_tags(text).expect_err("should reject");
    assert!(format!("{err:?}").contains("font-face") || format!("{err:?}").contains("SVG"));
}

#[test]
fn missing_font_face_error_carries_hint() {
    let e = missing_font_face();
    assert_eq!(e.kind, ErrorKind::Misconfigured);
    assert_eq!(e.message, "SVG font: missing <font-face> tag");
    assert_eq!(e.recovery_hint.as_deref(), Some("This file isn't an SVG 1.1 font."));
}

#[test]
fn attr_reads_quoted_value() {
    let a = r#" unicode="A" horiz-adv-x="600" d="M 0 0 L 1 1""#;
    assert_eq!(attr(a, "unicode").as_deref(), Some("A"));
    assert_eq!(attr(a, "horiz-adv-x").as_deref(), Some("600"));
    assert_eq!(attr(a, "d").as_deref(), Some("M 0 0 L 1 1"));
    assert_eq!(attr(a, "missing"), None);
    assert_eq!(attr(r#"d="open"#, "d"), None);
}

#[test]
fn unicode_attr_forms() {
    assert_eq!(parse_unicode_attr(r#"unicode="&#x21;""#), Some('!'));
    assert_eq!(parse_unicode_attr(r#"unicode="&#X21;""#), None);
    assert_eq!(parse_unicode_attr(r#"unicode="&#x4F;""#), Some('O'));
    assert_eq!(parse_unicode_attr(r#"unicode="&#33;""#), Some('!'));
    assert_eq!(parse_unicode_attr(r#"unicode="A""#), Some('A'));
    assert_eq!(parse_unicode_attr(r#"unicode="AB""#), None);
    assert_eq!(parse_unicode_attr(r#"unicode="""#), None);
    assert_eq!(parse_unicode_attr(r#"unicode="&#xD800;""#), None);
    assert_eq!(parse_unicode_attr(r#"unicode="&#x110000;""#), None);
    assert_eq!(parse_unicode_attr(r#"unicode="&#x;""#), None);
    assert_eq!(parse_unicode_attr(r#"d="M 0 0""#), None);
}

#[test]
fn font_tags_scan_header_and_glyphs() {
    let src = r#"<svg><font horiz-adv-x="500"><font-face font-family="Demo" units-per-em="900"/>
<glyph unicode="A" d="M 0 0 L 1 1"/><glyph unicode="&#x42;" d="M 1 1"/><glyph unicode="ab"/><glyph d="x"/>
<glyph unicode="C""#;
    let tags = scan_font_tags(src).expect("header");
    assert_eq!(tags.family_name, "Demo");
    assert_eq!(tags.face_attrs, r#" font-family="Demo" units-per-em="900"/"#);
    let got: Vec<(char, String)> = tags.glyphs.iter().map(|g| (g.unicode, g.attrs.clone())).collect();
    assert_eq!(
        got,
        vec![('A', r#" unicode="A" d="M 0 0 L 1 1"/"#.to_string()), ('B', r#" unicode="&#x42;" d="M 1 1"/"#.to_string())]
    );
    let plain = scan_font_tags("<font-face units-per-em=\"1000\">").expect("header");
    assert_eq!(plain.family_name, "SVG font");
    assert!(plain.glyphs.is_empty());
}

#[test]
fn import_format_by_extension() {
    assert_eq!(format_for_extension(Some("dxf")).ok(), Some(ImportFormat::Dxf));
    assert_eq!(format_for_extension(Some("SVG")).ok(), Some(ImportFormat::Svg));
    let e = format_for_extension(Some("PDF")).err().expect("unsupported");
    assert_eq!(e.kind, ErrorKind::Unsupported);
    assert_eq!(e.message, "file format 'pdf'");
    assert_eq!(e.recovery_hint.as_deref(), Some("Supported import formats: DXF, SVG."));
    let none = format_for_extension(None).err().expect("unsupported");
    assert_eq!(none.message, "file format ''");
    assert_eq!(import_format("drawings/part.DXF").ok(), Some(ImportFormat::Dxf));
    assert_eq!(import_format("logo.svg").ok(), Some(ImportFormat::Svg));
    assert!(import_format("README").is_err());
}

#[test]
fn import_format_reads_only_the_file_names_last_extension() {
    assert_eq!(import_format("archive.tar.svg").ok(), Some(ImportFormat::Svg));
    let hidden = import_format(".dxf").err().expect("a leading dot is no extension");
    assert_eq!(hidden.message, "file format ''");
    let dir = import_format("parts.dxf/outline").err().expect("the directory's dot does not count");
    assert_eq!(dir.message, "file format ''");
    let trailing = import_format("part.").err().expect("empty extension");
    assert_eq!(trailing.message, "file format ''");
    let other = import_format("part.Dxf2").err().expect("unsupported");
    assert_eq!(other.message, "file format 'dxf2'");
}

#[test]
fn dxf_error_line_is_first_positive_number() {
    assert_eq!(error_line_number("Unexpected value at line 0042 (code 10)"), Some(42));
    assert_eq!(error_line_number("error 0 then 7"), Some(7));
    assert_eq!(error_line_number("no digits here"), None);
    assert_eq!(error_line_number("too big 99999999999 then 3"), Some(3));
    let span = parse_error_span("part.dxf", "bad pair at line 12").expect("span");
    assert_eq!((span.file.as_str(), span.line, span.column), ("part.dxf", 12, 0));
    assert!(parse_error_span("part.dxf", "no number").is_none());
}

#[test]
fn text_lines_follow_str_lines() {
    let lines: Vec<String> = text_lines("foo\r\nbar\n\nbaz\r").iter().map(|l| l.iter().collect()).collect();
    assert_eq!(lines, vec!["foo", "bar", "", "baz\r"]);
    assert!(text_lines("").is_empty());
    assert_eq!(text_lines("a\n").len(), 1);
}

#[test]
fn dxf_pairs_from_text() {
    let text = "  0\r\nSECTION\r\n  2\nENTITIES\nnot a code\n 8 \n  LAYER1  \n62";
    let pairs = pairs_from_text(text);
    assert_eq!(
        pairs,
        vec![(0, "SECTION".to_string()), (2, "ENTITIES".to_string()), (8, "LAYER1".to_string())]
    );
    assert_eq!(pairs_from_text("-5\nneg\n2147483648\nx\n"), vec![(-5, "neg".to_string())]);
}

fn seg(layer: &str, color: i32) -> Segment {
    Segment {
        kind: SegmentKind::Line,
        start: PointNm { x: 0, y: 0 },
        end: PointNm { x: 1, y: 1 },
        layer: layer.to_string(),
        color,
    }
}

#[test]
fn layer_summary_sorted_with_first_colors_and_seeds() {
    let segs = vec![seg("b", 3), seg("a", 1), seg("b", 5), seg("B", 2)];
    let seeds = vec![("c".to_string(), 9), ("a".to_string(), 4)];
    let layers = summarize_layers(&segs, &seeds);
    let got: Vec<(String, i32, usize)> = layers.iter().map(|l| (l.name.clone(), l.color, l.segment_count)).collect();
    assert_eq!(
        got,
        vec![
            ("B".to_string(), 2, 1),
            ("a".to_string(), 1, 1),
            ("b".to_string(), 3, 2),
            ("c".to_string(), 9, 0),
        ]
    );
    assert!(summarize_layers(&[], &[]).is_empty());
}

#[test]
fn single_line_font_names() {
    assert!(name_is_single_line("Hershey Sans 1-stroke"));
    assert!(name_is_single_line("OSIFONT"));
    assert!(name_is_single_line("My Single-Line Font"));
    assert!(!name_is_single_line("DejaVu Sans"));
    let names = vec![(2u16, "Hershey".to_string()), (1u16, "DejaVu Sans".to_string())];
    assert!(!family_name_says_single_line(&names));
    let names2 = vec![(6u16, "RhSS-Regular".to_string())];
    assert!(family_name_says_single_line(&names2));
    assert_eq!(face_family_name(&names).as_deref(), Some("DejaVu Sans"));
    assert_eq!(face_family_name(&names2), None);
}

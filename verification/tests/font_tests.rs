use wiac_core::errors::ErrorKind;
use wiac_core::text::{font_name_info, name_info_from_table};

fn be16(out: &mut Vec<u8>, v: u16) {
    out.extend_from_slice(&v.to_be_bytes());
}

fn be32(out: &mut Vec<u8>, v: u32) {
    out.extend_from_slice(&v.to_be_bytes());
}

/// A minimal TrueType file: `head`, `hhea`, `maxp` and a `name` table
/// with the given (platform, encoding, name id, text) records.
fn font_with_names(names: &[(u16, u16, u16, &str)]) -> Vec<u8> {
    let mut head = Vec::new();
    be32(&mut head, 0x0001_0000);
    be32(&mut head, 0x0001_0000);
    be32(&mut head, 0);
    be32(&mut head, 0x5F0F_3CF5);
    be16(&mut head, 0);
    be16(&mut head, 1000);
    head.extend_from_slice(&[0u8; 16]);
    head.extend_from_slice(&[0u8; 8]);
    be16(&mut head, 0);
    be16(&mut head, 8);
    be16(&mut head, 2);
    be16(&mut head, 0);
    be16(&mut head, 0);
    assert_eq!(head.len(), 54);
    let mut hhea = Vec::new();
    be32(&mut hhea, 0x0001_0000);
    hhea.extend_from_slice(&[0u8; 30]);
    be16(&mut hhea, 1);
    assert_eq!(hhea.len(), 36);
    let mut maxp = Vec::new();
    be32(&mut maxp, 0x0000_5000);
    be16(&mut maxp, 1);
    let mut storage = Vec::new();
    let mut records = Vec::new();
    for (platform, encoding, id, text) in names {
        let bytes: Vec<u8> = text.encode_utf16().flat_map(|u| u.to_be_bytes()).collect();
        be16(&mut records, *platform);
        be16(&mut records, *encoding);
        be16(&mut records, 0x0409);
        be16(&mut records, *id);
        be16(&mut records, bytes.len() as u16);
        be16(&mut records, storage.len() as u16);
        storage.extend_from_slice(&bytes);
    }
    let mut name = Vec::new();
    be16(&mut name, 0);
    be16(&mut name, names.len() as u16);
    be16(&mut name, (6 + 12 * names.len()) as u16);
    name.extend_from_slice(&records);
    name.extend_from_slice(&storage);
    let tables: [(&[u8; 4], &Vec<u8>); 4] = [(b"head", &head), (b"hhea", &hhea), (b"maxp", &maxp), (b"name", &name)];
    let mut out = Vec::new();
    be32(&mut out, 0x0001_0000);
    be16(&mut out, 4);
    out.extend_from_slice(&[0u8; 6]);
    let mut offset = 12 + 16 * tables.len();
    for (tag, data) in &tables {
        out.extend_from_slice(*tag);
        be32(&mut out, 0);
        be32(&mut out, offset as u32);
        be32(&mut out, data.len() as u32);
        offset += data.len();
    }
    for (_, data) in &tables {
        out.extend_from_slice(data);
    }
    out
}

#[test]
fn font_name_info_reads_family_and_single_line_marker() {
    let bytes = font_with_names(&[
        (1, 0, 1, "Mac Family"),
        (3, 1, 1, "Plotter Sans"),
        (3, 1, 4, "Hershey Simplex"),
        (3, 1, 1, "Later Family"),
    ]);
    let (single_line, family) = font_name_info(&bytes, "hint").expect("parses");
    assert!(single_line, "the full name says Hershey");
    assert_eq!(family.as_deref(), Some("Plotter Sans"), "first decodable family name");
}

#[test]
fn font_name_info_on_an_outline_font() {
    let bytes = font_with_names(&[(3, 1, 1, "Roboto"), (3, 1, 2, "Regular")]);
    assert_eq!(font_name_info(&bytes, "hint").expect("parses"), (false, Some("Roboto".to_string())));
    let unnamed = font_with_names(&[(3, 1, 2, "Regular"), (3, 1, 5, "Hershey 1.0")]);
    assert_eq!(font_name_info(&unnamed, "hint").expect("parses"), (false, None), "id 5 is not checked");
}

#[test]
fn font_name_info_rejects_non_font_bytes() {
    let e = font_name_info(b"not a font", "Pick a different font or install one.").err().expect("error");
    assert_eq!(e.kind, ErrorKind::Misconfigured);
    assert_eq!(e.message, "ttf parse: unknown magic");
    assert_eq!(e.recovery_hint.as_deref(), Some("Pick a different font or install one."));
}

#[test]
fn name_info_from_a_table_drops_undecodable_entries() {
    let table = Ok(vec![(1u16, None), (6u16, Some("RhSS-Regular".to_string())), (1u16, Some("RhSS".to_string()))]);
    assert_eq!(name_info_from_table(table, "h").expect("ok"), (true, Some("RhSS".to_string())));
    let e = name_info_from_table(Err("malformed font".to_string()), "Pick a different font for this text layer.").err().expect("error");
    assert_eq!(e.message, "ttf parse: malformed font");
    assert_eq!(e.recovery_hint.as_deref(), Some("Pick a different font for this text layer."));
}

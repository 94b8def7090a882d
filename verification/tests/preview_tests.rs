use wiac_core::pipeline::count_tool_changes;
use wiac_core::preview::{MoveKind, Modal, NO_SEGMENT, apply_g_word, build_gcode_index, classify_move, gcode_words, is_canned_cycle, parse_op_marker, strip_comment};

#[test]
fn strip_comment_drops_parens_and_semicolon_tail() {
    assert_eq!(strip_comment("G0 X1 (rapid) Y2 ; note"), "G0 X1  Y2 ");
    assert_eq!(strip_comment("(setup)"), "");
    assert_eq!(strip_comment("; just a note"), "");
    assert_eq!(strip_comment("G1 (open comment"), "G1 ");
}

#[test]
fn op_markers() {
    assert_eq!(parse_op_marker("; OP 1"), Some(1));
    assert_eq!(parse_op_marker("  (op 23)  "), Some(23));
    assert_eq!(parse_op_marker(";OP +7"), Some(7));
    assert_eq!(parse_op_marker("; OP 2 (pause)"), None);
    assert_eq!(parse_op_marker("G0 X1"), None);
    assert_eq!(parse_op_marker("; OPx"), None);
    assert_eq!(parse_op_marker("; OP 4294967296"), None);
}

#[test]
fn modal_g_words() {
    let m = Modal { active_code: 0, inch: false };
    assert_eq!(apply_g_word(m, "1"), Modal { active_code: 1, inch: false });
    assert_eq!(apply_g_word(m, "81"), Modal { active_code: 81, inch: false });
    assert_eq!(apply_g_word(m, "20"), Modal { active_code: 0, inch: true });
    assert_eq!(apply_g_word(Modal { active_code: 2, inch: true }, "21"), Modal { active_code: 2, inch: false });
    assert_eq!(apply_g_word(m, "90"), m);
    assert_eq!(apply_g_word(m, "x"), m);
    assert_eq!(apply_g_word(m, "300"), m);
    assert!(is_canned_cycle(83) && !is_canned_cycle(80));
}

#[test]
fn move_classification() {
    assert_eq!(classify_move(0, true, true, true), MoveKind::Rapid);
    assert_eq!(classify_move(1, true, true, false), MoveKind::Plunge);
    assert_eq!(classify_move(1, true, true, true), MoveKind::Retract);
    assert_eq!(classify_move(1, false, false, false), MoveKind::Cut);
    assert_eq!(classify_move(3, false, false, false), MoveKind::Arc);
}

#[test]
fn gcode_index_from_line_counts() {
    // G21 / marker / G0 / G1 / G1: one segment on each of lines 3..=5.
    let idx = build_gcode_index(&[0, 0, 1, 1, 1]);
    assert_eq!(idx.lines_to_segment, vec![NO_SEGMENT, NO_SEGMENT, 0, 1, 2]);
    assert_eq!(idx.segments_to_line, vec![3, 4, 5]);
    // An arc line tessellated into three chords points at its first chord.
    let arc = build_gcode_index(&[1, 3, 0, 2]);
    assert_eq!(arc.lines_to_segment, vec![0, 1, NO_SEGMENT, 4]);
    assert_eq!(arc.segments_to_line, vec![1, 2, 2, 2, 4, 4]);
    for (i, line) in arc.segments_to_line.iter().enumerate() {
        let first = arc.lines_to_segment[*line as usize - 1];
        assert!(first != NO_SEGMENT && first as usize <= i);
    }
}

#[test]
fn tool_change_count() {
    assert_eq!(count_tool_changes("T1 M6\n; M6 in a comment\nT2 m6 ; M6\nM61\nG0 M6\r\n"), 3);
    assert_eq!(count_tool_changes(""), 0);
}

#[test]
fn gcode_line_words() {
    let words = gcode_words("  G1 X10.5\tY-2  F800 ");
    let want: Vec<(char, String)> = vec![
        ('G', "1".to_string()),
        ('X', "10.5".to_string()),
        ('Y', "-2".to_string()),
        ('F', "800".to_string()),
    ];
    assert_eq!(words, want);
    assert!(gcode_words("   ").is_empty());
    assert_eq!(gcode_words("M"), vec![('M', String::new())]);
}

#[test]
fn gcode_words_split_a_non_ascii_letter_whole() {
    let words = gcode_words("G0 X1 \u{b0}5");
    let want: Vec<(char, String)> = vec![
        ('G', "0".to_string()),
        ('X', "1".to_string()),
        ('\u{b0}', "5".to_string()),
    ];
    assert_eq!(words, want);
}

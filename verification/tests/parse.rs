//! The structural parser: documents, groups, objects, comments,
//! continuation lines, and the lookup helpers.

use vicar::pvl::{PropertyGrouping, Pvl, Symbol};

#[test]
fn group_block_collects_properties_without_markers() {
    let text = "GROUP = IMAGE\nLINES = 10\nLINE_SAMPLES = 20\nEND_GROUP\nEND padding\n";
    let pvl = Pvl::from_string(text).unwrap();
    assert_eq!(pvl.groups.len(), 1);
    assert_eq!(pvl.properties.len(), 0);
    assert_eq!(pvl.objects.len(), 0);
    let g = pvl.get_group("IMAGE").unwrap();
    assert_eq!(g.name(), "IMAGE");
    assert_eq!(g.properties().len(), 2);
    assert!(g.has_property("LINES"));
    assert!(g.has_property("LINE_SAMPLES"));
    assert!(!g.has_property("GROUP"));
    assert!(!g.has_property("END_GROUP"));
    assert_eq!(g.get_property("LINES").unwrap().value.parse_i32().unwrap(), 10);
}

#[test]
fn object_block_is_collected_like_a_group() {
    let text = "OBJECT = IMAGE\nBANDS = 3\nEND_OBJECT\nEND padding\n";
    let pvl = Pvl::from_string(text).unwrap();
    assert_eq!(pvl.objects.len(), 1);
    let o = pvl.get_object("IMAGE").unwrap();
    assert_eq!(o.name(), "IMAGE");
    assert_eq!(o.properties().len(), 1);
    assert_eq!(o.get_property("BANDS").unwrap().value.parse_usize().unwrap(), 3);
    assert!(pvl.get_group("IMAGE").is_none());
}

#[test]
fn parsing_is_stable_across_repeated_parses() {
    let text = "A = 1\nGROUP = G1\nX = 2\nEND_GROUP\nOBJECT = O1\nY = 3\nEND_OBJECT\nB = 4\nEND padding\n";
    let first = Pvl::from_string(text).unwrap();
    let second = Pvl::from_string(text).unwrap();
    assert_eq!(first.properties.len(), second.properties.len());
    assert_eq!(first.groups.len(), second.groups.len());
    assert_eq!(first.objects.len(), second.objects.len());
    assert_eq!(first.properties.len(), 2);
    assert_eq!(first.groups.len(), 1);
    assert_eq!(first.objects.len(), 1);
}

#[test]
fn continuation_line_merges_into_one_value() {
    let prefix: String = " ".repeat(37);
    let text = format!("KEY = ABC\n{}DEF\nEND padding padding\n", prefix);
    let pvl = Pvl::from_string(&text).unwrap();
    let kvp = pvl.get_property("KEY").unwrap();
    assert_eq!(kvp.value.parse_flag().unwrap(), "ABCDEF");
}

#[test]
fn thirty_six_spaces_are_not_a_continuation() {
    let prefix: String = " ".repeat(36);
    let text = format!("KEY = ABC\n{}DEF = 1\nEND padding padding\n", prefix);
    let pvl = Pvl::from_string(&text).unwrap();
    assert_eq!(pvl.get_property("KEY").unwrap().value.parse_flag().unwrap(), "ABC");
    assert!(pvl.has_property("DEF"));
}

#[test]
fn multiline_comment_is_skipped() {
    let text = "/* a note\nspanning lines */\nA = 1\nEND padding\n";
    let pvl = Pvl::from_string(text).unwrap();
    assert_eq!(pvl.properties.len(), 1);
    assert_eq!(pvl.get_property("A").unwrap().value.parse_i32().unwrap(), 1);
}

#[test]
fn end_line_stops_the_parse() {
    let text = "A = 1\nEND more\nB = 2\n";
    let pvl = Pvl::from_string(text).unwrap();
    assert!(pvl.has_property("A"));
    assert!(!pvl.has_property("B"));
}

#[test]
fn space_filled_blank_lines_are_skipped_inside_blocks() {
    let text = "GROUP = G1
A = 1
   
B = 2
END_GROUP
END padding
";
    let pvl = Pvl::from_string(text).unwrap();
    let g = pvl.get_group("G1").unwrap();
    assert_eq!(g.properties().len(), 2);
    assert!(g.has_property("A"));
    assert!(g.has_property("B"));
}

#[test]
fn empty_lines_are_skipped() {
    let text = "A = 1\n\n\nB = 2\nEND padding\n";
    let pvl = Pvl::from_string(text).unwrap();
    assert_eq!(pvl.properties.len(), 2);
}

#[test]
fn carriage_returns_are_stripped() {
    let text = "A = 1\r\nB = 2\r\nEND padding\r\n";
    let pvl = Pvl::from_string(text).unwrap();
    assert_eq!(pvl.properties.len(), 2);
    assert_eq!(pvl.get_property("B").unwrap().value.parse_i32().unwrap(), 2);
}

#[test]
fn pointer_keys_are_found_by_name() {
    let text = "^IMAGE = (\"FILE.IMG\")\nEND padding\n";
    let pvl = Pvl::from_string(text).unwrap();
    let kvp = pvl.get_property("^IMAGE").unwrap();
    assert!(matches!(kvp.key, Symbol::Pointer(_)));
    let items = kvp.value.parse_array().unwrap();
    assert_eq!(items[0].parse_string().unwrap(), "FILE.IMG");
}

#[test]
fn first_match_wins_on_duplicate_names() {
    let text = "K = 1\nK = 2\nEND padding\n";
    let pvl = Pvl::from_string(text).unwrap();
    assert_eq!(pvl.get_property("K").unwrap().value.parse_i32().unwrap(), 1);
}

#[test]
fn lookup_is_case_sensitive() {
    let text = "Key = 1\nEND padding\n";
    let pvl = Pvl::from_string(text).unwrap();
    assert!(pvl.has_property("Key"));
    assert!(!pvl.has_property("KEY"));
}

use katana::repair::repair_paragraph;
use katana::repair::repair_sentence;
use katana::repair::repair_sentences;

fn strings(parts: &[&str]) -> Vec<String> {
    parts.iter().map(|part| String::from(*part)).collect()
}

#[test]
fn period_markers_become_periods() {
    assert_eq!(repair_sentence("et al.&;& x"), "et al.. x");
    assert_eq!(repair_sentence("1&@&5 and &#&625"), "1.5 and .625");
    assert_eq!(repair_sentence("U&-&A&-&E&-&R&-& x"), "U.A.E.R. x");
    assert_eq!(repair_sentence("C&_& Jeung"), "C. Jeung");
    assert_eq!(repair_sentence("Dr&*& Who"), "Dr. Who");
}

#[test]
fn suspension_marker_becomes_two_periods() {
    assert_eq!(repair_sentence("minutes&&&."), "minutes...");
    assert_eq!(repair_sentence("&&&&&&"), "....");
}

#[test]
fn parenthesis_goes_behind_its_terminator() {
    assert_eq!(repair_sentence("in parens&==&."), "in parens.)");
    assert_eq!(repair_sentence("really&==&? more&==&!"), "really?) more!)");
}

#[test]
fn quotes_go_around_their_terminator() {
    assert_eq!(repair_sentence("'protests&^&?"), "'protests'?\"");
    assert_eq!(repair_sentence("'odd&**&."), "'odd'.”");
}

#[test]
fn quotes_go_behind_their_terminator() {
    assert_eq!(repair_sentence("making&=&?"), "making?”");
    assert_eq!(repair_sentence("'odd&,&."), "'odd.'\"");
    assert_eq!(repair_sentence("'odd&##&!"), "'odd!'");
    assert_eq!(repair_sentence("Stop&$&."), "Stop.\"");
}

#[test]
fn marker_without_terminator_stays() {
    assert_eq!(repair_sentence("&==&x &=& &$& &^&"), "&==&x &=& &$& &^&");
}

#[test]
fn repaired_sentence_is_trimmed() {
    assert_eq!(repair_sentence("  in parens&==&.  "), "in parens.)");
    assert_eq!(repair_sentence("\t x \n"), "x");
    assert_eq!(repair_sentence("   "), "");
    assert_eq!(repair_sentence(""), "");
}

#[test]
fn empty_sentences_are_dropped() {
    let paragraph = strings(&["  one. ", "   ", "", " two&@&5"]);
    assert_eq!(repair_paragraph(&paragraph), strings(&["one.", "two.5"]));
}

#[test]
fn empty_paragraphs_are_dropped() {
    let paragraphs = vec![
        strings(&["  ", ""]),
        strings(&[" a&_& b. ", " "]),
        Vec::new(),
        strings(&["c&==&."]),
    ];
    let expected = vec![strings(&["a. b."]), strings(&["c.)"])];
    assert_eq!(repair_sentences(paragraphs), expected);
}

#[test]
fn nothing_repairs_to_nothing() {
    let expected: Vec<Vec<String>> = Vec::new();
    assert_eq!(repair_sentences(Vec::new()), expected);
}

#[test]
fn sentence_without_the_mark_is_only_trimmed() {
    assert_eq!(repair_sentence("  plain. \t"), "plain.");
    assert_eq!(repair_sentence("a ^ b == c $ d."), "a ^ b == c $ d.");
}

use katana::segment::split_sentences;

fn pieces(parts: &[&[&str]]) -> Vec<Vec<String>> {
    parts.iter().map(|part| part.iter().map(|s| String::from(*s)).collect()).collect()
}

#[test]
fn nothing_is_split_into_nothing() {
    assert_eq!(split_sentences(""), pieces(&[]));
    assert_eq!(split_sentences("\n"), pieces(&[]));
    assert_eq!(split_sentences("\n\n\n"), pieces(&[]));
}

#[test]
fn terminator_closes_a_sentence_and_is_kept() {
    assert_eq!(split_sentences("a.b"), pieces(&[&["a.", "b"]]));
    assert_eq!(split_sentences("a. b? c!"), pieces(&[&["a.", " b?", " c!"]]));
    assert_eq!(split_sentences("one"), pieces(&[&["one"]]));
}

#[test]
fn newline_closes_sentence_and_paragraph() {
    assert_eq!(split_sentences("a\nb"), pieces(&[&["a"], &["b"]]));
    assert_eq!(split_sentences("a.\nb"), pieces(&[&["a."], &["b"]]));
    assert_eq!(split_sentences("a. b\n\nc\n"), pieces(&[&["a.", " b"], &["c"]]));
}

#[test]
fn whitespace_is_kept_as_it_is() {
    assert_eq!(split_sentences("  a  .  b  "), pieces(&[&["  a  .", "  b  "]]));
    assert_eq!(split_sentences("\t\n ."), pieces(&[&["\t"], &[" ."]]));
}

#[test]
fn terminators_in_a_row_are_sentences() {
    assert_eq!(split_sentences("..."), pieces(&[&[".", ".", "."]]));
    assert_eq!(split_sentences("?!"), pieces(&[&["?", "!"]]));
    assert_eq!(split_sentences("a..\n!"), pieces(&[&["a.", "."], &["!"]]));
}

#[test]
fn sentences_put_together_are_the_text_without_newlines() {
    let text = "One. Two  three?\n\nFour!five\n six ";
    let together: String = split_sentences(text).into_iter().flatten().collect();
    assert_eq!(together, text.replace("\n", ""));
}

#[test]
fn paragraphs_are_the_lines_that_are_not_empty() {
    let text = "One. Two\n\n \nThree!\n";
    let found = split_sentences(text);
    let lines: Vec<&str> = text.split('\n').filter(|line| !line.is_empty()).collect();
    assert_eq!(found.len(), lines.len());
    for (paragraph, line) in found.iter().zip(lines) {
        assert_eq!(paragraph.concat(), line);
    }
}

#[test]
fn only_the_last_sentence_of_a_paragraph_may_lack_a_terminator() {
    for paragraph in split_sentences("a. b? c\nd!\ne") {
        let (last, others) = paragraph.split_last().unwrap();
        for sentence in others {
            assert!(sentence.ends_with(['.', '?', '!']));
            assert_eq!(sentence.matches(['.', '?', '!']).count(), 1);
        }
        assert!(last.matches(['.', '?', '!']).count() <= 1);
        assert!(!last.is_empty());
    }
}

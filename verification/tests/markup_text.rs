use katana::markup::join_lines;
use katana::markup::prepare_markdown;
use katana::markup::remove_html_tags;
use katana::markup::render_paragraphs;
use katana::markup::replace_abbreviations;
use katana::markup::replace_matched_abbreviations;
use katana::markup::tidy_lines;
use katana::markup::unescape_html;
use katana::markup::ENTITIES;
use katana::rules::ABBREVIATIONS;

#[test]
fn entities_are_decoded() {
    assert_eq!(unescape_html("Tom &amp; Jerry &lt;3 &eacute;t&eacute;&nbsp;x"), "Tom & Jerry <3 été x");
    assert_eq!(unescape_html("&shy;&yuml;&quot;&#39;&apos;"), "\u{ad}ÿ\"''");
    assert_eq!(unescape_html("no entity & here"), "no entity & here");
    assert_eq!(unescape_html(""), "");
}

#[test]
fn entities_are_decoded_one_after_the_other() {
    assert_eq!(unescape_html("&amp;lt;"), "<");
    assert_eq!(unescape_html("&amp;amp;"), "&amp;");
    assert_eq!(unescape_html("&lt;amp;"), "<amp;");
}

#[test]
fn abbreviations_lose_their_periods() {
    assert_eq!(replace_abbreviations("e.g. this vs. that, i.e. more etc."), "eg this vs that, ie more etc");
    assert_eq!(replace_abbreviations("Meet dr. Who at 5 p.m. in the u.s. today"), "Meet dr Who at 5 pm in the us today");
    assert_eq!(replace_abbreviations("nothing here"), "nothing here");
    assert_eq!(replace_abbreviations(""), "");
}

#[test]
fn abbreviation_is_replaced_only_where_its_pattern_matched() {
    assert_eq!(replace_abbreviations("ei.e.tc."), "eietc.");
    assert_eq!(replace_abbreviations("mrs x"), "mrs x");
}

#[test]
fn lines_are_trimmed_and_notes_dropped() {
    assert_eq!(tidy_lines("a\n  b  \n^  note\n\nc"), "a\nb\n\nc");
    assert_eq!(tidy_lines("^  x"), "");
    assert_eq!(tidy_lines("  ^  y\nz"), "z");
    assert_eq!(tidy_lines("^ one space stays"), "^ one space stays");
    assert_eq!(tidy_lines(""), "");
}

#[test]
fn lines_are_put_on_one_line() {
    assert_eq!(join_lines("a\n  b  \n\n \t\nc"), "a b c");
    assert_eq!(join_lines("one line"), "one line");
    assert_eq!(join_lines("\n\n"), "");
    assert_eq!(join_lines(""), "");
}

#[test]
fn markup_is_cleared_away() {
    assert_eq!(remove_html_tags("<h1>Title</h1><p>Hello &amp; bye.[1] See you.</p><!-- a\nnote -->"), "Title\n\nHello & bye.See you.");
    assert_eq!(remove_html_tags("A line.\n   \n\n\n\nNext <b>bold</b> e.g. this. [12] End."), "A line.\n\nNext bold eg this.End.");
    assert_eq!(remove_html_tags("a  b   c"), "a b  c");
    assert_eq!(remove_html_tags("plain"), "plain");
    assert_eq!(remove_html_tags(""), "");
}

#[test]
fn markdown_is_cut_and_written_out() {
    assert_eq!(prepare_markdown("<h2>Head</h2>One sentence. Another one!\n\n\n\nSecond part."), "Head\n\nOne sentence. Another one!\n\nSecond part.");
    assert_eq!(prepare_markdown("<h1>Title</h1><p>Hello &amp; bye.[1] See you.</p>"), "Title\n\nHello & bye. See you.");
    assert_eq!(prepare_markdown(""), "");
}

#[test]
fn tables_have_their_entries() {
    assert_eq!(ENTITIES.len(), 100);
    assert_eq!(ENTITIES[0], ("&nbsp;", " "));
    assert_eq!(ENTITIES[99], ("&yuml;", "ÿ"));
    assert_eq!(ABBREVIATIONS.len(), 26);
    assert_eq!(ABBREVIATIONS[0], ("i.e.", "ie"));
    assert_eq!(ABBREVIATIONS[25], ("u.k.", "uk"));
}

#[test]
fn matched_abbreviations_are_replaced_in_the_given_order() {
    assert_eq!(replace_matched_abbreviations("i.e. e.g. etc.", &vec![1, 2]), "i.e. eg etc");
    assert_eq!(replace_matched_abbreviations("i.e. e.g. etc.", &Vec::new()), "i.e. e.g. etc.");
}

#[test]
fn paragraphs_are_written_with_blank_lines_between() {
    let paragraphs = vec![
        vec![String::from("One."), String::from("Two.")],
        vec![String::from("Three.")],
    ];
    assert_eq!(render_paragraphs(&paragraphs), "One. Two.\n\nThree.");
    assert_eq!(render_paragraphs(&Vec::new()), "");
}

#[test]
fn text_without_a_period_keeps_its_abbreviations() {
    let texts = ["", "eg ie etc", "mr and mrs x, dr y", "line\nline", "a!b?c"];
    for text in texts {
        assert_eq!(replace_abbreviations(text), text);
    }
}

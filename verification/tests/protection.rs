use katana::protect::handle_floats_without_leading_zero;
use katana::protect::protect;
use katana::protect::remove_abbreviations;
use katana::protect::remove_composite_abbreviations;
use katana::protect::remove_floating_point_numbers;
use katana::protect::remove_initials;
use katana::protect::remove_sentence_enders_before_parens;
use katana::protect::remove_sentence_enders_next_to_quotes;
use katana::protect::remove_suspension_points;
use katana::protect::remove_titles;
use katana::protect::unstick_sentences;

#[test]
fn second_period_after_et_al_is_marked() {
    assert_eq!(remove_composite_abbreviations("Smith et al.. wrote it"), "Smith et al.&;& wrote it");
    assert_eq!(remove_composite_abbreviations("et al. alone"), "et al. alone");
    assert_eq!(remove_composite_abbreviations(""), "");
}

#[test]
fn three_periods_are_marked_and_one_is_left() {
    assert_eq!(remove_suspension_points("Wait... what"), "Wait&&&. what");
    assert_eq!(remove_suspension_points("four.... two.."), "four&&&.. two..");
    assert_eq!(remove_suspension_points("......"), "&&&.&&&.");
}

#[test]
fn decimal_point_is_marked() {
    assert_eq!(remove_floating_point_numbers("about 1.5 minutes"), "about 1&@&5 minutes");
    assert_eq!(remove_floating_point_numbers("10.25.3 and 007.0"), "10&@&25.3 and 007&@&0");
    assert_eq!(remove_floating_point_numbers("no 1. 5 here and .5"), "no 1. 5 here and .5");
}

#[test]
fn decimal_point_after_whitespace_is_marked() {
    assert_eq!(handle_floats_without_leading_zero("to be .625"), "to be &#&625");
    assert_eq!(handle_floats_without_leading_zero("tab\t.5 and x.5 and .x"), "tab\t&#&5 and x.5 and .x");
    assert_eq!(handle_floats_without_leading_zero("a\n.5"), "a\n&#&5");
    assert_eq!(handle_floats_without_leading_zero("wide\u{3000}.75"), "wide\u{3000}&#&75");
    assert_eq!(handle_floats_without_leading_zero(".5 at the start"), ".5 at the start");
}

#[test]
fn periods_of_an_abbreviation_are_marked() {
    assert_eq!(remove_abbreviations("the U.A.E.R. and e.g. here"), "the U&-&A&-&E&-&R&-& and e&-&g&-& here");
    assert_eq!(remove_abbreviations("not a. b. or x."), "not a. b. or x.");
    assert_eq!(remove_abbreviations("ab.c.d."), "ab&-&c&-&d&-&");
}

#[test]
fn period_after_a_capital_is_marked() {
    assert_eq!(remove_initials("Dr. C. Jeung and J.K. Rowling"), "Dr. C&_& Jeung and J&_&K&_& Rowling");
    assert_eq!(remove_initials("a. b. c."), "a. b. c.");
}

#[test]
fn period_after_a_short_title_is_marked() {
    assert_eq!(remove_titles("Dr. Who and Prof. X and Mr. Y"), "Dr&*& Who and Prof&*& X and Mr&*& Y");
    assert_eq!(remove_titles("Professor. Z and it. and A."), "Professor. Z and it. and A.");
}

#[test]
fn space_is_put_after_a_stuck_terminator() {
    assert_eq!(unstick_sentences("Hello.World"), "Hello. World");
    assert_eq!(unstick_sentences("What?No!Yes."), "What? No! Yes.");
    assert_eq!(unstick_sentences("end.\" q and end.' q and end. q"), "end.\" q and end.' q and end. q");
}

#[test]
fn parenthesis_after_a_terminator_is_marked() {
    assert_eq!(remove_sentence_enders_before_parens("(in parens.) and (really? ) and (no)"), "(in parens&==&. and (really&==&? and (no)");
    assert_eq!(remove_sentence_enders_before_parens("(two!  )"), "(two!  )");
    assert_eq!(remove_sentence_enders_before_parens("(tab.\t)"), "(tab&==&.");
}

#[test]
fn single_then_double_quote_is_marked() {
    assert_eq!(remove_sentence_enders_next_to_quotes("'protests'?\" x"), "'protests&^&? x");
    assert_eq!(remove_sentence_enders_next_to_quotes("'protests'! \"x"), "'protests&^&!x");
}

#[test]
fn single_then_typographic_quote_is_marked() {
    assert_eq!(remove_sentence_enders_next_to_quotes("'odd'.” x"), "'odd&**&. x");
}

#[test]
fn typographic_quote_is_marked() {
    assert_eq!(remove_sentence_enders_next_to_quotes("making?” Others"), "making&=&? Others");
    assert_eq!(remove_sentence_enders_next_to_quotes("making. ” Others"), "making&=&. Others");
}

#[test]
fn both_quotes_after_a_terminator_are_marked() {
    assert_eq!(remove_sentence_enders_next_to_quotes("'odd.'\" x"), "'odd&,&. x");
}

#[test]
fn single_quote_after_a_terminator_is_marked() {
    assert_eq!(remove_sentence_enders_next_to_quotes("'odd.' x"), "'odd&##&. x");
    assert_eq!(remove_sentence_enders_next_to_quotes("odd? 'x"), "odd&##&?x");
}

#[test]
fn double_quote_after_a_terminator_is_marked() {
    assert_eq!(remove_sentence_enders_next_to_quotes("\"Stop.\" He"), "\"Stop&$&. He");
    assert_eq!(remove_sentence_enders_next_to_quotes("go!\" and go? \" and go\""), "go&$&! and go&$&? and go\"");
}

#[test]
fn text_without_terminator_is_left_as_it_is() {
    assert_eq!(protect("no terminator, 'quoted' (and) \"more\"\n"), "no terminator, 'quoted' (and) \"more\"\n");
    assert_eq!(protect(" \t "), " \t ");
}

#[test]
fn rules_are_applied_in_their_order() {
    assert_eq!(protect(""), "");
    assert_eq!(
        protect("Dr. C. Jeung saw 1.5 and .625 in the U.A.E.R. (yes.) Hm...What"),
        "Dr&*& C&_& Jeung saw 1&@&5 and &#&625 in the U&-&A&-&E&-&R&-& (yes&==&. Hm&&&. What"
    );
    assert_eq!(protect("Smith et al.. wrote it."), "Smith et al. &;& wrote it.");
}

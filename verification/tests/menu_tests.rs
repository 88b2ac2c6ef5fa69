use fibonacci::fib::fibonacci_fresh;
use fibonacci::menu::{classify, InputError, ParseError, Selection};

#[test]
fn five_evaluates_to_five() {
    let sel = classify("5");
    assert_eq!(sel, Selection::NumericChoice(5));
    assert_eq!(fibonacci_fresh(5), Some(5));
}

#[test]
fn the_largest_index_evaluates_exactly() {
    let sel = classify("186");
    assert_eq!(sel, Selection::NumericChoice(186));
    assert_eq!(
        fibonacci_fresh(186),
        Some(332825110087067562321196029789634457848u128)
    );
}

#[test]
fn out_of_range_is_rejected_before_evaluation() {
    assert_eq!(classify("187"), Selection::Invalid(InputError::OutOfRange));
    assert_eq!(classify("1000"), Selection::Invalid(InputError::OutOfRange));
}

#[test]
fn letters_are_a_parse_failure() {
    assert_eq!(
        classify("abc"),
        Selection::Invalid(InputError::Unparsable(ParseError::InvalidDigit))
    );
}

#[test]
fn quit_is_recognised() {
    assert_eq!(classify("q"), Selection::Quit);
    assert_eq!(classify("  q\n"), Selection::Quit);
}

#[test]
fn the_base_indices_evaluate_to_their_terms() {
    assert_eq!(classify("0"), Selection::NumericChoice(0));
    assert_eq!(fibonacci_fresh(0), Some(0));
    assert_eq!(classify("1"), Selection::NumericChoice(1));
    assert_eq!(fibonacci_fresh(1), Some(1));
}

#[test]
fn surrounding_whitespace_is_trimmed() {
    assert_eq!(classify("  42\r\n"), Selection::NumericChoice(42));
    assert_eq!(classify("\t186\t"), Selection::NumericChoice(186));
    assert_eq!(classify("\u{a0}5\u{3000}"), Selection::NumericChoice(5));
}

#[test]
fn a_leading_plus_sign_is_part_of_a_number() {
    assert_eq!(classify("+7"), Selection::NumericChoice(7));
    assert_eq!(
        classify("+"),
        Selection::Invalid(InputError::Unparsable(ParseError::InvalidDigit))
    );
    assert_eq!(
        classify("+q"),
        Selection::Invalid(InputError::Unparsable(ParseError::InvalidDigit))
    );
}

#[test]
fn empty_lines_are_their_own_failure() {
    assert_eq!(
        classify(""),
        Selection::Invalid(InputError::Unparsable(ParseError::EmptyInput))
    );
    assert_eq!(
        classify("   \n"),
        Selection::Invalid(InputError::Unparsable(ParseError::EmptyInput))
    );
}

#[test]
fn numbers_past_the_machine_width_are_a_parse_failure() {
    // One past the largest value a u128 can hold.
    assert_eq!(
        classify("340282366920938463463374607431768211456"),
        Selection::Invalid(InputError::Unparsable(ParseError::TooLarge))
    );
    // The largest value itself parses, and is merely out of range.
    assert_eq!(
        classify("340282366920938463463374607431768211455"),
        Selection::Invalid(InputError::OutOfRange)
    );
}

#[test]
fn mixed_and_signed_text_is_an_invalid_digit() {
    assert_eq!(
        classify("12 3"),
        Selection::Invalid(InputError::Unparsable(ParseError::InvalidDigit))
    );
    assert_eq!(
        classify("-1"),
        Selection::Invalid(InputError::Unparsable(ParseError::InvalidDigit))
    );
    assert_eq!(
        classify("5x"),
        Selection::Invalid(InputError::Unparsable(ParseError::InvalidDigit))
    );
    assert_eq!(
        classify("quit"),
        Selection::Invalid(InputError::Unparsable(ParseError::InvalidDigit))
    );
}

#[test]
fn leading_zeroes_are_accepted() {
    assert_eq!(classify("007"), Selection::NumericChoice(7));
    assert_eq!(classify("000"), Selection::NumericChoice(0));
}

use prolog_service::term::{prolog_value_to_json_tring, string_to_json, term_to_json, Term};
use prolog_service::text::{escape, join, quote};

fn integer(n: i64) -> Term {
    Term::Integer(n.to_string())
}

fn string(text: &str) -> Term {
    Term::String(text.to_string())
}

#[test]
fn json_document_in_a_string_passes_through() {
    assert_eq!(prolog_value_to_json_tring(string("{\"a\":1}")), "{\"a\":1}");
}

#[test]
fn plain_string_becomes_a_string_literal() {
    assert_eq!(prolog_value_to_json_tring(string("hello")), "\"hello\"");
}

#[test]
fn quote_and_line_feed_are_escaped() {
    assert_eq!(prolog_value_to_json_tring(string("a\"b\nc")), "\"a\\\"b\\nc\"");
}

#[test]
fn tab_and_carriage_return_are_escaped() {
    assert_eq!(prolog_value_to_json_tring(string("a\tb\rc")), "\"a\\tb\\rc\"");
}

#[test]
fn backslash_and_other_control_characters_are_left_alone() {
    assert_eq!(prolog_value_to_json_tring(string("a\\b")), "\"a\\b\"");
    assert_eq!(prolog_value_to_json_tring(string("a\u{8}b")), "\"a\u{8}b\"");
}

#[test]
fn structure_has_quoted_name_and_bracketed_arguments() {
    let term = Term::Structure("point".to_string(), vec![integer(1), integer(2)]);
    assert_eq!(prolog_value_to_json_tring(term), "\"point\": [1, 2]");
}

#[test]
fn structure_without_arguments() {
    let term = Term::Structure("nil".to_string(), vec![]);
    assert_eq!(prolog_value_to_json_tring(term), "\"nil\": []");
}

#[test]
fn numbers_come_out_as_their_decimal_text() {
    assert_eq!(prolog_value_to_json_tring(integer(42)), "42");
    assert_eq!(prolog_value_to_json_tring(integer(-7)), "-7");
    assert_eq!(prolog_value_to_json_tring(Term::Float("2.5".to_string())), "2.5");
    assert_eq!(prolog_value_to_json_tring(Term::Rational("1/3".to_string())), "1/3");
}

#[test]
fn integers_read_back_as_the_same_number() {
    for n in [0i64, 1, -1, 42, 1_000_000, i64::MAX, i64::MIN] {
        let text = prolog_value_to_json_tring(integer(n));
        assert_eq!(text.parse::<i64>(), Ok(n));
    }
    let big = "123456789012345678901234567890";
    let text = prolog_value_to_json_tring(Term::Integer(big.to_string()));
    assert_eq!(text.parse::<u128>(), big.parse::<u128>());
}

#[test]
fn floats_read_back_as_the_same_number() {
    for x in [0.0f64, 1.0, -1.5, 2.5e-3, 1.0e21, f64::MAX, f64::MIN_POSITIVE] {
        let text = prolog_value_to_json_tring(Term::Float(format!("{}", x)));
        assert_eq!(text.parse::<f64>(), Ok(x));
    }
}

#[test]
fn number_written_as_a_string_passes_through_unquoted() {
    assert_eq!(prolog_value_to_json_tring(string("42")), "42");
    assert_eq!(prolog_value_to_json_tring(string("true")), "true");
    assert_eq!(prolog_value_to_json_tring(string("[1, \"a\"]")), "[1, \"a\"]");
    assert_eq!(prolog_value_to_json_tring(string(" null ")), " null ");
}

#[test]
fn text_that_is_almost_json_is_quoted() {
    assert_eq!(prolog_value_to_json_tring(string("")), "\"\"");
    assert_eq!(prolog_value_to_json_tring(string("{\"a\":1")), "\"{\\\"a\\\":1\"");
    assert_eq!(prolog_value_to_json_tring(string("1 2")), "\"1 2\"");
}

#[test]
fn atom_is_never_quoted() {
    assert_eq!(prolog_value_to_json_tring(Term::Atom("hello".to_string())), "hello");
    assert_eq!(prolog_value_to_json_tring(Term::Atom("{\"a\":1}".to_string())), "{\"a\":1}");
    assert_eq!(prolog_value_to_json_tring(Term::Atom("a\"b".to_string())), "a\"b");
}

#[test]
fn list_items_are_separated_by_comma_and_space() {
    assert_eq!(prolog_value_to_json_tring(Term::List(vec![])), "[]");
    assert_eq!(prolog_value_to_json_tring(Term::List(vec![integer(1)])), "[1]");
    let list = Term::List(vec![integer(1), string("two"), Term::Atom("three".to_string())]);
    assert_eq!(prolog_value_to_json_tring(list), "[1, \"two\", three]");
}

#[test]
fn nested_terms_keep_their_shape() {
    let inner = Term::List(vec![integer(1), Term::List(vec![integer(2), integer(3)])]);
    let term = Term::Structure("f".to_string(), vec![inner, Term::Other, string("x\ty")]);
    assert_eq!(prolog_value_to_json_tring(term), "\"f\": [[1, [2, 3]], null, \"x\\ty\"]");
}

#[test]
fn other_shapes_are_null() {
    assert_eq!(prolog_value_to_json_tring(Term::Other), "null");
}

#[test]
fn by_reference_and_by_value_agree() {
    let term = Term::List(vec![integer(1), string("a\nb")]);
    let by_reference = term_to_json(&term);
    assert_eq!(by_reference, prolog_value_to_json_tring(term));
    assert_eq!(by_reference, "[1, \"a\\nb\"]");
}

#[test]
fn string_rule_follows_the_given_verdict() {
    assert_eq!(string_to_json("{}".to_string(), true), "{}");
    assert_eq!(string_to_json("{}".to_string(), false), "\"{}\"");
    assert_eq!(string_to_json("a\"b".to_string(), true), "a\"b");
    assert_eq!(string_to_json("a\"b".to_string(), false), "\"a\\\"b\"");
}

#[test]
fn escape_keeps_plain_characters() {
    assert_eq!(escape("plain text, é ✓"), "plain text, é ✓");
    assert_eq!(escape(""), "");
    assert_eq!(escape("\"\n\t\r"), "\\\"\\n\\t\\r");
}

#[test]
fn quote_wraps_the_escaped_text() {
    assert_eq!(quote("a"), "\"a\"");
    assert_eq!(quote("say \"hi\""), "\"say \\\"hi\\\"\"");
}

#[test]
fn join_puts_the_separator_between_neighbours() {
    let none: Vec<String> = vec![];
    assert_eq!(join(&none, ", "), "");
    assert_eq!(join(&vec!["a".to_string()], ", "), "a");
    assert_eq!(join(&vec!["a".to_string(), "b".to_string(), "".to_string()], ", "), "a, b, ");
}

#[test]
fn integer_terms_are_written_in_decimal() {
    assert_eq!(prolog_value_to_json_tring(Term::integer(0)), "0");
    assert_eq!(prolog_value_to_json_tring(Term::integer(7)), "7");
    assert_eq!(prolog_value_to_json_tring(Term::integer(10)), "10");
    assert_eq!(prolog_value_to_json_tring(Term::integer(-305)), "-305");
    assert_eq!(prolog_value_to_json_tring(Term::integer(i64::MAX)), "9223372036854775807");
    assert_eq!(prolog_value_to_json_tring(Term::integer(i64::MIN)), "-9223372036854775808");
    for n in [1i64, 9, 99, 100, 1234567890, -1, -10, -99999] {
        assert_eq!(prolog_value_to_json_tring(Term::integer(n)).parse::<i64>(), Ok(n));
    }
}

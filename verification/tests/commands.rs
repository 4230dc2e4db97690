use piquant_world::parser::{argument, parse, Argument, Ident, ParseError};
use piquant_world::text::chars_of;
use piquant_world::tokenizer::{tokenize, Token};
use std::collections::VecDeque;

fn text(s: &str) -> Token {
    Token::UnquotedString(s.to_string())
}

fn quoted(s: &str) -> Token {
    Token::String(s.to_string())
}

fn tokens(line: &str) -> Vec<Token> {
    tokenize(line).into_iter().collect()
}

#[test]
fn words_numbers_and_truth_values() {
    assert_eq!(
        tokens("setblock 1 20 3.5 stone true false"),
        vec![
            text("setblock"),
            Token::Integer(1),
            Token::Integer(20),
            Token::Float("3.5".to_string()),
            text("stone"),
            Token::Boolean(true),
            Token::Boolean(false),
        ]
    );
}

#[test]
fn other_characters_are_passed_over() {
    assert_eq!(tokens("/gamemode creative"), vec![text("gamemode"), text("creative")]);
    assert_eq!(tokens("  -5  +7 "), vec![Token::Integer(5), Token::Integer(7)]);
    assert_eq!(tokens("\u{e9}a \u{4e16} (x)"), vec![text("a"), text("x)")]);
    assert_eq!(tokens(""), Vec::<Token>::new());
    assert_eq!(tokens(" \t\n!?#"), Vec::<Token>::new());
}

#[test]
fn a_word_runs_up_to_the_next_space() {
    assert_eq!(tokens("a\tb c"), vec![text("a\tb"), text("c")]);
    assert_eq!(tokens("ab\"cd\" e"), vec![text("ab\"cd\""), text("e")]);
    assert_eq!(tokens("a\u{e9}1.5 Z"), vec![text("a\u{e9}1.5"), text("Z")]);
    assert_eq!(tokens("truex True TRUE falsey"), vec![
        text("truex"),
        text("True"),
        text("TRUE"),
        text("falsey"),
    ]);
}

#[test]
fn numbers_that_are_not_whole_numbers() {
    assert_eq!(tokens("12ab"), vec![text("12ab")]);
    assert_eq!(tokens("1-2"), vec![text("1-2")]);
    assert_eq!(tokens("1_000"), vec![text("1_000")]);
    assert_eq!(tokens("007"), vec![Token::Integer(7)]);
    assert_eq!(tokens("9223372036854775807"), vec![Token::Integer(i64::MAX)]);
    assert_eq!(tokens("9223372036854775808"), vec![text("9223372036854775808")]);
    assert_eq!(tokens("99999999999999999999999999"), vec![text("99999999999999999999999999")]);
    assert_eq!(tokens("1\u{663}"), vec![text("1\u{663}")]);
}

#[test]
fn a_decimal_point_makes_a_number_with_a_fraction() {
    assert_eq!(tokens("1.5"), vec![Token::Float("1.5".to_string())]);
    assert_eq!(tokens(".5 5."), vec![
        Token::Float(".5".to_string()),
        Token::Float("5.".to_string()),
    ]);
    assert_eq!(tokens("1.2.3 . 1e5 .x"), vec![
        Token::Float("1.2.3".to_string()),
        Token::Float(".".to_string()),
        text("1e5"),
        Token::Float(".x".to_string()),
    ]);
}

#[test]
fn quoted_strings_and_escapes() {
    assert_eq!(tokens("say \"oak planks\" now"), vec![
        text("say"),
        quoted("oak planks"),
        text("now"),
    ]);
    assert_eq!(tokens("\"a\\\"b\\\\c\\d\""), vec![quoted("a\"b\\cd")]);
    assert_eq!(tokens("\"\"x"), vec![quoted(""), text("x")]);
    assert_eq!(tokens("\"not closed 1 true"), vec![quoted("not closed 1 true")]);
    assert_eq!(tokens("\"ends with\\"), vec![quoted("ends with")]);
    assert_eq!(tokens("\"a\"\"b\""), vec![quoted("a"), quoted("b")]);
    assert_eq!(tokens("\"\u{e9}\\\u{4e16}\""), vec![quoted("\u{e9}\u{4e16}")]);
    assert_eq!(tokens("\""), vec![quoted("")]);
}

#[test]
fn characters_of_a_text() {
    assert_eq!(chars_of("a\u{e9}\u{4e16}"), vec!['a', '\u{e9}', '\u{4e16}']);
    assert_eq!(chars_of(""), Vec::<char>::new());
}

#[test]
fn a_command_is_a_name_and_its_arguments() {
    let (name, args) = parse(tokenize("/give steve \"golden apple\" 3 1.5 true")).unwrap();
    assert_eq!(name, Ident("give".to_string()));
    assert_eq!(
        args,
        VecDeque::from(vec![
            Argument::String("steve".to_string()),
            Argument::String("golden apple".to_string()),
            Argument::Integer(3),
            Argument::Float("1.5".to_string()),
            Argument::Boolean(true),
        ])
    );
    let (name, args) = parse(tokenize("seed")).unwrap();
    assert_eq!(name, Ident("seed".to_string()));
    assert!(args.is_empty());
}

#[test]
fn a_line_must_begin_with_a_name() {
    assert_eq!(parse(tokenize("")).unwrap_err(), ParseError::InvalidCommand);
    assert_eq!(parse(tokenize("5 a")).unwrap_err(), ParseError::InvalidCommand);
    assert_eq!(parse(tokenize("\"say\" a")).unwrap_err(), ParseError::InvalidCommand);
    assert_eq!(parse(tokenize("true a")).unwrap_err(), ParseError::InvalidCommand);
    assert_eq!(parse(tokenize("1.5")).unwrap_err(), ParseError::InvalidCommand);
    assert_eq!(parse(VecDeque::new()).unwrap_err(), ParseError::InvalidCommand);
}

#[test]
fn each_token_stands_for_an_argument() {
    assert_eq!(argument(Token::Integer(-4)), Argument::Integer(-4));
    assert_eq!(argument(Token::Float("2.5".to_string())), Argument::Float("2.5".to_string()));
    assert_eq!(argument(quoted("a b")), Argument::String("a b".to_string()));
    assert_eq!(argument(text("ab")), Argument::String("ab".to_string()));
    assert_eq!(argument(Token::Boolean(false)), Argument::Boolean(false));
}

#[test]
fn arguments_read_as_whole_numbers_and_truth_values() {
    let int = Argument::Integer(7);
    let zero = Argument::Integer(0);
    let one = Argument::Integer(1);
    let yes = Argument::Boolean(true);
    let word = Argument::String("1".to_string());
    let float = Argument::Float("1.0".to_string());
    assert_eq!(int.to_integer(), Some(7));
    assert_eq!(yes.to_integer(), None);
    assert_eq!(word.to_integer(), None);
    assert_eq!(float.to_integer(), None);
    assert_eq!(Argument::OptionalInteger(Some(3)).to_integer(), None);
    assert_eq!(zero.to_boolean(), Some(false));
    assert_eq!(one.to_boolean(), Some(true));
    assert_eq!(int.to_boolean(), None);
    assert_eq!(Argument::Integer(-1).to_boolean(), None);
    assert_eq!(yes.to_boolean(), Some(true));
    assert_eq!(Argument::Boolean(false).to_boolean(), Some(false));
    assert_eq!(word.to_boolean(), None);
    assert_eq!(Argument::OptionalBoolean(Some(true)).to_boolean(), None);
}

#[test]
fn arguments_that_may_be_left_out() {
    assert_eq!(Argument::Integer(7).to_optional_integer(), Some(Some(7)));
    assert_eq!(Argument::OptionalInteger(Some(8)).to_optional_integer(), Some(Some(8)));
    assert_eq!(Argument::OptionalInteger(None).to_optional_integer(), Some(None));
    assert_eq!(Argument::Boolean(true).to_optional_integer(), None);
    assert_eq!(Argument::OptionalBoolean(None).to_optional_integer(), None);
    assert_eq!(Argument::Integer(1).to_optional_boolean(), Some(Some(true)));
    assert_eq!(Argument::Integer(0).to_optional_boolean(), Some(Some(false)));
    assert_eq!(Argument::Integer(2).to_optional_boolean(), None);
    assert_eq!(Argument::Boolean(false).to_optional_boolean(), Some(Some(false)));
    assert_eq!(Argument::OptionalBoolean(Some(true)).to_optional_boolean(), Some(Some(true)));
    assert_eq!(Argument::OptionalBoolean(None).to_optional_boolean(), Some(None));
    assert_eq!(Argument::OptionalString(None).to_optional_boolean(), None);
}

use rustynom::atomic_parsers::{
    EofParser, LiteralListParser, LiteralListParserNoOutput, LiteralParser, SuccessParser,
};
use rustynom::parsable::ParsableSlice;
use rustynom::parser::{Grammar, Node, ParserWrapper};
use rustynom::utility_parsers::{self, ElemClass, Reduce};
use rustynom::value::Value;
use rustynom::{GenericParseResult, ParseFailure, ParsingPosition};

fn labels(ls: &[&str]) -> Option<Vec<String>> {
    Some(ls.iter().map(|l| l.to_string()).collect())
}

/// Runs `node` followed by a capture of the position it left.
fn with_position(node: Node<char>) -> ParserWrapper<char, true> {
    let mut g = Grammar::<char, true>::new();
    let p = g.add(node);
    let pos = g.add(Node::Position(utility_parsers::position()));
    g.and(p, pos);
    ParserWrapper::from_parser(g).unwrap()
}

fn single(node: Node<char>) -> ParserWrapper<char, true> {
    let mut g = Grammar::<char, true>::new();
    g.add(node);
    ParserWrapper::from_parser(g).unwrap()
}

#[test]
fn literal_element_consumes_one_and_labels_failure() {
    let p = with_position(Node::Literal(LiteralParser::new('x')));
    assert_eq!(
        p.parse_str("xy").unwrap_success(),
        Value::Tuple(vec![Value::Elem('x'), Value::Position(1)])
    );
    let f = p.parse_str("yx").unwrap_failure();
    assert_eq!(f.furthest.index(), 0);
    assert_eq!(f.expected, labels(&["x"]));
    let f = p.parse_str("").unwrap_failure();
    assert_eq!(f.furthest.index(), 0);
    assert_eq!(f.expected, labels(&["x"]));
}

#[test]
fn literal_run_consumes_its_length() {
    let p = with_position(Node::LiteralList(LiteralListParser::new("ab".to_string())));
    assert_eq!(
        p.parse_str("abc").unwrap_success(),
        Value::Tuple(vec![Value::Run("ab".to_string()), Value::Position(2)])
    );
    let f = p.parse_str("ac").unwrap_failure();
    assert_eq!(f.furthest.index(), 0);
    assert_eq!(f.expected, labels(&["ab"]));
    assert!(p.parse_str("a").is_failure());
}

#[test]
fn literal_run_without_output_and_empty_run() {
    let p = with_position(Node::LiteralListNoOutput(LiteralListParserNoOutput::new(
        "let".to_string(),
    )));
    assert_eq!(
        p.parse_str("let x").unwrap_success(),
        Value::Tuple(vec![Value::Unit, Value::Position(3)])
    );
    let empty = single(Node::LiteralList(LiteralListParser::new(String::new())));
    assert_eq!(empty.parse_str("").unwrap_success(), Value::Run(String::new()));
}

#[test]
fn eof_and_success() {
    let eof = single(Node::Eof(EofParser::new()));
    assert!(eof.parse_str("").is_success());
    let f = eof.parse_str("a").unwrap_failure();
    assert_eq!(f.furthest.index(), 0);
    assert_eq!(f.expected, labels(&["EOF"]));

    let ok = with_position(Node::Success(SuccessParser::new(Value::UInt(7))));
    assert_eq!(
        ok.parse_str("abc").unwrap_success(),
        Value::Tuple(vec![Value::UInt(7), Value::Position(0)])
    );
}

#[test]
fn any_and_remaining() {
    let mut g = Grammar::<char, true>::new();
    let any = g.add(Node::Any(utility_parsers::any()));
    let rest = g.add(Node::Remaining(utility_parsers::remaining()));
    g.and(any, rest);
    let p = ParserWrapper::from_parser(g).unwrap();
    assert_eq!(
        p.parse_str("abc").unwrap_success(),
        Value::Tuple(vec![Value::Elem('a'), Value::Run("bc".to_string())])
    );
    let f = p.parse_str("").unwrap_failure();
    assert_eq!(f.expected, labels(&["any character"]));
}

#[test]
fn element_classes() {
    let digit = single(Node::Test(utility_parsers::digit()));
    assert_eq!(digit.parse_str("5").unwrap_success(), Value::Elem('5'));
    assert_eq!(digit.parse_str("x").unwrap_failure().expected, labels(&["a digit"]));

    let digits = with_position(Node::MultiTest(utility_parsers::digits()));
    assert_eq!(
        digits.parse_str("123x").unwrap_success(),
        Value::Tuple(vec![Value::Run("123".to_string()), Value::Position(3)])
    );
    assert!(digits.parse_str("x1").is_failure());

    let letters = single(Node::MultiTest(utility_parsers::letters()));
    assert_eq!(letters.parse_str("abC1").unwrap_success(), Value::Run("abC".to_string()));
    let letter = single(Node::Test(utility_parsers::letter()));
    assert!(letter.parse_str("1").is_failure());

    let one_of = single(Node::Test(utility_parsers::test(
        ElemClass::OneOf(vec!['+', '-']),
        "a sign".to_string(),
    )));
    assert_eq!(one_of.parse_str("-").unwrap_success(), Value::Elem('-'));
    assert_eq!(one_of.parse_str("*").unwrap_failure().expected, labels(&["a sign"]));
}

#[test]
fn scan_with_fold() {
    let count = single(Node::MultiTestWithReduce(utility_parsers::multi_test_with_reduce(
        ElemClass::Letter,
        Reduce::Count,
        0,
        "letters".to_string(),
    )));
    assert_eq!(count.parse_str("abc1").unwrap_success(), Value::Fold(3, 3));
    assert_eq!(count.parse_str("1").unwrap_failure().expected, labels(&["letters"]));

    let decimal = single(Node::MultiTestWithReduce(utility_parsers::multi_test_with_reduce(
        ElemClass::Digit,
        Reduce::Decimal,
        0,
        "digits".to_string(),
    )));
    assert_eq!(decimal.parse_str("042.5").unwrap_success(), Value::Fold(42, 3));
}

#[test]
fn uint_wraps_around() {
    let p = single(Node::UInt(utility_parsers::uint()));
    assert_eq!(p.parse_str("0").unwrap_success(), Value::UInt(0));
    assert_eq!(
        p.parse_str("18446744073709551615").unwrap_success(),
        Value::UInt(u64::MAX)
    );
    assert_eq!(p.parse_str("18446744073709551616").unwrap_success(), Value::UInt(0));
    assert_eq!(p.parse_str("x").unwrap_failure().expected, labels(&["a digit"]));
}

#[test]
fn float_digit_runs() {
    let p = with_position(Node::UFloat(utility_parsers::float()));
    assert_eq!(
        p.parse_str("12.05x").unwrap_success(),
        Value::Tuple(vec![Value::Decimal(vec![1, 2], vec![0, 5]), Value::Position(5)])
    );
    assert_eq!(
        p.parse_str("7.").unwrap_success(),
        Value::Tuple(vec![Value::Decimal(vec![7], vec![]), Value::Position(2)])
    );
    assert_eq!(
        p.parse_str("7,5").unwrap_success(),
        Value::Tuple(vec![Value::Decimal(vec![7], vec![]), Value::Position(1)])
    );
    assert!(p.parse_str(".5").is_failure());
}

#[test]
fn whitespace_runs() {
    let ws = with_position(Node::WhiteSpace(utility_parsers::whitespace()));
    assert_eq!(
        ws.parse_str(" \t\n\u{3000}x").unwrap_success(),
        Value::Tuple(vec![Value::Unit, Value::Position(4)])
    );
    let f = ws.parse_str("x").unwrap_failure();
    assert_eq!(f.expected, labels(&["whitespace"]));

    let opt = with_position(Node::WhiteSpace(utility_parsers::optional_whitespace()));
    assert_eq!(
        opt.parse_str("x").unwrap_success(),
        Value::Tuple(vec![Value::Unit, Value::Position(0)])
    );
}

#[test]
fn multibyte_text_is_split_into_characters() {
    let p = single(Node::MultiTest(utility_parsers::multi_test(
        ElemClass::IsNot('!'),
        "text".to_string(),
    )));
    assert_eq!(p.parse_str("héé!").unwrap_success(), Value::Run("héé".to_string()));
}

#[test]
fn token_input() {
    let mut g = Grammar::<ParsableSlice<u32>, true>::new();
    let five = g.add(Node::Literal(LiteralParser::new(5)));
    let run = g.add(Node::LiteralList(LiteralListParser::new(vec![6, 7])));
    let pair = g.and(five, run);
    let p = ParserWrapper::new(g, pair).unwrap();
    assert!(p.parse_slice(&[5, 6, 7]).is_success());
    let f = p.parse_slice(&[6]).unwrap_failure();
    assert_eq!(f.expected, labels(&["5"]));
    let f = p.parse_slice(&[5, 6, 8]).unwrap_failure();
    assert_eq!(f.furthest.index(), 1);
    assert_eq!(f.expected, labels(&["\"6, 7\""]));

    let mut g = Grammar::<ParsableSlice<u32>, false>::new();
    g.add(Node::Test(utility_parsers::digit()));
    let p = ParserWrapper::from_parser(g).unwrap();
    let f = p.parse_slice(&[1]).unwrap_failure();
    assert_eq!(f.expected, None);
}

#[test]
fn merge_failures_keeps_deepest() {
    let at = |i: usize, ls: &[&str]| ParseFailure::new(ParsingPosition::new(i), labels(ls));
    let pos = ParsingPosition::default();
    assert_eq!(pos.merge_failures(at(1, &["a"]), at(2, &["b"])), at(2, &["b"]));
    assert_eq!(pos.merge_failures(at(3, &["a"]), at(2, &["b"])), at(3, &["a"]));
    assert_eq!(pos.merge_failures(at(2, &["a"]), at(2, &["b", "c"])), at(2, &["a", "b", "c"]));
    let none = ParseFailure::new(ParsingPosition::new(2), None);
    assert_eq!(pos.merge_failures(none.clone(), at(2, &["b"])), at(2, &["b"]));
    assert_eq!(pos.merge_failures(none.clone(), none.clone()), none);
}

#[test]
fn position_helpers() {
    let input = ['a', 'b', 'c', 'd'];
    let mut pos = ParsingPosition::new(1);
    assert_eq!(pos.slice(&input), &['b', 'c', 'd']);
    assert_eq!(pos.slice_to(&input, 3), &['b', 'c']);
    assert_eq!(pos.slice_with_length(&input, 2), &['b', 'c']);
    assert_eq!(*pos.current(&input), 'b');
    assert!(pos.current_eq(&input, &'b'));
    assert!(!pos.current_eq(&input, &'a'));
    assert!(pos.test_current(&input, |c: &char| *c == 'b'));
    assert!(pos.current_eq_slice(&input, &['b', 'c']));
    assert!(!pos.current_eq_slice(&input, &['b', 'c', 'd', 'e']));
    assert!(pos.current_eq_slice(&input, &[]));
    assert!(!ParsingPosition::new(4).current_eq_slice(&input, &[]));
    pos.advance_by(2);
    assert_eq!(pos.index(), 3);
    assert!(!pos.at_eof(&input));
    pos.advance_to_index(4);
    assert!(pos.at_eof(&input));
    assert!(!pos.current_eq(&input, &'d'));
    assert!(!pos.test_current(&input, |_: &char| true));
    pos.advance_to(ParsingPosition::from(0));
    assert_eq!(pos.index(), 0);

    let r: rustynom::ParseResult<u8> = pos.succeed_offset(2, 9);
    assert_eq!(r, GenericParseResult::Success(9));
    assert_eq!(pos.index(), 2);
    let r: rustynom::ParseResult<u8> = pos.fail_offset(1, None);
    assert_eq!(r.unwrap_failure().furthest.index(), 3);
    let r: rustynom::ParseResult<u8> = pos.fail_at(ParsingPosition::new(1), labels(&["x"]));
    assert!(r.is_failure());
    assert_eq!(pos.index(), 1);
    let r: rustynom::ParseResult<u8> = pos.succeed_at(ParsingPosition::new(4), 1);
    assert!(r.is_success());
    assert_eq!(pos.index(), 4);
}

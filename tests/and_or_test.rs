use rustynom::atomic_parsers::LiteralParser;
use rustynom::combinator_parsers::{AndParser, OrParser};
use rustynom::parser::{Grammar, Node, ParserWrapper};

#[test]
fn simple_and() {
    let mut g = Grammar::<char, true>::new();
    let a = g.add(Node::Literal(LiteralParser::new('a')));
    let b = g.add(Node::Literal(LiteralParser::new('b')));
    g.add(Node::And(AndParser::new2(a, b)));
    let parser = ParserWrapper::from_parser(g).unwrap();

    let result = parser.parse_str("ab");
    assert!(result.is_success());

    let result = parser.parse_str("cb");
    assert!(result.is_failure());
    let failure = result.unwrap_failure();
    assert_eq!(failure.furthest.index(), 0);
    assert_eq!(failure.expected, Some(vec!["a".to_string()]));

    let result = parser.parse_str("ac");
    assert!(result.is_failure());
    let failure = result.unwrap_failure();
    assert_eq!(failure.furthest.index(), 1);
    assert_eq!(failure.expected, Some(vec!["b".to_string()]));
}

#[test]
fn simple_or() {
    let mut g = Grammar::<char, true>::new();
    let a = g.add(Node::Literal(LiteralParser::new('a')));
    let b = g.add(Node::Literal(LiteralParser::new('b')));
    g.add(Node::Or(OrParser::new2(a, b)));
    let parser = ParserWrapper::from_parser(g).unwrap();

    let result = parser.parse_str("a");
    assert!(result.is_success());

    let result = parser.parse_str("b");
    assert!(result.is_success());

    let result = parser.parse_str("c");
    assert!(result.is_failure());
    let failure = result.unwrap_failure();
    assert_eq!(failure.furthest.index(), 0);
    assert_eq!(
        failure.expected,
        Some(vec!["a".to_string(), "b".to_string()])
    );
}

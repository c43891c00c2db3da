use rustynom::atomic_parsers::{LiteralParser, LiteralParserNoOutput};
use rustynom::combinator_parsers::{AndParser, SkipParser};
use rustynom::parser::{Grammar, Node, ParserWrapper};
use rustynom::transformation_parsers::ManyParser;
use rustynom::value::Value;

fn elems(cs: &[char]) -> Value<char> {
    Value::List(cs.iter().map(|c| Value::Elem(*c)).collect())
}

#[test]
fn simple_many() {
    let mut g = Grammar::<char, false>::new();
    let a = g.add(Node::Literal(LiteralParser::new('a')));
    g.add(Node::Many(ManyParser::new(a)));
    let parser = ParserWrapper::from_parser(g).unwrap();

    let result = parser.parse_str("aaa");
    assert!(result.is_success());
    assert_eq!(result.unwrap_success(), elems(&['a', 'a', 'a']));

    let result = parser.parse_str("b");
    assert!(result.is_success());
    assert_eq!(result.unwrap_success(), elems(&[]));

    let result = parser.parse_str("");
    assert!(result.is_success());
    assert_eq!(result.unwrap_success(), elems(&[]));
}

#[test]
fn simple_many_2() {
    let mut g = Grammar::<char, false>::new();
    let a = g.add(Node::Literal(LiteralParser::new('a')));
    let b = g.add(Node::Literal(LiteralParser::new('b')));
    let ab = g.add(Node::And(AndParser::new2(a, b)));
    g.add(Node::Many(ManyParser::new(ab)));
    let parser = ParserWrapper::from_parser(g).unwrap();
    let pair = || Value::Tuple(vec![Value::Elem('a'), Value::Elem('b')]);

    let result = parser.parse_str("ab");
    assert!(result.is_success());
    assert_eq!(result.unwrap_success(), Value::List(vec![pair()]));

    let result = parser.parse_str("ababab");
    assert!(result.is_success());
    assert_eq!(result.unwrap_success(), Value::List(vec![pair(), pair(), pair()]));

    let result = parser.parse_str("");
    assert!(result.is_success());
    assert_eq!(result.unwrap_success(), Value::List(vec![]));
}

#[test]
fn simple_many_3() {
    let mut g = Grammar::<char, false>::new();
    let a = g.add(Node::Literal(LiteralParser::new('a')));
    let b = g.add(Node::LiteralNoOutput(LiteralParserNoOutput::new('b')));
    let ab = g.add(Node::Skip(SkipParser::new(a, b)));
    g.add(Node::Many(ManyParser::new(ab)));
    let parser = ParserWrapper::from_parser(g).unwrap();

    let result = parser.parse_str("ab");
    assert!(result.is_success());
    assert_eq!(result.unwrap_success(), elems(&['a']));

    let result = parser.parse_str("ababab");
    assert!(result.is_success());
    assert_eq!(result.unwrap_success(), elems(&['a', 'a', 'a']));

    let result = parser.parse_str("");
    assert!(result.is_success());
    assert_eq!(result.unwrap_success(), elems(&[]));
}

#[test]
fn simple_many_4() {
    let mut g = Grammar::<char, false>::new();
    let a = g.add(Node::Literal(LiteralParser::new('a')));
    let b = g.add(Node::LiteralNoOutput(LiteralParserNoOutput::new('b')));
    let ab = g.skip(a, b);
    g.many(ab);
    let parser = ParserWrapper::from_parser(g).unwrap();

    let result = parser.parse_str("ab");
    assert!(result.is_success());
    assert_eq!(result.unwrap_success(), elems(&['a']));

    let result = parser.parse_str("ababab");
    assert!(result.is_success());
    assert_eq!(result.unwrap_success(), elems(&['a', 'a', 'a']));

    let result = parser.parse_str("");
    assert!(result.is_success());
    assert_eq!(result.unwrap_success(), elems(&[]));
}

#[test]
fn simple_many_5() {
    let mut g = Grammar::<char, false>::new();
    let a = g.add(Node::Literal(LiteralParser::new('a')));
    let b = g.add(Node::LiteralNoOutput(LiteralParserNoOutput::new('b')));
    let c = g.add(Node::LiteralNoOutput(LiteralParserNoOutput::new('c')));
    let ab = g.skip(a, b);
    let abs = g.many(ab);
    g.skip(abs, c);
    let parser = ParserWrapper::from_parser(g).unwrap();

    let result = parser.parse_str("abc");
    assert!(result.is_success());
    assert_eq!(result.unwrap_success(), elems(&['a']));

    let result = parser.parse_str("abababc");
    assert!(result.is_success());
    assert_eq!(result.unwrap_success(), elems(&['a', 'a', 'a']));

    let result = parser.parse_str("c");
    assert!(result.is_success());
    assert_eq!(result.unwrap_success(), elems(&[]));
}

#[test]
fn simple_separated_by() {
    let mut g = Grammar::<char, false>::new();
    let a = g.add(Node::Literal(LiteralParser::new('a')));
    let comma = g.add(Node::LiteralNoOutput(LiteralParserNoOutput::new(',')));
    g.separated_by(a, comma);
    let parser = ParserWrapper::from_parser(g).unwrap();

    let result = parser.parse_str("a,a,a");
    assert!(result.is_success());
    assert_eq!(result.unwrap_success(), elems(&['a', 'a', 'a']));

    let result = parser.parse_str("a");
    assert!(result.is_success());
    assert_eq!(result.unwrap_success(), elems(&['a']));

    let result = parser.parse_str("");
    assert!(result.is_failure());
}

#[test]
fn simple_separated_by_2() {
    let mut g = Grammar::<char, false>::new();
    let a = g.add(Node::Literal(LiteralParser::new('a')));
    let comma = g.add(Node::LiteralNoOutput(LiteralParserNoOutput::new(',')));
    let open = g.add(Node::LiteralNoOutput(LiteralParserNoOutput::new('[')));
    let close = g.add(Node::LiteralNoOutput(LiteralParserNoOutput::new(']')));
    let list = g.separated_by(a, comma);
    g.surround(list, open, close);
    let parser = ParserWrapper::from_parser(g).unwrap();

    let result = parser.parse_str("[a,a,a]");
    assert!(result.is_success());
    assert_eq!(result.unwrap_success(), elems(&['a', 'a', 'a']));

    let result = parser.parse_str("[]");
    assert!(result.is_failure());
}

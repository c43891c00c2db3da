use rustynom::atomic_parsers::{EofParser, LiteralListParser, LiteralParserNoOutput};
use rustynom::combinator_parsers::{AndParser, SameOrParser};
use rustynom::atomic_parsers::LiteralParser;
use rustynom::parser::{Grammar, Node, ParserWrapper};
use rustynom::transformation_parsers::Transform;
use rustynom::value::Value as Parsed;

fn strings(v: Parsed<char>) -> Vec<String> {
    match v {
        Parsed::List(items) => items
            .into_iter()
            .map(|item| match item {
                Parsed::Run(s) => s,
                other => panic!("not a run: {:?}", other),
            })
            .collect(),
        other => panic!("not a list: {:?}", other),
    }
}

#[test]
fn simple_recursion() {
    let mut g = Grammar::<char, false>::new();
    let a = g.add(Node::LiteralList(LiteralListParser::new("a".to_owned())));
    let eof = g.add(Node::Eof(EofParser::new()));
    let eof_list = Parsed::List(vec![Parsed::Run("eof".to_owned())]);
    let mapped_eof = g.map(eof, Transform::Constant(eof_list));

    let rec_ref = g.rec_ref();
    let and = g.add(Node::And(AndParser::new2(a, rec_ref)));
    let and = g.map(and, Transform::Prepend);
    let body = g.add(Node::SameOr(SameOrParser::new2(mapped_eof, and)));
    assert!(g.set(rec_ref, body));
    g.rec(rec_ref);
    let p = ParserWrapper::from_parser(g).unwrap();

    let result = p.parse_str("");
    assert!(result.is_success());
    assert_eq!(strings(result.unwrap_success()), vec!["eof"]);

    let result = p.parse_str("a");
    assert!(result.is_success());
    assert_eq!(strings(result.unwrap_success()), vec!["a", "eof"]);

    let result = p.parse_str("aa");
    assert!(result.is_success());
    assert_eq!(strings(result.unwrap_success()), vec!["a", "a", "eof"]);
}

#[test]
fn simple_recursion_2() {
    let mut g = Grammar::<char, false>::new();
    let a = g.add(Node::LiteralList(LiteralListParser::new("a".to_owned())));
    let open = g.add(Node::LiteralNoOutput(LiteralParserNoOutput::new('[')));
    let close = g.add(Node::LiteralNoOutput(LiteralParserNoOutput::new(']')));

    let rec_ref = g.rec_ref();
    let nested = g.surround(rec_ref, open, close);
    let body = g.add(Node::SameOr(SameOrParser::new2(a, nested)));
    assert!(g.set(rec_ref, body));
    g.rec(rec_ref);
    let p = ParserWrapper::from_parser(g).unwrap();

    let result = p.parse_str("a");
    assert!(result.is_success());
    assert_eq!(result.unwrap_success(), Parsed::Run("a".to_owned()));

    let result = p.parse_str("[a]");
    assert!(result.is_success());
    assert_eq!(result.unwrap_success(), Parsed::Run("a".to_owned()));

    let result = p.parse_str("[[a]]");
    assert!(result.is_success());
    assert_eq!(result.unwrap_success(), Parsed::Run("a".to_owned()));
}

#[derive(Clone, Debug, PartialEq, Eq)]
enum Value {
    String(String),
    Array(Vec<Value>),
}

const STRING: usize = 0;
const ARRAY: usize = 1;

fn to_value(v: Parsed<char>) -> Value {
    match v {
        Parsed::Variant(STRING, inner) => match *inner {
            Parsed::Run(s) => Value::String(s),
            other => panic!("not a run: {:?}", other),
        },
        Parsed::Variant(ARRAY, inner) => match *inner {
            Parsed::List(items) | Parsed::Tuple(items) => {
                Value::Array(items.into_iter().map(to_value).collect())
            }
            other => panic!("not a list: {:?}", other),
        },
        other => panic!("not a value: {:?}", other),
    }
}

#[test]
fn simple_recursion_3() {
    let mut g = Grammar::<char, false>::new();
    let a = g.add(Node::LiteralList(LiteralListParser::new("a".to_owned())));
    let a = g.map(a, Transform::Tag(STRING));
    let comma = g.add(Node::LiteralNoOutput(LiteralParserNoOutput::new(',')));
    let open = g.add(Node::LiteralNoOutput(LiteralParserNoOutput::new('[')));
    let close = g.add(Node::LiteralNoOutput(LiteralParserNoOutput::new(']')));

    let rec_ref = g.rec_ref();
    let items = g.separated_by(rec_ref, comma);
    let array = g.surround(items, open, close);
    let array = g.map(array, Transform::Tag(ARRAY));
    let body = g.add(Node::SameOr(SameOrParser::new2(a, array)));
    assert!(g.set(rec_ref, body));
    g.rec(rec_ref);
    let p = ParserWrapper::from_parser(g).unwrap();

    let result = p.parse_str("a");
    assert!(result.is_success());
    assert_eq!(to_value(result.unwrap_success()), Value::String("a".to_owned()));

    let result = p.parse_str("[a]");
    assert!(result.is_success());
    assert_eq!(
        to_value(result.unwrap_success()),
        Value::Array(vec![Value::String("a".to_owned())])
    );

    let result = p.parse_str("[a,a]");
    assert!(result.is_success());
    assert_eq!(
        to_value(result.unwrap_success()),
        Value::Array(vec![
            Value::String("a".to_owned()),
            Value::String("a".to_owned())
        ])
    );

    let result = p.parse_str("[[a]]");
    assert!(result.is_success());
    assert_eq!(
        to_value(result.unwrap_success()),
        Value::Array(vec![Value::Array(vec![Value::String("a".to_owned())])])
    );

    let result = p.parse_str("[b]");
    assert!(result.is_failure());
}

#[test]
fn bracket_grammar() {
    let mut g = Grammar::<char, true>::new();
    let a = g.add(Node::LiteralList(LiteralListParser::new("a".to_owned())));
    let a = g.map(a, Transform::Tag(STRING));
    let open = g.add(Node::Literal(LiteralParser::new('[')));
    let close = g.add(Node::Literal(LiteralParser::new(']')));

    let rec_ref = g.rec_ref();
    let nested = g.add(Node::And(AndParser::new3(open, rec_ref, close)));
    let nested = g.map(
        nested,
        Transform::Compose(Box::new(Transform::Select(vec![1])), Box::new(Transform::Tag(ARRAY))),
    );
    let body = g.add(Node::SameOr(SameOrParser::new2(a, nested)));
    assert!(g.set(rec_ref, body));
    g.rec(rec_ref);
    let p = ParserWrapper::from_parser(g).unwrap();

    assert_eq!(to_value(p.parse_str("a").unwrap_success()), Value::String("a".to_owned()));
    assert_eq!(
        to_value(p.parse_str("[a]").unwrap_success()),
        Value::Array(vec![Value::String("a".to_owned())])
    );
    assert_eq!(
        to_value(p.parse_str("[[a]]").unwrap_success()),
        Value::Array(vec![Value::Array(vec![Value::String("a".to_owned())])])
    );
    let failure = p.parse_str("[b]").unwrap_failure();
    assert_eq!(failure.furthest.index(), 1);
    assert_eq!(failure.expected, Some(vec!["a".to_string(), "[".to_string()]));
}

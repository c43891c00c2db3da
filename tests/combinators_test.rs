use rustynom::atomic_parsers::{LiteralListParser, LiteralParser};
use rustynom::combinator_parsers::{AndParser, OrParser, SameOrParser};
use rustynom::parser::{Grammar, Node, ParserId, ParserWrapper};
use rustynom::transformation_parsers::{ManyNonEmptyParser, Transform};
use rustynom::utility_parsers;
use rustynom::value::Value;

fn labels(ls: &[&str]) -> Option<Vec<String>> {
    Some(ls.iter().map(|l| l.to_string()).collect())
}

fn lit(g: &mut Grammar<char, true>, c: char) -> ParserId {
    g.add(Node::Literal(LiteralParser::new(c)))
}

fn then_position(mut g: Grammar<char, true>, p: ParserId) -> ParserWrapper<char, true> {
    let pos = g.add(Node::Position(utility_parsers::position()));
    g.and(p, pos);
    ParserWrapper::from_parser(g).unwrap()
}

#[test]
fn and_keeps_the_cursor_of_a_failure() {
    let mut g = Grammar::<char, true>::new();
    let a = lit(&mut g, 'a');
    let b = lit(&mut g, 'b');
    let c = lit(&mut g, 'c');
    g.add(Node::And(AndParser::new3(a, b, c)));
    let p = ParserWrapper::from_parser(g).unwrap();
    assert_eq!(
        p.parse_str("abc").unwrap_success(),
        Value::Tuple(vec![Value::Elem('a'), Value::Elem('b'), Value::Elem('c')])
    );
    let f = p.parse_str("abx").unwrap_failure();
    assert_eq!(f.furthest.index(), 2);
    assert_eq!(f.expected, labels(&["c"]));
}

#[test]
fn or_tags_branches_and_keeps_deepest_failure() {
    let mut g = Grammar::<char, true>::new();
    let a = lit(&mut g, 'a');
    let b = lit(&mut g, 'b');
    let c = lit(&mut g, 'c');
    let ab = g.and(a, b);
    let or = g.add(Node::Or(OrParser::new(vec![ab, c])));
    let p = ParserWrapper::new(g, or).unwrap();
    assert_eq!(
        p.parse_str("c").unwrap_success(),
        Value::Variant(1, Box::new(Value::Elem('c')))
    );
    let f = p.parse_str("ax").unwrap_failure();
    assert_eq!(f.furthest.index(), 1);
    assert_eq!(f.expected, labels(&["b"]));
}

#[test]
fn failed_choice_restores_the_cursor() {
    let mut g = Grammar::<char, true>::new();
    let a = lit(&mut g, 'a');
    let b = lit(&mut g, 'b');
    let c = lit(&mut g, 'c');
    let ab = g.and(a, b);
    let ac = g.and(a, c);
    let or = g.or_same(ab, ac);
    let opt = g.optional(or);
    let p = then_position(g, opt);
    assert_eq!(
        p.parse_str("ax").unwrap_success(),
        Value::Tuple(vec![Value::Optional(None), Value::Position(0)])
    );
    assert_eq!(
        p.parse_str("ac").unwrap_success(),
        Value::Tuple(vec![
            Value::Optional(Some(Box::new(Value::Tuple(vec![Value::Elem('a'), Value::Elem('c')])))),
            Value::Position(2)
        ])
    );
}

#[test]
fn optional_undoes_a_partial_match() {
    let mut g = Grammar::<char, true>::new();
    let a = lit(&mut g, 'a');
    let b = lit(&mut g, 'b');
    let ab = g.and(a, b);
    let opt = g.optional(ab);
    let p = then_position(g, opt);
    assert_eq!(
        p.parse_str("ac").unwrap_success(),
        Value::Tuple(vec![Value::Optional(None), Value::Position(0)])
    );
}

#[test]
fn many_undoes_a_partial_last_attempt() {
    let mut g = Grammar::<char, true>::new();
    let a = lit(&mut g, 'a');
    let b = lit(&mut g, 'b');
    let ab = g.and(a, b);
    let many = g.many(ab);
    let p = then_position(g, many);
    let pair = Value::Tuple(vec![Value::Elem('a'), Value::Elem('b')]);
    assert_eq!(
        p.parse_str("aba").unwrap_success(),
        Value::Tuple(vec![Value::List(vec![pair]), Value::Position(2)])
    );
}

#[test]
fn many_stops_at_an_empty_match() {
    let mut g = Grammar::<char, true>::new();
    let ws = g.add(Node::WhiteSpace(utility_parsers::optional_whitespace()));
    let many = g.many(ws);
    let p = then_position(g, many);
    assert_eq!(
        p.parse_str("x").unwrap_success(),
        Value::Tuple(vec![Value::List(vec![]), Value::Position(0)])
    );
}

#[test]
fn many_non_empty_needs_one() {
    let mut g = Grammar::<char, true>::new();
    let a = lit(&mut g, 'a');
    g.add(Node::ManyNonEmpty(ManyNonEmptyParser::new(a)));
    let p = ParserWrapper::from_parser(g).unwrap();
    let f = p.parse_str("b").unwrap_failure();
    assert_eq!(f.expected, labels(&["a"]));
    assert_eq!(
        p.parse_str("aab").unwrap_success(),
        Value::List(vec![Value::Elem('a'), Value::Elem('a')])
    );
}

#[test]
fn separated_by_leaves_a_dangling_separator() {
    let mut g = Grammar::<char, true>::new();
    let a = lit(&mut g, 'a');
    let comma = lit(&mut g, ',');
    let list = g.separated_by(a, comma);
    let p = then_position(g, list);
    assert_eq!(
        p.parse_str("a,a,").unwrap_success(),
        Value::Tuple(vec![
            Value::List(vec![Value::Elem('a'), Value::Elem('a')]),
            Value::Position(3)
        ])
    );
}

#[test]
fn then_and_surround_keep_one_output() {
    let mut g = Grammar::<char, true>::new();
    let a = lit(&mut g, 'a');
    let b = lit(&mut g, 'b');
    let q = lit(&mut g, '"');
    let then = g.then(a, b);
    g.trim(then, q);
    let p = ParserWrapper::from_parser(g).unwrap();
    assert_eq!(p.parse_str("\"ab\"").unwrap_success(), Value::Elem('b'));
    let f = p.parse_str("\"ab").unwrap_failure();
    assert_eq!(f.furthest.index(), 3);
    assert_eq!(f.expected, labels(&["\""]));
}

#[test]
fn describe_replaces_labels() {
    let mut g = Grammar::<char, true>::new();
    let a = lit(&mut g, 'a');
    let b = lit(&mut g, 'b');
    let ab = g.and(a, b);
    g.describe(ab, "pair".to_string());
    let p = ParserWrapper::from_parser(g).unwrap();
    let f = p.parse_str("ax").unwrap_failure();
    assert_eq!(f.furthest.index(), 1);
    assert_eq!(f.expected, labels(&["pair"]));
}

#[test]
fn box_describe_folds_labels() {
    let mut g = Grammar::<char, true>::new();
    let a = lit(&mut g, 'a');
    let b = lit(&mut g, 'b');
    let or = g.or_same(a, b);
    g.box_describe(or, "choice".to_string());
    let p = ParserWrapper::from_parser(g).unwrap();
    let f = p.parse_str("c").unwrap_failure();
    assert_eq!(f.expected, labels(&["[a, b] as part of choice"]));
}

#[test]
fn diagnostics_switched_off() {
    let mut g = Grammar::<char, false>::new();
    let a = g.add(Node::Literal(LiteralParser::new('a')));
    let b = g.add(Node::Literal(LiteralParser::new('b')));
    let or = g.or(a, b);
    g.describe(or, "letter".to_string());
    let p = ParserWrapper::from_parser(g).unwrap();
    let f = p.parse_str("c").unwrap_failure();
    assert_eq!(f.furthest.index(), 0);
    assert_eq!(f.expected, None);
}

#[test]
fn map_transformations() {
    let mut g = Grammar::<char, true>::new();
    let a = lit(&mut g, 'a');
    let b = lit(&mut g, 'b');
    let c = lit(&mut g, 'c');
    let abc = g.add(Node::And(AndParser::new3(a, b, c)));
    let field = g.map(abc, Transform::Field(1));
    let select = g.map(abc, Transform::Select(vec![2, 0]));
    let ident = g.map(abc, Transform::Identity);
    let constant = g.map(abc, Transform::Constant(Value::UInt(3)));
    let run = |root: ParserId, g: &Grammar<char, true>| {
        let mut copy = Grammar::<char, true>::new();
        for node in g.nodes.iter() {
            copy.add(clone_node(node));
        }
        ParserWrapper::new(copy, root).unwrap().parse_str("abc").unwrap_success()
    };
    assert_eq!(run(field, &g), Value::Elem('b'));
    assert_eq!(run(select, &g), Value::Tuple(vec![Value::Elem('c'), Value::Elem('a')]));
    assert_eq!(
        run(ident, &g),
        Value::Tuple(vec![Value::Elem('a'), Value::Elem('b'), Value::Elem('c')])
    );
    assert_eq!(run(constant, &g), Value::UInt(3));
}

fn clone_node(node: &Node<char>) -> Node<char> {
    match node {
        Node::Literal(lp) => Node::Literal(LiteralParser::new(lp.literal)),
        Node::And(a) => Node::And(AndParser::new(a.parsers.clone())),
        Node::Mapped(m) => Node::Mapped(rustynom::transformation_parsers::MapParser::new(
            m.parser,
            clone_transform(&m.transform),
        )),
        _ => panic!("not used here"),
    }
}

fn clone_transform(t: &Transform<char>) -> Transform<char> {
    match t {
        Transform::Identity => Transform::Identity,
        Transform::Constant(v) => Transform::Constant(v.deep_clone()),
        Transform::Field(i) => Transform::Field(*i),
        Transform::Select(ix) => Transform::Select(ix.clone()),
        Transform::Tag(k) => Transform::Tag(*k),
        Transform::Prepend => Transform::Prepend,
        Transform::Compose(f, h) => {
            Transform::Compose(Box::new(clone_transform(f)), Box::new(clone_transform(h)))
        }
    }
}

#[test]
fn mapping_twice_is_mapping_once_with_the_composition() {
    let inputs = ["ab", "abc", "ax", ""];
    let mut g = Grammar::<char, true>::new();
    let a = lit(&mut g, 'a');
    let b = lit(&mut g, 'b');
    let ab = g.and(a, b);
    let inner = g.map(ab, Transform::Field(1));
    let outer = g.map(inner, Transform::Tag(4));
    let fused = g.map(
        ab,
        Transform::Compose(Box::new(Transform::Field(1)), Box::new(Transform::Tag(4))),
    );
    let copy = |g: &Grammar<char, true>| {
        let mut c = Grammar::<char, true>::new();
        for node in g.nodes.iter() {
            c.add(clone_node(node));
        }
        c
    };
    let twice = ParserWrapper::new(copy(&g), outer).unwrap();
    let once = ParserWrapper::new(copy(&g), fused).unwrap();
    for input in inputs {
        assert_eq!(twice.parse_str(input), once.parse_str(input));
    }
    assert_eq!(
        once.parse_str("ab").unwrap_success(),
        Value::Variant(4, Box::new(Value::Elem('b')))
    );
}

#[test]
fn left_recursion_is_cut() {
    let mut g = Grammar::<char, true>::new();
    let x = lit(&mut g, 'x');
    let y = lit(&mut g, 'y');
    let cell = g.rec_ref();
    let left = g.and(cell, x);
    let body = g.add(Node::SameOr(SameOrParser::new2(left, y)));
    assert!(g.set(cell, body));
    g.rec(cell);
    let p = ParserWrapper::from_parser(g).unwrap();
    assert_eq!(p.parse_str("y").unwrap_success(), Value::Elem('y'));
    let f = p.parse_str("z").unwrap_failure();
    assert_eq!(f.furthest.index(), 0);
    assert_eq!(f.expected, labels(&["progress before recursion", "y"]));
}

#[test]
fn recursive_cells_are_filled_once() {
    let mut g = Grammar::<char, true>::new();
    let a = g.add(Node::LiteralList(LiteralListParser::new("a".to_string())));
    let cell = g.rec_ref();
    g.rec(cell);
    assert!(!g.set(a, a));
    assert!(!g.set(ParserId(99), a));
    assert!(!g.check());
    let mut unfilled = Grammar::<char, true>::new();
    let c = unfilled.rec_ref();
    unfilled.rec(c);
    assert!(ParserWrapper::from_parser(unfilled).is_none());
    assert!(g.set(cell, a));
    assert!(!g.set(cell, a));
    assert!(g.check());
    let p = ParserWrapper::from_parser(g).unwrap();
    assert_eq!(p.parse_str("a").unwrap_success(), Value::Run("a".to_string()));
}

#[test]
fn forward_references_are_refused() {
    let mut g = Grammar::<char, true>::new();
    g.many(ParserId(1));
    g.add(Node::Literal(LiteralParser::new('a')));
    assert!(!g.check());
    assert!(ParserWrapper::new(g, ParserId(0)).is_none());
    let empty = Grammar::<char, true>::new();
    assert!(ParserWrapper::from_parser(empty).is_none());
}

#[test]
fn parse_from_moves_the_given_cursor() {
    let mut g = Grammar::<char, true>::new();
    let a = lit(&mut g, 'a');
    let b = lit(&mut g, 'b');
    let ab = g.and(a, b);
    assert!(g.check());
    let input: Vec<char> = "xabac".chars().collect();
    let mut pos = rustynom::ParsingPosition::new(1);
    assert!(g.parse_from(ab, &input, &mut pos).is_success());
    assert_eq!(pos.index(), 3);
    let f = g.parse_from(ab, &input, &mut pos).unwrap_failure();
    assert_eq!(f.furthest.index(), 4);
    assert_eq!(pos.index(), 4);
    assert!(g.parse(ab, &input).is_failure());
}

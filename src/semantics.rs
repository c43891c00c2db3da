//! The meaning of a grammar: what each parser descriptor does, as a spec
//! function of the grammar, the input and the cursor.
use crate::atomic_parsers::{
    EofParser, LiteralListMapParser, LiteralListParser, LiteralListParserNoOutput, LiteralParser,
    LiteralParserNoOutput, SuccessParser,
};
use crate::combinator_parsers::{
    AndParser, OrParser, SameOrParser, SeparatedByParser, SkipParser, SurroundParser, ThenParser,
};
use crate::parsable::Parsable;
use crate::text::joined;
use crate::transformation_parsers::{
    apply_spec, BoxDescribeParser, DescribeParser, ManyNonEmptyParser, ManyParser, MapParser,
    OptionalParser, RecParser, RecRefParser,
};
use crate::utility_parsers::{
    digits_of, fold_run, in_class, run_end, AnyParser, ElemClass, MultiTestParser,
    MultiTestWithReduceParser, PositionParser, Reduce, RemainingParser, TestParser, UFloatParser,
    UIntParser, WhiteSpaceParser,
};
use crate::value::{SpecValue, Value};
use crate::{merge_spec, FailureView, ParseFailure, ParseResult};
use vstd::prelude::*;

verus! {

/// The index of a parser in its grammar.
#[derive(Debug, Clone, Copy, PartialEq, Eq)]
pub struct ParserId(pub usize);

/// One parser descriptor of a grammar.
pub enum Node<P: Parsable> {
    Literal(LiteralParser<P>),
    LiteralNoOutput(LiteralParserNoOutput<P>),
    LiteralList(LiteralListParser<P>),
    LiteralListNoOutput(LiteralListParserNoOutput<P>),
    LiteralListMap(LiteralListMapParser<P>),
    Eof(EofParser),
    Success(SuccessParser<P>),
    And(AndParser),
    Or(OrParser),
    SameOr(SameOrParser),
    Skip(SkipParser),
    Then(ThenParser),
    SeparatedBy(SeparatedByParser),
    Surround(SurroundParser),
    RecRef(RecRefParser),
    Rec(RecParser),
    Mapped(MapParser<P>),
    Many(ManyParser),
    ManyNonEmpty(ManyNonEmptyParser),
    Optional(OptionalParser),
    Describe(DescribeParser),
    BoxDescribe(BoxDescribeParser),
    Position(PositionParser),
    Any(AnyParser),
    Remaining(RemainingParser),
    Test(TestParser<P>),
    MultiTest(MultiTestParser<P>),
    MultiTestWithReduce(MultiTestWithReduceParser<P>),
    UInt(UIntParser),
    UFloat(UFloatParser),
    WhiteSpace(WhiteSpaceParser),
}

/// What a parse yields: a value, or a failure.
pub enum Outcome<T> {
    Parsed(SpecValue<T>),
    Failed(FailureView),
}

pub open spec fn result_view<P: Parsable>(r: ParseResult<Value<P>>) -> Outcome<P::T> {
    match r {
        crate::GenericParseResult::Success(v) => Outcome::Parsed(v@),
        crate::GenericParseResult::Failure(f) => Outcome::Failed(f@),
    }
}

/// The sub-parsers of a sequence or a choice.
pub open spec fn branches<P: Parsable>(n: Node<P>) -> Seq<ParserId> {
    match n {
        Node::And(a) => a.parsers@,
        Node::Or(o) => o.parsers@,
        Node::SameOr(o) => o.parsers@,
        _ => Seq::empty(),
    }
}

/// Whether every parser that node `n`, at index `i` of a grammar of `len`
/// parsers, refers to stands before it; a recursive cell must be filled, and
/// may refer to any parser.
pub open spec fn node_wf<P: Parsable>(n: Node<P>, i: int, len: int) -> bool {
    match n {
        Node::And(a) => forall|k: int| 0 <= k < a.parsers@.len() ==> a.parsers@[k].0 < i,
        Node::Or(o) => o.parsers@.len() > 0 && forall|k: int|
            0 <= k < o.parsers@.len() ==> o.parsers@[k].0 < i,
        Node::SameOr(o) => o.parsers@.len() > 0 && forall|k: int|
            0 <= k < o.parsers@.len() ==> o.parsers@[k].0 < i,
        Node::Skip(p) => p.parser1.0 < i && p.parser2.0 < i,
        Node::Then(p) => p.parser1.0 < i && p.parser2.0 < i,
        Node::SeparatedBy(p) => p.parser.0 < i && p.separator.0 < i,
        Node::Surround(p) => p.parser.0 < i && p.left.0 < i && p.right.0 < i,
        Node::RecRef(r) => match r.target {
            Some(t) => t.0 < len,
            None => false,
        },
        Node::Rec(p) => p.parser.0 < i,
        Node::Mapped(p) => p.parser.0 < i,
        Node::Many(p) => p.parser.0 < i,
        Node::ManyNonEmpty(p) => p.parser.0 < i,
        Node::Optional(p) => p.parser.0 < i,
        Node::Describe(p) => p.parser.0 < i,
        Node::BoxDescribe(p) => p.parser.0 < i,
        _ => true,
    }
}

pub open spec fn nodes_wf<P: Parsable>(g: Seq<Node<P>>) -> bool {
    forall|i: int| 0 <= i < g.len() ==> node_wf(#[trigger] g[i], i, g.len() as int)
}

/// The furthest index reached by nested expansions of each recursive cell
/// may only grow: `floors[i]` is the least position at which cell `i` may be
/// expanded again.
pub open spec fn floors_ok(floors: Seq<usize>, n: int, len: int) -> bool {
    &&& floors.len() == len
    &&& forall|i: int| 0 <= i < floors.len() ==> floors[i] <= n + 1
}

/// How many more expansions the floors allow, at most.
pub open spec fn budget(floors: Seq<usize>, n: int) -> int
    decreases floors.len(),
{
    if floors.len() == 0 {
        0
    } else {
        budget(floors.drop_last(), n) + (n + 1 - floors.last())
    }
}

pub open spec fn failure_opt_view(o: Option<ParseFailure>) -> Option<FailureView> {
    match o {
        Some(f) => Some(f@),
        None => None,
    }
}

/// The leaves that match literals, the end of input, or nothing.
pub open spec fn is_leaf<P: Parsable>(n: Node<P>) -> bool {
    ||| n is Literal
    ||| n is LiteralNoOutput
    ||| n is LiteralList
    ||| n is LiteralListNoOutput
    ||| n is LiteralListMap
    ||| n is Eof
    ||| n is Success
}

/// The parsers that scan the input without sub-parsers.
pub open spec fn is_scan<P: Parsable>(n: Node<P>) -> bool {
    ||| n is Position
    ||| n is Any
    ||| n is Remaining
    ||| n is Test
    ||| n is MultiTest
    ||| n is MultiTestWithReduce
    ||| n is UInt
    ||| n is UFloat
    ||| n is WhiteSpace
}

/// A failure with no label, for arguments outside the domain.
pub open spec fn bad<T>(pos: int) -> (int, Outcome<T>) {
    (pos, Outcome::Failed(FailureView { furthest: pos as nat, expected: None }))
}

/// A failure at `pos` that expected `label` (when diagnostics are on).
pub open spec fn fail_with<T>(pos: int, diag: bool, label: Seq<char>) -> (int, Outcome<T>) {
    (
        pos,
        Outcome::Failed(
            FailureView {
                furthest: pos as nat,
                expected: if diag {
                    Some(seq![label])
                } else {
                    None
                },
            },
        ),
    )
}

/// The label that `BoxDescribe` makes of inner labels and its own.
pub open spec fn boxed_label(inner: Seq<Seq<char>>, label: Seq<char>) -> Seq<char> {
    "["@ + joined(inner, ", "@) + "] as part of "@ + label
}

pub open spec fn digit_class<P: Parsable>() -> ElemClass<P> {
    ElemClass::<P>::Digit
}

/// Runs sub-parser `c` of the parser at `id`.
pub open spec fn run_child<P: Parsable>(
    g: Seq<Node<P>>,
    diag: bool,
    c: int,
    id: int,
    s: Seq<P::T>,
    pos: int,
    fl: Seq<usize>,
    fuel: nat,
) -> (int, Outcome<P::T>)
    decreases fuel, id, 0int, 0int,
{
    if 0 <= c < id {
        spec_parse(g, diag, c, s, pos, fl, fuel)
    } else {
        bad(pos)
    }
}

/// The sequence at `id`, from its `k`-th part on, with the outputs so far.
pub open spec fn and_loop<P: Parsable>(
    g: Seq<Node<P>>,
    diag: bool,
    id: int,
    k: int,
    s: Seq<P::T>,
    pos: int,
    fl: Seq<usize>,
    fuel: nat,
    acc: Seq<SpecValue<P::T>>,
) -> (int, Outcome<P::T>)
    decreases fuel, id, 0int, branches(g[id]).len() - k + 1,
{
    let ids = branches(g[id]);
    if !(0 <= id < g.len()) || k < 0 || k >= ids.len() {
        (pos, Outcome::Parsed(SpecValue::Tuple(acc)))
    } else {
        let (e, r) = run_child(g, diag, ids[k].0 as int, id, s, pos, fl, fuel);
        match r {
            Outcome::Failed(f) => (e, Outcome::Failed(f)),
            Outcome::Parsed(v) => and_loop(g, diag, id, k + 1, s, e, fl, fuel, acc.push(v)),
        }
    }
}

/// The choice at `id`, from its `k`-th branch on, with the failures so far
/// merged into `acc`.
pub open spec fn or_loop<P: Parsable>(
    g: Seq<Node<P>>,
    diag: bool,
    id: int,
    k: int,
    tagged: bool,
    s: Seq<P::T>,
    pos: int,
    fl: Seq<usize>,
    fuel: nat,
    acc: Option<FailureView>,
) -> (int, Outcome<P::T>)
    decreases fuel, id, 0int, branches(g[id]).len() - k + 1,
{
    let ids = branches(g[id]);
    if !(0 <= id < g.len()) || k < 0 || k >= ids.len() {
        match acc {
            Some(f) => (pos, Outcome::Failed(f)),
            None => bad(pos),
        }
    } else {
        let (e, r) = run_child(g, diag, ids[k].0 as int, id, s, pos, fl, fuel);
        match r {
            Outcome::Parsed(v) => (
                e,
                Outcome::Parsed(
                    if tagged {
                        SpecValue::Variant(k as nat, Box::new(v))
                    } else {
                        v
                    },
                ),
            ),
            Outcome::Failed(f) => {
                let merged = match acc {
                    Some(a) => merge_spec(a, f),
                    None => f,
                };
                or_loop(g, diag, id, k + 1, tagged, s, pos, fl, fuel, Some(merged))
            },
        }
    }
}

/// The rounds of `separator` then `parser` of the parser at `id`, from `pos`,
/// with the outputs so far.  A round that fails or consumes nothing ends the
/// list and is undone.
pub open spec fn sep_loop<P: Parsable>(
    g: Seq<Node<P>>,
    diag: bool,
    id: int,
    s: Seq<P::T>,
    pos: int,
    fl: Seq<usize>,
    fuel: nat,
    acc: Seq<SpecValue<P::T>>,
) -> (int, Outcome<P::T>)
    decreases fuel, id, 0int, s.len() - pos + 1,
{
    if !(0 <= id < g.len()) || !(0 <= pos <= s.len()) || !(g[id] is SeparatedBy) {
        bad(pos)
    } else {
        let sp = g[id]->SeparatedBy_0;
        let (es, rs) = run_child(g, diag, sp.separator.0 as int, id, s, pos, fl, fuel);
        if rs is Failed {
            (pos, Outcome::Parsed(SpecValue::List(acc)))
        } else {
            let (ep, rp) = run_child(g, diag, sp.parser.0 as int, id, s, es, fl, fuel);
            match rp {
                Outcome::Parsed(v) => if pos < ep <= s.len() {
                    sep_loop(g, diag, id, s, ep, fl, fuel, acc.push(v))
                } else {
                    (pos, Outcome::Parsed(SpecValue::List(acc)))
                },
                Outcome::Failed(_) => (pos, Outcome::Parsed(SpecValue::List(acc))),
            }
        }
    }
}

/// The parser that the repetition at `id` repeats.
pub open spec fn repeated<P: Parsable>(n: Node<P>) -> int {
    match n {
        Node::Many(p) => p.parser.0 as int,
        Node::ManyNonEmpty(p) => p.parser.0 as int,
        _ => -1,
    }
}

/// The repetition at `id`, from `pos`, with the outputs so far.  An attempt
/// that fails or consumes nothing ends the list and is undone.
pub open spec fn many_loop<P: Parsable>(
    g: Seq<Node<P>>,
    diag: bool,
    id: int,
    s: Seq<P::T>,
    pos: int,
    fl: Seq<usize>,
    fuel: nat,
    acc: Seq<SpecValue<P::T>>,
) -> (int, Outcome<P::T>)
    decreases fuel, id, 0int, s.len() - pos + 1,
{
    if !(0 <= id < g.len()) || !(0 <= pos <= s.len()) {
        bad(pos)
    } else {
        let (e, r) = run_child(g, diag, repeated(g[id]), id, s, pos, fl, fuel);
        match r {
            Outcome::Parsed(v) => if pos < e <= s.len() {
                many_loop(g, diag, id, s, e, fl, fuel, acc.push(v))
            } else {
                (pos, Outcome::Parsed(SpecValue::List(acc)))
            },
            Outcome::Failed(_) => (pos, Outcome::Parsed(SpecValue::List(acc))),
        }
    }
}

/// Two parsers in a row from `pos`; the output of the first or the second.
pub open spec fn pair<P: Parsable>(
    g: Seq<Node<P>>,
    diag: bool,
    id: int,
    a: int,
    b: int,
    keep_first: bool,
    s: Seq<P::T>,
    pos: int,
    fl: Seq<usize>,
    fuel: nat,
) -> (int, Outcome<P::T>)
    decreases fuel, id, 0int, 1int,
{
    let (e1, r1) = run_child(g, diag, a, id, s, pos, fl, fuel);
    match r1 {
        Outcome::Failed(f) => (e1, Outcome::Failed(f)),
        Outcome::Parsed(v1) => {
            let (e2, r2) = run_child(g, diag, b, id, s, e1, fl, fuel);
            match r2 {
                Outcome::Failed(f) => (e2, Outcome::Failed(f)),
                Outcome::Parsed(v2) => (
                    e2,
                    Outcome::Parsed(
                        if keep_first {
                            v1
                        } else {
                            v2
                        },
                    ),
                ),
            }
        },
    }
}

/// What the parser at index `id` of grammar `g` does when it starts at `pos`
/// of input `s`: where it leaves the cursor, and what it yields.  `diag`
/// says whether failures carry labels.  `fl` and `fuel` bound recursion: a
/// recursive cell that is reached again at the position where it is already
/// being expanded, without consuming anything, fails instead of recursing
/// forever.
pub open spec fn spec_parse<P: Parsable>(
    g: Seq<Node<P>>,
    diag: bool,
    id: int,
    s: Seq<P::T>,
    pos: int,
    fl: Seq<usize>,
    fuel: nat,
) -> (int, Outcome<P::T>)
    decreases fuel, id, 1int, 0int,
{
    let n = s.len() as int;
    if !(0 <= id < g.len()) || !(0 <= pos <= n) || fl.len() != g.len() {
        bad(pos)
    } else {
        match g[id] {
            Node::Literal(lp) => if pos < n && s[pos] == lp.literal {
                (pos + 1, Outcome::Parsed(SpecValue::Elem(s[pos])))
            } else {
                fail_with(pos, diag, lp.label@)
            },
            Node::LiteralNoOutput(lp) => if pos < n && s[pos] == lp.literal {
                (pos + 1, Outcome::Parsed(SpecValue::Unit))
            } else {
                fail_with(pos, diag, lp.label@)
            },
            Node::LiteralList(lp) => {
                let k = lp.slice@.len() as int;
                if pos + k <= n && s.subrange(pos, pos + k) == lp.slice@ {
                    (pos + k, Outcome::Parsed(SpecValue::Run(P::list_view(lp.list))))
                } else {
                    fail_with(pos, diag, lp.label@)
                }
            },
            Node::LiteralListNoOutput(lp) => {
                let k = lp.slice@.len() as int;
                if pos + k <= n && s.subrange(pos, pos + k) == lp.slice@ {
                    (pos + k, Outcome::Parsed(SpecValue::Unit))
                } else {
                    fail_with(pos, diag, lp.label@)
                }
            },
            Node::LiteralListMap(lp) => {
                let k = lp.slice@.len() as int;
                if pos + k <= n && s.subrange(pos, pos + k) == lp.slice@ {
                    (pos + k, Outcome::Parsed(lp.out@))
                } else {
                    fail_with(pos, diag, lp.label@)
                }
            },
            Node::Eof(_) => if pos >= n {
                (pos, Outcome::Parsed(SpecValue::Unit))
            } else {
                fail_with(pos, diag, "EOF"@)
            },
            Node::Success(sp) => (pos, Outcome::Parsed(sp.result@)),
            Node::And(_) => and_loop(g, diag, id, 0, s, pos, fl, fuel, Seq::empty()),
            Node::Or(_) => or_loop(g, diag, id, 0, true, s, pos, fl, fuel, None),
            Node::SameOr(_) => or_loop(g, diag, id, 0, false, s, pos, fl, fuel, None),
            Node::Skip(p) => pair(
                g,
                diag,
                id,
                p.parser1.0 as int,
                p.parser2.0 as int,
                true,
                s,
                pos,
                fl,
                fuel,
            ),
            Node::Then(p) => pair(
                g,
                diag,
                id,
                p.parser1.0 as int,
                p.parser2.0 as int,
                false,
                s,
                pos,
                fl,
                fuel,
            ),
            Node::Surround(p) => {
                let (e1, r1) = run_child(g, diag, p.left.0 as int, id, s, pos, fl, fuel);
                match r1 {
                    Outcome::Failed(f) => (e1, Outcome::Failed(f)),
                    Outcome::Parsed(_) => pair(
                        g,
                        diag,
                        id,
                        p.parser.0 as int,
                        p.right.0 as int,
                        true,
                        s,
                        e1,
                        fl,
                        fuel,
                    ),
                }
            },
            Node::SeparatedBy(p) => {
                let (e, r) = run_child(g, diag, p.parser.0 as int, id, s, pos, fl, fuel);
                match r {
                    Outcome::Failed(f) => (e, Outcome::Failed(f)),
                    Outcome::Parsed(v) => sep_loop(g, diag, id, s, e, fl, fuel, seq![v]),
                }
            },
            Node::Many(_) => many_loop(g, diag, id, s, pos, fl, fuel, Seq::empty()),
            Node::ManyNonEmpty(p) => {
                let (e, r) = run_child(g, diag, p.parser.0 as int, id, s, pos, fl, fuel);
                match r {
                    Outcome::Failed(f) => (e, Outcome::Failed(f)),
                    Outcome::Parsed(v) => many_loop(g, diag, id, s, e, fl, fuel, seq![v]),
                }
            },
            Node::Optional(p) => {
                let (e, r) = run_child(g, diag, p.parser.0 as int, id, s, pos, fl, fuel);
                match r {
                    Outcome::Parsed(v) => (e, Outcome::Parsed(SpecValue::Optional(Some(Box::new(v))))),
                    Outcome::Failed(_) => (pos, Outcome::Parsed(SpecValue::Optional(None))),
                }
            },
            Node::Mapped(p) => {
                let (e, r) = run_child(g, diag, p.parser.0 as int, id, s, pos, fl, fuel);
                match r {
                    Outcome::Parsed(v) => (e, Outcome::Parsed(apply_spec(p.transform, v))),
                    Outcome::Failed(f) => (e, Outcome::Failed(f)),
                }
            },
            Node::Describe(p) => {
                let (e, r) = run_child(g, diag, p.parser.0 as int, id, s, pos, fl, fuel);
                match r {
                    Outcome::Parsed(v) => (e, Outcome::Parsed(v)),
                    Outcome::Failed(f) => (
                        e,
                        Outcome::Failed(
                            FailureView {
                                furthest: f.furthest,
                                expected: if diag {
                                    Some(seq![p.label@])
                                } else {
                                    None
                                },
                            },
                        ),
                    ),
                }
            },
            Node::BoxDescribe(p) => {
                let (e, r) = run_child(g, diag, p.parser.0 as int, id, s, pos, fl, fuel);
                match r {
                    Outcome::Parsed(v) => (e, Outcome::Parsed(v)),
                    Outcome::Failed(f) => (
                        e,
                        Outcome::Failed(
                            FailureView {
                                furthest: f.furthest,
                                expected: match f.expected {
                                    Some(ls) => Some(seq![boxed_label(ls, p.label@)]),
                                    None => None,
                                },
                            },
                        ),
                    ),
                }
            },
            Node::RecRef(r) => match r.target {
                Some(t) => if !(fl[id] <= pos) {
                    fail_with(pos, diag, "progress before recursion"@)
                } else if fuel == 0 || !(0 <= t.0 < g.len()) {
                    bad(pos)
                } else {
                    spec_parse(
                        g,
                        diag,
                        t.0 as int,
                        s,
                        pos,
                        fl.update(id, (pos + 1) as usize),
                        (fuel - 1) as nat,
                    )
                },
                None => bad(pos),
            },
            Node::Rec(p) => run_child(g, diag, p.parser.0 as int, id, s, pos, fl, fuel),
            Node::Position(_) => (pos, Outcome::Parsed(SpecValue::Position(pos as nat))),
            Node::Any(_) => if pos < n {
                (pos + 1, Outcome::Parsed(SpecValue::Elem(s[pos])))
            } else {
                fail_with(pos, diag, "any character"@)
            },
            Node::Remaining(_) => (n, Outcome::Parsed(SpecValue::Run(s.subrange(pos, n)))),
            Node::Test(tp) => if pos < n && in_class(tp.class, s[pos]) {
                (pos + 1, Outcome::Parsed(SpecValue::Elem(s[pos])))
            } else {
                fail_with(pos, diag, tp.error_str@)
            },
            Node::MultiTest(mp) => {
                let e = run_end(mp.class, s, pos);
                if e == pos {
                    fail_with(pos, diag, mp.error_str@)
                } else {
                    (e, Outcome::Parsed(SpecValue::Run(s.subrange(pos, e))))
                }
            },
            Node::MultiTestWithReduce(mp) => {
                let e = run_end(mp.class, s, pos);
                if e == pos {
                    fail_with(pos, diag, mp.error_str@)
                } else {
                    (
                        e,
                        Outcome::Parsed(
                            SpecValue::Fold(
                                fold_run::<P>(mp.reduce, mp.initial, s.subrange(pos, e)),
                                (e - pos) as nat,
                            ),
                        ),
                    )
                }
            },
            Node::UInt(_) => {
                let e = run_end(digit_class::<P>(), s, pos);
                if e == pos {
                    fail_with(pos, diag, "a digit"@)
                } else {
                    (e, Outcome::Parsed(SpecValue::UInt(fold_run::<P>(Reduce::Decimal, 0, s.subrange(pos, e)))))
                }
            },
            Node::UFloat(_) => {
                let e = run_end(digit_class::<P>(), s, pos);
                if e == pos {
                    fail_with(pos, diag, "a digit"@)
                } else if e < n && P::is_point(s[e]) {
                    let f = run_end(digit_class::<P>(), s, e + 1);
                    (
                        f,
                        Outcome::Parsed(
                            SpecValue::Decimal(
                                digits_of::<P>(s.subrange(pos, e)),
                                digits_of::<P>(s.subrange(e + 1, f)),
                            ),
                        ),
                    )
                } else {
                    (
                        e,
                        Outcome::Parsed(
                            SpecValue::Decimal(digits_of::<P>(s.subrange(pos, e)), Seq::empty()),
                        ),
                    )
                }
            },
            Node::WhiteSpace(wp) => {
                let e = run_end(ElemClass::<P>::Whitespace, s, pos);
                if e == pos && !wp.optional {
                    fail_with(pos, diag, "whitespace"@)
                } else {
                    (e, Outcome::Parsed(SpecValue::Unit))
                }
            },
        }
    }
}


pub proof fn lemma_budget_nonneg(fl: Seq<usize>, n: int)
    requires
        forall|i: int| 0 <= i < fl.len() ==> fl[i] <= n + 1,
    ensures
        budget(fl, n) >= 0,
    decreases fl.len(),
{
    if fl.len() > 0 {
        lemma_budget_nonneg(fl.drop_last(), n);
    }
}

pub proof fn lemma_budget_update(fl: Seq<usize>, i: int, v: usize, n: int)
    requires
        0 <= i < fl.len(),
    ensures
        budget(fl.update(i, v), n) == budget(fl, n) - v + fl[i],
    decreases fl.len(),
{
    if i < fl.len() - 1 {
        lemma_budget_update(fl.drop_last(), i, v, n);
        assert(fl.update(i, v).drop_last() =~= fl.drop_last().update(i, v));
    } else {
        assert(fl.update(i, v).drop_last() =~= fl.drop_last());
    }
}

/// The floors at the start of a parse: every cell may be expanded anywhere.
pub open spec fn start_floors(len: nat) -> Seq<usize> {
    Seq::new(len, |i: int| 0usize)
}

} // verus!
